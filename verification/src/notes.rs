//! Nearest-match resolution from a raw pitch period to a note name
//! with an octave number.

use vstd::prelude::*;
use vstd::string::StringExecFns;
use crate::digits::{int_rep, push_int};

verus! {

/// Absolute difference of two integers.
pub open spec fn abs_diff(a: int, b: int) -> int {
    if a >= b {
        a - b
    } else {
        b - a
    }
}

/// The index of the table entry nearest to `p`; on a tie the smaller
/// index wins. Meaningful only for a non-empty table.
pub open spec fn best_index(t: Seq<u16>, p: u16) -> int
    recommends
        t.len() > 0,
    decreases t.len(),
{
    if t.len() <= 1 {
        0
    } else {
        let b = best_index(t.drop_last(), p);
        if abs_diff(p as int, t.last() as int) < abs_diff(p as int, t[b] as int) {
            t.len() - 1
        } else {
            b
        }
    }
}

/// On a non-empty table, `best_index` is in range, minimises the
/// absolute difference to `p`, and every smaller index does strictly
/// worse (so on an exact tie the smaller index wins).
pub proof fn lemma_best_index_minimal(t: Seq<u16>, p: u16)
    requires
        t.len() > 0,
    ensures
        0 <= best_index(t, p) < t.len(),
        forall|j: int|
            0 <= j < t.len() ==> abs_diff(p as int, t[best_index(t, p)] as int) <= abs_diff(
                p as int,
                (#[trigger] t[j]) as int,
            ),
        forall|j: int|
            0 <= j < best_index(t, p) ==> abs_diff(p as int, (#[trigger] t[j]) as int) > abs_diff(
                p as int,
                t[best_index(t, p)] as int,
            ),
    decreases t.len(),
{
    if t.len() > 1 {
        lemma_best_index_minimal(t.drop_last(), p);
        assert(forall|j: int| 0 <= j < t.len() - 1 ==> t.drop_last()[j] == t[j]);
    }
}

/// Name for the result of Unicode lowercasing: it depends on the
/// characters alone.
pub uninterp spec fn lower_of(s: Seq<char>) -> Seq<char>;

/// Relies on `str::to_lowercase`: the Unicode lowercase form of the
/// input, a function of the characters alone.
#[verifier::external_body]
fn lowercase(s: &str) -> (r: String)
    ensures
        r@ == lower_of(s@),
{
    s.to_lowercase()
}

/// The note token for `period`: the lowercased semitone name of the
/// nearest table entry, then the octave number. Empty when the table
/// is empty.
pub open spec fn note_spec(t: Seq<u16>, names: Seq<Seq<char>>, period: u16, octave_add: int) -> Seq<
    char,
> {
    if t.len() == 0 {
        Seq::<char>::empty()
    } else {
        let i = best_index(t, period);
        lower_of(names[i % 12]) + int_rep(i / 12 + octave_add)
    }
}

/// Scans the table for the entry nearest to `period`. Returns the
/// first index achieving the minimal absolute difference, or `None`
/// exactly when the table is empty.
pub fn note_index(table: &Vec<u16>, period: u16) -> (r: Option<usize>)
    ensures
        match r {
            Some(i) => table@.len() > 0 && i as int == best_index(table@, period),
            None => table@.len() == 0,
        },
{
    if table.len() == 0 {
        return None;
    }
    let mut best: usize = 0;
    let mut best_diff: u16 = if period >= table[0] {
        period - table[0]
    } else {
        table[0] - period
    };
    let mut i: usize = 1;
    while i < table.len()
        invariant
            1 <= i <= table@.len(),
            best < i,
            best as int == best_index(table@.take(i as int), period),
            best_diff as int == abs_diff(period as int, table@[best as int] as int),
        decreases table@.len() - i,
    {
        let d: u16 = if period >= table[i] {
            period - table[i]
        } else {
            table[i] - period
        };
        proof {
            assert(table@.take(i + 1).drop_last() =~= table@.take(i as int));
            assert(table@.take(i + 1).last() == table@[i as int]);
        }
        if d < best_diff {
            best = i;
            best_diff = d;
        }
        i = i + 1;
    }
    proof {
        assert(table@.take(table@.len() as int) =~= table@);
    }
    Some(best)
}

/// Resolves `period` against the pitch table: the nearest entry's
/// semitone name, lowercased, followed by the octave number
/// `index / 12 + octave_add`. Returns the empty string when the table
/// is empty; that case is recoverable, not fatal.
pub fn note_from_period(table: &Vec<u16>, names: &Vec<String>, period: u16, octave_add: i32) -> (
    note: String)
    requires
        names@.len() == 12,
    ensures
        note@ == note_spec(table@, names.deep_view(), period, octave_add as int),
{
    match note_index(table, period) {
        None => {
            let note = String::new();
            proof {
                assert(note@ =~= note_spec(table@, names.deep_view(), period, octave_add as int));
            }
            note
        },
        Some(found) => {
            proof {
                lemma_best_index_minimal(table@, period);
            }
            let idx: usize = found % 12;
            let q: usize = found / 12;
            proof {
                assert(names.deep_view().len() == names@.len());
                assert(names.deep_view()[idx as int] == names@[idx as int]@);
            }
            let mut note = lowercase(names[idx].as_str());
            let oct: i128 = q as i128 + octave_add as i128;
            push_int(oct, &mut note);
            proof {
                assert(note@ =~= note_spec(table@, names.deep_view(), period, octave_add as int));
            }
            note
        },
    }
}

} // verus!
