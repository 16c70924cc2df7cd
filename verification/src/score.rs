//! Playback order, early termination, and run-length encoding of the
//! flattened note tokens: one output line per played pattern
//! instance.

use vstd::prelude::*;
use vstd::string::StringExecFns;
use crate::digits::{dec_rep, push_dec};
use crate::rows::{Channel, flatten_spec, flatten_row, is_break_spec, is_pattern_break};
use crate::tables::{amiga_periods, amiga_note_names};

verus! {

/// One time-slice: the channels sounding together.
pub struct Row {
    pub channels: Vec<Channel>,
}

/// A reusable ordered sequence of rows.
pub struct Pattern {
    pub rows: Vec<Row>,
}

/// A module's playback data: `length` positions are played, each
/// position naming a pattern by index.
pub struct Module {
    pub length: usize,
    pub positions: Vec<usize>,
    pub patterns: Vec<Pattern>,
}

/// A row holds exactly four channels.
pub open spec fn row_wf(r: Row) -> bool {
    r.channels@.len() == 4
}

/// A pattern holds at least one row, each of four channels.
pub open spec fn pattern_wf(p: Pattern) -> bool {
    &&& p.rows@.len() >= 1
    &&& forall|i: int| 0 <= i < p.rows@.len() ==> row_wf(#[trigger] p.rows@[i])
}

/// Every played position is in range and names a well-formed pattern.
pub open spec fn module_wf(m: Module) -> bool {
    &&& m.length <= m.positions@.len()
    &&& forall|i: int|
        0 <= i < m.length ==> (#[trigger] m.positions@[i]) < m.patterns@.len() && pattern_wf(
            m.patterns@[m.positions@[i] as int],
        )
}

/// The index of the first row carrying the pattern-break command, or
/// the row count when none does.
pub open spec fn first_break(rows: Seq<Row>) -> int
    decreases rows.len(),
{
    if rows.len() == 0 {
        0
    } else if is_break_spec(rows[0].channels@) {
        0
    } else {
        1 + first_break(rows.drop_first())
    }
}

/// How many rows are played: up to and including the first break row,
/// or all rows when no row breaks.
pub open spec fn played_len(rows: Seq<Row>) -> int {
    if first_break(rows) < rows.len() {
        first_break(rows) + 1
    } else {
        rows.len() as int
    }
}

/// The rows actually played, in order.
pub open spec fn played_rows(rows: Seq<Row>) -> Seq<Row> {
    rows.take(played_len(rows))
}

/// `first_break` is the first index whose row carries the break
/// command: no earlier row does, and the row there does when the
/// index is in range.
pub proof fn lemma_first_break(rows: Seq<Row>)
    ensures
        0 <= first_break(rows) <= rows.len(),
        forall|i: int|
            0 <= i < first_break(rows) ==> !is_break_spec((#[trigger] rows[i]).channels@),
        first_break(rows) < rows.len() ==> is_break_spec(
            rows[first_break(rows)].channels@,
        ),
    decreases rows.len(),
{
    if rows.len() == 0 {
    } else if is_break_spec(rows[0].channels@) {
    } else {
        lemma_first_break(rows.drop_first());
        let fb = first_break(rows);
        assert forall|i: int| 0 <= i < fb implies !is_break_spec(
            (#[trigger] rows[i]).channels@,
        ) by {
            if i > 0 {
                assert(rows.drop_first()[i - 1] == rows[i]);
                assert(!is_break_spec(rows.drop_first()[i - 1].channels@));
            }
        }
        if fb < rows.len() {
            assert(rows.drop_first()[fb - 1] == rows[fb]);
        }
    }
}

/// The note tokens of a sequence of rows, in order.
pub open spec fn row_notes(t: Seq<u16>, names: Seq<Seq<char>>, rows: Seq<Row>) -> Seq<Seq<char>> {
    rows.map_values(|r: Row| flatten_spec(t, names, r.channels@))
}

/// One emitted `NOTE COUNT` pair: the note, a space, the decimal
/// count, a trailing space.
pub open spec fn pair_token(note: Seq<char>, count: nat) -> Seq<char> {
    note + " "@ + dec_rep(count) + " "@
}

/// Run-length encoding of the remaining note tokens, with `cur` the
/// note of the open run and `count` its length so far; the final run
/// is followed by a newline.
pub open spec fn rle_from(notes: Seq<Seq<char>>, cur: Seq<char>, count: nat) -> Seq<char>
    decreases notes.len(),
{
    if notes.len() == 0 {
        pair_token(cur, count) + "\n"@
    } else if notes[0] == cur {
        rle_from(notes.drop_first(), cur, count + 1)
    } else {
        pair_token(cur, count) + rle_from(notes.drop_first(), notes[0], 1)
    }
}

/// The output line for a non-empty sequence of note tokens.
pub open spec fn line_spec(notes: Seq<Seq<char>>) -> Seq<char>
    recommends
        notes.len() >= 1,
{
    rle_from(notes.drop_first(), notes[0], 1)
}

/// The output line of one pattern instance: run-length encoding of
/// the note tokens of its played rows.
pub open spec fn pattern_line_spec(t: Seq<u16>, names: Seq<Seq<char>>, p: Pattern) -> Seq<char> {
    line_spec(row_notes(t, names, played_rows(p.rows@)))
}

/// The output of the first `k` positions, in playback order.
pub open spec fn render_upto(t: Seq<u16>, names: Seq<Seq<char>>, m: Module, k: int) -> Seq<char>
    decreases k,
{
    if k <= 0 {
        Seq::<char>::empty()
    } else {
        render_upto(t, names, m, k - 1) + pattern_line_spec(
            t,
            names,
            m.patterns@[m.positions@[k - 1] as int],
        )
    }
}

/// The whole output: one line per played position.
pub open spec fn render_spec(t: Seq<u16>, names: Seq<Seq<char>>, m: Module) -> Seq<char> {
    render_upto(t, names, m, m.length as int)
}

/// Run-length law: five rows whose note tokens run `a a a b b`, with
/// `a` and `b` distinct, encode to the pair `a 3`, the pair `b 2`,
/// then the newline.
pub proof fn lemma_run_length_pairs(a: Seq<char>, b: Seq<char>)
    requires
        a != b,
    ensures
        line_spec(seq![a, a, a, b, b]) == pair_token(a, 3) + pair_token(b, 2) + "\n"@,
{
    let e = Seq::<Seq<char>>::empty();
    let n1 = seq![b];
    let n2 = seq![b, b];
    let n3 = seq![a, b, b];
    let n4 = seq![a, a, b, b];
    let notes = seq![a, a, a, b, b];
    assert(rle_from(e, b, 2) == pair_token(b, 2) + "\n"@);
    assert(n1.drop_first() =~= e);
    assert(rle_from(n1, b, 1) == rle_from(e, b, 2));
    assert(n2.drop_first() =~= n1);
    assert(rle_from(n2, a, 3) == pair_token(a, 3) + rle_from(n1, b, 1));
    assert(n3.drop_first() =~= n2);
    assert(rle_from(n3, a, 2) == rle_from(n2, a, 3));
    assert(n4.drop_first() =~= n3);
    assert(rle_from(n4, a, 1) == rle_from(n3, a, 2));
    assert(notes.drop_first() =~= n4);
    assert(line_spec(notes) == rle_from(n4, a, 1));
    assert(line_spec(notes) =~= pair_token(a, 3) + pair_token(b, 2) + "\n"@);
}

/// Converts one pattern instance to its output line: flattens each
/// played row, counts consecutive identical note tokens, and emits
/// `NOTE COUNT ` pairs, the last followed by a newline. Rows after
/// the first pattern-break row are never read.
pub fn pattern_line(table: &Vec<u16>, names: &Vec<String>, pattern: &Pattern) -> (line: String)
    requires
        names@.len() == 12,
        pattern_wf(*pattern),
    ensures
        line@ == pattern_line_spec(table@, names.deep_view(), *pattern),
{
    let ghost t = table@;
    let ghost nn = names.deep_view();
    let ghost rs = pattern.rows@;
    let ghost fb = first_break(rs);
    let ghost pnotes = row_notes(t, nn, played_rows(rs));
    proof {
        lemma_first_break(rs);
        assert(pnotes.len() == played_len(rs));
        assert(row_wf(rs[0]));
        assert(played_rows(rs)[0] == rs[0]);
        assert(pnotes[0] == flatten_spec(t, nn, rs[0].channels@));
    }
    let row0 = &pattern.rows[0];
    let mut cur = flatten_row(table, names, &row0.channels);
    let mut count: usize = 1;
    let mut out = String::new();
    let mut stopped = is_pattern_break(&row0.channels);
    let mut r: usize = 1;
    proof {
        if stopped {
            assert(fb == 0);
        } else {
            if fb == 0 && rs.len() > 0 {
                assert(is_break_spec(rs[0].channels@));
            }
            assert(fb >= 1);
        }
        assert(pnotes.skip(1) =~= pnotes.drop_first());
        assert(line_spec(pnotes) =~= out@ + rle_from(pnotes.skip(1), cur@, 1 as nat));
    }
    while !stopped && r < pattern.rows.len()
        invariant
            names@.len() == 12,
            pattern_wf(*pattern),
            t == table@,
            nn == names.deep_view(),
            rs == pattern.rows@,
            fb == first_break(rs),
            pnotes == row_notes(t, nn, played_rows(rs)),
            pnotes.len() == played_len(rs),
            0 <= fb <= rs.len(),
            forall|i: int|
                0 <= i < fb ==> !is_break_spec((#[trigger] rs[i]).channels@),
            fb < rs.len() ==> is_break_spec(rs[fb].channels@),
            1 <= r <= rs.len(),
            1 <= count <= r,
            stopped ==> r == played_len(rs),
            !stopped ==> r <= fb,
            line_spec(pnotes) == out@ + rle_from(pnotes.skip(r as int), cur@, count as nat),
        decreases rs.len() - r,
    {
        proof {
            assert(row_wf(rs[r as int]));
            assert(r < played_len(rs));
            assert(played_rows(rs)[r as int] == rs[r as int]);
            assert(pnotes[r as int] == flatten_spec(t, nn, rs[r as int].channels@));
            assert(pnotes.skip(r as int)[0] == pnotes[r as int]);
            assert(pnotes.skip(r as int).drop_first() =~= pnotes.skip(r as int + 1));
        }
        let rowr = &pattern.rows[r];
        let cand = flatten_row(table, names, &rowr.channels);
        if cand == cur {
            count = count + 1;
        } else {
            let ghost out0 = out@;
            out.append(cur.as_str());
            out.append(" ");
            push_dec(count as u128, &mut out);
            out.append(" ");
            proof {
                assert(out@ =~= out0 + pair_token(cur@, count as nat));
            }
            cur = cand;
            count = 1;
        }
        if is_pattern_break(&rowr.channels) {
            stopped = true;
            proof {
                assert(fb == r);
            }
        } else {
            proof {
                if fb == r {
                    assert(is_break_spec(rs[r as int].channels@));
                }
                assert(fb >= r + 1);
            }
        }
        r = r + 1;
    }
    proof {
        if !stopped {
            assert(fb == rs.len());
        }
        assert(r == played_len(rs));
        assert(pnotes.skip(r as int) =~= Seq::<Seq<char>>::empty());
    }
    let ghost out1 = out@;
    out.append(cur.as_str());
    out.append(" ");
    push_dec(count as u128, &mut out);
    out.append(" ");
    out.append("\n");
    proof {
        assert(out@ =~= out1 + (pair_token(cur@, count as nat) + "\n"@));
        assert(out@ =~= pattern_line_spec(t, nn, *pattern));
    }
    out
}

/// Converts a module: plays the positions in ascending order and
/// emits one line per played pattern instance; a pattern referenced
/// by several positions is re-emitted each time.
pub fn render_module(table: &Vec<u16>, names: &Vec<String>, module: &Module) -> (out: String)
    requires
        names@.len() == 12,
        module_wf(*module),
    ensures
        out@ == render_spec(table@, names.deep_view(), *module),
{
    let ghost t = table@;
    let ghost nn = names.deep_view();
    let mut out = String::new();
    let mut p: usize = 0;
    while p < module.length
        invariant
            names@.len() == 12,
            module_wf(*module),
            t == table@,
            nn == names.deep_view(),
            p <= module.length,
            out@ == render_upto(t, nn, *module, p as int),
        decreases module.length - p,
    {
        let pos = module.positions[p];
        let line = pattern_line(table, names, &module.patterns[pos]);
        out.append(line.as_str());
        proof {
            assert(out@ =~= render_upto(t, nn, *module, p as int + 1));
        }
        p = p + 1;
    }
    out
}

/// Converts a module with the standard Amiga pitch and note-name
/// tables.
pub fn render_module_standard(module: &Module) -> (out: String)
    requires
        module_wf(*module),
    ensures
        out@ == render_spec(amiga_periods(), amiga_note_names(), *module),
{
    let (periods, names) = crate::tables::standard_tables();
    render_module(&periods, &names, module)
}

} // verus!
