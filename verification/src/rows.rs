//! One time-slice of pattern data: four channels, flattened into a
//! single note token, and the pattern-break test.

use vstd::prelude::*;
use vstd::string::StringExecFns;
use crate::notes::{note_spec, note_from_period};

verus! {

/// What the conversion reads of one channel: the pitch period
/// (0 means no note) and the effect command word.
#[derive(Clone, Copy, PartialEq, Eq, Structural, Debug)]
pub struct Channel {
    pub period: u16,
    pub effect: u16,
}

/// The octave offset policy: channel 0 plays at offset 0, channels
/// 1 to 3 uniformly at offset +1.
pub open spec fn channel_offset(i: int) -> int {
    if i > 0 {
        1
    } else {
        0
    }
}

/// The note token of a row: the rest token when every channel's
/// period is zero, otherwise the note of the last channel with a
/// positive period, resolved at that channel's octave offset.
pub open spec fn flatten_spec(t: Seq<u16>, names: Seq<Seq<char>>, cs: Seq<Channel>) -> Seq<char>
    decreases cs.len(),
{
    if cs.len() == 0 {
        "R"@
    } else if cs.last().period > 0 {
        note_spec(t, names, cs.last().period, channel_offset(cs.len() - 1))
    } else {
        flatten_spec(t, names, cs.drop_last())
    }
}

/// Collapses a row's channels into one note token, scanning channels
/// in index order so that the last channel with a positive period
/// wins; a row of rests yields the rest token.
pub fn flatten_row(table: &Vec<u16>, names: &Vec<String>, channels: &Vec<Channel>) -> (note:
    String)
    requires
        names@.len() == 12,
    ensures
        note@ == flatten_spec(table@, names.deep_view(), channels@),
{
    let mut note = String::from_str("R");
    proof {
        assert(channels@.take(0) =~= Seq::<Channel>::empty());
    }
    let mut i: usize = 0;
    while i < channels.len()
        invariant
            names@.len() == 12,
            i <= channels@.len(),
            note@ == flatten_spec(table@, names.deep_view(), channels@.take(i as int)),
        decreases channels@.len() - i,
    {
        let c = channels[i];
        let octave_add: i32 = if i > 0 {
            1
        } else {
            0
        };
        if c.period > 0 {
            note = note_from_period(table, names, c.period, octave_add);
        }
        proof {
            assert(channels@.take(i + 1).drop_last() =~= channels@.take(i as int));
            assert(channels@.take(i + 1).last() == channels@[i as int]);
        }
        i = i + 1;
    }
    proof {
        assert(channels@.take(channels@.len() as int) =~= channels@);
    }
    note
}

/// The bitwise OR of the four channels' command words.
pub open spec fn row_command_or(cs: Seq<Channel>) -> u16
    recommends
        cs.len() == 4,
{
    cs[0].effect | cs[1].effect | cs[2].effect | cs[3].effect
}

/// The row-level pattern-break test: the OR of all four command
/// words, masked to the command-code nibble, equals the break code.
/// Unrelated bits from different channels can combine under the OR to
/// hit or miss the code; that imprecision is part of the contract.
pub open spec fn is_break_spec(cs: Seq<Channel>) -> bool
    recommends
        cs.len() == 4,
{
    row_command_or(cs) & 0x0f00 == 0x0d00
}

/// Decides whether a row stops pattern playback early: true exactly
/// when the OR of the four channels' command words carries the
/// pattern-break code 0x0D in the command nibble.
pub fn is_pattern_break(channels: &Vec<Channel>) -> (b: bool)
    requires
        channels@.len() == 4,
    ensures
        b == is_break_spec(channels@),
{
    let effect = channels[0].effect | channels[1].effect | channels[2].effect | channels[3].effect;
    effect & 0x0f00 == 0x0d00
}

/// A row whose channels all have period zero flattens to the rest
/// token.
pub proof fn lemma_flatten_all_rests(t: Seq<u16>, names: Seq<Seq<char>>, cs: Seq<Channel>)
    requires
        forall|i: int| 0 <= i < cs.len() ==> (#[trigger] cs[i]).period == 0,
    ensures
        flatten_spec(t, names, cs) == "R"@,
    decreases cs.len(),
{
    if cs.len() > 0 {
        assert(forall|i: int|
            0 <= i < cs.drop_last().len() ==> (#[trigger] cs.drop_last()[i]).period == 0);
        lemma_flatten_all_rests(t, names, cs.drop_last());
    }
}

/// When channel 3 of a four-channel row has a positive period, it
/// decides the row's note, at octave offset +1 — whatever the earlier
/// channels hold (last channel wins).
pub proof fn lemma_flatten_last_channel_wins(t: Seq<u16>, names: Seq<Seq<char>>, cs: Seq<Channel>)
    requires
        cs.len() == 4,
        cs[3].period > 0,
    ensures
        flatten_spec(t, names, cs) == note_spec(t, names, cs[3].period, 1),
{
    assert(cs.last() == cs[3]);
}

/// When one channel carries the pattern-break code in its command
/// nibble and the other three channels' command nibbles are clear,
/// the row-level detection fires.
pub proof fn lemma_break_single_channel(cs: Seq<Channel>, i: int)
    requires
        cs.len() == 4,
        0 <= i < 4,
        cs[i].effect & 0x0f00 == 0x0d00,
        forall|j: int| 0 <= j < 4 && j != i ==> (#[trigger] cs[j]).effect & 0x0f00 == 0,
    ensures
        is_break_spec(cs),
{
    let e0 = cs[0].effect;
    let e1 = cs[1].effect;
    let e2 = cs[2].effect;
    let e3 = cs[3].effect;
    if i == 0 {
        assert((e0 | e1 | e2 | e3) & 0x0f00 == 0x0d00) by (bit_vector)
            requires
                e0 & 0x0f00 == 0x0d00,
                e1 & 0x0f00 == 0,
                e2 & 0x0f00 == 0,
                e3 & 0x0f00 == 0,
        ;
    } else if i == 1 {
        assert((e0 | e1 | e2 | e3) & 0x0f00 == 0x0d00) by (bit_vector)
            requires
                e1 & 0x0f00 == 0x0d00,
                e0 & 0x0f00 == 0,
                e2 & 0x0f00 == 0,
                e3 & 0x0f00 == 0,
        ;
    } else if i == 2 {
        assert((e0 | e1 | e2 | e3) & 0x0f00 == 0x0d00) by (bit_vector)
            requires
                e2 & 0x0f00 == 0x0d00,
                e0 & 0x0f00 == 0,
                e1 & 0x0f00 == 0,
                e3 & 0x0f00 == 0,
        ;
    } else {
        assert((e0 | e1 | e2 | e3) & 0x0f00 == 0x0d00) by (bit_vector)
            requires
                e3 & 0x0f00 == 0x0d00,
                e0 & 0x0f00 == 0,
                e1 & 0x0f00 == 0,
                e2 & 0x0f00 == 0,
        ;
    }
}

} // verus!
