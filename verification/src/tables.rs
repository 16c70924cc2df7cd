//! The two immutable lookup tables: pitch periods and semitone names.
//!
//! Both are owned by the module-file library; this crate states their
//! contents and consumes them read-only.

use vstd::prelude::*;
use modfile::ptmf;

verus! {

/// The Amiga period lookup table: five octaves of twelve semitones,
/// in ascending pitch order (periods are inverse pitch, so the values
/// descend).
pub open spec fn amiga_periods() -> Seq<u16> {
    seq![
        1712u16, 1616u16, 1525u16, 1440u16, 1357u16, 1281u16, 1209u16, 1141u16, 1077u16,
        1017u16, 961u16, 907u16, 856u16, 808u16, 762u16, 720u16, 678u16, 640u16, 604u16,
        570u16, 538u16, 508u16, 480u16, 453u16, 428u16, 404u16, 381u16, 360u16, 339u16,
        320u16, 302u16, 285u16, 269u16, 254u16, 240u16, 226u16, 214u16, 202u16, 190u16,
        180u16, 170u16, 160u16, 151u16, 143u16, 135u16, 127u16, 120u16, 113u16, 107u16,
        101u16, 95u16, 90u16, 85u16, 80u16, 76u16, 71u16, 67u16, 64u16, 60u16, 57u16,
    ]
}

/// The twelve semitone names, ascending within an octave.
pub open spec fn amiga_note_names() -> Seq<Seq<char>> {
    seq![
        "C"@, "C#"@, "D"@, "D#"@, "E"@, "F"@, "F#"@, "G"@, "G#"@, "A"@, "A#"@, "B"@,
    ]
}

/// Relies on modfile's `ptmf::PERIODS`: the five-octave Amiga period
/// table, copied into a fresh vector.
#[verifier::external_body]
fn standard_periods() -> (r: Vec<u16>)
    ensures
        r@ == amiga_periods(),
{
    ptmf::PERIODS.to_vec()
}

/// Relies on modfile's `ptmf::NOTE_NAMES`: the twelve semitone names,
/// copied into fresh strings.
#[verifier::external_body]
fn standard_note_names() -> (r: Vec<String>)
    ensures
        r.deep_view() == amiga_note_names(),
{
    ptmf::NOTE_NAMES.iter().map(|s| s.to_string()).collect()
}

/// The standard pitch and note-name tables as owned vectors.
pub fn standard_tables() -> (r: (Vec<u16>, Vec<String>))
    ensures
        r.0@ == amiga_periods(),
        r.1.deep_view() == amiga_note_names(),
        r.1@.len() == 12,
{
    let periods = standard_periods();
    let names = standard_note_names();
    proof {
        assert(names.deep_view().len() == names@.len());
    }
    (periods, names)
}

} // verus!
