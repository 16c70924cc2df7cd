use mod2appleii::digits::int_to_string;
use mod2appleii::notes::{note_from_period, note_index};
use mod2appleii::rows::{flatten_row, is_pattern_break, Channel};
use mod2appleii::score::{pattern_line, render_module, render_module_standard, Module, Pattern, Row};
use mod2appleii::tables::standard_tables;

fn ch(period: u16, effect: u16) -> Channel {
    Channel { period, effect }
}

fn rest_row() -> Row {
    Row { channels: vec![ch(0, 0), ch(0, 0), ch(0, 0), ch(0, 0)] }
}

fn note_row(channel: usize, period: u16) -> Row {
    let mut row = rest_row();
    row.channels[channel].period = period;
    row
}

#[test]
fn decimal_formatting() {
    assert_eq!(int_to_string(0), "0");
    assert_eq!(int_to_string(35), "35");
    assert_eq!(int_to_string(-7), "-7");
    assert_eq!(int_to_string(1203), "1203");
    assert_eq!(int_to_string(-120), "-120");
}

#[test]
fn note_index_nearest_match() {
    let (periods, _names) = standard_tables();
    assert_eq!(periods.len(), 60);
    // Exact hits.
    assert_eq!(note_index(&periods, 1712), Some(0));
    assert_eq!(note_index(&periods, 856), Some(12));
    assert_eq!(note_index(&periods, 57), Some(59));
    // Nearest, not exact: 855 is closer to 856 than to 808.
    assert_eq!(note_index(&periods, 855), Some(12));
    // Period 0 is nearest to the smallest table entry.
    assert_eq!(note_index(&periods, 0), Some(59));
    // Far above the largest entry.
    assert_eq!(note_index(&periods, 65535), Some(0));
}

#[test]
fn note_index_tie_prefers_smaller_index() {
    let table: Vec<u16> = vec![10, 20];
    assert_eq!(note_index(&table, 15), Some(0));
    assert_eq!(note_index(&table, 14), Some(0));
    assert_eq!(note_index(&table, 16), Some(1));
}

#[test]
fn note_index_empty_table() {
    let table: Vec<u16> = Vec::new();
    assert_eq!(note_index(&table, 440), None);
}

#[test]
fn note_from_period_names_and_octaves() {
    let (periods, names) = standard_tables();
    assert_eq!(note_from_period(&periods, &names, 1712, 0), "c0");
    assert_eq!(note_from_period(&periods, &names, 1616, 0), "c#0");
    assert_eq!(note_from_period(&periods, &names, 856, 0), "c1");
    assert_eq!(note_from_period(&periods, &names, 453, 0), "b1");
    assert_eq!(note_from_period(&periods, &names, 57, 0), "b4");
    // The octave offset is added, not clamped: it may go negative.
    assert_eq!(note_from_period(&periods, &names, 1712, -3), "c-3");
    assert_eq!(note_from_period(&periods, &names, 856, 1), "c2");
}

#[test]
fn note_from_period_empty_table_recovers() {
    let (_periods, names) = standard_tables();
    let empty: Vec<u16> = Vec::new();
    assert_eq!(note_from_period(&empty, &names, 440, 0), "");
}

#[test]
fn flatten_all_rests_gives_rest_token() {
    let (periods, names) = standard_tables();
    let row = rest_row();
    assert_eq!(flatten_row(&periods, &names, &row.channels), "R");
}

#[test]
fn flatten_channel_zero_uses_offset_zero() {
    let (periods, names) = standard_tables();
    let row = note_row(0, 1712);
    assert_eq!(flatten_row(&periods, &names, &row.channels), "c0");
}

#[test]
fn flatten_channel_three_uses_offset_one() {
    let (periods, names) = standard_tables();
    let row = note_row(3, 1712);
    assert_eq!(flatten_row(&periods, &names, &row.channels), "c1");
}

#[test]
fn flatten_last_channel_wins() {
    let (periods, names) = standard_tables();
    let mut row = note_row(0, 856);
    row.channels[3].period = 1712;
    // Channel 3 overwrites channel 0: its period, at octave offset +1.
    assert_eq!(flatten_row(&periods, &names, &row.channels), "c1");
}

#[test]
fn pattern_break_single_channel() {
    for i in 0..4 {
        let mut row = rest_row();
        row.channels[i].effect = 0x0D00;
        assert!(is_pattern_break(&row.channels));
    }
}

#[test]
fn pattern_break_keeps_parameter_bits() {
    let mut row = rest_row();
    row.channels[1].effect = 0x0D42;
    assert!(is_pattern_break(&row.channels));
}

#[test]
fn pattern_break_absent() {
    let row = rest_row();
    assert!(!is_pattern_break(&row.channels));
    let mut jump = rest_row();
    jump.channels[0].effect = 0x0B00;
    assert!(!is_pattern_break(&jump.channels));
}

#[test]
fn pattern_break_or_combination_false_positive() {
    // Inherited imprecision: 0x09 | 0x04 == 0x0D under the mask.
    let mut row = rest_row();
    row.channels[0].effect = 0x0900;
    row.channels[1].effect = 0x0400;
    assert!(is_pattern_break(&row.channels));
}

#[test]
fn pattern_break_or_combination_miss() {
    // Inherited imprecision: a break on channel 0 is masked by
    // channel 1's bits, 0x0D | 0x02 == 0x0F under the mask.
    let mut row = rest_row();
    row.channels[0].effect = 0x0D00;
    row.channels[1].effect = 0x0200;
    assert!(!is_pattern_break(&row.channels));
}

#[test]
fn run_length_three_then_two() {
    let (periods, names) = standard_tables();
    let pattern = Pattern {
        rows: vec![
            note_row(0, 1712),
            note_row(0, 1712),
            note_row(0, 1712),
            note_row(0, 856),
            note_row(0, 856),
        ],
    };
    assert_eq!(pattern_line(&periods, &names, &pattern), "c0 3 c1 2 \n");
}

#[test]
fn run_length_alternating_notes() {
    let (periods, names) = standard_tables();
    let pattern = Pattern {
        rows: vec![note_row(0, 1712), note_row(0, 856), note_row(0, 1712)],
    };
    assert_eq!(pattern_line(&periods, &names, &pattern), "c0 1 c1 1 c0 1 \n");
}

#[test]
fn run_length_rests_count_too() {
    let (periods, names) = standard_tables();
    let pattern = Pattern { rows: vec![rest_row(), rest_row(), note_row(0, 1712)] };
    assert_eq!(pattern_line(&periods, &names, &pattern), "R 2 c0 1 \n");
}

#[test]
fn end_to_end_two_identical_rows() {
    let pattern = Pattern { rows: vec![note_row(0, 1712), note_row(0, 1712)] };
    let module = Module { length: 1, positions: vec![0], patterns: vec![pattern] };
    assert_eq!(render_module_standard(&module), "c0 2 \n");
}

#[test]
fn end_to_end_break_on_first_row() {
    let mut first = note_row(0, 1712);
    first.channels[1].effect = 0x0D00;
    let pattern = Pattern { rows: vec![first, note_row(0, 856), note_row(0, 453)] };
    let module = Module { length: 1, positions: vec![0], patterns: vec![pattern] };
    // Rows 1 and 2 never contribute.
    assert_eq!(render_module_standard(&module), "c0 1 \n");
}

#[test]
fn break_row_still_contributes_its_note() {
    let pattern = Pattern {
        rows: vec![note_row(0, 1712), note_row(0, 856), {
            let mut r = note_row(0, 453);
            r.channels[2].effect = 0x0D21;
            r
        }, note_row(0, 57)],
    };
    let module = Module { length: 1, positions: vec![0], patterns: vec![pattern] };
    assert_eq!(render_module_standard(&module), "c0 1 c1 1 b1 1 \n");
}

#[test]
fn positions_replay_the_same_pattern() {
    let pattern = Pattern { rows: vec![note_row(0, 1712), note_row(0, 856)] };
    let module = Module { length: 2, positions: vec![0, 0], patterns: vec![pattern] };
    assert_eq!(render_module_standard(&module), "c0 1 c1 1 \nc0 1 c1 1 \n");
}

#[test]
fn positions_order_is_followed() {
    let pat_a = Pattern { rows: vec![note_row(0, 1712)] };
    let pat_b = Pattern { rows: vec![note_row(0, 856), note_row(0, 856)] };
    let module = Module { length: 3, positions: vec![1, 0, 1], patterns: vec![pat_a, pat_b] };
    assert_eq!(render_module_standard(&module), "c1 2 \nc0 1 \nc1 2 \n");
}

#[test]
fn unplayed_positions_are_ignored() {
    let pattern = Pattern { rows: vec![note_row(0, 1712)] };
    let module = Module { length: 1, positions: vec![0, 7, 9], patterns: vec![pattern] };
    assert_eq!(render_module_standard(&module), "c0 1 \n");
}

#[test]
fn custom_tables_flow_through() {
    let periods: Vec<u16> = vec![100, 90, 80, 70, 60, 50, 40, 30, 20, 10, 9, 8, 7];
    let names: Vec<String> = vec![
        "Do", "Re", "Mi", "Fa", "Sol", "La", "Ti", "Na", "Nb", "Nc", "Nd", "Ne",
    ]
    .into_iter()
    .map(|s| s.to_string())
    .collect();
    // Index 12 wraps to name 0 at octave 1.
    assert_eq!(note_from_period(&periods, &names, 7, 0), "do1");
    let pattern = Pattern { rows: vec![note_row(0, 100), note_row(0, 100)] };
    let module = Module { length: 1, positions: vec![0], patterns: vec![pattern] };
    assert_eq!(render_module(&periods, &names, &module), "do0 2 \n");
}
