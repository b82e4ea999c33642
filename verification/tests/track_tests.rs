use rusttracker::sequence::{Command, Field, Note};
use rusttracker::track::Track;

fn sine_table() -> Vec<i8> {
    (0..256)
        .map(|i| ((i as f64 / 128.0 * 3.1415).sin() * 127.0) as i8)
        .collect()
}

fn field(note: Note, id: u8, data: u8) -> Field {
    Field {
        note,
        cmd: Command { id, data },
    }
}

fn track(rows: Vec<Vec<Field>>) -> Track {
    Track::new(rows, sine_table()).expect("valid pattern")
}

#[test]
fn construction_fails_fast_on_bad_input() {
    // empty and zero-width patterns are the construction-time violations
    assert!(Track::new(vec![], sine_table()).is_none());
    assert!(Track::new(vec![vec![]], sine_table()).is_none());
    assert!(Track::new(vec![vec![field(Note::Off, b'0', 0)]], vec![]).is_none());
    assert!(Track::new(vec![vec![field(Note::Off, b'0', 0)]], sine_table()).is_some());
    // the full authored pitch range is accepted
    assert!(Track::new(vec![vec![field(Note::On(127), b'0', 0)]], sine_table()).is_some());
    // a later row may even be empty; it plays silent
    let rows = vec![vec![field(Note::Off, b'0', 0)], vec![]];
    assert!(Track::new(rows, sine_table()).is_some());
}

#[test]
fn beat_clamps_pitch_into_note_range() {
    // pitches above 120 exist in the authored range but the channel note is
    // clamped to 120 << 8
    let mut t = track(vec![vec![field(Note::On(127), b'0', 0)]]);
    let out = t.next_tick();
    assert_eq!(out.chan[0].note, 120 << 8);
    // the portamento target is clamped the same way
    let mut t = track(vec![
        vec![field(Note::On(60), b'0', 0)],
        vec![field(Note::On(127), b'3', 0xFF)],
    ]);
    t.tick_rate = 1;
    t.next_tick();
    t.next_tick();
    for _ in 0..20 {
        let out = t.next_tick();
        assert!(out.chan[0].note <= 120 << 8);
    }
}

#[test]
fn zero_width_row_plays_silent() {
    let rows = vec![vec![field(Note::On(60), b'0', 0)], vec![]];
    let mut t = track(rows);
    t.tick_rate = 1;
    let out = t.next_tick();
    assert_eq!(out.chan.len(), 1);
    let out = t.next_tick();
    assert_eq!(out.chan.len(), 0);
    assert_eq!(out.tick_rate, 120);
    // and the pattern wraps back to the sounding row
    let out = t.next_tick();
    assert_eq!(out.chan.len(), 1);
    assert_eq!(out.chan[0].note, 60 << 8);
}

#[test]
fn beat_sets_note_and_volume() {
    let mut t = track(vec![vec![field(Note::On(60), b'0', 0)]]);
    let out = t.next_tick();
    assert_eq!(out.chan.len(), 1);
    assert_eq!(out.chan[0].note, 60 << 8);
    assert_eq!(out.chan[0].vol, 0x40);
    assert_eq!(out.tick_rate, 120 * 6);
    assert_eq!(*out.pcm, sine_table());
}

#[test]
fn note_off_silences_channel() {
    let mut t = track(vec![
        vec![field(Note::On(60), b'0', 0)],
        vec![field(Note::Off, b'0', 0)],
    ]);
    t.tick_rate = 1;
    let out = t.next_tick();
    assert_eq!(out.chan[0].vol, 0x40);
    let out = t.next_tick();
    assert_eq!(out.chan[0].vol, 0);
    // the note itself is retained; only the volume goes to zero
    assert_eq!(out.chan[0].note, 60 << 8);
}

#[test]
fn hold_keeps_previous_state() {
    let mut t = track(vec![
        vec![field(Note::On(60), b'0', 0)],
        vec![field(Note::Hold, b'0', 0)],
    ]);
    t.tick_rate = 1;
    t.next_tick();
    let out = t.next_tick();
    assert_eq!(out.chan[0].note, 60 << 8);
    assert_eq!(out.chan[0].vol, 0x40);
}

#[test]
fn effect_memory_survives_zero_data_repeat() {
    // the same slide amount applies on both ticks even though the second
    // command carries data zero
    let mut t = track(vec![
        vec![field(Note::On(60), b'1', 0x05)],
        vec![field(Note::Hold, b'1', 0x00)],
    ]);
    t.tick_rate = 1;
    let out = t.next_tick();
    assert_eq!(out.chan[0].note, (60 << 8) + 0x50);
    let out = t.next_tick();
    assert_eq!(out.chan[0].note, (60 << 8) + 0xA0);
}

#[test]
fn effect_memory_overwritten_by_new_id() {
    // a different identifier takes its own data even when that data is zero
    let mut t = track(vec![
        vec![field(Note::On(60), b'1', 0x05)],
        vec![field(Note::Hold, b'2', 0x00)],
        vec![field(Note::Hold, b'1', 0x00)],
    ]);
    t.tick_rate = 1;
    let out = t.next_tick();
    assert_eq!(out.chan[0].note, (60 << 8) + 0x50);
    // '2' with fresh zero data slides down by zero
    let out = t.next_tick();
    assert_eq!(out.chan[0].note, (60 << 8) + 0x50);
    // '1' is again a new id, so its zero data replaces the memory
    let out = t.next_tick();
    assert_eq!(out.chan[0].note, (60 << 8) + 0x50);
}

#[test]
fn arpeggio_cycles_base_hi_lo() {
    let mut t = track(vec![vec![field(Note::On(60), b'0', 0x47)]]);
    t.tick_rate = 3;
    let base = 60u16 << 8;
    let expected = [0u16, 4, 7, 0, 4, 7];
    for off in expected {
        let out = t.next_tick();
        assert_eq!(out.chan[0].note, base + (off << 8));
    }
}

#[test]
fn slide_up_saturates_at_top_of_range() {
    let mut t = track(vec![vec![field(Note::On(120), b'1', 0xFF)]]);
    for _ in 0..40 {
        let out = t.next_tick();
        assert_eq!(out.chan[0].note, 120 << 8);
    }
}

#[test]
fn slide_down_saturates_at_zero() {
    let mut t = track(vec![vec![field(Note::On(1), b'2', 0xFF)]]);
    let out = t.next_tick();
    assert_eq!(out.chan[0].note, 0);
    let out = t.next_tick();
    assert_eq!(out.chan[0].note, 0);
}

#[test]
fn portamento_converges_without_overshoot() {
    let mut t = track(vec![
        vec![field(Note::On(48), b'0', 0)],
        vec![field(Note::On(60), b'3', 0x10)],
    ]);
    t.tick_rate = 20;
    for _ in 0..20 {
        let out = t.next_tick();
        assert_eq!(out.chan[0].note, 48 << 8);
    }
    // row 1: the note-on under a portamento command becomes the glide
    // target; the pitch moves by 0x10 << 4 = 256 per tick.
    // distance is 12 << 8 = 3072, so it converges in exactly 12 ticks.
    let start = 48u16 << 8;
    let target = 60u16 << 8;
    for k in 1..=12u16 {
        let out = t.next_tick();
        assert_eq!(out.chan[0].note, start + k * 256);
    }
    assert_eq!(start + 12 * 256, target);
    // and stays there, never overshooting
    for _ in 0..8 {
        let out = t.next_tick();
        assert_eq!(out.chan[0].note, target);
    }
}

#[test]
fn jump_is_deferred_to_row_boundary() {
    let rows = vec![
        vec![field(Note::On(60), b'B', 0x02)],
        vec![field(Note::On(62), b'0', 0)],
        vec![field(Note::On(64), b'0', 0)],
    ];
    let mut t = track(rows);
    t.tick_rate = 3;
    // all three sub-ticks of row 0 issue the jump, but the row pointer
    // only moves when the sub-tick counter next reaches the tick rate
    for _ in 0..3 {
        t.next_tick();
        assert_eq!(t.row, 0);
    }
    let out = t.next_tick();
    assert_eq!(t.row, 2);
    assert_eq!(out.chan[0].note, 64 << 8);
}

#[test]
fn requested_jump_waits_for_row_boundary() {
    let mut t = track(vec![
        vec![field(Note::On(60), b'0', 0)],
        vec![field(Note::On(62), b'0', 0)],
        vec![field(Note::On(64), b'0', 0)],
    ]);
    t.tick_rate = 2;
    t.next_tick();
    t.request_jump(2);
    assert_eq!(t.row, 0);
    t.next_tick();
    assert_eq!(t.row, 0);
    t.next_tick();
    assert_eq!(t.row, 2);
    // a request beyond the pattern is rejected with no effect
    t.request_jump(5);
    assert_eq!(t.row_jump, None);
}

#[test]
fn out_of_range_jump_is_rejected_without_effect() {
    let mut t = track(vec![
        vec![field(Note::On(60), b'B', 0x09)],
        vec![field(Note::On(62), b'0', 0)],
    ]);
    t.tick_rate = 1;
    t.next_tick();
    assert_eq!(t.row_jump, None);
    t.next_tick();
    // without a recorded jump the row simply advances
    assert_eq!(t.row, 1);
}

#[test]
fn unknown_command_leaves_channel_unchanged() {
    let mut t = track(vec![vec![field(Note::On(60), b'A', 0x55)]]);
    let out = t.next_tick();
    assert_eq!(out.chan[0].note, 60 << 8);
    assert_eq!(out.chan[0].vol, 0x40);
    assert_eq!(t.tick_rate, 6);
    assert_eq!(t.bpm, 120);
    assert_eq!(t.row_jump, None);
}

#[test]
fn speed_command_sets_tick_rate_or_bpm() {
    // data below 32 sets the tick rate to data + 1
    let mut t = track(vec![vec![field(Note::On(60), b'F', 3)]]);
    t.next_tick();
    assert_eq!(t.tick_rate, 4);
    assert_eq!(t.bpm, 120);
    // data of 32 or more sets the beats per minute
    let mut t = track(vec![vec![field(Note::On(60), b'F', 150)]]);
    t.next_tick();
    assert_eq!(t.tick_rate, 6);
    assert_eq!(t.bpm, 150);
}

#[test]
fn speed_change_lands_in_snapshot_rate() {
    // two-row scenario: after row 1's beat tick the tick rate is 4 and the
    // snapshot carries the updated combined rate
    let mut t = track(vec![
        vec![field(Note::On(60), b'0', 0)],
        vec![field(Note::On(72), b'F', 3)],
    ]);
    for _ in 0..6 {
        let out = t.next_tick();
        assert_eq!(out.tick_rate, 120 * 6);
    }
    let out = t.next_tick();
    assert_eq!(t.tick_rate, 4);
    assert_eq!(out.tick_rate, 120 * 4);
}

#[test]
fn channel_state_resizes_at_row_boundaries() {
    let mut t = track(vec![
        vec![field(Note::On(60), b'0', 0), field(Note::On(64), b'0', 0)],
        vec![field(Note::On(48), b'0', 0)],
    ]);
    t.tick_rate = 1;
    let out = t.next_tick();
    assert_eq!(out.chan.len(), 2);
    assert_eq!(out.chan[1].note, 64 << 8);
    let out = t.next_tick();
    assert_eq!(out.chan.len(), 1);
    assert_eq!(out.chan[0].note, 48 << 8);
}

#[test]
fn width_follows_current_row() {
    let mut t = track(vec![
        vec![field(Note::Off, b'0', 0), field(Note::Off, b'0', 0)],
        vec![field(Note::Off, b'0', 0)],
    ]);
    t.tick_rate = 1;
    assert_eq!(t.width(), 2);
    t.next_tick();
    t.next_tick();
    assert_eq!(t.width(), 1);
}
