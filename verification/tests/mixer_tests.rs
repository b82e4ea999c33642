use rusttracker::mixer::{calc_phase_inc, Mixer};
use rusttracker::sequence::{Command, Field, Note};
use rusttracker::track::Track;

fn field(note: Note, id: u8, data: u8) -> Field {
    Field {
        note,
        cmd: Command { id, data },
    }
}

#[test]
fn mix_saturates_at_positive_rail() {
    // eight channels at full volume over an all-maximum table would sum to
    // 8 * 127 * 64 = 65024; the output clips at the sample rail instead of
    // wrapping
    let pcm = vec![127i8; 256];
    let row = vec![field(Note::On(60), b'0', 0); 8];
    let t = Track::new(vec![row], pcm).unwrap();
    let mut m = Mixer::new(48000, t);
    assert_eq!(m.get_point(), i16::MAX);
    assert_eq!(m.get_point(), i16::MAX);
}

#[test]
fn mix_saturates_at_negative_rail() {
    let pcm = vec![-128i8; 256];
    let row = vec![field(Note::On(60), b'0', 0); 8];
    let t = Track::new(vec![row], pcm).unwrap();
    let mut m = Mixer::new(48000, t);
    assert_eq!(m.get_point(), i16::MIN);
}

#[test]
fn mix_of_two_quiet_channels_is_their_sum() {
    let pcm = vec![10i8; 256];
    let row = vec![field(Note::On(60), b'0', 0); 2];
    let t = Track::new(vec![row], pcm).unwrap();
    let mut m = Mixer::new(48000, t);
    // each channel contributes 10 * 64
    assert_eq!(m.get_point(), 2 * 10 * 64);
}

#[test]
fn phase_playback_is_cyclic() {
    // a ramp table: the rendered stream must repeat once the total phase
    // advance comes back around the window
    let pcm: Vec<i8> = (0i8..16).collect();
    let row = vec![field(Note::On(60), b'0', 0)];
    let t = Track::new(vec![row], pcm).unwrap();
    let mut m = Mixer::new(48000, t);
    let samples: Vec<i16> = (0..1536).map(|_| m.get_point()).collect();
    // note 60 yields a phase increment of 600 per sample; the window
    // modulus is 16 << 8 = 4096, and 512 * 600 is a multiple of 4096, so
    // the stream has period 512
    assert_eq!(calc_phase_inc(60 << 8, 256, 48000), 600);
    assert_eq!((512 * 600) % 4096, 0);
    for k in 0..1024 {
        assert_eq!(samples[k], samples[k + 512]);
    }
}

#[test]
fn phase_increment_doubles_per_octave() {
    let base = calc_phase_inc(60 << 8, 256, 48000);
    assert_eq!(base, 600);
    assert_eq!(calc_phase_inc(72 << 8, 256, 48000), 1201);
    assert_eq!(calc_phase_inc(48 << 8, 256, 48000), 300);
    // a higher sample rate spreads the same cycle over more samples
    assert!(calc_phase_inc(60 << 8, 256, 96000) < base);
    // increments grow with pitch
    assert!(calc_phase_inc((60 << 8) + 128, 256, 48000) > base);
}

#[test]
fn phase_increment_covers_extremes() {
    // the lowest note still advances
    assert_eq!(calc_phase_inc(0, 256, 48000), 18);
    // an absurd playback rate saturates instead of wrapping
    assert_eq!(calc_phase_inc(120 << 8, u32::MAX, 1), u32::MAX);
}

#[test]
fn tick_boundaries_follow_combined_rate() {
    let pcm = vec![0i8; 256];
    let rows = vec![
        vec![field(Note::On(60), b'0', 0)],
        vec![field(Note::On(72), b'F', 3)],
    ];
    let t = Track::new(rows, pcm).unwrap();
    let mut m = Mixer::new(48000, t);
    // the first sample pulls the first tick: 120 bpm * 6 ticks = 720 ticks
    // per minute, so a tick lasts 48000 * 60 / 720 = 4000 samples
    m.get_point();
    assert_eq!(m.next_tick, 4000);
    // six ticks of row 0 pass before row 1's beat changes the speed
    for _ in 1..24001 {
        m.get_point();
    }
    // the seventh pull ran row 1: tick rate 4, so 120 * 4 = 480 ticks per
    // minute and the next tick is 48000 * 60 / 480 = 6000 samples later
    assert_eq!(m.ctrl.tick_rate, 4);
    assert_eq!(m.next_tick, 24000 + 6000);
}

#[test]
fn mixer_starts_inert() {
    let pcm = vec![0i8; 256];
    let t = Track::new(vec![vec![field(Note::Off, b'0', 0)]], pcm).unwrap();
    let m = Mixer::new(48000, t);
    assert_eq!(m.samp_count, 0);
    assert_eq!(m.next_tick, 0);
    assert_eq!(m.chan.len(), 0);
    assert_eq!(m.input.tick_rate, 0);
}

#[test]
fn silent_channel_contributes_nothing() {
    let pcm = vec![127i8; 256];
    let t = Track::new(vec![vec![field(Note::Off, b'0', 0)]], pcm).unwrap();
    let mut m = Mixer::new(48000, t);
    for _ in 0..100 {
        assert_eq!(m.get_point(), 0);
    }
}
