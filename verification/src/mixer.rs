//! The mixing side of the core: the per-tick snapshot a sequencer hands to
//! the mixer, and the pull interface the mixer drives once per tick.

use crate::base32;
use crate::sequence::{all_hex, hex_value, Command};
use std::sync::Arc;
use vstd::arithmetic::power2::{lemma2_to64, lemma_pow2_adds, lemma_pow2_pos, pow2};
use vstd::prelude::*;

verus! {

/// Playback parameters for one channel for one tick: the effective note in
/// fixed point (upper 8 bits semitone, lower 8 bits tuning), a window into
/// the waveform table, the per-sample playback rate, and the volume.
#[derive(Clone, Copy, PartialEq, Eq, Structural, Debug)]
pub struct ChannelIn {
    pub note: u16,
    pub pcm_off: usize,
    pub pcm_len: u32,
    pub pcm_rate: u32,
    pub vol: i16,
}

/// One tick's worth of mixing input: the combined tick rate in ticks per
/// minute, a shared handle on the waveform table, and one descriptor per
/// channel.
pub struct MixerIn {
    pub tick_rate: u16,
    pub pcm: Arc<Vec<i8>>,
    pub chan: Vec<ChannelIn>,
}

impl ChannelIn {
    /// The descriptor points at a nonempty window inside the table, the
    /// window is small enough for fixed-point phase arithmetic, and the
    /// volume is within the mixable range.
    pub open spec fn wf(self, pcm_len_total: nat) -> bool {
        &&& 1 <= self.pcm_len <= 0xFFFFFF
        &&& self.pcm_off + self.pcm_len <= pcm_len_total
        &&& 0 <= self.vol <= 255
    }
}

impl MixerIn {
    /// A snapshot the mixer can render from: a positive tick rate and one
    /// well-formed descriptor per channel.
    pub open spec fn wf(&self) -> bool {
        &&& self.tick_rate >= 1
        &&& forall|i: int|
            0 <= i < self.chan@.len() ==> (#[trigger] self.chan@[i]).wf(self.pcm@.len())
    }

    /// An inert snapshot: no channels, no table, tick rate zero.
    pub fn new() -> (r: Self)
        ensures
            r.tick_rate == 0,
            r.pcm@.len() == 0,
            r.chan@.len() == 0,
    {
        MixerIn { tick_rate: 0, pcm: Arc::new(Vec::new()), chan: Vec::new() }
    }
}

/// The pull interface between the sequencer and the mixer: one call per
/// tick boundary returns the next tick's parameters. A `ready` controller
/// stays ready, so the mixer may keep pulling for as long as it runs; and
/// each call takes exactly one step of the implementor's own `stepped`
/// relation, so a caller whose contract carries `stepped` is pinned to a
/// single pull.
pub trait Controller: Sized {
    spec fn ready(&self) -> bool;

    /// The implementor's one-pull step relation: how one `next` call takes
    /// the controller from `pre` to `post` while handing out `out`.
    spec fn stepped(pre: Self, post: Self, out: MixerIn) -> bool;

    fn next(&mut self) -> (out: MixerIn)
        requires
            old(self).ready(),
        ensures
            final (self).ready(),
            out.wf(),
            Self::stepped(*old(self), *final (self), out),
    ;
}

/// The equal-tempered frequency ratio of a semitone step within one octave,
/// in Q16: `spec_tone(i)` is `2^(i/12) * 2^16` rounded to the nearest
/// integer, for `i` from 0 to 12.
pub open spec fn spec_tone(i: int) -> int {
    if i <= 0 {
        65536
    } else if i == 1 {
        69433
    } else if i == 2 {
        73562
    } else if i == 3 {
        77936
    } else if i == 4 {
        82570
    } else if i == 5 {
        87480
    } else if i == 6 {
        92682
    } else if i == 7 {
        98193
    } else if i == 8 {
        104032
    } else if i == 9 {
        110218
    } else if i == 10 {
        116772
    } else if i == 11 {
        123715
    } else {
        131072
    }
}

fn tone(i: u32) -> (r: u32)
    ensures
        r == spec_tone(i as int),
{
    if i == 0 {
        65536
    } else if i == 1 {
        69433
    } else if i == 2 {
        73562
    } else if i == 3 {
        77936
    } else if i == 4 {
        82570
    } else if i == 5 {
        87480
    } else if i == 6 {
        92682
    } else if i == 7 {
        98193
    } else if i == 8 {
        104032
    } else if i == 9 {
        110218
    } else if i == 10 {
        116772
    } else if i == 11 {
        123715
    } else {
        131072
    }
}

/// The phase increment for a note, in table positions per output sample in
/// Q8 fixed point. The note (in 1/256 semitone units, 60 semitones below
/// the reference A of 440 Hz scaled by `2^5`) selects an octave, a semitone
/// ratio interpolated linearly within the octave, and the result is scaled
/// by the channel's playback rate and divided by the output sample rate,
/// saturating at `u32::MAX`.
pub open spec fn spec_phase_inc(note: u16, pcm_rate: u32, srate: u32) -> u32
    recommends
        srate >= 1,
{
    let total = note as int;
    let q = total / 3072;
    let st = (total % 3072) / 256;
    let fr = total % 256;
    let ratio = spec_tone(st) + (spec_tone(st + 1) - spec_tone(st)) * fr / 256;
    let inc = 440 * ratio * pcm_rate * pow2(q as nat) / (8192 * srate);
    if inc > u32::MAX {
        u32::MAX
    } else {
        inc as u32
    }
}

/// Computes the phase increment for a note with integer arithmetic alone.
pub fn calc_phase_inc(note: u16, pcm_rate: u32, srate: u32) -> (r: u32)
    requires
        1 <= srate,
    ensures
        r == spec_phase_inc(note, pcm_rate, srate),
{
    let total = note as u32;
    let q = total / 3072;
    let st = (total % 3072) / 256;
    let fr = total % 256;
    let t0 = tone(st);
    let t1 = tone(st + 1);
    assert(t0 <= t1 <= 131072);
    assert(t1 - t0 <= 7357);
    let d = (t1 - t0) as u64;
    proof {
        assert(d * (fr as u64) <= 7357 * 255) by (nonlinear_arith)
            requires
                0 <= d <= 7357,
                0 <= fr <= 255,
        ;
    }
    let ratio = (t0 as u64) + d * (fr as u64) / 256;
    assert(ratio <= 140000);
    proof {
        assert(440 * (ratio as int) * (pcm_rate as int) <= 440 * 140000 * 0x1_0000_0000) by (
        nonlinear_arith)
            requires
                0 <= ratio <= 140000,
                0 <= pcm_rate <= 0xFFFF_FFFFu32,
        ;
    }
    let mut num: u128 = 440u128 * (ratio as u128) * (pcm_rate as u128);
    let ghost base = num as int;
    proof {
        assert(pow2(0) == 1) by {
            lemma2_to64();
        }
    }
    let mut k: u32 = 0;
    while k < q
        invariant
            k <= q,
            q <= 21,
            0 <= base <= 440 * 140000 * 0x1_0000_0000,
            num == base * pow2(k as nat),
        decreases q - k,
    {
        proof {
            lemma2_to64();
            assert(pow2(k as nat) * 2 == pow2((k + 1) as nat)) by {
                lemma_pow2_adds(k as nat, 1);
            }
            assert(pow2(k as nat) <= pow2(20)) by {
                if (k as nat) < 20 {
                    vstd::arithmetic::power2::lemma_pow2_strictly_increases(k as nat, 20);
                }
            }
            assert(base * pow2(k as nat) * 2 <= 0x1_0000_0000_0000_0000_0000_0000) by (
            nonlinear_arith)
                requires
                    0 <= base <= 440 * 140000 * 0x1_0000_0000,
                    0 <= pow2(k as nat) <= 0x100000,
            ;
            assert(num * 2 == base * pow2((k + 1) as nat)) by (nonlinear_arith)
                requires
                    num == base * pow2(k as nat),
                    pow2((k + 1) as nat) == 2 * pow2(k as nat),
            ;
        }
        num = num * 2;
        k += 1;
    }
    let den: u128 = 8192u128 * (srate as u128);
    proof {
        lemma_pow2_pos(q as nat);
        assert(num / den == base * pow2(q as nat) / (8192 * srate)) by (nonlinear_arith)
            requires
                num == base * pow2(q as nat),
                den == 8192 * (srate as int),
                base >= 0,
                pow2(q as nat) > 0,
                srate >= 1,
        ;
    }
    let inc = num / den;
    if inc > 0xFFFF_FFFF {
        u32::MAX
    } else {
        inc as u32
    }
}

/// The per-sample state of one mixer channel: a fixed-point phase
/// accumulator into the channel's waveform window, and the increment it
/// advances by each sample.
#[derive(Clone, Copy, PartialEq, Eq, Structural, Debug)]
pub struct Channel {
    pub phase: u32,
    pub phase_inc: u32,
}

impl Channel {
    pub fn new() -> (r: Self)
        ensures
            r.phase == 0,
            r.phase_inc == 0,
    {
        Channel { phase: 0, phase_inc: 0 }
    }
}

/// The window modulus of a channel: its window length in fixed point. A
/// phase accumulator is reduced modulo this value before each table lookup,
/// which is what loops playback.
pub open spec fn window_mod(ci: ChannelIn) -> int {
    ci.pcm_len as int * 256
}

/// One channel's contribution to a sample: the table byte under the phase,
/// scaled by the channel's volume.
pub open spec fn sample_at(pcm: Seq<i8>, ci: ChannelIn, phase: u32) -> int {
    pcm[ci.pcm_off + (phase as int % window_mod(ci)) / 256] as int * ci.vol as int
}

/// Saturating 16-bit addition: the exact sum, clipped to the representable
/// sample range instead of wrapping.
pub open spec fn sat_add_i16(a: int, b: int) -> int {
    if a + b > i16::MAX {
        i16::MAX as int
    } else if a + b < i16::MIN {
        i16::MIN as int
    } else {
        a + b
    }
}

/// The mixed output of the first `i` channels: their contributions summed
/// with saturating addition, starting from silence.
pub open spec fn mix_fold(pcm: Seq<i8>, chans: Seq<ChannelIn>, pre: Seq<Channel>, i: int) -> int
    decreases i,
{
    if i <= 0 {
        0
    } else {
        sat_add_i16(
            mix_fold(pcm, chans, pre, i - 1),
            sample_at(pcm, chans[i - 1], pre[i - 1].phase),
        )
    }
}

/// A phase accumulator after one sample: reduced modulo the window, then
/// advanced by the increment with intentional 32-bit wraparound.
pub open spec fn advance_phase(phase: u32, inc: u32, m: int) -> u32 {
    ((phase as int % m + inc) % 0x1_0000_0000) as u32
}

/// The channel states in effect right after a tick boundary: phases carry
/// over (new channels start at zero) and every increment is recomputed from
/// the fresh snapshot.
pub open spec fn pre_chans(old_chans: Seq<Channel>, input: MixerIn, srate: u32) -> Seq<Channel> {
    Seq::new(
        input.chan@.len(),
        |i: int|
            Channel {
                phase: if i < old_chans.len() {
                    old_chans[i].phase
                } else {
                    0u32
                },
                phase_inc: spec_phase_inc(input.chan@[i].note, input.chan@[i].pcm_rate, srate),
            },
    )
}

/// The length of a tick in samples, computed from the combined tick rate in
/// ticks per minute.
pub open spec fn spec_tick_len(srate: u32, tick_rate: u16) -> u32
    recommends
        tick_rate >= 1,
        srate * 60 <= u32::MAX,
{
    ((srate * 60) / tick_rate as int) as u32
}

/// The mixer: a state machine over a running sample counter that pulls a
/// fresh snapshot from its controller once per tick boundary and between
/// boundaries renders one output sample per call, advancing every phase
/// accumulator.
pub struct Mixer<C: Controller> {
    pub srate: u32,
    pub samp_count: u32,
    pub next_tick: u32,
    pub chan: Vec<Channel>,
    pub ctrl: C,
    pub input: MixerIn,
}

impl<C: Controller> Mixer<C> {
    /// The sample rate is positive and small enough that a minute of
    /// samples is countable in 32 bits, the phase state matches the current
    /// snapshot channel for channel, the snapshot is renderable (or nothing
    /// has been pulled yet and no channels exist), and the controller can
    /// be pulled.
    pub open spec fn wf(&self) -> bool {
        &&& 1 <= self.srate <= 71_582_788
        &&& self.chan@.len() == self.input.chan@.len()
        &&& (self.input.wf() || self.input.chan@.len() == 0)
        &&& self.ctrl.ready()
    }

    pub fn new(srate: i32, ctrl: C) -> (r: Mixer<C>)
        requires
            1 <= srate <= 71_582_788,
            ctrl.ready(),
        ensures
            r.srate == srate,
            r.samp_count == 0,
            r.next_tick == 0,
            r.chan@.len() == 0,
            r.input.tick_rate == 0,
            r.input.chan@.len() == 0,
            r.input.pcm@.len() == 0,
            r.ctrl == ctrl,
            r.wf(),
    {
        Mixer {
            srate: srate as u32,
            samp_count: 0,
            next_tick: 0,
            chan: Vec::new(),
            ctrl,
            input: MixerIn::new(),
        }
    }

    /// Crosses one tick boundary: pulls the next snapshot from the
    /// controller — exactly one `next` call, as the `stepped` clause
    /// records — resizes the phase state to it (new channels start at phase
    /// zero), recomputes every phase increment from the new notes, and
    /// schedules the next boundary one tick length ahead.
    #[verifier::loop_isolation(false)]
    fn tick(&mut self)
        requires
            old(self).wf(),
        ensures
            final (self).wf(),
            final (self).input.wf(),
            C::stepped(old(self).ctrl, final (self).ctrl, final (self).input),
            final (self).srate == old(self).srate,
            final (self).samp_count == old(self).samp_count,
            final (self).chan@ == pre_chans(old(self).chan@, final (self).input, old(self).srate),
            final (self).next_tick as int == (old(self).next_tick + spec_tick_len(
                old(self).srate,
                final (self).input.tick_rate,
            )) % 0x1_0000_0000,
    {
        let ghost old_chans = self.chan@;
        let input = self.ctrl.next();
        self.input = input;
        let ghost in1 = self.input;
        let ghost c1 = self.ctrl;
        let w = self.input.chan.len();
        if self.chan.len() > w {
            self.chan.truncate(w);
        }
        while self.chan.len() < w
            invariant
                self.chan@.len() <= w,
                old_chans.len() <= self.chan@.len() || self.chan@.len() == w,
                forall|j: int|
                    0 <= j < self.chan@.len() ==> (#[trigger] self.chan@[j]).phase == (if j
                        < old_chans.len() {
                        old_chans[j].phase
                    } else {
                        0u32
                    }),
                self.input == in1,
                self.srate == old(self).srate,
                self.samp_count == old(self).samp_count,
                self.next_tick == old(self).next_tick,
                self.ctrl == c1,
                self.ctrl.ready(),
            decreases w - self.chan@.len(),
        {
            self.chan.push(Channel::new());
        }
        let mut i: usize = 0;
        while i < w
            invariant
                i <= w,
                self.chan@.len() == w,
                forall|j: int|
                    0 <= j < i ==> self.chan@[j] == pre_chans(old_chans, in1, old(self).srate)[j],
                forall|j: int|
                    i <= j < w ==> (#[trigger] self.chan@[j]).phase == (if j < old_chans.len() {
                        old_chans[j].phase
                    } else {
                        0u32
                    }),
                self.input == in1,
                self.srate == old(self).srate,
                self.samp_count == old(self).samp_count,
                self.next_tick == old(self).next_tick,
                self.ctrl == c1,
                self.ctrl.ready(),
            decreases w - i,
        {
            let ci = self.input.chan[i];
            let inc = calc_phase_inc(ci.note, ci.pcm_rate, self.srate);
            let mut ch = self.chan[i];
            ch.phase_inc = inc;
            self.chan[i] = ch;
            i += 1;
        }
        proof {
            assert(self.chan@ =~= pre_chans(old_chans, in1, old(self).srate));
        }
        let tick_len = (self.srate * 60) / (self.input.tick_rate as u32);
        self.next_tick = self.next_tick.wrapping_add(tick_len);
    }

    /// Renders one output sample. At a tick boundary — when the sample
    /// counter has reached the scheduled tick — the mixer first pulls and
    /// applies a fresh snapshot. Every channel then contributes the table
    /// byte under its phase, scaled by its volume; the contributions are
    /// summed with saturating addition; and each phase advances by its
    /// increment, wrapping within the channel's window.
    #[verifier::loop_isolation(false)]
    pub fn get_point(&mut self) -> (out: i16)
        requires
            old(self).wf(),
        ensures
            final (self).wf(),
            final (self).srate == old(self).srate,
            final (self).samp_count as int == (old(self).samp_count + 1) % 0x1_0000_0000,
            old(self).samp_count == old(self).next_tick ==> final (self).input.wf() && C::stepped(
                old(self).ctrl,
                final (self).ctrl,
                final (self).input,
            ) && final (self).next_tick as int == (old(self).next_tick + spec_tick_len(
                old(self).srate,
                final (self).input.tick_rate,
            )) % 0x1_0000_0000,
            old(self).samp_count != old(self).next_tick ==> final (self).input == old(self).input
                && final (self).next_tick == old(self).next_tick && final (self).ctrl == old(
            self).ctrl,
            ({
                let pre = if old(self).samp_count == old(self).next_tick {
                    pre_chans(old(self).chan@, final (self).input, old(self).srate)
                } else {
                    old(self).chan@
                };
                &&& final (self).chan@.len() == pre.len()
                &&& final (self).chan@.len() == final (self).input.chan@.len()
                &&& forall|i: int|
                    0 <= i < pre.len() ==> (#[trigger] final (self).chan@[i]).phase_inc
                        == pre[i].phase_inc && final (self).chan@[i].phase == advance_phase(
                        pre[i].phase,
                        pre[i].phase_inc,
                        window_mod(final (self).input.chan@[i]),
                    )
                &&& out == mix_fold(
                    final (self).input.pcm@,
                    final (self).input.chan@,
                    pre,
                    pre.len() as int,
                )
            }),
    {
        if self.samp_count == self.next_tick {
            self.tick();
        }
        let ghost mid = *self;
        let ghost pre = self.chan@;
        let w = self.chan.len();
        let mut total: i16 = 0;
        let mut i: usize = 0;
        while i < w
            invariant
                i <= w,
                self.chan@.len() == w,
                w == self.input.chan@.len(),
                self.input.wf() || w == 0,
                self.input == mid.input,
                self.srate == mid.srate,
                self.samp_count == mid.samp_count,
                self.next_tick == mid.next_tick,
                self.ctrl == mid.ctrl,
                pre == mid.chan@,
                total == mix_fold(self.input.pcm@, self.input.chan@, pre, i as int),
                forall|j: int|
                    0 <= j < i ==> (#[trigger] self.chan@[j]).phase_inc == pre[j].phase_inc
                        && self.chan@[j].phase == advance_phase(
                        pre[j].phase,
                        pre[j].phase_inc,
                        window_mod(self.input.chan@[j]),
                    ),
                forall|j: int| i <= j < w ==> self.chan@[j] == pre[j],
            decreases w - i,
        {
            let ci = self.input.chan[i];
            assert(ci.wf(self.input.pcm@.len()));
            let mut ch = self.chan[i];
            let m = ci.pcm_len * 256;
            let ph = ch.phase % m;
            let plen = self.input.pcm.len();
            assert(ph / 256 < ci.pcm_len);
            assert(ci.pcm_off + ci.pcm_len <= plen);
            let idx = ci.pcm_off + (ph / 256) as usize;
            let point = self.input.pcm[idx];
            proof {
                assert(-32640 <= point as int * ci.vol as int <= 32385) by (nonlinear_arith)
                    requires
                        -128 <= point as int <= 127,
                        0 <= ci.vol as int <= 255,
                ;
            }
            let scaled = (point as i16) * ci.vol;
            assert(scaled == sample_at(self.input.pcm@, ci, pre[i as int].phase));
            let s = (total as i32) + (scaled as i32);
            total = if s > 32767 {
                32767
            } else if s < -32768 {
                -32768
            } else {
                s as i16
            };
            ch.phase = ph.wrapping_add(ch.phase_inc);
            self.chan[i] = ch;
            i += 1;
        }
        self.samp_count = self.samp_count.wrapping_add(1);
        total
    }
}

/// Saturation: whatever the waveform bytes, the channel volumes and the
/// number of active channels, the mixed output stays within the
/// representable sample range — saturating summation admits no wraparound.
pub proof fn lemma_mix_in_range(pcm: Seq<i8>, chans: Seq<ChannelIn>, pre: Seq<Channel>, i: int)
    ensures
        i16::MIN <= mix_fold(pcm, chans, pre, i) <= i16::MAX,
    decreases i,
{
    if i > 0 {
        lemma_mix_in_range(pcm, chans, pre, i - 1);
    }
}

/// The phase accumulator after `n` samples of a fixed increment starting
/// from `p`: each sample reduces the phase modulo the window and then
/// advances it, exactly as the render loop does.
pub open spec fn iter_phase(p: u32, inc: u32, m: int, n: nat) -> u32
    decreases n,
{
    if n == 0 {
        p
    } else {
        advance_phase(iter_phase(p, inc, m, (n - 1) as nat), inc, m)
    }
}

/// Cyclic phase: repeatedly applying a fixed increment to a phase
/// accumulator lands on a value congruent to the start plus the total
/// advance, modulo the window length — looped playback is a round trip
/// through the window. Holds whenever the increment plus the window
/// modulus fits in 32 bits, so the accumulator itself cannot wrap between
/// two reductions.
pub proof fn lemma_phase_cycle(p: u32, inc: u32, m: int, n: nat)
    requires
        1 <= m,
        inc + m <= 0x1_0000_0000,
    ensures
        iter_phase(p, inc, m, n) as int % m == (p + n * inc) % m,
    decreases n,
{
    if n == 0 {
        assert(n * inc == 0) by (nonlinear_arith)
            requires
                n == 0,
        ;
    } else {
        lemma_phase_cycle(p, inc, m, (n - 1) as nat);
        let x = iter_phase(p, inc, m, (n - 1) as nat) as int;
        let cur = iter_phase(p, inc, m, n) as int;
        assert(0 <= x % m < m);
        assert(cur == x % m + inc) by {
            assert((x % m + inc) % 0x1_0000_0000 == x % m + inc);
        }
        vstd::arithmetic::div_mod::lemma_add_mod_noop_right(inc as int, x, m);
        assert((inc + x % m) % m == (inc + x) % m);
        vstd::arithmetic::div_mod::lemma_add_mod_noop_right(p as int + (n - 1) * inc, inc as int, m);
        assert((p + (n - 1) * inc + (inc as int) % m) % m == (p + (n - 1) * inc + inc) % m);
        vstd::arithmetic::div_mod::lemma_add_mod_noop_right(inc as int, p as int + (n - 1) * inc, m);
        assert((inc + (p + (n - 1) * inc) % m) % m == (inc + (p + (n - 1) * inc)) % m);
        assert(x % m == (p + (n - 1) * inc) % m);
        assert(cur % m == (p + (n - 1) * inc + inc) % m);
        assert(p + (n - 1) * inc + inc == p + n * inc) by (nonlinear_arith)
            requires
                n >= 1,
        ;
    }
}

/// Cyclic phase, round trip: when the total advance of `n` samples is a
/// multiple of the window modulus, the accumulator returns to a value
/// congruent to where it started.
pub proof fn lemma_phase_round_trip(p: u32, inc: u32, m: int, n: nat)
    requires
        1 <= m,
        inc + m <= 0x1_0000_0000,
        (n * inc) % m == 0,
    ensures
        iter_phase(p, inc, m, n) as int % m == p as int % m,
{
    lemma_phase_cycle(p, inc, m, n);
    vstd::arithmetic::div_mod::lemma_add_mod_noop_right(p as int, n * inc, m);
    assert((p + (n * inc) % m) % m == (p + n * inc) % m);
    vstd::arithmetic::div_mod::lemma_mod_twice(p as int, m);
}

/// Parses a command from one alphabet symbol followed by the data byte in
/// hexadecimal.
pub fn from_str(raw: &str) -> (r: Command)
    requires
        raw@.len() >= 2,
        raw@[0] as int <= 127,
        base32::symbol_value(raw@[0] as int) != 0,
        all_hex(raw@.subrange(1, raw@.len() as int)),
        hex_value(raw@.subrange(1, raw@.len() as int)) <= 255,
    ensures
        r.id == base32::symbol_value(raw@[0] as int),
        r.data == hex_value(raw@.subrange(1, raw@.len() as int)),
{
    Command::from_str(raw)
}

} // verus!
