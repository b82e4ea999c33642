//! The sequencer: two nested counters (row index and sub-tick counter) drive
//! a per-tick effect engine over per-channel runtime state, and every tick
//! emits a snapshot of playback parameters for the mixer.

use crate::mixer::{ChannelIn, Controller, MixerIn};
use crate::sequence::{pattern_wf, Command, Field, Note, Sequence, MAX_PITCH};
use std::sync::Arc;
use vstd::prelude::*;

verus! {

/// Relies on `Arc::clone`: the new handle refers to the same allocation, so
/// it carries the same value; no byte of the table is copied.
#[verifier::external_body]
fn share_pcm(a: &Arc<Vec<i8>>) -> (r: Arc<Vec<i8>>)
    ensures
        r == *a,
{
    a.clone()
}

/// Command identifier for the arpeggio effect (`'0'`).
pub const CMD_ARPEGGIO: u8 = 48;

/// Command identifier for the pitch slide up effect (`'1'`).
pub const CMD_SLIDE_UP: u8 = 49;

/// Command identifier for the pitch slide down effect (`'2'`).
pub const CMD_SLIDE_DOWN: u8 = 50;

/// Command identifier for the portamento effect (`'3'`).
pub const CMD_PORTAMENTO: u8 = 51;

/// Command identifier for the deferred pattern jump (`'B'`).
pub const CMD_JUMP: u8 = 66;

/// Command identifier for the speed command (`'F'`).
pub const CMD_SPEED: u8 = 70;

/// The top of the fixed-point note range, `MAX_PITCH << 8`.
pub const MAX_NOTE: u16 = 120 * 256;

/// The running state of one sequencer channel.
#[derive(Clone, Copy, PartialEq, Eq, Structural, Debug)]
pub struct Channel {
    /// Current note in fixed point: upper 8 bits semitone, lower 8 bits
    /// fractional tuning.
    pub note: u16,
    /// Transient arpeggio offset, recomputed every sub-tick and never
    /// retained across ticks.
    pub add_note: u16,
    /// The pitch a portamento glide moves toward.
    pub porta_note: u8,
    /// Effect memory: the identifier and data of the last applied command.
    pub cmd: Command,
    /// Current volume; zero is silent.
    pub vol: i16,
}

/// The state of a channel that has just been brought into use.
pub open spec fn default_channel() -> Channel {
    Channel { note: 0, add_note: 0, porta_note: 0, cmd: Command { id: 48, data: 0 }, vol: 0 }
}

impl Channel {
    /// The note and the transient offset stay within the representable
    /// range, the glide target is a valid pitch, and the volume is within
    /// the mixable range.
    pub open spec fn wf(self) -> bool {
        &&& self.note <= MAX_NOTE
        &&& self.add_note <= 15 * 256
        &&& self.porta_note <= MAX_PITCH
        &&& 0 <= self.vol <= 64
    }

    pub fn new() -> (r: Self)
        ensures
            r == default_channel(),
    {
        Channel {
            note: 0,
            add_note: 0,
            porta_note: 0,
            cmd: Command::zero(),
            vol: 0,
        }
    }
}

/// The channel state after the row's beat pass. A note-on sets the pitch
/// and full volume — or, under a portamento command, stores the pitch as
/// the glide target instead; either way the pitch is clamped into the
/// representable range `[0, MAX_PITCH]`. A note-off silences the channel; a
/// hold leaves both untouched. Effect memory keeps its data unless the
/// incoming command carries nonzero data or a new identifier.
pub open spec fn spec_beat(c: Channel, f: Field) -> Channel {
    let c1 = match f.note {
        Note::On(n) => if f.cmd.id == CMD_PORTAMENTO {
            Channel {
                porta_note: if n <= MAX_PITCH {
                    n
                } else {
                    MAX_PITCH
                },
                vol: 64,
                ..c
            }
        } else {
            Channel {
                note: if n <= MAX_PITCH {
                    (n * 256) as u16
                } else {
                    MAX_NOTE
                },
                vol: 64,
                ..c
            }
        },
        Note::Off => Channel { vol: 0, ..c },
        Note::Hold => c,
    };
    let data = if f.cmd.data != 0 || f.cmd.id != c.cmd.id {
        f.cmd.data
    } else {
        c.cmd.data
    };
    Channel { cmd: Command { id: f.cmd.id, data }, ..c1 }
}

/// One portamento step: the note moves toward the target by at most `rate`
/// and stops exactly at the target, never overshooting.
pub open spec fn porta_step(note: u16, target: u16, rate: u16) -> u16 {
    if note < target {
        if note + rate <= target {
            (note + rate) as u16
        } else {
            target
        }
    } else if note > target {
        if note - rate >= target {
            (note - rate) as u16
        } else {
            target
        }
    } else {
        note
    }
}

/// The channel state after one sub-tick of its effect. The arpeggio
/// recomputes the transient offset from the immediate command data, cycling
/// base, high nibble and low nibble by `tick_count % 3`; the slides and the
/// portamento move the note within `[0, MAX_NOTE]` by the remembered rate;
/// every other identifier leaves the channel unchanged.
pub open spec fn spec_tick_chan(c: Channel, cmd: Command, tick_count: u8) -> Channel {
    if cmd.id == CMD_ARPEGGIO {
        let off: u16 = if tick_count % 3 == 0 {
            0u16
        } else if tick_count % 3 == 1 {
            ((cmd.data / 16) * 256) as u16
        } else {
            ((cmd.data % 16) * 256) as u16
        };
        Channel { add_note: off, ..c }
    } else if cmd.id == CMD_SLIDE_UP {
        let next = c.note + c.cmd.data * 16;
        Channel { note: if next <= MAX_NOTE { next as u16 } else { MAX_NOTE }, ..c }
    } else if cmd.id == CMD_SLIDE_DOWN {
        let rate = c.cmd.data * 16;
        Channel { note: if c.note >= rate { (c.note - rate) as u16 } else { 0u16 }, ..c }
    } else if cmd.id == CMD_PORTAMENTO {
        Channel {
            note: porta_step(c.note, (c.porta_note * 256) as u16, (c.cmd.data * 16) as u16),
            ..c
        }
    } else {
        c
    }
}

/// The tick rate after one channel's sub-tick: a speed command with data
/// below 32 sets it to data plus one.
pub open spec fn spec_tick_rate(tr: u8, cmd_id: u8, mem: u8) -> u8 {
    if cmd_id == CMD_SPEED && mem < 32 {
        (mem + 1) as u8
    } else {
        tr
    }
}

/// The beats-per-minute after one channel's sub-tick: a speed command with
/// data of 32 or more sets it to the data.
pub open spec fn spec_bpm(bpm: u8, cmd_id: u8, mem: u8) -> u8 {
    if cmd_id == CMD_SPEED && mem >= 32 {
        mem
    } else {
        bpm
    }
}

/// The pending jump after one channel's sub-tick: a jump command records an
/// in-range target row and is rejected without effect otherwise.
pub open spec fn spec_jump(
    jump: Option<usize>,
    cmd_id: u8,
    mem: u8,
    pattern_len: nat,
) -> Option<usize> {
    if cmd_id == CMD_JUMP && mem < pattern_len {
        Some(mem as usize)
    } else {
        jump
    }
}

/// The sequencer. It owns the pattern, the per-channel runtime state, the
/// two clock counters, the tempo, and the shared waveform table it hands to
/// the mixer in every snapshot.
pub struct Track {
    pub seq: Sequence,
    pub chan: Vec<Channel>,
    pub row_jump: Option<usize>,
    pub row: usize,
    pub tick_count: u8,
    pub tick_rate: u8,
    pub bpm: u8,
    pub pcm: Arc<Vec<i8>>,
}

impl Track {
    /// The pattern is well formed, the row pointer and any pending jump are
    /// in range, the clocks and the tempo are in their working ranges, every
    /// channel is well formed, and the waveform table is nonempty and small
    /// enough for fixed-point phase arithmetic.
    pub open spec fn wf(&self) -> bool {
        &&& self.seq.wf()
        &&& self.row < self.seq.fields@.len()
        &&& 1 <= self.tick_rate <= 32
        &&& self.tick_count <= 32
        &&& 32 <= self.bpm
        &&& match self.row_jump {
            Some(j) => j < self.seq.fields@.len(),
            None => true,
        }
        &&& forall|i: int| 0 <= i < self.chan@.len() ==> (#[trigger] self.chan@[i]).wf()
        &&& 1 <= self.pcm@.len() <= 0xFFFFFF
    }

    /// Applies the beat pass to channel `i` of the current row.
    fn channel_beat(&mut self, i: usize)
        requires
            old(self).wf(),
            i < old(self).chan@.len(),
            i < old(self).seq.fields@[old(self).row as int]@.len(),
        ensures
            final (self).chan@ == old(self).chan@.update(
                i as int,
                spec_beat(old(self).chan@[i as int], old(self).seq.fields@[old(self).row as int]@[i as int]),
            ),
            final (self).seq == old(self).seq,
            final (self).row == old(self).row,
            final (self).row_jump == old(self).row_jump,
            final (self).tick_count == old(self).tick_count,
            final (self).tick_rate == old(self).tick_rate,
            final (self).bpm == old(self).bpm,
            final (self).pcm == old(self).pcm,
            final (self).wf(),
    {
        let field = *self.seq.get_field(self.row, i);
        let mut ch = self.chan[i];
        match field.note {
            Note::On(n) => {
                let pitch = if n <= MAX_PITCH {
                    n
                } else {
                    MAX_PITCH
                };
                if field.cmd.id == CMD_PORTAMENTO {
                    ch.porta_note = pitch;
                } else {
                    ch.note = (pitch as u16) * 256;
                }
                ch.vol = 64;
            },
            Note::Off => {
                ch.vol = 0;
            },
            Note::Hold => {},
        }
        if field.cmd.data != 0 || field.cmd.id != ch.cmd.id {
            ch.cmd.data = field.cmd.data;
        }
        ch.cmd.id = field.cmd.id;
        self.chan[i] = ch;
    }

    /// Applies one sub-tick of the effect keyed by channel `i`'s command.
    fn channel_tick(&mut self, i: usize)
        requires
            old(self).wf(),
            i < old(self).chan@.len(),
            i < old(self).seq.fields@[old(self).row as int]@.len(),
        ensures
            final (self).chan@ == old(self).chan@.update(
                i as int,
                spec_tick_chan(
                    old(self).chan@[i as int],
                    old(self).seq.fields@[old(self).row as int]@[i as int].cmd,
                    old(self).tick_count,
                ),
            ),
            final (self).tick_rate == spec_tick_rate(
                old(self).tick_rate,
                old(self).seq.fields@[old(self).row as int]@[i as int].cmd.id,
                old(self).chan@[i as int].cmd.data,
            ),
            final (self).bpm == spec_bpm(
                old(self).bpm,
                old(self).seq.fields@[old(self).row as int]@[i as int].cmd.id,
                old(self).chan@[i as int].cmd.data,
            ),
            final (self).row_jump == spec_jump(
                old(self).row_jump,
                old(self).seq.fields@[old(self).row as int]@[i as int].cmd.id,
                old(self).chan@[i as int].cmd.data,
                old(self).seq.fields@.len(),
            ),
            final (self).seq == old(self).seq,
            final (self).row == old(self).row,
            final (self).tick_count == old(self).tick_count,
            final (self).pcm == old(self).pcm,
            final (self).wf(),
    {
        let field = *self.seq.get_field(self.row, i);
        let mut ch = self.chan[i];
        if field.cmd.id == CMD_ARPEGGIO {
            let m = self.tick_count % 3;
            ch.add_note = if m == 0 {
                0
            } else if m == 1 {
                (field.cmd.hi() as u16) * 256
            } else {
                (field.cmd.lo() as u16) * 256
            };
        } else if field.cmd.id == CMD_SLIDE_UP {
            let rate = (ch.cmd.data as u16) * 16;
            let next = ch.note + rate;
            ch.note = if next <= MAX_NOTE {
                next
            } else {
                MAX_NOTE
            };
        } else if field.cmd.id == CMD_SLIDE_DOWN {
            let rate = (ch.cmd.data as u16) * 16;
            ch.note = if ch.note >= rate {
                ch.note - rate
            } else {
                0
            };
        } else if field.cmd.id == CMD_PORTAMENTO {
            let target = (ch.porta_note as u16) * 256;
            let rate = (ch.cmd.data as u16) * 16;
            if ch.note < target {
                let next = ch.note + rate;
                ch.note = if next <= target {
                    next
                } else {
                    target
                };
            } else if ch.note > target {
                ch.note = if ch.note - target >= rate {
                    ch.note - rate
                } else {
                    target
                };
            }
        } else if field.cmd.id == CMD_SPEED {
            if ch.cmd.data < 32 {
                self.tick_rate = ch.cmd.data + 1;
            } else {
                self.bpm = ch.cmd.data;
            }
        } else if field.cmd.id == CMD_JUMP {
            let target = ch.cmd.data as usize;
            if target < self.seq.len() {
                self.row_jump = Some(target);
            }
            // an out-of-range jump is rejected with no effect
        } else {
            // unknown command identifier: non-fatal, channel state unchanged
        }
        self.chan[i] = ch;
    }
}

/// The channel states after resizing to the current row's width: kept
/// channels carry their state over, new channels start fresh.
pub open spec fn resize_chans(chans: Seq<Channel>, w: nat) -> Seq<Channel> {
    Seq::new(
        w,
        |i: int|
            if i < chans.len() {
                chans[i]
            } else {
                default_channel()
            },
    )
}

/// Every channel of a row after the beat pass.
pub open spec fn spec_beat_row(chans: Seq<Channel>, row: Seq<Field>) -> Seq<Channel> {
    Seq::new(chans.len(), |i: int| spec_beat(chans[i], row[i]))
}

/// Every channel of a row after one sub-tick of effects.
pub open spec fn spec_tick_row(chans: Seq<Channel>, row: Seq<Field>, tc: u8) -> Seq<Channel> {
    Seq::new(chans.len(), |i: int| spec_tick_chan(chans[i], row[i].cmd, tc))
}

/// The tempo state (tick rate, beats per minute, pending jump) after the
/// first `i` channels of a row have run their sub-tick effects, each channel
/// applying its speed or jump command in order.
pub open spec fn spec_row_tempo(
    chans: Seq<Channel>,
    row: Seq<Field>,
    tr: u8,
    bpm: u8,
    jump: Option<usize>,
    pattern_len: nat,
    i: int,
) -> (u8, u8, Option<usize>)
    decreases i,
{
    if i <= 0 {
        (tr, bpm, jump)
    } else {
        let prev = spec_row_tempo(chans, row, tr, bpm, jump, pattern_len, i - 1);
        let id = row[i - 1].cmd.id;
        let mem = chans[i - 1].cmd.data;
        (
            spec_tick_rate(prev.0, id, mem),
            spec_bpm(prev.1, id, mem),
            spec_jump(prev.2, id, mem, pattern_len),
        )
    }
}

/// The effective note a channel plays this tick: its base note plus the
/// transient arpeggio offset, saturating at the top of the note range.
pub open spec fn effective_note(c: Channel) -> u16 {
    if c.note + c.add_note <= MAX_NOTE {
        (c.note + c.add_note) as u16
    } else {
        MAX_NOTE
    }
}

/// The playback descriptor emitted for one channel: the effective note, the
/// whole waveform table as the window, and the channel's volume.
pub open spec fn spec_channel_out(c: Channel, pcm_len: nat) -> ChannelIn {
    ChannelIn {
        note: effective_note(c),
        pcm_off: 0,
        pcm_len: pcm_len as u32,
        pcm_rate: 256,
        vol: c.vol,
    }
}

/// One pull of the sequencer: `post` and `out` are exactly the state and
/// the snapshot that a single `next_tick` call on `pre` produces — the row
/// advance, the counter, every channel state, the tempo triple, and every
/// snapshot field. This is the step relation the sequencer promises through
/// the `Controller` trait, so the mixer's contract ties each tick boundary
/// to exactly one pull.
pub open spec fn track_stepped(pre: Track, post: Track, out: MixerIn) -> bool {
    &&& post.row == pre.next_row()
    &&& post.tick_count == pre.cur_tc() + 1
    &&& post.chan@ == pre.chans_ticked()
    &&& post.tick_rate == pre.tempo_after().0
    &&& post.bpm == pre.tempo_after().1
    &&& post.row_jump == pre.tempo_after().2
    &&& post.seq == pre.seq
    &&& post.pcm == pre.pcm
    &&& out.tick_rate == post.bpm * post.tick_rate
    &&& out.pcm@ == pre.pcm@
    &&& out.chan@.len() == pre.cur_row_fields().len()
    &&& forall|i: int|
        0 <= i < out.chan@.len() ==> out.chan@[i] == spec_channel_out(
            post.chan@[i],
            pre.pcm@.len(),
        )
}

impl Track {
    /// Whether this call to `next_tick` crosses a row boundary.
    pub open spec fn at_boundary(self) -> bool {
        self.tick_count >= self.tick_rate
    }

    /// The row this tick plays: at a row boundary the pending jump target if
    /// one was recorded, the following row (wrapping) otherwise; mid-row the
    /// row pointer does not move.
    pub open spec fn next_row(self) -> int {
        if self.at_boundary() {
            match self.row_jump {
                Some(j) => j as int,
                None => ((self.row + 1) as int) % (self.seq.fields@.len() as int),
            }
        } else {
            self.row as int
        }
    }

    /// The sub-tick counter in effect during this tick.
    pub open spec fn cur_tc(self) -> u8 {
        if self.at_boundary() {
            0u8
        } else {
            self.tick_count
        }
    }

    /// The pending jump still standing when this tick's effects run.
    pub open spec fn cur_jump(self) -> Option<usize> {
        if self.at_boundary() {
            None
        } else {
            self.row_jump
        }
    }

    /// The fields of the row this tick plays.
    pub open spec fn cur_row_fields(self) -> Seq<Field> {
        self.seq.fields@[self.next_row()]@
    }

    pub open spec fn chans_resized(self) -> Seq<Channel> {
        resize_chans(self.chan@, self.cur_row_fields().len())
    }

    /// The channel states after this tick's beat pass, which runs only on
    /// the first sub-tick of a row.
    pub open spec fn chans_beaten(self) -> Seq<Channel> {
        if self.cur_tc() == 0 {
            spec_beat_row(self.chans_resized(), self.cur_row_fields())
        } else {
            self.chans_resized()
        }
    }

    /// The channel states after this tick's effect pass.
    pub open spec fn chans_ticked(self) -> Seq<Channel> {
        spec_tick_row(self.chans_beaten(), self.cur_row_fields(), self.cur_tc())
    }

    /// The tempo state after this tick's effect pass.
    pub open spec fn tempo_after(self) -> (u8, u8, Option<usize>) {
        spec_row_tempo(
            self.chans_beaten(),
            self.cur_row_fields(),
            self.tick_rate,
            self.bpm,
            self.cur_jump(),
            self.seq.fields@.len(),
            self.cur_row_fields().len() as int,
        )
    }

    /// Builds a sequencer over a pattern and a waveform table. Fails fast —
    /// before any rendering can start — only on an empty or zero-width
    /// pattern, or a table that is empty or too large for fixed-point phase
    /// arithmetic. Any authored pitch is accepted; the beat pass clamps it
    /// into the representable range.
    pub fn new(fields: Vec<Vec<Field>>, pcm: Vec<i8>) -> (r: Option<Track>)
        ensures
            match r {
                Some(t) => {
                    &&& pattern_wf(fields@)
                    &&& 1 <= pcm@.len() <= 0xFFFFFF
                    &&& t.seq.fields == fields
                    &&& t.pcm@ == pcm@
                    &&& t.chan@.len() == 0
                    &&& t.row == 0
                    &&& t.row_jump is None
                    &&& t.tick_count == 0
                    &&& t.tick_rate == 6
                    &&& t.bpm == 120
                    &&& t.wf()
                },
                None => !(pattern_wf(fields@) && 1 <= pcm@.len() <= 0xFFFFFF),
            },
    {
        if fields.len() == 0 {
            return None;
        }
        if fields[0].len() == 0 {
            return None;
        }
        if pcm.len() == 0 || pcm.len() > 0xFFFFFF {
            return None;
        }
        Some(
            Track {
                seq: Sequence::new(fields),
                chan: Vec::new(),
                row_jump: None,
                row: 0,
                tick_count: 0,
                tick_rate: 6,
                bpm: 120,
                pcm: Arc::new(pcm),
            },
        )
    }

    /// Records a jump request from outside the pattern data. The jump is
    /// applied at the next row boundary, not immediately; a row beyond the
    /// pattern is rejected with no effect.
    pub fn request_jump(&mut self, row: usize)
        requires
            old(self).wf(),
        ensures
            row < old(self).seq.fields@.len() ==> final (self).row_jump == Some(row),
            row >= old(self).seq.fields@.len() ==> final (self).row_jump == old(self).row_jump,
            final (self).seq == old(self).seq,
            final (self).chan == old(self).chan,
            final (self).row == old(self).row,
            final (self).tick_count == old(self).tick_count,
            final (self).tick_rate == old(self).tick_rate,
            final (self).bpm == old(self).bpm,
            final (self).pcm == old(self).pcm,
            final (self).wf(),
    {
        if row < self.seq.len() {
            self.row_jump = Some(row);
        }
        // an out-of-range jump is rejected with no effect
    }

    /// The channel count of the row the sequencer is standing on.
    pub fn width(&self) -> (r: usize)
        requires
            self.wf(),
        ensures
            r == self.seq.fields@[self.row as int]@.len(),
    {
        self.seq.fields[self.row].len()
    }

    /// Runs one tick: at a row boundary the row pointer advances (honoring a
    /// pending jump) and the channel state is resized to the new row's
    /// width; on the first sub-tick of a row the beat pass applies the row's
    /// note events and refreshes effect memory; every sub-tick the effect
    /// pass runs each channel's command; and the call returns the snapshot
    /// the mixer renders this tick from.
    #[verifier::loop_isolation(false)]
    pub fn next_tick(&mut self) -> (out: MixerIn)
        requires
            old(self).wf(),
        ensures
            track_stepped(*old(self), *final (self), out),
            final (self).wf(),
            out.wf(),
    {
        let ghost t0 = *old(self);
        // step 1: row boundary — reset the sub-tick counter and advance the
        // row, honoring a pending jump
        if self.tick_count >= self.tick_rate {
            self.tick_count = 0;
            let len = self.seq.len();
            self.row = match self.row_jump {
                Some(j) => j,
                None => (self.row + 1) % len,
            };
            self.row_jump = None;
        }
        assert(self.row == t0.next_row());
        assert(self.tick_count == t0.cur_tc());
        assert(self.row_jump == t0.cur_jump());
        let ghost rowf = t0.cur_row_fields();
        // step 2: resize the channel state to the current row's width
        let w = self.seq.fields[self.row].len();
        let ghost chans0 = self.chan@;
        if self.chan.len() > w {
            self.chan.truncate(w);
        }
        while self.chan.len() < w
            invariant
                self.chan@.len() <= w,
                chans0.len() <= self.chan@.len() || self.chan@.len() == w,
                forall|j: int|
                    0 <= j < self.chan@.len() ==> self.chan@[j] == resize_chans(chans0, w as nat)[j],
                self.seq == t0.seq,
                self.row == t0.next_row(),
                self.tick_count == t0.cur_tc(),
                self.row_jump == t0.cur_jump(),
                self.tick_rate == t0.tick_rate,
                self.bpm == t0.bpm,
                self.pcm == t0.pcm,
                forall|j: int| 0 <= j < self.chan@.len() ==> (#[trigger] self.chan@[j]).wf(),
            decreases w - self.chan@.len(),
        {
            self.chan.push(Channel::new());
        }
        proof {
            assert(self.chan@ =~= resize_chans(chans0, w as nat));
            assert(self.chan@ == t0.chans_resized());
        }
        // step 3: on the first sub-tick of the row, the beat pass
        if self.tick_count == 0 {
            let mut i: usize = 0;
            while i < w
                invariant
                    i <= w,
                    self.chan@.len() == w,
                    forall|j: int|
                        0 <= j < i ==> self.chan@[j] == spec_beat(
                            t0.chans_resized()[j],
                            rowf[j],
                        ),
                    forall|j: int| i <= j < w ==> self.chan@[j] == t0.chans_resized()[j],
                    self.seq == t0.seq,
                    self.row == t0.next_row(),
                    self.tick_count == t0.cur_tc(),
                    self.row_jump == t0.cur_jump(),
                    self.tick_rate == t0.tick_rate,
                    self.bpm == t0.bpm,
                    self.pcm == t0.pcm,
                    self.wf(),
                decreases w - i,
            {
                self.channel_beat(i);
                i += 1;
            }
        }
        proof {
            assert(self.chan@ =~= t0.chans_beaten());
        }
        // step 4: every sub-tick, the effect pass
        let ghost beaten = t0.chans_beaten();
        let mut i: usize = 0;
        while i < w
            invariant
                i <= w,
                self.chan@.len() == w,
                forall|j: int|
                    0 <= j < i ==> self.chan@[j] == spec_tick_chan(
                        beaten[j],
                        rowf[j].cmd,
                        t0.cur_tc(),
                    ),
                forall|j: int| i <= j < w ==> self.chan@[j] == beaten[j],
                (self.tick_rate, self.bpm, self.row_jump) == spec_row_tempo(
                    beaten,
                    rowf,
                    t0.tick_rate,
                    t0.bpm,
                    t0.cur_jump(),
                    t0.seq.fields@.len(),
                    i as int,
                ),
                self.seq == t0.seq,
                self.row == t0.next_row(),
                self.tick_count == t0.cur_tc(),
                self.pcm == t0.pcm,
                self.wf(),
            decreases w - i,
        {
            self.channel_tick(i);
            i += 1;
        }
        proof {
            assert(self.chan@ =~= t0.chans_ticked());
        }
        // step 5: count this sub-tick
        self.tick_count += 1;
        // step 6: emit the snapshot for this tick
        let mut chan_out: Vec<ChannelIn> = Vec::new();
        let pcm_len = self.pcm.len() as u32;
        let mut i: usize = 0;
        while i < w
            invariant
                i <= w,
                self.chan@.len() == w,
                chan_out@.len() == i,
                pcm_len == self.pcm@.len(),
                forall|j: int|
                    0 <= j < i ==> chan_out@[j] == spec_channel_out(
                        self.chan@[j],
                        self.pcm@.len(),
                    ),
                self.wf(),
            decreases w - i,
        {
            let c = self.chan[i];
            let sum = c.note + c.add_note;
            let note = if sum <= MAX_NOTE {
                sum
            } else {
                MAX_NOTE
            };
            chan_out.push(
                ChannelIn { note, pcm_off: 0, pcm_len, pcm_rate: 256, vol: c.vol },
            );
            i += 1;
        }
        let pcm_shared = share_pcm(&self.pcm);
        proof {
            assert(self.wf());
            assert(1 <= self.tick_rate <= 32);
            assert(32 <= self.bpm);
            assert(32 <= self.bpm * self.tick_rate <= 8160) by (nonlinear_arith)
                requires
                    1 <= self.tick_rate <= 32,
                    32 <= self.bpm <= 255,
            ;
        }
        let out = MixerIn {
            tick_rate: (self.bpm as u16) * (self.tick_rate as u16),
            pcm: pcm_shared,
            chan: chan_out,
        };
        proof {
            assert forall|j: int| 0 <= j < out.chan@.len() implies (#[trigger] out.chan@[j]).wf(
                out.pcm@.len(),
            ) by {
                assert(out.chan@[j] == spec_channel_out(self.chan@[j], self.pcm@.len()));
                assert(self.chan@[j].wf());
            }
        }
        out
    }
}

/// Effect memory across beats: a command repeated with zero data keeps the
/// data remembered from the earlier beat — a zero-data repeat of the same
/// identifier does not clear the memory, so the effect keeps its strength.
pub proof fn lemma_effect_memory(c: Channel, f1: Field, f2: Field)
    requires
        f1.cmd.data != 0,
        f2.cmd.id == f1.cmd.id,
        f2.cmd.data == 0,
    ensures
        spec_beat(spec_beat(c, f1), f2).cmd.data == f1.cmd.data,
        spec_beat(spec_beat(c, f1), f2).cmd.id == f1.cmd.id,
{
}

/// Arpeggio cycle: the transient offset depends only on the sub-tick
/// counter modulo three and the command's two nibbles, so consecutive
/// sub-ticks sweep base, high nibble, low nibble and repeat with period
/// three, on any channel state.
pub proof fn lemma_arpeggio_period(c1: Channel, c2: Channel, cmd: Command, t1: u8, t2: u8)
    requires
        cmd.id == CMD_ARPEGGIO,
        t1 % 3 == t2 % 3,
    ensures
        spec_tick_chan(c1, cmd, t1).add_note == spec_tick_chan(c2, cmd, t2).add_note,
        spec_tick_chan(c1, cmd, t1).add_note == (if t1 % 3 == 0 {
            0
        } else if t1 % 3 == 1 {
            (cmd.data / 16) * 256
        } else {
            (cmd.data % 16) * 256
        }),
{
}

/// The note after `n` portamento steps toward `target` at rate `rate`.
pub open spec fn iter_porta(note: u16, target: u16, rate: u16, n: nat) -> u16
    decreases n,
{
    if n == 0 {
        note
    } else {
        porta_step(iter_porta(note, target, rate, (n - 1) as nat), target, rate)
    }
}

/// After `n` portamento steps the note stands exactly `n` rates closer to
/// the target, stopping at the target itself: the glide neither skips past
/// the target nor stalls before it.
pub proof fn lemma_porta_position(note: u16, target: u16, rate: u16, n: nat)
    requires
        rate >= 1,
    ensures
        note <= target ==> iter_porta(note, target, rate, n) == (if note + n * rate <= target {
            (note + n * rate) as u16
        } else {
            target
        }),
        note >= target ==> iter_porta(note, target, rate, n) == (if note - n * rate >= target {
            (note - n * rate) as u16
        } else {
            target
        }),
    decreases n,
{
    if n > 0 {
        lemma_porta_position(note, target, rate, (n - 1) as nat);
        assert((n - 1) * rate + rate == n * rate) by (nonlinear_arith)
            requires
                n >= 1,
        ;
        assert((n - 1) * rate >= 0) by (nonlinear_arith)
            requires
                n >= 1,
                rate >= 1,
        ;
    }
}

/// Portamento convergence: gliding from a note toward a target at a
/// positive rate reaches the target exactly — never overshooting, always
/// staying between start and target — after `ceil(distance / rate)` steps,
/// and on no earlier step.
pub proof fn lemma_porta_converges(note: u16, target: u16, rate: u16, n: nat)
    requires
        rate >= 1,
    ensures
        ({
            let dist = if note <= target {
                target - note
            } else {
                note - target
            };
            let k = (dist + rate - 1) / (rate as int);
            &&& n >= k ==> iter_porta(note, target, rate, n) == target
            &&& n < k ==> iter_porta(note, target, rate, n) != target
            &&& note <= target ==> note <= iter_porta(note, target, rate, n) <= target
            &&& note >= target ==> target <= iter_porta(note, target, rate, n) <= note
        }),
{
    lemma_porta_position(note, target, rate, n);
    let dist = if note <= target {
        target - note
    } else {
        note - target
    };
    let k = (dist + rate - 1) / (rate as int);
    vstd::arithmetic::div_mod::lemma_fundamental_div_mod(dist + rate - 1, rate as int);
    assert(k * rate >= dist);
    assert((k - 1) * rate < dist) by (nonlinear_arith)
        requires
            dist + rate - 1 == k * (rate as int) + (dist + rate - 1) % (rate as int),
            0 <= (dist + rate - 1) % (rate as int) < rate,
            rate >= 1,
    ;
    if n >= k {
        assert(n * rate >= k * rate) by (nonlinear_arith)
            requires
                n >= k,
                rate >= 1,
        ;
    } else {
        assert(n * rate <= (k - 1) * rate) by (nonlinear_arith)
            requires
                n <= k - 1,
                rate >= 1,
        ;
    }
    assert(n * rate >= 0) by (nonlinear_arith)
        requires
            rate >= 1,
    ;
}

impl Controller for Track {
    open spec fn ready(&self) -> bool {
        self.wf()
    }

    open spec fn stepped(pre: Track, post: Track, out: MixerIn) -> bool {
        track_stepped(pre, post, out)
    }

    fn next(&mut self) -> (out: MixerIn) {
        self.next_tick()
    }
}

} // verus!
