//! The playback engine's transport state machine.
//!
//! The engine owns the audio sink and the play queue's cursor. Each cycle it
//! either applies one command that arrived on the channel, or — when the sink
//! has run dry — applies the advance policy. Both transitions are pure
//! decisions from the current transport state; the unverified shell performs
//! the returned [`SinkOp`] on the physical device.

use vstd::prelude::*;

verus! {

/// A transport command sent from the control loop to the engine.
#[derive(Clone, Copy, PartialEq, Eq, Structural, Debug)]
pub enum Command {
    Playing,
    Paused,
    Skip,
    Back,
    Loop,
    NoLoop,
    RepeatSong,
    NoRepeat,
    VolumeUp,
    VolumeDown,
}

/// What the engine asks the audio device to do after a transition.
#[derive(Clone, Copy, PartialEq, Eq, Structural, Debug)]
pub enum SinkOp {
    /// Load the queue track at this index into the sink, replacing whatever
    /// is queued, and play it.
    Load(usize),
    /// Resume output.
    Resume,
    /// Suspend output.
    Pause,
    /// Apply this gain, in tenths of full volume.
    SetVolume(u8),
    /// Leave the device alone.
    Stay,
    /// The queue is exhausted and looping is off: end the session.
    Terminate,
}

/// The engine's transport state for one playback session over a queue of
/// fixed length `queue_len`.
#[derive(Clone, Copy, PartialEq, Eq, Structural, Debug)]
pub struct Engine {
    /// Length of the session's play queue; fixed and positive.
    pub queue_len: usize,
    /// Queue position currently loaded into the sink; always below `queue_len`.
    pub cursor: usize,
    /// Sink gain in tenths; always within `[0, 10]`.
    pub volume: u8,
    /// Wrap to the start when the queue is exhausted.
    pub looping: bool,
    /// Replay the current track indefinitely instead of advancing.
    pub song_repeat: bool,
}

impl Engine {
    /// The engine's invariant: a non-empty queue, a cursor inside it, and a
    /// volume within range.
    pub open spec fn wf(self) -> bool {
        &&& self.queue_len > 0
        &&& self.cursor < self.queue_len
        &&& self.volume <= 10
    }
}

/// The state after one command is applied.
pub open spec fn step(pre: Engine, c: Command) -> Engine {
    match c {
        Command::Playing => pre,
        Command::Paused => pre,
        Command::Skip => (
            if pre.looping && pre.cursor + 1 == pre.queue_len {
                Engine { cursor: 0, ..pre }
            } else if pre.cursor + 1 < pre.queue_len {
                Engine { cursor: (pre.cursor + 1) as usize, ..pre }
            } else {
                pre
            }
        ),
        Command::Back => (
            if pre.cursor > 0 {
                Engine { cursor: (pre.cursor - 1) as usize, ..pre }
            } else {
                pre
            }
        ),
        Command::Loop => Engine { looping: true, ..pre },
        Command::NoLoop => Engine { looping: false, ..pre },
        Command::RepeatSong => Engine { song_repeat: true, ..pre },
        Command::NoRepeat => Engine { song_repeat: false, ..pre },
        Command::VolumeUp => (
            if pre.volume < 10 {
                Engine { volume: (pre.volume + 1) as u8, ..pre }
            } else {
                Engine { volume: 10, ..pre }
            }
        ),
        Command::VolumeDown => (
            if pre.volume > 0 {
                Engine { volume: (pre.volume - 1) as u8, ..pre }
            } else {
                Engine { volume: 0, ..pre }
            }
        ),
    }
}

/// The device operation that goes with one command.
pub open spec fn step_op(pre: Engine, c: Command) -> SinkOp {
    match c {
        Command::Playing => SinkOp::Resume,
        Command::Paused => SinkOp::Pause,
        Command::Skip => SinkOp::Load(step(pre, c).cursor),
        Command::Back => (
            if pre.cursor > 0 {
                SinkOp::Load(step(pre, c).cursor)
            } else {
                SinkOp::Stay
            }
        ),
        Command::VolumeUp => SinkOp::SetVolume(step(pre, c).volume),
        Command::VolumeDown => SinkOp::SetVolume(step(pre, c).volume),
        _ => SinkOp::Stay,
    }
}

/// The state after the sink-empty advance policy runs: repeat holds the
/// cursor, exhaustion wraps under looping, and otherwise the cursor moves on.
pub open spec fn advance(pre: Engine) -> Engine {
    if pre.song_repeat {
        pre
    } else if pre.cursor + 1 == pre.queue_len {
        if pre.looping {
            Engine { cursor: 0, ..pre }
        } else {
            pre
        }
    } else {
        Engine { cursor: (pre.cursor + 1) as usize, ..pre }
    }
}

/// The device operation that goes with the sink-empty advance policy.
pub open spec fn advance_op(pre: Engine) -> SinkOp {
    if pre.song_repeat {
        SinkOp::Load(pre.cursor)
    } else if pre.cursor + 1 == pre.queue_len && !pre.looping {
        SinkOp::Terminate
    } else {
        SinkOp::Load(advance(pre).cursor)
    }
}

impl Engine {
    /// Starts a session over a queue of `queue_len` tracks: cursor at the
    /// start, full volume, both transport flags off.
    pub fn new(queue_len: usize) -> (e: Engine)
        requires
            queue_len > 0,
        ensures
            e.wf(),
            e == (Engine {
                queue_len,
                cursor: 0,
                volume: 10,
                looping: false,
                song_repeat: false,
            }),
    {
        Engine { queue_len, cursor: 0, volume: 10, looping: false, song_repeat: false }
    }

    /// Applies one command atomically and returns the device operation the
    /// shell must perform.
    pub fn apply_command(&mut self, c: Command) -> (op: SinkOp)
        requires
            old(self).wf(),
        ensures
            final(self).wf(),
            *final(self) == step(*old(self), c),
            op == step_op(*old(self), c),
    {
        match c {
            Command::Playing => SinkOp::Resume,
            Command::Paused => SinkOp::Pause,
            Command::Skip => {
                if self.looping && self.cursor + 1 == self.queue_len {
                    self.cursor = 0;
                } else if self.cursor + 1 < self.queue_len {
                    self.cursor = self.cursor + 1;
                }
                SinkOp::Load(self.cursor)
            },
            Command::Back => {
                if self.cursor > 0 {
                    self.cursor = self.cursor - 1;
                    SinkOp::Load(self.cursor)
                } else {
                    SinkOp::Stay
                }
            },
            Command::Loop => {
                self.looping = true;
                SinkOp::Stay
            },
            Command::NoLoop => {
                self.looping = false;
                SinkOp::Stay
            },
            Command::RepeatSong => {
                self.song_repeat = true;
                SinkOp::Stay
            },
            Command::NoRepeat => {
                self.song_repeat = false;
                SinkOp::Stay
            },
            Command::VolumeUp => {
                if self.volume < 10 {
                    self.volume = self.volume + 1;
                }
                SinkOp::SetVolume(self.volume)
            },
            Command::VolumeDown => {
                if self.volume > 0 {
                    self.volume = self.volume - 1;
                }
                SinkOp::SetVolume(self.volume)
            },
        }
    }

    /// Runs the sink-empty advance policy and returns the device operation —
    /// or [`SinkOp::Terminate`] when the queue is exhausted without looping.
    pub fn on_sink_empty(&mut self) -> (op: SinkOp)
        requires
            old(self).wf(),
        ensures
            final(self).wf(),
            *final(self) == advance(*old(self)),
            op == advance_op(*old(self)),
    {
        if self.song_repeat {
            SinkOp::Load(self.cursor)
        } else if self.cursor + 1 == self.queue_len {
            if self.looping {
                self.cursor = 0;
                SinkOp::Load(0)
            } else {
                SinkOp::Terminate
            }
        } else {
            self.cursor = self.cursor + 1;
            SinkOp::Load(self.cursor)
        }
    }
}

/// The state after a whole sequence of commands, first one first.
pub open spec fn run(e: Engine, cs: Seq<Command>) -> Engine
    decreases cs.len(),
{
    if cs.len() == 0 {
        e
    } else {
        run(step(e, cs[0]), cs.drop_first())
    }
}

/// The state after the advance policy has run `n` times in a row.
pub open spec fn run_advances(e: Engine, n: nat) -> Engine
    decreases n,
{
    if n == 0 {
        e
    } else {
        run_advances(advance(e), (n - 1) as nat)
    }
}

/// One command never breaks the invariant, never resizes the queue, and
/// leaves the volume within `[0, 10]`.
pub proof fn lemma_step_preserves_wf(e: Engine, c: Command)
    requires
        e.wf(),
    ensures
        step(e, c).wf(),
        step(e, c).queue_len == e.queue_len,
{
}

/// The advance policy never breaks the invariant and never resizes the queue.
pub proof fn lemma_advance_preserves_wf(e: Engine)
    requires
        e.wf(),
    ensures
        advance(e).wf(),
        advance(e).queue_len == e.queue_len,
{
}

/// However many volume commands arrive, in whatever mix with the others, the
/// volume stays within `[0, 10]` and the state stays well formed.
pub proof fn lemma_volume_stays_in_range(e: Engine, cs: Seq<Command>)
    requires
        e.wf(),
    ensures
        run(e, cs).wf(),
        run(e, cs).volume <= 10,
    decreases cs.len(),
{
    if cs.len() > 0 {
        lemma_step_preserves_wf(e, cs[0]);
        lemma_volume_stays_in_range(step(e, cs[0]), cs.drop_first());
    }
}

/// Skip at the last index wraps the cursor to the start when looping is on;
/// when it is off, Skip at the last index leaves the cursor where it is — the
/// session ends only through the sink-empty check.
pub proof fn lemma_skip_at_end(e: Engine)
    requires
        e.wf(),
        e.cursor + 1 == e.queue_len,
    ensures
        e.looping ==> step(e, Command::Skip).cursor == 0,
        !e.looping ==> step(e, Command::Skip) == e,
        !e.looping && !e.song_repeat ==> advance_op(e) == SinkOp::Terminate,
{
}

/// Back at the start is a no-op; Back anywhere else moves the cursor one
/// track back and reloads that track.
pub proof fn lemma_back(e: Engine)
    requires
        e.wf(),
    ensures
        e.cursor == 0 ==> step(e, Command::Back) == e && step_op(e, Command::Back)
            == SinkOp::Stay,
        e.cursor > 0 ==> step(e, Command::Back).cursor == e.cursor - 1 && step_op(
            e,
            Command::Back,
        ) == SinkOp::Load((e.cursor - 1) as usize),
{
}

/// With song repeat on, the advance policy reloads the same track forever,
/// whatever the looping flag says: the cursor never moves and the session
/// never terminates from exhaustion, however many times the sink runs dry.
pub proof fn lemma_repeat_holds_cursor(e: Engine, n: nat)
    requires
        e.wf(),
        e.song_repeat,
    ensures
        run_advances(e, n) == e,
        advance_op(run_advances(e, n)) == SinkOp::Load(e.cursor),
        advance_op(run_advances(e, n)) != SinkOp::Terminate,
    decreases n,
{
    if n > 0 {
        lemma_repeat_holds_cursor(e, (n - 1) as nat);
    }
}

/// With song repeat off and the cursor before the last index, the advance
/// policy moves the cursor one track on.
pub proof fn lemma_advance_moves_on(e: Engine)
    requires
        e.wf(),
        !e.song_repeat,
        e.cursor + 1 < e.queue_len,
    ensures
        advance(e).cursor == e.cursor + 1,
        advance_op(e) == SinkOp::Load((e.cursor + 1) as usize),
{
}

/// At the last index with looping on and song repeat off, exhaustion wraps
/// the cursor back to the start and play goes on from there.
pub proof fn lemma_advance_wraps(e: Engine)
    requires
        e.wf(),
        !e.song_repeat,
        e.looping,
        e.cursor + 1 == e.queue_len,
    ensures
        advance(e).cursor == 0,
        advance_op(e) == SinkOp::Load(0),
{
}

} // verus!
