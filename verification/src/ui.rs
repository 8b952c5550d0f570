//! The control loop's state: key translation and the optimistic mirror of
//! the transport flags that the view paints.
//!
//! The loop polls the keyboard, turns each recognized key into exactly one
//! [`Command`] for the engine, and mirrors the toggled flags immediately so
//! the view never lags behind a keypress.

use vstd::prelude::*;
use crate::engine::Command;
use crate::library::Song;

verus! {

/// A keyboard event as the control loop sees it: a printable character, one
/// of the handled special keys, or anything else.
#[derive(Clone, Copy, PartialEq, Eq, Structural, Debug)]
pub enum KeyInput {
    Char(char),
    Left,
    Right,
    Up,
    Down,
    Other,
}

/// The control loop's own state: the track it believes is playing, its exit
/// flag, and its optimistic copies of the transport flags.
pub struct RApp {
    pub current_playing: Song,
    pub exit: bool,
    pub looping: bool,
    pub song_repeat: bool,
    pub is_playing: bool,
}

/// The control-loop state after one key is handled: `q` raises the exit
/// flag, space toggles play/pause, `l` toggles looping, `r` toggles song
/// repeat, and every other key leaves the state alone.
pub open spec fn ui_step(pre: RApp, k: KeyInput) -> RApp {
    match k {
        KeyInput::Char(c) => (
            if c == 'q' {
                RApp { exit: true, ..pre }
            } else if c == ' ' {
                RApp { is_playing: !pre.is_playing, ..pre }
            } else if c == 'l' {
                RApp { looping: !pre.looping, ..pre }
            } else if c == 'r' {
                RApp { song_repeat: !pre.song_repeat, ..pre }
            } else {
                pre
            }
        ),
        _ => pre,
    }
}

/// The command one key sends to the engine, if any: the toggles send the
/// command that matches the flag's new value, the arrows send transport and
/// volume commands, and `q` sends nothing — quitting is the loop's own
/// affair.
pub open spec fn ui_command(pre: RApp, k: KeyInput) -> Option<Command> {
    match k {
        KeyInput::Char(c) => (
            if c == ' ' {
                if !pre.is_playing {
                    Some(Command::Playing)
                } else {
                    Some(Command::Paused)
                }
            } else if c == 'l' {
                if !pre.looping {
                    Some(Command::Loop)
                } else {
                    Some(Command::NoLoop)
                }
            } else if c == 'r' {
                if !pre.song_repeat {
                    Some(Command::RepeatSong)
                } else {
                    Some(Command::NoRepeat)
                }
            } else {
                None
            }
        ),
        KeyInput::Left => Some(Command::Back),
        KeyInput::Right => Some(Command::Skip),
        KeyInput::Up => Some(Command::VolumeUp),
        KeyInput::Down => Some(Command::VolumeDown),
        KeyInput::Other => None,
    }
}

impl RApp {
    /// Raises the exit flag; the loop's condition observes it on its next
    /// turn. Nothing else changes.
    pub fn exit(&mut self)
        ensures
            *final(self) == (RApp { exit: true, ..*old(self) }),
    {
        self.exit = true;
    }

    /// Handles one key: updates the mirrored flags and returns the command
    /// to send to the engine, if the key maps to one.
    pub fn handle_key(&mut self, k: KeyInput) -> (cmd: Option<Command>)
        ensures
            *final(self) == ui_step(*old(self), k),
            cmd == ui_command(*old(self), k),
    {
        match k {
            KeyInput::Char(c) => {
                if c == 'q' {
                    self.exit();
                    None
                } else if c == ' ' {
                    self.is_playing = !self.is_playing;
                    if self.is_playing {
                        Some(Command::Playing)
                    } else {
                        Some(Command::Paused)
                    }
                } else if c == 'l' {
                    self.looping = !self.looping;
                    if self.looping {
                        Some(Command::Loop)
                    } else {
                        Some(Command::NoLoop)
                    }
                } else if c == 'r' {
                    self.song_repeat = !self.song_repeat;
                    if self.song_repeat {
                        Some(Command::RepeatSong)
                    } else {
                        Some(Command::NoRepeat)
                    }
                } else {
                    None
                }
            },
            KeyInput::Left => Some(Command::Back),
            KeyInput::Right => Some(Command::Skip),
            KeyInput::Up => Some(Command::VolumeUp),
            KeyInput::Down => Some(Command::VolumeDown),
            KeyInput::Other => None,
        }
    }

    /// Copies the track at the engine's cursor as "now playing" for the next
    /// render; the flags stay as they are.
    pub fn set_now_playing(&mut self, s: &Song)
        ensures
            *final(self) == (RApp { current_playing: *s, ..*old(self) }),
    {
        self.current_playing = s.clone();
    }

    /// The text of the view's looping line: song repeat shows ahead of
    /// library looping, and `OFF` stands for neither.
    pub fn loop_mode_label(&self) -> (r: &'static str)
        ensures
            self.song_repeat ==> r@ == "SONG"@,
            !self.song_repeat && self.looping ==> r@ == "LIB"@,
            !self.song_repeat && !self.looping ==> r@ == "OFF"@,
    {
        if self.song_repeat {
            "SONG"
        } else if self.looping {
            "LIB"
        } else {
            "OFF"
        }
    }

    /// The text of the view's play-state line.
    pub fn play_state_label(&self) -> (r: &'static str)
        ensures
            self.is_playing ==> r@ == "Playing"@,
            !self.is_playing ==> r@ == "Paused"@,
    {
        if self.is_playing {
            "Playing"
        } else {
            "Paused"
        }
    }
}

impl Default for RApp {
    /// The state before a session: no track on show, not exiting, playing
    /// with both transport flags off once the session starts.
    fn default() -> (r: RApp)
        ensures
            r.current_playing@.artist == Seq::<char>::empty(),
            r.current_playing@.name == Seq::<char>::empty(),
            r.current_playing@.location == Seq::<char>::empty(),
            !r.exit,
            !r.looping,
            !r.song_repeat,
            !r.is_playing,
    {
        RApp {
            current_playing: Song {
                artist: String::new(),
                name: String::new(),
                location: String::new(),
            },
            exit: false,
            looping: false,
            song_repeat: false,
            is_playing: false,
        }
    }
}

} // verus!
