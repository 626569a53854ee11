use vstd::prelude::*;

verus! {

/// What the audio output must do after a frame.
#[derive(PartialEq, Eq, Structural, Debug, Clone, Copy)]
pub enum ToneCommand {
    /// Start the tone.
    Play,
    /// Stop the tone.
    Pause,
    /// Leave the tone as it is.
    Keep,
}

/// Whether the 440 Hz tone is playing; it follows the sound timer.
pub struct ToneState {
    pub is_playing: bool,
}

impl ToneState {
    /// The tone starts silent.
    pub fn new() -> (t: Self)
        ensures
            !t.is_playing,
    {
        ToneState { is_playing: false }
    }

    /// Follows the sound timer: starts the tone when the timer runs and the
    /// tone is silent, stops it when the timer is stopped and the tone
    /// plays, and otherwise leaves it.
    pub fn update(&mut self, sound_timer_active: bool) -> (c: ToneCommand)
        ensures
            final(self).is_playing == sound_timer_active,
            c == if sound_timer_active && !old(self).is_playing {
                ToneCommand::Play
            } else if !sound_timer_active && old(self).is_playing {
                ToneCommand::Pause
            } else {
                ToneCommand::Keep
            },
    {
        if sound_timer_active && !self.is_playing {
            self.is_playing = true;
            ToneCommand::Play
        } else if !sound_timer_active && self.is_playing {
            self.is_playing = false;
            ToneCommand::Pause
        } else {
            ToneCommand::Keep
        }
    }
}

} // verus!
