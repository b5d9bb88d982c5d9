//! Interaction state: pause, audio unlock, dragging, rewinding and colour
//! theme, and the decisions that the input handler and the frame update make
//! on it. Positions, velocities and zoom stay with the caller.

use vstd::prelude::*;

verus! {

/// Colour theme of the notes.
#[derive(Clone, Copy, Debug, PartialEq, Eq, Structural)]
pub enum NoteTheme {
    Rainbow,
    Ice,
}

/// The other theme: the theme key switches between the two.
pub open spec fn spec_toggled(theme: NoteTheme) -> NoteTheme {
    match theme {
        NoteTheme::Rainbow => NoteTheme::Ice,
        NoteTheme::Ice => NoteTheme::Rainbow,
    }
}

/// Returns the other theme.
pub fn toggled(theme: NoteTheme) -> (t: NoteTheme)
    ensures
        t == spec_toggled(theme),
{
    match theme {
        NoteTheme::Rainbow => NoteTheme::Ice,
        NoteTheme::Ice => NoteTheme::Rainbow,
    }
}

/// What drives the song clock in a frame, by priority: an active drag, then
/// vertical momentum, then horizontal momentum, then a rewind, then playback.
#[derive(Clone, Copy, Debug, PartialEq, Eq, Structural)]
pub enum TimeMode {
    /// A pointer or finger is dragging.
    Drag,
    /// Vertical fling after a drag: the clock coasts.
    ScrollMomentum,
    /// Horizontal fling after a drag: the keyboard coasts, playback goes on.
    PanMomentum,
    /// Rewinding to the start of the song.
    Rewind,
    /// Normal playback.
    Play,
    /// Paused with nothing moving.
    Hold,
}

/// What a touch that begins does.
#[derive(Clone, Copy, Debug, PartialEq, Eq, Structural)]
pub struct TouchStart {
    /// The audio context must be resumed (first interaction).
    pub resume_audio: bool,
    /// Two or more fingers are down: a pinch begins and dragging stops.
    pub pinch: bool,
}

/// Interaction state of the player.
#[derive(Clone, Copy, Debug, PartialEq, Eq, Structural)]
pub struct Controls {
    pub paused: bool,
    /// Audio may only start after a user gesture.
    pub audio_unlocked: bool,
    /// Playback waits for the piano samples to load.
    pub waiting_for_samples: bool,
    pub drag_active: bool,
    /// Pause state to return to once a vertical fling settles.
    pub was_paused_before_drag: bool,
    /// Rewinding to the start of the song.
    pub rewinding: bool,
    pub theme: NoteTheme,
}

impl Controls {
    /// Playback only waits for samples once audio has been unlocked.
    pub open spec fn wf(&self) -> bool {
        self.waiting_for_samples ==> self.audio_unlocked
    }

    /// The state after the first gesture unlocks audio (no change afterwards).
    pub open spec fn unlocked(self) -> Controls {
        if self.audio_unlocked {
            self
        } else {
            Controls { audio_unlocked: true, waiting_for_samples: true, ..self }
        }
    }

    /// The state after a drag begins from a fresh press or touch.
    pub open spec fn drag_started(self) -> Controls {
        Controls {
            drag_active: true,
            was_paused_before_drag: self.paused,
            rewinding: false,
            ..self.unlocked()
        }
    }

    /// The state after Space: the first press unlocks audio, later presses
    /// toggle pause.
    pub open spec fn after_space(self) -> Controls {
        if self.audio_unlocked {
            Controls { paused: !self.paused, ..self }
        } else {
            self.unlocked()
        }
    }

    /// A fresh player: paused, audio locked, nothing moving.
    pub fn new(theme: NoteTheme) -> (c: Controls)
        ensures
            c.wf(),
            c == (Controls {
                paused: true,
                audio_unlocked: false,
                waiting_for_samples: false,
                drag_active: false,
                was_paused_before_drag: false,
                rewinding: false,
                theme,
            }),
    {
        Controls {
            paused: true,
            audio_unlocked: false,
            waiting_for_samples: false,
            drag_active: false,
            was_paused_before_drag: false,
            rewinding: false,
            theme,
        }
    }

    /// Unlocks audio on the first gesture; returns true exactly then, when the
    /// audio context must be resumed and playback waits for the samples.
    fn unlock_audio(&mut self) -> (resume: bool)
        ensures
            resume == !old(self).audio_unlocked,
            *final(self) == old(self).unlocked(),
    {
        if !self.audio_unlocked {
            self.audio_unlocked = true;
            self.waiting_for_samples = true;
            true
        } else {
            false
        }
    }

    /// The cursor moved: a redraw is needed only while dragging.
    pub fn redraw_on_cursor_move(&self) -> (redraw: bool)
        ensures
            redraw == self.drag_active,
    {
        self.drag_active
    }

    /// The left mouse button went down: unlock audio if needed and start a
    /// drag. Returns whether the audio context must be resumed.
    pub fn press_pointer(&mut self) -> (resume_audio: bool)
        requires
            old(self).wf(),
        ensures
            final(self).wf(),
            resume_audio == !old(self).audio_unlocked,
            *final(self) == old(self).drag_started(),
    {
        let resume = self.unlock_audio();
        self.drag_active = true;
        self.was_paused_before_drag = self.paused;
        self.rewinding = false;
        resume
    }

    /// The left mouse button went up: the drag ends.
    pub fn release_pointer(&mut self)
        requires
            old(self).wf(),
        ensures
            final(self).wf(),
            *final(self) == (Controls { drag_active: false, ..*old(self) }),
    {
        self.drag_active = false;
    }

    /// A finger touched down; `touches` fingers are now down. With two or
    /// more a pinch begins and dragging stops; with one a drag begins.
    pub fn touch_started(&mut self, touches: usize) -> (start: TouchStart)
        requires
            old(self).wf(),
        ensures
            final(self).wf(),
            start.resume_audio == !old(self).audio_unlocked,
            start.pinch == (touches >= 2),
            touches >= 2 ==> *final(self) == (Controls { drag_active: false, ..old(self).unlocked() }),
            touches < 2 ==> *final(self) == old(self).drag_started(),
    {
        let resume = self.unlock_audio();
        if touches >= 2 {
            self.drag_active = false;
            TouchStart { resume_audio: resume, pinch: true }
        } else {
            self.drag_active = true;
            self.was_paused_before_drag = self.paused;
            self.rewinding = false;
            TouchStart { resume_audio: resume, pinch: false }
        }
    }

    /// A finger lifted or was cancelled; `remaining` fingers are still down.
    /// With one left the drag restarts from it (returns true); with none the
    /// drag ends; with two or more the pinch goes on.
    pub fn touch_ended(&mut self, remaining: usize) -> (restart_drag: bool)
        requires
            old(self).wf(),
        ensures
            final(self).wf(),
            restart_drag == (remaining == 1),
            remaining == 1 ==> *final(self) == (Controls { drag_active: true, ..*old(self) }),
            remaining == 0 ==> *final(self) == (Controls { drag_active: false, ..*old(self) }),
            remaining >= 2 ==> *final(self) == *old(self),
    {
        if remaining == 1 {
            self.drag_active = true;
            true
        } else {
            if remaining == 0 {
                self.drag_active = false;
            }
            false
        }
    }

    /// Space: the first press unlocks audio (and returns true, the context
    /// must be resumed); later presses toggle pause.
    pub fn press_space(&mut self) -> (resume_audio: bool)
        requires
            old(self).wf(),
        ensures
            final(self).wf(),
            resume_audio == !old(self).audio_unlocked,
            *final(self) == old(self).after_space(),
    {
        if !self.audio_unlocked {
            self.unlock_audio()
        } else {
            self.paused = !self.paused;
            false
        }
    }

    /// Backspace: rewind to the start and play.
    pub fn press_backspace(&mut self)
        requires
            old(self).wf(),
        ensures
            final(self).wf(),
            *final(self) == (Controls { rewinding: true, paused: false, ..*old(self) }),
    {
        self.rewinding = true;
        self.paused = false;
    }

    /// T: switch the colour theme.
    pub fn press_theme_key(&mut self)
        requires
            old(self).wf(),
        ensures
            final(self).wf(),
            *final(self) == (Controls { theme: spec_toggled(old(self).theme), ..*old(self) }),
    {
        self.theme = toggled(self.theme);
    }

    /// The piano samples finished loading: if playback was waiting for them,
    /// it starts.
    pub fn samples_ready(&mut self)
        requires
            old(self).wf(),
        ensures
            final(self).wf(),
            old(self).waiting_for_samples ==> *final(self) == (Controls {
                waiting_for_samples: false,
                paused: false,
                ..*old(self)
            }),
            !old(self).waiting_for_samples ==> *final(self) == *old(self),
    {
        if self.waiting_for_samples {
            self.waiting_for_samples = false;
            self.paused = false;
        }
    }

    /// A new song was loaded: it plays at once with audio unlocked, and any
    /// rewind is dropped.
    pub fn song_loaded(&mut self)
        requires
            old(self).wf(),
        ensures
            final(self).wf(),
            *final(self) == (Controls {
                paused: false,
                audio_unlocked: true,
                rewinding: false,
                ..*old(self)
            }),
    {
        self.paused = false;
        self.audio_unlocked = true;
        self.rewinding = false;
    }

    /// What drives the clock this frame. `scroll_moving` and `pan_moving`
    /// say whether a vertical or horizontal fling is still under way.
    pub fn time_mode(&self, scroll_moving: bool, pan_moving: bool) -> (mode: TimeMode)
        ensures
            mode == (if self.drag_active {
                TimeMode::Drag
            } else if scroll_moving {
                TimeMode::ScrollMomentum
            } else if pan_moving {
                TimeMode::PanMomentum
            } else if self.rewinding {
                TimeMode::Rewind
            } else if !self.paused {
                TimeMode::Play
            } else {
                TimeMode::Hold
            }),
    {
        if self.drag_active {
            TimeMode::Drag
        } else if scroll_moving {
            TimeMode::ScrollMomentum
        } else if pan_moving {
            TimeMode::PanMomentum
        } else if self.rewinding {
            TimeMode::Rewind
        } else if !self.paused {
            TimeMode::Play
        } else {
            TimeMode::Hold
        }
    }

    /// A vertical fling came to rest: the pause state from before the drag
    /// comes back.
    pub fn scroll_settled(&mut self)
        requires
            old(self).wf(),
        ensures
            final(self).wf(),
            *final(self) == (Controls { paused: old(self).was_paused_before_drag, ..*old(self) }),
    {
        self.paused = self.was_paused_before_drag;
    }

    /// The rewind reached the start of the song.
    pub fn rewind_finished(&mut self)
        requires
            old(self).wf(),
        ensures
            final(self).wf(),
            *final(self) == (Controls { rewinding: false, ..*old(self) }),
    {
        self.rewinding = false;
    }

    /// Whether the scene needs another frame: while playing, waiting for
    /// samples, dragging, pinching, flinging, rewinding, with live particles
    /// or with keys still moving.
    pub fn needs_animation(
        &self,
        pinching: bool,
        scroll_moving: bool,
        pan_moving: bool,
        particles_alive: bool,
        keys_moving: bool,
    ) -> (again: bool)
        ensures
            again == (!self.paused || self.waiting_for_samples || self.drag_active || pinching
                || scroll_moving || pan_moving || self.rewinding || particles_alive || keys_moving),
    {
        if !self.paused {
            return true;
        }
        if self.waiting_for_samples {
            return true;
        }
        if self.drag_active {
            return true;
        }
        if pinching {
            return true;
        }
        if scroll_moving {
            return true;
        }
        if pan_moving {
            return true;
        }
        if self.rewinding {
            return true;
        }
        if particles_alive {
            return true;
        }
        keys_moving
    }
}


/// Once audio is unlocked, Space toggles pause: pressing it twice restores
/// the state.
pub proof fn lemma_space_twice(c: Controls)
    requires
        c.audio_unlocked,
    ensures
        c.after_space().paused == !c.paused,
        c.after_space().after_space() == c,
{
}

/// The theme key switches between the two themes: pressing it twice restores
/// the theme.
pub proof fn lemma_theme_twice(theme: NoteTheme)
    ensures
        spec_toggled(theme) != theme,
        spec_toggled(spec_toggled(theme)) == theme,
{
}

/// The audio context is resumed at most once: after the first gesture audio
/// stays unlocked, so no later gesture asks for a resume.
pub proof fn lemma_unlock_once(c: Controls)
    ensures
        c.unlocked().audio_unlocked,
        c.unlocked().unlocked() == c.unlocked(),
        c.drag_started().audio_unlocked,
        c.after_space().audio_unlocked,
        c.audio_unlocked ==> c.unlocked() == c,
{
}


/// What Space does, field by field: the first press sets the audio unlock
/// and the wait for samples and nothing else; once audio is unlocked it flips
/// the pause flag and nothing else.
pub proof fn lemma_space_effect(c: Controls)
    ensures
        c.audio_unlocked ==> c.after_space() == (Controls { paused: !c.paused, ..c }),
        !c.audio_unlocked ==> c.after_space() == (Controls {
            audio_unlocked: true,
            waiting_for_samples: true,
            ..c
        }),
        c.after_space().rewinding == c.rewinding,
        c.after_space().drag_active == c.drag_active,
        c.after_space().theme == c.theme,
{
}

/// What a fresh press or touch does, field by field: it unlocks audio (and
/// starts waiting for samples) if still locked, starts a drag, remembers the
/// pause state and drops any rewind; pause and theme stay.
pub proof fn lemma_drag_start_effect(c: Controls)
    ensures
        c.drag_started() == (Controls {
            paused: c.paused,
            audio_unlocked: true,
            waiting_for_samples: if c.audio_unlocked { c.waiting_for_samples } else { true },
            drag_active: true,
            was_paused_before_drag: c.paused,
            rewinding: false,
            theme: c.theme,
        }),
        c.unlocked() == (Controls {
            audio_unlocked: true,
            waiting_for_samples: if c.audio_unlocked { c.waiting_for_samples } else { true },
            ..c
        }),
{
}

/// The theme key swaps Rainbow and Ice.
pub proof fn lemma_theme_swap()
    ensures
        spec_toggled(NoteTheme::Rainbow) == NoteTheme::Ice,
        spec_toggled(NoteTheme::Ice) == NoteTheme::Rainbow,
{
}

} // verus!
