//! Per-frame input flags and the momentum model that turns discrete key
//! presses into smooth, decaying movement intents.
use vstd::prelude::*;

verus! {

/// Frames a movement stays active after its key was last seen.
pub const MAX_MOMENTUM: u8 = 5;

/// Everything the game loop needs to know about input for one frame.
#[derive(Debug, Clone, Copy, PartialEq, Eq, Structural)]
pub struct InputState {
    pub left_up: bool,
    pub left_down: bool,
    pub right_up: bool,
    pub right_down: bool,
    pub quit: bool,
    pub pause: bool,
}

impl InputState {
    pub open spec fn idle() -> InputState {
        InputState {
            left_up: false,
            left_down: false,
            right_up: false,
            right_down: false,
            quit: false,
            pause: false,
        }
    }

    /// An input state with nothing active.
    pub fn new() -> (r: Self)
        ensures
            r == InputState::idle(),
    {
        InputState {
            left_up: false,
            left_down: false,
            right_up: false,
            right_down: false,
            quit: false,
            pause: false,
        }
    }

    /// Whether any input is active.
    pub fn has_input(&self) -> (r: bool)
        ensures
            r == (self.left_up || self.left_down || self.right_up || self.right_down || self.quit
                || self.pause),
    {
        self.left_up || self.left_down || self.right_up || self.right_down || self.quit
            || self.pause
    }
}

/// A movement intent: which paddle, which way.
#[derive(Debug, Clone, Copy, PartialEq, Eq, Structural)]
pub enum Direction {
    LeftUp,
    LeftDown,
    RightUp,
    RightDown,
}

impl Direction {
    /// The same paddle, the other way.
    pub open spec fn opposite(self) -> Direction {
        match self {
            Direction::LeftUp => Direction::LeftDown,
            Direction::LeftDown => Direction::LeftUp,
            Direction::RightUp => Direction::RightDown,
            Direction::RightDown => Direction::RightUp,
        }
    }
}

/// A key as the input source reports it.
#[derive(Debug, Clone, Copy, PartialEq, Eq, Structural)]
pub enum Key {
    Char(char),
    Up,
    Down,
    Esc,
    Enter,
    Other,
}

impl Key {
    pub open spec fn spec_direction(self) -> Option<Direction> {
        match self {
            Key::Char(c) => if c == 'w' || c == 'W' {
                Some(Direction::LeftUp)
            } else if c == 's' || c == 'S' {
                Some(Direction::LeftDown)
            } else {
                None
            },
            Key::Up => Some(Direction::RightUp),
            Key::Down => Some(Direction::RightDown),
            _ => None,
        }
    }

    pub open spec fn spec_is_quit(self) -> bool {
        self == Key::Char('q') || self == Key::Char('Q') || self == Key::Esc
    }

    /// The movement a key stands for: W/S move the left paddle, the arrow
    /// keys the right one.
    pub fn direction(&self) -> (r: Option<Direction>)
        ensures
            r == self.spec_direction(),
    {
        match self {
            Key::Char(c) => {
                if *c == 'w' || *c == 'W' {
                    Some(Direction::LeftUp)
                } else if *c == 's' || *c == 'S' {
                    Some(Direction::LeftDown)
                } else {
                    None
                }
            },
            Key::Up => Some(Direction::RightUp),
            Key::Down => Some(Direction::RightDown),
            _ => None,
        }
    }
}

/// Four decaying counters, one per movement direction.
#[derive(Debug, Clone, Copy, PartialEq, Eq, Structural)]
pub struct MomentumTracker {
    pub left_up_momentum: u8,
    pub left_down_momentum: u8,
    pub right_up_momentum: u8,
    pub right_down_momentum: u8,
}

pub open spec fn decay_counter(c: u8) -> u8 {
    if c > 0 {
        (c - 1) as u8
    } else {
        0
    }
}

impl MomentumTracker {
    /// Every counter is within `[0, MAX_MOMENTUM]`.
    pub open spec fn wf(self) -> bool {
        self.left_up_momentum <= MAX_MOMENTUM && self.left_down_momentum <= MAX_MOMENTUM
            && self.right_up_momentum <= MAX_MOMENTUM && self.right_down_momentum <= MAX_MOMENTUM
    }

    pub open spec fn counter(self, d: Direction) -> u8 {
        match d {
            Direction::LeftUp => self.left_up_momentum,
            Direction::LeftDown => self.left_down_momentum,
            Direction::RightUp => self.right_up_momentum,
            Direction::RightDown => self.right_down_momentum,
        }
    }

    pub open spec fn zero() -> MomentumTracker {
        MomentumTracker {
            left_up_momentum: 0,
            left_down_momentum: 0,
            right_up_momentum: 0,
            right_down_momentum: 0,
        }
    }

    /// The counter of `d` at its maximum and that of the opposite direction
    /// cleared; the other paddle's counters untouched.
    pub open spec fn pressed(self, d: Direction) -> MomentumTracker {
        match d {
            Direction::LeftUp => MomentumTracker {
                left_up_momentum: MAX_MOMENTUM,
                left_down_momentum: 0,
                ..self
            },
            Direction::LeftDown => MomentumTracker {
                left_down_momentum: MAX_MOMENTUM,
                left_up_momentum: 0,
                ..self
            },
            Direction::RightUp => MomentumTracker {
                right_up_momentum: MAX_MOMENTUM,
                right_down_momentum: 0,
                ..self
            },
            Direction::RightDown => MomentumTracker {
                right_down_momentum: MAX_MOMENTUM,
                right_up_momentum: 0,
                ..self
            },
        }
    }

    /// Every counter one lower, none below zero.
    pub open spec fn decayed(self) -> MomentumTracker {
        MomentumTracker {
            left_up_momentum: decay_counter(self.left_up_momentum),
            left_down_momentum: decay_counter(self.left_down_momentum),
            right_up_momentum: decay_counter(self.right_up_momentum),
            right_down_momentum: decay_counter(self.right_down_momentum),
        }
    }

    /// Which directions are active: (left up, left down, right up, right down).
    pub open spec fn active(self) -> (bool, bool, bool, bool) {
        (
            self.left_up_momentum > 0,
            self.left_down_momentum > 0,
            self.right_up_momentum > 0,
            self.right_down_momentum > 0,
        )
    }

    /// A tracker with no momentum.
    pub fn new() -> (r: Self)
        ensures
            r == MomentumTracker::zero(),
    {
        MomentumTracker {
            left_up_momentum: 0,
            left_down_momentum: 0,
            right_up_momentum: 0,
            right_down_momentum: 0,
        }
    }

    /// Register a press: `d` gets full momentum and the opposite direction
    /// loses all of its own, so opposing inputs never both register.
    pub fn add_momentum(&mut self, d: Direction)
        ensures
            *final(self) == old(self).pressed(d),
    {
        match d {
            Direction::LeftUp => {
                self.left_up_momentum = MAX_MOMENTUM;
                self.left_down_momentum = 0;
            },
            Direction::LeftDown => {
                self.left_down_momentum = MAX_MOMENTUM;
                self.left_up_momentum = 0;
            },
            Direction::RightUp => {
                self.right_up_momentum = MAX_MOMENTUM;
                self.right_down_momentum = 0;
            },
            Direction::RightDown => {
                self.right_down_momentum = MAX_MOMENTUM;
                self.right_up_momentum = 0;
            },
        }
    }

    /// Decay every counter by one frame and report which directions are
    /// still active afterwards.
    pub fn get_state(&mut self) -> (r: (bool, bool, bool, bool))
        ensures
            *final(self) == old(self).decayed(),
            r == final(self).active(),
    {
        if self.left_up_momentum > 0 {
            self.left_up_momentum -= 1;
        }
        if self.left_down_momentum > 0 {
            self.left_down_momentum -= 1;
        }
        if self.right_up_momentum > 0 {
            self.right_up_momentum -= 1;
        }
        if self.right_down_momentum > 0 {
            self.right_down_momentum -= 1;
        }
        (
            self.left_up_momentum > 0,
            self.left_down_momentum > 0,
            self.right_up_momentum > 0,
            self.right_down_momentum > 0,
        )
    }
}

/// Session input state: the momentum tracker, whether the pause key is held
/// down, and what the keys seen so far in the current frame asked for.
#[derive(Debug, Clone, Copy, PartialEq, Eq, Structural)]
pub struct InputTracker {
    pub momentum: MomentumTracker,
    /// The pause key was down in an earlier frame and has not been released.
    pub pause_held: bool,
    pub pause_pressed: bool,
    pub quit_pressed: bool,
    pub pause_key_seen: bool,
}

impl InputTracker {
    pub open spec fn fresh() -> InputTracker {
        InputTracker {
            momentum: MomentumTracker::zero(),
            pause_held: false,
            pause_pressed: false,
            quit_pressed: false,
            pause_key_seen: false,
        }
    }

    /// The tracker after one key event of the current frame.
    pub open spec fn after_key(self, key: Key) -> InputTracker {
        if key == Key::Char(' ') {
            if self.pause_held {
                InputTracker { pause_key_seen: true, ..self }
            } else {
                InputTracker { pause_key_seen: true, pause_pressed: true, pause_held: true, ..self }
            }
        } else if key.spec_is_quit() {
            InputTracker { quit_pressed: true, ..self }
        } else {
            match key.spec_direction() {
                Some(d) => InputTracker { momentum: self.momentum.pressed(d), ..self },
                None => self,
            }
        }
    }

    /// The input of the frame that ends now.
    pub open spec fn frame_input(self) -> InputState {
        let m = self.momentum.decayed();
        InputState {
            left_up: m.left_up_momentum > 0,
            left_down: m.left_down_momentum > 0,
            right_up: m.right_up_momentum > 0,
            right_down: m.right_down_momentum > 0,
            quit: self.quit_pressed,
            pause: self.pause_pressed,
        }
    }

    /// The tracker once the frame has ended: momentum decayed, the pause key
    /// released unless it was seen, the frame's requests cleared.
    pub open spec fn after_frame(self) -> InputTracker {
        InputTracker {
            momentum: self.momentum.decayed(),
            pause_held: self.pause_held && self.pause_key_seen,
            pause_pressed: false,
            quit_pressed: false,
            pause_key_seen: false,
        }
    }

    pub fn new() -> (r: Self)
        ensures
            r == InputTracker::fresh(),
    {
        InputTracker {
            momentum: MomentumTracker::new(),
            pause_held: false,
            pause_pressed: false,
            quit_pressed: false,
            pause_key_seen: false,
        }
    }

    /// Take one key event of the current frame. Space pauses only on the
    /// press that follows a release; Q and Esc quit; movement keys add
    /// momentum; other keys are ignored.
    pub fn on_key(&mut self, key: Key)
        ensures
            *final(self) == old(self).after_key(key),
    {
        match key {
            Key::Char(' ') => {
                self.pause_key_seen = true;
                if !self.pause_held {
                    self.pause_pressed = true;
                    self.pause_held = true;
                }
                return ;
            },
            Key::Char('q') | Key::Char('Q') | Key::Esc => {
                self.quit_pressed = true;
                return ;
            },
            _ => {},
        }
        if let Some(d) = key.direction() {
            self.momentum.add_momentum(d);
        }
    }

    /// End the frame: decay momentum once and return the frame's input.
    pub fn finish_frame(&mut self) -> (r: InputState)
        ensures
            r == old(self).frame_input(),
            *final(self) == old(self).after_frame(),
    {
        if !self.pause_key_seen {
            self.pause_held = false;
        }
        let (left_up, left_down, right_up, right_down) = self.momentum.get_state();
        let r = InputState {
            left_up,
            left_down,
            right_up,
            right_down,
            quit: self.quit_pressed,
            pause: self.pause_pressed,
        };
        self.pause_pressed = false;
        self.quit_pressed = false;
        self.pause_key_seen = false;
        r
    }
}

/// Reset the session's input state, momentum included, for a new session.
pub fn init_momentum(tracker: &mut InputTracker)
    ensures
        *final(tracker) == InputTracker::fresh(),
{
    *tracker = InputTracker::new();
}

/// The tracker after `n` frames of decay.
pub open spec fn decayed_times(m: MomentumTracker, n: nat) -> MomentumTracker
    decreases n,
{
    if n == 0 {
        m
    } else {
        decayed_times(m, (n - 1) as nat).decayed()
    }
}

/// After a press of `d` and `n` further frames, its counter has fallen by `n`
/// (to no less than zero): the direction reads active on the frames that
/// follow the press up to, not including, the `MAX_MOMENTUM`-th.
pub proof fn lemma_press_decays(m: MomentumTracker, d: Direction, n: nat)
    ensures
        decayed_times(m.pressed(d), n).counter(d) == if n <= MAX_MOMENTUM {
            MAX_MOMENTUM - n
        } else {
            0
        },
        decayed_times(m.pressed(d), n).counter(d) > 0 <==> n < MAX_MOMENTUM,
    decreases n,
{
    if n > 0 {
        lemma_press_decays(m, d, (n - 1) as nat);
    }
}

/// A press of the opposite direction right after a press clears the first
/// press's counter.
pub proof fn lemma_opposite_press_cancels(m: MomentumTracker, d: Direction)
    ensures
        m.pressed(d).pressed(d.opposite()).counter(d) == 0,
        m.pressed(d).pressed(d.opposite()).counter(d.opposite()) == MAX_MOMENTUM,
{
}

/// Opposing directions of one paddle never hold momentum together.
pub open spec fn exclusive(m: MomentumTracker) -> bool {
    !(m.left_up_momentum > 0 && m.left_down_momentum > 0) && !(m.right_up_momentum > 0
        && m.right_down_momentum > 0)
}

/// Starting from no momentum, presses and decay never let both directions of
/// a paddle read active in the same frame.
pub proof fn lemma_opposing_never_both_active(m: MomentumTracker, d: Direction)
    requires
        exclusive(m),
    ensures
        exclusive(MomentumTracker::zero()),
        exclusive(m.pressed(d)),
        exclusive(m.decayed()),
        !(m.decayed().active().0 && m.decayed().active().1),
        !(m.decayed().active().2 && m.decayed().active().3),
{
}

/// A pause key that is still held from an earlier frame does not pause
/// again; only a press after a release does.
pub proof fn lemma_pause_is_edge_triggered(t: InputTracker)
    ensures
        t.pause_held ==> t.after_key(Key::Char(' ')).pause_pressed == t.pause_pressed,
        !t.pause_held ==> t.after_key(Key::Char(' ')).pause_pressed,
        t.after_key(Key::Char(' ')).pause_held,
        !t.after_frame().pause_held || t.pause_key_seen,
{
}

/// Decay and presses keep every counter within `[0, MAX_MOMENTUM]`.
pub proof fn lemma_momentum_stays_bounded(m: MomentumTracker, d: Direction)
    requires
        m.wf(),
    ensures
        m.pressed(d).wf(),
        m.decayed().wf(),
{
}

} // verus!
