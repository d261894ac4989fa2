//! The per-tick state machine: attach to the game, find its main module,
//! resolve the world pointer, then sample the loading flag each tick and tell
//! the timer to pause or resume game time.
//!
//! The machine does no I/O itself. Its driver performs what the current phase
//! asks for (attach, look up the module, read the module's bytes, read the
//! loading flag through the pointer chain) and hands the outcome back.

use vstd::prelude::*;
use crate::memory::{MemoryImage, follow_path};
use crate::resolver::{resolve, resolved_address};
use crate::watcher::Watcher;

verus! {

/// Offsets of the pointer chain from the world pointer to the loading flag.
pub const LOAD_STATE_PATH: [u64; 7] = [0x0, 0x180, 0x38, 0x0, 0x30, 0x250, 0x350];

/// The state of the external timer, as the host reports it.
#[derive(Clone, Copy, Debug, PartialEq, Eq)]
pub enum TimerState {
    NotRunning,
    Running,
    Paused,
}

/// What the timer is told to do this tick.
#[derive(Clone, Copy, Debug, PartialEq, Eq)]
pub enum TimerCommand {
    Nothing,
    PauseGameTime,
    ResumeGameTime,
}

/// Where the machine stands.
#[derive(Clone, Copy, Debug, PartialEq, Eq)]
pub enum Phase {
    /// No process is attached.
    Disconnected,
    /// Attached; the main module's base is not known yet.
    Connecting,
    /// The main module is at `module_base`; the world pointer is not resolved yet.
    Scanning { module_base: u64 },
    /// The world pointer is at `world`; the loading flag is sampled each tick.
    Monitoring { world: u64 },
}

/// The whole state that the driver carries from tick to tick.
#[derive(Clone, Copy, Debug, PartialEq, Eq)]
pub struct Monitor {
    pub phase: Phase,
    pub load_state: Watcher<bool>,
}

/// A watcher that has never sampled.
pub open spec fn fresh_watcher() -> Watcher<bool> {
    Watcher { previous: None, current: None }
}

/// The machine with no process attached and nothing sampled.
pub open spec fn disconnected() -> Monitor {
    Monitor { phase: Phase::Disconnected, load_state: fresh_watcher() }
}

/// The command for a loading flag: the timer is only told anything while it is
/// running or paused, and only once the flag has been read at least once.
pub open spec fn spec_command(loading: Option<bool>, timer: TimerState) -> TimerCommand {
    if timer is NotRunning {
        TimerCommand::Nothing
    } else {
        match loading {
            Some(true) => TimerCommand::PauseGameTime,
            Some(false) => TimerCommand::ResumeGameTime,
            None => TimerCommand::Nothing,
        }
    }
}

/// Whether a raw value of the flag means loading: exactly when it is zero.
pub open spec fn spec_is_loading(raw: Option<u32>) -> Option<bool> {
    match raw {
        Some(v) => Some(v == 0),
        None => None,
    }
}

impl Monitor {
    /// The world pointer, while the loading flag is being sampled: the only
    /// phase in which the pointer chain is read.
    pub open spec fn spec_world(self) -> Option<u64> {
        match self.phase {
            Phase::Monitoring { world } => Some(world),
            _ => None,
        }
    }

    /// After an attach attempt.
    pub open spec fn spec_on_attach(self, attached: bool) -> Monitor {
        if self.phase is Disconnected && attached {
            Monitor { phase: Phase::Connecting, load_state: fresh_watcher() }
        } else {
            self
        }
    }

    /// After a lookup of the main module's base.
    pub open spec fn spec_on_module_base(self, base: Option<u64>) -> Monitor {
        match (self.phase, base) {
            (Phase::Connecting, Some(b)) => Monitor { phase: Phase::Scanning { module_base: b }, ..self },
            _ => self,
        }
    }

    /// After the main module's bytes were read.
    pub open spec fn spec_on_module(self, module: Seq<u8>) -> Monitor {
        match self.phase {
            Phase::Scanning { module_base } => match resolved_address(module_base as int, module) {
                Some(w) => Monitor {
                    phase: Phase::Monitoring { world: w as u64 },
                    load_state: fresh_watcher(),
                },
                None => self,
            },
            _ => self,
        }
    }

    /// After the process was seen closed: everything is dropped, and a running
    /// timer is told to pause.
    pub open spec fn spec_on_closed(self, timer: TimerState) -> (Monitor, TimerCommand) {
        (
            disconnected(),
            if !(self.phase is Disconnected) && timer is Running {
                TimerCommand::PauseGameTime
            } else {
                TimerCommand::Nothing
            },
        )
    }

    /// One steady-state tick: the liveness flag, the raw loading flag (none where
    /// the read failed) and the timer's state.
    pub open spec fn spec_tick(self, open: bool, raw: Option<u32>, timer: TimerState) -> (Monitor, TimerCommand) {
        if !open {
            self.spec_on_closed(timer)
        } else if self.phase is Monitoring {
            let w = self.load_state.spec_update(spec_is_loading(raw));
            (Monitor { load_state: w, ..self }, spec_command(w.current, timer))
        } else {
            (self, TimerCommand::Nothing)
        }
    }

    /// A machine with no process attached.
    pub fn new() -> (m: Self)
        ensures
            m == disconnected(),
    {
        Monitor { phase: Phase::Disconnected, load_state: Watcher::new() }
    }

    /// The world pointer while the loading flag is being sampled.
    pub fn world(&self) -> (r: Option<u64>)
        ensures
            r == self.spec_world(),
    {
        match self.phase {
            Phase::Monitoring { world } => Some(world),
            _ => None,
        }
    }

    /// Takes the outcome of an attach attempt.
    pub fn on_attach(&mut self, attached: bool)
        ensures
            *final(self) == old(self).spec_on_attach(attached),
    {
        if matches!(self.phase, Phase::Disconnected) && attached {
            self.phase = Phase::Connecting;
            self.load_state = Watcher::new();
        }
    }

    /// Takes the outcome of a lookup of the main module's base.
    pub fn on_module_base(&mut self, base: Option<u64>)
        ensures
            *final(self) == old(self).spec_on_module_base(base),
    {
        if let Phase::Connecting = self.phase {
            if let Some(b) = base {
                self.phase = Phase::Scanning { module_base: b };
            }
        }
    }

    /// Takes the bytes of the main module and resolves the world pointer in them;
    /// a miss leaves the machine scanning, to try again.
    pub fn on_module(&mut self, module: &[u8])
        ensures
            *final(self) == old(self).spec_on_module(module@),
    {
        if let Phase::Scanning { module_base } = self.phase {
            if let Some(w) = resolve(module_base, module) {
                self.phase = Phase::Monitoring { world: w };
                self.load_state = Watcher::new();
            }
        }
    }

    /// Takes the news that the process closed.
    pub fn on_closed(&mut self, timer: TimerState) -> (r: TimerCommand)
        ensures
            (*final(self), r) == old(self).spec_on_closed(timer),
    {
        let r = if !matches!(self.phase, Phase::Disconnected) && matches!(timer, TimerState::Running) {
            TimerCommand::PauseGameTime
        } else {
            TimerCommand::Nothing
        };
        self.phase = Phase::Disconnected;
        self.load_state = Watcher::new();
        r
    }

    /// Runs one tick and returns what the timer is to be told.
    pub fn tick(&mut self, open: bool, raw: Option<u32>, timer: TimerState) -> (r: TimerCommand)
        ensures
            (*final(self), r) == old(self).spec_tick(open, raw, timer),
    {
        if !open {
            return self.on_closed(timer);
        }
        if let Phase::Monitoring { .. } = self.phase {
            let sample = match raw {
                Some(v) => Some(v == 0),
                None => None,
            };
            self.load_state.update(sample);
            is_loading_command(self.load_state.current, timer)
        } else {
            TimerCommand::Nothing
        }
    }
}

/// The raw loading flag that the pointer chain from `world` ends on in `regions`.
pub open spec fn spec_load_state_raw(regions: Seq<crate::memory::Region>, world: u64) -> Option<u32> {
    match follow_path(regions, world as int, LOAD_STATE_PATH@) {
        Some(v) => Some(v as u32),
        None => None,
    }
}

impl Monitor {
    /// Runs one tick against a memory image: while monitoring an open process the
    /// loading flag is read through the pointer chain from the world pointer;
    /// otherwise nothing is read.
    pub fn update_loop(&mut self, image: &MemoryImage, open: bool, timer: TimerState) -> (r: TimerCommand)
        ensures
            (*final(self), r) == old(self).spec_tick(
                open,
                match old(self).spec_world() {
                    Some(w) => if open {
                        spec_load_state_raw(image.view(), w)
                    } else {
                        None
                    },
                    None => None,
                },
                timer,
            ),
    {
        let raw = match self.world() {
            Some(w) => if open {
                let path: [u64; 7] = LOAD_STATE_PATH;
                image.read_pointer_path(w, path.as_slice())
            } else {
                None
            },
            None => None,
        };
        self.tick(open, raw, timer)
    }

    /// Whether the game is loading, once the flag has been read.
    pub fn is_loading(&self) -> (r: Option<bool>)
        ensures
            r == self.load_state.current,
    {
        self.load_state.current
    }

    /// Whether the timer should start: no start condition is set.
    pub fn start(&self) -> (r: bool)
        ensures
            !r,
    {
        false
    }

    /// Whether the timer should split: no split condition is set.
    pub fn split(&self) -> (r: bool)
        ensures
            !r,
    {
        false
    }

    /// Whether the timer should reset: no reset condition is set.
    pub fn reset(&self) -> (r: bool)
        ensures
            !r,
    {
        false
    }

    /// The game time to set, in milliseconds: none is set.
    pub fn game_time(&self) -> (r: Option<u64>)
        ensures
            r is None,
    {
        None
    }
}

/// The command for a loading flag and the timer's state.
pub fn is_loading_command(loading: Option<bool>, timer: TimerState) -> (r: TimerCommand)
    ensures
        r == spec_command(loading, timer),
{
    match timer {
        TimerState::NotRunning => TimerCommand::Nothing,
        _ => match loading {
            Some(true) => TimerCommand::PauseGameTime,
            Some(false) => TimerCommand::ResumeGameTime,
            None => TimerCommand::Nothing,
        },
    }
}

/// When the process closes while the timer runs, that tick tells the timer to
/// pause, once, and the machine drops everything it held; until an attach
/// succeeds, no later tick or lookup brings back a world pointer or tells the
/// timer anything.
pub proof fn lemma_close_while_running(m: Monitor, raw: Option<u32>)
    requires
        m.phase is Monitoring,
    ensures
        m.spec_tick(false, raw, TimerState::Running) == (disconnected(), TimerCommand::PauseGameTime),
        disconnected().spec_world() is None,
        disconnected().spec_on_attach(false) == disconnected(),
        forall|b: Option<u64>| #[trigger] disconnected().spec_on_module_base(b) == disconnected(),
        forall|bytes: Seq<u8>| #[trigger] disconnected().spec_on_module(bytes) == disconnected(),
        forall|open: bool, r: Option<u32>, t: TimerState| #[trigger] disconnected().spec_tick(open, r, t)
            == (disconnected(), TimerCommand::Nothing),
{
}

/// A tick issues one command; ticking again on the same values issues the same
/// one, so a loading flag that stays set keeps game time paused.
pub proof fn lemma_steady_ticks_repeat(m: Monitor, raw: Option<u32>, timer: TimerState)
    requires
        m.phase is Monitoring,
    ensures
        ({
            let (m1, c1) = m.spec_tick(true, raw, timer);
            let (m2, c2) = m1.spec_tick(true, raw, timer);
            &&& m2.phase == m.phase
            &&& c2 == c1
            &&& raw == Some(0u32) && !(timer is NotRunning) ==> c1 == TimerCommand::PauseGameTime
        }),
{
}

} // verus!
