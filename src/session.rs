//! The update loop as a state machine: from the current phase and what the
//! last action brought back, the next phase and the next action to perform.
//!
//! The active handle is chosen again after every change signal and whenever
//! a signal ends. The loop has no timer: once no handle is playing or paused
//! it waits for good, and the caller may restart the session.
use vstd::prelude::*;
use crate::selection::{HandleReport, active_choice, get_active_player};
use crate::status::{PlayerStatus, TrackMetadata, is_snapshot_of};

verus! {

/// Where the update loop stands. The index in `Emitting` and `Watching` is
/// that of the active handle in the discovered, name-ordered list.
#[derive(Clone, Copy, Debug, PartialEq, Eq, Structural)]
pub enum Phase {
    Init,
    SelectingPlayer,
    Emitting(usize),
    Watching(usize),
    Waiting,
    Finished,
}

/// What performing the last action brought back.
#[derive(Clone, Debug)]
pub enum Event {
    /// Discovery succeeded (the handles are kept by the caller).
    Discovered,
    /// The bus connection or the enumeration of players failed.
    DiscoveryFailed,
    /// The survey of every discovered handle, in their order.
    Surveyed(Vec<HandleReport>),
    /// The metadata query of the active handle: none when it failed.
    Extracted(Option<TrackMetadata>),
    /// The change signal of the watched handle fired.
    Changed,
    /// The change signal of the watched handle ended (the player exited).
    WatchEnded,
}

/// What the caller is to do next.
#[derive(Clone, Debug)]
pub enum Action {
    /// Connect to the bus and discover the players.
    Discover,
    /// Query the status (and, where it is playing or paused, the metadata)
    /// of every discovered handle.
    Survey,
    /// Query the metadata of the handle at this index.
    Extract(usize),
    /// Send this snapshot as a status update, then watch the handle at this
    /// index.
    Publish(PlayerStatus, usize),
    /// Watch the handle at this index and wait for its change signal.
    Watch(usize),
    /// Nothing is playing: suspend without polling.
    Wait,
    /// Send the final update, then stop.
    Finish,
    /// Do nothing more.
    Stop,
}

/// Whether `e` answers the action that phase `p` asked for.
pub open spec fn accepts(p: Phase, e: Event) -> bool {
    match p {
        Phase::Init => e is Discovered || e is DiscoveryFailed,
        Phase::SelectingPlayer => e is Surveyed,
        Phase::Emitting(_) => e is Extracted,
        Phase::Watching(_) => e is Changed || e is WatchEnded,
        _ => false,
    }
}

/// The action that phase `p` waits on.
pub open spec fn pending(p: Phase) -> Action {
    match p {
        Phase::Init => Action::Discover,
        Phase::SelectingPlayer => Action::Survey,
        Phase::Emitting(i) => Action::Extract(i),
        Phase::Watching(i) => Action::Watch(i),
        Phase::Waiting => Action::Wait,
        Phase::Finished => Action::Stop,
    }
}

/// One move of the loop: from phase `p` on event `e` to phase `q` with
/// action `a`. An event that does not answer the pending action leaves the
/// phase as it is and asks for that action again.
pub open spec fn transition(p: Phase, e: Event, q: Phase, a: Action) -> bool {
    if !accepts(p, e) {
        q == p && a == pending(p)
    } else {
        match e {
            Event::Discovered => q == Phase::SelectingPlayer && a == Action::Survey,
            Event::DiscoveryFailed => q == Phase::Finished && a == Action::Finish,
            Event::Surveyed(reports) => match active_choice(reports@) {
                Some(i) => q == Phase::Emitting(i as usize) && a == Action::Extract(i as usize),
                None => q == Phase::Waiting && a == Action::Wait,
            },
            Event::Extracted(m) => match p {
                Phase::Emitting(i) => q == Phase::Watching(i) && match m {
                    Some(md) => a matches Action::Publish(st, j) && j == i && is_snapshot_of(
                        st,
                        md,
                    ),
                    None => a == Action::Watch(i),
                },
                _ => false,
            },
            _ => q == Phase::SelectingPlayer && a == Action::Survey,
        }
    }
}

/// Once a session has finished it stays finished and asks for nothing more;
/// in particular it never publishes a status again.
pub proof fn lemma_finished_is_final(e: Event, q: Phase, a: Action)
    requires
        transition(Phase::Finished, e, q, a),
    ensures
        q == Phase::Finished,
        a == Action::Stop,
{
}

/// The session of one run of the update loop.
pub struct State {
    pub phase: Phase,
}

impl State {
    /// A session that has not discovered anything yet.
    pub fn new() -> (r: State)
        ensures
            r.phase == Phase::Init,
    {
        State { phase: Phase::Init }
    }

    /// The action that the current phase waits on.
    pub fn pending_action(&self) -> (a: Action)
        ensures
            a == pending(self.phase),
    {
        match self.phase {
            Phase::Init => Action::Discover,
            Phase::SelectingPlayer => Action::Survey,
            Phase::Emitting(i) => Action::Extract(i),
            Phase::Watching(i) => Action::Watch(i),
            Phase::Waiting => Action::Wait,
            Phase::Finished => Action::Stop,
        }
    }

    /// Moves the session on by one event and says what to do next.
    pub fn step(&mut self, event: Event) -> (a: Action)
        ensures
            transition(old(self).phase, event, final(self).phase, a),
    {
        match (self.phase, event) {
            (Phase::Init, Event::Discovered) => {
                self.phase = Phase::SelectingPlayer;
                Action::Survey
            },
            (Phase::Init, Event::DiscoveryFailed) => {
                self.phase = Phase::Finished;
                Action::Finish
            },
            (Phase::SelectingPlayer, Event::Surveyed(reports)) => {
                match get_active_player(&reports) {
                    Some(i) => {
                        self.phase = Phase::Emitting(i);
                        Action::Extract(i)
                    },
                    None => {
                        self.phase = Phase::Waiting;
                        Action::Wait
                    },
                }
            },
            (Phase::Emitting(i), Event::Extracted(metadata)) => {
                self.phase = Phase::Watching(i);
                match PlayerStatus::new(metadata) {
                    Some(st) => Action::Publish(st, i),
                    None => Action::Watch(i),
                }
            },
            (Phase::Watching(_), Event::Changed) | (Phase::Watching(_), Event::WatchEnded) => {
                self.phase = Phase::SelectingPlayer;
                Action::Survey
            },
            _ => self.pending_action(),
        }
    }
}

} // verus!
