//! The merged event stream a watch loop consumes, and the dispatch
//! decisions the loop takes on it.
//!
//! Filesystem notifications, OS termination signals, the administrative
//! shutdown request and — under polling — initial-scan results all feed
//! one queue; the loop consumes it in arrival order, with no priority
//! between sources.

use vstd::prelude::*;

use crate::error::Error;

verus! {

/// How an entry came into being, as far as the notification source says.
#[derive(Clone, Copy, Debug, PartialEq, Eq, Structural)]
pub enum CreateKind {
    Any,
    File,
    Folder,
    Other,
}

/// The kind of a raw filesystem notification.
#[derive(Clone, Copy, Debug, PartialEq, Eq, Structural)]
pub enum EventKind {
    Create(CreateKind),
    Modify,
    Remove,
    Access,
    Other,
}

/// One raw filesystem notification: its kind and the paths it concerns.
#[derive(Debug, Clone)]
pub struct FsEvent {
    pub kind: EventKind,
    pub paths: Vec<String>,
}

/// One item of the merged stream.
#[derive(Debug)]
pub enum WatcherEvent {
    /// A filesystem change to hand to the handler.
    Event(FsEvent),
    /// A termination signal or the administrative shutdown request.
    Quit,
    /// A fatal failure of the notification channel.
    Error(Error),
}

/// What the dispatch loop does with the next item of the merged stream.
#[derive(Debug)]
pub enum LoopDecision {
    /// Hand the event to the handler and keep consuming.
    Dispatch(FsEvent),
    /// Stop consuming and drain; the loop's terminal result is success.
    StopOk,
    /// Stop consuming and drain; the loop's terminal result is this error.
    StopError(Error),
}

/// Where a watch loop stands in its life.
#[derive(Clone, Copy, Debug, PartialEq, Eq, Structural)]
pub enum LoopPhase {
    /// Created; the handler's start hook has not run yet.
    Starting,
    /// Consuming merged events and dispatching them to the handler.
    Consuming,
    /// Consumption has ended; the handler's stop hook is owed.
    Draining,
    /// The stop hook has run; the terminal result has been surfaced.
    Finished,
}

/// The lifecycle of one watch loop, as the dispatch loop must drive it:
/// the start hook runs once before any event is consumed, the stop hook
/// runs exactly once after consumption ends — on the error path too —
/// and the terminal result is fixed the moment consumption stops.
pub struct WatchLoopState {
    phase: LoopPhase,
    terminal: Option<Error>,
}

impl WatchLoopState {
    /// The current phase.
    pub closed spec fn spec_phase(&self) -> LoopPhase {
        self.phase
    }

    /// The terminal error recorded when consumption stopped, if any.
    pub closed spec fn spec_terminal(&self) -> Option<Error> {
        self.terminal
    }

    /// A freshly created loop: the start hook is still owed.
    pub fn new() -> (r: WatchLoopState)
        ensures
            r.spec_phase() == LoopPhase::Starting,
            r.spec_terminal() is None,
    {
        WatchLoopState { phase: LoopPhase::Starting, terminal: None }
    }

    /// The handler's start hook has run; events may now be consumed.
    pub fn begin_consuming(&mut self)
        requires
            old(self).spec_phase() == LoopPhase::Starting,
        ensures
            final(self).spec_phase() == LoopPhase::Consuming,
            final(self).spec_terminal() == old(self).spec_terminal(),
    {
        self.phase = LoopPhase::Consuming;
    }

    /// One dispatch decision is taken while consuming: an event to hand
    /// to the handler keeps the loop consuming; any stop decision moves
    /// it to draining and fixes the terminal result once and for all.
    pub fn observe(&mut self, decision: LoopDecision) -> (r: Option<FsEvent>)
        requires
            old(self).spec_phase() == LoopPhase::Consuming,
        ensures
            match decision {
                LoopDecision::Dispatch(e) => {
                    &&& r matches Some(e2) && e2 == e
                    &&& final(self).spec_phase() == LoopPhase::Consuming
                    &&& final(self).spec_terminal() == old(self).spec_terminal()
                },
                LoopDecision::StopOk => {
                    &&& r is None
                    &&& final(self).spec_phase() == LoopPhase::Draining
                    &&& final(self).spec_terminal() is None
                },
                LoopDecision::StopError(err) => {
                    &&& r is None
                    &&& final(self).spec_phase() == LoopPhase::Draining
                    &&& final(self).spec_terminal() matches Some(e2) && e2 == err
                },
            },
    {
        match decision {
            LoopDecision::Dispatch(e) => Some(e),
            LoopDecision::StopOk => {
                self.phase = LoopPhase::Draining;
                self.terminal = None;
                None
            },
            LoopDecision::StopError(err) => {
                self.phase = LoopPhase::Draining;
                self.terminal = Some(err);
                None
            },
        }
    }

    /// The handler's stop hook has run — only reachable once, after
    /// consumption ended — and the recorded terminal result is surfaced.
    pub fn finish(self) -> (r: Result<(), Error>)
        requires
            self.spec_phase() == LoopPhase::Draining,
        ensures
            match self.spec_terminal() {
                Some(err) => r matches Err(e2) && e2 == err,
                None => r is Ok,
            },
    {
        match self.terminal {
            Some(err) => Err(err),
            None => Ok(()),
        }
    }
}

/// The dispatch decision on the next merged item: a change is handed on,
/// a quit stops the loop cleanly, a channel error stops it with that
/// error, and an unexpectedly ended stream stops it as `StreamClosedError`.
pub fn dispatch_event(next: Option<WatcherEvent>) -> (r: LoopDecision)
    ensures
        match next {
            Some(WatcherEvent::Event(e)) => r matches LoopDecision::Dispatch(d) && d == e,
            Some(WatcherEvent::Quit) => r matches LoopDecision::StopOk,
            Some(WatcherEvent::Error(err)) => r matches LoopDecision::StopError(e2) && e2 == err,
            None => r matches LoopDecision::StopError(e2) && e2 == Error::StreamClosedError,
        },
{
    match next {
        Some(WatcherEvent::Event(e)) => LoopDecision::Dispatch(e),
        Some(WatcherEvent::Quit) => LoopDecision::StopOk,
        Some(WatcherEvent::Error(err)) => LoopDecision::StopError(err),
        None => LoopDecision::StopError(Error::StreamClosedError),
    }
}

/// Every raw notification enters the merged stream: one carrying an
/// event as that event, and a notification-channel error as a fatal
/// `Error` item — the owning loop stops on it, and on it alone.
pub fn filter_events(event: Result<FsEvent, Error>) -> (r: Option<WatcherEvent>)
    ensures
        match event {
            Ok(e) => r matches Some(WatcherEvent::Event(e2)) && e2 == e,
            Err(err) => r matches Some(WatcherEvent::Error(e2)) && e2 == err,
        },
{
    match event {
        Ok(e) => Some(WatcherEvent::Event(e)),
        Err(err) => Some(WatcherEvent::Error(err)),
    }
}

/// An initial-scan result becomes a file-creation event only where the
/// path is a regular file; everything else is dropped.
pub fn scan_event(path: String, is_file: bool) -> (r: Option<WatcherEvent>)
    ensures
        if is_file {
            r matches Some(WatcherEvent::Event(e)) && e.kind == EventKind::Create(CreateKind::File)
                && e.paths@.len() == 1 && e.paths@[0]@ == path@
        } else {
            r is None
        },
{
    if is_file {
        let mut paths: Vec<String> = Vec::new();
        paths.push(path);
        Some(WatcherEvent::Event(FsEvent { kind: EventKind::Create(CreateKind::File), paths }))
    } else {
        None
    }
}

} // verus!
