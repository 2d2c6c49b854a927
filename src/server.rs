//! The preview server's lifecycle: stopped or running on a bound port, the
//! search for a free port when starting, and the reload signal it owns.
//!
//! Binding a socket, running the accept loop and waking waiters are the
//! embedding program's part. It asks `start` what to do, tries the ports
//! that the search offers in turn, reports the one it bound with `started`,
//! and on `stop` unblocks its listener and wakes every waiter.

use vstd::prelude::*;
use crate::reload::{ReloadSignal, SignalView, notified, shut_down};

verus! {

/// How many consecutive ports a start tries, beginning with the requested
/// one.
pub const MAX_PORT_ATTEMPTS: u16 = 10;

/// The port tried at attempt `k` of a search that begins at `first`, if
/// there is one: `first + k` while `k` is under the attempt limit and the
/// port exists.
pub open spec fn candidate(first: u16, k: int) -> Option<u16> {
    if 0 <= k < MAX_PORT_ATTEMPTS && first + k <= u16::MAX {
        Some((first + k) as u16)
    } else {
        None
    }
}

/// The state of a port search: where it began and how many ports failed.
pub struct SearchView {
    pub first: u16,
    pub failed: u16,
}

/// The search for a port to listen on: consecutive ports from the requested
/// one, the first that binds winning.
pub struct PortSearch {
    first: u16,
    failed: u16,
}

impl View for PortSearch {
    type V = SearchView;

    closed spec fn view(&self) -> SearchView {
        SearchView { first: self.first, failed: self.failed }
    }
}

/// The search after the port it offered failed to bind.
pub open spec fn after_failure(s: SearchView) -> SearchView {
    SearchView {
        first: s.first,
        failed: if s.failed < MAX_PORT_ATTEMPTS {
            (s.failed + 1) as u16
        } else {
            s.failed
        },
    }
}

impl PortSearch {
    /// A search that begins at `first`.
    pub fn new(first: u16) -> (r: PortSearch)
        ensures
            r@ == (SearchView { first, failed: 0 }),
    {
        PortSearch { first, failed: 0 }
    }

    /// The port to try next, or `None` when the search is exhausted.
    pub fn next_port(&self) -> (r: Option<u16>)
        ensures
            r == candidate(self@.first, self@.failed as int),
    {
        if self.failed < MAX_PORT_ATTEMPTS && self.failed as u32 + self.first as u32 <= u16::MAX as u32 {
            Some(self.first + self.failed)
        } else {
            None
        }
    }

    /// Records that the port offered last failed to bind.
    pub fn failed(&mut self)
        ensures
            final(self)@ == after_failure(old(self)@),
    {
        if self.failed < MAX_PORT_ATTEMPTS {
            self.failed = self.failed + 1;
        }
    }

    /// The port the search began with.
    pub fn first_port(&self) -> (r: u16)
        ensures
            r == self@.first,
    {
        self.first
    }

    /// How many ports failed so far.
    pub fn failures(&self) -> (r: u16)
        ensures
            r == self@.failed,
    {
        self.failed
    }
}

/// What a search that has reached state `s` ends with when exactly the
/// ports in `occupied` fail to bind: the port bound, or `None` when every
/// port it may try failed.
pub open spec fn search_outcome(s: SearchView, occupied: Set<u16>) -> Option<u16>
    decreases MAX_PORT_ATTEMPTS - s.failed,
{
    match candidate(s.first, s.failed as int) {
        None => None,
        Some(p) => if occupied.contains(p) {
            if s.failed < MAX_PORT_ATTEMPTS {
                search_outcome(after_failure(s), occupied)
            } else {
                None
            }
        } else {
            Some(p)
        },
    }
}

/// Whether the listener is up, and on which port.
#[derive(PartialEq, Eq, Structural, Clone, Copy, Debug)]
pub enum Listening {
    Stopped,
    Running { port: u16 },
}

/// What a server holds.
pub struct ServerView {
    pub listening: Listening,
    pub project_dir: Seq<char>,
    pub requested_port: u16,
    pub signal: SignalView,
}

/// A preview server: its listening state, the project directory it serves
/// (fixed for its lifetime), the port it was asked for, and its reload
/// signal.
pub struct PreviewServer {
    listening: Listening,
    project_dir: String,
    requested_port: u16,
    reload_signal: ReloadSignal,
}

impl View for PreviewServer {
    type V = ServerView;

    closed spec fn view(&self) -> ServerView {
        ServerView {
            listening: self.listening,
            project_dir: self.project_dir@,
            requested_port: self.requested_port,
            signal: self.reload_signal@,
        }
    }
}

/// What `start` says to do.
pub enum StartStep {
    /// Already listening on this port: nothing to bind.
    AlreadyRunning(u16),
    /// Bind the ports this search offers, in turn.
    Search(PortSearch),
}

pub enum StartView {
    AlreadyRunning(u16),
    Search(SearchView),
}

impl View for StartStep {
    type V = StartView;

    open spec fn view(&self) -> StartView {
        match self {
            StartStep::AlreadyRunning(p) => StartView::AlreadyRunning(*p),
            StartStep::Search(s) => StartView::Search(s@),
        }
    }
}

/// A server as `new` makes it.
pub open spec fn fresh_server(project_dir: Seq<char>, port: u16) -> ServerView {
    ServerView {
        listening: Listening::Stopped,
        project_dir,
        requested_port: port,
        signal: SignalView { generation: 0, shutting_down: false },
    }
}

/// What `start` says to do on a server in state `v`.
pub open spec fn start_step(v: ServerView) -> StartView {
    match v.listening {
        Listening::Running { port } => StartView::AlreadyRunning(port),
        Listening::Stopped => StartView::Search(SearchView { first: v.requested_port, failed: 0 }),
    }
}

/// A server after its listener was bound to `port`; a running server is
/// left as it is.
pub open spec fn after_started(v: ServerView, port: u16) -> ServerView {
    match v.listening {
        Listening::Running { .. } => v,
        Listening::Stopped => ServerView { listening: Listening::Running { port }, ..v },
    }
}

/// A server after `stop`: a running one is stopped and its signal shut
/// down; a stopped one is left as it is.
pub open spec fn after_stop(v: ServerView) -> ServerView {
    match v.listening {
        Listening::Running { .. } => ServerView {
            listening: Listening::Stopped,
            signal: shut_down(v.signal),
            ..v
        },
        Listening::Stopped => v,
    }
}

/// The port a server in state `v` reports: the bound one while running,
/// else the requested one.
pub open spec fn reported_port(v: ServerView) -> u16 {
    match v.listening {
        Listening::Running { port } => port,
        Listening::Stopped => v.requested_port,
    }
}

impl PreviewServer {
    /// A stopped server for `project_dir`, to listen on `port` or the first
    /// free one of the ports after it.
    pub fn new(project_dir: String, port: u16) -> (r: PreviewServer)
        ensures
            r@ == fresh_server(project_dir@, port),
    {
        PreviewServer {
            listening: Listening::Stopped,
            project_dir,
            requested_port: port,
            reload_signal: ReloadSignal::new(),
        }
    }

    /// Says what starting takes: nothing where the server already runs (the
    /// bound port is kept, nothing is bound again), else a search from the
    /// requested port. The server itself changes only when a port was bound
    /// (`started`); a search that fails leaves it stopped.
    pub fn start(&self) -> (r: StartStep)
        ensures
            r@ == start_step(self@),
    {
        match self.listening {
            Listening::Running { port } => StartStep::AlreadyRunning(port),
            Listening::Stopped => StartStep::Search(PortSearch::new(self.requested_port)),
        }
    }

    /// Records that the listener was bound to `port`; from now on the server
    /// runs. Has no effect on a server that already runs.
    pub fn started(&mut self, port: u16)
        ensures
            final(self)@ == after_started(old(self)@, port),
    {
        if let Listening::Stopped = self.listening {
            self.listening = Listening::Running { port };
        }
    }

    /// Stops a running server: its reload signal is shut down, and `true`
    /// tells the caller to wake all waiters and unblock the listener. On a
    /// stopped server it does nothing and returns `false`.
    pub fn stop(&mut self) -> (r: bool)
        ensures
            r == (old(self)@.listening is Running),
            final(self)@ == after_stop(old(self)@),
    {
        match self.listening {
            Listening::Running { .. } => {
                self.reload_signal.shutdown();
                self.listening = Listening::Stopped;
                true
            },
            Listening::Stopped => false,
        }
    }

    /// Announces a change to every reload subscriber, whether or not there
    /// are any; the caller then wakes all waiters. Never blocks or fails.
    pub fn notify_reload(&mut self)
        ensures
            final(self)@ == (ServerView { signal: notified(old(self)@.signal), ..old(self)@ }),
    {
        self.reload_signal.notify();
    }

    /// Whether the listener is up.
    pub fn is_running(&self) -> (r: bool)
        ensures
            r == (self@.listening is Running),
    {
        match self.listening {
            Listening::Running { .. } => true,
            Listening::Stopped => false,
        }
    }

    /// The bound port while running, else the requested one.
    pub fn port(&self) -> (r: u16)
        ensures
            r == reported_port(self@),
    {
        match self.listening {
            Listening::Running { port } => port,
            Listening::Stopped => self.requested_port,
        }
    }

    /// The project directory served.
    pub fn project_dir(&self) -> (r: &str)
        ensures
            r@ == self@.project_dir,
    {
        self.project_dir.as_str()
    }

    /// The reload signal, for subscribers to look at.
    pub fn reload_signal(&self) -> (r: &ReloadSignal)
        ensures
            r@ == self@.signal,
    {
        &self.reload_signal
    }
}

/// The port search ends with the first port it may try that is free, and
/// fails only when every port it may try is occupied.
pub proof fn lemma_search_finds_first_free(s: SearchView, occupied: Set<u16>)
    requires
        s.failed <= MAX_PORT_ATTEMPTS,
    ensures
        search_outcome(s, occupied) matches Some(p) ==> {
            &&& !occupied.contains(p)
            &&& exists|k: int| s.failed <= k && #[trigger] candidate(s.first, k) == Some(p)
                && forall|j: int| s.failed <= j < k ==> occupied.contains(#[trigger] candidate(s.first, j)->0)
        },
        search_outcome(s, occupied) is None ==>
            forall|j: int| s.failed <= j && #[trigger] candidate(s.first, j) is Some
                ==> occupied.contains(candidate(s.first, j)->0),
    decreases MAX_PORT_ATTEMPTS - s.failed,
{
    match candidate(s.first, s.failed as int) {
        None => {
            assert forall|j: int| s.failed <= j && #[trigger] candidate(s.first, j) is Some
                implies occupied.contains(candidate(s.first, j)->0) by {
            }
        },
        Some(p) => {
            if occupied.contains(p) && s.failed < MAX_PORT_ATTEMPTS {
                let t = after_failure(s);
                lemma_search_finds_first_free(t, occupied);
                if let Some(q) = search_outcome(s, occupied) {
                    let k = choose|k: int| t.failed <= k && #[trigger] candidate(t.first, k) == Some(q)
                        && forall|j: int| t.failed <= j < k ==> occupied.contains(#[trigger] candidate(t.first, j)->0);
                    assert(forall|j: int| s.failed <= j < k ==> occupied.contains(#[trigger] candidate(s.first, j)->0));
                }
            }
        },
    }
}

/// A free requested port is the one bound.
pub proof fn lemma_free_port_taken(first: u16, occupied: Set<u16>)
    requires
        !occupied.contains(first),
    ensures
        search_outcome(SearchView { first, failed: 0 }, occupied) == Some(first),
{
}

/// An occupied requested port with a free one after it gives the one after.
pub proof fn lemma_next_port_taken(first: u16, occupied: Set<u16>)
    requires
        first < u16::MAX,
        occupied.contains(first),
        !occupied.contains((first + 1) as u16),
    ensures
        search_outcome(SearchView { first, failed: 0 }, occupied) == Some((first + 1) as u16),
{
    let s = SearchView { first, failed: 0 };
    let t = after_failure(s);
    assert(t == SearchView { first, failed: 1 });
    assert(candidate(first, 1) == Some((first + 1) as u16));
    assert(search_outcome(t, occupied) == Some((first + 1) as u16));
    assert(candidate(first, 0) == Some(first));
}

/// When the requested port and the nine after it are all occupied, the
/// search fails; the server, which only `started` changes, stays stopped.
pub proof fn lemma_all_occupied_fails(v: ServerView, occupied: Set<u16>)
    requires
        v.listening is Stopped,
        forall|k: int| 0 <= k < MAX_PORT_ATTEMPTS && v.requested_port + k <= u16::MAX
            ==> occupied.contains(#[trigger] ((v.requested_port + k) as u16)),
    ensures
        start_step(v) == StartView::Search(SearchView { first: v.requested_port, failed: 0 }),
        search_outcome(SearchView { first: v.requested_port, failed: 0 }, occupied) is None,
        !(v.listening is Running),
{
    let s = SearchView { first: v.requested_port, failed: 0 };
    lemma_search_finds_first_free(s, occupied);
    if let Some(p) = search_outcome(s, occupied) {
        let k = choose|k: int| s.failed <= k && #[trigger] candidate(s.first, k) == Some(p)
            && forall|j: int| s.failed <= j < k ==> occupied.contains(#[trigger] candidate(s.first, j)->0);
        assert(occupied.contains(((v.requested_port + k) as u16)));
    }
}

/// Starting a running server again changes nothing and binds nothing: it
/// reports the port already bound.
pub proof fn lemma_start_while_running(v: ServerView, port: u16, again: u16)
    requires
        v.listening is Stopped,
    ensures
        start_step(after_started(v, port)) == StartView::AlreadyRunning(port),
        after_started(after_started(v, port), again) == after_started(v, port),
        reported_port(after_started(v, port)) == port,
{
}

/// After `stop`, a start searches from the requested port exactly as on a
/// new server for the same directory and port: nothing of the previous run's
/// binding is left over, and stopping again does nothing.
pub proof fn lemma_restart_after_stop(v: ServerView)
    ensures
        start_step(after_stop(v)) == start_step(fresh_server(v.project_dir, v.requested_port)),
        !(after_stop(v).listening is Running),
        after_stop(after_stop(v)) == after_stop(v),
        v.listening is Running ==> after_stop(v).signal.shutting_down,
{
}

} // verus!
