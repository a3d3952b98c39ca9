//! Locating a process's network namespace.
//!
//! Namespace tooling only addresses namespaces that have a named handle in the
//! registry directory, so a lookup first makes sure that `ns-<pid>` links there to
//! `/proc/<pid>/ns/net`, asks for the namespace's name, and removes the handle again
//! if, and only if, the lookup created it. The decisions are taken by [`Locator`]; the
//! caller performs each action it returns and reports what came of it.
use vstd::prelude::*;
use crate::text::{chars_of, digits_of, push_decimal, string_of, trim_bounds, trimmed};

verus! {

/// The registry of named namespace handles.
pub fn registry_dir() -> (r: String)
    ensures
        r@ == "/var/run/netns"@,
{
    string_of(chars_of("/var/run/netns").as_slice())
}

/// The handle of the namespace of `pid`: `/var/run/netns/ns-<pid>`.
pub fn handle_path(pid: u32) -> (r: String)
    ensures
        r@ == "/var/run/netns/ns-"@ + digits_of(pid as nat),
{
    let mut v = chars_of("/var/run/netns/ns-");
    push_decimal(pid, &mut v);
    string_of(v.as_slice())
}

/// Where the kernel exposes the namespace of `pid`: `/proc/<pid>/ns/net`.
pub fn source_path(pid: u32) -> (r: String)
    ensures
        r@ == "/proc/"@ + digits_of(pid as nat) + "/ns/net"@,
{
    let mut v = chars_of("/proc/");
    push_decimal(pid, &mut v);
    let tail = chars_of("/ns/net");
    let ghost before = v@;
    let mut i: usize = 0;
    while i < tail.len()
        invariant
            i <= tail.len(),
            v@ == before + tail@.take(i as int),
        decreases tail.len() - i,
    {
        v.push(tail[i]);
        i = i + 1;
        assert(v@ =~= before + tail@.take(i as int));
    }
    assert(tail@.take(tail.len() as int) =~= tail@);
    string_of(v.as_slice())
}

/// The arguments of `ip` that name the namespace of `pid`: `netns identify <pid>`.
pub fn identify_args(pid: u32) -> (r: Vec<String>)
    ensures
        r.len() == 3,
        r[0]@ == "netns"@,
        r[1]@ == "identify"@,
        r[2]@ == digits_of(pid as nat),
{
    let mut d: Vec<char> = Vec::new();
    push_decimal(pid, &mut d);
    assert(d@ =~= digits_of(pid as nat));
    let mut r: Vec<String> = Vec::new();
    r.push(string_of(chars_of("netns").as_slice()));
    r.push(string_of(chars_of("identify").as_slice()));
    r.push(string_of(d.as_slice()));
    r
}

/// Why a namespace lookup failed.
#[derive(Debug, PartialEq, Eq)]
pub enum NetnsError {
    /// A filesystem operation or a process spawn failed.
    Io { details: String },
    /// `ip netns identify <pid>` exited unsuccessfully.
    IdentifyFailed { pid: u32, code: Option<i32>, stderr: String },
}

/// Where a lookup stands.
#[derive(Debug, PartialEq, Eq, Clone, Copy, Structural)]
pub enum Phase {
    /// Waiting to learn whether the handle exists.
    Checking,
    /// Waiting for the handle to be created.
    Creating,
    /// Waiting for the identification command.
    Identifying,
    /// Waiting for the self-created handle to be removed.
    Removing,
    /// The lookup is over.
    Done,
}

/// What the caller is to do next.
#[derive(Debug, PartialEq, Eq, Clone, Copy, Structural)]
pub enum LocatorAction {
    /// Report whether the handle exists.
    CheckHandle,
    /// Create the registry directory if needed and the handle as a symlink to the source path.
    CreateHandle,
    /// Run `ip netns identify <pid>`.
    RunIdentify,
    /// Remove the handle and then the registry directory if it is empty.
    RemoveHandle,
    /// Stop: the outcome is in the locator.
    Finish,
}

/// What came of the last action.
pub enum LocatorEvent {
    HandleExists(bool),
    HandleCreated,
    Identified { success: bool, code: Option<i32>, stdout: String, stderr: String },
    HandleRemoved,
    IoFailed(String),
}

/// The shape of an event, as far as the phases depend on it.
#[derive(PartialEq, Eq, Clone, Copy, Structural)]
pub enum EventKind {
    HandleExists(bool),
    HandleCreated,
    Identified,
    HandleRemoved,
    IoFailed,
}

pub open spec fn kind_of(ev: LocatorEvent) -> EventKind {
    match ev {
        LocatorEvent::HandleExists(b) => EventKind::HandleExists(b),
        LocatorEvent::HandleCreated => EventKind::HandleCreated,
        LocatorEvent::Identified { .. } => EventKind::Identified,
        LocatorEvent::HandleRemoved => EventKind::HandleRemoved,
        LocatorEvent::IoFailed(_) => EventKind::IoFailed,
    }
}

/// The action that a phase waits on.
pub open spec fn pending(phase: Phase) -> LocatorAction {
    match phase {
        Phase::Checking => LocatorAction::CheckHandle,
        Phase::Creating => LocatorAction::CreateHandle,
        Phase::Identifying => LocatorAction::RunIdentify,
        Phase::Removing => LocatorAction::RemoveHandle,
        Phase::Done => LocatorAction::Finish,
    }
}

/// The next phase and whether the handle is then owned by the lookup. The handle is
/// owned only once this lookup created it, and it is removed only when owned. A
/// failure ends the lookup, after removing an owned handle that is not already being
/// removed. An event that does not answer the pending action changes nothing.
pub open spec fn transition(phase: Phase, created: bool, ev: EventKind) -> (Phase, bool) {
    match (phase, ev) {
        (Phase::Checking, EventKind::HandleExists(true)) => (Phase::Identifying, created),
        (Phase::Checking, EventKind::HandleExists(false)) => (Phase::Creating, created),
        (Phase::Creating, EventKind::HandleCreated) => (Phase::Identifying, true),
        (Phase::Identifying, EventKind::Identified) => if created {
            (Phase::Removing, created)
        } else {
            (Phase::Done, created)
        },
        (Phase::Removing, EventKind::HandleRemoved) => (Phase::Done, created),
        (Phase::Identifying, EventKind::IoFailed) => if created {
            (Phase::Removing, created)
        } else {
            (Phase::Done, created)
        },
        (Phase::Done, _) => (Phase::Done, created),
        (_, EventKind::IoFailed) => (Phase::Done, created),
        _ => (phase, created),
    }
}

/// The decisions of one namespace lookup.
pub struct Locator {
    pub pid: u32,
    pub phase: Phase,
    /// Whether this lookup created the handle, and so must remove it.
    pub created: bool,
    /// The outcome, once known: the namespace's name, or why the lookup failed.
    pub outcome: Option<Result<String, NetnsError>>,
}

/// The outcome of the identification command: its trimmed output on success.
pub fn identify_outcome(pid: u32, success: bool, code: Option<i32>, stdout: &str, stderr: &str) -> (r:
    Result<String, NetnsError>)
    ensures
        success ==> r is Ok && r->Ok_0@ == trimmed(stdout@),
        !success ==> match r {
            Err(NetnsError::IdentifyFailed { pid: p, code: c, stderr: e }) => p == pid && c == code
                && e@ == stderr@,
            _ => false,
        },
{
    if success {
        let cs = chars_of(stdout);
        let (lo, hi) = trim_bounds(&cs);
        Ok(string_of(vstd::slice::slice_subrange(cs.as_slice(), lo, hi)))
    } else {
        Err(NetnsError::IdentifyFailed { pid, code, stderr: stderr.to_owned() })
    }
}

impl Locator {
    /// A lookup for the namespace of `pid`, which first asks whether the handle exists.
    pub fn new(pid: u32) -> (r: Locator)
        ensures
            r.pid == pid,
            r.phase == Phase::Checking,
            !r.created,
            r.outcome is None,
    {
        Locator { pid, phase: Phase::Checking, created: false, outcome: None }
    }

    /// The action the lookup waits on.
    pub fn action(&self) -> (a: LocatorAction)
        ensures
            a == pending(self.phase),
    {
        match self.phase {
            Phase::Checking => LocatorAction::CheckHandle,
            Phase::Creating => LocatorAction::CreateHandle,
            Phase::Identifying => LocatorAction::RunIdentify,
            Phase::Removing => LocatorAction::RemoveHandle,
            Phase::Done => LocatorAction::Finish,
        }
    }

    /// Takes in what came of the pending action and returns the next one.
    pub fn step(&mut self, ev: LocatorEvent) -> (a: LocatorAction)
        ensures
            (final(self).phase, final(self).created) == transition(
                old(self).phase,
                old(self).created,
                kind_of(ev),
            ),
            a == pending(final(self).phase),
            final(self).pid == old(self).pid,
            old(self).phase == Phase::Identifying ==> match ev {
                LocatorEvent::Identified { success, code, stdout, stderr } => if success {
                    match final(self).outcome {
                        Some(Ok(id)) => id@ == trimmed(stdout@),
                        _ => false,
                    }
                } else {
                    match final(self).outcome {
                        Some(Err(NetnsError::IdentifyFailed { pid: p, code: c, stderr: e })) => p
                            == old(self).pid && c == code && e@ == stderr@,
                        _ => false,
                    }
                },
                _ => true,
            },
            old(self).phase != Phase::Done ==> match ev {
                LocatorEvent::IoFailed(msg) => match final(self).outcome {
                    Some(Err(NetnsError::Io { details })) => details@ == msg@,
                    _ => false,
                },
                _ => true,
            },
            !old(self).created && (old(self).phase == Phase::Identifying || old(self).phase
                == Phase::Done) ==> !final(self).created && (final(self).phase
                == Phase::Identifying || final(self).phase == Phase::Done) && a
                != LocatorAction::CreateHandle && a != LocatorAction::RemoveHandle,
            old(self).phase == Phase::Checking && kind_of(ev) == EventKind::HandleExists(true)
                ==> final(self).phase == Phase::Identifying && final(self).created
                == old(self).created,
            !(old(self).phase == Phase::Identifying && ev is Identified) && !(old(self).phase
                != Phase::Done && ev is IoFailed) ==> final(self).outcome == old(self).outcome,
    {
        match ev {
            LocatorEvent::HandleExists(exists) => {
                if self.phase == Phase::Checking {
                    if exists {
                        self.phase = Phase::Identifying;
                    } else {
                        self.phase = Phase::Creating;
                    }
                }
            },
            LocatorEvent::HandleCreated => {
                if self.phase == Phase::Creating {
                    self.created = true;
                    self.phase = Phase::Identifying;
                }
            },
            LocatorEvent::Identified { success, code, stdout, stderr } => {
                if self.phase == Phase::Identifying {
                    self.outcome = Some(identify_outcome(self.pid, success, code, &stdout, &stderr));
                    if self.created {
                        self.phase = Phase::Removing;
                    } else {
                        self.phase = Phase::Done;
                    }
                }
            },
            LocatorEvent::HandleRemoved => {
                if self.phase == Phase::Removing {
                    self.phase = Phase::Done;
                }
            },
            LocatorEvent::IoFailed(details) => {
                if self.phase != Phase::Done {
                    self.outcome = Some(Err(NetnsError::Io { details }));
                    if self.phase == Phase::Identifying && self.created {
                        self.phase = Phase::Removing;
                    } else {
                        self.phase = Phase::Done;
                    }
                }
            },
        }
        self.action()
    }
}

/// The phase and ownership of the handle after the events `evs`, starting from a new lookup.
pub open spec fn trace(evs: Seq<EventKind>) -> (Phase, bool)
    decreases evs.len(),
{
    if evs.len() == 0 {
        (Phase::Checking, false)
    } else {
        let (p, c) = trace(evs.drop_last());
        transition(p, c, evs.last())
    }
}

proof fn lemma_existing_handle_not_owned(evs: Seq<EventKind>)
    requires
        evs.len() > 0,
        evs[0] == EventKind::HandleExists(true),
    ensures
        !trace(evs).1,
        trace(evs).0 == Phase::Identifying || trace(evs).0 == Phase::Done,
    decreases evs.len(),
{
    if evs.len() > 1 {
        assert(evs.drop_last()[0] == evs[0]);
        lemma_existing_handle_not_owned(evs.drop_last());
    } else {
        assert(evs.drop_last().len() == 0);
        assert(trace(evs.drop_last()) == (Phase::Checking, false));
        assert(evs.last() == EventKind::HandleExists(true));
    }
}

/// A lookup that finds the handle already in place never owns it, so whatever
/// follows it never asks for the handle to be removed.
pub proof fn existing_handle_is_never_removed(evs: Seq<EventKind>)
    requires
        evs.len() > 0,
        evs[0] == EventKind::HandleExists(true),
    ensures
        !trace(evs).1,
        pending(trace(evs).0) != LocatorAction::RemoveHandle,
{
    lemma_existing_handle_not_owned(evs);
}

/// A lookup that created the handle asks for its removal once the command has answered.
pub proof fn created_handle_is_removed(evs: Seq<EventKind>)
    requires
        evs == seq![EventKind::HandleExists(false), EventKind::HandleCreated, EventKind::Identified],
    ensures
        trace(evs).1,
        pending(trace(evs).0) == LocatorAction::RemoveHandle,
{
    let e2 = evs.drop_last();
    let e1 = e2.drop_last();
    assert(e1.drop_last().len() == 0);
    assert(trace(e1.drop_last()) == (Phase::Checking, false));
    assert(e1.last() == EventKind::HandleExists(false));
    assert(trace(e1) == (Phase::Creating, false));
    assert(e2.last() == EventKind::HandleCreated);
    assert(trace(e2) == (Phase::Identifying, true));
}

} // verus!
