//! Bookkeeping of the sessions a peer runs: at most one hosting session and
//! at most one viewing session at a time, and the errors the commands answer
//! with.

use vstd::prelude::*;
use vstd::string::*;

verus! {

/// The two kinds of session.
#[derive(Clone, Copy, Debug, PartialEq, Eq, Structural)]
pub enum Role {
    Host,
    Viewer,
}

/// Why a session command was refused.
#[derive(Clone, Debug, PartialEq)]
pub enum SessionError {
    /// A session of this kind is already running.
    AlreadyRunning(Role),
    /// No session of this kind is running.
    NotRunning(Role),
    /// The session could not be set up: the host endpoint did not come up, or
    /// the viewer could not reach the host.
    StartFailed(Role),
    /// Writing to the host failed; the transport's own description.
    Transport(String),
}

/// The text a command answers with for an error.
pub open spec fn error_text(e: SessionError) -> Seq<char> {
    match e {
        SessionError::AlreadyRunning(Role::Host) => "Hosting session already running"@,
        SessionError::AlreadyRunning(Role::Viewer) => "Viewer session already running"@,
        SessionError::NotRunning(Role::Host) => "No active host session"@,
        SessionError::NotRunning(Role::Viewer) => "No active viewer session"@,
        SessionError::StartFailed(Role::Host) => "Failed to start host endpoint"@,
        SessionError::StartFailed(Role::Viewer) => "Failed to connect to host"@,
        SessionError::Transport(t) => t@,
    }
}

impl SessionError {
    /// The text a command answers with.
    pub fn message(&self) -> (m: String)
        ensures
            m@ == error_text(*self),
    {
        match self {
            SessionError::AlreadyRunning(Role::Host) => String::from_str(
                "Hosting session already running",
            ),
            SessionError::AlreadyRunning(Role::Viewer) => String::from_str(
                "Viewer session already running",
            ),
            SessionError::NotRunning(Role::Host) => String::from_str("No active host session"),
            SessionError::NotRunning(Role::Viewer) => String::from_str("No active viewer session"),
            SessionError::StartFailed(Role::Host) => String::from_str(
                "Failed to start host endpoint",
            ),
            SessionError::StartFailed(Role::Viewer) => String::from_str(
                "Failed to connect to host",
            ),
            SessionError::Transport(t) => t.clone(),
        }
    }
}

/// What a slot holds: the ticket the next setup will get, the sessions
/// being set up (each with its ticket and the handle that cancels it, oldest
/// first), and the running session (its cancel handle and what it attached).
pub struct SlotView<P, A> {
    pub next: u64,
    pub pending: Seq<(u64, P)>,
    pub running: Option<(P, A)>,
}

/// The position of the oldest setup with ticket `t`, if any.
pub open spec fn ticket_index<P>(pending: Seq<(u64, P)>, t: u64) -> Option<int> {
    if exists|i: int| 0 <= i < pending.len() && pending[i].0 == t {
        Some(
            choose|i: int|
                0 <= i < pending.len() && pending[i].0 == t && forall|j: int|
                    0 <= j < i ==> pending[j].0 != t,
        )
    } else {
        None
    }
}

/// Tickets name setups unambiguously: those under way are issued in
/// increasing order, and all lie below the next ticket to issue.
pub open spec fn well_ticketed<P, A>(v: SlotView<P, A>) -> bool {
    &&& forall|i: int, j: int|
        0 <= i < j < v.pending.len() ==> (#[trigger] v.pending[i]).0 < (#[trigger] v.pending[j]).0
    &&& forall|i: int| 0 <= i < v.pending.len() ==> (#[trigger] v.pending[i]).0 < v.next
}

/// Taking a setup out leaves the others in order.
proof fn lemma_remove_keeps_order<P, A>(v: SlotView<P, A>, k: int)
    requires
        well_ticketed(v),
        0 <= k < v.pending.len(),
    ensures
        well_ticketed(SlotView { pending: v.pending.remove(k), ..v }),
{
    let r = v.pending.remove(k);
    assert forall|i: int, j: int| 0 <= i < j < r.len() implies (#[trigger] r[i]).0 < (
    #[trigger] r[j]).0 by {
        let a = if i < k { i } else { i + 1 };
        let b = if j < k { j } else { j + 1 };
        assert(r[i] == v.pending[a] && r[j] == v.pending[b]);
    }
    assert forall|i: int| 0 <= i < r.len() implies (#[trigger] r[i]).0 < v.next by {
        let a = if i < k { i } else { i + 1 };
        assert(r[i] == v.pending[a]);
    }
}

/// The answer to a request to begin a session: refused while one runs, else
/// the ticket of the new setup. Setups already under way do not stand in the
/// way: the one completed last replaces the others. Once every ticket has
/// been issued, no setup can be named any more and beginning fails.
pub open spec fn begin_answer<P, A>(role: Role, v: SlotView<P, A>) -> Result<u64, SessionError> {
    match v.running {
        Some(_) => Err(SessionError::AlreadyRunning(role)),
        None => if v.next == u64::MAX {
            Err(SessionError::StartFailed(role))
        } else {
            Ok(v.next)
        },
    }
}

/// The slot after a request to begin a session cancelled by `handle`.
pub open spec fn after_begin<P, A>(v: SlotView<P, A>, handle: P) -> SlotView<P, A> {
    if v.running is None && v.next < u64::MAX {
        SlotView {
            next: (v.next + 1) as u64,
            pending: v.pending.push((v.next, handle)),
            running: None,
        }
    } else {
        v
    }
}

/// The answer to recording the setup with ticket `t` as complete: refused
/// when that setup was stopped or given up meanwhile, else the session it
/// replaces, if one ran.
pub open spec fn install_answer<P, A>(role: Role, v: SlotView<P, A>, t: u64) -> Result<
    Option<(P, A)>,
    SessionError,
> {
    match ticket_index(v.pending, t) {
        Some(_) => Ok(v.running),
        None => Err(SessionError::StartFailed(role)),
    }
}

/// The slot after recording the setup with ticket `t` as complete, attaching
/// `attached`.
pub open spec fn after_install<P, A>(v: SlotView<P, A>, t: u64, attached: A) -> SlotView<P, A> {
    match ticket_index(v.pending, t) {
        Some(i) => SlotView {
            next: v.next,
            pending: v.pending.remove(i),
            running: Some((v.pending[i].1, attached)),
        },
        None => v,
    }
}

/// The slot after giving up the setup with ticket `t`.
pub open spec fn after_forget<P, A>(v: SlotView<P, A>, t: u64) -> SlotView<P, A> {
    match ticket_index(v.pending, t) {
        Some(i) => SlotView { next: v.next, pending: v.pending.remove(i), running: v.running },
        None => v,
    }
}

/// The cancel handles of every session being set up, oldest first, then of
/// the running one.
pub open spec fn all_handles<P, A>(v: SlotView<P, A>) -> Seq<P> {
    let setups = Seq::new(v.pending.len(), |i: int| v.pending[i].1);
    match v.running {
        Some((p, _)) => setups.push(p),
        None => setups,
    }
}

/// The answer to a request to stop: every cancel handle, and what the
/// running session attached; "not running" when nothing is set up or runs.
pub open spec fn stop_answer<P, A>(role: Role, v: SlotView<P, A>) -> Result<
    (Seq<P>, Option<A>),
    SessionError,
> {
    if v.pending.len() == 0 && v.running is None {
        Err(SessionError::NotRunning(role))
    } else {
        Ok(
            (
                all_handles(v),
                match v.running {
                    Some((_, a)) => Some(a),
                    None => None,
                },
            ),
        )
    }
}

/// The place where the sessions of one kind are kept. `P` is the handle that
/// cancels a session, `A` what a session attaches once it is set up.
pub struct SessionSlot<P, A> {
    role: Role,
    next: u64,
    pending: Vec<(u64, P)>,
    running: Option<(P, A)>,
}

impl<P, A> View for SessionSlot<P, A> {
    type V = SlotView<P, A>;

    closed spec fn view(&self) -> SlotView<P, A> {
        SlotView { next: self.next, pending: self.pending@, running: self.running }
    }
}

impl<P, A> SessionSlot<P, A> {
    #[verifier::type_invariant]
    closed spec fn tickets_in_order(&self) -> bool {
        well_ticketed(self@)
    }

    /// The kind of session kept here.
    pub closed spec fn role(&self) -> Role {
        self.role
    }

    /// An empty place for sessions of the given kind.
    pub fn new(role: Role) -> (slot: SessionSlot<P, A>)
        ensures
            slot@.next == 0,
            slot@.pending == Seq::<(u64, P)>::empty(),
            slot@.running is None,
            slot.role() == role,
            well_ticketed(slot@),
    {
        SessionSlot { role, next: 0, pending: Vec::new(), running: None }
    }

    /// Whether a session is set up and running.
    pub fn is_active(&self) -> (r: bool)
        ensures
            r == self@.running is Some,
    {
        self.running.is_some()
    }

    /// Whether some session is being set up.
    pub fn is_pending(&self) -> (r: bool)
        ensures
            r == (self@.pending.len() > 0),
    {
        self.pending.len() > 0
    }

    /// Begins setting up a session that `handle` can cancel, unless one of
    /// this kind runs; returns the ticket that names the setup.
    pub fn begin(&mut self, handle: P) -> (r: Result<u64, SessionError>)
        ensures
            r == begin_answer(old(self).role(), old(self)@),
            final(self)@ == after_begin(old(self)@, handle),
            well_ticketed(old(self)@),
            r matches Ok(t) ==> ticket_index(final(self)@.pending, t) == Some(
                old(self)@.pending.len() as int,
            ) && final(self)@.pending[old(self)@.pending.len() as int] == (t, handle),
            final(self).role() == old(self).role(),
    {
        proof {
            use_type_invariant(&*self);
        }
        if self.running.is_some() {
            return Err(SessionError::AlreadyRunning(self.role));
        }
        if self.next == u64::MAX {
            return Err(SessionError::StartFailed(self.role));
        }
        proof {
            law_begin_names_its_setup(self.role, self@, handle);
        }
        let t = self.next;
        self.next = t + 1;
        let mut pend: Vec<(u64, P)> = Vec::new();
        std::mem::swap(&mut pend, &mut self.pending);
        pend.push((t, handle));
        std::mem::swap(&mut pend, &mut self.pending);
        Ok(t)
    }

    /// Where the oldest setup with ticket `t` stands.
    fn find(&self, t: u64) -> (r: Option<usize>)
        ensures
            r matches Some(i) ==> i < self@.pending.len() && ticket_index(self@.pending, t) == Some(
                i as int,
            ),
            r is None ==> ticket_index(self@.pending, t) is None,
    {
        let mut i: usize = 0;
        while i < self.pending.len()
            invariant
                i <= self.pending@.len(),
                forall|j: int| 0 <= j < i ==> self.pending@[j].0 != t,
            decreases self.pending.len() - i,
        {
            if self.pending[i].0 == t {
                let ghost pend = self.pending@;
                assert(0 <= i < pend.len() && pend[i as int].0 == t);
                let ghost k = choose|k: int|
                    0 <= k < pend.len() && pend[k].0 == t && forall|j: int|
                        0 <= j < k ==> pend[j].0 != t;
                assert(0 <= k < pend.len() && pend[k].0 == t && forall|j: int|
                    0 <= j < k ==> pend[j].0 != t);
                assert(k == i);
                return Some(i);
            }
            i = i + 1;
        }
        None
    }

    /// Records that the setup with ticket `t` is complete, attaching
    /// `attached`; it replaces the session that ran, which is handed back.
    /// Refused when that setup was stopped or given up meanwhile.
    pub fn install(&mut self, t: u64, attached: A) -> (r: Result<Option<(P, A)>, SessionError>)
        ensures
            r == install_answer(old(self).role(), old(self)@, t),
            well_ticketed(old(self)@),
            final(self)@ == after_install(old(self)@, t, attached),
            final(self).role() == old(self).role(),
    {
        proof {
            use_type_invariant(&*self);
        }
        match self.find(t) {
            Some(i) => {
                let mut pend: Vec<(u64, P)> = Vec::new();
                std::mem::swap(&mut pend, &mut self.pending);
                let ghost before = SlotView { next: self.next, pending: pend@, running: self.running };
                let (_, handle) = pend.remove(i);
                proof {
                    lemma_remove_keeps_order(before, i as int);
                }
                std::mem::swap(&mut pend, &mut self.pending);
                let mut replaced: Option<(P, A)> = Some((handle, attached));
                std::mem::swap(&mut replaced, &mut self.running);
                Ok(replaced)
            },
            None => Err(SessionError::StartFailed(self.role)),
        }
    }

    /// Gives up the setup with ticket `t`, which ended without a session.
    pub fn forget(&mut self, t: u64)
        ensures
            final(self)@ == after_forget(old(self)@, t),
            well_ticketed(old(self)@),
            final(self).role() == old(self).role(),
    {
        proof {
            use_type_invariant(&*self);
        }
        match self.find(t) {
            Some(i) => {
                let mut pend: Vec<(u64, P)> = Vec::new();
                std::mem::swap(&mut pend, &mut self.pending);
                let ghost before = SlotView { next: self.next, pending: pend@, running: self.running };
                let _ = pend.remove(i);
                proof {
                    lemma_remove_keeps_order(before, i as int);
                }
                std::mem::swap(&mut pend, &mut self.pending);
            },
            None => {},
        }
    }

    /// Stops every session of this kind, whether being set up or running:
    /// hands back all their cancel handles and what the running one
    /// attached; answers "not running" when there is none. Either way
    /// nothing is set up or runs afterwards.
    pub fn stop(&mut self) -> (r: Result<(Vec<P>, Option<A>), SessionError>)
        ensures
            r matches Ok((hs, a)) ==> stop_answer(old(self).role(), old(self)@) == Ok::<
                (Seq<P>, Option<A>),
                SessionError,
            >((hs@, a)),
            r matches Err(e) ==> stop_answer(old(self).role(), old(self)@) == Err::<
                (Seq<P>, Option<A>),
                SessionError,
            >(e),
            well_ticketed(old(self)@),
            final(self)@.next == old(self)@.next,
            final(self)@.pending == Seq::<(u64, P)>::empty(),
            final(self)@.running is None,
            final(self).role() == old(self).role(),
    {
        proof {
            use_type_invariant(&*self);
        }
        if self.pending.len() == 0 && self.running.is_none() {
            return Err(SessionError::NotRunning(self.role));
        }
        let ghost v = self@;
        let mut pend: Vec<(u64, P)> = Vec::new();
        std::mem::swap(&mut pend, &mut self.pending);
        let mut handles: Vec<P> = Vec::new();
        let ghost n = pend@.len();
        while pend.len() > 0
            invariant
                n == v.pending.len(),
                pend@.len() + handles@.len() == n,
                forall|j: int| 0 <= j < handles@.len() ==> handles@[j] == v.pending[j].1,
                forall|j: int|
                    0 <= j < pend@.len() ==> pend@[j] == v.pending[j + handles@.len()],
            decreases pend.len(),
        {
            let (_, h) = pend.remove(0);
            handles.push(h);
        }
        let mut running: Option<(P, A)> = None;
        std::mem::swap(&mut running, &mut self.running);
        let attached = match running {
            Some((h, a)) => {
                handles.push(h);
                Some(a)
            },
            None => None,
        };
        assert(handles@ =~= all_handles(v));
        Ok((handles, attached))
    }

    /// What the running session attached, or the answer that none runs.
    pub fn active(&self) -> (r: Result<&A, SessionError>)
        ensures
            r matches Ok(a) ==> self@.running matches Some((_, b)) && b == *a,
            r matches Err(e) ==> self@.running is None && e == SessionError::NotRunning(self.role()),
    {
        match &self.running {
            Some((_, a)) => Ok(a),
            None => Err(SessionError::NotRunning(self.role)),
        }
    }

    /// Forgets the running session once it has ended by itself; setups under
    /// way are left as they are.
    pub fn clear(&mut self)
        ensures
            final(self)@ == (SlotView { running: None, ..old(self)@ }),
            final(self).role() == old(self).role(),
    {
        proof {
            use_type_invariant(&*self);
        }
        self.running = None;
    }
}

/// One running session of a kind at a time: beginning is refused exactly
/// while a session runs (or once every ticket has been issued), and a
/// refused request changes nothing.
pub proof fn law_one_session_at_a_time<P, A>(role: Role, v: SlotView<P, A>, handle: P)
    ensures
        v.running is Some ==> begin_answer(role, v) == Err::<u64, SessionError>(
            SessionError::AlreadyRunning(role),
        ),
        v.running is None && v.next < u64::MAX ==> begin_answer(role, v) is Ok,
        begin_answer(role, v) is Err ==> after_begin(v, handle) == v,
{
}

/// The ticket that beginning returns names the setup it began: that setup,
/// with its cancel handle, is the one found under the ticket, and tickets
/// stay in order.
pub proof fn law_begin_names_its_setup<P, A>(role: Role, v: SlotView<P, A>, handle: P)
    requires
        well_ticketed(v),
    ensures
        well_ticketed(after_begin(v, handle)),
        begin_answer(role, v) matches Ok(t) ==> ({
            let after = after_begin(v, handle);
            &&& ticket_index(after.pending, t) == Some(v.pending.len() as int)
            &&& after.pending[v.pending.len() as int] == (t, handle)
        }),
{
    let after = after_begin(v, handle);
    if begin_answer(role, v) is Ok {
        let t = v.next;
        let n = v.pending.len() as int;
        assert(after.pending[n] == (t, handle));
        assert forall|j: int| 0 <= j < n implies after.pending[j].0 != t by {
            assert(after.pending[j] == v.pending[j]);
        }
        let k = choose|k: int|
            0 <= k < after.pending.len() && after.pending[k].0 == t && forall|j: int|
                0 <= j < k ==> after.pending[j].0 != t;
        assert(0 <= k < after.pending.len() && after.pending[k].0 == t && forall|j: int|
            0 <= j < k ==> after.pending[j].0 != t);
        assert(k == n);
    }
}

/// A change to a slot made while setting sessions up: beginning one,
/// recording one as complete, or giving one up.
pub enum SlotStep<P, A> {
    Begin(P),
    Install(u64, A),
    Forget(u64),
}

/// The slot after the steps `steps`, in order.
pub open spec fn after_steps<P, A>(v: SlotView<P, A>, steps: Seq<SlotStep<P, A>>) -> SlotView<P, A>
    decreases steps.len(),
{
    if steps.len() == 0 {
        v
    } else {
        let next = match steps[0] {
            SlotStep::Begin(h) => after_begin(v, h),
            SlotStep::Install(t, a) => after_install(v, t, a),
            SlotStep::Forget(t) => after_forget(v, t),
        };
        after_steps(next, steps.drop_first())
    }
}

/// Once a session runs, it keeps running until it is stopped or ends:
/// whatever setups begin, complete or are given up meanwhile, some session
/// runs and every further request to begin is refused as "already running".
pub proof fn law_running_session_stays<P, A>(
    role: Role,
    v: SlotView<P, A>,
    steps: Seq<SlotStep<P, A>>,
)
    requires
        v.running is Some,
    ensures
        after_steps(v, steps).running is Some,
        begin_answer(role, after_steps(v, steps)) == Err::<u64, SessionError>(
            SessionError::AlreadyRunning(role),
        ),
    decreases steps.len(),
{
    if steps.len() > 0 {
        let next = match steps[0] {
            SlotStep::Begin(h) => after_begin(v, h),
            SlotStep::Install(t, a) => after_install(v, t, a),
            SlotStep::Forget(t) => after_forget(v, t),
        };
        assert(next.running is Some);
        law_running_session_stays(role, next, steps.drop_first());
    }
}

/// When a session's loop ends and nothing else is being set up, the slot is
/// free again: stopping is answered "not running" and beginning is admitted.
pub proof fn law_ended_session_frees_slot<P, A>(role: Role, v: SlotView<P, A>)
    requires
        v.pending.len() == 0,
        v.next < u64::MAX,
    ensures
        ({
            let ended = SlotView { running: None, ..v };
            &&& stop_answer(role, ended) == Err::<(Seq<P>, Option<A>), SessionError>(
                SessionError::NotRunning(role),
            )
            &&& begin_answer(role, ended) == Ok::<u64, SessionError>(v.next)
        }),
{
}

/// A session begun in an empty slot, set up and stopped hands back its
/// cancel handle and what it attached, and leaves room for the next one.
pub proof fn law_stop_returns_installed<P, A>(role: Role, next: u64, handle: P, attached: A)
    requires
        next < u64::MAX,
    ensures
        ({
            let empty = SlotView::<P, A> { next, pending: Seq::empty(), running: None };
            let begun = after_begin(empty, handle);
            let running = after_install(begun, next, attached);
            &&& begin_answer(role, empty) == Ok::<u64, SessionError>(next)
            &&& install_answer(role, begun, next) == Ok::<Option<(P, A)>, SessionError>(None)
            &&& stop_answer(role, running) == Ok::<(Seq<P>, Option<A>), SessionError>(
                (seq![handle], Some(attached)),
            )
        }),
{
    let empty = SlotView::<P, A> { next, pending: Seq::empty(), running: None };
    let begun = after_begin(empty, handle);
    assert(begun.pending[0].0 == next);
    assert(ticket_index(begun.pending, next) == Some(0int));
    let running = after_install(begun, next, attached);
    assert(running.pending =~= Seq::<(u64, P)>::empty());
    assert(all_handles(running) =~= seq![handle]);
}

/// Stopping a session while it is still being set up cancels it: the stop
/// hands back its cancel handle, and when the setup later completes it is
/// refused and nothing runs.
pub proof fn law_stop_cancels_setup<P, A>(role: Role, next: u64, handle: P, attached: A)
    requires
        next < u64::MAX,
    ensures
        ({
            let empty = SlotView::<P, A> { next, pending: Seq::empty(), running: None };
            let begun = after_begin(empty, handle);
            let stopped = SlotView::<P, A> {
                next: begun.next,
                pending: Seq::empty(),
                running: None,
            };
            &&& stop_answer(role, begun) == Ok::<(Seq<P>, Option<A>), SessionError>(
                (seq![handle], None),
            )
            &&& install_answer(role, stopped, next) == Err::<Option<(P, A)>, SessionError>(
                SessionError::StartFailed(role),
            )
            &&& after_install(stopped, next, attached) == stopped
        }),
{
    let empty = SlotView::<P, A> { next, pending: Seq::empty(), running: None };
    let begun = after_begin(empty, handle);
    assert(all_handles(begun) =~= seq![handle]);
}

/// Two setups under way at once are both admitted; the one completed last
/// replaces the session of the other, which is handed back to be cancelled.
pub proof fn law_later_setup_replaces<P, A>(
    role: Role,
    next: u64,
    first: P,
    second: P,
    a: A,
    b: A,
)
    requires
        next + 1 < u64::MAX,
    ensures
        ({
            let empty = SlotView::<P, A> { next, pending: Seq::empty(), running: None };
            let one = after_begin(empty, first);
            let two = after_begin(one, second);
            let done_first = after_install(two, next, a);
            &&& begin_answer(role, one) == Ok::<u64, SessionError>((next + 1) as u64)
            &&& install_answer(role, done_first, (next + 1) as u64) == Ok::<
                Option<(P, A)>,
                SessionError,
            >(Some((first, a)))
            &&& after_install(done_first, (next + 1) as u64, b).running == Some((second, b))
        }),
{
    let empty = SlotView::<P, A> { next, pending: Seq::empty(), running: None };
    let one = after_begin(empty, first);
    let two = after_begin(one, second);
    assert(two.pending[0].0 == next);
    assert(ticket_index(two.pending, next) == Some(0int));
    let done_first = after_install(two, next, a);
    assert(done_first.pending =~= seq![((next + 1) as u64, second)]);
    assert(done_first.pending[0].0 == (next + 1) as u64);
    assert(ticket_index(done_first.pending, (next + 1) as u64) == Some(0int));
}

} // verus!
