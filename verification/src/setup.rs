//! How a worker gets to its queue: join the namespace of the target process
//! if one is named, give up the administrative capability at once, and only
//! then open or create the queue. The loops that use the queue are handed out
//! here, and only once all of that is done.

use crate::error::{fault_error, Error, QueueFault, Stage};
use crate::name::{valid_queue_name, QueueName};
use crate::namespace::{ipc_namespace_path, ipc_path_text};
use crate::poller::{initial, Poller};
use crate::relay::{Relay, RelayPhase};
use vstd::prelude::*;

verus! {

/// A capability set of a thread.
#[derive(Clone, Copy, Debug, PartialEq, Eq, Structural)]
pub enum CapSet {
    Effective,
    Permitted,
}

/// How a worker gets hold of its queue.
#[derive(Clone, Copy, Debug, PartialEq, Eq, Structural)]
pub enum Access {
    /// Open a queue that exists.
    Open,
    /// Create a queue that does not exist yet, with this depth and this
    /// message size.
    Create { max_depth: i64, max_size: i64 },
}

/// Why a namespace could not be joined.
#[derive(Clone, Copy, Debug, PartialEq, Eq, Structural)]
pub enum JoinFault {
    /// The namespace reference of the process could not be opened: the
    /// process is gone, or access is denied.
    Unavailable,
    /// The kernel refused the association.
    Rejected,
}

/// Where a worker stands on its way to its queue.
#[derive(Clone, Copy, Debug, PartialEq, Eq, Structural)]
pub enum SetupPhase {
    /// Nothing has been started.
    Idle,
    /// The thread is joining the namespace.
    Joining,
    /// The capability is being removed from the effective set.
    DroppingEffective,
    /// The capability is being removed from the permitted set.
    DroppingPermitted,
    /// The queue is being opened or created.
    Opening,
    /// The queue is open.
    Ready,
    /// A step failed; the worker must not go on.
    Failed,
}

/// What the caller reports on the way to the queue.
#[derive(Clone, Copy, Debug, PartialEq, Eq, Structural)]
pub enum SetupEvent {
    /// The worker is to begin.
    Start,
    /// The thread has joined the namespace.
    Joined,
    /// The namespace could not be joined.
    JoinFailed(JoinFault),
    /// The capability has been removed from the set asked for.
    Dropped,
    /// The capability could not be removed.
    DropFailed,
    /// The queue is open.
    Opened,
    /// The queue could not be opened.
    OpenFailed(QueueFault),
}

/// What the caller is asked to do on the way to the queue.
#[derive(Debug, PartialEq, Eq)]
pub enum SetupAction {
    /// Associate this thread with the IPC namespace of process `pid`, which
    /// `path` refers to.
    Join { pid: i32, path: String },
    /// Remove the administrative capability from this set of this thread.
    DropCapability(CapSet),
    /// Open the queue of this name.
    Open(QueueName),
    /// Create the queue of this name, with this depth and message size.
    Create { name: QueueName, max_depth: i64, max_size: i64 },
    /// The queue is open: go on to the worker's loop.
    Proceed,
    /// Give up with this error.
    Abort(Error),
}

/// A setup action as contracts see it.
pub enum SetupActionView {
    Join { pid: i32, path: Seq<char> },
    DropCapability(CapSet),
    Open(Seq<char>),
    Create { name: Seq<char>, max_depth: i64, max_size: i64 },
    Proceed,
    Abort(Error),
}

impl View for SetupAction {
    type V = SetupActionView;

    open spec fn view(&self) -> SetupActionView {
        match self {
            SetupAction::Join { pid, path } => SetupActionView::Join { pid: *pid, path: path@ },
            SetupAction::DropCapability(set) => SetupActionView::DropCapability(*set),
            SetupAction::Open(name) => SetupActionView::Open(name@),
            SetupAction::Create { name, max_depth, max_size } => SetupActionView::Create {
                name: name@,
                max_depth: *max_depth,
                max_size: *max_size,
            },
            SetupAction::Proceed => SetupActionView::Proceed,
            SetupAction::Abort(e) => SetupActionView::Abort(*e),
        }
    }
}

/// What a worker is to reach: the name of the queue, the process whose
/// namespace holds it, if it is not the worker's own, and whether the queue
/// is to be opened or created.
pub struct Target {
    pub name: Seq<char>,
    pub namespace: Option<i32>,
    pub access: Access,
}

/// The target of a worker that is to open the queue `name`.
pub open spec fn open_target(name: Seq<char>, namespace: Option<i32>) -> Target {
    Target { name, namespace, access: Access::Open }
}

/// The target of a worker that is to create the queue `name`.
pub open spec fn create_target(
    name: Seq<char>,
    namespace: Option<i32>,
    max_depth: i64,
    max_size: i64,
) -> Target {
    Target { name, namespace, access: Access::Create { max_depth, max_size } }
}

/// The state of a worker on its way to its queue.
pub struct SetupState {
    pub phase: SetupPhase,
    pub target: Target,
}

/// The state of a worker that has not begun.
pub open spec fn setup_initial(target: Target) -> SetupState {
    SetupState { phase: SetupPhase::Idle, target }
}

/// The state `s` in another phase.
pub open spec fn setup_in_phase(s: SetupState, phase: SetupPhase) -> SetupState {
    SetupState { phase, target: s.target }
}

/// The action that touches the queue: opening or creating it.
pub open spec fn reach_action(target: Target) -> SetupActionView {
    match target.access {
        Access::Open => SetupActionView::Open(target.name),
        Access::Create { max_depth, max_size } => SetupActionView::Create {
            name: target.name,
            max_depth,
            max_size,
        },
    }
}

/// Whether an action touches a queue.
pub open spec fn touches_queue(action: SetupActionView) -> bool {
    action is Open || action is Create
}

/// The error for a join that failed.
pub open spec fn join_error(fault: JoinFault) -> Error {
    match fault {
        JoinFault::Unavailable => Error::NamespaceUnavailable,
        JoinFault::Rejected => Error::JoinRejected,
    }
}

/// The step to the queue itself: open or create it if its name is valid,
/// give up with `InvalidName` if not.
pub open spec fn open_or_abort(s: SetupState) -> (SetupState, SetupActionView) {
    if valid_queue_name(s.target.name) {
        (setup_in_phase(s, SetupPhase::Opening), reach_action(s.target))
    } else {
        (setup_in_phase(s, SetupPhase::Failed), SetupActionView::Abort(Error::InvalidName))
    }
}

/// What an event does in a state: the next state and the action asked for,
/// or `None` where the state does not expect the event.
pub open spec fn setup_transition(s: SetupState, e: SetupEvent) -> Option<
    (SetupState, SetupActionView),
> {
    match (s.phase, e) {
        (SetupPhase::Idle, SetupEvent::Start) => match s.target.namespace {
            Some(pid) => Some(
                (
                    setup_in_phase(s, SetupPhase::Joining),
                    SetupActionView::Join { pid, path: ipc_path_text(pid as int) },
                ),
            ),
            None => Some(open_or_abort(s)),
        },
        (SetupPhase::Joining, SetupEvent::Joined) => Some(
            (
                setup_in_phase(s, SetupPhase::DroppingEffective),
                SetupActionView::DropCapability(CapSet::Effective),
            ),
        ),
        (SetupPhase::Joining, SetupEvent::JoinFailed(fault)) => Some(
            (setup_in_phase(s, SetupPhase::Failed), SetupActionView::Abort(join_error(fault))),
        ),
        (SetupPhase::DroppingEffective, SetupEvent::Dropped) => Some(
            (
                setup_in_phase(s, SetupPhase::DroppingPermitted),
                SetupActionView::DropCapability(CapSet::Permitted),
            ),
        ),
        (SetupPhase::DroppingEffective, SetupEvent::DropFailed) => Some(
            (
                setup_in_phase(s, SetupPhase::Failed),
                SetupActionView::Abort(Error::CapabilityDropFailed),
            ),
        ),
        (SetupPhase::DroppingPermitted, SetupEvent::Dropped) => Some(open_or_abort(s)),
        (SetupPhase::DroppingPermitted, SetupEvent::DropFailed) => Some(
            (
                setup_in_phase(s, SetupPhase::Failed),
                SetupActionView::Abort(Error::CapabilityDropFailed),
            ),
        ),
        (SetupPhase::Opening, SetupEvent::Opened) => Some(
            (setup_in_phase(s, SetupPhase::Ready), SetupActionView::Proceed),
        ),
        (SetupPhase::Opening, SetupEvent::OpenFailed(fault)) => Some(
            (
                setup_in_phase(s, SetupPhase::Failed),
                SetupActionView::Abort(fault_error(Stage::Open, fault)),
            ),
        ),
        _ => None,
    }
}

/// A worker on its way to its queue.
#[derive(Debug, PartialEq, Eq)]
pub struct Setup {
    phase: SetupPhase,
    name: String,
    namespace: Option<i32>,
    access: Access,
}

impl View for Setup {
    type V = SetupState;

    closed spec fn view(&self) -> SetupState {
        SetupState {
            phase: self.phase,
            target: Target { name: self.name@, namespace: self.namespace, access: self.access },
        }
    }
}

impl Setup {
    /// A worker that has not begun and is to open the queue `name` in the
    /// namespace of process `namespace`, or in its own if none is named.
    pub fn new(name: String, namespace: Option<i32>) -> (setup: Setup)
        ensures
            setup@ == setup_initial(open_target(name@, namespace)),
    {
        Setup { phase: SetupPhase::Idle, name, namespace, access: Access::Open }
    }

    /// A worker that has not begun and is to create the queue `name`, with
    /// the given depth and message size, in the namespace of process
    /// `namespace`, or in its own if none is named.
    pub fn creating(
        name: String,
        namespace: Option<i32>,
        max_depth: i64,
        max_size: i64,
    ) -> (setup: Setup)
        ensures
            setup@ == setup_initial(create_target(name@, namespace, max_depth, max_size)),
    {
        Setup {
            phase: SetupPhase::Idle,
            name,
            namespace,
            access: Access::Create { max_depth, max_size },
        }
    }

    /// The phase the worker is in.
    pub fn phase(&self) -> (phase: SetupPhase)
        ensures
            phase == self@.phase,
    {
        self.phase
    }

    /// Whether the queue is open and the worker may use it.
    pub fn is_ready(&self) -> (ready: bool)
        ensures
            ready == (self@.phase == SetupPhase::Ready),
    {
        self.phase == SetupPhase::Ready
    }

    /// The poll loop of a worker whose queue is open. There is none before
    /// that.
    pub fn poller(&self, limit: Option<usize>) -> (p: Option<Poller>)
        ensures
            match p {
                Some(poller) => self@.phase == SetupPhase::Ready && poller@ == initial(limit),
                None => self@.phase != SetupPhase::Ready,
            },
    {
        if self.phase == SetupPhase::Ready {
            Some(Poller::idle(limit))
        } else {
            None
        }
    }

    /// The send loop of a worker whose queue is open. There is none before
    /// that.
    pub fn relay(&self) -> (r: Option<Relay>)
        ensures
            match r {
                Some(relay) => self@.phase == SetupPhase::Ready && relay@ == RelayPhase::Idle,
                None => self@.phase != SetupPhase::Ready,
            },
    {
        if self.phase == SetupPhase::Ready {
            Some(Relay::idle())
        } else {
            None
        }
    }

    fn open_or_abort(&mut self) -> (action: SetupAction)
        ensures
            final(self)@ == open_or_abort(old(self)@).0,
            action@ == open_or_abort(old(self)@).1,
    {
        match QueueName::new(self.name.as_str()) {
            Ok(name) => {
                self.phase = SetupPhase::Opening;
                match self.access {
                    Access::Open => SetupAction::Open(name),
                    Access::Create { max_depth, max_size } => SetupAction::Create {
                        name,
                        max_depth,
                        max_size,
                    },
                }
            },
            Err(e) => {
                self.phase = SetupPhase::Failed;
                SetupAction::Abort(e)
            },
        }
    }

    fn fail(&mut self, e: Error) -> (action: SetupAction)
        ensures
            final(self)@ == setup_in_phase(old(self)@, SetupPhase::Failed),
            action@ == SetupActionView::Abort(e),
    {
        self.phase = SetupPhase::Failed;
        SetupAction::Abort(e)
    }

    /// Takes an event and says what to do next. An event that the current
    /// phase does not expect changes nothing and yields `None`.
    pub fn step(&mut self, event: SetupEvent) -> (r: Option<SetupAction>)
        ensures
            match setup_transition(old(self)@, event) {
                Some((next, action)) => {
                    &&& final(self)@ == next
                    &&& r matches Some(a)
                    &&& a@ == action
                },
                None => final(self)@ == old(self)@ && r is None,
            },
    {
        match self.phase {
            SetupPhase::Idle => match event {
                SetupEvent::Start => match self.namespace {
                    Some(pid) => {
                        self.phase = SetupPhase::Joining;
                        Some(SetupAction::Join { pid, path: ipc_namespace_path(pid) })
                    },
                    None => Some(self.open_or_abort()),
                },
                _ => None,
            },
            SetupPhase::Joining => match event {
                SetupEvent::Joined => {
                    self.phase = SetupPhase::DroppingEffective;
                    Some(SetupAction::DropCapability(CapSet::Effective))
                },
                SetupEvent::JoinFailed(fault) => {
                    let e = match fault {
                        JoinFault::Unavailable => Error::NamespaceUnavailable,
                        JoinFault::Rejected => Error::JoinRejected,
                    };
                    Some(self.fail(e))
                },
                _ => None,
            },
            SetupPhase::DroppingEffective => match event {
                SetupEvent::Dropped => {
                    self.phase = SetupPhase::DroppingPermitted;
                    Some(SetupAction::DropCapability(CapSet::Permitted))
                },
                SetupEvent::DropFailed => Some(self.fail(Error::CapabilityDropFailed)),
                _ => None,
            },
            SetupPhase::DroppingPermitted => match event {
                SetupEvent::Dropped => Some(self.open_or_abort()),
                SetupEvent::DropFailed => Some(self.fail(Error::CapabilityDropFailed)),
                _ => None,
            },
            SetupPhase::Opening => match event {
                SetupEvent::Opened => {
                    self.phase = SetupPhase::Ready;
                    Some(SetupAction::Proceed)
                },
                SetupEvent::OpenFailed(fault) => Some(
                    self.fail(Error::from_fault(Stage::Open, fault)),
                ),
                _ => None,
            },
            _ => None,
        }
    }
}

/// The state after a run of events, each taken in its turn. An event out of
/// turn is passed over.
pub open spec fn setup_run(s: SetupState, events: Seq<SetupEvent>) -> SetupState
    decreases events.len(),
{
    if events.len() == 0 {
        s
    } else {
        let before = setup_run(s, events.drop_last());
        match setup_transition(before, events.last()) {
            Some((next, _)) => next,
            None => before,
        }
    }
}

/// The actions asked for along a run of events, in order.
pub open spec fn setup_emitted(s: SetupState, events: Seq<SetupEvent>) -> Seq<SetupActionView>
    decreases events.len(),
{
    if events.len() == 0 {
        Seq::empty()
    } else {
        let before = setup_run(s, events.drop_last());
        match setup_transition(before, events.last()) {
            Some((_, action)) => setup_emitted(s, events.drop_last()).push(action),
            None => setup_emitted(s, events.drop_last()),
        }
    }
}

/// What has to happen before the queue may be touched: nothing in the
/// worker's own namespace; otherwise the join, then the capability leaves
/// the effective set, then the permitted set.
pub open spec fn preliminaries(namespace: Option<i32>) -> Seq<SetupActionView> {
    match namespace {
        Some(pid) => seq![
            SetupActionView::Join { pid, path: ipc_path_text(pid as int) },
            SetupActionView::DropCapability(CapSet::Effective),
            SetupActionView::DropCapability(CapSet::Permitted),
        ],
        None => Seq::empty(),
    }
}

/// The actions of a setup in which nothing fails.
pub open spec fn full_plan(target: Target) -> Seq<SetupActionView> {
    preliminaries(target.namespace).push(reach_action(target)).push(SetupActionView::Proceed)
}

/// What holds after every run of a setup: how far along the plan it is.
proof fn lemma_setup_run(target: Target, events: Seq<SetupEvent>)
    ensures
        ({
            let s = setup_run(setup_initial(target), events);
            let a = setup_emitted(setup_initial(target), events);
            let plan = full_plan(target);
            let pre = preliminaries(target.namespace).len() as int;
            &&& s.target == target
            &&& match s.phase {
                SetupPhase::Idle => a.len() == 0,
                SetupPhase::Joining => target.namespace is Some && a == plan.take(1),
                SetupPhase::DroppingEffective => target.namespace is Some && a == plan.take(2),
                SetupPhase::DroppingPermitted => target.namespace is Some && a == plan.take(3),
                SetupPhase::Opening => valid_queue_name(target.name) && a == plan.take(pre + 1),
                SetupPhase::Ready => valid_queue_name(target.name) && a == plan,
                SetupPhase::Failed => {
                    &&& 1 <= a.len() <= pre + 2
                    &&& a.last() is Abort
                    &&& a.drop_last() == plan.take(a.len() - 1)
                    &&& a.len() == pre + 2 ==> valid_queue_name(target.name)
                },
            }
        }),
    decreases events.len(),
{
    let init = setup_initial(target);
    let plan = full_plan(target);
    let pre = preliminaries(target.namespace).len() as int;
    if events.len() > 0 {
        lemma_setup_run(target, events.drop_last());
        let before = setup_run(init, events.drop_last());
        let a0 = setup_emitted(init, events.drop_last());
        match setup_transition(before, events.last()) {
            Some((next, action)) => {
                let a = a0.push(action);
                assert(a.drop_last() =~= a0);
                if next.phase != SetupPhase::Failed {
                    assert(a =~= plan.take(a.len() as int));
                    if next.phase == SetupPhase::Ready {
                        assert(plan.take(pre + 2) =~= plan);
                    }
                }
            },
            None => {},
        }
    }
}

/// The order of a setup cannot be broken, whatever is reported to it: the
/// actions it asks for are the steps of the full plan in their order, up to
/// the point it has reached, with at most one `Abort`, at the end, in place
/// of the step that could not be taken. In particular the queue is touched
/// only after every preliminary: where a namespace is named, after the join
/// and after the capability has left both sets; and only under a valid name.
pub proof fn lemma_setup_order(target: Target, events: Seq<SetupEvent>)
    ensures
        ({
            let a = setup_emitted(setup_initial(target), events);
            let plan = full_plan(target);
            let done = if a.len() > 0 && a.last() is Abort {
                a.len() - 1
            } else {
                a.len() as int
            };
            &&& done <= plan.len()
            &&& a.take(done) == plan.take(done)
            &&& forall|i: int|
                0 <= i < a.len() && touches_queue(#[trigger] a[i]) ==> {
                    &&& valid_queue_name(target.name)
                    &&& a[i] == reach_action(target)
                    &&& a.take(i) == preliminaries(target.namespace)
                }
        }),
{
    lemma_setup_run(target, events);
    let init = setup_initial(target);
    let s = setup_run(init, events);
    let a = setup_emitted(init, events);
    let plan = full_plan(target);
    let pre = preliminaries(target.namespace).len() as int;
    let done = if a.len() > 0 && a.last() is Abort {
        a.len() - 1
    } else {
        a.len() as int
    };
    if s.phase == SetupPhase::Failed {
        assert(a.take(done) =~= a.drop_last());
    } else {
        assert(a.take(done) =~= a);
        assert(a =~= plan.take(done));
    }
    assert forall|i: int| 0 <= i < a.len() && touches_queue(#[trigger] a[i]) implies {
        &&& valid_queue_name(target.name)
        &&& a[i] == reach_action(target)
        &&& a.take(i) == preliminaries(target.namespace)
    } by {
        assert(i < done);
        assert(a[i] == a.take(done)[i]);
        assert(a[i] == plan[i]);
        assert(i == pre);
        assert(a.take(i) =~= preliminaries(target.namespace));
    }
}

/// Whether a sequence of actions touches a queue.
pub open spec fn opens_queue(actions: Seq<SetupActionView>) -> bool {
    exists|i: int| 0 <= i < actions.len() && touches_queue(#[trigger] actions[i])
}

/// A join that fails ends the setup before any queue is touched: where a
/// namespace is named and no join is reported as done, no queue is opened or
/// created, whatever else is reported.
pub proof fn lemma_no_open_without_join(target: Target, events: Seq<SetupEvent>)
    requires
        target.namespace is Some,
        !events.contains(SetupEvent::Joined),
    ensures
        !opens_queue(setup_emitted(setup_initial(target), events)),
        ({
            let phase = setup_run(setup_initial(target), events).phase;
            phase == SetupPhase::Idle || phase == SetupPhase::Joining || phase
                == SetupPhase::Failed
        }),
    decreases events.len(),
{
    let init = setup_initial(target);
    if events.len() > 0 {
        let earlier = events.drop_last();
        assert(!earlier.contains(SetupEvent::Joined)) by {
            if earlier.contains(SetupEvent::Joined) {
                let i = choose|i: int| 0 <= i < earlier.len() && earlier[i] == SetupEvent::Joined;
                assert(events[i] == SetupEvent::Joined);
            }
        }
        lemma_no_open_without_join(target, earlier);
        lemma_setup_run(target, earlier);
        assert(events.last() == events[events.len() - 1]);
        let a0 = setup_emitted(init, earlier);
        let a = setup_emitted(init, events);
        if opens_queue(a) {
            let i = choose|i: int| 0 <= i < a.len() && touches_queue(#[trigger] a[i]);
            if i < a0.len() {
                assert(touches_queue(a0[i]));
            }
        }
    }
}

/// The same for the plain case: if the join is the first thing to fail, the
/// worker has asked for the join, gives up with the error of that failure,
/// and asks for nothing else, whatever is reported afterwards.
pub proof fn lemma_failed_join_aborts(
    target: Target,
    fault: JoinFault,
    later: Seq<SetupEvent>,
)
    requires
        target.namespace is Some,
    ensures
        setup_emitted(
            setup_initial(target),
            seq![SetupEvent::Start, SetupEvent::JoinFailed(fault)] + later,
        ) == seq![
            SetupActionView::Join {
                pid: target.namespace->0,
                path: ipc_path_text(target.namespace->0 as int),
            },
            SetupActionView::Abort(join_error(fault)),
        ],
    decreases later.len(),
{
    let pid = target.namespace->0;
    let init = setup_initial(target);
    let head = seq![SetupEvent::Start, SetupEvent::JoinFailed(fault)];
    let events = head + later;
    let expected = seq![
        SetupActionView::Join { pid, path: ipc_path_text(pid as int) },
        SetupActionView::Abort(join_error(fault)),
    ];
    if later.len() == 0 {
        assert(events =~= head);
        let first = seq![SetupEvent::Start];
        assert(head.drop_last() =~= first);
        assert(first.drop_last() =~= Seq::<SetupEvent>::empty());
        assert(setup_run(init, first.drop_last()) == init);
        assert(setup_emitted(init, first.drop_last()) =~= Seq::<SetupActionView>::empty());
        assert(setup_run(init, first) == setup_in_phase(init, SetupPhase::Joining));
        assert(setup_emitted(init, head) =~= expected);
    } else {
        lemma_failed_join_aborts(target, fault, later.drop_last());
        assert(events.drop_last() =~= head + later.drop_last());
        lemma_setup_run(target, events.drop_last());
        let before = setup_run(init, events.drop_last());
        assert(before.phase == SetupPhase::Failed) by {
            let a0 = setup_emitted(init, events.drop_last());
            assert(a0[1] is Abort);
            assert(a0.len() == 2);
            let plan = full_plan(target);
            if before.phase != SetupPhase::Failed {
                assert(a0[1] == plan[1]);
            }
        }
    }
}

/// A setup that has come to its end stays there: a worker that is ready asks
/// for nothing more, and one that has failed is not tried again, whatever is
/// reported afterwards.
pub proof fn lemma_setup_end_is_final(s: SetupState, events: Seq<SetupEvent>)
    requires
        s.phase == SetupPhase::Ready || s.phase == SetupPhase::Failed,
    ensures
        setup_run(s, events) == s,
        setup_emitted(s, events) == Seq::<SetupActionView>::empty(),
    decreases events.len(),
{
    if events.len() > 0 {
        lemma_setup_end_is_final(s, events.drop_last());
    }
}

} // verus!
