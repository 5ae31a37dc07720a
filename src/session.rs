use vstd::prelude::*;
use crate::cmake::{
    build_args, build_command, configure_args, configure_command, install_args, install_command,
    update_args, update_command,
};
use crate::config::{ConfigView, Configure};
use crate::container::{
    create_request, create_request_of, identity_labels, labels, lemma_adoption_idempotent, listed,
    same_identity, ContainerEntry, CreateRequest, CreateView,
};
use crate::error::{ContainerError, ErrorView};

verus! {

/// What a run does once the container is there.
#[derive(Debug, Clone, Copy, PartialEq, Eq)]
pub enum Task {
    /// Configure, then compile.
    Build,
    /// Refresh the package index, then install the packages.
    Install,
}

/// An operation for the container runtime to perform.
pub enum RemoteOp {
    /// List all containers, stopped ones included, whose labels hold every
    /// pair of `filter`.
    List { filter: Vec<(String, String)> },
    /// Create a container.
    Create { request: CreateRequest },
    /// Start a container.
    Start { id: String },
    /// Run a command in a container, its output and errors attached.
    Exec { id: String, cmd: Vec<String> },
    /// Stop a container, with the runtime's default grace period.
    Stop { id: String },
}

/// An operation as plain values.
pub enum OpView {
    List(Seq<(Seq<char>, Seq<char>)>),
    Create(CreateView),
    Start(Seq<char>),
    Exec(Seq<char>, Seq<Seq<char>>),
    Stop(Seq<char>),
}

impl View for RemoteOp {
    type V = OpView;

    open spec fn view(&self) -> OpView {
        match self {
            RemoteOp::List { filter } => OpView::List(filter.deep_view()),
            RemoteOp::Create { request } => OpView::Create(request@),
            RemoteOp::Start { id } => OpView::Start(id@),
            RemoteOp::Exec { id, cmd } => OpView::Exec(id@, cmd.deep_view()),
            RemoteOp::Stop { id } => OpView::Stop(id@),
        }
    }
}

/// What the runtime answered to the last operation.
pub enum Event {
    /// The handles of the listed containers, in the runtime's order.
    Listed(Vec<String>),
    /// The handle of the created container.
    Created(String),
    /// The operation is over (for a command: its whole output was relayed).
    Completed,
    /// The operation failed.
    Failed(ContainerError),
}

/// An answer as plain values.
pub enum EventView {
    Listed(Seq<Seq<char>>),
    Created(Seq<char>),
    Completed,
    Failed(ErrorView),
}

impl View for Event {
    type V = EventView;

    open spec fn view(&self) -> EventView {
        match self {
            Event::Listed(ids) => EventView::Listed(ids.deep_view()),
            Event::Created(id) => EventView::Created(id@),
            Event::Completed => EventView::Completed,
            Event::Failed(e) => EventView::Failed(e@),
        }
    }
}

/// What the caller does next.
pub enum Action {
    /// Perform an operation and report its answer.
    Perform(RemoteOp),
    /// The run succeeded.
    Finish,
    /// The run failed with this error.
    Abort(ContainerError),
}

/// An action as plain values.
pub enum ActionView {
    Perform(OpView),
    Finish,
    Abort(ErrorView),
}

impl View for Action {
    type V = ActionView;

    open spec fn view(&self) -> ActionView {
        match self {
            Action::Perform(op) => ActionView::Perform(op@),
            Action::Finish => ActionView::Finish,
            Action::Abort(e) => ActionView::Abort(e@),
        }
    }
}

/// Where a run stands.
pub enum Stage {
    /// Waiting for the listing of matching containers.
    Locating,
    /// Waiting for the new container.
    Creating,
    /// Waiting for step `issued` of the plan on container `id`.
    Running { id: String, issued: usize },
    /// The run succeeded.
    Finished,
    /// The run failed.
    Aborted,
}

/// A stage as plain values.
pub enum StageView {
    Locating,
    Creating,
    Running(Seq<char>, nat),
    Finished,
    Aborted,
}

impl View for Stage {
    type V = StageView;

    open spec fn view(&self) -> StageView {
        match self {
            Stage::Locating => StageView::Locating,
            Stage::Creating => StageView::Creating,
            Stage::Running { id, issued } => StageView::Running(id@, *issued as nat),
            Stage::Finished => StageView::Finished,
            Stage::Aborted => StageView::Aborted,
        }
    }
}

/// A run as plain values.
pub struct SessionView {
    pub cfg: ConfigView,
    pub task: Task,
    pub stage: StageView,
}

/// Whether a run is over.
pub open spec fn is_over_stage(stage: StageView) -> bool {
    stage is Finished || stage is Aborted
}

/// The two commands that a task runs in the container.
pub open spec fn task_commands(c: ConfigView, task: Task) -> (Seq<Seq<char>>, Seq<Seq<char>>) {
    match task {
        Task::Build => (configure_command(c), build_command(c)),
        Task::Install => (update_command(), install_command(c)),
    }
}

/// The operations on container `id`, in order: start it, run the task's two
/// commands, stop it.
pub open spec fn plan_of(c: ConfigView, task: Task, id: Seq<char>) -> Seq<OpView> {
    seq![
        OpView::Start(id),
        OpView::Exec(id, task_commands(c, task).0),
        OpView::Exec(id, task_commands(c, task).1),
        OpView::Stop(id),
    ]
}

/// Number of operations in a plan.
pub open spec fn plan_len() -> nat {
    4
}

/// The error of an answer that does not fit the operation asked for.
pub open spec fn unexpected_reply() -> ErrorView {
    ErrorView::Transport("unexpected reply from the container runtime"@)
}

/// A run before any answer: the listing is asked for.
pub open spec fn initial(c: ConfigView, task: Task) -> SessionView {
    SessionView { cfg: c, task, stage: StageView::Locating }
}

/// Where a run goes on an answer, and what it asks for next.
pub open spec fn next(s: SessionView, e: EventView) -> (SessionView, ActionView) {
    let aborted = SessionView { stage: StageView::Aborted, ..s };
    match e {
        EventView::Failed(err) => (aborted, ActionView::Abort(err)),
        EventView::Listed(ids) => if s.stage is Locating {
            if ids.len() > 0 {
                (
                    SessionView { stage: StageView::Running(ids[0], 0), ..s },
                    ActionView::Perform(plan_of(s.cfg, s.task, ids[0])[0]),
                )
            } else {
                (
                    SessionView { stage: StageView::Creating, ..s },
                    ActionView::Perform(OpView::Create(create_request_of(s.cfg))),
                )
            }
        } else {
            (aborted, ActionView::Abort(unexpected_reply()))
        },
        EventView::Created(id) => if s.stage is Creating {
            (
                SessionView { stage: StageView::Running(id, 0), ..s },
                ActionView::Perform(plan_of(s.cfg, s.task, id)[0]),
            )
        } else {
            (aborted, ActionView::Abort(unexpected_reply()))
        },
        EventView::Completed => match s.stage {
            StageView::Running(id, k) => if k + 1 < plan_len() {
                (
                    SessionView { stage: StageView::Running(id, k + 1), ..s },
                    ActionView::Perform(plan_of(s.cfg, s.task, id)[k + 1 as int]),
                )
            } else {
                (SessionView { stage: StageView::Finished, ..s }, ActionView::Finish)
            },
            _ => (aborted, ActionView::Abort(unexpected_reply())),
        },
    }
}

/// The exit status of a run: none while it goes on, 0 once it succeeded,
/// 1 once it failed.
pub open spec fn exit_code_of(stage: StageView) -> Option<i32> {
    match stage {
        StageView::Finished => Some(0),
        StageView::Aborted => Some(1),
        _ => None,
    }
}

/// One build run against one container: finds or creates the container,
/// then starts it, runs the task's commands and stops it, strictly in that
/// order, one operation at a time.
pub struct Session {
    cfg: Configure,
    task: Task,
    stage: Stage,
}

impl View for Session {
    type V = SessionView;

    closed spec fn view(&self) -> SessionView {
        SessionView { cfg: self.cfg@, task: self.task, stage: self.stage@ }
    }
}

impl Session {
    /// A run of `task` for `cfg`, and its first operation: the listing of
    /// the containers that carry the configuration's identity labels.
    pub fn new(cfg: Configure, task: Task) -> (r: (Session, RemoteOp))
        ensures
            r.0@ == initial(cfg@, task),
            r.1@ == OpView::List(identity_labels(cfg@)),
    {
        let filter = labels(&cfg);
        (Session { cfg, task, stage: Stage::Locating }, RemoteOp::List { filter })
    }

    /// Whether the run is over.
    pub fn is_over(&self) -> (r: bool)
        ensures
            r == is_over_stage(self@.stage),
    {
        match self.stage {
            Stage::Finished | Stage::Aborted => true,
            _ => false,
        }
    }

    /// The exit status of the run, once it is over.
    pub fn exit_code(&self) -> (r: Option<i32>)
        ensures
            r == exit_code_of(self@.stage),
    {
        match self.stage {
            Stage::Finished => Some(0),
            Stage::Aborted => Some(1),
            _ => None,
        }
    }

    fn plan_op(&self, id: &String, k: usize) -> (r: RemoteOp)
        requires
            k < plan_len(),
        ensures
            r@ == plan_of(self@.cfg, self@.task, id@)[k as int],
    {
        if k == 0 {
            RemoteOp::Start { id: id.clone() }
        } else if k == 3 {
            RemoteOp::Stop { id: id.clone() }
        } else {
            let cmd = match self.task {
                Task::Build => if k == 1 {
                    configure_args(&self.cfg)
                } else {
                    build_args(&self.cfg)
                },
                Task::Install => if k == 1 {
                    update_args()
                } else {
                    install_args(&self.cfg)
                },
            };
            RemoteOp::Exec { id: id.clone(), cmd }
        }
    }

    /// Takes the answer to the last operation and says what comes next.
    /// Where the listing holds several containers, the first one in the
    /// runtime's order is adopted, as it is, and none is created. A failure
    /// ends the run with that error; an answer that does not fit the
    /// operation asked for ends it with a transport error.
    pub fn step(&mut self, ev: Event) -> (a: Action)
        requires
            !is_over_stage(old(self)@.stage),
        ensures
            (final(self)@, a@) == next(old(self)@, ev@),
    {
        match ev {
            Event::Failed(e) => {
                self.stage = Stage::Aborted;
                Action::Abort(e)
            },
            Event::Listed(ids) => {
                if let Stage::Locating = self.stage {
                    if ids.len() > 0 {
                        let id = ids[0].clone();
                        let op = self.plan_op(&id, 0);
                        self.stage = Stage::Running { id, issued: 0 };
                        Action::Perform(op)
                    } else {
                        self.stage = Stage::Creating;
                        Action::Perform(RemoteOp::Create { request: create_request(&self.cfg) })
                    }
                } else {
                    self.abort_unexpected()
                }
            },
            Event::Created(id) => {
                if let Stage::Creating = self.stage {
                    let op = self.plan_op(&id, 0);
                    self.stage = Stage::Running { id, issued: 0 };
                    Action::Perform(op)
                } else {
                    self.abort_unexpected()
                }
            },
            Event::Completed => {
                let (id, k) = match &self.stage {
                    Stage::Running { id, issued } => (id.clone(), *issued),
                    _ => {
                        return self.abort_unexpected();
                    },
                };
                if k < 3 {
                    let op = self.plan_op(&id, k + 1);
                    self.stage = Stage::Running { id, issued: k + 1 };
                    Action::Perform(op)
                } else {
                    self.stage = Stage::Finished;
                    Action::Finish
                }
            },
        }
    }

    fn abort_unexpected(&mut self) -> (a: Action)
        ensures
            final(self)@ == (SessionView { stage: StageView::Aborted, ..old(self)@ }),
            a@ == ActionView::Abort(unexpected_reply()),
    {
        self.stage = Stage::Aborted;
        Action::Abort(
            ContainerError::Transport(
                String::from_str("unexpected reply from the container runtime"),
            ),
        )
    }
}

/// The actions of a run from `s` on the answers `evs`, up to the end of the
/// run; answers after the end are not read.
pub open spec fn run_from(s: SessionView, evs: Seq<EventView>) -> Seq<ActionView>
    decreases evs.len(),
{
    if evs.len() == 0 || is_over_stage(s.stage) {
        Seq::empty()
    } else {
        let (s2, a) = next(s, evs[0]);
        seq![a] + run_from(s2, evs.drop_first())
    }
}

/// The answers of a runtime on which every operation succeeds: the listing
/// yields `found`, a creation (asked for only where `found` is empty) yields
/// `new_id`, and each later operation completes.
pub open spec fn success_events(found: Seq<Seq<char>>, new_id: Seq<char>) -> Seq<EventView> {
    let done = seq![
        EventView::Completed,
        EventView::Completed,
        EventView::Completed,
        EventView::Completed,
    ];
    if found.len() > 0 {
        seq![EventView::Listed(found)] + done
    } else {
        seq![EventView::Listed(found), EventView::Created(new_id)] + done
    }
}

/// The container a run settles on: the first one listed, else the new one.
pub open spec fn chosen_handle(found: Seq<Seq<char>>, new_id: Seq<char>) -> Seq<char> {
    if found.len() > 0 {
        found[0]
    } else {
        new_id
    }
}

/// The actions on the chosen container `h` when every operation succeeds:
/// start, the task's two commands, stop, and the end of the run.
pub open spec fn plan_actions(c: ConfigView, task: Task, h: Seq<char>) -> Seq<ActionView> {
    let p = plan_of(c, task, h);
    seq![
        ActionView::Perform(p[0]),
        ActionView::Perform(p[1]),
        ActionView::Perform(p[2]),
        ActionView::Perform(p[3]),
        ActionView::Finish,
    ]
}

/// The actions of a run in which every operation succeeds: a creation only
/// where nothing was listed, then the plan on the chosen container.
pub open spec fn success_actions(
    c: ConfigView,
    task: Task,
    found: Seq<Seq<char>>,
    new_id: Seq<char>,
) -> Seq<ActionView> {
    let body = plan_actions(c, task, chosen_handle(found, new_id));
    if found.len() > 0 {
        body
    } else {
        seq![ActionView::Perform(OpView::Create(create_request_of(c)))] + body
    }
}

/// Whether `run` is a beginning of `expected`, possibly ended by one abort.
pub open spec fn prefix_or_abort(run: Seq<ActionView>, expected: Seq<ActionView>) -> bool
    decreases run.len(),
{
    if run.len() == 0 {
        true
    } else if run[0] is Abort {
        run.len() == 1
    } else {
        expected.len() > 0 && run[0] == expected[0] && prefix_or_abort(
            run.drop_first(),
            expected.drop_first(),
        )
    }
}

/// The containers that the first answer lists, if it is a listing.
pub open spec fn listed_in(evs: Seq<EventView>) -> Seq<Seq<char>> {
    if evs.len() > 0 && evs[0] is Listed {
        evs[0]->Listed_0
    } else {
        Seq::empty()
    }
}

/// The container that the second answer reports created, if it does.
pub open spec fn created_in(evs: Seq<EventView>) -> Seq<char> {
    if evs.len() > 1 && evs[1] is Created {
        evs[1]->Created_0
    } else {
        Seq::empty()
    }
}

proof fn lemma_run_cons(s: SessionView, e: EventView, rest: Seq<EventView>)
    requires
        !is_over_stage(s.stage),
    ensures
        run_from(s, seq![e] + rest) == seq![next(s, e).1] + run_from(next(s, e).0, rest),
{
    assert((seq![e] + rest).drop_first() =~= rest);
}

proof fn lemma_prefix_cons(a: ActionView, run: Seq<ActionView>, expected: Seq<ActionView>)
    requires
        !(a is Abort),
        expected.len() > 0,
        a == expected[0],
        prefix_or_abort(run, expected.drop_first()),
    ensures
        prefix_or_abort(seq![a] + run, expected),
{
    assert((seq![a] + run).drop_first() =~= run);
}

proof fn lemma_abort_alone(a: ActionView, expected: Seq<ActionView>)
    requires
        a is Abort,
    ensures
        prefix_or_abort(seq![a], expected),
{
}

proof fn lemma_split_events(evs: Seq<EventView>)
    requires
        evs.len() > 0,
    ensures
        evs == seq![evs[0]] + evs.drop_first(),
{
    assert(evs =~= seq![evs[0]] + evs.drop_first());
}

proof fn lemma_running_follows_plan(
    c: ConfigView,
    task: Task,
    h: Seq<char>,
    k: nat,
    evs: Seq<EventView>,
)
    requires
        k < plan_len(),
    ensures
        prefix_or_abort(
            run_from(SessionView { cfg: c, task, stage: StageView::Running(h, k) }, evs),
            plan_actions(c, task, h).skip(k + 1 as int),
        ),
    decreases evs.len(),
{
    let s = SessionView { cfg: c, task, stage: StageView::Running(h, k) };
    let exp = plan_actions(c, task, h).skip(k + 1 as int);
    if evs.len() > 0 {
        let e = evs[0];
        let rest = evs.drop_first();
        lemma_split_events(evs);
        lemma_run_cons(s, e, rest);
        let (s2, a) = next(s, e);
        if e is Completed {
            if k + 1 < plan_len() {
                lemma_running_follows_plan(c, task, h, k + 1, rest);
                assert(exp.drop_first() =~= plan_actions(c, task, h).skip(k + 2 as int));
                lemma_prefix_cons(a, run_from(s2, rest), exp);
            } else {
                assert(run_from(s2, rest) == Seq::<ActionView>::empty());
                assert(exp.drop_first() =~= Seq::<ActionView>::empty());
                lemma_prefix_cons(a, run_from(s2, rest), exp);
            }
        } else {
            assert(run_from(s2, rest) == Seq::<ActionView>::empty());
            assert(seq![a] + run_from(s2, rest) =~= seq![a]);
            lemma_abort_alone(a, exp);
        }
    }
}

/// Phases never run out of order, whatever the runtime answers. On any
/// sequence of answers, the actions of a run that began with the listing of
/// [`Session::new`] are a beginning of those of the successful run on the
/// same listing and the same new container, possibly ended by one abort:
/// nothing runs before the container is started, the second command never
/// before the first, and nothing follows a failure.
pub proof fn lemma_runs_follow_order(c: ConfigView, task: Task, evs: Seq<EventView>)
    ensures
        prefix_or_abort(
            run_from(initial(c, task), evs),
            success_actions(c, task, listed_in(evs), created_in(evs)),
        ),
{
    let s0 = initial(c, task);
    let found = listed_in(evs);
    let new_id = created_in(evs);
    let exp = success_actions(c, task, found, new_id);
    if evs.len() > 0 {
        let e = evs[0];
        let rest = evs.drop_first();
        lemma_split_events(evs);
        lemma_run_cons(s0, e, rest);
        let (s1, a) = next(s0, e);
        if e is Listed {
            let h = chosen_handle(found, new_id);
            let body = plan_actions(c, task, h);
            if found.len() > 0 {
                lemma_running_follows_plan(c, task, h, 0, rest);
                assert(body.skip(1) =~= body.drop_first());
                lemma_prefix_cons(a, run_from(s1, rest), exp);
            } else {
                assert(exp.drop_first() =~= body);
                if rest.len() > 0 {
                    let e2 = rest[0];
                    let rest2 = rest.drop_first();
                    lemma_split_events(rest);
                    lemma_run_cons(s1, e2, rest2);
                    let (s2, a2) = next(s1, e2);
                    if e2 is Created {
                        assert(new_id == e2->Created_0);
                        lemma_running_follows_plan(c, task, h, 0, rest2);
                        assert(body.skip(1) =~= body.drop_first());
                        lemma_prefix_cons(a2, run_from(s2, rest2), body);
                    } else {
                        assert(run_from(s2, rest2) == Seq::<ActionView>::empty());
                        assert(seq![a2] + run_from(s2, rest2) =~= seq![a2]);
                        lemma_abort_alone(a2, body);
                    }
                }
                lemma_prefix_cons(a, run_from(s1, rest), exp);
            }
        } else {
            assert(run_from(s1, rest) == Seq::<ActionView>::empty());
            assert(seq![a] + run_from(s1, rest) =~= seq![a]);
            lemma_abort_alone(a, exp);
        }
    }
}

proof fn lemma_run_plan(c: ConfigView, task: Task, h: Seq<char>)
    ensures
        ({
            let p = plan_of(c, task, h);
            let s = SessionView { cfg: c, task, stage: StageView::Running(h, 0) };
            run_from(
                s,
                seq![
                    EventView::Completed,
                    EventView::Completed,
                    EventView::Completed,
                    EventView::Completed,
                ],
            ) == seq![
                ActionView::Perform(p[1]),
                ActionView::Perform(p[2]),
                ActionView::Perform(p[3]),
                ActionView::Finish,
            ]
        }),
{
    let p = plan_of(c, task, h);
    let e = EventView::Completed;
    let s0 = SessionView { cfg: c, task, stage: StageView::Running(h, 0) };
    let s1 = SessionView { cfg: c, task, stage: StageView::Running(h, 1) };
    let s2 = SessionView { cfg: c, task, stage: StageView::Running(h, 2) };
    let s3 = SessionView { cfg: c, task, stage: StageView::Running(h, 3) };
    let s4 = SessionView { cfg: c, task, stage: StageView::Finished };
    assert(run_from(s4, seq![]) == Seq::<ActionView>::empty());
    lemma_run_cons(s3, e, seq![]);
    lemma_run_cons(s2, e, seq![e]);
    lemma_run_cons(s1, e, seq![e, e]);
    lemma_run_cons(s0, e, seq![e, e, e]);
    assert(seq![e] + seq![e, e, e] =~= seq![e, e, e, e]);
    assert(seq![e] + seq![e, e] =~= seq![e, e, e]);
    assert(seq![e] + seq![e] =~= seq![e, e]);
    assert(seq![e] + Seq::<EventView>::empty() =~= seq![e]);
    assert(run_from(s3, seq![e]) =~= seq![ActionView::Finish]);
    assert(run_from(s2, seq![e, e]) =~= seq![ActionView::Perform(p[3]), ActionView::Finish]);
    assert(run_from(s1, seq![e, e, e]) =~= seq![
        ActionView::Perform(p[2]),
        ActionView::Perform(p[3]),
        ActionView::Finish,
    ]);
    assert(run_from(s0, seq![e, e, e, e]) =~= seq![
        ActionView::Perform(p[1]),
        ActionView::Perform(p[2]),
        ActionView::Perform(p[3]),
        ActionView::Finish,
    ]);
}

/// Phases run in order. When every operation succeeds, a run that began with
/// the listing of [`Session::new`] asks for exactly: a creation where the
/// listing was empty, then start, the task's first command (configure, or
/// package index refresh), its second command (compile, or package install)
/// and stop, all on the container it settled on, and then ends successfully.
pub proof fn lemma_run_order(c: ConfigView, task: Task, found: Seq<Seq<char>>, new_id: Seq<char>)
    ensures
        run_from(initial(c, task), success_events(found, new_id)) == success_actions(
            c,
            task,
            found,
            new_id,
        ),
{
    let h = chosen_handle(found, new_id);
    let p = plan_of(c, task, h);
    let e = EventView::Completed;
    let done = seq![e, e, e, e];
    let tail = seq![
        ActionView::Perform(p[1]),
        ActionView::Perform(p[2]),
        ActionView::Perform(p[3]),
        ActionView::Finish,
    ];
    let s0 = initial(c, task);
    let running = SessionView { cfg: c, task, stage: StageView::Running(h, 0) };
    lemma_run_plan(c, task, h);
    if found.len() > 0 {
        lemma_run_cons(s0, EventView::Listed(found), done);
        assert(seq![ActionView::Perform(p[0])] + tail =~= success_actions(c, task, found, new_id));
    } else {
        let creating = SessionView { cfg: c, task, stage: StageView::Creating };
        lemma_run_cons(creating, EventView::Created(new_id), done);
        lemma_run_cons(s0, EventView::Listed(found), seq![EventView::Created(new_id)] + done);
        assert(seq![EventView::Listed(found)] + (seq![EventView::Created(new_id)] + done)
            =~= success_events(found, new_id));
        assert(seq![ActionView::Perform(OpView::Create(create_request_of(c)))] + (seq![
            ActionView::Perform(p[0]),
        ] + tail) =~= success_actions(c, task, found, new_id));
    }
}

/// Adoption is idempotent. Say a run for `c1` finds or creates its
/// container on the runtime `rt` (a creation puts the new container anywhere
/// in the runtime's order). A later run for `c2`, with the same image, source
/// and build directory, is then handed that same container by the listing,
/// and its next operation starts it: no second creation is asked for.
pub proof fn lemma_second_run_adopts(
    c1: ConfigView,
    c2: ConfigView,
    task: Task,
    rt: Seq<ContainerEntry>,
    at: int,
    new_id: Seq<char>,
)
    requires
        same_identity(c1, c2),
        0 <= at <= rt.len(),
    ensures
        ({
            let found1 = listed(rt, identity_labels(c1));
            let rt1 = if found1.len() > 0 {
                rt
            } else {
                rt.insert(at, ContainerEntry { id: new_id, labels: create_request_of(c1).labels })
            };
            let found2 = listed(rt1, identity_labels(c2));
            next(initial(c2, task), EventView::Listed(found2)).1 == ActionView::Perform(
                OpView::Start(chosen_handle(found1, new_id)),
            )
        }),
{
    lemma_adoption_idempotent(c1, c2, rt, at, new_id);
}

} // verus!
