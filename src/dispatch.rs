use vstd::prelude::*;
use crate::job::{JobRequest, JobModel, filtered, strings_view};
use crate::registry::{Registry, lookup};
use crate::wire::{encode_job, wire_text};

verus! {

/// How the handling of one message ended.
#[derive(Clone, Copy, Debug, PartialEq, Eq, Structural)]
pub enum Outcome {
    /// The message carried no receipt handle: it is neither deleted nor run.
    MissingReceipt,
    /// The body was absent or not a job request.
    Malformed,
    /// No command is registered under the requested name.
    UnknownCommand,
    /// The program was started.
    Executed,
    /// The program could not be started; the job went to the dead-letter queue.
    Reported,
    /// The program could not be started and the dead-letter send failed.
    ReportLost,
}

/// A message as the queue hands it over.
pub struct InboundMessage {
    pub receipt_handle: Option<String>,
    pub body: Option<String>,
}

pub struct MessageModel {
    pub receipt_handle: Option<Seq<char>>,
    pub body: Option<Seq<char>>,
}

pub open spec fn opt_view(o: Option<String>) -> Option<Seq<char>> {
    match o {
        Some(s) => Some(s@),
        None => None,
    }
}

impl View for InboundMessage {
    type V = MessageModel;

    open spec fn view(&self) -> MessageModel {
        MessageModel {
            receipt_handle: opt_view(self.receipt_handle),
            body: opt_view(self.body),
        }
    }
}

/// What the driver must do next for the message at hand.
pub enum Action {
    /// Delete the message from the source queue.
    Delete { receipt_handle: String },
    /// Decode the body into a job request and report the result.
    Decode { body: String },
    /// Start `program` with exactly `args` and report whether it started.
    Run { program: String, args: Vec<String> },
    /// Send `body` to the queue at `queue_url` and report whether it was sent.
    Report { queue_url: String, body: String },
    /// Nothing more is to be done for this message.
    Finish { outcome: Outcome },
}

pub enum ActionModel {
    Delete(Seq<char>),
    Decode(Seq<char>),
    Run(Seq<char>, Seq<Seq<char>>),
    Report(Seq<char>, Seq<char>),
    Finish(Outcome),
}

impl View for Action {
    type V = ActionModel;

    open spec fn view(&self) -> ActionModel {
        match self {
            Action::Delete { receipt_handle } => ActionModel::Delete(receipt_handle@),
            Action::Decode { body } => ActionModel::Decode(body@),
            Action::Run { program, args } => ActionModel::Run(program@, strings_view(args@)),
            Action::Report { queue_url, body } => ActionModel::Report(queue_url@, body@),
            Action::Finish { outcome } => ActionModel::Finish(*outcome),
        }
    }
}

/// What the driver observed while doing the last action.
pub enum Event {
    Deleted { ok: bool },
    Decoded { job: Option<JobRequest> },
    Spawned { ok: bool },
    Sent { ok: bool },
}

pub enum EventModel {
    Deleted(bool),
    Decoded(Option<JobModel>),
    Spawned(bool),
    Sent(bool),
}

impl View for Event {
    type V = EventModel;

    open spec fn view(&self) -> EventModel {
        match self {
            Event::Deleted { ok } => EventModel::Deleted(*ok),
            Event::Decoded { job } => EventModel::Decoded(
                match job {
                    Some(j) => Some(j@),
                    None => None,
                },
            ),
            Event::Spawned { ok } => EventModel::Spawned(*ok),
            Event::Sent { ok } => EventModel::Sent(*ok),
        }
    }
}

/// Where the handling of one message stands.
pub enum Stage {
    AwaitDelete { body: Option<String> },
    AwaitDecode,
    AwaitSpawn { job: JobRequest },
    AwaitSend,
    Done { outcome: Outcome },
}

pub enum StageModel {
    AwaitDelete(Option<Seq<char>>),
    AwaitDecode,
    AwaitSpawn(JobModel),
    AwaitSend,
    Done(Outcome),
}

impl View for Stage {
    type V = StageModel;

    open spec fn view(&self) -> StageModel {
        match self {
            Stage::AwaitDelete { body } => StageModel::AwaitDelete(opt_view(*body)),
            Stage::AwaitDecode => StageModel::AwaitDecode,
            Stage::AwaitSpawn { job } => StageModel::AwaitSpawn(job@),
            Stage::AwaitSend => StageModel::AwaitSend,
            Stage::Done { outcome } => StageModel::Done(*outcome),
        }
    }
}

/// The first stage and action for a freshly received message: delete it
/// before anything else, or give it up when it carries no receipt handle.
pub open spec fn start_spec(m: MessageModel) -> (StageModel, ActionModel) {
    match m.receipt_handle {
        None => (StageModel::Done(Outcome::MissingReceipt), ActionModel::Finish(Outcome::MissingReceipt)),
        Some(h) => (StageModel::AwaitDelete(m.body), ActionModel::Delete(h)),
    }
}

/// Whether `e` answers the action that led to stage `s`.
pub open spec fn accepts(s: StageModel, e: EventModel) -> bool {
    match (s, e) {
        (StageModel::AwaitDelete(_), EventModel::Deleted(_)) => true,
        (StageModel::AwaitDecode, EventModel::Decoded(_)) => true,
        (StageModel::AwaitSpawn(_), EventModel::Spawned(_)) => true,
        (StageModel::AwaitSend, EventModel::Sent(_)) => true,
        _ => false,
    }
}

pub open spec fn finish(o: Outcome) -> (StageModel, ActionModel) {
    (StageModel::Done(o), ActionModel::Finish(o))
}

/// One decision: from stage `s` and the observed event `e`, the next stage
/// and action. A failed delete does not stop the message; a spawn failure
/// sends the original, unfiltered job to `dlq`.
pub open spec fn step_spec(
    reg: Seq<crate::job::CommandModel>,
    dlq: Seq<char>,
    s: StageModel,
    e: EventModel,
) -> (StageModel, ActionModel) {
    match (s, e) {
        (StageModel::AwaitDelete(body), EventModel::Deleted(_)) => match body {
            None => finish(Outcome::Malformed),
            Some(b) => (StageModel::AwaitDecode, ActionModel::Decode(b)),
        },
        (StageModel::AwaitDecode, EventModel::Decoded(job)) => match job {
            None => finish(Outcome::Malformed),
            Some(j) => match lookup(reg, j.name) {
                None => finish(Outcome::UnknownCommand),
                Some(c) => (
                    StageModel::AwaitSpawn(j),
                    ActionModel::Run(c.program, filtered(j.args, c.allowed_args)),
                ),
            },
        },
        (StageModel::AwaitSpawn(j), EventModel::Spawned(ok)) => if ok {
            finish(Outcome::Executed)
        } else {
            (StageModel::AwaitSend, ActionModel::Report(dlq, wire_text(j)))
        },
        (StageModel::AwaitSend, EventModel::Sent(ok)) => if ok {
            finish(Outcome::Reported)
        } else {
            finish(Outcome::ReportLost)
        },
        _ => (s, ActionModel::Finish(Outcome::Malformed)),
    }
}

/// The actions taken from stage `s` on `events`, up to the first event that
/// does not answer the pending action.
pub open spec fn run(
    reg: Seq<crate::job::CommandModel>,
    dlq: Seq<char>,
    s: StageModel,
    events: Seq<EventModel>,
) -> Seq<ActionModel>
    decreases events.len(),
{
    if events.len() == 0 || !accepts(s, events[0]) {
        Seq::empty()
    } else {
        let (next, a) = step_spec(reg, dlq, s, events[0]);
        seq![a] + run(reg, dlq, next, events.drop_first())
    }
}

/// Every action taken for message `m` when the driver observes `events`.
pub open spec fn trace(
    reg: Seq<crate::job::CommandModel>,
    dlq: Seq<char>,
    m: MessageModel,
    events: Seq<EventModel>,
) -> Seq<ActionModel> {
    let (s, a) = start_spec(m);
    seq![a] + run(reg, dlq, s, events)
}

pub open spec fn is_job_work(a: ActionModel) -> bool {
    a is Run || a is Report
}

/// Every job that `events` hands over is absent or names no registered command.
pub open spec fn decodes_nothing_runnable(
    reg: Seq<crate::job::CommandModel>,
    events: Seq<EventModel>,
) -> bool {
    forall|i: int|
        #![trigger events[i]]
        0 <= i < events.len() ==> match events[i] {
            EventModel::Decoded(Some(j)) => lookup(reg, j.name) is None,
            _ => true,
        }
}

proof fn lemma_run_never_deletes(
    reg: Seq<crate::job::CommandModel>,
    dlq: Seq<char>,
    s: StageModel,
    events: Seq<EventModel>,
)
    ensures
        forall|i: int|
            0 <= i < run(reg, dlq, s, events).len() ==> !(run(reg, dlq, s, events)[i] is Delete),
    decreases events.len(),
{
    if events.len() > 0 && accepts(s, events[0]) {
        let (next, a) = step_spec(reg, dlq, s, events[0]);
        lemma_run_never_deletes(reg, dlq, next, events.drop_first());
        let r = run(reg, dlq, s, events);
        assert forall|i: int| 0 <= i < r.len() implies !(r[i] is Delete) by {
            if i > 0 {
                assert(r[i] == run(reg, dlq, next, events.drop_first())[i - 1]);
            }
        }
    }
}

proof fn lemma_run_no_job_work(
    reg: Seq<crate::job::CommandModel>,
    dlq: Seq<char>,
    s: StageModel,
    events: Seq<EventModel>,
)
    requires
        s is AwaitDelete || s is AwaitDecode || s is Done,
        decodes_nothing_runnable(reg, events),
    ensures
        forall|i: int|
            0 <= i < run(reg, dlq, s, events).len() ==> !is_job_work(
                run(reg, dlq, s, events)[i],
            ),
    decreases events.len(),
{
    if events.len() > 0 && accepts(s, events[0]) {
        let (next, a) = step_spec(reg, dlq, s, events[0]);
        let rest = events.drop_first();
        assert(decodes_nothing_runnable(reg, rest)) by {
            assert forall|i: int| #![trigger rest[i]] 0 <= i < rest.len() implies match rest[i] {
                EventModel::Decoded(Some(j)) => lookup(reg, j.name) is None,
                _ => true,
            } by {
                assert(rest[i] == events[i + 1]);
            }
        }
        lemma_run_no_job_work(reg, dlq, next, rest);
        let r = run(reg, dlq, s, events);
        assert forall|i: int| 0 <= i < r.len() implies !is_job_work(r[i]) by {
            if i > 0 {
                assert(r[i] == run(reg, dlq, next, rest)[i - 1]);
            }
        }
    }
}

/// A message with a receipt handle is deleted first, before it is decoded or
/// run, and never again, whatever the delete, the decoding, the program start
/// or the dead-letter send turn out to be.
pub proof fn lemma_deleted_exactly_once(
    reg: Seq<crate::job::CommandModel>,
    dlq: Seq<char>,
    m: MessageModel,
    events: Seq<EventModel>,
)
    requires
        m.receipt_handle is Some,
    ensures
        trace(reg, dlq, m, events)[0] == ActionModel::Delete(m.receipt_handle->0),
        forall|i: int|
            1 <= i < trace(reg, dlq, m, events).len() ==> !(trace(
                reg,
                dlq,
                m,
                events,
            )[i] is Delete),
{
    let (s, a) = start_spec(m);
    lemma_run_never_deletes(reg, dlq, s, events);
    let t = trace(reg, dlq, m, events);
    assert forall|i: int| 1 <= i < t.len() implies !(t[i] is Delete) by {
        assert(t[i] == run(reg, dlq, s, events)[i - 1]);
    }
}

/// A message without a receipt handle is given up at once: nothing is
/// deleted, decoded, run or reported for it.
pub proof fn lemma_missing_receipt_does_nothing(
    reg: Seq<crate::job::CommandModel>,
    dlq: Seq<char>,
    m: MessageModel,
    events: Seq<EventModel>,
)
    requires
        m.receipt_handle is None,
    ensures
        trace(reg, dlq, m, events) == seq![ActionModel::Finish(Outcome::MissingReceipt)],
{
    assert(run(reg, dlq, StageModel::Done(Outcome::MissingReceipt), events) =~= Seq::empty());
    assert(trace(reg, dlq, m, events) =~= seq![ActionModel::Finish(Outcome::MissingReceipt)]);
}

/// A job whose name is not registered is dropped: no program is started and
/// nothing is sent to the dead-letter queue.
pub proof fn lemma_unknown_command_runs_nothing(
    reg: Seq<crate::job::CommandModel>,
    dlq: Seq<char>,
    m: MessageModel,
    events: Seq<EventModel>,
)
    requires
        forall|i: int|
            0 <= i < events.len() && #[trigger] events[i] is Decoded ==> match events[i] {
                EventModel::Decoded(Some(j)) => lookup(reg, j.name) is None,
                _ => false,
            },
    ensures
        forall|i: int|
            0 <= i < trace(reg, dlq, m, events).len() ==> !is_job_work(
                trace(reg, dlq, m, events)[i],
            ),
{
    lemma_trace_no_job_work(reg, dlq, m, events);
}

/// A body that does not decode to a job request ends the message: no program
/// is started, nothing is sent to the dead-letter queue, and the handling is
/// over right after the decoding.
pub proof fn lemma_malformed_body_reports_nothing(
    reg: Seq<crate::job::CommandModel>,
    dlq: Seq<char>,
    m: MessageModel,
    events: Seq<EventModel>,
)
    requires
        forall|i: int|
            0 <= i < events.len() && #[trigger] events[i] is Decoded ==> events[i]
                == EventModel::Decoded(None),
    ensures
        forall|i: int|
            0 <= i < trace(reg, dlq, m, events).len() ==> !is_job_work(
                trace(reg, dlq, m, events)[i],
            ),
        m.receipt_handle is Some && m.body is Some && events.len() >= 2 && events[0] is Deleted
            && events[1] is Decoded ==> trace(reg, dlq, m, events) == seq![
                ActionModel::Delete(m.receipt_handle->0),
                ActionModel::Decode(m.body->0),
                ActionModel::Finish(Outcome::Malformed),
            ],
{
    lemma_trace_no_job_work(reg, dlq, m, events);
    if m.receipt_handle is Some && m.body is Some && events.len() >= 2 && events[0] is Deleted
        && events[1] is Decoded {
        let e1 = events.drop_first();
        let e2 = e1.drop_first();
        assert(e1[0] == events[1]);
        assert(run(reg, dlq, StageModel::Done(Outcome::Malformed), e2) =~= Seq::empty());
        assert(run(reg, dlq, StageModel::AwaitDecode, e1) =~= seq![
            ActionModel::Finish(Outcome::Malformed),
        ]);
        assert(trace(reg, dlq, m, events) =~= seq![
            ActionModel::Delete(m.receipt_handle->0),
            ActionModel::Decode(m.body->0),
            ActionModel::Finish(Outcome::Malformed),
        ]);
    }
}

proof fn lemma_trace_no_job_work(
    reg: Seq<crate::job::CommandModel>,
    dlq: Seq<char>,
    m: MessageModel,
    events: Seq<EventModel>,
)
    requires
        decodes_nothing_runnable(reg, events),
    ensures
        forall|i: int|
            0 <= i < trace(reg, dlq, m, events).len() ==> !is_job_work(
                trace(reg, dlq, m, events)[i],
            ),
{
    let (s, a) = start_spec(m);
    lemma_run_no_job_work(reg, dlq, s, events);
    let t = trace(reg, dlq, m, events);
    assert forall|i: int| 0 <= i < t.len() implies !is_job_work(t[i]) by {
        if i > 0 {
            assert(t[i] == run(reg, dlq, s, events)[i - 1]);
        }
    }
}

/// When a registered program cannot be started, it was offered only the
/// whitelisted arguments, and the job sent to the dead-letter queue is the
/// original request, unfiltered, in the wire form.
pub proof fn lemma_spawn_failure_reports_original(
    reg: Seq<crate::job::CommandModel>,
    dlq: Seq<char>,
    m: MessageModel,
    events: Seq<EventModel>,
    j: JobModel,
)
    requires
        m.receipt_handle is Some,
        m.body is Some,
        events.len() >= 3,
        events[0] is Deleted,
        events[1] == EventModel::Decoded(Some(j)),
        events[2] == EventModel::Spawned(false),
        lookup(reg, j.name) is Some,
    ensures
        trace(reg, dlq, m, events).len() >= 4,
        trace(reg, dlq, m, events)[2] == ActionModel::Run(
            lookup(reg, j.name)->0.program,
            filtered(j.args, lookup(reg, j.name)->0.allowed_args),
        ),
        trace(reg, dlq, m, events)[3] == ActionModel::Report(dlq, wire_text(j)),
{
    let e1 = events.drop_first();
    let e2 = e1.drop_first();
    let e3 = e2.drop_first();
    assert(e1[0] == events[1]);
    assert(e2[0] == events[2]);
    let c = lookup(reg, j.name)->0;
    let r3 = run(reg, dlq, StageModel::AwaitSend, e3);
    assert(run(reg, dlq, StageModel::AwaitSpawn(j), e2) == seq![
        ActionModel::Report(dlq, wire_text(j)),
    ] + r3);
    assert(run(reg, dlq, StageModel::AwaitDecode, e1) == seq![
        ActionModel::Run(c.program, filtered(j.args, c.allowed_args)),
    ] + run(reg, dlq, StageModel::AwaitSpawn(j), e2));
    let t = trace(reg, dlq, m, events);
    assert(t == seq![ActionModel::Delete(m.receipt_handle->0)] + run(
        reg,
        dlq,
        StageModel::AwaitDelete(m.body),
        events,
    ));
    assert(run(reg, dlq, StageModel::AwaitDelete(m.body), events) == seq![
        ActionModel::Decode(m.body->0),
    ] + run(reg, dlq, StageModel::AwaitDecode, e1));
}

/// The handling of one message.
pub struct Dispatch {
    pub stage: Stage,
}

impl Dispatch {
    /// Begins handling `msg`.
    pub fn start(msg: &InboundMessage) -> (r: (Dispatch, Action))
        ensures
            (r.0.stage@, r.1@) == start_spec(msg@),
    {
        match &msg.receipt_handle {
            None => (
                Dispatch { stage: Stage::Done { outcome: Outcome::MissingReceipt } },
                Action::Finish { outcome: Outcome::MissingReceipt },
            ),
            Some(h) => (
                Dispatch { stage: Stage::AwaitDelete { body: msg.body.clone() } },
                Action::Delete { receipt_handle: h.clone() },
            ),
        }
    }

    /// Whether the handling of the message is over.
    pub fn is_done(&self) -> (r: bool)
        ensures
            r == (self.stage@ is Done),
    {
        match self.stage {
            Stage::Done { .. } => true,
            _ => false,
        }
    }

    /// Whether `event` answers the pending action.
    pub fn accepts(&self, event: &Event) -> (r: bool)
        ensures
            r == accepts(self.stage@, event@),
    {
        match (&self.stage, event) {
            (Stage::AwaitDelete { .. }, Event::Deleted { .. }) => true,
            (Stage::AwaitDecode, Event::Decoded { .. }) => true,
            (Stage::AwaitSpawn { .. }, Event::Spawned { .. }) => true,
            (Stage::AwaitSend, Event::Sent { .. }) => true,
            _ => false,
        }
    }

    /// Takes the decision that follows `event`.
    pub fn step(self, registry: &Registry, dead_letter_url: &String, event: Event) -> (r: (
        Dispatch,
        Action,
    ))
        requires
            registry.wf(),
            accepts(self.stage@, event@),
        ensures
            (r.0.stage@, r.1@) == step_spec(registry@, dead_letter_url@, self.stage@, event@),
    {
        let done = |o: Outcome| -> (p: (Dispatch, Action))
            ensures
                (p.0.stage@, p.1@) == finish(o),
            { (Dispatch { stage: Stage::Done { outcome: o } }, Action::Finish { outcome: o }) };
        match (self.stage, event) {
            (Stage::AwaitDelete { body }, Event::Deleted { .. }) => match body {
                None => done(Outcome::Malformed),
                Some(b) => (Dispatch { stage: Stage::AwaitDecode }, Action::Decode { body: b }),
            },
            (Stage::AwaitDecode, Event::Decoded { job }) => match job {
                None => done(Outcome::Malformed),
                Some(j) => match registry.find(&j.name) {
                    None => done(Outcome::UnknownCommand),
                    Some(c) => {
                        let args = c.filter_args(&j.args);
                        let program = c.program.clone();
                        (Dispatch { stage: Stage::AwaitSpawn { job: j } }, Action::Run { program, args })
                    },
                },
            },
            (Stage::AwaitSpawn { job }, Event::Spawned { ok }) => if ok {
                done(Outcome::Executed)
            } else {
                let body = encode_job(&job);
                let queue_url = dead_letter_url.clone();
                (Dispatch { stage: Stage::AwaitSend }, Action::Report { queue_url, body })
            },
            (Stage::AwaitSend, Event::Sent { ok }) => if ok {
                done(Outcome::Reported)
            } else {
                done(Outcome::ReportLost)
            },
            _ => {
                proof {
                    assert(false);
                }
                done(Outcome::Malformed)
            },
        }
    }
}

} // verus!
