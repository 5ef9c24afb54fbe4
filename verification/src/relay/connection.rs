//! One connection, from dialling to its end.
//!
//! The caller owns the socket. It hands in what arrives, carries out the actions
//! that come back, in order, and stops when one of them ends the connection.

use vstd::prelude::*;
use vstd::string::*;

use crate::engineio;
use crate::engineio::{frame_view, frame_words, Incoming, IncomingView};
use crate::error::joined;
use crate::json::{
    found_under, json_quoted, json_texts, lemma_found_at, object_text, tree_members, tree_text, Json,
    Tree,
};
use crate::relay::{
    job_of, PrintJob, PrintJobView, EV_PRINT_JOB, HANDSHAKE_TIMEOUT, NAMESPACE,
};
use crate::text;
use crate::text::decimal;

verus! {

/// Why a connection ended. The distinction drives the backoff.
#[derive(Debug)]
pub enum Ended {
    /// Socket closed, server unreachable, protocol hiccup. Retry soon.
    Transport(String),
    /// The server refused the token. Retry slowly and tell the operator.
    Rejected(String),
}

/// Why a connection ended.
pub enum EndedView {
    Transport(Seq<char>),
    Rejected(Seq<char>),
}

impl View for Ended {
    type V = EndedView;

    open spec fn view(&self) -> EndedView {
        match *self {
            Ended::Transport(m) => EndedView::Transport(m@),
            Ended::Rejected(m) => EndedView::Rejected(m@),
        }
    }
}

/// How far a connection has got. Times are in milliseconds.
#[derive(Debug, Clone, Copy, PartialEq, Eq, Structural)]
pub enum Phase {
    /// The socket is being opened.
    Dialing,
    /// The OPEN packet has to come first.
    AwaitOpen,
    /// The greeting, which asks for the namespace, is being sent.
    Greeting { silence_limit: u64 },
    /// The namespace has been asked for, and has until `deadline` to answer.
    /// Nothing else may be sent before it does.
    AwaitJoin { silence_limit: u64, deadline: u64 },
    /// In the room.
    Live { silence_limit: u64 },
    Over,
}

/// What happened on the socket.
#[derive(Debug)]
pub enum Arrival {
    /// The socket is open.
    Dialed,
    DialFailed(String),
    /// A text frame.
    Frame(String),
    /// The socket was closed, by a close frame or without one.
    Closed,
    NetworkError(String),
    /// Nothing came for `waited` milliseconds, the limit there was.
    Silent { waited: u64 },
    /// The greeting is on its way.
    GreetingSent,
    /// The greeting could not be sent.
    GreetingNotSent(String),
    /// The answer to a heartbeat could not be sent.
    HeartbeatNotSent(String),
}

/// What happened on the socket.
pub enum ArrivalView {
    Dialed,
    DialFailed(Seq<char>),
    Frame(Seq<char>),
    Closed,
    NetworkError(Seq<char>),
    Silent { waited: u64 },
    GreetingSent,
    GreetingNotSent(Seq<char>),
    HeartbeatNotSent(Seq<char>),
}

impl View for Arrival {
    type V = ArrivalView;

    open spec fn view(&self) -> ArrivalView {
        match *self {
            Arrival::Dialed => ArrivalView::Dialed,
            Arrival::DialFailed(e) => ArrivalView::DialFailed(e@),
            Arrival::Frame(f) => ArrivalView::Frame(f@),
            Arrival::Closed => ArrivalView::Closed,
            Arrival::NetworkError(e) => ArrivalView::NetworkError(e@),
            Arrival::Silent { waited } => ArrivalView::Silent { waited },
            Arrival::GreetingSent => ArrivalView::GreetingSent,
            Arrival::GreetingNotSent(e) => ArrivalView::GreetingNotSent(e@),
            Arrival::HeartbeatNotSent(e) => ArrivalView::HeartbeatNotSent(e@),
        }
    }
}

/// What to do.
#[derive(Debug)]
pub enum Action {
    /// Send the greeting.
    Greet(String),
    /// Send the answer to a heartbeat.
    Pong(String),
    /// The namespace took us in: report it, start the presence beat.
    Join,
    /// Put a job in the print queue.
    Queue(PrintJob),
    /// Send the packet that leaves the namespace.
    Leave(String),
    /// The connection is over.
    End(Ended),
}

/// What to do.
pub enum ActionView {
    Greet(Seq<char>),
    Pong(Seq<char>),
    Join,
    Queue(PrintJobView),
    Leave(Seq<char>),
    End(EndedView),
}

impl View for Action {
    type V = ActionView;

    open spec fn view(&self) -> ActionView {
        match *self {
            Action::Greet(f) => ActionView::Greet(f@),
            Action::Pong(f) => ActionView::Pong(f@),
            Action::Join => ActionView::Join,
            Action::Queue(job) => ActionView::Queue(job@),
            Action::Leave(f) => ActionView::Leave(f@),
            Action::End(e) => ActionView::End(e@),
        }
    }
}

/// What a list of actions says.
pub open spec fn actions_view(actions: Seq<Action>) -> Seq<ActionView> {
    actions.map_values(|a: Action| a@)
}

// ── What is to be done ──────────────────────────────────────────────────

/// The greeting of a station with this token.
pub open spec fn greeting(token: Seq<char>) -> Seq<char> {
    "40"@ + NAMESPACE@ + ","@ + object_text(seq![("stationToken"@, json_quoted(token))])
}

/// The packet that leaves the namespace.
pub open spec fn farewell() -> Seq<char> {
    "41"@ + NAMESPACE@ + ","@
}

/// The jobs that the arguments of an event hold, in order. An argument that is
/// no job is passed over.
pub open spec fn jobs_in(args: Seq<Seq<char>>) -> Seq<PrintJobView>
    decreases args.len(),
{
    if args.len() == 0 {
        Seq::empty()
    } else {
        match job_of(args.last()) {
            Some(job) => jobs_in(args.drop_last()).push(job),
            None => jobs_in(args.drop_last()),
        }
    }
}

/// How long the server may be silent: its heartbeat period and its grace.
pub open spec fn silence_limit_of(ping_interval: u64, ping_timeout: u64) -> u64 {
    if ping_interval + ping_timeout <= u64::MAX {
        (ping_interval + ping_timeout) as u64
    } else {
        u64::MAX
    }
}

/// The sentence for a server that went quiet.
pub open spec fn silence_text(waited: u64) -> Seq<char> {
    "sin señal del servidor durante "@ + decimal((waited / 1000) as nat) + " s"@
}

/// One step of a connection: what comes next and what is to be done.
pub type Step = (Phase, Seq<ActionView>);

/// The connection ends, before it was live.
pub open spec fn fails(message: Seq<char>) -> Step {
    (Phase::Over, seq![ActionView::End(EndedView::Transport(message))])
}

/// The connection ends while it is live: the namespace is left politely first.
pub open spec fn leaves(ended: EndedView) -> Step {
    (Phase::Over, seq![ActionView::Leave(farewell()), ActionView::End(ended)])
}

/// A step while the socket is being opened.
pub open spec fn step_dialing(arrival: ArrivalView) -> Step {
    match arrival {
        ArrivalView::Dialed => (Phase::AwaitOpen, Seq::empty()),
        ArrivalView::DialFailed(e) => fails("no se pudo conectar: "@ + e),
        _ => (Phase::Dialing, Seq::empty()),
    }
}

/// A step while the OPEN packet is awaited.
pub open spec fn step_await_open(token: Seq<char>, arrival: ArrivalView) -> Step {
    match arrival {
        ArrivalView::Frame(frame) => match frame_view(frame) {
            IncomingView::Open(open) => (
                Phase::Greeting {
                    silence_limit: silence_limit_of(open.ping_interval, open.ping_timeout),
                },
                seq![ActionView::Greet(greeting(token))],
            ),
            _ => fails(
                "el servidor no abrió una sesión Engine.IO (recibido: "@ + frame_words(frame) + ")"@,
            ),
        },
        ArrivalView::Closed => fails("el servidor cerró antes del saludo"@),
        ArrivalView::NetworkError(e) => fails("error de red: "@ + e),
        ArrivalView::Silent { waited } => fails(silence_text(waited)),
        _ => (Phase::AwaitOpen, Seq::empty()),
    }
}

/// A step while the greeting is being sent. The namespace has the whole of its
/// time from the moment it is.
pub open spec fn step_greeting(silence_limit: u64, arrival: ArrivalView, now: u64) -> Step {
    match arrival {
        ArrivalView::GreetingSent => (
            Phase::AwaitJoin {
                silence_limit,
                deadline: if now + HANDSHAKE_TIMEOUT <= u64::MAX {
                    (now + HANDSHAKE_TIMEOUT) as u64
                } else {
                    u64::MAX
                },
            },
            Seq::empty(),
        ),
        ArrivalView::GreetingNotSent(e) => fails("no se pudo enviar el saludo: "@ + e),
        _ => (Phase::Greeting { silence_limit }, Seq::empty()),
    }
}

/// A step while the answer of the namespace is awaited.
pub open spec fn step_await_join(silence_limit: u64, deadline: u64, arrival: ArrivalView) -> Step {
    let stay = Phase::AwaitJoin { silence_limit, deadline };
    match arrival {
        ArrivalView::Frame(frame) => match frame_view(frame) {
            IncomingView::Connected { namespace, .. } => if namespace == NAMESPACE@ {
                (Phase::Live { silence_limit }, seq![ActionView::Join])
            } else {
                (stay, Seq::empty())
            },
            IncomingView::ConnectError { message, .. } => (
                Phase::Over,
                seq![ActionView::End(EndedView::Rejected(message))],
            ),
            IncomingView::Ping => (stay, seq![ActionView::Pong("3"@)]),
            IncomingView::Close => fails("el servidor cerró durante el saludo"@),
            _ => (stay, Seq::empty()),
        },
        ArrivalView::Closed => fails("el servidor cerró la conexión sin aceptar la estación"@),
        ArrivalView::NetworkError(e) => fails("error de red: "@ + e),
        ArrivalView::Silent { waited } => fails(silence_text(waited)),
        ArrivalView::HeartbeatNotSent(e) => fails("no se pudo responder al latido: "@ + e),
        _ => (stay, Seq::empty()),
    }
}

/// A step in the room.
pub open spec fn step_live(silence_limit: u64, arrival: ArrivalView) -> Step {
    let stay = Phase::Live { silence_limit };
    match arrival {
        ArrivalView::Frame(frame) => match frame_view(frame) {
            IncomingView::Ping => (stay, seq![ActionView::Pong("3"@)]),
            IncomingView::Event { namespace, name, args } => if namespace == NAMESPACE@ && name
                == EV_PRINT_JOB@ {
                (stay, jobs_in(args).map_values(|job: PrintJobView| ActionView::Queue(job)))
            } else {
                (stay, Seq::empty())
            },
            IncomingView::ConnectError { message, .. } => leaves(EndedView::Rejected(message)),
            IncomingView::Disconnected { .. } => leaves(
                EndedView::Transport("el servidor desvinculó la estación"@),
            ),
            IncomingView::Close => leaves(EndedView::Transport("el servidor cerró la conexión"@)),
            _ => (stay, Seq::empty()),
        },
        ArrivalView::Closed => leaves(EndedView::Transport("la conexión se cerró"@)),
        ArrivalView::NetworkError(e) => leaves(EndedView::Transport("error de red: "@ + e)),
        ArrivalView::Silent { waited } => leaves(EndedView::Transport(silence_text(waited))),
        ArrivalView::HeartbeatNotSent(_) => leaves(
            EndedView::Transport("el escritor del socket se cerró"@),
        ),
        _ => (stay, Seq::empty()),
    }
}

/// One step of a connection of the station with this token.
pub open spec fn step_of(phase: Phase, token: Seq<char>, arrival: ArrivalView, now: u64) -> Step {
    match phase {
        Phase::Dialing => step_dialing(arrival),
        Phase::AwaitOpen => step_await_open(token, arrival),
        Phase::Greeting { silence_limit } => step_greeting(silence_limit, arrival, now),
        Phase::AwaitJoin { silence_limit, deadline } => step_await_join(
            silence_limit,
            deadline,
            arrival,
        ),
        Phase::Live { silence_limit } => step_live(silence_limit, arrival),
        Phase::Over => (Phase::Over, Seq::empty()),
    }
}

// ── The connection ──────────────────────────────────────────────────────

/// A connection of the station with a given token.
#[derive(Debug)]
pub struct Connection {
    phase: Phase,
    token: String,
}

/// What a step comes to.
pub open spec fn is_step(phase: Phase, actions: Seq<Action>, step: Step) -> bool {
    phase == step.0 && actions_view(actions) == step.1
}

fn one_action(action: Action) -> (r: Vec<Action>)
    ensures
        actions_view(r@) == seq![action@],
{
    let mut actions: Vec<Action> = Vec::new();
    actions.push(action);
    assert(actions_view(actions@) =~= seq![action@]);
    actions
}

fn no_action() -> (r: Vec<Action>)
    ensures
        actions_view(r@) == Seq::<ActionView>::empty(),
{
    let actions: Vec<Action> = Vec::new();
    assert(actions_view(actions@) =~= Seq::<ActionView>::empty());
    actions
}

fn fail_with(message: String) -> (r: (Phase, Vec<Action>))
    ensures
        is_step(r.0, r.1@, fails(message@)),
{
    (Phase::Over, one_action(Action::End(Ended::Transport(message))))
}

fn leave_with(ended: Ended) -> (r: (Phase, Vec<Action>))
    ensures
        is_step(r.0, r.1@, leaves(ended@)),
{
    let mut actions: Vec<Action> = Vec::new();
    actions.push(Action::Leave(engineio::disconnect_packet(NAMESPACE)));
    actions.push(Action::End(ended));
    assert(actions_view(actions@) =~= leaves(ended@).1);
    (Phase::Over, actions)
}

fn silence_sentence(waited: u64) -> (r: String)
    ensures
        r@ == silence_text(waited),
{
    let mut out = joined("sin señal del servidor durante ", text::number(waited / 1000).as_str());
    out.append(" s");
    out
}

/// The actions that put the jobs among these arguments in the queue.
fn queue_jobs(args: &Vec<Json>) -> (r: Vec<Action>)
    ensures
        actions_view(r@) == jobs_in(json_texts(args@)).map_values(
            |job: PrintJobView| ActionView::Queue(job),
        ),
{
    let ghost all = json_texts(args@);
    let ghost queue = |job: PrintJobView| ActionView::Queue(job);
    let mut actions: Vec<Action> = Vec::new();
    let mut i: usize = 0;
    proof {
        assert(all.take(0) =~= Seq::<Seq<char>>::empty());
        assert(actions_view(actions@) =~= jobs_in(all.take(0)).map_values(queue));
    }
    while i < args.len()
        invariant
            i <= args.len(),
            all == json_texts(args@),
            actions_view(actions@) == jobs_in(all.take(i as int)).map_values(queue),
            queue == (|job: PrintJobView| ActionView::Queue(job)),
        decreases args.len() - i,
    {
        let ghost before = actions@;
        proof {
            assert(all.take(i + 1).drop_last() =~= all.take(i as int));
            assert(all.take(i + 1).last() == args@[i as int]@);
        }
        match PrintJob::from_json(&args[i]) {
            Some(job) => {
                actions.push(Action::Queue(job));
                proof {
                    assert(actions_view(actions@) =~= actions_view(before).push(
                        ActionView::Queue(job@),
                    ));
                    assert(jobs_in(all.take(i + 1)).map_values(queue) =~= jobs_in(
                        all.take(i as int),
                    ).map_values(queue).push(ActionView::Queue(job@)));
                }
            },
            None => {},
        }
        i += 1;
    }
    assert(all.take(i as int) =~= all);
    actions
}

fn on_dialing(arrival: Arrival) -> (r: (Phase, Vec<Action>))
    ensures
        is_step(r.0, r.1@, step_dialing(arrival@)),
{
    match arrival {
        Arrival::Dialed => (Phase::AwaitOpen, no_action()),
        Arrival::DialFailed(e) => fail_with(joined("no se pudo conectar: ", e.as_str())),
        _ => (Phase::Dialing, no_action()),
    }
}

fn on_await_open(token: &str, arrival: Arrival) -> (r: (Phase, Vec<Action>))
    ensures
        is_step(r.0, r.1@, step_await_open(token@, arrival@)),
{
    match arrival {
        Arrival::Frame(frame) => match engineio::parse(frame.as_str()) {
            Incoming::Open(open) => {
                let mut members: Vec<(String, Json)> = Vec::new();
                members.push(("stationToken".to_string(), Json::string(token)));
                assert(members@.map_values(|m: (String, Json)| (m.0@, m.1@)) =~= seq![
                    ("stationToken"@, json_quoted(token@)),
                ]);
                let greeting: String = engineio::connect_packet(NAMESPACE, &Json::object(&members));
                (
                    Phase::Greeting {
                        silence_limit: open.ping_interval.saturating_add(open.ping_timeout),
                    },
                    one_action(Action::Greet(greeting)),
                )
            },
            _ => {
                let mut message = joined(
                    "el servidor no abrió una sesión Engine.IO (recibido: ",
                    engineio::describe(frame.as_str()).as_str(),
                );
                message.append(")");
                fail_with(message)
            },
        },
        Arrival::Closed => fail_with("el servidor cerró antes del saludo".to_string()),
        Arrival::NetworkError(e) => fail_with(joined("error de red: ", e.as_str())),
        Arrival::Silent { waited } => fail_with(silence_sentence(waited)),
        _ => (Phase::AwaitOpen, no_action()),
    }
}

fn on_greeting(silence_limit: u64, arrival: Arrival, now: u64) -> (r: (Phase, Vec<Action>))
    ensures
        is_step(r.0, r.1@, step_greeting(silence_limit, arrival@, now)),
{
    match arrival {
        Arrival::GreetingSent => (
            Phase::AwaitJoin { silence_limit, deadline: now.saturating_add(HANDSHAKE_TIMEOUT) },
            no_action(),
        ),
        Arrival::GreetingNotSent(e) => fail_with(
            joined("no se pudo enviar el saludo: ", e.as_str()),
        ),
        _ => (Phase::Greeting { silence_limit }, no_action()),
    }
}

fn on_await_join(silence_limit: u64, deadline: u64, arrival: Arrival) -> (r: (Phase, Vec<Action>))
    ensures
        is_step(r.0, r.1@, step_await_join(silence_limit, deadline, arrival@)),
{
    let stay = Phase::AwaitJoin { silence_limit, deadline };
    match arrival {
        Arrival::Frame(frame) => match engineio::parse(frame.as_str()) {
            Incoming::Connected { namespace, .. } => {
                if text::same(namespace.as_str(), NAMESPACE) {
                    (Phase::Live { silence_limit }, one_action(Action::Join))
                } else {
                    (stay, no_action())
                }
            },
            Incoming::ConnectError { message, .. } => (
                Phase::Over,
                one_action(Action::End(Ended::Rejected(message))),
            ),
            Incoming::Ping => (stay, one_action(Action::Pong(engineio::pong().to_string()))),
            Incoming::Close => fail_with("el servidor cerró durante el saludo".to_string()),
            _ => (stay, no_action()),
        },
        Arrival::Closed => fail_with(
            "el servidor cerró la conexión sin aceptar la estación".to_string(),
        ),
        Arrival::NetworkError(e) => fail_with(joined("error de red: ", e.as_str())),
        Arrival::Silent { waited } => fail_with(silence_sentence(waited)),
        Arrival::HeartbeatNotSent(e) => fail_with(
            joined("no se pudo responder al latido: ", e.as_str()),
        ),
        _ => (stay, no_action()),
    }
}

fn on_live(silence_limit: u64, arrival: Arrival) -> (r: (Phase, Vec<Action>))
    ensures
        is_step(r.0, r.1@, step_live(silence_limit, arrival@)),
{
    let stay = Phase::Live { silence_limit };
    match arrival {
        Arrival::Frame(frame) => match engineio::parse(frame.as_str()) {
            Incoming::Ping => (stay, one_action(Action::Pong(engineio::pong().to_string()))),
            Incoming::Event { namespace, name, args } => {
                if text::same(namespace.as_str(), NAMESPACE) && text::same(
                    name.as_str(),
                    EV_PRINT_JOB,
                ) {
                    (stay, queue_jobs(&args))
                } else {
                    (stay, no_action())
                }
            },
            Incoming::ConnectError { message, .. } => leave_with(Ended::Rejected(message)),
            Incoming::Disconnected { .. } => leave_with(
                Ended::Transport("el servidor desvinculó la estación".to_string()),
            ),
            Incoming::Close => leave_with(
                Ended::Transport("el servidor cerró la conexión".to_string()),
            ),
            _ => (stay, no_action()),
        },
        Arrival::Closed => leave_with(Ended::Transport("la conexión se cerró".to_string())),
        Arrival::NetworkError(e) => leave_with(
            Ended::Transport(joined("error de red: ", e.as_str())),
        ),
        Arrival::Silent { waited } => leave_with(Ended::Transport(silence_sentence(waited))),
        Arrival::HeartbeatNotSent(_) => leave_with(
            Ended::Transport("el escritor del socket se cerró".to_string()),
        ),
        _ => (stay, no_action()),
    }
}

impl Connection {
    pub closed spec fn phase_view(&self) -> Phase {
        self.phase
    }

    pub closed spec fn token_view(&self) -> Seq<char> {
        self.token@
    }

    /// A connection that is about to be dialled.
    pub fn new(token: String) -> (r: Connection)
        ensures
            r.phase_view() == Phase::Dialing,
            r.token_view() == token@,
    {
        Connection { phase: Phase::Dialing, token }
    }

    pub fn phase(&self) -> (r: Phase)
        ensures
            r == self.phase_view(),
    {
        self.phase
    }

    /// How long to wait for the next frame, in milliseconds.
    pub fn limit(&self, now: u64) -> (r: u64)
        ensures
            r == (match self.phase_view() {
                Phase::AwaitJoin { deadline, .. } => if deadline > now {
                    deadline - now
                } else {
                    0
                },
                Phase::Live { silence_limit } => silence_limit as int,
                _ => HANDSHAKE_TIMEOUT as int,
            }),
    {
        match self.phase {
            Phase::AwaitJoin { deadline, .. } => deadline.saturating_sub(now),
            Phase::Live { silence_limit } => silence_limit,
            _ => HANDSHAKE_TIMEOUT,
        }
    }

    /// Takes what happened on the socket at the moment `now`, and says what to
    /// do about it.
    pub fn step(&mut self, arrival: Arrival, now: u64) -> (r: Vec<Action>)
        ensures
            is_step(
                final(self).phase_view(),
                r@,
                step_of(old(self).phase_view(), old(self).token_view(), arrival@, now),
            ),
            final(self).token_view() == old(self).token_view(),
    {
        let (phase, actions) = match self.phase {
            Phase::Dialing => on_dialing(arrival),
            Phase::AwaitOpen => on_await_open(self.token.as_str(), arrival),
            Phase::Greeting { silence_limit } => on_greeting(silence_limit, arrival, now),
            Phase::AwaitJoin { silence_limit, deadline } => on_await_join(
                silence_limit,
                deadline,
                arrival,
            ),
            Phase::Live { silence_limit } => on_live(silence_limit, arrival),
            Phase::Over => (Phase::Over, no_action()),
        };
        self.phase = phase;
        actions
    }
}

// ── Laws ────────────────────────────────────────────────────────────────

/// Connected means that the namespace said so: the relay joins the room, and a
/// connection becomes live, exactly on the ack of its own namespace, and only
/// while that is awaited. An open socket is not enough.
pub proof fn law_connected_means_acked(phase: Phase, token: Seq<char>, arrival: ArrivalView, now: u64)
    ensures
        ({
            let (next, actions) = step_of(phase, token, arrival, now);
            let acked = phase is AwaitJoin && (arrival matches ArrivalView::Frame(frame) && (
            frame_view(frame) matches IncomingView::Connected { namespace, .. } && namespace
                == NAMESPACE@));
            &&& actions.contains(ActionView::Join) == acked
            &&& (next is Live && !(phase is Live)) == acked
        }),
{
    let (next, actions) = step_of(phase, token, arrival, now);
    let acked = phase is AwaitJoin && (arrival matches ArrivalView::Frame(frame) && (frame_view(
        frame,
    ) matches IncomingView::Connected { namespace, .. } && namespace == NAMESPACE@));
    if acked {
        assert(actions[0] == ActionView::Join);
    }
}

/// Until the namespace has acked, nothing is sent but the greeting and the
/// answers to heartbeats, and no job is taken.
pub proof fn law_nothing_is_sent_before_the_ack(
    phase: Phase,
    token: Seq<char>,
    arrival: ArrivalView,
    now: u64,
    i: int,
)
    requires
        !(phase is Live),
        0 <= i < step_of(phase, token, arrival, now).1.len(),
    ensures
        ({
            let action = step_of(phase, token, arrival, now).1[i];
            action is Greet || action is Pong || action is Join || action is End
        }),
{
}

/// The namespace has the whole of its time to answer, from the moment the
/// greeting is sent and not before.
pub proof fn law_the_deadline_runs_from_the_greeting(
    phase: Phase,
    token: Seq<char>,
    arrival: ArrivalView,
    now: u64,
)
    requires
        now + HANDSHAKE_TIMEOUT <= u64::MAX,
    ensures
        ({
            let next = step_of(phase, token, arrival, now).0;
            next is AwaitJoin && !(phase is AwaitJoin) ==> phase is Greeting && arrival is GreetingSent
                && next->AwaitJoin_deadline == now + HANDSHAKE_TIMEOUT
        }),
        phase is AwaitJoin && step_of(phase, token, arrival, now).0 is AwaitJoin ==> step_of(
            phase,
            token,
            arrival,
            now,
        ).0 == phase,
{
}

/// Every heartbeat is answered, from the moment the namespace has been asked
/// for, and changes nothing else.
pub proof fn law_every_heartbeat_is_answered(
    phase: Phase,
    token: Seq<char>,
    frame: Seq<char>,
    now: u64,
)
    requires
        phase is AwaitJoin || phase is Live,
        frame_view(frame) is Ping,
    ensures
        step_of(phase, token, ArrivalView::Frame(frame), now) == (
            phase,
            seq![ActionView::Pong("3"@)],
        ),
{
}

/// A connection that was live ends by leaving the namespace, and then ends; a
/// connection that is over does nothing any more.
pub proof fn law_a_live_connection_leaves_before_it_ends(
    silence_limit: u64,
    token: Seq<char>,
    arrival: ArrivalView,
    now: u64,
)
    ensures
        ({
            let (next, actions) = step_of(Phase::Live { silence_limit }, token, arrival, now);
            next is Over ==> actions.len() == 2 && actions[0] == ActionView::Leave(farewell())
                && actions[1] is End
        }),
        step_of(Phase::Over, token, arrival, now) == (Phase::Over, Seq::<ActionView>::empty()),
{
}

/// A connection ends exactly when its last action says so.
pub proof fn law_an_end_is_announced(phase: Phase, token: Seq<char>, arrival: ArrivalView, now: u64)
    requires
        !(phase is Over),
    ensures
        ({
            let (next, actions) = step_of(phase, token, arrival, now);
            next is Over <==> actions.len() > 0 && actions.last() is End
        }),
{
}

/// The server's word alone refuses a token: a connection ends as rejected only
/// on a frame in which the server refuses the namespace.
pub proof fn law_only_the_server_rejects(
    phase: Phase,
    token: Seq<char>,
    arrival: ArrivalView,
    now: u64,
    message: Seq<char>,
)
    requires
        step_of(phase, token, arrival, now).1.contains(
            ActionView::End(EndedView::Rejected(message)),
        ),
    ensures
        arrival matches ArrivalView::Frame(frame) && (frame_view(
            frame,
        ) matches IncomingView::ConnectError { message: m, .. } && m == message),
{
}

/// What a connection comes to after everything that happened on its socket, each
/// with its moment, and all that was to be done on the way.
pub open spec fn run_of(token: Seq<char>, history: Seq<(ArrivalView, u64)>) -> Step
    decreases history.len(),
{
    if history.len() == 0 {
        (Phase::Dialing, Seq::empty())
    } else {
        let (phase, done) = run_of(token, history.drop_last());
        let (next, actions) = step_of(phase, token, history.last().0, history.last().1);
        (next, done + actions)
    }
}

/// A list of actions in a sound order: jobs are taken and the namespace is left
/// only after it was joined, it is joined and the connection ended at most once,
/// and nothing follows the end.
pub open spec fn orderly(actions: Seq<ActionView>) -> bool {
    &&& forall|j: int|
        0 <= j < actions.len() && (#[trigger] actions[j] is Queue || actions[j] is Leave)
            ==> joined_before(actions, j)
    &&& forall|i: int, j: int|
        0 <= i < j < actions.len() ==> !(#[trigger] actions[i] is Join && #[trigger] actions[j] is Join)
    &&& forall|i: int| 0 <= i < actions.len() - 1 ==> !(#[trigger] actions[i] is End)
}

/// The namespace was joined before the action `j`.
pub open spec fn joined_before(actions: Seq<ActionView>, j: int) -> bool {
    exists|i: int| 0 <= i < j && #[trigger] actions[i] is Join
}

/// Whatever happens on the socket, and in whatever order, what a connection does
/// is in a sound order: no job is taken and no farewell sent before the
/// namespace acked, and nothing is done after the end.
pub proof fn law_a_connection_is_orderly(token: Seq<char>, history: Seq<(ArrivalView, u64)>)
    ensures
        orderly(run_of(token, history).1),
        run_of(token, history).0 is Over <==> run_of(token, history).1.len() > 0 && run_of(
            token,
            history,
        ).1.last() is End,
{
    lemma_run(token, history);
}

proof fn lemma_run(token: Seq<char>, history: Seq<(ArrivalView, u64)>)
    ensures
        ({
            let (phase, done) = run_of(token, history);
            &&& orderly(done)
            &&& (phase is Over) == (done.len() > 0 && done.last() is End)
            &&& phase is Live ==> joined_before(done, done.len() as int)
            &&& !(phase is Live || phase is Over) ==> !joined_before(done, done.len() as int)
            &&& !(phase is Over) ==> forall|i: int|
                0 <= i < done.len() ==> !(#[trigger] done[i] is End)
        }),
    decreases history.len(),
{
    if history.len() > 0 {
        lemma_run(token, history.drop_last());
        let (phase, done) = run_of(token, history.drop_last());
        let (arrival, now) = history.last();
        let (next, actions) = step_of(phase, token, arrival, now);
        let all = done + actions;
        assert(run_of(token, history) == (next, all));
        if phase is Over {
            assert(all =~= done);
        } else {
            lemma_step_shape(phase, token, arrival, now);
            let n = done.len() as int;
            assert forall|j: int|
                0 <= j < all.len() && (#[trigger] all[j] is Queue || all[j] is Leave) implies joined_before(
                all,
                j,
            ) by {
                if j < n {
                    assert(all[j] == done[j]);
                    let i = choose|i: int| 0 <= i < j && #[trigger] done[i] is Join;
                    assert(all[i] is Join);
                } else {
                    assert(actions[j - n] == all[j]);
                    let i = choose|i: int| 0 <= i < n && #[trigger] done[i] is Join;
                    assert(all[i] is Join);
                }
            }
            assert forall|i: int, j: int| 0 <= i < j < all.len() implies !(#[trigger] all[i] is Join
                && #[trigger] all[j] is Join) by {
                if i < n {
                    assert(all[i] == done[i]);
                    if j < n {
                        assert(all[j] == done[j]);
                    } else {
                        assert(all[j] == actions[j - n]);
                    }
                } else {
                    assert(all[i] == actions[i - n]);
                    assert(all[j] == actions[j - n]);
                }
            }
            assert forall|i: int| 0 <= i < all.len() - 1 implies !(#[trigger] all[i] is End) by {
                if i < n {
                    assert(all[i] == done[i]);
                } else {
                    assert(all[i] == actions[i - n]);
                }
            }
            if next is Live {
                if phase is Live {
                    let i = choose|i: int| 0 <= i < n && #[trigger] done[i] is Join;
                    assert(all[i] is Join);
                } else {
                    assert(all[n] == actions[0]);
                }
            }
            if !(next is Live || next is Over) && joined_before(all, all.len() as int) {
                let i = choose|i: int| 0 <= i < all.len() && #[trigger] all[i] is Join;
                if i < n {
                    assert(done[i] is Join);
                } else {
                    assert(actions[i - n] is Join);
                }
            }
            if !(next is Over) {
                assert forall|i: int| 0 <= i < all.len() implies !(#[trigger] all[i] is End) by {
                    if i < n {
                        assert(all[i] == done[i]);
                    } else {
                        assert(all[i] == actions[i - n]);
                    }
                }
            } else {
                assert(all.last() == actions.last());
            }
        }
    }
}

proof fn lemma_step_shape(phase: Phase, token: Seq<char>, arrival: ArrivalView, now: u64)
    requires
        !(phase is Over),
    ensures
        ({
            let (next, actions) = step_of(phase, token, arrival, now);
            &&& (phase is Live) ==> (next is Live || next is Over)
            &&& forall|i: int|
                0 <= i < actions.len() && (#[trigger] actions[i] is Queue || actions[i] is Leave)
                    ==> phase is Live
            &&& forall|i: int|
                0 <= i < actions.len() && #[trigger] actions[i] is Join ==> i == 0 && actions.len()
                    == 1 && next is Live && !(phase is Live)
            &&& forall|i: int|
                0 <= i < actions.len() && #[trigger] actions[i] is End ==> i == actions.len() - 1
                    && next is Over
            &&& next is Over ==> actions.len() > 0 && actions.last() is End
            &&& next is Live && !(phase is Live) ==> actions.len() == 1 && actions[0] is Join
        }),
{
}

/// Every job of an event is queued, in the order of the arguments; an argument that
/// is no job is passed over, and takes none of the others with it.
pub proof fn law_every_job_is_queued_in_order(a: Seq<Seq<char>>, b: Seq<Seq<char>>)
    ensures
        jobs_in(a + b) == jobs_in(a) + jobs_in(b),
        forall|arg: Seq<char>| #[trigger]
            jobs_in(seq![arg]) == (match job_of(arg) {
                Some(job) => seq![job],
                None => Seq::empty(),
            }),
    decreases b.len(),
{
    if b.len() == 0 {
        assert(a + b =~= a);
        assert(jobs_in(a) + jobs_in(b) =~= jobs_in(a));
    } else {
        assert((a + b).drop_last() =~= a + b.drop_last());
        law_every_job_is_queued_in_order(a, b.drop_last());
        assert(jobs_in(a + b) =~= jobs_in(a) + jobs_in(b));
    }
    assert forall|arg: Seq<char>| #[trigger]
        jobs_in(seq![arg]) == (match job_of(arg) {
            Some(job) => seq![job],
            None => Seq::empty(),
        }) by {
        assert(seq![arg].drop_last() =~= Seq::<Seq<char>>::empty());
        assert(jobs_in(seq![arg].drop_last()) =~= Seq::<PrintJobView>::empty());
        assert(jobs_in(seq![arg]) =~= (match job_of(arg) {
            Some(job) => seq![job],
            None => Seq::empty(),
        }));
    }
}

/// In the room, a print-job event of our namespace queues its jobs and nothing else;
/// any other event changes nothing.
pub proof fn law_only_our_events_bring_jobs(
    silence_limit: u64,
    token: Seq<char>,
    frame: Seq<char>,
    now: u64,
)
    requires
        frame_view(frame) is Event,
    ensures
        ({
            let (next, actions) = step_of(
                Phase::Live { silence_limit },
                token,
                ArrivalView::Frame(frame),
                now,
            );
            &&& next == (Phase::Live { silence_limit })
            &&& frame_view(frame) matches IncomingView::Event { namespace, name, args }
            &&& if namespace == "/print"@ && name == "print-job"@ {
                &&& actions.len() == jobs_in(args).len()
                &&& forall|i: int|
                    0 <= i < actions.len() ==> (#[trigger] actions[i]) == ActionView::Queue(
                        jobs_in(args)[i],
                    )
            } else {
                actions.len() == 0
            }
        }),
{
}

/// The server may be silent for its heartbeat period and its grace, together; a
/// connection lives by what its OPEN packet said, all the way.
pub proof fn law_the_silence_is_what_the_server_said(ping_interval: u64, ping_timeout: u64)
    ensures
        ping_interval + ping_timeout <= u64::MAX ==> silence_limit_of(ping_interval, ping_timeout)
            == ping_interval + ping_timeout,
        silence_limit_of(ping_interval, ping_timeout) >= ping_interval,
        silence_limit_of(ping_interval, ping_timeout) >= ping_timeout,
{
}

/// An OPEN packet is answered with the greeting that carries the station token, and
/// the silence it allows is kept from there on.
pub proof fn law_an_open_packet_is_greeted(
    token: Seq<char>,
    frame: Seq<char>,
    now: u64,
    later: u64,
)
    requires
        frame_view(frame) is Open,
    ensures
        ({
            let (next, actions) = step_of(
                Phase::AwaitOpen,
                token,
                ArrivalView::Frame(frame),
                now,
            );
            &&& frame_view(frame) matches IncomingView::Open(open)
            &&& next == (Phase::Greeting {
                silence_limit: silence_limit_of(open.ping_interval, open.ping_timeout),
            })
            &&& actions.len() == 1
            &&& actions[0] == ActionView::Greet(greeting(token))
            &&& step_of(next, token, ArrivalView::GreetingSent, later).0 matches Phase::AwaitJoin {
                silence_limit,
                ..
            } && silence_limit == next->Greeting_silence_limit
        }),
        forall|silence_limit: u64, deadline: u64, ack: Seq<char>|
            (#[trigger] step_of(
                Phase::AwaitJoin { silence_limit, deadline },
                token,
                ArrivalView::Frame(ack),
                now,
            )).0 is Live ==> step_of(
                Phase::AwaitJoin { silence_limit, deadline },
                token,
                ArrivalView::Frame(ack),
                now,
            ).0 == (Phase::Live { silence_limit }),
{
}

/// What a reader finds in the greeting: the station token, for our namespace.
pub proof fn law_the_greeting_carries_the_token(token: Seq<char>)
    ensures
        exists|members: Seq<(Seq<char>, Tree)>|
            {
                &&& members.len() == 1
                &&& found_under(members, "stationToken"@) == Some(Tree::Text(token))
                &&& greeting(token) == "40"@ + "/print"@ + ","@ + #[trigger] tree_text(
                    Tree::Record(members),
                )
            },
{
    let members = seq![("stationToken"@, Tree::Text(token))];
    lemma_found_at(members, 0);
    assert(tree_members(members) =~= seq![("stationToken"@, json_quoted(token))]);
    assert(greeting(token) == "40"@ + "/print"@ + ","@ + tree_text(Tree::Record(members)));
}

/// Trouble on the socket ends the connection wherever it had got to, and says what
/// it was; while the namespace refuses, its own words are passed on.
pub proof fn law_trouble_ends_a_connection(phase: Phase, token: Seq<char>, e: Seq<char>, now: u64)
    requires
        phase is AwaitOpen || phase is AwaitJoin || phase is Live,
    ensures
        ({
            let (next, actions) = step_of(phase, token, ArrivalView::NetworkError(e), now);
            &&& next is Over
            &&& actions.len() > 0
            &&& actions.last() matches ActionView::End(EndedView::Transport(m)) && exists|
                head: Seq<char>,
            | m == #[trigger] (head + e)
        }),
        step_of(phase, token, ArrivalView::Closed, now).0 is Over,
        forall|waited: u64|
            (#[trigger] step_of(phase, token, ArrivalView::Silent { waited }, now)).0 is Over,
        forall|frame: Seq<char>|
            (phase is AwaitJoin || phase is Live) && frame_view(frame) is ConnectError ==> {
                let (next, actions) = #[trigger] step_of(
                    phase,
                    token,
                    ArrivalView::Frame(frame),
                    now,
                );
                next is Over && actions.last() == ActionView::End(
                    EndedView::Rejected(frame_view(frame)->ConnectError_message),
                )
            },
{
    let head = "error de red: "@;
    assert(head + e == head + e);
}

/// Only an OPEN packet opens a session: any other frame in its place ends the
/// connection, as trouble and not as a refusal, and so does a socket that cannot be
/// opened, whose reason is passed on.
pub proof fn law_only_an_open_packet_opens(token: Seq<char>, frame: Seq<char>, e: Seq<char>, now: u64)
    ensures
        !(frame_view(frame) is Open) ==> {
            let (next, actions) = step_of(Phase::AwaitOpen, token, ArrivalView::Frame(frame), now);
            next is Over && actions.len() == 1 && (actions[0] matches ActionView::End(ended)
                && ended is Transport)
        },
        ({
            let (next, actions) = step_of(Phase::Dialing, token, ArrivalView::DialFailed(e), now);
            next is Over && actions.len() == 1 && (actions[0] matches ActionView::End(
                EndedView::Transport(m),
            ) && exists|head: Seq<char>| m == #[trigger] (head + e))
        }),
        step_of(Phase::Dialing, token, ArrivalView::Dialed, now) == (
            Phase::AwaitOpen,
            Seq::<ActionView>::empty(),
        ),
        forall|silence_limit: u64|
            ({
                let (next, actions) = #[trigger] step_of(
                    Phase::Greeting { silence_limit },
                    token,
                    ArrivalView::GreetingNotSent(e),
                    now,
                );
                next is Over && actions.len() == 1 && (actions[0] matches ActionView::End(
                    EndedView::Transport(m),
                ) && exists|head: Seq<char>| m == #[trigger] (head + e))
            }),
{
    let dial = "no se pudo conectar: "@;
    assert(dial + e == dial + e);
    let greet = "no se pudo enviar el saludo: "@;
    assert(greet + e == greet + e);
}

/// The server's goodbye ends the connection: a close, at any time once it has been
/// greeted, and leaving the room, while in it. So does a heartbeat that cannot be
/// answered.
pub proof fn law_a_goodbye_ends_a_connection(phase: Phase, token: Seq<char>, frame: Seq<char>, now: u64)
    requires
        phase is AwaitJoin || phase is Live,
    ensures
        frame_view(frame) is Close ==> step_of(
            phase,
            token,
            ArrivalView::Frame(frame),
            now,
        ).0 is Over,
        phase is Live && frame_view(frame) is Disconnected ==> step_of(
            phase,
            token,
            ArrivalView::Frame(frame),
            now,
        ).0 is Over,
        forall|e: Seq<char>|
            (#[trigger] step_of(phase, token, ArrivalView::HeartbeatNotSent(e), now)).0 is Over,
{
}

/// The words for a silence say how long it was, in seconds.
pub proof fn law_a_silence_is_told_in_seconds(waited: u64)
    ensures
        exists|head: Seq<char>, end: Seq<char>|
            silence_text(waited) == #[trigger] (head + decimal((waited / 1000) as nat) + end),
{
    let head = "sin señal del servidor durante "@;
    let end = " s"@;
    assert(silence_text(waited) == head + decimal((waited / 1000) as nat) + end);
}

/// What happens and what is done mean what they hold.
pub proof fn law_events_mean_what_they_hold(arrival: Arrival, action: Action, ended: Ended)
    ensures
        match arrival {
            Arrival::Dialed => arrival@ is Dialed,
            Arrival::DialFailed(e) => arrival@ == ArrivalView::DialFailed(e@),
            Arrival::Frame(f) => arrival@ == ArrivalView::Frame(f@),
            Arrival::Closed => arrival@ is Closed,
            Arrival::NetworkError(e) => arrival@ == ArrivalView::NetworkError(e@),
            Arrival::Silent { waited } => arrival@ == (ArrivalView::Silent { waited }),
            Arrival::GreetingSent => arrival@ is GreetingSent,
            Arrival::GreetingNotSent(e) => arrival@ == ArrivalView::GreetingNotSent(e@),
            Arrival::HeartbeatNotSent(e) => arrival@ == ArrivalView::HeartbeatNotSent(e@),
        },
        match action {
            Action::Greet(f) => action@ == ActionView::Greet(f@),
            Action::Pong(f) => action@ == ActionView::Pong(f@),
            Action::Join => action@ is Join,
            Action::Queue(job) => action@ == ActionView::Queue(job@),
            Action::Leave(f) => action@ == ActionView::Leave(f@),
            Action::End(e) => action@ == ActionView::End(e@),
        },
        match ended {
            Ended::Transport(m) => ended@ == EndedView::Transport(m@),
            Ended::Rejected(m) => ended@ == EndedView::Rejected(m@),
        },
{
}

} // verus!
