//! The life of one request as a state machine. The machine decides; the
//! caller does the work that the machine asks for (consulting the admission
//! controller, reading the query, resolving the name, sending the answer)
//! and reports back with the matching event.

use vstd::prelude::*;
use crate::address::IpAddress;
use crate::admission::Decision;
use crate::envelope::HttpStatus;
use crate::handler::{
    failed, failed_reply, missing_domain, missing_domain_reply, outcome_view, reply_for, resolved,
    resolved_reply, validate, Outcome, Reply, ReplyView, ResolutionRequest,
};

verus! {

/// Where a request stands.
#[derive(Debug)]
pub enum RequestState {
    /// Arrived; admission not yet decided.
    Received,
    /// Let through by the admission controller.
    Admitted,
    /// Turned away by the admission controller.
    Rejected,
    /// The handler is looking for the `domain` parameter.
    Validating,
    /// The request names a domain.
    Valid { request: ResolutionRequest },
    /// The request names no domain.
    Invalid,
    /// The lookup is under way.
    Resolving { request: ResolutionRequest },
    /// The lookup yielded addresses.
    Resolved { request: ResolutionRequest, addresses: Vec<IpAddress> },
    /// The lookup failed.
    Failed { reason: String },
    /// The answer is out. Nothing follows.
    Responded { status: HttpStatus },
}

/// What the caller reports to the machine.
#[derive(Debug)]
pub enum Event {
    /// Nothing happened outside; the machine may take its next step.
    Proceed,
    /// The admission controller has decided.
    Decided(Decision),
    /// The query was read: the value of its `domain` parameter, if it has one.
    Query(Option<String>),
    /// The resolver has finished.
    Answered(Outcome),
}

/// An answer to the client.
#[derive(Debug)]
pub enum Answer {
    /// Status and envelope, from the handler.
    Enveloped(Reply),
    /// 429 from the admission layer, whose body is not an envelope.
    Throttled,
}

/// What the machine asks the caller to do next.
#[derive(Debug)]
pub enum Action {
    /// Consult the admission controller and report `Event::Decided`.
    Decide,
    /// Nothing to do outside; report `Event::Proceed`.
    Continue,
    /// Read the `domain` parameter and report `Event::Query`.
    ReadQuery,
    /// Resolve `domain` and report `Event::Answered`.
    Resolve { domain: String },
    /// Send this answer; the request is over.
    Send(Answer),
    /// The request was over before this step.
    Done,
}

/// A `RequestState` as a mathematical value.
pub enum StateView {
    Received,
    Admitted,
    Rejected,
    Validating,
    Valid { domain: Seq<char> },
    Invalid,
    Resolving { domain: Seq<char> },
    Resolved { domain: Seq<char>, addresses: Seq<IpAddress> },
    Failed { reason: Seq<char> },
    Responded { status: HttpStatus },
}

/// An `Event` as a mathematical value.
pub enum EventView {
    Proceed,
    Decided(Decision),
    Query(Option<Seq<char>>),
    Answered(Result<Seq<IpAddress>, Seq<char>>),
}

/// An `Answer` as a mathematical value.
pub enum AnswerView {
    Enveloped(ReplyView),
    Throttled,
}

/// An `Action` as a mathematical value.
pub enum ActionView {
    Decide,
    Continue,
    ReadQuery,
    Resolve { domain: Seq<char> },
    Send(AnswerView),
    Done,
}

impl View for RequestState {
    type V = StateView;

    open spec fn view(&self) -> StateView {
        match *self {
            RequestState::Received => StateView::Received,
            RequestState::Admitted => StateView::Admitted,
            RequestState::Rejected => StateView::Rejected,
            RequestState::Validating => StateView::Validating,
            RequestState::Valid { request } => StateView::Valid { domain: request.domain@ },
            RequestState::Invalid => StateView::Invalid,
            RequestState::Resolving { request } => StateView::Resolving {
                domain: request.domain@,
            },
            RequestState::Resolved { request, addresses } => StateView::Resolved {
                domain: request.domain@,
                addresses: addresses@,
            },
            RequestState::Failed { reason } => StateView::Failed { reason: reason@ },
            RequestState::Responded { status } => StateView::Responded { status },
        }
    }
}

impl View for Event {
    type V = EventView;

    open spec fn view(&self) -> EventView {
        match *self {
            Event::Proceed => EventView::Proceed,
            Event::Decided(decision) => EventView::Decided(decision),
            Event::Query(domain) => EventView::Query(
                match domain {
                    Some(name) => Some(name@),
                    None => None,
                },
            ),
            Event::Answered(outcome) => EventView::Answered(outcome_view(outcome)),
        }
    }
}

impl View for Answer {
    type V = AnswerView;

    open spec fn view(&self) -> AnswerView {
        match *self {
            Answer::Enveloped(reply) => AnswerView::Enveloped(reply@),
            Answer::Throttled => AnswerView::Throttled,
        }
    }
}

impl View for Action {
    type V = ActionView;

    open spec fn view(&self) -> ActionView {
        match *self {
            Action::Decide => ActionView::Decide,
            Action::Continue => ActionView::Continue,
            Action::ReadQuery => ActionView::ReadQuery,
            Action::Resolve { domain } => ActionView::Resolve { domain: domain@ },
            Action::Send(answer) => ActionView::Send(answer@),
            Action::Done => ActionView::Done,
        }
    }
}

impl AnswerView {
    /// The HTTP status that the answer goes out with.
    pub open spec fn status(self) -> HttpStatus {
        match self {
            AnswerView::Enveloped(reply) => reply.status,
            AnswerView::Throttled => HttpStatus::TooManyRequests,
        }
    }
}

impl Answer {
    /// The HTTP status that the answer goes out with.
    pub fn status(&self) -> (s: HttpStatus)
        ensures
            s == self@.status(),
    {
        match self {
            Answer::Enveloped(reply) => reply.status(),
            Answer::Throttled => HttpStatus::TooManyRequests,
        }
    }
}

/// What a state is waiting for: the action that the caller is to perform
/// before the state can be left.
pub open spec fn awaited(state: StateView) -> ActionView {
    match state {
        StateView::Received => ActionView::Decide,
        StateView::Validating => ActionView::ReadQuery,
        StateView::Resolving { domain } => ActionView::Resolve { domain },
        StateView::Responded { .. } => ActionView::Done,
        _ => ActionView::Continue,
    }
}

/// One step of the machine: the state after `event` has been reported in
/// `state`, and the action that the caller is asked to perform next. An
/// event that the state is not waiting for changes nothing, and the machine
/// asks again for what it waits for.
pub open spec fn step(state: StateView, event: EventView) -> (StateView, ActionView) {
    match (state, event) {
        (StateView::Received, EventView::Decided(Decision::Admit)) => (
            StateView::Admitted,
            ActionView::Continue,
        ),
        (StateView::Received, EventView::Decided(Decision::Reject)) => (
            StateView::Rejected,
            ActionView::Continue,
        ),
        (StateView::Admitted, EventView::Proceed) => (
            StateView::Validating,
            ActionView::ReadQuery,
        ),
        (StateView::Rejected, EventView::Proceed) => (
            StateView::Responded { status: HttpStatus::TooManyRequests },
            ActionView::Send(AnswerView::Throttled),
        ),
        (StateView::Validating, EventView::Query(Some(domain))) => (
            StateView::Valid { domain },
            ActionView::Continue,
        ),
        (StateView::Validating, EventView::Query(None)) => (
            StateView::Invalid,
            ActionView::Continue,
        ),
        (StateView::Valid { domain }, EventView::Proceed) => (
            StateView::Resolving { domain },
            ActionView::Resolve { domain },
        ),
        (StateView::Invalid, EventView::Proceed) => (
            StateView::Responded { status: HttpStatus::BadRequest },
            ActionView::Send(AnswerView::Enveloped(missing_domain_reply())),
        ),
        (StateView::Resolving { domain }, EventView::Answered(Ok(addresses))) => (
            StateView::Resolved { domain, addresses },
            ActionView::Continue,
        ),
        (StateView::Resolving { domain }, EventView::Answered(Err(reason))) => (
            StateView::Failed { reason },
            ActionView::Continue,
        ),
        (StateView::Resolved { domain, addresses }, EventView::Proceed) => (
            StateView::Responded { status: HttpStatus::Success },
            ActionView::Send(AnswerView::Enveloped(resolved_reply(domain, addresses))),
        ),
        (StateView::Failed { reason }, EventView::Proceed) => (
            StateView::Responded { status: HttpStatus::BadGateway },
            ActionView::Send(AnswerView::Enveloped(failed_reply(reason))),
        ),
        _ => (state, awaited(state)),
    }
}

/// Advances a request by one step. See [`step`].
pub fn advance(state: RequestState, event: Event) -> (next: (RequestState, Action))
    ensures
        (next.0@, next.1@) == step(state@, event@),
{
    match (state, event) {
        (RequestState::Received, Event::Decided(Decision::Admit)) => (
            RequestState::Admitted,
            Action::Continue,
        ),
        (RequestState::Received, Event::Decided(Decision::Reject)) => (
            RequestState::Rejected,
            Action::Continue,
        ),
        (RequestState::Admitted, Event::Proceed) => (RequestState::Validating, Action::ReadQuery),
        (RequestState::Rejected, Event::Proceed) => (
            RequestState::Responded { status: HttpStatus::TooManyRequests },
            Action::Send(Answer::Throttled),
        ),
        (RequestState::Validating, Event::Query(domain)) => match validate(domain) {
            Ok(request) => (RequestState::Valid { request }, Action::Continue),
            Err(_) => (RequestState::Invalid, Action::Continue),
        },
        (RequestState::Valid { request }, Event::Proceed) => {
            let domain = request.domain.clone();
            (RequestState::Resolving { request }, Action::Resolve { domain })
        },
        (RequestState::Invalid, Event::Proceed) => {
            let reply = missing_domain();
            (
                RequestState::Responded { status: reply.status() },
                Action::Send(Answer::Enveloped(reply)),
            )
        },
        (RequestState::Resolving { request }, Event::Answered(Ok(addresses))) => (
            RequestState::Resolved { request, addresses },
            Action::Continue,
        ),
        (RequestState::Resolving { request: _ }, Event::Answered(Err(reason))) => (
            RequestState::Failed { reason },
            Action::Continue,
        ),
        (RequestState::Resolved { request, addresses }, Event::Proceed) => {
            let reply = resolved(request, addresses);
            (
                RequestState::Responded { status: reply.status() },
                Action::Send(Answer::Enveloped(reply)),
            )
        },
        (RequestState::Failed { reason }, Event::Proceed) => {
            let reply = failed(reason);
            (
                RequestState::Responded { status: reply.status() },
                Action::Send(Answer::Enveloped(reply)),
            )
        },
        (RequestState::Received, _) => (RequestState::Received, Action::Decide),
        (RequestState::Validating, _) => (RequestState::Validating, Action::ReadQuery),
        (RequestState::Resolving { request }, _) => {
            let domain = request.domain.clone();
            (RequestState::Resolving { request }, Action::Resolve { domain })
        },
        (RequestState::Responded { status }, _) => (
            RequestState::Responded { status },
            Action::Done,
        ),
        (state, _) => (state, Action::Continue),
    }
}

/// How far along its life a request is in `state`.
pub open spec fn rank(state: StateView) -> nat {
    match state {
        StateView::Received => 0,
        StateView::Admitted => 1,
        StateView::Rejected => 1,
        StateView::Validating => 2,
        StateView::Valid { .. } => 3,
        StateView::Invalid => 3,
        StateView::Resolving { .. } => 4,
        StateView::Resolved { .. } => 5,
        StateView::Failed { .. } => 5,
        StateView::Responded { .. } => 6,
    }
}

/// No request revisits an earlier state: a step either moves the request
/// strictly further along, or leaves it where it is and asks again for what
/// the state waits for.
pub proof fn lemma_step_moves_forward(state: StateView, event: EventView)
    ensures
        step(state, event).0 == state || rank(step(state, event).0) > rank(state),
        step(state, event).0 == state ==> step(state, event).1 == awaited(state),
{
}

/// The responded states are the terminal ones: no event leads out of them,
/// and every other state is left by some event.
pub proof fn lemma_responded_is_terminal(state: StateView)
    ensures
        state is Responded ==> forall|event: EventView| #[trigger]
            step(state, event) == (state, ActionView::Done),
        !(state is Responded) ==> exists|event: EventView| #[trigger]
            step(state, event).0 != state,
{
    match state {
        StateView::Received => {
            assert(step(state, EventView::Decided(Decision::Admit)).0 != state);
        },
        StateView::Validating => {
            assert(step(state, EventView::Query(None)).0 != state);
        },
        StateView::Resolving { .. } => {
            assert(step(state, EventView::Answered(Ok(Seq::empty()))).0 != state);
        },
        StateView::Responded { .. } => {},
        _ => {
            assert(step(state, EventView::Proceed).0 != state);
        },
    }
}

/// An answer is sent exactly on entering a responded state, and that state
/// records the status with which the answer goes out.
pub proof fn lemma_answer_on_responding(state: StateView, event: EventView)
    ensures
        step(state, event).1 is Send <==> !(state is Responded) && step(
            state,
            event,
        ).0 is Responded,
        step(state, event).1 matches ActionView::Send(answer) ==> step(state, event).0
            == (StateView::Responded { status: answer.status() }),
{
}

/// What lies outside the machine during one request: the verdict of the
/// admission controller, the query's `domain` parameter, and what the
/// resolver says if it is asked.
pub struct Surroundings {
    pub decision: Decision,
    pub domain: Option<Seq<char>>,
    pub outcome: Result<Seq<IpAddress>, Seq<char>>,
}

/// The event with which the caller answers `action` in the given
/// surroundings.
pub open spec fn report(world: Surroundings, action: ActionView) -> EventView {
    match action {
        ActionView::Decide => EventView::Decided(world.decision),
        ActionView::ReadQuery => EventView::Query(world.domain),
        ActionView::Resolve { .. } => EventView::Answered(world.outcome),
        _ => EventView::Proceed,
    }
}

/// The actions that the machine asks for, in order, when it is driven from
/// `state` with `event` for at most `steps` steps, each action answered as
/// `report` says. The sequence ends with the action that ends the request.
pub open spec fn actions(
    world: Surroundings,
    state: StateView,
    event: EventView,
    steps: nat,
) -> Seq<ActionView>
    decreases steps,
{
    if steps == 0 {
        Seq::empty()
    } else {
        let (next, action) = step(state, event);
        match action {
            ActionView::Send(_) | ActionView::Done => seq![action],
            _ => seq![action] + actions(world, next, report(world, action), (steps - 1) as nat),
        }
    }
}

/// The longest life of a request, in steps.
pub open spec fn longest_life() -> nat {
    7
}

/// The actions that a request is owed from its arrival on. A rejected
/// request is answered without the handler being reached; a request without
/// a domain is answered without a lookup; otherwise the resolver is asked
/// for exactly the domain that the query named, and its verdict decides the
/// answer.
pub open spec fn life(world: Surroundings) -> Seq<ActionView> {
    match world.decision {
        Decision::Reject => seq![
            ActionView::Decide,
            ActionView::Continue,
            ActionView::Send(AnswerView::Throttled),
        ],
        Decision::Admit => match world.domain {
            None => seq![
                ActionView::Decide,
                ActionView::Continue,
                ActionView::ReadQuery,
                ActionView::Continue,
                ActionView::Send(AnswerView::Enveloped(reply_for(None, world.outcome))),
            ],
            Some(domain) => seq![
                ActionView::Decide,
                ActionView::Continue,
                ActionView::ReadQuery,
                ActionView::Continue,
                ActionView::Resolve { domain },
                ActionView::Continue,
                ActionView::Send(AnswerView::Enveloped(reply_for(Some(domain), world.outcome))),
            ],
        },
    }
}

/// A rejected request is answered with 429 and with nothing else: neither
/// the query is read nor the resolver asked. An admitted request is never
/// answered with 429.
pub proof fn lemma_rejection_is_too_many_requests(world: Surroundings)
    ensures
        life(world).last() is Send,
        (life(world).last()->Send_0.status() == HttpStatus::TooManyRequests) <==> world.decision
            == Decision::Reject,
        life(world).last()->Send_0.status().number() == 429 <==> world.decision
            == Decision::Reject,
        world.decision == Decision::Reject ==> forall|i: int|
            0 <= i < life(world).len() ==> !(life(world)[i] is ReadQuery) && !(life(
                world,
            )[i] is Resolve),
        world.domain is None ==> forall|i: int|
            0 <= i < life(world).len() ==> !(life(world)[i] is Resolve),
{
}

/// Driven from arrival, the machine asks for exactly the actions of `life`,
/// whatever the surroundings.
pub proof fn lemma_life_of_a_request(world: Surroundings)
    ensures
        actions(world, StateView::Received, EventView::Proceed, longest_life()) == life(world),
{
    reveal_with_fuel(actions, 8);
    assert(actions(world, StateView::Received, EventView::Proceed, longest_life()) =~= life(
        world,
    ));
}

} // verus!
