//! The path of one request through the gateway, as steps: each step takes
//! what happened outside and says what is to be done next.

use vstd::prelude::*;
use crate::claims::{current_timestamp, on_the_clock, ApiKeyClaims, ApiKeyClaimsModel};
use crate::command::{
    class_name, plan_body, plan_body_command, plan_path, plan_path_command, plan_view, respond,
    result_envelope, settled, shape_in, BodyItem, RedisRequest, RequestModel, TypedReply,
};
use crate::error::{envelope_of, evicts_pool, status_of, ErrorModel, GatewayError};
use crate::gate::{
    authenticate_at, authenticated, authorize_instance, credential_of, refusal, scopes_permit,
    InstanceDescriptor, InstanceStatus,
};
use crate::token::verified;
use crate::keys::{
    key_answer, key_answer_of, key_operation, key_operation_of, key_request, plan_key_operation,
    KeyRequest,
};
use crate::reply::{reply_to_json, JsonModel, JsonValue};
use crate::text::texts;
use crate::token::JwtManager;

verus! {

/// Where the command of a request stands.
#[derive(Debug, Clone, PartialEq, Eq)]
pub enum CommandSource {
    /// In the path: the name, the arguments, and the query parameter `EX`
    /// where there is one.
    Path { cmd: String, args: Vec<String>, ex: Option<String> },
    /// In the body: the elements of its array.
    Body(Vec<BodyItem>),
    /// In a key route: the key, and what the route is asked for.
    Key { key: String, request: KeyRequest },
}

/// A request as it arrived.
#[derive(Debug, Clone, PartialEq, Eq)]
pub struct Incoming {
    /// The `Authorization` header, where there is one.
    pub authorization: Option<String>,
    /// The query parameter `_token`, where there is one.
    pub query_token: Option<String>,
    pub instance_id: String,
    pub source: CommandSource,
    /// Whether the class of the command must be among the scopes of the
    /// credential.
    pub enforce_scopes: bool,
}

/// How far a request has come.
#[derive(Debug, PartialEq, Eq)]
pub enum Phase {
    /// Nothing was done yet.
    Received,
    /// The credential was admitted; the instance is being looked up.
    AwaitingInstance(ApiKeyClaims),
    /// The request may run; a connection is being acquired.
    AwaitingConnection(RedisRequest),
    /// The command was sent.
    AwaitingReply(RedisRequest),
    /// The request was answered.
    Finished,
}

/// What happened outside since the last step.
#[derive(Debug, PartialEq, Eq)]
pub enum Event {
    /// The request arrived.
    Arrived,
    /// The registry answered for the instance of the request.
    InstanceLooked(Option<InstanceDescriptor>),
    /// A connection was acquired, or it was not.
    Acquired(Result<(), GatewayError>),
    /// Redis answered, or the command failed.
    Replied(Result<TypedReply, GatewayError>),
}

/// The answer to a request.
#[derive(Debug, PartialEq, Eq)]
pub struct Answer {
    pub status: u16,
    pub body: JsonValue,
    /// Whether the pool of the instance is to be dropped.
    pub evict: bool,
}

/// What is to be done outside before the next step.
#[derive(Debug, PartialEq, Eq)]
pub enum Directive {
    /// Ask the registry for the instance of the request.
    LookUpInstance,
    /// Acquire a connection to the instance.
    Acquire,
    /// Send the command on the connection.
    Execute(RedisRequest),
    /// Answer the request and release what it holds.
    Respond(Answer),
}

/// The mathematical value of a [`Phase`].
pub ghost enum PhaseModel {
    Received,
    AwaitingInstance(ApiKeyClaimsModel),
    AwaitingConnection(RequestModel),
    AwaitingReply(RequestModel),
    Finished,
}

/// The mathematical value of a [`Directive`].
pub ghost enum DirectiveModel {
    LookUpInstance,
    Acquire,
    Execute(RequestModel),
    Respond { status: int, body: JsonModel, evict: bool },
}

/// One step of a request, as a mathematical value.
pub ghost struct Advance {
    pub phase: PhaseModel,
    pub directive: DirectiveModel,
}

impl View for Phase {
    type V = PhaseModel;

    open spec fn view(&self) -> PhaseModel {
        match self {
            Phase::Received => PhaseModel::Received,
            Phase::AwaitingInstance(claims) => PhaseModel::AwaitingInstance(claims@),
            Phase::AwaitingConnection(request) => PhaseModel::AwaitingConnection(request@),
            Phase::AwaitingReply(request) => PhaseModel::AwaitingReply(request@),
            Phase::Finished => PhaseModel::Finished,
        }
    }
}

impl View for Directive {
    type V = DirectiveModel;

    open spec fn view(&self) -> DirectiveModel {
        match self {
            Directive::LookUpInstance => DirectiveModel::LookUpInstance,
            Directive::Acquire => DirectiveModel::Acquire,
            Directive::Execute(request) => DirectiveModel::Execute(request@),
            Directive::Respond(answer) => DirectiveModel::Respond {
                status: answer.status as int,
                body: answer.body@,
                evict: answer.evict,
            },
        }
    }
}

/// The text of a string that may be there.
pub open spec fn held_text(s: Option<String>) -> Option<Seq<char>> {
    match s {
        Some(t) => Some(t@),
        None => None,
    }
}

/// The request that the command of a request is planned as.
pub open spec fn planned(source: CommandSource) -> Result<RequestModel, ErrorModel> {
    match source {
        CommandSource::Path { cmd, args, ex } => plan_path(cmd@, texts(args@), held_text(ex)),
        CommandSource::Body(items) => plan_body(items@),
        CommandSource::Key { key, request } => match key_operation_of(request) {
            Ok(operation) => Ok(key_request(key@, operation)),
            Err(e) => Err(e),
        },
    }
}

/// The answer to what Redis replied to the command of a request: on a
/// key route the answer of that route; else the reply, settled and written
/// as JSON, as the result. A reply in another shape than the request asked
/// for is a fault of the gateway.
pub open spec fn answered(source: CommandSource, request: RequestModel, reply: TypedReply) -> Result<
    JsonModel,
    ErrorModel,
> {
    match source {
        CommandSource::Key { key, request } => match key_operation_of(request) {
            Ok(operation) => key_answer_of(operation, key@, reply),
            Err(_) => Err(ErrorModel::Internal),
        },
        _ => if shape_in(reply) == request.shape {
            Ok(result_envelope(reply_to_json(settled(reply))))
        } else {
            Err(ErrorModel::Internal)
        },
    }
}

/// The end of a request in a failure.
pub open spec fn failed(e: ErrorModel, evict: bool) -> Advance {
    Advance {
        phase: PhaseModel::Finished,
        directive: DirectiveModel::Respond { status: status_of(e), body: envelope_of(e), evict },
    }
}

/// The failure that a request ends with once its command was sent: that
/// of the command, where it is a failure of the server side; a failure
/// that only a refusal before the command can be is a fault of the
/// gateway here.
pub open spec fn after_command(e: ErrorModel) -> ErrorModel {
    if status_of(e) >= 500 {
        e
    } else {
        ErrorModel::Internal
    }
}

/// One step of a request at the second `now`.
///
/// A request that arrives is authenticated; with the claims of an API key
/// its instance is looked up. The instance must be held, live and of the
/// organization of the credential; then the command is planned, and,
/// where scopes are enforced, its class must be among the scopes of the
/// credential; only then is a connection acquired. On the connection the
/// command is sent, and what Redis answers is the result of the request,
/// or on a key route the answer of that route.
/// Every refusal and failure ends the request with its status and
/// envelope; a failure of the command of a transient kind also has the
/// pool dropped. An event that does not belong to the phase ends the
/// request as a fault of the gateway, and so does a failure of the
/// command that is of a kind that only a refusal can be.
pub open spec fn advanced(
    secret: Seq<u8>,
    incoming: Incoming,
    phase: PhaseModel,
    event: Event,
    now: int,
) -> Advance {
    match (phase, event) {
        (PhaseModel::Received, Event::Arrived) => match authenticated(
            held_text(incoming.authorization),
            held_text(incoming.query_token),
            secret,
            now,
        ) {
            Err(e) => failed(e, false),
            Ok(claims) => Advance {
                phase: PhaseModel::AwaitingInstance(claims),
                directive: DirectiveModel::LookUpInstance,
            },
        },
        (PhaseModel::AwaitingInstance(claims), Event::InstanceLooked(descriptor)) => match refusal(
            claims,
            descriptor,
            None,
        ) {
            Some(e) => failed(e, false),
            None => match planned(incoming.source) {
                Err(e) => failed(e, false),
                Ok(request) => if incoming.enforce_scopes && !claims.scopes.contains(
                    class_name(request.class),
                ) {
                    failed(ErrorModel::Forbidden, false)
                } else {
                    Advance {
                        phase: PhaseModel::AwaitingConnection(request),
                        directive: DirectiveModel::Acquire,
                    }
                },
            },
        },
        (PhaseModel::AwaitingConnection(request), Event::Acquired(Ok(_))) => Advance {
            phase: PhaseModel::AwaitingReply(request),
            directive: DirectiveModel::Execute(request),
        },
        (PhaseModel::AwaitingConnection(_), Event::Acquired(Err(e))) => failed(e@, false),
        (PhaseModel::AwaitingReply(request), Event::Replied(Ok(reply))) => match answered(
            incoming.source,
            request,
            reply,
        ) {
            Ok(body) => Advance {
                phase: PhaseModel::Finished,
                directive: DirectiveModel::Respond { status: 200, body, evict: false },
            },
            Err(e) => failed(e, false),
        },
        (PhaseModel::AwaitingReply(_), Event::Replied(Err(e))) => failed(
            after_command(e@),
            evicts_pool(after_command(e@)),
        ),
        _ => failed(ErrorModel::Internal, false),
    }
}

fn fail(error: GatewayError, evict: bool) -> (r: (Phase, Directive))
    ensures
        (Advance { phase: r.0@, directive: r.1@ }) == failed(error@, evict),
{
    let answer = Answer { status: error.status_code(), body: error.envelope(), evict };
    (Phase::Finished, Directive::Respond(answer))
}

fn plan(source: &CommandSource) -> (r: Result<RedisRequest, GatewayError>)
    ensures
        plan_view(r) == planned(*source),
{
    match source {
        CommandSource::Path { cmd, args, ex } => {
            let ex: Option<&str> = match ex {
                Some(t) => Some(t.as_str()),
                None => None,
            };
            plan_path_command(cmd.as_str(), args, ex)
        },
        CommandSource::Body(items) => plan_body_command(items),
        CommandSource::Key { key, request } => match key_operation(request) {
            Ok(operation) => Ok(plan_key_operation(key.as_str(), &operation)),
            Err(e) => Err(e),
        },
    }
}

fn answer(source: &CommandSource, request: &RedisRequest, reply: TypedReply) -> (r: Result<
    JsonValue,
    GatewayError,
>)
    ensures
        (match r {
            Ok(body) => Ok(body@),
            Err(e) => Err(e@),
        }) == answered(*source, request@, reply),
{
    match source {
        CommandSource::Key { key, request: asked } => match key_operation(asked) {
            Ok(operation) => key_answer(&operation, key.as_str(), reply),
            Err(_) => Err(GatewayError::Internal),
        },
        _ => match respond(request.shape, reply) {
            Ok(response) => Ok(response.into_body()),
            Err(e) => Err(e),
        },
    }
}

fn copy_request(request: &RedisRequest) -> (r: RedisRequest)
    ensures
        r@ == request@,
{
    let mut words: Vec<String> = Vec::new();
    let mut i: usize = 0;
    while i < request.words.len()
        invariant
            i <= request.words.len(),
            words.len() == i,
            forall|j: int| 0 <= j < i ==> (#[trigger] words@[j])@ == request.words@[j]@,
        decreases request.words.len() - i,
    {
        words.push(request.words[i].clone());
        i += 1;
    }
    assert(texts(words@) =~= texts(request.words@));
    RedisRequest { words, shape: request.shape, class: request.class }
}

/// Takes one step of a request at the second `now`.
pub fn advance_at(
    manager: &JwtManager,
    incoming: &Incoming,
    phase: Phase,
    event: Event,
    now: i64,
) -> (r: (Phase, Directive))
    ensures
        (Advance { phase: r.0@, directive: r.1@ }) == advanced(
            manager.secret(),
            *incoming,
            phase@,
            event,
            now as int,
        ),
        phase@ is Received && event is Arrived ==> (match credential_of(
            held_text(incoming.authorization),
            held_text(incoming.query_token),
        ) {
            Some(token) => !token.contains('.') ==> (Advance { phase: r.0@, directive: r.1@ })
                == failed(ErrorModel::InvalidApiKey, false),
            None => (Advance { phase: r.0@, directive: r.1@ }) == failed(
                ErrorModel::MissingApiKey,
                false,
            ),
        }),
{
    match (phase, event) {
        (Phase::Received, Event::Arrived) => {
            let authorization: Option<&str> = match &incoming.authorization {
                Some(t) => Some(t.as_str()),
                None => None,
            };
            let query_token: Option<&str> = match &incoming.query_token {
                Some(t) => Some(t.as_str()),
                None => None,
            };
            match authenticate_at(manager, authorization, query_token, now) {
                Err(e) => fail(e, false),
                Ok(claims) => (Phase::AwaitingInstance(claims), Directive::LookUpInstance),
            }
        },
        (Phase::AwaitingInstance(claims), Event::InstanceLooked(descriptor)) => {
            match authorize_instance(&claims, descriptor, None) {
                Err(e) => fail(e, false),
                Ok(_) => match plan(&incoming.source) {
                    Err(e) => fail(e, false),
                    Ok(request) => {
                        if incoming.enforce_scopes && !scopes_permit(&claims.scopes, request.class) {
                            fail(GatewayError::Forbidden, false)
                        } else {
                            (Phase::AwaitingConnection(request), Directive::Acquire)
                        }
                    },
                },
            }
        },
        (Phase::AwaitingConnection(request), Event::Acquired(Ok(_))) => {
            let sent = copy_request(&request);
            (Phase::AwaitingReply(request), Directive::Execute(sent))
        },
        (Phase::AwaitingConnection(_), Event::Acquired(Err(e))) => fail(e, false),
        (Phase::AwaitingReply(request), Event::Replied(Ok(reply))) => {
            match answer(&incoming.source, &request, reply) {
                Ok(body) => {
                    let answer = Answer { status: 200, body, evict: false };
                    (Phase::Finished, Directive::Respond(answer))
                },
                Err(e) => fail(e, false),
            }
        },
        (Phase::AwaitingReply(_), Event::Replied(Err(e))) => {
            if e.status_code() >= 500 {
                let evict = e.evicts_pool();
                fail(e, evict)
            } else {
                fail(GatewayError::Internal, false)
            }
        },
        _ => fail(GatewayError::Internal, false),
    }
}

/// Takes one step of a request now.
pub fn advance(manager: &JwtManager, incoming: &Incoming, phase: Phase, event: Event) -> (r: (
    Phase,
    Directive,
))
    ensures
        exists|now: int|
            on_the_clock(now) && (Advance { phase: r.0@, directive: r.1@ }) == #[trigger] advanced(
                manager.secret(),
                *incoming,
                phase@,
                event,
                now,
            ),
{
    let now = current_timestamp();
    advance_at(manager, incoming, phase, event, now)
}

/// A connection is acquired only for a request whose credential was
/// admitted and whose instance is held, is not deleted and belongs to the
/// organization of the credential.
pub proof fn lemma_acquire_only_when_authorized(
    secret: Seq<u8>,
    incoming: Incoming,
    phase: PhaseModel,
    event: Event,
    now: int,
)
    requires
        advanced(secret, incoming, phase, event, now).directive is Acquire,
    ensures
        phase is AwaitingInstance,
        event is InstanceLooked,
        event->InstanceLooked_0 is Some,
        event->InstanceLooked_0->0.status != InstanceStatus::Deleted,
        event->InstanceLooked_0->0.organization_id@ == phase->AwaitingInstance_0.organization_id,
        planned(incoming.source) is Ok,
{
}

/// The instance is looked up only for a request that carries a token
/// which verifies, at the second of the request, to the claims of an API
/// key.
pub proof fn lemma_lookup_only_when_authenticated(
    secret: Seq<u8>,
    incoming: Incoming,
    phase: PhaseModel,
    event: Event,
    now: int,
)
    requires
        advanced(secret, incoming, phase, event, now).directive is LookUpInstance,
    ensures
        phase is Received,
        authenticated(
            held_text(incoming.authorization),
            held_text(incoming.query_token),
            secret,
            now,
        ) is Ok,
{
}

/// A request for an instance of another organization is answered with
/// 403, and no connection is acquired for it.
pub proof fn lemma_other_organization_is_forbidden(
    secret: Seq<u8>,
    incoming: Incoming,
    claims: ApiKeyClaimsModel,
    descriptor: InstanceDescriptor,
    now: int,
)
    requires
        descriptor.status != InstanceStatus::Deleted,
        descriptor.organization_id@ != claims.organization_id,
    ensures
        advanced(
            secret,
            incoming,
            PhaseModel::AwaitingInstance(claims),
            Event::InstanceLooked(Some(descriptor)),
            now,
        ) == failed(ErrorModel::Forbidden, false),
        status_of(ErrorModel::Forbidden) == 403,
{
}

/// A request without a credential, or with one that does not verify at
/// the second of the request, is answered with 401 before anything is
/// asked of the registry.
pub proof fn lemma_unverified_is_unauthenticated(secret: Seq<u8>, incoming: Incoming, now: int)
    requires
        match credential_of(held_text(incoming.authorization), held_text(incoming.query_token)) {
            None => true,
            Some(token) => verified(token, secret, now) is Err,
        },
    ensures
        advanced(secret, incoming, PhaseModel::Received, Event::Arrived, now).phase
            == PhaseModel::Finished,
        advanced(secret, incoming, PhaseModel::Received, Event::Arrived, now).directive is Respond,
        advanced(
            secret,
            incoming,
            PhaseModel::Received,
            Event::Arrived,
            now,
        ).directive->Respond_status == 401,
{
}

/// A command request that is answered with a status from 400 to 499 is
/// answered before its command is sent. (On a key route a read of a key
/// that holds nothing is answered with 400 after the read.)
pub proof fn lemma_refusals_come_before_the_command(
    secret: Seq<u8>,
    incoming: Incoming,
    phase: PhaseModel,
    event: Event,
    now: int,
)
    requires
        !(incoming.source is Key),
        advanced(secret, incoming, phase, event, now).directive is Respond,
        400 <= advanced(secret, incoming, phase, event, now).directive->Respond_status < 500,
    ensures
        !(phase is AwaitingReply),
        phase is Received || phase is AwaitingInstance || phase is AwaitingConnection,
{
}

} // verus!
