//! The key routes: reading, writing and deleting one key of an instance,
//! and the method override for clients that can only send `GET`.

use vstd::prelude::*;
use vstd::utf8::{decode_utf8, valid_utf8};
use crate::command::{ReplyShape, RedisRequest, RequestModel, ScopeClass, TypedReply};
use crate::error::{ErrorModel, GatewayError};
use crate::number::{decimal_digits, push_decimal_digits};
use crate::reply::{
    lemma_object_view, text_from_utf8, JsonMember, JsonModel, JsonValue, MemberModel, RedisReply,
};
use crate::text::{chars_of, same_chars, string_of, texts, to_upper, upper_form};

verus! {

/// The body of a request that writes a key.
#[derive(Debug, Clone, PartialEq, Eq)]
pub struct SetKeyRequest {
    pub value: String,
    /// The seconds after which the key expires, where it does.
    pub ttl_seconds: Option<u64>,
}

/// The query parameters of a key route.
#[derive(Debug, Clone, PartialEq, Eq)]
pub struct MethodOverride {
    /// The method that the request is to be taken as.
    pub method: Option<String>,
    pub value: Option<String>,
    pub ttl_seconds: Option<u64>,
}

/// The answer to a write.
#[derive(Debug, Clone, PartialEq, Eq)]
pub struct SetKeyResponse {
    pub status: String,
}

/// The answer to a read.
#[derive(Debug, Clone, PartialEq, Eq)]
pub struct GetKeyResponse {
    pub key: String,
    pub value: String,
}

/// The answer to a delete.
#[derive(Debug, Clone, Copy, PartialEq, Eq)]
pub struct DeleteKeyResponse {
    pub deleted: u32,
}

/// What a request on a key route is taken as.
#[derive(Debug, Clone, PartialEq, Eq)]
pub enum KeyOperation {
    Read,
    Write(SetKeyRequest),
    Delete,
}

/// The method that an override names, in upper case.
#[derive(Debug, Clone, Copy, PartialEq, Eq, Structural)]
pub enum OverrideMethod {
    Post,
    Delete,
    Other,
}

/// The method that an upper-case name denotes.
pub open spec fn override_method(upper: Seq<char>) -> OverrideMethod {
    if upper == "POST"@ {
        OverrideMethod::Post
    } else if upper == "DELETE"@ {
        OverrideMethod::Delete
    } else {
        OverrideMethod::Other
    }
}

/// What a `GET` on a key route is taken as, given the method that its
/// override names, if it names one: `POST` makes it a write, which needs
/// the parameter `value`; `DELETE` makes it a delete; anything else
/// leaves it a read.
pub open spec fn overridden(method: Option<OverrideMethod>, params: MethodOverride) -> Result<
    KeyOperation,
    ErrorModel,
> {
    match method {
        Some(OverrideMethod::Post) => match params.value {
            Some(value) => Ok(
                KeyOperation::Write(SetKeyRequest { value, ttl_seconds: params.ttl_seconds }),
            ),
            None => Err(ErrorModel::BadRequest("Missing 'value' parameter for SET operation"@)),
        },
        Some(OverrideMethod::Delete) => Ok(KeyOperation::Delete),
        _ => Ok(KeyOperation::Read),
    }
}

/// The outcome of resolving an override, as a mathematical value.
pub open spec fn operation_view(r: Result<KeyOperation, GatewayError>) -> Result<
    KeyOperation,
    ErrorModel,
> {
    match r {
        Ok(op) => Ok(op),
        Err(e) => Err(e@),
    }
}

/// The method that an upper-case name denotes.
pub fn classify_override(upper: &str) -> (r: OverrideMethod)
    ensures
        r == override_method(upper@),
{
    let u = chars_of(upper);
    let post = chars_of("POST");
    let delete = chars_of("DELETE");
    if same_chars(&u, &post) {
        OverrideMethod::Post
    } else if same_chars(&u, &delete) {
        OverrideMethod::Delete
    } else {
        OverrideMethod::Other
    }
}

/// Resolves a `GET` on a key route, given the method that its override
/// names.
pub fn apply_override(method: Option<OverrideMethod>, params: MethodOverride) -> (r: Result<
    KeyOperation,
    GatewayError,
>)
    ensures
        operation_view(r) == overridden(method, params),
{
    match method {
        Some(OverrideMethod::Post) => match params.value {
            Some(value) => Ok(
                KeyOperation::Write(SetKeyRequest { value, ttl_seconds: params.ttl_seconds }),
            ),
            None => Err(
                GatewayError::BadRequest("Missing 'value' parameter for SET operation".to_string()),
            ),
        },
        Some(OverrideMethod::Delete) => Ok(KeyOperation::Delete),
        _ => Ok(KeyOperation::Read),
    }
}

/// What a `GET` on a key route is taken as: the override, where there is
/// one, is read in its upper-case form.
pub open spec fn resolved(params: MethodOverride) -> Result<KeyOperation, ErrorModel> {
    overridden(
        match params.method {
            Some(m) => Some(override_method(upper_form(m@))),
            None => None,
        },
        params,
    )
}

/// Resolves a `GET` on a key route.
pub fn resolve_key_operation(params: MethodOverride) -> (r: Result<KeyOperation, GatewayError>)
    ensures
        operation_view(r) == resolved(params),
{
    let method = match &params.method {
        Some(m) => {
            let upper = to_upper(m.as_str());
            Some(classify_override(upper.as_str()))
        },
        None => None,
    };
    apply_override(method, params)
}

/// A request on a key route, by the method and the body it came with.
#[derive(Debug, Clone, PartialEq, Eq)]
pub enum KeyRequest {
    /// A `GET`, with its query parameters.
    Get(MethodOverride),
    /// A `POST`, with its body.
    Post(SetKeyRequest),
    /// A `DELETE`.
    Delete,
}

/// What a request on a key route is taken as: a `GET` as its override
/// says, a `POST` as a write, a `DELETE` as a delete.
pub open spec fn key_operation_of(request: KeyRequest) -> Result<KeyOperation, ErrorModel> {
    match request {
        KeyRequest::Get(params) => resolved(params),
        KeyRequest::Post(body) => Ok(KeyOperation::Write(body)),
        KeyRequest::Delete => Ok(KeyOperation::Delete),
    }
}

fn copy_text(text: &Option<String>) -> (r: Option<String>)
    ensures
        r == *text,
{
    match text {
        Some(t) => Some(t.clone()),
        None => None,
    }
}

/// Resolves a request on a key route.
pub fn key_operation(request: &KeyRequest) -> (r: Result<KeyOperation, GatewayError>)
    ensures
        operation_view(r) == key_operation_of(*request),
{
    match request {
        KeyRequest::Get(params) => resolve_key_operation(
            MethodOverride {
                method: copy_text(&params.method),
                value: copy_text(&params.value),
                ttl_seconds: params.ttl_seconds,
            },
        ),
        KeyRequest::Post(body) => Ok(
            KeyOperation::Write(
                SetKeyRequest { value: body.value.clone(), ttl_seconds: body.ttl_seconds },
            ),
        ),
        KeyRequest::Delete => Ok(KeyOperation::Delete),
    }
}

/// The request that writes a key: `SETEX key seconds value` where the
/// key is to expire, `SET key value` where it is not.
pub open spec fn write_request(key: Seq<char>, request: SetKeyRequest) -> RequestModel {
    RequestModel {
        words: match request.ttl_seconds {
            Some(ttl) => seq!["SETEX"@, key, decimal_digits(ttl as nat), request.value@],
            None => seq!["SET"@, key, request.value@],
        },
        shape: ReplyShape::Raw,
        class: ScopeClass::Write,
    }
}

/// The request that reads a key.
pub open spec fn read_request(key: Seq<char>) -> RequestModel {
    RequestModel { words: seq!["GET"@, key], shape: ReplyShape::Raw, class: ScopeClass::Read }
}

/// The request that deletes a key.
pub open spec fn delete_request(key: Seq<char>) -> RequestModel {
    RequestModel { words: seq!["DEL"@, key], shape: ReplyShape::Count, class: ScopeClass::Write }
}

/// The request for an operation on a key.
pub open spec fn key_request(key: Seq<char>, operation: KeyOperation) -> RequestModel {
    match operation {
        KeyOperation::Read => read_request(key),
        KeyOperation::Write(request) => write_request(key, request),
        KeyOperation::Delete => delete_request(key),
    }
}

/// Plans the request for an operation on a key.
pub fn plan_key_operation(key: &str, operation: &KeyOperation) -> (r: RedisRequest)
    ensures
        r@ == key_request(key@, *operation),
{
    let mut words: Vec<String> = Vec::new();
    match operation {
        KeyOperation::Read => {
            words.push("GET".to_string());
            words.push(key.to_string());
            assert(texts(words@) =~= seq!["GET"@, key@]);
            RedisRequest { words, shape: ReplyShape::Raw, class: ScopeClass::Read }
        },
        KeyOperation::Delete => {
            words.push("DEL".to_string());
            words.push(key.to_string());
            assert(texts(words@) =~= seq!["DEL"@, key@]);
            RedisRequest { words, shape: ReplyShape::Count, class: ScopeClass::Write }
        },
        KeyOperation::Write(request) => {
            match request.ttl_seconds {
                Some(ttl) => {
                    let mut digits: Vec<char> = Vec::new();
                    push_decimal_digits(&mut digits, ttl);
                    assert(digits@ =~= decimal_digits(ttl as nat));
                    words.push("SETEX".to_string());
                    words.push(key.to_string());
                    words.push(string_of(&digits));
                    words.push(request.value.clone());
                    assert(texts(words@) =~= seq![
                        "SETEX"@,
                        key@,
                        decimal_digits(ttl as nat),
                        request.value@,
                    ]);
                },
                None => {
                    words.push("SET".to_string());
                    words.push(key.to_string());
                    words.push(request.value.clone());
                    assert(texts(words@) =~= seq!["SET"@, key@, request.value@]);
                },
            }
            RedisRequest { words, shape: ReplyShape::Raw, class: ScopeClass::Write }
        },
    }
}

/// The message that says that a key holds nothing.
pub open spec fn not_found_message(key: Seq<char>) -> Seq<char> {
    "Key '"@ + key + "' not found"@
}

/// The answer to a read: the key and what it holds; a key that holds
/// nothing is a bad request.
pub fn read_outcome(key: &str, value: Option<String>) -> (r: Result<GetKeyResponse, GatewayError>)
    ensures
        match value {
            Some(v) => r is Ok && r->Ok_0.key@ == key@ && r->Ok_0.value == v,
            None => r is Err && r->Err_0@ == ErrorModel::BadRequest(not_found_message(key@)),
        },
{
    match value {
        Some(v) => Ok(GetKeyResponse { key: key.to_string(), value: v }),
        None => {
            let mut message = String::new();
            message.append("Key '");
            message.append(key);
            message.append("' not found");
            assert(message@ =~= not_found_message(key@));
            Err(GatewayError::BadRequest(message))
        },
    }
}

/// The body that answers a write: an object with the member `status`.
pub open spec fn status_body(status: Seq<char>) -> JsonModel {
    JsonModel::Object(seq![MemberModel { name: "status"@, value: JsonModel::String(status) }])
}

/// The body that answers a read: an object with the members `key` and
/// `value`.
pub open spec fn read_body(key: Seq<char>, value: Seq<char>) -> JsonModel {
    JsonModel::Object(
        seq![
            MemberModel { name: "key"@, value: JsonModel::String(key) },
            MemberModel { name: "value"@, value: JsonModel::String(value) },
        ],
    )
}

/// The body that answers a delete: an object with the member `deleted`.
pub open spec fn deleted_body(deleted: int) -> JsonModel {
    JsonModel::Object(seq![MemberModel { name: "deleted"@, value: JsonModel::Number(deleted) }])
}

/// The answer of a key route to what Redis replied. A write is answered
/// with the status `OK`. A read is answered with the key and what it
/// holds, where that is text; a key that holds nothing is a bad request.
/// A delete is answered with the count of the keys that were deleted. A
/// reply of another kind, bytes that are no text, or a count below zero
/// is a fault of the gateway.
pub open spec fn key_answer_of(operation: KeyOperation, key: Seq<char>, reply: TypedReply) -> Result<
    JsonModel,
    ErrorModel,
> {
    match operation {
        KeyOperation::Write(_) => Ok(status_body("OK"@)),
        KeyOperation::Read => match reply {
            TypedReply::Raw(RedisReply::Data(bytes)) => if valid_utf8(bytes@) {
                Ok(read_body(key, decode_utf8(bytes@)))
            } else {
                Err(ErrorModel::Internal)
            },
            TypedReply::Raw(RedisReply::Nil) => Err(
                ErrorModel::BadRequest(not_found_message(key)),
            ),
            _ => Err(ErrorModel::Internal),
        },
        KeyOperation::Delete => match reply {
            TypedReply::Count(n) => if n >= 0 {
                Ok(deleted_body(n as int))
            } else {
                Err(ErrorModel::Internal)
            },
            _ => Err(ErrorModel::Internal),
        },
    }
}

/// Answers a request on a key route with what Redis replied.
pub fn key_answer(operation: &KeyOperation, key: &str, reply: TypedReply) -> (r: Result<
    JsonValue,
    GatewayError,
>)
    ensures
        (match r {
            Ok(body) => Ok(body@),
            Err(e) => Err(e@),
        }) == key_answer_of(*operation, key@, reply),
{
    match operation {
        KeyOperation::Write(_) => Ok(SetKeyResponse::ok().body()),
        KeyOperation::Read => match reply {
            TypedReply::Raw(RedisReply::Data(bytes)) => match text_from_utf8(bytes) {
                Some(value) => match read_outcome(key, Some(value)) {
                    Ok(found) => Ok(found.body()),
                    Err(e) => Err(e),
                },
                None => Err(GatewayError::Internal),
            },
            TypedReply::Raw(RedisReply::Nil) => match read_outcome(key, None) {
                Ok(found) => Ok(found.body()),
                Err(e) => Err(e),
            },
            _ => Err(GatewayError::Internal),
        },
        KeyOperation::Delete => match reply {
            TypedReply::Count(n) => {
                if n >= 0 {
                    Ok(DeleteKeyResponse { deleted: n as u32 }.body())
                } else {
                    Err(GatewayError::Internal)
                }
            },
            _ => Err(GatewayError::Internal),
        },
    }
}

impl SetKeyResponse {
    /// The answer to a write that was carried out.
    pub fn ok() -> (r: Self)
        ensures
            r.status@ == "OK"@,
    {
        SetKeyResponse { status: "OK".to_string() }
    }

    /// The JSON body: an object with the member `status`.
    pub fn body(&self) -> (body: JsonValue)
        ensures
            body@ == status_body(self.status@),
    {
        let mut members: Vec<JsonMember> = Vec::new();
        members.push(
            JsonMember { name: "status".to_string(), value: JsonValue::String(self.status.clone()) },
        );
        proof {
            lemma_object_view(members);
        }
        let body = JsonValue::Object(members);
        assert(body@->Object_0 =~= seq![
            MemberModel { name: "status"@, value: JsonModel::String(self.status@) },
        ]);
        body
    }
}

impl GetKeyResponse {
    /// The JSON body: an object with the members `key` and `value`.
    pub fn body(&self) -> (body: JsonValue)
        ensures
            body@ == read_body(self.key@, self.value@),
    {
        let mut members: Vec<JsonMember> = Vec::new();
        members.push(
            JsonMember { name: "key".to_string(), value: JsonValue::String(self.key.clone()) },
        );
        members.push(
            JsonMember { name: "value".to_string(), value: JsonValue::String(self.value.clone()) },
        );
        proof {
            lemma_object_view(members);
        }
        let body = JsonValue::Object(members);
        assert(body@->Object_0 =~= seq![
            MemberModel { name: "key"@, value: JsonModel::String(self.key@) },
            MemberModel { name: "value"@, value: JsonModel::String(self.value@) },
        ]);
        body
    }
}

impl DeleteKeyResponse {
    /// The JSON body: an object with the member `deleted`.
    pub fn body(&self) -> (body: JsonValue)
        ensures
            body@ == deleted_body(self.deleted as int),
    {
        let mut members: Vec<JsonMember> = Vec::new();
        members.push(
            JsonMember { name: "deleted".to_string(), value: JsonValue::Number(self.deleted as i64) },
        );
        proof {
            lemma_object_view(members);
        }
        let body = JsonValue::Object(members);
        assert(body@->Object_0 =~= seq![
            MemberModel { name: "deleted"@, value: JsonModel::Number(self.deleted as int) },
        ]);
        body
    }
}

} // verus!
