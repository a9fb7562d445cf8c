use redisgate::command::{RedisRequest, ReplyShape, ScopeClass, TypedReply};
use redisgate::error::GatewayError;
use redisgate::json::encode_json;
use redisgate::reply::RedisReply;
use redisgate::keys::{
    apply_override, classify_override, key_answer, plan_key_operation, read_outcome,
    resolve_key_operation,
    DeleteKeyResponse, GetKeyResponse, KeyOperation, MethodOverride, OverrideMethod,
    SetKeyRequest, SetKeyResponse,
};

fn params(method: Option<&str>, value: Option<&str>, ttl: Option<u64>) -> MethodOverride {
    MethodOverride {
        method: method.map(|s| s.to_string()),
        value: value.map(|s| s.to_string()),
        ttl_seconds: ttl,
    }
}

fn words(items: &[&str]) -> Vec<String> {
    items.iter().map(|s| s.to_string()).collect()
}

#[test]
fn get_without_override_is_a_read() {
    assert_eq!(resolve_key_operation(params(None, None, None)), Ok(KeyOperation::Read));
    assert_eq!(
        resolve_key_operation(params(None, Some("v"), Some(5))),
        Ok(KeyOperation::Read)
    );
    assert_eq!(resolve_key_operation(params(Some("GET"), None, None)), Ok(KeyOperation::Read));
    assert_eq!(resolve_key_operation(params(Some("PUT"), Some("v"), None)), Ok(KeyOperation::Read));
    assert_eq!(resolve_key_operation(params(Some(""), None, None)), Ok(KeyOperation::Read));
}

#[test]
fn override_post_makes_a_write() {
    assert_eq!(
        resolve_key_operation(params(Some("POST"), Some("bar"), None)),
        Ok(KeyOperation::Write(SetKeyRequest { value: "bar".to_string(), ttl_seconds: None }))
    );
    assert_eq!(
        resolve_key_operation(params(Some("post"), Some("bar"), Some(60))),
        Ok(KeyOperation::Write(SetKeyRequest { value: "bar".to_string(), ttl_seconds: Some(60) }))
    );
}

#[test]
fn override_post_needs_a_value() {
    let refused = resolve_key_operation(params(Some("POST"), None, Some(60)));
    assert_eq!(
        refused,
        Err(GatewayError::BadRequest("Missing 'value' parameter for SET operation".to_string()))
    );
    assert_eq!(refused.unwrap_err().status_code(), 400);
}

#[test]
fn override_delete_makes_a_delete() {
    assert_eq!(resolve_key_operation(params(Some("DELETE"), None, None)), Ok(KeyOperation::Delete));
    assert_eq!(
        resolve_key_operation(params(Some("Delete"), Some("v"), None)),
        Ok(KeyOperation::Delete)
    );
}

#[test]
fn override_methods_are_told_apart_in_upper_case() {
    assert_eq!(classify_override("POST"), OverrideMethod::Post);
    assert_eq!(classify_override("DELETE"), OverrideMethod::Delete);
    assert_eq!(classify_override("post"), OverrideMethod::Other);
    assert_eq!(classify_override("GET"), OverrideMethod::Other);
    assert_eq!(classify_override(""), OverrideMethod::Other);
    assert_eq!(
        apply_override(Some(OverrideMethod::Other), params(None, Some("v"), None)),
        Ok(KeyOperation::Read)
    );
    assert_eq!(
        apply_override(Some(OverrideMethod::Delete), params(None, None, None)),
        Ok(KeyOperation::Delete)
    );
}

#[test]
fn key_operations_are_planned_as_requests() {
    assert_eq!(
        plan_key_operation("foo", &KeyOperation::Read),
        RedisRequest {
            words: words(&["GET", "foo"]),
            shape: ReplyShape::Raw,
            class: ScopeClass::Read,
        }
    );
    assert_eq!(
        plan_key_operation("foo", &KeyOperation::Delete),
        RedisRequest {
            words: words(&["DEL", "foo"]),
            shape: ReplyShape::Count,
            class: ScopeClass::Write,
        }
    );
    assert_eq!(
        plan_key_operation(
            "foo",
            &KeyOperation::Write(SetKeyRequest { value: "bar".to_string(), ttl_seconds: None })
        ),
        RedisRequest {
            words: words(&["SET", "foo", "bar"]),
            shape: ReplyShape::Raw,
            class: ScopeClass::Write,
        }
    );
    assert_eq!(
        plan_key_operation(
            "foo",
            &KeyOperation::Write(SetKeyRequest { value: "bar".to_string(), ttl_seconds: Some(60) })
        )
        .words,
        words(&["SETEX", "foo", "60", "bar"])
    );
    assert_eq!(
        plan_key_operation(
            "",
            &KeyOperation::Write(SetKeyRequest {
                value: String::new(),
                ttl_seconds: Some(u64::MAX)
            })
        )
        .words,
        words(&["SETEX", "", "18446744073709551615", ""])
    );
    assert_eq!(
        plan_key_operation(
            "k",
            &KeyOperation::Write(SetKeyRequest { value: "v".to_string(), ttl_seconds: Some(0) })
        )
        .words,
        words(&["SETEX", "k", "0", "v"])
    );
}

#[test]
fn read_of_a_key_that_holds_nothing_is_a_bad_request() {
    assert_eq!(
        read_outcome("foo", Some("bar".to_string())),
        Ok(GetKeyResponse { key: "foo".to_string(), value: "bar".to_string() })
    );
    assert_eq!(
        read_outcome("foo", None),
        Err(GatewayError::BadRequest("Key 'foo' not found".to_string()))
    );
    assert_eq!(
        read_outcome("", None),
        Err(GatewayError::BadRequest("Key '' not found".to_string()))
    );
}

#[test]
fn answers_have_their_bodies() {
    assert_eq!(SetKeyResponse::ok(), SetKeyResponse { status: "OK".to_string() });
    assert_eq!(encode_json(&SetKeyResponse::ok().body()), "{\"status\":\"OK\"}");
    let read = GetKeyResponse { key: "foo".to_string(), value: "b\"r".to_string() };
    assert_eq!(encode_json(&read.body()), "{\"key\":\"foo\",\"value\":\"b\\\"r\"}");
    assert_eq!(encode_json(&DeleteKeyResponse { deleted: 0 }.body()), "{\"deleted\":0}");
    assert_eq!(
        encode_json(&DeleteKeyResponse { deleted: u32::MAX }.body()),
        "{\"deleted\":4294967295}"
    );
}

fn answered(operation: &KeyOperation, reply: TypedReply) -> Result<String, GatewayError> {
    key_answer(operation, "foo", reply).map(|body| encode_json(&body))
}

#[test]
fn read_is_answered_with_the_key_and_what_it_holds() {
    let data = |bytes: &[u8]| TypedReply::Raw(RedisReply::Data(bytes.to_vec()));
    assert_eq!(
        answered(&KeyOperation::Read, data(b"bar")),
        Ok("{\"key\":\"foo\",\"value\":\"bar\"}".to_string())
    );
    assert_eq!(
        answered(&KeyOperation::Read, data(b"")),
        Ok("{\"key\":\"foo\",\"value\":\"\"}".to_string())
    );
    assert_eq!(
        answered(&KeyOperation::Read, TypedReply::Raw(RedisReply::Nil)),
        Err(GatewayError::BadRequest("Key 'foo' not found".to_string()))
    );
    assert_eq!(answered(&KeyOperation::Read, data(&[0xff])), Err(GatewayError::Internal));
    assert_eq!(
        answered(&KeyOperation::Read, TypedReply::Raw(RedisReply::Int(1))),
        Err(GatewayError::Internal)
    );
    assert_eq!(
        answered(&KeyOperation::Read, TypedReply::Text("bar".to_string())),
        Err(GatewayError::Internal)
    );
}

#[test]
fn write_is_answered_with_ok() {
    let write = KeyOperation::Write(SetKeyRequest { value: "v".to_string(), ttl_seconds: None });
    assert_eq!(
        answered(&write, TypedReply::Raw(RedisReply::Okay)),
        Ok("{\"status\":\"OK\"}".to_string())
    );
    assert_eq!(
        answered(&write, TypedReply::Raw(RedisReply::Nil)),
        Ok("{\"status\":\"OK\"}".to_string())
    );
}

#[test]
fn delete_is_answered_with_the_count() {
    assert_eq!(
        answered(&KeyOperation::Delete, TypedReply::Count(1)),
        Ok("{\"deleted\":1}".to_string())
    );
    assert_eq!(
        answered(&KeyOperation::Delete, TypedReply::Count(0)),
        Ok("{\"deleted\":0}".to_string())
    );
    assert_eq!(
        answered(&KeyOperation::Delete, TypedReply::Count(i32::MAX)),
        Ok("{\"deleted\":2147483647}".to_string())
    );
    assert_eq!(
        answered(&KeyOperation::Delete, TypedReply::Count(-1)),
        Err(GatewayError::Internal)
    );
    assert_eq!(
        answered(&KeyOperation::Delete, TypedReply::Integer(1)),
        Err(GatewayError::Internal)
    );
}
