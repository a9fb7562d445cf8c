//! Redis replies and the JSON values they are answered with.

use vstd::prelude::*;
use vstd::utf8::{decode_utf8, valid_utf8};

verus! {

/// A reply from Redis.
#[derive(Debug, PartialEq, Eq)]
pub enum RedisReply {
    /// No value.
    Nil,
    /// An integer.
    Int(i64),
    /// A bulk string: bytes, not necessarily text.
    Data(Vec<u8>),
    /// An array of replies.
    Bulk(Vec<RedisReply>),
    /// A status line.
    Status(String),
    /// The status `OK`.
    Okay,
}

/// A JSON value as the gateway writes it: no fractions, and the members of
/// an object in the order in which they are written.
#[derive(Debug, PartialEq, Eq)]
pub enum JsonValue {
    Null,
    Number(i64),
    String(String),
    Array(Vec<JsonValue>),
    Object(Vec<JsonMember>),
}

/// A member of a JSON object.
#[derive(Debug, PartialEq, Eq)]
pub struct JsonMember {
    pub name: String,
    pub value: JsonValue,
}

/// The mathematical value of a [`RedisReply`].
pub ghost enum ReplyModel {
    Nil,
    Int(int),
    Data(Seq<u8>),
    Bulk(Seq<ReplyModel>),
    Status(Seq<char>),
    Okay,
}

/// The mathematical value of a [`JsonValue`].
pub ghost enum JsonModel {
    Null,
    Number(int),
    String(Seq<char>),
    Array(Seq<JsonModel>),
    Object(Seq<MemberModel>),
}

/// The mathematical value of a [`JsonMember`].
pub ghost struct MemberModel {
    pub name: Seq<char>,
    pub value: JsonModel,
}

impl View for RedisReply {
    type V = ReplyModel;

    open spec fn view(&self) -> ReplyModel
        decreases self,
    {
        match self {
            RedisReply::Nil => ReplyModel::Nil,
            RedisReply::Int(n) => ReplyModel::Int(*n as int),
            RedisReply::Data(bytes) => ReplyModel::Data(bytes@),
            RedisReply::Bulk(items) => ReplyModel::Bulk(
                Seq::new(
                    items@.len(),
                    |i: int|
                        if 0 <= i < items@.len() {
                            items@[i].view()
                        } else {
                            ReplyModel::Nil
                        },
                ),
            ),
            RedisReply::Status(s) => ReplyModel::Status(s@),
            RedisReply::Okay => ReplyModel::Okay,
        }
    }
}

impl View for JsonValue {
    type V = JsonModel;

    open spec fn view(&self) -> JsonModel
        decreases self,
    {
        match self {
            JsonValue::Null => JsonModel::Null,
            JsonValue::Number(n) => JsonModel::Number(*n as int),
            JsonValue::String(s) => JsonModel::String(s@),
            JsonValue::Array(items) => JsonModel::Array(
                Seq::new(
                    items@.len(),
                    |i: int|
                        if 0 <= i < items@.len() {
                            items@[i].view()
                        } else {
                            JsonModel::Null
                        },
                ),
            ),
            JsonValue::Object(members) => JsonModel::Object(
                Seq::new(
                    members@.len(),
                    |i: int|
                        if 0 <= i < members@.len() {
                            MemberModel { name: members@[i].name@, value: members@[i].value.view() }
                        } else {
                            MemberModel { name: Seq::empty(), value: JsonModel::Null }
                        },
                ),
            ),
        }
    }
}

/// The view of an array is the sequence of its items' views.
pub proof fn lemma_array_view(items: Vec<JsonValue>)
    ensures
        JsonValue::Array(items)@ is Array,
        JsonValue::Array(items)@->Array_0.len() == items@.len(),
        forall|i: int|
            0 <= i < items@.len() ==> (#[trigger] JsonValue::Array(items)@->Array_0[i])
                == items@[i]@,
{
}

/// The view of an object is the sequence of its members' views.
pub proof fn lemma_object_view(members: Vec<JsonMember>)
    ensures
        JsonValue::Object(members)@ is Object,
        JsonValue::Object(members)@->Object_0.len() == members@.len(),
        forall|i: int|
            0 <= i < members@.len() ==> (#[trigger] JsonValue::Object(members)@->Object_0[i])
                == (MemberModel { name: members@[i].name@, value: members@[i].value@ }),
{
}

/// The view of an array reply is the sequence of its items' views.
pub proof fn lemma_bulk_view(items: Vec<RedisReply>)
    ensures
        RedisReply::Bulk(items)@ is Bulk,
        RedisReply::Bulk(items)@->Bulk_0.len() == items@.len(),
        forall|i: int|
            0 <= i < items@.len() ==> (#[trigger] RedisReply::Bulk(items)@->Bulk_0[i])
                == items@[i]@,
{
}

/// The JSON value that answers a reply: nil is `null`; an integer is a
/// number; a bulk string is a string where its bytes are UTF-8 and `null`
/// where they are not; a status is a string, `OK` the string `"OK"`; an
/// array is the array of its items' answers.
pub open spec fn reply_to_json(reply: ReplyModel) -> JsonModel
    decreases reply,
{
    match reply {
        ReplyModel::Nil => JsonModel::Null,
        ReplyModel::Int(n) => JsonModel::Number(n),
        ReplyModel::Data(bytes) => if valid_utf8(bytes) {
            JsonModel::String(decode_utf8(bytes))
        } else {
            JsonModel::Null
        },
        ReplyModel::Bulk(items) => JsonModel::Array(
            Seq::new(
                items.len(),
                |i: int|
                    if 0 <= i < items.len() {
                        reply_to_json(items[i])
                    } else {
                        JsonModel::Null
                    },
            ),
        ),
        ReplyModel::Status(s) => JsonModel::String(s),
        ReplyModel::Okay => JsonModel::String(seq!['O', 'K']),
    }
}

/// `String::from_utf8` turns bytes into the text they encode; it fails
/// exactly where the bytes are not valid UTF-8.
#[verifier::external_body]
pub(crate) fn text_from_utf8(bytes: Vec<u8>) -> (r: Option<String>)
    ensures
        r is Some <==> valid_utf8(bytes@),
        r matches Some(s) ==> s@ == decode_utf8(bytes@),
{
    String::from_utf8(bytes).ok()
}

/// Converts a Redis reply to the JSON value that answers it.
pub fn redis_value_to_json(value: RedisReply) -> (json: JsonValue)
    ensures
        json@ == reply_to_json(value@),
    decreases value,
{
    match value {
        RedisReply::Nil => JsonValue::Null,
        RedisReply::Int(n) => JsonValue::Number(n),
        RedisReply::Data(bytes) => match text_from_utf8(bytes) {
            Some(s) => JsonValue::String(s),
            None => JsonValue::Null,
        },
        RedisReply::Bulk(items) => {
            let mut out: Vec<JsonValue> = Vec::new();
            let ghost all = items@;
            for item in it: items
                invariant
                    it.seq() == all,
                    out.len() == it.index(),
                    forall|i: int| 0 <= i < out.len() ==> out@[i]@ == reply_to_json(all[i]@),
                    forall|i: int| 0 <= i < all.len() ==> decreases_to!(value => all[i]),
            {
                let json = redis_value_to_json(item);
                out.push(json);
            }
            let result = JsonValue::Array(out);
            proof {
                let got = Seq::new(
                    out@.len(),
                    |i: int|
                        if 0 <= i < out@.len() {
                            out@[i]@
                        } else {
                            JsonModel::Null
                        },
                );
                let models = Seq::new(
                    all.len(),
                    |i: int|
                        if 0 <= i < all.len() {
                            all[i]@
                        } else {
                            ReplyModel::Nil
                        },
                );
                let want = Seq::new(
                    models.len(),
                    |i: int|
                        if 0 <= i < models.len() {
                            reply_to_json(models[i])
                        } else {
                            JsonModel::Null
                        },
                );
                assert(got =~= want);
                assert(value@ is Bulk && value@->Bulk_0 =~= models);
                assert(reply_to_json(value@)->Array_0 =~= want);
                assert(result@->Array_0 =~= got);
            }
            result
        },
        RedisReply::Status(s) => JsonValue::String(s),
        RedisReply::Okay => {
            proof {
                reveal_strlit("OK");
            }
            let s = "OK".to_string();
            assert(s@ == seq!['O', 'K']);
            JsonValue::String(s)
        },
    }
}

} // verus!
