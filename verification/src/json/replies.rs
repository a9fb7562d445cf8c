//! What holds of the text of values, and of the text of the answers to replies.

use vstd::prelude::*;
use vstd::utf8::{encode_utf8, encode_utf8_decode_utf8, encode_utf8_valid_utf8};
use crate::json::written::lemma_parse_render;
use crate::json::{fits, parse, render};
use crate::reply::{
    lemma_array_view, lemma_bulk_view, lemma_object_view, reply_to_json, JsonModel, JsonValue,
    RedisReply, ReplyModel,
};

verus! {

pub proof fn lemma_view_fits(v: JsonValue)
    ensures
        fits(v@),
    decreases v,
{
    match v {
        JsonValue::Array(items) => {
            lemma_array_view(items);
            assert forall|i: int| 0 <= i < v@->Array_0.len() implies fits(
                #[trigger] v@->Array_0[i],
            ) by {
                lemma_view_fits(items@[i]);
            }
        },
        JsonValue::Object(members) => {
            lemma_object_view(members);
            assert forall|i: int| 0 <= i < v@->Object_0.len() implies fits(
                (#[trigger] v@->Object_0[i]).value,
            ) by {
                lemma_view_fits(members@[i].value);
            }
        },
        _ => {},
    }
}

/// What the gateway writes, it reads back as the same value.
pub proof fn lemma_decode_encode(v: JsonValue)
    ensures
        parse(render(v@)) == Some(v@),
{
    lemma_view_fits(v);
    lemma_parse_render(v@);
}

/// The JSON value that answers a reply fits 64 bits in every number.
pub proof fn lemma_reply_json_fits(reply: RedisReply)
    ensures
        fits(reply_to_json(reply@)),
    decreases reply,
{
    match reply {
        RedisReply::Bulk(items) => {
            lemma_bulk_view(items);
            let answers = reply_to_json(reply@)->Array_0;
            assert forall|i: int| 0 <= i < answers.len() implies fits(#[trigger] answers[i]) by {
                lemma_reply_json_fits(items@[i]);
                assert(answers[i] == reply_to_json(reply@->Bulk_0[i]));
            }
        },
        _ => {},
    }
}

/// The answer to any reply, written as text, is JSON text, and reads
/// back as the same JSON value.
pub proof fn lemma_reply_text_reads_back(reply: RedisReply)
    ensures
        parse(render(reply_to_json(reply@))) == Some(reply_to_json(reply@)),
{
    lemma_reply_json_fits(reply);
    lemma_parse_render(reply_to_json(reply@));
}

/// An integer reply comes back from its JSON text as the same integer.
pub proof fn lemma_integer_reply_round_trip(n: i64)
    ensures
        parse(render(reply_to_json(ReplyModel::Int(n as int)))) == Some(
            JsonModel::Number(n as int),
        ),
{
    lemma_parse_render(JsonModel::Number(n as int));
}

/// A bulk reply that holds the UTF-8 bytes of a text comes back from its
/// JSON text as the same text.
pub proof fn lemma_text_reply_round_trip(s: Seq<char>)
    ensures
        parse(render(reply_to_json(ReplyModel::Data(encode_utf8(s))))) == Some(
            JsonModel::String(s),
        ),
{
    encode_utf8_valid_utf8(s);
    encode_utf8_decode_utf8(s);
    lemma_parse_render(JsonModel::String(s));
}


} // verus!
