//! The token service: signing the claims of a credential into a bearer
//! token, and verifying a token back into its claims.

use vstd::prelude::*;
use vstd::string::{StrSliceExecFns, StringSliceAdditionalSpecFns};
use crate::claims::{
    current_timestamp, on_the_clock, ApiKeyClaims, ApiKeyClaimsModel, Claims, ClaimsModel, TokenClaims,
    TokenClaimsModel,
};
use crate::error::AuthError;
use crate::json::{
    decode_json, encode_json, fits, lemma_parse_render, lemma_render_parse, parse, render,
};
use crate::reply::{
    lemma_array_view, lemma_object_view, JsonMember, JsonModel, JsonValue, MemberModel,
};
use crate::claims::{api_key_claims, API_KEY_SECONDS};
use crate::payload::{lenient_claims, read_claims};
use crate::text::{leading, leading_chars, same_text, texts};

verus! {

/// The token that `jsonwebtoken::encode` makes of a payload, which is
/// JSON text, with the default header and a secret for HMAC-SHA256; none
/// where it fails.
pub uninterp spec fn sealed(payload: Seq<char>, secret: Seq<u8>) -> Option<Seq<char>>;

/// The payload that `jsonwebtoken::decode` finds in a token whose
/// signature fits the secret, without regard to the time; none where the
/// token is malformed or the signature does not fit.
pub uninterp spec fn opened(token: Seq<char>, secret: Seq<u8>) -> Option<Seq<char>>;

/// The strings of a sequence, as JSON values.
pub open spec fn string_values(items: Seq<Seq<char>>) -> Seq<JsonModel> {
    Seq::new(items.len(), |i: int| JsonModel::String(items[i]))
}

/// Whether every value of a sequence is a string.
pub open spec fn all_strings(items: Seq<JsonModel>) -> bool {
    forall|i: int| 0 <= i < items.len() ==> (#[trigger] items[i]) is String
}

/// The strings that the values of a sequence hold.
pub open spec fn strings_in(items: Seq<JsonModel>) -> Seq<Seq<char>> {
    Seq::new(items.len(), |i: int| items[i]->String_0)
}

/// The payload of the claims of an API key: an object with the members
/// `api_key_id`, `user_id`, `organization_id`, `scopes`, `key_prefix`,
/// `exp` and `iat`, in this order.
pub open spec fn api_key_payload(c: ApiKeyClaimsModel) -> JsonModel {
    JsonModel::Object(
        seq![
            MemberModel { name: "api_key_id"@, value: JsonModel::String(c.api_key_id) },
            MemberModel { name: "user_id"@, value: JsonModel::String(c.user_id) },
            MemberModel { name: "organization_id"@, value: JsonModel::String(c.organization_id) },
            MemberModel { name: "scopes"@, value: JsonModel::Array(string_values(c.scopes)) },
            MemberModel { name: "key_prefix"@, value: JsonModel::String(c.key_prefix) },
            MemberModel { name: "exp"@, value: JsonModel::Number(c.exp) },
            MemberModel { name: "iat"@, value: JsonModel::Number(c.iat) },
        ],
    )
}

/// The payload of the claims of a user session: an object with the
/// members `user_id`, `email`, `org_id`, `exp` and `iat`, in this order;
/// `org_id` is `null` where the user has no organization.
pub open spec fn session_payload(c: ClaimsModel) -> JsonModel {
    JsonModel::Object(
        seq![
            MemberModel { name: "user_id"@, value: JsonModel::String(c.user_id) },
            MemberModel { name: "email"@, value: JsonModel::String(c.email) },
            MemberModel {
                name: "org_id"@,
                value: match c.org_id {
                    Some(id) => JsonModel::String(id),
                    None => JsonModel::Null,
                },
            },
            MemberModel { name: "exp"@, value: JsonModel::Number(c.exp) },
            MemberModel { name: "iat"@, value: JsonModel::Number(c.iat) },
        ],
    )
}

/// The payload of claims of either shape.
pub open spec fn payload_of(c: TokenClaimsModel) -> JsonModel {
    match c {
        TokenClaimsModel::User(c) => session_payload(c),
        TokenClaimsModel::ApiKey(c) => api_key_payload(c),
    }
}

/// Whether an object has the members of the claims of an API key.
pub open spec fn is_api_key_payload(ms: Seq<MemberModel>) -> bool {
    &&& ms.len() == 7
    &&& ms[0].name == "api_key_id"@ && ms[0].value is String
    &&& ms[1].name == "user_id"@ && ms[1].value is String
    &&& ms[2].name == "organization_id"@ && ms[2].value is String
    &&& ms[3].name == "scopes"@ && ms[3].value is Array && all_strings(ms[3].value->Array_0)
    &&& ms[4].name == "key_prefix"@ && ms[4].value is String
    &&& ms[5].name == "exp"@ && ms[5].value is Number
    &&& ms[6].name == "iat"@ && ms[6].value is Number
}

/// Whether an object has the members of the claims of a user session.
pub open spec fn is_session_payload(ms: Seq<MemberModel>) -> bool {
    &&& ms.len() == 5
    &&& ms[0].name == "user_id"@ && ms[0].value is String
    &&& ms[1].name == "email"@ && ms[1].value is String
    &&& ms[2].name == "org_id"@ && (ms[2].value is String || ms[2].value is Null)
    &&& ms[3].name == "exp"@ && ms[3].value is Number
    &&& ms[4].name == "iat"@ && ms[4].value is Number
}

/// The claims that a payload holds, if it has the members of one of the
/// two shapes. The shapes are told apart by the member `api_key_id`.
pub open spec fn claims_of(v: JsonModel) -> Option<TokenClaimsModel> {
    match v {
        JsonModel::Object(ms) => if is_api_key_payload(ms) {
            Some(
                TokenClaimsModel::ApiKey(
                    ApiKeyClaimsModel {
                        api_key_id: ms[0].value->String_0,
                        user_id: ms[1].value->String_0,
                        organization_id: ms[2].value->String_0,
                        scopes: strings_in(ms[3].value->Array_0),
                        key_prefix: ms[4].value->String_0,
                        exp: ms[5].value->Number_0,
                        iat: ms[6].value->Number_0,
                    },
                ),
            )
        } else if is_session_payload(ms) {
            Some(
                TokenClaimsModel::User(
                    ClaimsModel {
                        user_id: ms[0].value->String_0,
                        email: ms[1].value->String_0,
                        org_id: if ms[2].value is String {
                            Some(ms[2].value->String_0)
                        } else {
                            None
                        },
                        exp: ms[3].value->Number_0,
                        iat: ms[4].value->Number_0,
                    },
                ),
            )
        } else {
            None
        },
        _ => None,
    }
}

/// The second at which claims expire.
pub open spec fn expiry(c: TokenClaimsModel) -> int {
    match c {
        TokenClaimsModel::User(c) => c.exp,
        TokenClaimsModel::ApiKey(c) => c.exp,
    }
}

/// Whether the seconds of claims fit 64 bits.
pub open spec fn well_formed(c: TokenClaimsModel) -> bool {
    match c {
        TokenClaimsModel::User(c) => i64::MIN <= c.exp <= i64::MAX && i64::MIN <= c.iat
            <= i64::MAX,
        TokenClaimsModel::ApiKey(c) => i64::MIN <= c.exp <= i64::MAX && i64::MIN <= c.iat
            <= i64::MAX,
    }
}

/// Whether a text is the payload of claims.
pub open spec fn is_claims_text(text: Seq<char>) -> bool {
    parse(text) is Some && claims_of(parse(text)->0) is Some
}

/// The token for claims under a secret; none where signing fails.
pub open spec fn signed(c: TokenClaimsModel, secret: Seq<u8>) -> Option<Seq<char>> {
    sealed(render(payload_of(c)), secret)
}

/// The claims that the text of a payload holds. A payload in the form in
/// which this library writes it holds the claims that it was written
/// from. A payload of another issuer is read with its members in any
/// order, with blanks, and with members beyond those of the claims.
pub open spec fn claims_in(text: Seq<char>) -> Option<TokenClaimsModel> {
    if is_claims_text(text) {
        claims_of(parse(text)->0)
    } else {
        lenient_claims(text)
    }
}

/// What verifying a token under a secret at the second `now` gives: the
/// claims of its payload, where its signature fits, its payload holds
/// claims, and these expire after `now`.
pub open spec fn verified(token: Seq<char>, secret: Seq<u8>, now: int) -> Result<
    TokenClaimsModel,
    AuthError,
> {
    match opened(token, secret) {
        None => Err(AuthError::InvalidToken),
        Some(text) => match claims_in(text) {
            None => Err(AuthError::InvalidToken),
            Some(c) => if expiry(c) > now {
                Ok(c)
            } else {
                Err(AuthError::InvalidToken)
            },
        },
    }
}

/// What is read back from the payload of claims is the claims.
pub proof fn lemma_claims_of_payload(c: TokenClaimsModel)
    ensures
        claims_of(payload_of(c)) == Some(c),
{
    match c {
        TokenClaimsModel::ApiKey(k) => {
            let ms = api_key_payload(k)->Object_0;
            assert(ms.len() == 7);
            assert(strings_in(string_values(k.scopes)) =~= k.scopes);
            assert(all_strings(string_values(k.scopes)));
        },
        TokenClaimsModel::User(u) => {
            let ms = session_payload(u)->Object_0;
            assert(ms.len() == 5);
            assert(!is_api_key_payload(ms));
        },
    }
}

/// The text of the payload of well-formed claims is read back as the
/// claims.
pub proof fn lemma_claims_text(c: TokenClaimsModel)
    requires
        well_formed(c),
    ensures
        parse(render(payload_of(c))) == Some(payload_of(c)),
        claims_of(payload_of(c)) == Some(c),
        is_claims_text(render(payload_of(c))),
{
    lemma_claims_of_payload(c);
    match c {
        TokenClaimsModel::ApiKey(k) => {
            let ms = api_key_payload(k)->Object_0;
            assert(ms.len() == 7);
            let scopes = string_values(k.scopes);
            assert forall|i: int| 0 <= i < scopes.len() implies fits(#[trigger] scopes[i]) by {
                assert(scopes[i] == JsonModel::String(k.scopes[i]));
            }
            assert(fits(ms[3].value));
            assert forall|i: int| 0 <= i < ms.len() implies fits((#[trigger] ms[i]).value) by {
                if i == 0 {
                } else if i == 1 {
                } else if i == 2 {
                } else if i == 3 {
                } else if i == 4 {
                } else if i == 5 {
                } else {
                }
            }
            assert(fits(api_key_payload(k)));
        },
        TokenClaimsModel::User(u) => {
            let ms = session_payload(u)->Object_0;
            assert(ms.len() == 5);
            assert forall|i: int| 0 <= i < ms.len() implies fits((#[trigger] ms[i]).value) by {
                if i == 0 {
                } else if i == 1 {
                } else if i == 2 {
                } else if i == 3 {
                } else {
                }
            }
            assert(fits(session_payload(u)));
        },
    }
    lemma_parse_render(payload_of(c));
}

/// A payload that holds claims is the payload of these claims.
pub proof fn lemma_payload_of_claims(v: JsonModel)
    requires
        claims_of(v) is Some,
    ensures
        payload_of(claims_of(v)->0) == v,
{
    let ms = v->Object_0;
    let c = claims_of(v)->0;
    if is_api_key_payload(ms) {
        let k = c->ApiKey_0;
        let items = ms[3].value->Array_0;
        assert(string_values(strings_in(items)) =~= items) by {
            assert forall|i: int| 0 <= i < items.len() implies string_values(strings_in(items))[i]
                == items[i] by {
                assert(items[i] is String);
            }
        }
        let back = api_key_payload(k)->Object_0;
        assert(back.len() == 7);
        assert forall|i: int| 0 <= i < 7 implies back[i] == ms[i] by {
            if i == 0 {
            } else if i == 1 {
            } else if i == 2 {
            } else if i == 3 {
            } else if i == 4 {
            } else if i == 5 {
            } else {
            }
        }
        assert(back =~= ms);
    } else {
        let u = c->User_0;
        let back = session_payload(u)->Object_0;
        assert(back.len() == 5);
        assert forall|i: int| 0 <= i < 5 implies back[i] == ms[i] by {
            if i == 0 {
            } else if i == 1 {
            } else if i == 2 {
            } else if i == 3 {
            } else {
            }
        }
        assert(back =~= ms);
    }
}

/// A token verifies to claims only where it opens to a payload that
/// holds these claims, and only before they expire. A payload in the
/// written form that holds claims is the text of the payload of these
/// claims.
pub proof fn lemma_verified_only_with_claims(token: Seq<char>, secret: Seq<u8>, now: int)
    requires
        verified(token, secret, now) is Ok,
    ensures
        opened(token, secret) is Some,
        claims_in(opened(token, secret)->0) == Some(verified(token, secret, now)->Ok_0),
        expiry(verified(token, secret, now)->Ok_0) > now,
        is_claims_text(opened(token, secret)->0) ==> opened(token, secret) == Some(
            render(payload_of(verified(token, secret, now)->Ok_0)),
        ),
{
    let text = opened(token, secret)->0;
    if is_claims_text(text) {
        lemma_render_parse(text);
        lemma_payload_of_claims(parse(text)->0);
    }
}

/// A token that opens to the payload of well-formed claims verifies to
/// these claims at every second before they expire, and at no second from
/// then on.
pub proof fn lemma_verified_until_expiry(
    c: TokenClaimsModel,
    token: Seq<char>,
    secret: Seq<u8>,
    now: int,
)
    requires
        well_formed(c),
        opened(token, secret) == Some(render(payload_of(c))),
    ensures
        verified(token, secret, now) == while_valid(c, now),
        now < expiry(c) ==> verified(token, secret, now) == Ok::<TokenClaimsModel, AuthError>(c),
        now >= expiry(c) ==> verified(token, secret, now) is Err,
{
    lemma_claims_text(c);
}

/// `jsonwebtoken::encode` with the default header, which names
/// HMAC-SHA256, signs the payload with the secret and frames the token.
/// The payload goes in as a `serde_json::value::RawValue`, which takes
/// JSON text alone and is written out as it stands. The same payload and
/// secret always give the same token. A token made of the payload of
/// claims opens again, under the same secret, to the same payload: the
/// payload is carried as it is, and the signature that was just made
/// fits. The token is the header, the payload and the signature, joined
/// by dots.
#[verifier::external_body]
fn seal_payload(payload: &str, secret: &Vec<u8>) -> (r: Option<String>)
    ensures
        (match r {
            Some(token) => Some(token@),
            None => None,
        }) == sealed(payload@, secret@),
        r is Some && is_claims_text(payload@) ==> opened(r->0@, secret@) == Some(payload@),
        r is Some ==> r->0@.contains('.'),
{
    let raw = serde_json::value::RawValue::from_string(payload.to_string()).ok()?;
    let key = jsonwebtoken::EncodingKey::from_secret(secret.as_slice());
    jsonwebtoken::encode(&jsonwebtoken::Header::default(), &raw, &key).ok()
}

/// `jsonwebtoken::decode` checks the frame of the token and its signature
/// under HMAC-SHA256 with the secret, and hands out the payload, read as a
/// `serde_json::value::RawValue`, as it stands in the token. The expiry
/// and the presence of claims are not looked at here; a payload that names
/// an audience, as a string or as strings, is refused, as no audience is
/// expected. The same token and secret always give the same result. A text without a
/// dot is no token: the frame is split at its dots before anything else
/// is done.
#[verifier::external_body]
fn open_token(token: &str, secret: &Vec<u8>) -> (r: Option<String>)
    ensures
        (match r {
            Some(payload) => Some(payload@),
            None => None,
        }) == opened(token@, secret@),
        r is Some ==> token@.contains('.'),
{
    let mut validation = jsonwebtoken::Validation::default();
    validation.validate_exp = false;
    validation.required_spec_claims.clear();
    let key = jsonwebtoken::DecodingKey::from_secret(secret.as_slice());
    let data = jsonwebtoken::decode::<Box<serde_json::value::RawValue>>(token, &key, &validation);
    data.ok().map(|d| d.claims.get().to_string())
}

fn text_member(name: &str, value: &String) -> (m: JsonMember)
    ensures
        m.name@ == name@,
        m.value@ == JsonModel::String(value@),
{
    JsonMember { name: name.to_string(), value: JsonValue::String(value.clone()) }
}

fn number_member(name: &str, value: i64) -> (m: JsonMember)
    ensures
        m.name@ == name@,
        m.value@ == JsonModel::Number(value as int),
{
    JsonMember { name: name.to_string(), value: JsonValue::Number(value) }
}

/// The payload of the claims of an API key.
pub fn api_key_claims_to_json(c: &ApiKeyClaims) -> (v: JsonValue)
    ensures
        v@ == api_key_payload(c@),
{
    let mut scopes: Vec<JsonValue> = Vec::new();
    let mut i: usize = 0;
    while i < c.scopes.len()
        invariant
            i <= c.scopes.len(),
            scopes.len() == i,
            forall|j: int| 0 <= j < i ==> (#[trigger] scopes@[j])@ == JsonModel::String(
                c.scopes@[j]@,
            ),
        decreases c.scopes.len() - i,
    {
        scopes.push(JsonValue::String(c.scopes[i].clone()));
        i += 1;
    }
    proof {
        lemma_array_view(scopes);
    }
    let scopes_value = JsonValue::Array(scopes);
    assert(scopes_value@->Array_0 =~= string_values(c@.scopes));
    let mut members: Vec<JsonMember> = Vec::new();
    members.push(text_member("api_key_id", &c.api_key_id));
    members.push(text_member("user_id", &c.user_id));
    members.push(text_member("organization_id", &c.organization_id));
    members.push(JsonMember { name: "scopes".to_string(), value: scopes_value });
    members.push(text_member("key_prefix", &c.key_prefix));
    members.push(number_member("exp", c.exp));
    members.push(number_member("iat", c.iat));
    proof {
        lemma_object_view(members);
    }
    let v = JsonValue::Object(members);
    assert(v@->Object_0 =~= api_key_payload(c@)->Object_0);
    v
}

/// The payload of the claims of a user session.
pub fn session_claims_to_json(c: &Claims) -> (v: JsonValue)
    ensures
        v@ == session_payload(c@),
{
    let org = match &c.org_id {
        Some(id) => JsonValue::String(id.clone()),
        None => JsonValue::Null,
    };
    let mut members: Vec<JsonMember> = Vec::new();
    members.push(text_member("user_id", &c.user_id));
    members.push(text_member("email", &c.email));
    members.push(JsonMember { name: "org_id".to_string(), value: org });
    members.push(number_member("exp", c.exp));
    members.push(number_member("iat", c.iat));
    proof {
        lemma_object_view(members);
    }
    let v = JsonValue::Object(members);
    assert(v@->Object_0 =~= session_payload(c@)->Object_0);
    v
}

fn text_of(m: &JsonMember, name: &str) -> (r: Option<String>)
    ensures
        match r {
            Some(s) => m.name@ == name@ && m.value@ == JsonModel::String(s@),
            None => !(m.name@ == name@ && m.value@ is String),
        },
{
    if !same_text(m.name.as_str(), name) {
        return None;
    }
    match &m.value {
        JsonValue::String(s) => Some(s.clone()),
        _ => None,
    }
}

fn number_of(m: &JsonMember, name: &str) -> (r: Option<i64>)
    ensures
        match r {
            Some(n) => m.name@ == name@ && m.value@ == JsonModel::Number(n as int),
            None => !(m.name@ == name@ && m.value@ is Number),
        },
{
    if !same_text(m.name.as_str(), name) {
        return None;
    }
    match &m.value {
        JsonValue::Number(n) => Some(*n),
        _ => None,
    }
}

fn texts_of(m: &JsonMember, name: &str) -> (r: Option<Vec<String>>)
    ensures
        match r {
            Some(items) => m.name@ == name@ && m.value@ is Array && all_strings(
                m.value@->Array_0,
            ) && texts(items@) == strings_in(m.value@->Array_0),
            None => !(m.name@ == name@ && m.value@ is Array && all_strings(m.value@->Array_0)),
        },
{
    if !same_text(m.name.as_str(), name) {
        return None;
    }
    match &m.value {
        JsonValue::Array(values) => {
            proof {
                lemma_array_view(*values);
            }
            let ghost ms = m.value@->Array_0;
            let mut items: Vec<String> = Vec::new();
            let mut i: usize = 0;
            while i < values.len()
                invariant
                    i <= values.len(),
                    items.len() == i,
                    ms == m.value@->Array_0,
                    ms.len() == values@.len(),
                    forall|j: int| 0 <= j < values@.len() ==> #[trigger] ms[j] == values@[j]@,
                    forall|j: int|
                        0 <= j < i ==> (#[trigger] ms[j]) is String && ms[j]->String_0
                            == items@[j]@,
                decreases values.len() - i,
            {
                match &values[i] {
                    JsonValue::String(s) => {
                        items.push(s.clone());
                    },
                    _ => {
                        assert(!(ms[i as int] is String));
                        return None;
                    },
                }
                i += 1;
            }
            assert(texts(items@) =~= strings_in(ms));
            Some(items)
        },
        _ => None,
    }
}

/// The claims that a payload holds.
pub fn claims_from_json(v: &JsonValue) -> (r: Option<TokenClaims>)
    ensures
        (match r {
            Some(c) => Some(c@),
            None => None,
        }) == claims_of(v@),
{
    let members = match v {
        JsonValue::Object(members) => members,
        _ => {
            return None;
        },
    };
    proof {
        lemma_object_view(*members);
    }
    let ghost ms = v@->Object_0;
    if members.len() == 7 {
        assert(!is_session_payload(ms));
        let api_key_id = match text_of(&members[0], "api_key_id") {
            Some(s) => s,
            None => {
                return None;
            },
        };
        let user_id = match text_of(&members[1], "user_id") {
            Some(s) => s,
            None => {
                return None;
            },
        };
        let organization_id = match text_of(&members[2], "organization_id") {
            Some(s) => s,
            None => {
                return None;
            },
        };
        let scopes = match texts_of(&members[3], "scopes") {
            Some(s) => s,
            None => {
                return None;
            },
        };
        let key_prefix = match text_of(&members[4], "key_prefix") {
            Some(s) => s,
            None => {
                return None;
            },
        };
        let exp = match number_of(&members[5], "exp") {
            Some(n) => n,
            None => {
                return None;
            },
        };
        let iat = match number_of(&members[6], "iat") {
            Some(n) => n,
            None => {
                return None;
            },
        };
        assert(is_api_key_payload(ms));
        Some(
            TokenClaims::ApiKey(
                ApiKeyClaims { api_key_id, user_id, organization_id, scopes, key_prefix, exp, iat },
            ),
        )
    } else if members.len() == 5 {
        assert(!is_api_key_payload(ms));
        let user_id = match text_of(&members[0], "user_id") {
            Some(s) => s,
            None => {
                return None;
            },
        };
        let email = match text_of(&members[1], "email") {
            Some(s) => s,
            None => {
                return None;
            },
        };
        if !same_text(members[2].name.as_str(), "org_id") {
            return None;
        }
        let org_id = match &members[2].value {
            JsonValue::String(s) => Some(s.clone()),
            JsonValue::Null => None,
            _ => {
                return None;
            },
        };
        let exp = match number_of(&members[3], "exp") {
            Some(n) => n,
            None => {
                return None;
            },
        };
        let iat = match number_of(&members[4], "iat") {
            Some(n) => n,
            None => {
                return None;
            },
        };
        assert(is_session_payload(ms));
        Some(TokenClaims::User(Claims { user_id, email, org_id, exp, iat }))
    } else {
        None
    }
}

/// Reads the claims that the text of a payload holds.
pub fn read_payload(text: &str) -> (r: Option<TokenClaims>)
    ensures
        (match r {
            Some(c) => Some(c@),
            None => None,
        }) == claims_in(text@),
{
    let written = match decode_json(text) {
        Some(v) => claims_from_json(&v),
        None => None,
    };
    match written {
        Some(c) => Some(c),
        None => read_claims(text),
    }
}

/// The claims of a verified token of one shape.
#[derive(Debug, Clone, PartialEq, Eq)]
pub struct TokenData<T> {
    pub claims: T,
}

/// Signs and verifies tokens with one symmetric secret.
#[derive(Clone)]
pub struct JwtManager {
    secret: Vec<u8>,
}

/// The claims of a user session in what a verification gave; the claims
/// of an API key are no user session.
pub open spec fn as_session(r: Result<TokenClaimsModel, AuthError>) -> Result<
    ClaimsModel,
    AuthError,
> {
    match r {
        Ok(TokenClaimsModel::User(c)) => Ok(c),
        Ok(TokenClaimsModel::ApiKey(_)) => Err(AuthError::InvalidToken),
        Err(e) => Err(e),
    }
}

/// The claims of an API key in what a verification gave; the claims of a
/// user session are no API key.
pub open spec fn as_api_key(r: Result<TokenClaimsModel, AuthError>) -> Result<
    ApiKeyClaimsModel,
    AuthError,
> {
    match r {
        Ok(TokenClaimsModel::ApiKey(c)) => Ok(c),
        Ok(TokenClaimsModel::User(_)) => Err(AuthError::InvalidToken),
        Err(e) => Err(e),
    }
}

/// What verifying a token made of the claims `c` gives at the second
/// `now`: the claims until they expire, nothing from then on.
pub open spec fn while_valid(c: TokenClaimsModel, now: int) -> Result<TokenClaimsModel, AuthError> {
    if expiry(c) > now {
        Ok(c)
    } else {
        Err(AuthError::InvalidToken)
    }
}

/// The outcome of a verification, as a mathematical value.
pub open spec fn claims_view(r: Result<TokenClaims, AuthError>) -> Result<
    TokenClaimsModel,
    AuthError,
> {
    match r {
        Ok(c) => Ok(c@),
        Err(e) => Err(e),
    }
}

impl JwtManager {
    /// The secret, as bytes.
    pub closed spec fn secret(&self) -> Seq<u8> {
        self.secret@
    }

    /// A manager for the secret `secret`.
    pub fn new(secret: &str) -> (r: Self)
        ensures
            r.secret() == secret.spec_bytes(),
    {
        JwtManager { secret: secret.as_bytes_vec() }
    }

    fn sign(&self, payload: &JsonValue, Ghost(c): Ghost<TokenClaimsModel>) -> (r: Result<
        String,
        AuthError,
    >)
        requires
            payload@ == payload_of(c),
            well_formed(c),
        ensures
            match r {
                Ok(token) => signed(c, self.secret()) == Some(token@) && token@.contains('.')
                    && forall|now: int|
                    #[trigger] verified(token@, self.secret(), now) == while_valid(c, now),
                Err(e) => e == AuthError::TokenCreationFailed && signed(c, self.secret()) is None,
            },
    {
        let text = encode_json(payload);
        proof {
            lemma_claims_text(c);
        }
        match seal_payload(text.as_str(), &self.secret) {
            Some(token) => Ok(token),
            None => Err(AuthError::TokenCreationFailed),
        }
    }

    /// Signs the claims of a user session into a token. The token
    /// verifies under the same secret to the same claims until they
    /// expire, and not at all from then on.
    pub fn create_token(&self, claims: &Claims) -> (r: Result<String, AuthError>)
        ensures
            match r {
                Ok(token) => signed(TokenClaimsModel::User(claims@), self.secret()) == Some(
                    token@,
                ) && token@.contains('.') && forall|now: int|
                    #[trigger] verified(token@, self.secret(), now) == while_valid(
                        TokenClaimsModel::User(claims@),
                        now,
                    ),
                Err(e) => e == AuthError::TokenCreationFailed && signed(
                    TokenClaimsModel::User(claims@),
                    self.secret(),
                ) is None,
            },
    {
        let payload = session_claims_to_json(claims);
        self.sign(&payload, Ghost(TokenClaimsModel::User(claims@)))
    }

    /// Signs the claims of an API key into a token. The token verifies
    /// under the same secret to the same claims until they expire, and
    /// not at all from then on.
    pub fn create_api_key_token(&self, claims: &ApiKeyClaims) -> (r: Result<String, AuthError>)
        ensures
            match r {
                Ok(token) => signed(TokenClaimsModel::ApiKey(claims@), self.secret()) == Some(
                    token@,
                ) && token@.contains('.') && forall|now: int|
                    #[trigger] verified(token@, self.secret(), now) == while_valid(
                        TokenClaimsModel::ApiKey(claims@),
                        now,
                    ),
                Err(e) => e == AuthError::TokenCreationFailed && signed(
                    TokenClaimsModel::ApiKey(claims@),
                    self.secret(),
                ) is None,
            },
    {
        let payload = api_key_claims_to_json(claims);
        self.sign(&payload, Ghost(TokenClaimsModel::ApiKey(claims@)))
    }

    /// Verifies a token at the second `now`.
    pub fn verify_at(&self, token: &str, now: i64) -> (r: Result<TokenClaims, AuthError>)
        ensures
            claims_view(r) == verified(token@, self.secret(), now as int),
            !token@.contains('.') ==> r == Err::<TokenClaims, AuthError>(AuthError::InvalidToken),
    {
        let text = match open_token(token, &self.secret) {
            Some(text) => text,
            None => {
                return Err(AuthError::InvalidToken);
            },
        };
        let claims = match read_payload(text.as_str()) {
            Some(c) => c,
            None => {
                return Err(AuthError::InvalidToken);
            },
        };
        let exp = match &claims {
            TokenClaims::User(c) => c.exp,
            TokenClaims::ApiKey(c) => c.exp,
        };
        if exp > now {
            Ok(claims)
        } else {
            Err(AuthError::InvalidToken)
        }
    }

    /// Verifies a token now.
    pub fn verify(&self, token: &str) -> (r: Result<TokenClaims, AuthError>)
        ensures
            exists|now: int|
                on_the_clock(now) && claims_view(r) == #[trigger] verified(
                    token@,
                    self.secret(),
                    now,
                ),
            !token@.contains('.') ==> r == Err::<TokenClaims, AuthError>(AuthError::InvalidToken),
    {
        let now = current_timestamp();
        self.verify_at(token, now)
    }

    /// Verifies the token of a user session at the second `now`.
    pub fn verify_token_at(&self, token: &str, now: i64) -> (r: Result<TokenData<Claims>, AuthError>)
        ensures
            (match r {
                Ok(data) => Ok(data.claims@),
                Err(e) => Err(e),
            }) == as_session(verified(token@, self.secret(), now as int)),
            !token@.contains('.') ==> r is Err && r->Err_0 == AuthError::InvalidToken,
    {
        match self.verify_at(token, now) {
            Ok(TokenClaims::User(claims)) => Ok(TokenData { claims }),
            Ok(TokenClaims::ApiKey(_)) => Err(AuthError::InvalidToken),
            Err(e) => Err(e),
        }
    }

    /// Verifies the token of a user session now.
    pub fn verify_token(&self, token: &str) -> (r: Result<TokenData<Claims>, AuthError>)
        ensures
            exists|now: int|
                on_the_clock(now) && (match r {
                    Ok(data) => Ok(data.claims@),
                    Err(e) => Err(e),
                }) == as_session(#[trigger] verified(token@, self.secret(), now)),
            !token@.contains('.') ==> r is Err && r->Err_0 == AuthError::InvalidToken,
    {
        let now = current_timestamp();
        self.verify_token_at(token, now)
    }

    /// Verifies the token of an API key at the second `now`.
    pub fn verify_api_key_token_at(&self, token: &str, now: i64) -> (r: Result<
        TokenData<ApiKeyClaims>,
        AuthError,
    >)
        ensures
            (match r {
                Ok(data) => Ok(data.claims@),
                Err(e) => Err(e),
            }) == as_api_key(verified(token@, self.secret(), now as int)),
            !token@.contains('.') ==> r is Err && r->Err_0 == AuthError::InvalidToken,
    {
        match self.verify_at(token, now) {
            Ok(TokenClaims::ApiKey(claims)) => Ok(TokenData { claims }),
            Ok(TokenClaims::User(_)) => Err(AuthError::InvalidToken),
            Err(e) => Err(e),
        }
    }

    /// Verifies the token of an API key now.
    pub fn verify_api_key_token(&self, token: &str) -> (r: Result<
        TokenData<ApiKeyClaims>,
        AuthError,
    >)
        ensures
            exists|now: int|
                on_the_clock(now) && (match r {
                    Ok(data) => Ok(data.claims@),
                    Err(e) => Err(e),
                }) == as_api_key(#[trigger] verified(token@, self.secret(), now)),
            !token@.contains('.') ==> r is Err && r->Err_0 == AuthError::InvalidToken,
    {
        let now = current_timestamp();
        self.verify_api_key_token_at(token, now)
    }
}

/// A new API key: its token and the handle under which it is shown.
#[derive(Debug, Clone, PartialEq, Eq)]
pub struct IssuedApiKey {
    pub token: String,
    pub key_prefix: String,
}

/// The claims of an API key that is issued at the second `now`: those of
/// the key, with the first eight characters of its identifier as its
/// handle.
pub open spec fn issued_key_claims(
    api_key_id: Seq<char>,
    user_id: Seq<char>,
    organization_id: Seq<char>,
    scopes: Seq<Seq<char>>,
    expires_at: Option<i64>,
    now: int,
) -> TokenClaimsModel {
    TokenClaimsModel::ApiKey(
        api_key_claims(
            api_key_id,
            user_id,
            organization_id,
            scopes,
            leading(api_key_id, 8),
            expires_at,
            now,
        ),
    )
}

/// What issuing an API key with the claims `c` gives. The key is issued
/// exactly where the claims can be signed; its handle is the first eight
/// characters of its identifier; its token is the token for the claims,
/// which verifies to the claims at every second before they expire and at
/// none from then on. Where the claims cannot be signed, issuing fails.
pub open spec fn issued(
    r: Result<IssuedApiKey, AuthError>,
    c: TokenClaimsModel,
    secret: Seq<u8>,
    api_key_id: Seq<char>,
) -> bool {
    match r {
        Ok(key) => {
            &&& key.key_prefix@ == leading(api_key_id, 8)
            &&& signed(c, secret) == Some(key.token@)
            &&& key.token@.contains('.')
            &&& forall|at: int| #[trigger] verified(key.token@, secret, at) == while_valid(c, at)
        },
        Err(e) => e == AuthError::TokenCreationFailed && signed(c, secret) is None,
    }
}

/// Issues an API key at the second `now`.
pub fn generate_api_key_jwt_at(
    manager: &JwtManager,
    api_key_id: String,
    user_id: String,
    organization_id: String,
    scopes: Vec<String>,
    expires_at: Option<i64>,
    now: i64,
) -> (r: Result<IssuedApiKey, AuthError>)
    requires
        now + API_KEY_SECONDS <= i64::MAX,
    ensures
        issued(
            r,
            issued_key_claims(
                api_key_id@,
                user_id@,
                organization_id@,
                texts(scopes@),
                expires_at,
                now as int,
            ),
            manager.secret(),
            api_key_id@,
        ),
{
    let key_prefix = leading_chars(api_key_id.as_str(), 8);
    let claims = ApiKeyClaims::issued_at(
        api_key_id,
        user_id,
        organization_id,
        scopes,
        key_prefix.clone(),
        expires_at,
        now,
    );
    match manager.create_api_key_token(&claims) {
        Ok(token) => Ok(IssuedApiKey { token, key_prefix }),
        Err(e) => Err(e),
    }
}

/// Issues an API key now: its handle is the first eight characters of
/// its identifier, and its token carries the claims of the key.
pub fn generate_api_key_jwt(
    manager: &JwtManager,
    api_key_id: String,
    user_id: String,
    organization_id: String,
    scopes: Vec<String>,
    expires_at: Option<i64>,
) -> (r: Result<IssuedApiKey, AuthError>)
    ensures
        exists|now: int|
            on_the_clock(now) && #[trigger] issued(
                r,
                issued_key_claims(
                    api_key_id@,
                    user_id@,
                    organization_id@,
                    texts(scopes@),
                    expires_at,
                    now,
                ),
                manager.secret(),
                api_key_id@,
            ),
{
    let now = current_timestamp();
    let r = generate_api_key_jwt_at(
        manager,
        api_key_id,
        user_id,
        organization_id,
        scopes,
        expires_at,
        now,
    );
    assert(issued(
        r,
        issued_key_claims(
            api_key_id@,
            user_id@,
            organization_id@,
            texts(scopes@),
            expires_at,
            now as int,
        ),
        manager.secret(),
        api_key_id@,
    ));
    r
}

} // verus!
