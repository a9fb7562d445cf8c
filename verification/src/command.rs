//! From a command name and its arguments to the request that is sent to
//! Redis, and from what Redis answers to the JSON reply.

use vstd::prelude::*;
use crate::error::{ErrorModel, GatewayError};
use crate::number::{
    decimal, decimal_digits, decimal_string, parse_decimal, parse_i64, parse_u64,
    push_decimal_digits,
};
use crate::reply::{
    lemma_object_view, redis_value_to_json, reply_to_json, JsonMember, JsonModel, JsonValue,
    MemberModel, RedisReply, ReplyModel,
};
use crate::text::{
    chars_of, join2, optional_text, same_chars, string_of, texts, to_upper, upper_form,
};

verus! {

/// A command of the allow-list.
#[derive(Debug, Clone, Copy, PartialEq, Eq, Structural)]
pub enum CommandKind {
    Ping,
    Get,
    SetKey,
    Del,
    Incr,
    Decr,
    Exists,
    Expire,
    Ttl,
    Append,
    Strlen,
    Lpush,
    Rpush,
    Lpop,
    Rpop,
    Llen,
    Lrange,
    Hset,
    Hget,
    Hdel,
    Hexists,
    Hgetall,
    Hkeys,
    Hvals,
    Sadd,
    Srem,
    Sismember,
    Smembers,
    Scard,
}

/// What a credential must be scoped for to run a command.
#[derive(Debug, Clone, Copy, PartialEq, Eq, Structural)]
pub enum ScopeClass {
    Read,
    Write,
    Admin,
}

/// The type as which the answer of Redis is read.
#[derive(Debug, Clone, Copy, PartialEq, Eq, Structural)]
pub enum ReplyShape {
    /// The reply as it comes.
    Raw,
    /// A text, answered as a status.
    Text,
    /// A count that fits 32 bits.
    Count,
    /// An integer.
    Integer,
    /// A truth value, answered as 1 or 0.
    Flag,
}

/// The name of a command of the allow-list, in upper case.
pub open spec fn kind_name(kind: CommandKind) -> Seq<char> {
    match kind {
        CommandKind::Ping => "PING"@,
        CommandKind::Get => "GET"@,
        CommandKind::SetKey => "SET"@,
        CommandKind::Del => "DEL"@,
        CommandKind::Incr => "INCR"@,
        CommandKind::Decr => "DECR"@,
        CommandKind::Exists => "EXISTS"@,
        CommandKind::Expire => "EXPIRE"@,
        CommandKind::Ttl => "TTL"@,
        CommandKind::Append => "APPEND"@,
        CommandKind::Strlen => "STRLEN"@,
        CommandKind::Lpush => "LPUSH"@,
        CommandKind::Rpush => "RPUSH"@,
        CommandKind::Lpop => "LPOP"@,
        CommandKind::Rpop => "RPOP"@,
        CommandKind::Llen => "LLEN"@,
        CommandKind::Lrange => "LRANGE"@,
        CommandKind::Hset => "HSET"@,
        CommandKind::Hget => "HGET"@,
        CommandKind::Hdel => "HDEL"@,
        CommandKind::Hexists => "HEXISTS"@,
        CommandKind::Hgetall => "HGETALL"@,
        CommandKind::Hkeys => "HKEYS"@,
        CommandKind::Hvals => "HVALS"@,
        CommandKind::Sadd => "SADD"@,
        CommandKind::Srem => "SREM"@,
        CommandKind::Sismember => "SISMEMBER"@,
        CommandKind::Smembers => "SMEMBERS"@,
        CommandKind::Scard => "SCARD"@,
    }
}

/// The command of the allow-list that an upper-case name denotes.
pub open spec fn lookup(upper: Seq<char>) -> Option<CommandKind> {
    if upper == "PING"@ {
        Some(CommandKind::Ping)
    } else if upper == "GET"@ {
        Some(CommandKind::Get)
    } else if upper == "SET"@ {
        Some(CommandKind::SetKey)
    } else if upper == "DEL"@ {
        Some(CommandKind::Del)
    } else if upper == "INCR"@ {
        Some(CommandKind::Incr)
    } else if upper == "DECR"@ {
        Some(CommandKind::Decr)
    } else if upper == "EXISTS"@ {
        Some(CommandKind::Exists)
    } else if upper == "EXPIRE"@ {
        Some(CommandKind::Expire)
    } else if upper == "TTL"@ {
        Some(CommandKind::Ttl)
    } else if upper == "APPEND"@ {
        Some(CommandKind::Append)
    } else if upper == "STRLEN"@ {
        Some(CommandKind::Strlen)
    } else if upper == "LPUSH"@ {
        Some(CommandKind::Lpush)
    } else if upper == "RPUSH"@ {
        Some(CommandKind::Rpush)
    } else if upper == "LPOP"@ {
        Some(CommandKind::Lpop)
    } else if upper == "RPOP"@ {
        Some(CommandKind::Rpop)
    } else if upper == "LLEN"@ {
        Some(CommandKind::Llen)
    } else if upper == "LRANGE"@ {
        Some(CommandKind::Lrange)
    } else if upper == "HSET"@ {
        Some(CommandKind::Hset)
    } else if upper == "HGET"@ {
        Some(CommandKind::Hget)
    } else if upper == "HDEL"@ {
        Some(CommandKind::Hdel)
    } else if upper == "HEXISTS"@ {
        Some(CommandKind::Hexists)
    } else if upper == "HGETALL"@ {
        Some(CommandKind::Hgetall)
    } else if upper == "HKEYS"@ {
        Some(CommandKind::Hkeys)
    } else if upper == "HVALS"@ {
        Some(CommandKind::Hvals)
    } else if upper == "SADD"@ {
        Some(CommandKind::Sadd)
    } else if upper == "SREM"@ {
        Some(CommandKind::Srem)
    } else if upper == "SISMEMBER"@ {
        Some(CommandKind::Sismember)
    } else if upper == "SMEMBERS"@ {
        Some(CommandKind::Smembers)
    } else if upper == "SCARD"@ {
        Some(CommandKind::Scard)
    } else {
        None
    }
}

/// How many arguments a command needs; further ones are not sent.
pub open spec fn arity(kind: CommandKind) -> nat {
    match kind {
        CommandKind::Ping => 0,
        CommandKind::Get
        | CommandKind::Del
        | CommandKind::Incr
        | CommandKind::Decr
        | CommandKind::Exists
        | CommandKind::Ttl
        | CommandKind::Strlen
        | CommandKind::Lpop
        | CommandKind::Rpop
        | CommandKind::Llen
        | CommandKind::Hgetall
        | CommandKind::Hkeys
        | CommandKind::Hvals
        | CommandKind::Smembers
        | CommandKind::Scard => 1,
        CommandKind::SetKey
        | CommandKind::Expire
        | CommandKind::Append
        | CommandKind::Lpush
        | CommandKind::Rpush
        | CommandKind::Hget
        | CommandKind::Hdel
        | CommandKind::Hexists
        | CommandKind::Sadd
        | CommandKind::Srem
        | CommandKind::Sismember => 2,
        CommandKind::Lrange | CommandKind::Hset => 3,
    }
}

/// What a command's arguments are called, for the message that says
/// that some are missing.
pub open spec fn argument_names(kind: CommandKind) -> Seq<char> {
    match kind {
        CommandKind::Ping => ""@,
        CommandKind::SetKey | CommandKind::Append | CommandKind::Lpush | CommandKind::Rpush =>
            " requires key and value"@,
        CommandKind::Expire => " requires key and seconds"@,
        CommandKind::Lrange => " requires key, start, and stop"@,
        CommandKind::Hset => " requires key, field, and value"@,
        CommandKind::Hget | CommandKind::Hdel | CommandKind::Hexists =>
            " requires key and field"@,
        CommandKind::Sadd | CommandKind::Srem | CommandKind::Sismember =>
            " requires key and member"@,
        _ => " requires key"@,
    }
}

/// The type as which the answer to a command is read.
pub open spec fn shape_of(kind: CommandKind) -> ReplyShape {
    match kind {
        CommandKind::Ping => ReplyShape::Text,
        CommandKind::Del
        | CommandKind::Append
        | CommandKind::Strlen
        | CommandKind::Lpush
        | CommandKind::Rpush
        | CommandKind::Llen
        | CommandKind::Hset
        | CommandKind::Hdel
        | CommandKind::Sadd
        | CommandKind::Srem
        | CommandKind::Scard => ReplyShape::Count,
        CommandKind::Incr | CommandKind::Decr | CommandKind::Ttl => ReplyShape::Integer,
        CommandKind::Exists
        | CommandKind::Expire
        | CommandKind::Hexists
        | CommandKind::Sismember => ReplyShape::Flag,
        _ => ReplyShape::Raw,
    }
}

/// The scope class of a command of the allow-list.
pub open spec fn class_of(kind: CommandKind) -> ScopeClass {
    match kind {
        CommandKind::Get
        | CommandKind::Exists
        | CommandKind::Ttl
        | CommandKind::Llen
        | CommandKind::Lrange
        | CommandKind::Hget
        | CommandKind::Hkeys
        | CommandKind::Hvals
        | CommandKind::Hgetall
        | CommandKind::Hexists
        | CommandKind::Smembers
        | CommandKind::Scard
        | CommandKind::Sismember
        | CommandKind::Strlen
        | CommandKind::Ping => ScopeClass::Read,
        _ => ScopeClass::Write,
    }
}

/// The name a scope class goes by in a credential.
pub open spec fn class_name(class: ScopeClass) -> Seq<char> {
    match class {
        ScopeClass::Read => "read"@,
        ScopeClass::Write => "write"@,
        ScopeClass::Admin => "admin"@,
    }
}

impl CommandKind {
    /// The name of the command, in upper case.
    pub fn name(&self) -> (r: String)
        ensures
            r@ == kind_name(*self),
    {
        match self {
            CommandKind::Ping => "PING".to_string(),
            CommandKind::Get => "GET".to_string(),
            CommandKind::SetKey => "SET".to_string(),
            CommandKind::Del => "DEL".to_string(),
            CommandKind::Incr => "INCR".to_string(),
            CommandKind::Decr => "DECR".to_string(),
            CommandKind::Exists => "EXISTS".to_string(),
            CommandKind::Expire => "EXPIRE".to_string(),
            CommandKind::Ttl => "TTL".to_string(),
            CommandKind::Append => "APPEND".to_string(),
            CommandKind::Strlen => "STRLEN".to_string(),
            CommandKind::Lpush => "LPUSH".to_string(),
            CommandKind::Rpush => "RPUSH".to_string(),
            CommandKind::Lpop => "LPOP".to_string(),
            CommandKind::Rpop => "RPOP".to_string(),
            CommandKind::Llen => "LLEN".to_string(),
            CommandKind::Lrange => "LRANGE".to_string(),
            CommandKind::Hset => "HSET".to_string(),
            CommandKind::Hget => "HGET".to_string(),
            CommandKind::Hdel => "HDEL".to_string(),
            CommandKind::Hexists => "HEXISTS".to_string(),
            CommandKind::Hgetall => "HGETALL".to_string(),
            CommandKind::Hkeys => "HKEYS".to_string(),
            CommandKind::Hvals => "HVALS".to_string(),
            CommandKind::Sadd => "SADD".to_string(),
            CommandKind::Srem => "SREM".to_string(),
            CommandKind::Sismember => "SISMEMBER".to_string(),
            CommandKind::Smembers => "SMEMBERS".to_string(),
            CommandKind::Scard => "SCARD".to_string(),
        }
    }

    /// The command that an upper-case name denotes, if it is on the
    /// allow-list.
    pub fn from_name(upper: &str) -> (r: Option<CommandKind>)
        ensures
            r == lookup(upper@),
    {
        let u = chars_of(upper);
        if is_text(&u, "PING") {
            Some(CommandKind::Ping)
        } else if is_text(&u, "GET") {
            Some(CommandKind::Get)
        } else if is_text(&u, "SET") {
            Some(CommandKind::SetKey)
        } else if is_text(&u, "DEL") {
            Some(CommandKind::Del)
        } else if is_text(&u, "INCR") {
            Some(CommandKind::Incr)
        } else if is_text(&u, "DECR") {
            Some(CommandKind::Decr)
        } else if is_text(&u, "EXISTS") {
            Some(CommandKind::Exists)
        } else if is_text(&u, "EXPIRE") {
            Some(CommandKind::Expire)
        } else if is_text(&u, "TTL") {
            Some(CommandKind::Ttl)
        } else if is_text(&u, "APPEND") {
            Some(CommandKind::Append)
        } else if is_text(&u, "STRLEN") {
            Some(CommandKind::Strlen)
        } else if is_text(&u, "LPUSH") {
            Some(CommandKind::Lpush)
        } else if is_text(&u, "RPUSH") {
            Some(CommandKind::Rpush)
        } else if is_text(&u, "LPOP") {
            Some(CommandKind::Lpop)
        } else if is_text(&u, "RPOP") {
            Some(CommandKind::Rpop)
        } else if is_text(&u, "LLEN") {
            Some(CommandKind::Llen)
        } else if is_text(&u, "LRANGE") {
            Some(CommandKind::Lrange)
        } else if is_text(&u, "HSET") {
            Some(CommandKind::Hset)
        } else if is_text(&u, "HGET") {
            Some(CommandKind::Hget)
        } else if is_text(&u, "HDEL") {
            Some(CommandKind::Hdel)
        } else if is_text(&u, "HEXISTS") {
            Some(CommandKind::Hexists)
        } else if is_text(&u, "HGETALL") {
            Some(CommandKind::Hgetall)
        } else if is_text(&u, "HKEYS") {
            Some(CommandKind::Hkeys)
        } else if is_text(&u, "HVALS") {
            Some(CommandKind::Hvals)
        } else if is_text(&u, "SADD") {
            Some(CommandKind::Sadd)
        } else if is_text(&u, "SREM") {
            Some(CommandKind::Srem)
        } else if is_text(&u, "SISMEMBER") {
            Some(CommandKind::Sismember)
        } else if is_text(&u, "SMEMBERS") {
            Some(CommandKind::Smembers)
        } else if is_text(&u, "SCARD") {
            Some(CommandKind::Scard)
        } else {
            None
        }
    }

    /// How many arguments the command needs.
    pub fn arity(&self) -> (n: usize)
        ensures
            n == arity(*self),
    {
        match self {
            CommandKind::Ping => 0,
            CommandKind::Get
            | CommandKind::Del
            | CommandKind::Incr
            | CommandKind::Decr
            | CommandKind::Exists
            | CommandKind::Ttl
            | CommandKind::Strlen
            | CommandKind::Lpop
            | CommandKind::Rpop
            | CommandKind::Llen
            | CommandKind::Hgetall
            | CommandKind::Hkeys
            | CommandKind::Hvals
            | CommandKind::Smembers
            | CommandKind::Scard => 1,
            CommandKind::SetKey
            | CommandKind::Expire
            | CommandKind::Append
            | CommandKind::Lpush
            | CommandKind::Rpush
            | CommandKind::Hget
            | CommandKind::Hdel
            | CommandKind::Hexists
            | CommandKind::Sadd
            | CommandKind::Srem
            | CommandKind::Sismember => 2,
            CommandKind::Lrange | CommandKind::Hset => 3,
        }
    }

    /// The message that says that arguments are missing.
    pub fn missing_arguments(&self) -> (r: String)
        ensures
            r@ == kind_name(*self) + argument_names(*self),
    {
        let name = self.name();
        let tail = match self {
            CommandKind::Ping => "",
            CommandKind::SetKey | CommandKind::Append | CommandKind::Lpush | CommandKind::Rpush =>
                " requires key and value",
            CommandKind::Expire => " requires key and seconds",
            CommandKind::Lrange => " requires key, start, and stop",
            CommandKind::Hset => " requires key, field, and value",
            CommandKind::Hget | CommandKind::Hdel | CommandKind::Hexists =>
                " requires key and field",
            CommandKind::Sadd | CommandKind::Srem | CommandKind::Sismember =>
                " requires key and member",
            _ => " requires key",
        };
        join2(name.as_str(), tail)
    }

    /// The type as which the answer is read.
    pub fn shape(&self) -> (r: ReplyShape)
        ensures
            r == shape_of(*self),
    {
        match self {
            CommandKind::Ping => ReplyShape::Text,
            CommandKind::Del
            | CommandKind::Append
            | CommandKind::Strlen
            | CommandKind::Lpush
            | CommandKind::Rpush
            | CommandKind::Llen
            | CommandKind::Hset
            | CommandKind::Hdel
            | CommandKind::Sadd
            | CommandKind::Srem
            | CommandKind::Scard => ReplyShape::Count,
            CommandKind::Incr | CommandKind::Decr | CommandKind::Ttl => ReplyShape::Integer,
            CommandKind::Exists
            | CommandKind::Expire
            | CommandKind::Hexists
            | CommandKind::Sismember => ReplyShape::Flag,
            _ => ReplyShape::Raw,
        }
    }

    /// The scope class of the command.
    pub fn scope_class(&self) -> (r: ScopeClass)
        ensures
            r == class_of(*self),
    {
        match self {
            CommandKind::Get
            | CommandKind::Exists
            | CommandKind::Ttl
            | CommandKind::Llen
            | CommandKind::Lrange
            | CommandKind::Hget
            | CommandKind::Hkeys
            | CommandKind::Hvals
            | CommandKind::Hgetall
            | CommandKind::Hexists
            | CommandKind::Smembers
            | CommandKind::Scard
            | CommandKind::Sismember
            | CommandKind::Strlen
            | CommandKind::Ping => ScopeClass::Read,
            _ => ScopeClass::Write,
        }
    }
}

impl ScopeClass {
    /// The name this class goes by in a credential.
    pub fn name(&self) -> (r: String)
        ensures
            r@ == class_name(*self),
    {
        match self {
            ScopeClass::Read => "read".to_string(),
            ScopeClass::Write => "write".to_string(),
            ScopeClass::Admin => "admin".to_string(),
        }
    }
}

fn is_text(chars: &Vec<char>, literal: &str) -> (r: bool)
    ensures
        r == (chars@ == literal@),
{
    let other = chars_of(literal);
    same_chars(chars, &other)
}

/// A request that is ready to be sent to Redis.
#[derive(Debug, PartialEq, Eq)]
pub struct RedisRequest {
    /// The command name, then its arguments, as they go over the wire.
    pub words: Vec<String>,
    /// The type as which the answer is read.
    pub shape: ReplyShape,
    /// What a credential must be scoped for to send it.
    pub class: ScopeClass,
}

/// The mathematical value of a [`RedisRequest`].
pub ghost struct RequestModel {
    pub words: Seq<Seq<char>>,
    pub shape: ReplyShape,
    pub class: ScopeClass,
}

impl View for RedisRequest {
    type V = RequestModel;

    open spec fn view(&self) -> RequestModel {
        RequestModel { words: texts(self.words@), shape: self.shape, class: self.class }
    }
}

/// The outcome of planning, as a mathematical value.
pub open spec fn plan_view(r: Result<RedisRequest, GatewayError>) -> Result<
    RequestModel,
    ErrorModel,
> {
    match r {
        Ok(request) => Ok(request@),
        Err(e) => Err(e@),
    }
}

/// A request for a command of the allow-list, with the given words.
pub open spec fn request_for(kind: CommandKind, words: Seq<Seq<char>>) -> RequestModel {
    RequestModel { words, shape: shape_of(kind), class: class_of(kind) }
}

pub open spec fn parse_index(s: Seq<char>) -> Option<int> {
    parse_decimal(s, i64::MIN as int, i64::MAX as int)
}

/// The request for a command of the allow-list. With fewer arguments than
/// the command needs, the request is refused; so is a count of seconds or
/// a list index that is no 64-bit decimal number. Such numbers are sent in
/// their plain decimal form. `INCR` and `DECR` are sent as a step of one.
/// Arguments beyond those that the command needs are not sent.
pub open spec fn plan_known(kind: CommandKind, args: Seq<Seq<char>>) -> Result<
    RequestModel,
    ErrorModel,
> {
    if args.len() < arity(kind) {
        Err(ErrorModel::InvalidCommand(kind_name(kind) + argument_names(kind)))
    } else {
        match kind {
            CommandKind::Expire => match parse_index(args[1]) {
                None => Err(ErrorModel::InvalidCommand("Invalid expire time"@)),
                Some(seconds) => Ok(
                    request_for(kind, seq!["EXPIRE"@, args[0], decimal(seconds)]),
                ),
            },
            CommandKind::Lrange => match parse_index(args[1]) {
                None => Err(ErrorModel::InvalidCommand("Invalid start index"@)),
                Some(start) => match parse_index(args[2]) {
                    None => Err(ErrorModel::InvalidCommand("Invalid stop index"@)),
                    Some(stop) => Ok(
                        request_for(
                            kind,
                            seq!["LRANGE"@, args[0], decimal(start), decimal(stop)],
                        ),
                    ),
                },
            },
            CommandKind::Incr => Ok(request_for(kind, seq!["INCRBY"@, args[0], "1"@])),
            CommandKind::Decr => Ok(request_for(kind, seq!["DECRBY"@, args[0], "1"@])),
            _ => Ok(request_for(kind, seq![kind_name(kind)] + args.take(arity(kind) as int))),
        }
    }
}

/// A command that is not on the allow-list, forwarded as it was given:
/// its name in the case in which it came, then every argument.
pub open spec fn forwarded(name: Seq<char>, args: Seq<Seq<char>>) -> RequestModel {
    RequestModel { words: seq![name] + args, shape: ReplyShape::Raw, class: ScopeClass::Admin }
}

/// `SET` with a time to live: sent as `SETEX key seconds value`.
pub open spec fn plan_set_ex(args: Seq<Seq<char>>, ex: Seq<char>) -> Result<
    RequestModel,
    ErrorModel,
> {
    if args.len() < 2 {
        Err(
            ErrorModel::InvalidCommand(
                kind_name(CommandKind::SetKey) + argument_names(CommandKind::SetKey),
            ),
        )
    } else {
        match parse_decimal(ex, 0, u64::MAX as int) {
            None => Err(ErrorModel::InvalidCommand("Invalid EX parameter"@)),
            Some(seconds) => Ok(
                request_for(
                    CommandKind::SetKey,
                    seq!["SETEX"@, args[0], decimal_digits(seconds as nat), args[1]],
                ),
            ),
        }
    }
}

/// Plans a command of the allow-list.
pub fn plan_known_command(kind: CommandKind, args: &Vec<String>) -> (r: Result<
    RedisRequest,
    GatewayError,
>)
    ensures
        plan_view(r) == plan_known(kind, texts(args@)),
{
    let ghost a = texts(args@);
    if args.len() < kind.arity() {
        return Err(GatewayError::InvalidCommand(kind.missing_arguments()));
    }
    let mut words: Vec<String> = Vec::new();
    match kind {
        CommandKind::Expire => {
            assert(a[1] == args@[1]@);
            let seconds = match parse_i64(args[1].as_str()) {
                Some(n) => n,
                None => {
                    return Err(GatewayError::InvalidCommand("Invalid expire time".to_string()));
                },
            };
            words.push("EXPIRE".to_string());
            words.push(args[0].clone());
            words.push(decimal_string(seconds));
            assert(texts(words@) =~= seq!["EXPIRE"@, a[0], decimal(seconds as int)]);
        },
        CommandKind::Lrange => {
            assert(a[1] == args@[1]@);
            assert(a[2] == args@[2]@);
            let start = match parse_i64(args[1].as_str()) {
                Some(n) => n,
                None => {
                    return Err(GatewayError::InvalidCommand("Invalid start index".to_string()));
                },
            };
            let stop = match parse_i64(args[2].as_str()) {
                Some(n) => n,
                None => {
                    return Err(GatewayError::InvalidCommand("Invalid stop index".to_string()));
                },
            };
            words.push("LRANGE".to_string());
            words.push(args[0].clone());
            words.push(decimal_string(start));
            words.push(decimal_string(stop));
            assert(texts(words@) =~= seq![
                "LRANGE"@,
                a[0],
                decimal(start as int),
                decimal(stop as int),
            ]);
        },
        CommandKind::Incr => {
            words.push("INCRBY".to_string());
            words.push(args[0].clone());
            words.push("1".to_string());
            assert(texts(words@) =~= seq!["INCRBY"@, a[0], "1"@]);
        },
        CommandKind::Decr => {
            words.push("DECRBY".to_string());
            words.push(args[0].clone());
            words.push("1".to_string());
            assert(texts(words@) =~= seq!["DECRBY"@, a[0], "1"@]);
        },
        _ => {
            words.push(kind.name());
            let n = kind.arity();
            let mut i: usize = 0;
            while i < n
                invariant
                    i <= n <= args.len(),
                    words.len() == i + 1,
                    words@[0]@ == kind_name(kind),
                    forall|j: int| 0 <= j < i ==> (#[trigger] words@[j + 1])@ == args@[j]@,
                decreases n - i,
            {
                words.push(args[i].clone());
                i += 1;
            }
            assert(texts(words@) =~= seq![kind_name(kind)] + a.take(n as int)) by {
                assert forall|k: int| 0 <= k < words.len() implies texts(words@)[k] == (seq![
                    kind_name(kind),
                ] + a.take(n as int))[k] by {
                    if k > 0 {
                        assert(words@[(k - 1) + 1]@ == args@[k - 1]@);
                    }
                }
            }
        },
    }
    Ok(RedisRequest { words, shape: kind.shape(), class: kind.scope_class() })
}

/// Plans a command that is not on the allow-list: it is forwarded as it
/// was given.
pub fn forward_command(name: &str, args: &Vec<String>) -> (r: RedisRequest)
    ensures
        r@ == forwarded(name@, texts(args@)),
{
    let ghost a = texts(args@);
    let mut words: Vec<String> = Vec::new();
    words.push(name.to_string());
    let mut i: usize = 0;
    while i < args.len()
        invariant
            i <= args.len(),
            words.len() == i + 1,
            words@[0]@ == name@,
            forall|j: int| 0 <= j < i ==> (#[trigger] words@[j + 1])@ == args@[j]@,
        decreases args.len() - i,
    {
        words.push(args[i].clone());
        i += 1;
    }
    assert(texts(words@) =~= seq![name@] + a) by {
        assert forall|k: int| 0 <= k < words.len() implies texts(words@)[k] == (seq![name@]
            + a)[k] by {
            if k > 0 {
                assert(words@[(k - 1) + 1]@ == args@[k - 1]@);
            }
        }
    }
    RedisRequest { words, shape: ReplyShape::Raw, class: ScopeClass::Admin }
}

/// Plans `SET` with a time to live given as text.
pub fn plan_set_with_expiry(args: &Vec<String>, ex: &str) -> (r: Result<
    RedisRequest,
    GatewayError,
>)
    ensures
        plan_view(r) == plan_set_ex(texts(args@), ex@),
{
    let ghost a = texts(args@);
    let kind = CommandKind::SetKey;
    if args.len() < 2 {
        return Err(GatewayError::InvalidCommand(kind.missing_arguments()));
    }
    let seconds = match parse_u64(ex) {
        Some(n) => n,
        None => {
            return Err(GatewayError::InvalidCommand("Invalid EX parameter".to_string()));
        },
    };
    let mut digits: Vec<char> = Vec::new();
    push_decimal_digits(&mut digits, seconds);
    assert(digits@ == decimal_digits(seconds as nat)) by {
        assert(Seq::<char>::empty() + decimal_digits(seconds as nat) == decimal_digits(
            seconds as nat,
        ));
    }
    let mut words: Vec<String> = Vec::new();
    words.push("SETEX".to_string());
    words.push(args[0].clone());
    words.push(string_of(&digits));
    words.push(args[1].clone());
    assert(texts(words@) =~= seq!["SETEX"@, a[0], decimal_digits(seconds as nat), a[1]]);
    Ok(RedisRequest { words, shape: kind.shape(), class: kind.scope_class() })
}

/// An element of a body-encoded command.
#[derive(Debug, Clone, PartialEq, Eq)]
pub enum BodyItem {
    /// A JSON string.
    Text(String),
    /// A JSON number that is a 64-bit integer.
    Integer(i64),
    /// Any other JSON value, as its JSON text.
    Other(String),
}

/// The text that stands for an element of a body-encoded command: a
/// string is itself, an integer its decimal form, another value its JSON
/// text.
pub open spec fn item_text(item: BodyItem) -> Seq<char> {
    match item {
        BodyItem::Text(s) => s@,
        BodyItem::Integer(n) => decimal(n as int),
        BodyItem::Other(t) => t@,
    }
}

/// The texts that stand for the elements after the first.
pub open spec fn argument_texts(payload: Seq<BodyItem>) -> Seq<Seq<char>> {
    Seq::new((payload.len() - 1) as nat, |i: int| item_text(payload[i + 1]))
}

/// The request for a body-encoded command: the first element is the
/// command name and must be a string, the others are its arguments. A
/// name that is on the allow-list in its upper-case form is planned as
/// that command; any other is forwarded as it was given.
pub open spec fn plan_body(payload: Seq<BodyItem>) -> Result<RequestModel, ErrorModel> {
    if payload.len() == 0 {
        Err(ErrorModel::InvalidCommand("Empty command"@))
    } else {
        match payload[0] {
            BodyItem::Text(name) => match lookup(upper_form(name@)) {
                Some(kind) => plan_known(kind, argument_texts(payload)),
                None => Ok(forwarded(name@, argument_texts(payload))),
            },
            _ => Err(ErrorModel::InvalidCommand("Invalid command format"@)),
        }
    }
}

/// The request for a path-encoded command. The name must be on the
/// allow-list in its upper-case form. A time to live applies to `SET`
/// alone and turns it into `SETEX`.
pub open spec fn plan_path(cmd: Seq<char>, args: Seq<Seq<char>>, ex: Option<Seq<char>>) -> Result<
    RequestModel,
    ErrorModel,
> {
    match lookup(upper_form(cmd)) {
        None => Err(ErrorModel::InvalidCommand("Unknown command: "@ + cmd)),
        Some(kind) => if kind == CommandKind::SetKey && ex is Some {
            plan_set_ex(args, ex->0)
        } else {
            plan_known(kind, args)
        },
    }
}

impl BodyItem {
    /// The text that stands for this element.
    pub fn text(&self) -> (r: String)
        ensures
            r@ == item_text(*self),
    {
        match self {
            BodyItem::Text(s) => s.clone(),
            BodyItem::Integer(n) => decimal_string(*n),
            BodyItem::Other(t) => t.clone(),
        }
    }
}

/// Plans a body-encoded command.
pub fn plan_body_command(payload: &Vec<BodyItem>) -> (r: Result<RedisRequest, GatewayError>)
    ensures
        plan_view(r) == plan_body(payload@),
{
    if payload.len() == 0 {
        return Err(GatewayError::InvalidCommand("Empty command".to_string()));
    }
    let name = match &payload[0] {
        BodyItem::Text(name) => name,
        _ => {
            return Err(GatewayError::InvalidCommand("Invalid command format".to_string()));
        },
    };
    let mut args: Vec<String> = Vec::new();
    let mut i: usize = 1;
    while i < payload.len()
        invariant
            1 <= i <= payload.len(),
            args.len() == i - 1,
            forall|j: int| 0 <= j < args.len() ==> (#[trigger] args@[j])@ == item_text(payload@[j + 1]),
        decreases payload.len() - i,
    {
        args.push(payload[i].text());
        i += 1;
    }
    assert(texts(args@) =~= argument_texts(payload@));
    let upper = to_upper(name.as_str());
    match CommandKind::from_name(upper.as_str()) {
        Some(kind) => plan_known_command(kind, &args),
        None => Ok(forward_command(name.as_str(), &args)),
    }
}

/// Plans a path-encoded command; `ex` is the query parameter `EX`, where
/// the request has one.
pub fn plan_path_command(cmd: &str, args: &Vec<String>, ex: Option<&str>) -> (r: Result<
    RedisRequest,
    GatewayError,
>)
    ensures
        plan_view(r) == plan_path(cmd@, texts(args@), optional_text(ex)),
{
    let upper = to_upper(cmd);
    match CommandKind::from_name(upper.as_str()) {
        None => Err(GatewayError::InvalidCommand(join2("Unknown command: ", cmd))),
        Some(kind) => {
            match (kind, ex) {
                (CommandKind::SetKey, Some(seconds)) => plan_set_with_expiry(args, seconds),
                _ => plan_known_command(kind, args),
            }
        },
    }
}

/// What came back from Redis, read as the type that the request asked for.
#[derive(Debug, PartialEq, Eq)]
pub enum TypedReply {
    Raw(RedisReply),
    Text(String),
    Count(i32),
    Integer(i64),
    Flag(bool),
}

/// The shape in which a typed reply came.
pub open spec fn shape_in(reply: TypedReply) -> ReplyShape {
    match reply {
        TypedReply::Raw(_) => ReplyShape::Raw,
        TypedReply::Text(_) => ReplyShape::Text,
        TypedReply::Count(_) => ReplyShape::Count,
        TypedReply::Integer(_) => ReplyShape::Integer,
        TypedReply::Flag(_) => ReplyShape::Flag,
    }
}

/// The reply that a typed reply stands for: a text is a status, a count
/// or an integer is an integer, a truth value is 1 or 0.
pub open spec fn settled(reply: TypedReply) -> ReplyModel {
    match reply {
        TypedReply::Raw(v) => v@,
        TypedReply::Text(s) => ReplyModel::Status(s@),
        TypedReply::Count(n) => ReplyModel::Int(n as int),
        TypedReply::Integer(n) => ReplyModel::Int(n as int),
        TypedReply::Flag(b) => ReplyModel::Int(
            if b {
                1
            } else {
                0
            },
        ),
    }
}

/// The body of a successful response.
#[derive(Debug, PartialEq, Eq)]
pub struct RedisResponse {
    pub result: JsonValue,
}

/// The envelope of a result: an object with the one member `result`.
pub open spec fn result_envelope(result: JsonModel) -> JsonModel {
    JsonModel::Object(seq![MemberModel { name: "result"@, value: result }])
}

impl RedisResponse {
    /// The JSON body of the response.
    pub fn into_body(self) -> (body: JsonValue)
        ensures
            body@ == result_envelope(self.result@),
    {
        let mut members: Vec<JsonMember> = Vec::new();
        members.push(JsonMember { name: "result".to_string(), value: self.result });
        proof {
            lemma_object_view(members);
        }
        let body = JsonValue::Object(members);
        assert(body@->Object_0 =~= result_envelope(self.result@)->Object_0);
        body
    }
}

/// The reply that a typed reply stands for.
pub fn settle_reply(reply: TypedReply) -> (r: RedisReply)
    ensures
        r@ == settled(reply),
{
    match reply {
        TypedReply::Raw(v) => v,
        TypedReply::Text(s) => RedisReply::Status(s),
        TypedReply::Count(n) => RedisReply::Int(n as i64),
        TypedReply::Integer(n) => RedisReply::Int(n),
        TypedReply::Flag(b) => RedisReply::Int(
            if b {
                1
            } else {
                0
            },
        ),
    }
}

/// The response to a request whose answer was read as `reply`. An answer
/// in another shape than the request asked for is a fault of the gateway.
pub fn respond(shape: ReplyShape, reply: TypedReply) -> (r: Result<RedisResponse, GatewayError>)
    ensures
        shape_in(reply) == shape ==> r is Ok && r->Ok_0.result@ == reply_to_json(settled(reply)),
        shape_in(reply) != shape ==> r is Err && r->Err_0@ == ErrorModel::Internal,
{
    let matches = match (&reply, shape) {
        (TypedReply::Raw(_), ReplyShape::Raw) => true,
        (TypedReply::Text(_), ReplyShape::Text) => true,
        (TypedReply::Count(_), ReplyShape::Count) => true,
        (TypedReply::Integer(_), ReplyShape::Integer) => true,
        (TypedReply::Flag(_), ReplyShape::Flag) => true,
        _ => false,
    };
    if matches {
        Ok(RedisResponse { result: redis_value_to_json(settle_reply(reply)) })
    } else {
        Err(GatewayError::Internal)
    }
}

} // verus!
