//! The commands the server accepts, read from frames, and their wire form
//! when sent.
use vstd::prelude::*;
use vstd::string::StringSliceAdditionalSpecFns;
use vstd::utf8::{decode_utf8, encode_utf8_decode_utf8, valid_utf8};

use crate::array::{payloads, Array};
use crate::bulkstring::BulkString;
use crate::resp::{array_bytes, Frame, ToRedisBytes, Type};
use crate::server_config::{Offset, ReplicationId};
use crate::simple_string::SimpleString;
use crate::text::{
    crlf, decimal, eq_lowercase, eq_lowercase_chars, matches_lowercase_chars, trim_bounds,
    trim_white_space, utf8_text, literal_bytes, matches_lowercase, parse_i8_bytes, parse_signed,
    parse_unsigned, parse_unsigned_bytes, push_all, push_decimal, signed_decimal, CR, LF, SPACE,
};

verus! {

/// A command, as values.
pub enum Command {
    Ping,
    Echo(Seq<Seq<u8>>),
    Get(Seq<u8>),
    /// Key, value and, with `PX`, a time to live in milliseconds.
    SetKey(Seq<u8>, Seq<u8>, Option<u64>),
    Info(Seq<u8>),
    Replconf(Seq<u8>, Seq<u8>),
    Psync(Seq<u8>, i8),
    FullResync(Seq<u8>, i8),
}

/// A command the server accepts.
#[derive(Debug, Clone, PartialEq, Eq)]
pub enum RedisCommands {
    Ping,
    Echo(Vec<BulkString>),
    Get(Vec<u8>),
    SetKey(Vec<u8>, Vec<u8>, Option<u64>),
    Info(Vec<u8>),
    Replconf(Vec<u8>, Vec<u8>),
    Psync(ReplicationId, Offset),
    FullResync(ReplicationId, Offset),
}

impl View for RedisCommands {
    type V = Command;

    open spec fn view(&self) -> Command {
        match self {
            RedisCommands::Ping => Command::Ping,
            RedisCommands::Echo(args) => Command::Echo(payloads(args@)),
            RedisCommands::Get(k) => Command::Get(k@),
            RedisCommands::SetKey(k, v, ttl) => Command::SetKey(k@, v@, *ttl),
            RedisCommands::Info(s) => Command::Info(s@),
            RedisCommands::Replconf(a, b) => Command::Replconf(a@, b@),
            RedisCommands::Psync(id, off) => Command::Psync(id@, off@),
            RedisCommands::FullResync(id, off) => Command::FullResync(id@, off@),
        }
    }
}

/// Why a frame is not a command.
#[derive(Debug, Clone, Copy, PartialEq, Eq, Structural)]
pub enum CommandError {
    /// The name is none of the accepted commands, or the frame kind carries none.
    InvalidCommand,
    /// The array is empty.
    EmptyCommand,
    /// `GET` without a key.
    MissingKey,
    /// `SET` without a key and a value.
    MissingKeyValue,
    /// `SET k v PX` without the milliseconds.
    MissingTtl,
    /// The milliseconds of `PX` are not an unsigned number.
    InvalidTtl,
    /// `SET` with an option other than `PX`.
    InvalidSetOption,
    /// `INFO` without a section.
    MissingInfoSection,
    /// `REPLCONF` without a name and a value.
    MissingReplconfArguments,
    /// `PSYNC` without a replication id and an offset.
    MissingPsyncArguments,
    /// The offset of `PSYNC` is not a number from -128 to 127.
    InvalidPsyncOffset,
    /// The command has more arguments than it takes (`PING` none, `GET` and
    /// `INFO` one, `SET` two or four, `REPLCONF` and `PSYNC` two), or `ECHO`
    /// has none.
    WrongArity,
}

/// The command named by the items of an array frame.
pub open spec fn command_of_items(items: Seq<Seq<u8>>) -> Result<Command, CommandError> {
    if items.len() == 0 {
        Err(CommandError::EmptyCommand)
    } else {
        let name = items[0];
        if matches_lowercase(name, "ping".spec_bytes()) {
            if items.len() > 1 {
                Err(CommandError::WrongArity)
            } else {
                Ok(Command::Ping)
            }
        } else if matches_lowercase(name, "echo".spec_bytes()) {
            if items.len() < 2 {
                Err(CommandError::WrongArity)
            } else {
                Ok(Command::Echo(items.drop_first()))
            }
        } else if matches_lowercase(name, "get".spec_bytes()) {
            if items.len() < 2 {
                Err(CommandError::MissingKey)
            } else if items.len() > 2 {
                Err(CommandError::WrongArity)
            } else {
                Ok(Command::Get(items[1]))
            }
        } else if matches_lowercase(name, "set".spec_bytes()) {
            if items.len() < 3 {
                Err(CommandError::MissingKeyValue)
            } else if items.len() == 3 {
                Ok(Command::SetKey(items[1], items[2], None))
            } else if items.len() > 5 {
                Err(CommandError::WrongArity)
            } else if !matches_lowercase(items[3], "px".spec_bytes()) {
                Err(CommandError::InvalidSetOption)
            } else if items.len() == 4 {
                Err(CommandError::MissingTtl)
            } else {
                match parse_unsigned(items[4], u64::MAX as nat) {
                    Some(ms) => Ok(Command::SetKey(items[1], items[2], Some(ms as u64))),
                    None => Err(CommandError::InvalidTtl),
                }
            }
        } else if matches_lowercase(name, "info".spec_bytes()) {
            if items.len() < 2 {
                Err(CommandError::MissingInfoSection)
            } else if items.len() > 2 {
                Err(CommandError::WrongArity)
            } else {
                Ok(Command::Info(items[1]))
            }
        } else if matches_lowercase(name, "replconf".spec_bytes()) {
            if items.len() < 3 {
                Err(CommandError::MissingReplconfArguments)
            } else if items.len() > 3 {
                Err(CommandError::WrongArity)
            } else {
                Ok(Command::Replconf(items[1], items[2]))
            }
        } else if matches_lowercase(name, "psync".spec_bytes()) {
            if items.len() < 3 {
                Err(CommandError::MissingPsyncArguments)
            } else if items.len() > 3 {
                Err(CommandError::WrongArity)
            } else {
                match parse_signed(items[2], -128, 127) {
                    Some(off) => Ok(Command::Psync(items[1], off as i8)),
                    None => Err(CommandError::InvalidPsyncOffset),
                }
            }
        } else {
            Err(CommandError::InvalidCommand)
        }
    }
}

/// The command a frame carries: arrays name any command, a simple string
/// only `PING` (around which it may hold white space), a bulk string none.
pub open spec fn command_of(f: Frame) -> Result<Command, CommandError> {
    match f {
        Frame::Array(items) => command_of_items(items),
        Frame::Simple(t) => if valid_utf8(t) && matches_lowercase_chars(
            trim_white_space(decode_utf8(t)),
            "ping"@,
        ) {
            Ok(Command::Ping)
        } else {
            Err(CommandError::InvalidCommand)
        },
        Frame::Bulk(_) => Err(CommandError::InvalidCommand),
    }
}

/// The words of a command as it is sent, for all but `FULLRESYNC`.
pub open spec fn command_words(c: Command) -> Seq<Seq<u8>> {
    match c {
        Command::Ping => seq!["PING".spec_bytes()],
        Command::Echo(args) => seq!["ECHO".spec_bytes()] + args,
        Command::Get(k) => seq!["GET".spec_bytes(), k],
        Command::SetKey(k, v, ttl) => match ttl {
            None => seq!["SET".spec_bytes(), k, v],
            Some(ms) => seq!["SET".spec_bytes(), k, v, "PX".spec_bytes(), decimal(ms as nat)],
        },
        Command::Info(s) => seq!["INFO".spec_bytes(), s],
        Command::Replconf(a, b) => seq!["REPLCONF".spec_bytes(), a, b],
        Command::Psync(id, off) => seq!["PSYNC".spec_bytes(), id, signed_decimal(off as int)],
        Command::FullResync(id, off) => seq!["FULLRESYNC".spec_bytes(), id, signed_decimal(off as int)],
    }
}

/// `+FULLRESYNC <replid> <offset>\r\n`.
pub open spec fn full_resync_bytes(replid: Seq<u8>, offset: i8) -> Seq<u8> {
    "+FULLRESYNC ".spec_bytes() + replid + seq![SPACE] + signed_decimal(offset as int) + crlf()
}

/// The bytes of a command as it is sent: an array of its words, but for
/// `FULLRESYNC`, which is a simple string.
pub open spec fn command_bytes(c: Command) -> Seq<u8> {
    match c {
        Command::FullResync(id, off) => full_resync_bytes(id, off),
        _ => array_bytes(command_words(c)),
    }
}

fn words_array(words: Vec<Vec<u8>>) -> (r: Vec<u8>)
    ensures
        r@ == array_bytes(words@.map_values(|w: Vec<u8>| w@)),
{
    let mut items: Vec<BulkString> = Vec::new();
    let mut i: usize = 0;
    while i < words.len()
        invariant
            i <= words@.len(),
            payloads(items@) =~= words@.subrange(0, i as int).map_values(|w: Vec<u8>| w@),
        decreases words@.len() - i,
    {
        let ghost before = payloads(items@);
        let b = BulkString::new(vstd::slice::slice_to_vec(words[i].as_slice()));
        items.push(b);
        assert(payloads(items@) =~= before.push(b@));
        i = i + 1;
    }
    assert(words@.subrange(0, i as int) =~= words@);
    Array::new(items).to_redis_bytes()
}

impl ToRedisBytes for RedisCommands {
    open spec fn redis_bytes(&self) -> Seq<u8> {
        command_bytes(self@)
    }

    fn to_redis_bytes(&self) -> (r: Vec<u8>) {
        let mut words: Vec<Vec<u8>> = Vec::new();
        match self {
            RedisCommands::Ping => {
                words.push(literal_bytes("PING"));
            },
            RedisCommands::Echo(args) => {
                words.push(literal_bytes("ECHO"));
                let mut i: usize = 0;
                while i < args.len()
                    invariant
                        i <= args@.len(),
                        words@.map_values(|w: Vec<u8>| w@) =~= seq!["ECHO".spec_bytes()] + payloads(
                            args@,
                        ).subrange(0, i as int),
                    decreases args@.len() - i,
                {
                    let ghost before = words@.map_values(|w: Vec<u8>| w@);
                    let word = args[i].data();
                    words.push(word);
                    assert(words@.map_values(|w: Vec<u8>| w@) =~= before.push(word@));
                    assert(payloads(args@).subrange(0, i + 1) =~= payloads(args@).subrange(0, i as int).push(
                        args@[i as int]@,
                    ));
                    i = i + 1;
                }
                assert(payloads(args@).subrange(0, i as int) =~= payloads(args@));
            },
            RedisCommands::Get(k) => {
                words.push(literal_bytes("GET"));
                words.push(vstd::slice::slice_to_vec(k.as_slice()));
            },
            RedisCommands::SetKey(k, v, ttl) => {
                words.push(literal_bytes("SET"));
                words.push(vstd::slice::slice_to_vec(k.as_slice()));
                words.push(vstd::slice::slice_to_vec(v.as_slice()));
                match ttl {
                    Some(ms) => {
                        words.push(literal_bytes("PX"));
                        let mut digits: Vec<u8> = Vec::new();
                        push_decimal(&mut digits, *ms);
                        assert(digits@ =~= decimal(*ms as nat));
                        words.push(digits);
                    },
                    None => {},
                }
            },
            RedisCommands::Info(s) => {
                words.push(literal_bytes("INFO"));
                words.push(vstd::slice::slice_to_vec(s.as_slice()));
            },
            RedisCommands::Replconf(a, b) => {
                words.push(literal_bytes("REPLCONF"));
                words.push(vstd::slice::slice_to_vec(a.as_slice()));
                words.push(vstd::slice::slice_to_vec(b.as_slice()));
            },
            RedisCommands::Psync(id, off) => {
                words.push(literal_bytes("PSYNC"));
                words.push(vstd::slice::slice_to_vec(id.as_bytes()));
                words.push(off.to_bytes());
            },
            RedisCommands::FullResync(id, off) => {
                let mut out = literal_bytes("+FULLRESYNC ");
                push_all(&mut out, id.as_bytes());
                out.push(SPACE);
                push_all(&mut out, off.to_bytes().as_slice());
                out.push(CR);
                out.push(LF);
                assert(out@ =~= full_resync_bytes(id@, off@));
                return out;
            },
        }
        assert(words@.map_values(|w: Vec<u8>| w@) =~= command_words(self@));
        words_array(words)
    }
}

/// Copies the items of `a` from index `from` on.
fn items_from(a: &Vec<BulkString>, from: usize) -> (r: Vec<BulkString>)
    requires
        from <= a@.len(),
    ensures
        payloads(r@) == payloads(a@).subrange(from as int, a@.len() as int),
{
    let mut out: Vec<BulkString> = Vec::new();
    let mut i: usize = from;
    while i < a.len()
        invariant
            from <= i <= a@.len(),
            payloads(out@) =~= payloads(a@).subrange(from as int, i as int),
        decreases a@.len() - i,
    {
        let ghost before = payloads(out@);
        let b = BulkString::new(a[i].data());
        out.push(b);
        assert(payloads(out@) =~= before.push(b@));
        i = i + 1;
    }
    out
}

impl RedisCommands {
    /// The command a frame carries.
    pub fn parse(command: &Type) -> (r: Result<RedisCommands, CommandError>)
        ensures
            match r {
                Ok(c) => command_of(command@) == Ok::<Command, CommandError>(c@),
                Err(e) => command_of(command@) == Err::<Command, CommandError>(e),
            },
    {
        match command {
            Type::Array(array) => RedisCommands::handle_array(array),
            Type::BulkString(bulkstring) => RedisCommands::handle_bulkstring(bulkstring),
            Type::SimpleString(simplestring) => RedisCommands::handle_simplestring(simplestring),
        }
    }

    /// The command named by the items of an array.
    pub fn handle_array(array: &Array) -> (r: Result<RedisCommands, CommandError>)
        ensures
            match r {
                Ok(c) => command_of_items(array@) == Ok::<Command, CommandError>(c@),
                Err(e) => command_of_items(array@) == Err::<Command, CommandError>(e),
            },
    {
        let items = array.bulkstrings();
        let ghost v = array@;
        assert(v == payloads(items@));
        let n = items.len();
        if n == 0 {
            return Err(CommandError::EmptyCommand);
        }
        let name = items[0].as_bytes();
        assert(name@ == v[0]);
        if eq_lowercase(name, literal_bytes("ping").as_slice()) {
            if n > 1 {
                Err(CommandError::WrongArity)
            } else {
                Ok(RedisCommands::Ping)
            }
        } else if eq_lowercase(name, literal_bytes("echo").as_slice()) {
            if n < 2 {
                return Err(CommandError::WrongArity);
            }
            let args = items_from(items, 1);
            assert(payloads(args@) =~= v.drop_first());
            Ok(RedisCommands::Echo(args))
        } else if eq_lowercase(name, literal_bytes("get").as_slice()) {
            if n < 2 {
                Err(CommandError::MissingKey)
            } else if n > 2 {
                Err(CommandError::WrongArity)
            } else {
                Ok(RedisCommands::Get(items[1].data()))
            }
        } else if eq_lowercase(name, literal_bytes("set").as_slice()) {
            if n < 3 {
                return Err(CommandError::MissingKeyValue);
            }
            let key = items[1].data();
            let value = items[2].data();
            if n == 3 {
                return Ok(RedisCommands::SetKey(key, value, None));
            }
            if n > 5 {
                return Err(CommandError::WrongArity);
            }
            if !eq_lowercase(items[3].as_bytes(), literal_bytes("px").as_slice()) {
                return Err(CommandError::InvalidSetOption);
            }
            if n == 4 {
                return Err(CommandError::MissingTtl);
            }
            match parse_unsigned_bytes(items[4].as_bytes(), u64::MAX) {
                Some(ms) => Ok(RedisCommands::SetKey(key, value, Some(ms))),
                None => Err(CommandError::InvalidTtl),
            }
        } else if eq_lowercase(name, literal_bytes("info").as_slice()) {
            if n < 2 {
                Err(CommandError::MissingInfoSection)
            } else if n > 2 {
                Err(CommandError::WrongArity)
            } else {
                Ok(RedisCommands::Info(items[1].data()))
            }
        } else if eq_lowercase(name, literal_bytes("replconf").as_slice()) {
            if n < 3 {
                Err(CommandError::MissingReplconfArguments)
            } else if n > 3 {
                Err(CommandError::WrongArity)
            } else {
                Ok(RedisCommands::Replconf(items[1].data(), items[2].data()))
            }
        } else if eq_lowercase(name, literal_bytes("psync").as_slice()) {
            if n < 3 {
                return Err(CommandError::MissingPsyncArguments);
            }
            if n > 3 {
                return Err(CommandError::WrongArity);
            }
            match parse_i8_bytes(items[2].as_bytes()) {
                Some(off) => Ok(
                    RedisCommands::Psync(
                        ReplicationId::parse(Some(items[1].data())),
                        Offset::parse(Some(off)),
                    ),
                ),
                None => Err(CommandError::InvalidPsyncOffset),
            }
        } else {
            Err(CommandError::InvalidCommand)
        }
    }

    /// A simple string names only `PING`, once white space around it is dropped.
    pub fn handle_simplestring(simplestring: &SimpleString) -> (r: Result<RedisCommands, CommandError>)
        ensures
            match r {
                Ok(c) => command_of(Frame::Simple(simplestring@)) == Ok::<Command, CommandError>(c@),
                Err(e) => command_of(Frame::Simple(simplestring@)) == Err::<Command, CommandError>(e),
            },
    {
        match utf8_text(simplestring.data()) {
            None => Err(CommandError::InvalidCommand),
            Some(text) => {
                proof {
                    encode_utf8_decode_utf8(text@);
                }
                let s = text.as_str();
                let (lo, hi) = trim_bounds(s);
                if eq_lowercase_chars(s, lo, hi, "ping") {
                    Ok(RedisCommands::Ping)
                } else {
                    Err(CommandError::InvalidCommand)
                }
            },
        }
    }

    /// A bulk string names no command.
    pub fn handle_bulkstring(bulkstring: &BulkString) -> (r: Result<RedisCommands, CommandError>)
        ensures
            r == Err::<RedisCommands, CommandError>(CommandError::InvalidCommand),
    {
        Err(CommandError::InvalidCommand)
    }
}

} // verus!
