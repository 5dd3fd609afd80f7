//! What the server does with one request: the reply it sends and how the
//! keyspace changes. Reading the socket, taking the keyspace lock and reading
//! the clock are the caller's part.
use vstd::prelude::*;
use vstd::string::StringSliceAdditionalSpecFns;

use crate::bulkstring::bulk_payload_bytes;
use crate::redis_commands::{
    command_bytes, command_of, command_of_items, command_words, full_resync_bytes, Command,
    CommandError, RedisCommands,
};
use crate::redis_info::{info_line, replication_text, role_name, RedisInfo, Role, InfoView};
use crate::redis_response::{null_reply, ok_reply, pong_reply, RedisResponse};
use crate::resp::{
    bulk_bytes, decode_frame, encode_frame, frame_wf, lemma_frame_round_trip, Frame, ToRedisBytes,
    Type,
};
use crate::store::{deadline_after, is_live, RedisStore, RedisValue, ValueView};
use crate::text::{
    ascii_lower, crlf, eq_lowercase, lemma_parse_decimal, lemma_parse_signed_decimal, literal_bytes,
    matches_lowercase, push_all, signed_decimal, SPACE,
};

verus! {

/// The arguments of `ECHO`, joined without separators.
pub open spec fn joined(args: Seq<Seq<u8>>) -> Seq<u8>
    decreases args.len(),
{
    if args.len() == 0 {
        Seq::empty()
    } else {
        joined(args.drop_last()) + args.last()
    }
}

/// The reply to `GET` for what the keyspace holds under the key.
pub open spec fn get_reply(entry: Option<ValueView>, now: u64) -> Seq<u8> {
    match entry {
        None => null_reply(),
        Some(v) => if is_live(v, now) {
            bulk_bytes(v.0)
        } else {
            null_reply()
        },
    }
}

/// The payload of the reply to `INFO <section>`.
pub open spec fn info_payload(info: InfoView, section: Seq<u8>) -> Seq<u8> {
    if matches_lowercase(section, "replication".spec_bytes()) {
        replication_text(info.role, info.replid, info.offset)
    } else {
        "Unknown section".spec_bytes()
    }
}

/// One command applied at time `now`: the keyspace after it, and the reply,
/// if one is sent.
pub open spec fn step(store: Map<Seq<u8>, ValueView>, info: InfoView, cmd: Command, now: u64) -> (
    Map<Seq<u8>, ValueView>,
    Option<Seq<u8>>,
) {
    match cmd {
        Command::Ping => (store, Some(pong_reply())),
        Command::Echo(args) => (store, Some(bulk_bytes(joined(args)))),
        Command::Get(k) => (
            store,
            Some(get_reply(if store.contains_key(k) { Some(store[k]) } else { None }, now)),
        ),
        Command::SetKey(k, v, ttl) => (
            store.insert(
                k,
                (
                    v,
                    match ttl {
                        Some(ms) => Some(deadline_after(now, ms)),
                        None => None,
                    },
                ),
            ),
            Some(ok_reply()),
        ),
        Command::Info(section) => (store, Some(bulk_bytes(info_payload(info, section)))),
        Command::Replconf(_, _) => (store, Some(ok_reply())),
        Command::Psync(_, _) => (
            store,
            Some(
                match info.role {
                    Role::Master => full_resync_bytes(info.replid, info.offset),
                    Role::Replica => null_reply(),
                },
            ),
        ),
        Command::FullResync(_, _) => (store, None),
    }
}

/// The command a request carries, if it is one.
pub open spec fn request_command(buf: Seq<u8>) -> Option<Command> {
    match decode_frame(buf) {
        Ok(f) => match command_of(f) {
            Ok(c) => Some(c),
            Err(_) => None,
        },
        Err(_) => None,
    }
}

/// One request served: a request that is no command gets the null reply.
pub open spec fn serve(store: Map<Seq<u8>, ValueView>, info: InfoView, buf: Seq<u8>, now: u64) -> (
    Map<Seq<u8>, ValueView>,
    Option<Seq<u8>>,
) {
    match request_command(buf) {
        Some(c) => step(store, info, c, now),
        None => (store, Some(null_reply())),
    }
}

/// The command a request carries, if it decodes as a frame that names one.
pub fn parse_request(buf: &[u8]) -> (r: Option<RedisCommands>)
    ensures
        match r {
            Some(c) => request_command(buf@) == Some(c@),
            None => request_command(buf@) is None,
        },
{
    match Type::from_bytes(buf) {
        Ok(frame) => match RedisCommands::parse(&frame) {
            Ok(c) => Some(c),
            Err(_) => None,
        },
        Err(_) => None,
    }
}

/// The payload of `ECHO`: the arguments joined.
pub fn echo_payload(args: &Vec<crate::bulkstring::BulkString>) -> (r: Vec<u8>)
    ensures
        r@ == joined(crate::array::payloads(args@)),
{
    let ghost items = crate::array::payloads(args@);
    let mut out: Vec<u8> = Vec::new();
    let mut i: usize = 0;
    while i < args.len()
        invariant
            i <= args@.len(),
            items == crate::array::payloads(args@),
            out@ == joined(items.subrange(0, i as int)),
        decreases args@.len() - i,
    {
        push_all(&mut out, args[i].as_bytes());
        assert(items.subrange(0, i + 1).drop_last() =~= items.subrange(0, i as int));
        i = i + 1;
    }
    assert(items.subrange(0, i as int) =~= items);
    out
}

/// The reply to `GET`, given what the keyspace holds under the key.
pub fn value_reply(entry: &Option<RedisValue>, now: u64) -> (r: Vec<u8>)
    ensures
        r@ == get_reply(
            match entry {
                Some(v) => Some(v@),
                None => None,
            },
            now,
        ),
{
    match entry {
        None => RedisResponse::Null.to_redis_bytes(),
        Some(v) => if v.is_live(now) {
            bulk_payload_bytes(v.value().as_slice())
        } else {
            RedisResponse::Null.to_redis_bytes()
        },
    }
}

/// The reply to `INFO <section>`.
pub fn info_reply(info: &RedisInfo, section: &[u8]) -> (r: Vec<u8>)
    ensures
        r@ == bulk_bytes(info_payload(info@, section@)),
{
    if eq_lowercase(section, literal_bytes("replication").as_slice()) {
        info.to_bulk_string().to_redis_bytes()
    } else {
        bulk_payload_bytes(literal_bytes("Unknown section").as_slice())
    }
}

/// The reply to `PSYNC`: a master starts a full resynchronisation, a replica
/// sends the null reply.
pub fn psync_reply(info: &RedisInfo) -> (r: Vec<u8>)
    ensures
        r@ == match info@.role {
            Role::Master => full_resync_bytes(info@.replid, info@.offset),
            Role::Replica => null_reply(),
        },
{
    match info.role() {
        Role::Master => {
            let command = RedisCommands::FullResync(
                info.master_replid().copied(),
                *info.master_repl_offset(),
            );
            command.to_redis_bytes()
        },
        Role::Replica => RedisResponse::Null.to_redis_bytes(),
    }
}

/// Applies one command at time `now`; returns the reply, if one is sent.
pub fn respond(store: &mut RedisStore, info: &RedisInfo, cmd: &RedisCommands, now: u64) -> (r: Option<
    Vec<u8>,
>)
    requires
        old(store).wf(),
    ensures
        final(store).wf(),
        final(store)@ == step(old(store)@, info@, cmd@, now).0,
        match r {
            Some(b) => step(old(store)@, info@, cmd@, now).1 == Some(b@),
            None => step(old(store)@, info@, cmd@, now).1 is None,
        },
{
    match cmd {
        RedisCommands::Ping => Some(RedisResponse::Pong.to_redis_bytes()),
        RedisCommands::Echo(args) => Some(bulk_payload_bytes(echo_payload(args).as_slice())),
        RedisCommands::Get(key) => {
            let entry = store.get(key.as_slice());
            Some(value_reply(&entry, now))
        },
        RedisCommands::SetKey(key, value, ttl) => {
            let stored = RedisValue::new(
                vstd::slice::slice_to_vec(value.as_slice()),
                *ttl,
                now,
            );
            store.set(vstd::slice::slice_to_vec(key.as_slice()), stored);
            Some(RedisResponse::Okay.to_redis_bytes())
        },
        RedisCommands::Info(section) => Some(info_reply(info, section.as_slice())),
        RedisCommands::Replconf(_, _) => Some(RedisResponse::Okay.to_redis_bytes()),
        RedisCommands::Psync(_, _) => Some(psync_reply(info)),
        RedisCommands::FullResync(_, _) => None,
    }
}

/// Serves one request read from a client at time `now`.
pub fn handle_request(store: &mut RedisStore, info: &RedisInfo, buf: &[u8], now: u64) -> (r: Option<
    Vec<u8>,
>)
    requires
        old(store).wf(),
    ensures
        final(store).wf(),
        final(store)@ == serve(old(store)@, info@, buf@, now).0,
        match r {
            Some(b) => serve(old(store)@, info@, buf@, now).1 == Some(b@),
            None => serve(old(store)@, info@, buf@, now).1 is None,
        },
{
    match parse_request(buf) {
        Some(cmd) => respond(store, info, &cmd, now),
        None => Some(RedisResponse::Null.to_redis_bytes()),
    }
}

/// After `SET k v`, a `GET k` returns `v`, whatever other command runs in
/// between, as long as it sets no value under `k`.
pub proof fn lemma_set_then_get(
    store: Map<Seq<u8>, ValueView>,
    info: InfoView,
    k: Seq<u8>,
    v: Seq<u8>,
    t1: u64,
    between: Command,
    t2: u64,
    t3: u64,
)
    requires
        !(between matches Command::SetKey(k2, _, _) && k2 == k),
    ensures
        step(store, info, Command::SetKey(k, v, None), t1).1 == Some(ok_reply()),
        step(
            step(step(store, info, Command::SetKey(k, v, None), t1).0, info, between, t2).0,
            info,
            Command::Get(k),
            t3,
        ).1 == Some(bulk_bytes(v)),
{
    let s1 = step(store, info, Command::SetKey(k, v, None), t1).0;
    let s2 = step(s1, info, between, t2).0;
    assert(s1[k] == (v, None::<u64>));
    assert(s2.contains_key(k) && s2[k] == s1[k]);
}

/// After `SET k v PX ms` at `t1`, a `GET k` at `t2` returns `v` until
/// `t1 + ms` and the null reply once that time has passed.
pub proof fn lemma_set_px_then_get(
    store: Map<Seq<u8>, ValueView>,
    info: InfoView,
    k: Seq<u8>,
    v: Seq<u8>,
    ms: u64,
    t1: u64,
    t2: u64,
)
    ensures
        t2 <= t1 + ms ==> step(
            step(store, info, Command::SetKey(k, v, Some(ms)), t1).0,
            info,
            Command::Get(k),
            t2,
        ).1 == Some(bulk_bytes(v)),
        t2 > t1 + ms ==> step(
            step(store, info, Command::SetKey(k, v, Some(ms)), t1).0,
            info,
            Command::Get(k),
            t2,
        ).1 == Some(null_reply()),
{
    let s1 = step(store, info, Command::SetKey(k, v, Some(ms)), t1).0;
    assert(s1[k] == (v, Some(deadline_after(t1, ms))));
}

/// `INFO replication` replies with a bulk string of exactly three lines,
/// `role:`, `master_replid:` and `master_repl_offset:`, in that order.
pub proof fn lemma_info_replication(
    store: Map<Seq<u8>, ValueView>,
    info: InfoView,
    section: Seq<u8>,
    now: u64,
)
    requires
        matches_lowercase(section, "replication".spec_bytes()),
    ensures
        step(store, info, Command::Info(section), now).1 == Some(
            bulk_bytes(
                info_line("role:".spec_bytes(), role_name(info.role)) + info_line(
                    "master_replid:".spec_bytes(),
                    info.replid,
                ) + info_line("master_repl_offset:".spec_bytes(), signed_decimal(info.offset as int)),
            ),
        ),
{
}

/// A master answers `PSYNC` with `+FULLRESYNC `, then its replication id and
/// offset, separated by a space, on one line.
pub proof fn lemma_master_psync(
    store: Map<Seq<u8>, ValueView>,
    info: InfoView,
    replid: Seq<u8>,
    offset: i8,
    now: u64,
)
    requires
        info.role == Role::Master,
    ensures
        ({
            let reply = step(store, info, Command::Psync(replid, offset), now).1.unwrap();
            let prefix = "+FULLRESYNC ".spec_bytes();
            &&& reply.subrange(0, prefix.len() as int) == prefix
            &&& reply == prefix + info.replid + seq![SPACE] + signed_decimal(info.offset as int) + crlf()
        }),
{
    let reply = step(store, info, Command::Psync(replid, offset), now).1.unwrap();
    let prefix = "+FULLRESYNC ".spec_bytes();
    assert(reply.subrange(0, prefix.len() as int) =~= prefix);
}

proof fn lemma_command_names()
    ensures
        "PING".spec_bytes() == seq![80u8, 73u8, 78u8, 71u8],
        "ping".spec_bytes() == seq![112u8, 105u8, 110u8, 103u8],
        "ECHO".spec_bytes() == seq![69u8, 67u8, 72u8, 79u8],
        "echo".spec_bytes() == seq![101u8, 99u8, 104u8, 111u8],
        "GET".spec_bytes() == seq![71u8, 69u8, 84u8],
        "get".spec_bytes() == seq![103u8, 101u8, 116u8],
        "SET".spec_bytes() == seq![83u8, 69u8, 84u8],
        "set".spec_bytes() == seq![115u8, 101u8, 116u8],
        "PX".spec_bytes() == seq![80u8, 88u8],
        "px".spec_bytes() == seq![112u8, 120u8],
        "INFO".spec_bytes() == seq![73u8, 78u8, 70u8, 79u8],
        "info".spec_bytes() == seq![105u8, 110u8, 102u8, 111u8],
        "REPLCONF".spec_bytes() == seq![82u8, 69u8, 80u8, 76u8, 67u8, 79u8, 78u8, 70u8],
        "replconf".spec_bytes() == seq![114u8, 101u8, 112u8, 108u8, 99u8, 111u8, 110u8, 102u8],
        "PSYNC".spec_bytes() == seq![80u8, 83u8, 89u8, 78u8, 67u8],
        "psync".spec_bytes() == seq![112u8, 115u8, 121u8, 110u8, 99u8],
{
    reveal_strlit("PING");
    reveal_strlit("ping");
    reveal_strlit("ECHO");
    reveal_strlit("echo");
    reveal_strlit("GET");
    reveal_strlit("get");
    reveal_strlit("SET");
    reveal_strlit("set");
    reveal_strlit("PX");
    reveal_strlit("px");
    reveal_strlit("INFO");
    reveal_strlit("info");
    reveal_strlit("REPLCONF");
    reveal_strlit("replconf");
    reveal_strlit("PSYNC");
    reveal_strlit("psync");
    vstd::string::is_ascii_spec_bytes("PING");
    vstd::string::is_ascii_spec_bytes("ping");
    vstd::string::is_ascii_spec_bytes("ECHO");
    vstd::string::is_ascii_spec_bytes("echo");
    vstd::string::is_ascii_spec_bytes("GET");
    vstd::string::is_ascii_spec_bytes("get");
    vstd::string::is_ascii_spec_bytes("SET");
    vstd::string::is_ascii_spec_bytes("set");
    vstd::string::is_ascii_spec_bytes("PX");
    vstd::string::is_ascii_spec_bytes("px");
    vstd::string::is_ascii_spec_bytes("INFO");
    vstd::string::is_ascii_spec_bytes("info");
    vstd::string::is_ascii_spec_bytes("REPLCONF");
    vstd::string::is_ascii_spec_bytes("replconf");
    vstd::string::is_ascii_spec_bytes("PSYNC");
    vstd::string::is_ascii_spec_bytes("psync");
    assert("PING".spec_bytes() =~= seq![80u8, 73u8, 78u8, 71u8]);
    assert("ping".spec_bytes() =~= seq![112u8, 105u8, 110u8, 103u8]);
    assert("ECHO".spec_bytes() =~= seq![69u8, 67u8, 72u8, 79u8]);
    assert("echo".spec_bytes() =~= seq![101u8, 99u8, 104u8, 111u8]);
    assert("GET".spec_bytes() =~= seq![71u8, 69u8, 84u8]);
    assert("get".spec_bytes() =~= seq![103u8, 101u8, 116u8]);
    assert("SET".spec_bytes() =~= seq![83u8, 69u8, 84u8]);
    assert("set".spec_bytes() =~= seq![115u8, 101u8, 116u8]);
    assert("PX".spec_bytes() =~= seq![80u8, 88u8]);
    assert("px".spec_bytes() =~= seq![112u8, 120u8]);
    assert("INFO".spec_bytes() =~= seq![73u8, 78u8, 70u8, 79u8]);
    assert("info".spec_bytes() =~= seq![105u8, 110u8, 102u8, 111u8]);
    assert("REPLCONF".spec_bytes() =~= seq![82u8, 69u8, 80u8, 76u8, 67u8, 79u8, 78u8, 70u8]);
    assert("replconf".spec_bytes() =~= seq![114u8, 101u8, 112u8, 108u8, 99u8, 111u8, 110u8, 102u8]);
    assert("PSYNC".spec_bytes() =~= seq![80u8, 83u8, 89u8, 78u8, 67u8]);
    assert("psync".spec_bytes() =~= seq![112u8, 115u8, 121u8, 110u8, 99u8]);
}

proof fn lemma_items_ping()
    ensures
        command_of_items(command_words(Command::Ping)) == Ok::<Command, CommandError>(Command::Ping),
{
    lemma_command_names();
    assert(matches_lowercase(command_words(Command::Ping)[0], "ping".spec_bytes()));
}

proof fn lemma_items_echo(args: Seq<Seq<u8>>)
    requires
        args.len() > 0,
    ensures
        command_of_items(command_words(Command::Echo(args))) == Ok::<Command, CommandError>(
            Command::Echo(args),
        ),
{
    let w = command_words(Command::Echo(args));
    lemma_command_names();
    assert(ascii_lower(w[0][0]) != "ping".spec_bytes()[0]);
    assert(matches_lowercase(w[0], "echo".spec_bytes()));
    assert(w.drop_first() =~= args);
}

proof fn lemma_items_get(k: Seq<u8>)
    ensures
        command_of_items(command_words(Command::Get(k))) == Ok::<Command, CommandError>(Command::Get(k)),
{
    let w = command_words(Command::Get(k));
    lemma_command_names();
    assert(matches_lowercase(w[0], "get".spec_bytes()));
}

proof fn lemma_items_set(k: Seq<u8>, v: Seq<u8>, ttl: Option<u64>)
    ensures
        command_of_items(command_words(Command::SetKey(k, v, ttl))) == Ok::<Command, CommandError>(
            Command::SetKey(k, v, ttl),
        ),
{
    let w = command_words(Command::SetKey(k, v, ttl));
    lemma_command_names();
    assert(ascii_lower(w[0][0]) != "get".spec_bytes()[0]);
    assert(matches_lowercase(w[0], "set".spec_bytes()));
    match ttl {
        Some(ms) => {
            assert(matches_lowercase(w[3], "px".spec_bytes()));
            lemma_parse_decimal(ms as nat, u64::MAX as nat);
        },
        None => {},
    }
}

proof fn lemma_items_info(section: Seq<u8>)
    ensures
        command_of_items(command_words(Command::Info(section))) == Ok::<Command, CommandError>(
            Command::Info(section),
        ),
{
    let w = command_words(Command::Info(section));
    lemma_command_names();
    assert(ascii_lower(w[0][0]) != "ping".spec_bytes()[0]);
    assert(ascii_lower(w[0][0]) != "echo".spec_bytes()[0]);
    assert(matches_lowercase(w[0], "info".spec_bytes()));
}

proof fn lemma_items_replconf(a: Seq<u8>, b: Seq<u8>)
    ensures
        command_of_items(command_words(Command::Replconf(a, b))) == Ok::<Command, CommandError>(
            Command::Replconf(a, b),
        ),
{
    let w = command_words(Command::Replconf(a, b));
    let name = w[0];
    lemma_command_names();
    assert(name.len() == 8);
    assert(!matches_lowercase(name, "ping".spec_bytes()));
    assert(!matches_lowercase(name, "echo".spec_bytes()));
    assert(!matches_lowercase(name, "get".spec_bytes()));
    assert(!matches_lowercase(name, "set".spec_bytes()));
    assert(!matches_lowercase(name, "info".spec_bytes()));
    assert forall|i: int| 0 <= i < name.len() implies ascii_lower(#[trigger] name[i]) == "replconf".spec_bytes()[i] by {
        assert(name =~= seq![82u8, 69u8, 80u8, 76u8, 67u8, 79u8, 78u8, 70u8]);
    }
}

proof fn lemma_items_psync(id: Seq<u8>, off: i8)
    ensures
        command_of_items(command_words(Command::Psync(id, off))) == Ok::<Command, CommandError>(
            Command::Psync(id, off),
        ),
{
    let w = command_words(Command::Psync(id, off));
    lemma_command_names();
    assert(matches_lowercase(w[0], "psync".spec_bytes()));
    lemma_parse_signed_decimal(off as int, -128, 127);
}

/// A command as this library sends it is read back as the same command:
/// what a replica sends its master, the master understands. (`ECHO` with no
/// argument is no command.)
pub proof fn lemma_command_round_trip(c: Command)
    requires
        !(c is FullResync),
        !(c matches Command::Echo(args) && args.len() == 0),
        frame_wf(Frame::Array(command_words(c))),
    ensures
        request_command(command_bytes(c)) == Some(c),
{
    let w = command_words(c);
    lemma_frame_round_trip(Frame::Array(w));
    assert(command_bytes(c) == encode_frame(Frame::Array(w)));
    match c {
        Command::Ping => lemma_items_ping(),
        Command::Echo(args) => lemma_items_echo(args),
        Command::Get(k) => lemma_items_get(k),
        Command::SetKey(k, v, ttl) => lemma_items_set(k, v, ttl),
        Command::Info(section) => lemma_items_info(section),
        Command::Replconf(a, b) => lemma_items_replconf(a, b),
        Command::Psync(id, off) => lemma_items_psync(id, off),
        Command::FullResync(_, _) => {},
    }
}

} // verus!
