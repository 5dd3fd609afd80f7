use redis_starter_rust::{
    handle_request, Handshake, HandshakeAction, HandshakeState, MasterConfig, MasterInstance,
    Port, RedisInfo, RedisStore, RedisValue, Role,
};

fn serve(store: &mut RedisStore, info: &RedisInfo, request: &[u8], now: u64) -> Vec<u8> {
    handle_request(store, info, request, now).unwrap()
}

#[test]
fn ping_scenario() {
    let mut store = RedisStore::new();
    let info = RedisInfo::new(Role::Master);
    assert_eq!(serve(&mut store, &info, b"*1\r\n$4\r\nPING\r\n", 0), b"+PONG\r\n");
}

#[test]
fn echo_scenario() {
    let mut store = RedisStore::new();
    let info = RedisInfo::new(Role::Master);
    assert_eq!(
        serve(&mut store, &info, b"*2\r\n$4\r\nECHO\r\n$5\r\nhello\r\n", 0),
        b"$5\r\nhello\r\n"
    );
}

#[test]
fn echo_joins_arguments() {
    let mut store = RedisStore::new();
    let info = RedisInfo::new(Role::Master);
    assert_eq!(
        serve(&mut store, &info, b"*3\r\n$4\r\necho\r\n$2\r\nab\r\n$1\r\nc\r\n", 0),
        b"$3\r\nabc\r\n"
    );
}

#[test]
fn set_then_get_scenario() {
    let mut store = RedisStore::new();
    let info = RedisInfo::new(Role::Master);
    assert_eq!(
        serve(&mut store, &info, b"*3\r\n$3\r\nSET\r\n$3\r\nfoo\r\n$3\r\nbar\r\n", 10),
        b"+OK\r\n"
    );
    assert_eq!(
        serve(&mut store, &info, b"*2\r\n$3\r\nGET\r\n$3\r\nfoo\r\n", 99_999),
        b"$3\r\nbar\r\n"
    );
}

#[test]
fn set_overwrites_and_other_keys_stay() {
    let mut store = RedisStore::new();
    let info = RedisInfo::new(Role::Master);
    serve(&mut store, &info, b"*3\r\n$3\r\nSET\r\n$1\r\na\r\n$1\r\n1\r\n", 0);
    serve(&mut store, &info, b"*3\r\n$3\r\nSET\r\n$1\r\nb\r\n$1\r\n2\r\n", 0);
    serve(&mut store, &info, b"*3\r\n$3\r\nSET\r\n$1\r\na\r\n$1\r\n3\r\n", 0);
    assert_eq!(serve(&mut store, &info, b"*2\r\n$3\r\nGET\r\n$1\r\na\r\n", 0), b"$1\r\n3\r\n");
    assert_eq!(serve(&mut store, &info, b"*2\r\n$3\r\nGET\r\n$1\r\nb\r\n", 0), b"$1\r\n2\r\n");
    assert_eq!(serve(&mut store, &info, b"*2\r\n$3\r\nGET\r\n$1\r\nc\r\n", 0), b"$-1\r\n");
}

#[test]
fn set_with_px_expires_scenario() {
    let mut store = RedisStore::new();
    let info = RedisInfo::new(Role::Master);
    let set = b"*5\r\n$3\r\nSET\r\n$3\r\nkey\r\n$3\r\nval\r\n$2\r\nPX\r\n$3\r\n100\r\n";
    assert_eq!(serve(&mut store, &info, set, 1_000), b"+OK\r\n");
    assert_eq!(
        serve(&mut store, &info, b"*2\r\n$3\r\nGET\r\n$3\r\nkey\r\n", 1_250),
        b"$-1\r\n"
    );
}

#[test]
fn set_with_px_is_readable_until_deadline() {
    let mut store = RedisStore::new();
    let info = RedisInfo::new(Role::Master);
    let set = b"*5\r\n$3\r\nSET\r\n$3\r\nkey\r\n$3\r\nval\r\n$2\r\nPX\r\n$3\r\n100\r\n";
    serve(&mut store, &info, set, 1_000);
    let get: &[u8] = b"*2\r\n$3\r\nGET\r\n$3\r\nkey\r\n";
    assert_eq!(serve(&mut store, &info, get, 1_000), b"$3\r\nval\r\n");
    assert_eq!(serve(&mut store, &info, get, 1_100), b"$3\r\nval\r\n");
    assert_eq!(serve(&mut store, &info, get, 1_101), b"$-1\r\n");
}

#[test]
fn info_replication_scenario() {
    let mut store = RedisStore::new();
    let info = RedisInfo::new(Role::Master);
    assert_eq!(
        serve(&mut store, &info, b"*2\r\n$4\r\nINFO\r\n$11\r\nreplication\r\n", 0),
        b"$57\r\nrole:master\r\nmaster_replid:Master\r\nmaster_repl_offset:0\r\n\r\n"
    );
}

#[test]
fn info_on_replica_and_other_sections() {
    let mut store = RedisStore::new();
    let info = RedisInfo::new(Role::Replica);
    assert_eq!(
        serve(&mut store, &info, b"*2\r\n$4\r\nINFO\r\n$11\r\nREPLICATION\r\n", 0),
        b"$52\r\nrole:slave\r\nmaster_replid:?\r\nmaster_repl_offset:-1\r\n\r\n"
    );
    assert_eq!(
        serve(&mut store, &info, b"*2\r\n$4\r\nINFO\r\n$6\r\nserver\r\n", 0),
        b"$15\r\nUnknown section\r\n"
    );
}

#[test]
fn psync_on_master_and_replica() {
    let mut store = RedisStore::new();
    let psync: &[u8] = b"*3\r\n$5\r\nPSYNC\r\n$1\r\n?\r\n$2\r\n-1\r\n";
    let master = RedisInfo::new(Role::Master);
    let reply = serve(&mut store, &master, psync, 0);
    assert!(reply.starts_with(b"+FULLRESYNC "));
    assert_eq!(reply, b"+FULLRESYNC Master 0\r\n");
    let replica = RedisInfo::new(Role::Replica);
    assert_eq!(serve(&mut store, &replica, psync, 0), b"$-1\r\n");
}

#[test]
fn replconf_is_accepted() {
    let mut store = RedisStore::new();
    let info = RedisInfo::new(Role::Master);
    assert_eq!(
        serve(&mut store, &info, b"*3\r\n$8\r\nREPLCONF\r\n$4\r\ncapa\r\n$6\r\npsync2\r\n", 0),
        b"+OK\r\n"
    );
}

#[test]
fn malformed_requests_get_null() {
    let mut store = RedisStore::new();
    let info = RedisInfo::new(Role::Master);
    assert_eq!(serve(&mut store, &info, b"hello", 0), b"$-1\r\n");
    assert_eq!(serve(&mut store, &info, b"*1\r\n$4\r\nNOPE\r\n", 0), b"$-1\r\n");
    assert_eq!(serve(&mut store, &info, b"*2\r\n$3\r\nGET\r\n", 0), b"$-1\r\n");
    assert_eq!(
        serve(&mut store, &info, b"*3\r\n$3\r\nGET\r\n$1\r\nk\r\n$1\r\nx\r\n", 0),
        b"$-1\r\n"
    );
}

#[test]
fn fullresync_gets_no_reply() {
    let mut store = RedisStore::new();
    let info = RedisInfo::new(Role::Replica);
    let cmd = redis_starter_rust::RedisCommands::FullResync(
        redis_starter_rust::ReplicationId::parse(Some(b"x".to_vec())),
        redis_starter_rust::Offset::parse(Some(0)),
    );
    assert_eq!(redis_starter_rust::respond(&mut store, &info, &cmd, 0), None);
}

#[test]
fn replica_handshake_scenario() {
    let (mut handshake, ping) = Handshake::start(Port::new(6380).unwrap());
    assert_eq!(ping, b"*1\r\n$4\r\nPING\r\n");
    assert_eq!(
        handshake.on_reply(b"+PONG\r\n"),
        HandshakeAction::Send(
            b"*3\r\n$8\r\nREPLCONF\r\n$14\r\nlistening-port\r\n$4\r\n6380\r\n".to_vec()
        )
    );
    assert_eq!(
        handshake.on_reply(b"+OK\r\n"),
        HandshakeAction::Send(b"*3\r\n$8\r\nREPLCONF\r\n$4\r\ncapa\r\n$6\r\npsync2\r\n".to_vec())
    );
    assert_eq!(
        handshake.on_reply(b"+OK\r\n"),
        HandshakeAction::Send(b"*3\r\n$5\r\nPSYNC\r\n$1\r\n?\r\n$2\r\n-1\r\n".to_vec())
    );
    assert_eq!(
        handshake.on_reply(b"+FULLRESYNC 8371b4fb1155b71f4a04d3e1bc3e18c4a990aeeb 0\r\n"),
        HandshakeAction::Ready
    );
    assert_eq!(handshake.state(), HandshakeState::Done);
}

#[test]
fn replica_handshake_aborts_on_unexpected_reply() {
    let (mut handshake, _) = Handshake::start(Port::new(6380).unwrap());
    handshake.on_reply(b"+PONG\r\n");
    assert_eq!(handshake.on_reply(b"+FAIL\r\n"), HandshakeAction::Abort);
    assert_eq!(handshake.state(), HandshakeState::Failed);
    let (mut other, _) = Handshake::start(Port::new(6380).unwrap());
    assert_eq!(other.on_reply(b"$4\r\nPONG\r\n"), HandshakeAction::Abort);
}

#[test]
fn master_instance_starts_empty() {
    let config = MasterConfig::from_args(&["--port", "7000"]).unwrap();
    let (store, config, info) = MasterInstance::new(config).into_parts();
    assert_eq!(config.port().get(), 7000);
    assert!(store.get(b"anything").is_none());
    assert_eq!(info.master_replid().as_bytes(), b"Master");
    assert_eq!(info.master_repl_offset().get(), 0);
    assert_eq!(*info.role(), Role::Master);
}

#[test]
fn test_redis_value_new() {
    let value = b"test".to_vec();
    let expiration = Some(1000);
    let redis_value = RedisValue::new(value.clone(), expiration, 0);
    assert_eq!(redis_value.value(), value);
    assert!(redis_value.expiration().is_some());
}

#[test]
fn test_redis_value_no_expiration() {
    let value = b"test".to_vec();
    let redis_value = RedisValue::new(value.clone(), None, 0);
    assert_eq!(redis_value.value(), value);
    assert!(redis_value.expiration().is_none());
}

#[test]
fn test_redis_value_expiration() {
    let redis_value = RedisValue::new(b"test".to_vec(), Some(1000), 500);
    assert_eq!(redis_value.expiration(), Some(1500));
    assert!(redis_value.is_live(1500));
    assert!(!redis_value.is_live(2500));
}

#[test]
fn redis_value_deadline_saturates() {
    let redis_value = RedisValue::new(b"v".to_vec(), Some(u64::MAX), 10);
    assert_eq!(redis_value.expiration(), Some(u64::MAX));
    assert!(redis_value.is_live(u64::MAX));
}

#[test]
fn test_redis_store() {
    let mut store = RedisStore::new();
    let value = RedisValue::new(b"test".to_vec(), None, 0);
    store.set(b"key".to_vec(), value.clone());
    assert_eq!(store.get(b"key").unwrap().value(), value.value());
}
