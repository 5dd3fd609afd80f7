use redis_starter_rust::{
    Array, BulkString, CommandError, Offset, RedisCommands, ReplicationId, SimpleString,
    ToRedisBytes, Type,
};

fn array_of(words: &[&str]) -> Type {
    Type::Array(Array::new(
        words.iter().map(|w| BulkString::from_string(w)).collect(),
    ))
}

#[test]
fn test_parse_ping_command() {
    let command = Type::SimpleString(SimpleString::from_bytes(b"+PING\r\n\r\n").unwrap());
    let result = RedisCommands::parse(&command);
    assert_eq!(result, Ok(RedisCommands::Ping));
}

#[test]
fn test_parse_echo_command() {
    let command = Type::Array(Array::new(vec![
        BulkString::from_string("ECHO"),
        BulkString::from_string("Hello"),
        BulkString::from_string("World"),
    ]));
    let result = RedisCommands::parse(&command);
    assert_eq!(
        result,
        Ok(RedisCommands::Echo(vec![
            BulkString::from_string("Hello"),
            BulkString::from_string("World"),
        ]))
    );
}

#[test]
fn test_parse_get_command() {
    let command = Type::Array(Array::new(vec![
        BulkString::from_string("GET"),
        BulkString::from_string("mykey"),
    ]));
    let result = RedisCommands::parse(&command);
    assert_eq!(result, Ok(RedisCommands::Get(b"mykey".to_vec())));
}

// `PX` is the only option of `SET`; any other token, `EX` included, is refused.
#[test]
fn test_parse_set_command() {
    let command = Type::Array(Array::new(vec![
        BulkString::from_string("SET"),
        BulkString::from_string("mykey"),
        BulkString::from_string("myvalue"),
        BulkString::from_string("EX"),
        BulkString::from_string("1000"),
    ]));
    let result = RedisCommands::parse(&command);
    assert_eq!(result, Err(CommandError::InvalidSetOption));
}

#[test]
fn parse_set_command_with_px() {
    let result = RedisCommands::parse(&array_of(&["SET", "mykey", "myvalue", "px", "1000"]));
    assert_eq!(
        result,
        Ok(RedisCommands::SetKey(
            b"mykey".to_vec(),
            b"myvalue".to_vec(),
            Some(1000)
        ))
    );
}

#[test]
fn test_parse_info_command() {
    let command = Type::Array(Array::new(vec![
        BulkString::from_string("INFO"),
        BulkString::from_string("server"),
    ]));
    let result = RedisCommands::parse(&command);
    assert_eq!(result, Ok(RedisCommands::Info(b"server".to_vec())));
}

#[test]
fn test_parse_replconf_command() {
    let command = Type::Array(Array::new(vec![
        BulkString::from_string("REPLCONF"),
        BulkString::from_string("listening-port"),
        BulkString::from_string("1234"),
    ]));
    let result = RedisCommands::parse(&command);
    assert_eq!(
        result,
        Ok(RedisCommands::Replconf(
            b"listening-port".to_vec(),
            b"1234".to_vec()
        ))
    );
}

#[test]
fn parse_psync_command() {
    let result = RedisCommands::parse(&array_of(&["psync", "?", "-1"]));
    assert_eq!(
        result,
        Ok(RedisCommands::Psync(
            ReplicationId::parse(Some(b"?".to_vec())),
            Offset::parse(None)
        ))
    );
}

#[test]
fn parse_errors_name_their_cause() {
    let cases: Vec<(Vec<&str>, CommandError)> = vec![
        (vec![], CommandError::EmptyCommand),
        (vec!["FLUSHALL"], CommandError::InvalidCommand),
        (vec!["GET"], CommandError::MissingKey),
        (vec!["SET", "k"], CommandError::MissingKeyValue),
        (vec!["SET", "k", "v", "PX"], CommandError::MissingTtl),
        (vec!["SET", "k", "v", "PX", "soon"], CommandError::InvalidTtl),
        (vec!["SET", "k", "v", "PX", "-5"], CommandError::InvalidTtl),
        (vec!["SET", "k", "v", "KEEPTTL"], CommandError::InvalidSetOption),
        (vec!["INFO"], CommandError::MissingInfoSection),
        (vec!["REPLCONF", "capa"], CommandError::MissingReplconfArguments),
        (vec!["PSYNC", "?"], CommandError::MissingPsyncArguments),
        (vec!["PSYNC", "?", "300"], CommandError::InvalidPsyncOffset),
        (vec!["PING", "x"], CommandError::WrongArity),
        (vec!["ECHO"], CommandError::WrongArity),
        (vec!["GET", "k", "x"], CommandError::WrongArity),
        (vec!["SET", "k", "v", "PX", "10", "x"], CommandError::WrongArity),
        (vec!["INFO", "replication", "x"], CommandError::WrongArity),
        (vec!["REPLCONF", "capa", "psync2", "x"], CommandError::WrongArity),
        (vec!["PSYNC", "?", "-1", "x"], CommandError::WrongArity),
    ];
    for (words, error) in cases {
        assert_eq!(RedisCommands::parse(&array_of(&words)), Err(error));
    }
}

#[test]
fn simple_and_bulk_frames_carry_only_ping() {
    let pong = Type::SimpleString(SimpleString::from_bytes(b"+pong\r\n").unwrap());
    assert_eq!(RedisCommands::parse(&pong), Err(CommandError::InvalidCommand));
    let bulk = Type::BulkString(BulkString::from_string("PING"));
    assert_eq!(RedisCommands::parse(&bulk), Err(CommandError::InvalidCommand));
}

#[test]
fn command_names_ignore_case() {
    assert_eq!(
        RedisCommands::parse(&array_of(&["pInG"])),
        Ok(RedisCommands::Ping)
    );
    assert_eq!(
        RedisCommands::parse(&array_of(&["gEt", "k"])),
        Ok(RedisCommands::Get(b"k".to_vec()))
    );
}

#[test]
fn outgoing_command_bytes() {
    assert_eq!(RedisCommands::Ping.to_redis_bytes(), b"*1\r\n$4\r\nPING\r\n");
    let psync = RedisCommands::Psync(ReplicationId::parse(None), Offset::parse(None));
    assert_eq!(
        psync.to_redis_bytes(),
        b"*3\r\n$5\r\nPSYNC\r\n$1\r\n?\r\n$2\r\n-1\r\n"
    );
    let resync = RedisCommands::FullResync(
        ReplicationId::parse(Some(b"abc".to_vec())),
        Offset::parse(Some(0)),
    );
    assert_eq!(resync.to_redis_bytes(), b"+FULLRESYNC abc 0\r\n");
    let replconf = RedisCommands::Replconf(b"listening-port".to_vec(), b"6380".to_vec());
    assert_eq!(
        replconf.to_redis_bytes(),
        b"*3\r\n$8\r\nREPLCONF\r\n$14\r\nlistening-port\r\n$4\r\n6380\r\n"
    );
    let set = RedisCommands::SetKey(b"k".to_vec(), b"v".to_vec(), Some(100));
    assert_eq!(
        set.to_redis_bytes(),
        b"*5\r\n$3\r\nSET\r\n$1\r\nk\r\n$1\r\nv\r\n$2\r\nPX\r\n$3\r\n100\r\n"
    );
}

#[test]
fn sent_commands_parse_back() {
    let commands = vec![
        RedisCommands::Ping,
        RedisCommands::Get(b"k".to_vec()),
        RedisCommands::SetKey(b"k".to_vec(), b"v".to_vec(), None),
        RedisCommands::SetKey(b"k".to_vec(), b"v".to_vec(), Some(250)),
        RedisCommands::Info(b"replication".to_vec()),
        RedisCommands::Psync(ReplicationId::parse(None), Offset::parse(Some(-128))),
    ];
    for command in commands {
        let frame = Type::from_bytes(&command.to_redis_bytes()).unwrap();
        assert_eq!(RedisCommands::parse(&frame), Ok(command));
    }
}

#[test]
fn simple_string_ping_ignores_surrounding_white_space() {
    for bytes in [&b"+ PING \r\n"[..], &b"+\tping\r\n"[..], "+\u{A0}Ping\u{3000}\r\n".as_bytes()] {
        let frame = Type::SimpleString(SimpleString::from_bytes(bytes).unwrap());
        assert_eq!(RedisCommands::parse(&frame), Ok(RedisCommands::Ping));
    }
    let inner = Type::SimpleString(SimpleString::from_bytes(b"+PI NG\r\n").unwrap());
    assert_eq!(RedisCommands::parse(&inner), Err(CommandError::InvalidCommand));
}
