use redis_starter_rust::{
    Array, BulkString, RDBFile, RedisResponse, RespError, SimpleString, ToRedisBytes, Type,
};

#[test]
fn test_bulk_from_bytes() {
    let buf = b"$5\r\nhello\r\n";
    let bulk = BulkString::from_bytes(buf);
    assert_eq!(bulk.clone().unwrap().length(), 5);
    assert_eq!(bulk.clone().unwrap().data(), b"hello".to_vec());
}

#[test]
fn test_bulk_to_redis_bytes() {
    let bulk = BulkString::from_string("hello");
    assert_eq!(bulk.to_redis_bytes(), b"$5\r\nhello\r\n");
}

#[test]
fn test_bulk_string_from_bytes() {
    let buf = b"*2\r\n$3\r\nfoo\r\n$3\r\nbar\r\n";
    let bulk_string = Array::from_bytes(buf);
    assert_eq!(bulk_string.clone().unwrap().bulkstrings().len(), 2);
    assert_eq!(bulk_string.clone().unwrap().bulkstrings()[0].data(), b"foo".to_vec());
    assert_eq!(bulk_string.clone().unwrap().bulkstrings()[1].data(), b"bar".to_vec());
}

#[test]
fn test_redis_response_to_redis_bytes() {
    assert_eq!(RedisResponse::Null.to_redis_bytes(), b"$-1\r\n");
    assert_eq!(RedisResponse::Okay.to_redis_bytes(), b"+OK\r\n");
    assert_eq!(RedisResponse::Pong.to_redis_bytes(), b"+PONG\r\n");
}

#[test]
fn test_string_to_redis_bytes() {
    let s = "hello".to_string();
    assert_eq!(s.to_redis_bytes(), b"$5\r\nhello\r\n");
}

#[test]
fn test_bulk_string_from_bytes_error() {
    let buf = b"*2\r\n$3\r\nfoo\r\n";
    let result = Array::from_bytes(buf);
    assert!(result.is_err());
    assert!(matches!(result.unwrap_err(), RespError::ParseIntError));
}

#[test]
fn test_bulk_string_from_bytes_utf8_error() {
    let buf = [0, 159, 146, 150];
    let result = Array::from_bytes(&buf);
    assert!(result.is_err());
    assert!(matches!(result.unwrap_err(), RespError::Utf8Error));
}

#[test]
fn test_bulk_string_from_bytes_parse_int_error() {
    let buf = b"*not_a_number\r\n$3\r\nfoo\r\n$3\r\nbar\r\n";
    let result = Array::from_bytes(buf);
    assert!(result.is_err());
    assert!(matches!(result.unwrap_err(), RespError::ParseIntError));
}

#[test]
fn test_array_from_string() {
    let array = Array::from_string("hello world");
    assert_eq!(array.bulkstrings().len(), 2);
    assert_eq!(array.bulkstrings()[0].data(), b"hello".to_vec());
    assert_eq!(array.bulkstrings()[1].data(), b"world".to_vec());
}

#[test]
fn test_array_from_bytes() {
    let array = Array::from_bytes(b"*2\r\n$5\r\nhello\r\n$5\r\nworld\r\n").unwrap();
    assert_eq!(array.bulkstrings().len(), 2);
    assert_eq!(array.bulkstrings()[0].data(), b"hello".to_vec());
    assert_eq!(array.bulkstrings()[1].data(), b"world".to_vec());
}

#[test]
fn test_array_to_redis_bytes() {
    let array = Array::from_string("hello world");
    assert_eq!(
        array.to_redis_bytes(),
        b"*2\r\n$5\r\nhello\r\n$5\r\nworld\r\n".to_vec()
    );
}

#[test]
fn test_array_display() {
    let array = Array::from_string("hello world");
    assert_eq!(
        String::from_utf8(array.to_redis_bytes()).unwrap(),
        "*2\r\n$5\r\nhello\r\n$5\r\nworld\r\n"
    );
}

#[test]
fn test_empty_file() {
    let rdb_file = RDBFile::empty_file();
    assert_eq!(rdb_file.hex_content(), "524544495330303131fa0972656469732d76657205372e322e30fa0a72656469732d62697473c040fa056374696d65c26d08bc65fa08757365642d6d656dc2b0c41000fa08616f662d62617365c000fff06e3bfec0ff5aa2".as_bytes());
}

#[test]
fn test_length() {
    let rdb_file = RDBFile::empty_file();
    assert_eq!(rdb_file.length(), 88);
}

#[test]
fn test_to_redis_bytes() {
    let rdb_file = RDBFile::empty_file();
    let bytes = rdb_file.to_redis_bytes();
    assert_eq!(bytes[0], b'$');
    assert_eq!(bytes[bytes.len() - 3..], [0xff, 0x5a, 0xa2]);
}

#[test]
fn rdb_frame_header_and_first_bytes() {
    let bytes = RDBFile::empty_file().to_redis_bytes();
    assert_eq!(&bytes[..5], b"$88\r\n");
    assert_eq!(&bytes[5..10], b"REDIS");
    assert_eq!(bytes.len(), 5 + 88);
}

#[test]
fn bulk_payload_is_counted_not_trimmed() {
    let bulk = BulkString::from_bytes(b"$7\r\na\r\nb  c\r\n").unwrap();
    assert_eq!(bulk.data(), b"a\r\nb  c".to_vec());
    assert_eq!(bulk.length(), 7);
}

#[test]
fn bulk_from_pong_line() {
    let bulk = BulkString::from_bytes(b"+PONG\r\n").unwrap();
    assert_eq!(bulk.data(), b"PONG".to_vec());
    assert_eq!(bulk.length(), 4);
}

#[test]
fn bulk_with_short_payload_is_missing_data() {
    assert_eq!(
        BulkString::from_bytes(b"$5\r\nhel\r\n").unwrap_err(),
        RespError::MissingData
    );
    assert_eq!(
        BulkString::from_bytes(b"$3\r\nfoo").unwrap_err(),
        RespError::MissingData
    );
}

#[test]
fn bulk_with_plus_sign_length() {
    let bulk = BulkString::from_bytes(b"$+3\r\nfoo\r\n").unwrap();
    assert_eq!(bulk.data(), b"foo".to_vec());
}

#[test]
fn array_without_item_lines_is_missing_length() {
    assert_eq!(Array::from_bytes(b"*1").unwrap_err(), RespError::MissingLength);
    assert_eq!(Array::from_bytes(b"*0").unwrap().bulkstrings().len(), 0);
}

#[test]
fn frame_type_is_chosen_by_first_byte() {
    assert_eq!(Type::from_bytes(b"").unwrap_err(), RespError::InvalidType);
    assert_eq!(Type::from_bytes(b":1\r\n").unwrap_err(), RespError::InvalidType);
    assert!(matches!(Type::from_bytes(b"+OK\r\n"), Ok(Type::SimpleString(_))));
    assert!(matches!(Type::from_bytes(b"$2\r\nok\r\n"), Ok(Type::BulkString(_))));
    assert!(matches!(Type::from_bytes(b"*0\r\n"), Ok(Type::Array(_))));
}

#[test]
fn simple_string_reads_first_line() {
    let s = SimpleString::from_bytes(b"+hello world\r\nrest").unwrap();
    assert_eq!(s.data(), b"hello world");
    assert_eq!(
        SimpleString::from_bytes(b"+\xff\r\n").unwrap_err(),
        RespError::Utf8Error
    );
    assert_eq!(
        SimpleString::from_bytes(b"-ERR\r\n").unwrap_err(),
        RespError::InvalidType
    );
}

#[test]
fn frames_round_trip() {
    let frames: Vec<&[u8]> = vec![
        b"+PONG\r\n",
        b"$0\r\n\r\n",
        b"$4\r\na\r\nb\r\n",
        b"*3\r\n$3\r\nSET\r\n$1\r\nk\r\n$0\r\n\r\n",
        b"*0\r\n",
    ];
    for bytes in frames {
        let frame = Type::from_bytes(bytes).unwrap();
        assert_eq!(frame.to_redis_bytes(), bytes.to_vec());
        let again = Type::from_bytes(&frame.to_redis_bytes()).unwrap();
        assert_eq!(again.to_redis_bytes(), bytes.to_vec());
    }
}

#[test]
fn redis_response_from_exact_bytes() {
    assert_eq!(RedisResponse::from_bytes(b"+PONG\r\n"), Some(RedisResponse::Pong));
    assert_eq!(RedisResponse::from_bytes(b"+OK\r\n"), Some(RedisResponse::Okay));
    assert_eq!(RedisResponse::from_bytes(b"$-1\r\n"), Some(RedisResponse::Null));
    assert_eq!(RedisResponse::from_bytes(b"+FAIL\r\n"), None);
    assert_eq!(RedisResponse::from_bytes(b"+OK"), None);
}

#[test]
fn array_from_string_splits_on_white_space() {
    let array = Array::from_string("  REPLCONF\tlistening-port \n 6380  ");
    assert_eq!(array.bulkstrings().len(), 3);
    assert_eq!(array.bulkstrings()[2].data(), b"6380".to_vec());
    assert_eq!(Array::from_string("   ").bulkstrings().len(), 0);
    assert_eq!(Array::from_string("").bulkstrings().len(), 0);
}

#[test]
fn array_from_string_splits_like_split_whitespace() {
    let inputs = ["a\x0Bb", "a\u{A0}b\u{3000}c", "\u{2028}é x\u{85}", "one", "x\u{200A}\u{202F}y"];
    for input in inputs {
        let array = Array::from_string(input);
        let expected: Vec<Vec<u8>> = input
            .split_whitespace()
            .map(|w| w.as_bytes().to_vec())
            .collect();
        let words: Vec<Vec<u8>> = array.bulkstrings().iter().map(|b| b.data()).collect();
        assert_eq!(words, expected);
    }
    assert_eq!(Array::from_string("a\x0Bb").bulkstrings().len(), 2);
}
