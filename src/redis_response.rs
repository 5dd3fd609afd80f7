//! The fixed replies that travel as exact byte strings.
use vstd::prelude::*;
use vstd::string::StringSliceAdditionalSpecFns;

use crate::resp::ToRedisBytes;
use crate::text::{bytes_eq, literal_bytes};

verus! {

/// A fixed reply.
#[derive(Debug, Clone, Copy, PartialEq, Eq, Structural)]
pub enum RedisResponse {
    /// The null bulk string, `$-1`.
    Null,
    /// `+OK`.
    Okay,
    Pong,
}

pub open spec fn null_reply() -> Seq<u8> {
    "$-1\r\n".spec_bytes()
}

pub open spec fn ok_reply() -> Seq<u8> {
    "+OK\r\n".spec_bytes()
}

pub open spec fn pong_reply() -> Seq<u8> {
    "+PONG\r\n".spec_bytes()
}

pub open spec fn response_bytes(r: RedisResponse) -> Seq<u8> {
    match r {
        RedisResponse::Null => null_reply(),
        RedisResponse::Okay => ok_reply(),
        RedisResponse::Pong => pong_reply(),
    }
}

/// The fixed reply whose bytes are exactly `buf`, if any.
pub open spec fn response_of(buf: Seq<u8>) -> Option<RedisResponse> {
    if buf == null_reply() {
        Some(RedisResponse::Null)
    } else if buf == ok_reply() {
        Some(RedisResponse::Okay)
    } else if buf == pong_reply() {
        Some(RedisResponse::Pong)
    } else {
        None
    }
}

impl RedisResponse {
    /// Recognises a fixed reply by its exact bytes.
    pub fn from_bytes(buf: &[u8]) -> (r: Option<RedisResponse>)
        ensures
            r == response_of(buf@),
    {
        if bytes_eq(buf, literal_bytes("$-1\r\n").as_slice()) {
            Some(RedisResponse::Null)
        } else if bytes_eq(buf, literal_bytes("+OK\r\n").as_slice()) {
            Some(RedisResponse::Okay)
        } else if bytes_eq(buf, literal_bytes("+PONG\r\n").as_slice()) {
            Some(RedisResponse::Pong)
        } else {
            None
        }
    }
}

impl ToRedisBytes for RedisResponse {
    open spec fn redis_bytes(&self) -> Seq<u8> {
        response_bytes(*self)
    }

    fn to_redis_bytes(&self) -> (r: Vec<u8>) {
        match self {
            RedisResponse::Null => literal_bytes("$-1\r\n"),
            RedisResponse::Okay => literal_bytes("+OK\r\n"),
            RedisResponse::Pong => literal_bytes("+PONG\r\n"),
        }
    }
}

} // verus!
