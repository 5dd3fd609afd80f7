//! A Redis-compatible key/value server core: the RESP codec, the command
//! model and its execution against a keyspace with expiring entries, server
//! configuration, and the replica side of the replication handshake.
pub mod array;
pub mod bulkstring;
pub mod handler;
pub mod handshake;
pub mod instance;
pub mod rdb;
pub mod redis_commands;
pub mod redis_info;
pub mod redis_response;
pub mod resp;
pub mod server_config;
pub mod simple_string;
pub mod store;
pub mod text;

pub use array::Array;
pub use bulkstring::BulkString;
pub use handler::{handle_request, parse_request, respond};
pub use handshake::{Handshake, HandshakeAction, HandshakeState};
pub use instance::{MasterInstance, ReplicaInstance};
pub use rdb::RDBFile;
pub use redis_commands::{CommandError, RedisCommands};
pub use redis_info::{RedisInfo, Role};
pub use redis_response::RedisResponse;
pub use resp::{RespError, ToRedisBytes, Type};
pub use server_config::{
    AddrError, Config, ConfigError, MasterConfig, MasterConfigError, Offset, Port, PortError,
    ReplicaConfig, ReplicaConfigError, ReplicaOf, ReplicationId,
};
pub use simple_string::SimpleString;
pub use store::{RedisStore, RedisValue};
