//! Role and replication metadata, as `INFO replication` shows them.
use vstd::prelude::*;
use vstd::string::StringSliceAdditionalSpecFns;

use crate::bulkstring::BulkString;
use crate::server_config::{unknown_replication_id, Offset, ReplicationId};
use crate::text::{crlf, literal_bytes, push_all, signed_decimal, CR, LF};

verus! {

/// Whether an instance leads or follows.
#[derive(Debug, Clone, Copy, PartialEq, Eq, Structural)]
pub enum Role {
    Master,
    Replica,
}

/// The name of a role on the wire (`slave` for a replica, as Redis writes it).
pub open spec fn role_name(r: Role) -> Seq<u8> {
    match r {
        Role::Master => "master".spec_bytes(),
        Role::Replica => "slave".spec_bytes(),
    }
}

impl Role {
    /// The name of the role on the wire.
    pub fn name(&self) -> (r: Vec<u8>)
        ensures
            r@ == role_name(*self),
    {
        match self {
            Role::Master => literal_bytes("master"),
            Role::Replica => literal_bytes("slave"),
        }
    }
}

/// The replication id a master starts with.
pub open spec fn initial_master_replid() -> Seq<u8> {
    "Master".spec_bytes()
}

/// A line `<key><value>\r\n`.
pub open spec fn info_line(key: Seq<u8>, value: Seq<u8>) -> Seq<u8> {
    key + value + crlf()
}

/// The text of `INFO replication`: three lines, in this order.
pub open spec fn replication_text(role: Role, replid: Seq<u8>, offset: i8) -> Seq<u8> {
    info_line("role:".spec_bytes(), role_name(role)) + info_line(
        "master_replid:".spec_bytes(),
        replid,
    ) + info_line("master_repl_offset:".spec_bytes(), signed_decimal(offset as int))
}

/// What an instance reports about itself.
#[derive(Debug, Clone)]
pub struct RedisInfo {
    role: Role,
    master_replid: ReplicationId,
    master_repl_offset: Offset,
}

pub struct InfoView {
    pub role: Role,
    pub replid: Seq<u8>,
    pub offset: i8,
}

impl View for RedisInfo {
    type V = InfoView;

    closed spec fn view(&self) -> InfoView {
        InfoView { role: self.role, replid: self.master_replid@, offset: self.master_repl_offset@ }
    }
}

/// The metadata a fresh instance of `role` starts with: a master has the
/// id `Master` and offset 0, a replica knows neither (`?` and -1).
pub open spec fn initial_info(role: Role) -> InfoView {
    InfoView {
        role,
        replid: match role {
            Role::Master => initial_master_replid(),
            Role::Replica => unknown_replication_id(),
        },
        offset: match role {
            Role::Master => 0i8,
            Role::Replica => -1i8,
        },
    }
}

impl RedisInfo {
    /// The metadata a fresh instance of `role` starts with.
    pub fn new(role: Role) -> (r: RedisInfo)
        ensures
            r@ == initial_info(role),
    {
        match role {
            Role::Master => RedisInfo {
                role,
                master_replid: ReplicationId::parse(Some(literal_bytes("Master"))),
                master_repl_offset: Offset::parse(Some(0)),
            },
            Role::Replica => RedisInfo {
                role,
                master_replid: ReplicationId::parse(None),
                master_repl_offset: Offset::parse(None),
            },
        }
    }

    /// The text of `INFO replication`.
    pub fn to_text(&self) -> (r: Vec<u8>)
        ensures
            r@ == replication_text(self@.role, self@.replid, self@.offset),
    {
        let mut out = literal_bytes("role:");
        push_all(&mut out, self.role.name().as_slice());
        out.push(CR);
        out.push(LF);
        push_all(&mut out, literal_bytes("master_replid:").as_slice());
        push_all(&mut out, self.master_replid.as_bytes());
        out.push(CR);
        out.push(LF);
        push_all(&mut out, literal_bytes("master_repl_offset:").as_slice());
        push_all(&mut out, self.master_repl_offset.to_bytes().as_slice());
        out.push(CR);
        out.push(LF);
        assert(out@ =~= replication_text(self@.role, self@.replid, self@.offset));
        out
    }

    /// The text of `INFO replication` as a bulk string.
    pub fn to_bulk_string(&self) -> (r: BulkString)
        ensures
            r@ == replication_text(self@.role, self@.replid, self@.offset),
    {
        BulkString::new(self.to_text())
    }

    pub fn master_replid(&self) -> (r: &ReplicationId)
        ensures
            r@ == self@.replid,
    {
        &self.master_replid
    }

    pub fn master_repl_offset(&self) -> (r: &Offset)
        ensures
            r@ == self@.offset,
    {
        &self.master_repl_offset
    }

    pub fn role(&self) -> (r: &Role)
        ensures
            *r == self@.role,
    {
        &self.role
    }
}

} // verus!
