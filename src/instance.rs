//! The state an instance starts with: an empty keyspace, its configuration,
//! and the metadata its role implies. The caller shares the keyspace and the
//! metadata between connections behind locks.
use vstd::prelude::*;

use crate::handshake::{ping_message, Handshake, HandshakeState};
use crate::redis_info::{initial_info, InfoView, RedisInfo, Role};
use crate::server_config::{MasterConfig, ReplicaConfig};
use crate::store::{RedisStore, ValueView};

verus! {

/// A master: it serves clients and answers `PSYNC` with a full resynchronisation.
#[derive(Debug)]
pub struct MasterInstance {
    store: RedisStore,
    config: MasterConfig,
    redis_info: RedisInfo,
}

/// A replica: it completes a handshake with its master, then serves clients.
#[derive(Debug)]
pub struct ReplicaInstance {
    store: RedisStore,
    config: ReplicaConfig,
    redis_info: RedisInfo,
}

impl MasterInstance {
    pub closed spec fn store_view(&self) -> Map<Seq<u8>, ValueView> {
        self.store@
    }

    pub closed spec fn info_view(&self) -> InfoView {
        self.redis_info@
    }

    pub closed spec fn config_view(&self) -> MasterConfig {
        self.config
    }

    pub closed spec fn wf(&self) -> bool {
        self.store.wf()
    }

    /// A fresh master: empty keyspace, replication id `Master`, offset 0.
    pub fn new(config: MasterConfig) -> (r: MasterInstance)
        ensures
            r.wf(),
            r.store_view() == Map::<Seq<u8>, ValueView>::empty(),
            r.info_view() == initial_info(Role::Master),
            r.config_view() == config,
    {
        MasterInstance { store: RedisStore::new(), config, redis_info: RedisInfo::new(Role::Master) }
    }

    /// The keyspace, the configuration and the metadata.
    pub fn into_parts(self) -> (r: (RedisStore, MasterConfig, RedisInfo))
        requires
            self.wf(),
        ensures
            r.0.wf(),
            r.0@ == self.store_view(),
            r.1 == self.config_view(),
            r.2@ == self.info_view(),
    {
        (self.store, self.config, self.redis_info)
    }
}

impl ReplicaInstance {
    pub closed spec fn store_view(&self) -> Map<Seq<u8>, ValueView> {
        self.store@
    }

    pub closed spec fn info_view(&self) -> InfoView {
        self.redis_info@
    }

    pub closed spec fn config_view(&self) -> ReplicaConfig {
        self.config
    }

    pub closed spec fn wf(&self) -> bool {
        self.store.wf()
    }

    /// A fresh replica: empty keyspace, replication id `?`, offset -1.
    pub fn new(config: ReplicaConfig) -> (r: ReplicaInstance)
        ensures
            r.wf(),
            r.store_view() == Map::<Seq<u8>, ValueView>::empty(),
            r.info_view() == initial_info(Role::Replica),
            r.config_view() == config,
    {
        ReplicaInstance { store: RedisStore::new(), config, redis_info: RedisInfo::new(Role::Replica) }
    }

    /// Starts the handshake with the master: the `PING` to send first.
    pub fn handshake(&self) -> (r: (Handshake, Vec<u8>))
        ensures
            r.0@ == (HandshakeState::AwaitPong, self.config_view()@.0),
            r.1@ == ping_message(),
    {
        Handshake::start(self.config.port())
    }

    /// The keyspace, the configuration and the metadata.
    pub fn into_parts(self) -> (r: (RedisStore, ReplicaConfig, RedisInfo))
        requires
            self.wf(),
        ensures
            r.0.wf(),
            r.0@ == self.store_view(),
            r.1 == self.config_view(),
            r.2@ == self.info_view(),
    {
        (self.store, self.config, self.redis_info)
    }
}

} // verus!
