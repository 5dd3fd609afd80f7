//! Startup configuration: ports, replication identity, and the command-line
//! form `[--port N] [--replicaof HOST PORT]`.
use vstd::prelude::*;
use vstd::string::StringSliceAdditionalSpecFns;

use crate::text::{
    bytes_eq, decimal, literal_bytes, parse_unsigned, parse_unsigned_bytes, push_all, push_decimal,
    push_signed_decimal, signed_decimal,
};

verus! {

/// The replication id used when none is known.
pub open spec fn unknown_replication_id() -> Seq<u8> {
    "?".spec_bytes()
}

/// The identifier of a replication history.
#[derive(Debug, Clone, PartialEq, Eq)]
pub struct ReplicationId(Vec<u8>);

impl View for ReplicationId {
    type V = Seq<u8>;

    closed spec fn view(&self) -> Seq<u8> {
        self.0@
    }
}

impl ReplicationId {
    /// The length of the id in bytes.
    pub fn len(&self) -> (r: usize)
        ensures
            r == self@.len(),
    {
        self.0.len()
    }

    /// The id `id`, or `?` when none is given.
    pub fn parse(id: Option<Vec<u8>>) -> (r: ReplicationId)
        ensures
            r@ == match id {
                Some(v) => v@,
                None => unknown_replication_id(),
            },
    {
        match id {
            Some(v) => ReplicationId(v),
            None => ReplicationId(literal_bytes("?")),
        }
    }

    /// A copy of the id.
    pub fn copied(&self) -> (r: ReplicationId)
        ensures
            r@ == self@,
    {
        ReplicationId(vstd::slice::slice_to_vec(self.0.as_slice()))
    }

    /// The id as bytes.
    pub fn as_bytes(&self) -> (r: &[u8])
        ensures
            r@ == self@,
    {
        self.0.as_slice()
    }
}

/// A position in a replication history; `-1` when unknown.
#[derive(Debug, Clone, Copy, PartialEq, Eq, Structural)]
pub struct Offset(i8);

impl View for Offset {
    type V = i8;

    closed spec fn view(&self) -> i8 {
        self.0
    }
}

impl Offset {
    /// The length of the offset written in decimal, sign included.
    pub fn len(&self) -> (r: usize)
        ensures
            r == signed_decimal(self@ as int).len(),
    {
        self.to_bytes().len()
    }

    /// The offset `offset`, or `-1` when none is given.
    pub fn parse(offset: Option<i8>) -> (r: Offset)
        ensures
            r@ == match offset {
                Some(v) => v,
                None => -1i8,
            },
    {
        match offset {
            Some(v) => Offset(v),
            None => Offset(-1),
        }
    }

    /// The value.
    pub fn get(&self) -> (r: i8)
        ensures
            r == self@,
    {
        self.0
    }

    /// The offset written in decimal.
    pub fn to_bytes(&self) -> (r: Vec<u8>)
        ensures
            r@ == signed_decimal(self@ as int),
    {
        let mut out: Vec<u8> = Vec::new();
        push_signed_decimal(&mut out, self.0 as i64);
        assert(out@ =~= signed_decimal(self@ as int));
        out
    }
}

/// The lowest port that is not reserved.
pub const FIRST_FREE_PORT: u16 = 1024;

/// A TCP port outside the reserved range.
#[derive(Debug, Clone, Copy, PartialEq, Eq, Structural)]
pub struct Port(u16);

impl View for Port {
    type V = u16;

    closed spec fn view(&self) -> u16 {
        self.0
    }
}

/// Why a port was refused.
#[derive(Debug, Clone, Copy, PartialEq, Eq, Structural)]
pub enum PortError {
    /// The number is below 1024.
    Reserved,
    /// The text is not a number from 0 to 65535.
    NotANumber,
}

impl PortError {
    /// A sentence that describes the error.
    pub fn message(&self) -> (r: String)
        ensures
            r@ == match self {
                PortError::Reserved => "Port number is reserved"@,
                PortError::NotANumber => "Input is not a number"@,
            },
    {
        match self {
            PortError::Reserved => String::from_str("Port number is reserved"),
            PortError::NotANumber => String::from_str("Input is not a number"),
        }
    }
}

impl std::str::FromStr for Port {
    type Err = PortError;

    fn from_str(s: &str) -> Result<Port, PortError> {
        Port::from_text(s.as_bytes())
    }
}

/// What reading a port from text gives.
pub open spec fn port_of_text(s: Seq<u8>) -> Result<u16, PortError> {
    match parse_unsigned(s, 65535) {
        None => Err(PortError::NotANumber),
        Some(n) => if n < FIRST_FREE_PORT {
            Err(PortError::Reserved)
        } else {
            Ok(n as u16)
        },
    }
}

impl Port {
    /// The port `port`, unless it is reserved.
    pub fn new(port: u16) -> (r: Result<Port, PortError>)
        ensures
            match r {
                Ok(p) => port >= FIRST_FREE_PORT && p@ == port,
                Err(e) => port < FIRST_FREE_PORT && e == PortError::Reserved,
            },
    {
        if port < FIRST_FREE_PORT {
            Err(PortError::Reserved)
        } else {
            Ok(Port(port))
        }
    }

    /// The port number.
    pub fn get(&self) -> (r: u16)
        ensures
            r == self@,
    {
        self.0
    }

    /// Reads a port number written in decimal.
    pub fn from_text(s: &[u8]) -> (r: Result<Port, PortError>)
        ensures
            match r {
                Ok(p) => port_of_text(s@) == Ok::<u16, PortError>(p@),
                Err(e) => port_of_text(s@) == Err::<u16, PortError>(e),
            },
    {
        match parse_unsigned_bytes(s, 65535) {
            None => Err(PortError::NotANumber),
            Some(n) => Port::new(n as u16),
        }
    }
}

/// The first position at or after `i` whose argument is `word`.
pub open spec fn find_from(args: Seq<&str>, word: Seq<u8>, i: int) -> Option<int>
    decreases args.len() - i,
{
    if i < 0 || i >= args.len() {
        None
    } else if args[i].spec_bytes() == word {
        Some(i)
    } else {
        find_from(args, word, i + 1)
    }
}

pub open spec fn default_port_text() -> Seq<u8> {
    "6379".spec_bytes()
}

/// The text of the listening port: the argument after the first `--port`,
/// or `6379` when there is none.
pub open spec fn port_text(args: Seq<&str>) -> Seq<u8> {
    match find_from(args, "--port".spec_bytes(), 0) {
        Some(p) => if p + 1 < args.len() {
            args[p + 1].spec_bytes()
        } else {
            default_port_text()
        },
        None => default_port_text(),
    }
}

/// Why a master configuration was refused.
#[derive(Debug, Clone, Copy, PartialEq, Eq, Structural)]
pub enum MasterConfigError {
    /// A replica configuration was given where a master's was expected.
    MissingPort,
    /// The listening port is not a valid port.
    InvalidPort(PortError),
}

/// Why a replica configuration was refused.
#[derive(Debug, Clone, Copy, PartialEq, Eq, Structural)]
pub enum ReplicaConfigError {
    /// No `--replicaof` argument.
    MissingReplicaOf,
    /// `--replicaof` is the last argument.
    MissingReplicaOfHost,
    /// `--replicaof` has a host but no port after it.
    MissingReplicaOfPort,
    /// The host names no address.
    InvalidReplicaOfHost,
    /// The master's port is not a valid port.
    InvalidReplicaOfPort,
    /// The listening port is not a valid port.
    InvalidPort(PortError),
}

/// Why a configuration was refused.
#[derive(Debug, Clone, Copy, PartialEq, Eq, Structural)]
pub enum ConfigError {
    Master(MasterConfigError),
    Replica(ReplicaConfigError),
}

/// A configuration, as values.
pub enum ConfigView {
    /// The listening port.
    Master(u16),
    /// The listening port, the master's host text and the master's port.
    Replica(u16, Seq<u8>, u16),
}

pub open spec fn master_config_of(args: Seq<&str>) -> Result<u16, MasterConfigError> {
    match port_of_text(port_text(args)) {
        Ok(p) => Ok(p),
        Err(e) => Err(MasterConfigError::InvalidPort(e)),
    }
}

pub open spec fn replica_config_of(args: Seq<&str>) -> Result<(u16, Seq<u8>, u16), ReplicaConfigError> {
    match find_from(args, "--replicaof".spec_bytes(), 0) {
        None => Err(ReplicaConfigError::MissingReplicaOf),
        Some(r) => if r + 1 >= args.len() {
            Err(ReplicaConfigError::MissingReplicaOfHost)
        } else if r + 2 >= args.len() {
            Err(ReplicaConfigError::MissingReplicaOfPort)
        } else {
            match port_of_text(args[r + 2].spec_bytes()) {
                Err(_) => Err(ReplicaConfigError::InvalidReplicaOfPort),
                Ok(upstream) => match port_of_text(port_text(args)) {
                    Err(e) => Err(ReplicaConfigError::InvalidPort(e)),
                    Ok(p) => Ok((p, args[r + 1].spec_bytes(), upstream)),
                },
            }
        },
    }
}

/// The configuration that `args` asks for: a replica when `--replicaof`
/// appears, else a master.
pub open spec fn config_of(args: Seq<&str>) -> Result<ConfigView, ConfigError> {
    if find_from(args, "--replicaof".spec_bytes(), 0) is Some {
        match replica_config_of(args) {
            Ok((p, h, u)) => Ok(ConfigView::Replica(p, h, u)),
            Err(e) => Err(ConfigError::Replica(e)),
        }
    } else {
        match master_config_of(args) {
            Ok(p) => Ok(ConfigView::Master(p)),
            Err(e) => Err(ConfigError::Master(e)),
        }
    }
}

/// The position of the first argument that is `word`.
fn find_arg(args: &[&str], word: &str) -> (r: Option<usize>)
    ensures
        match r {
            Some(i) => i < args@.len() && find_from(args@, word.spec_bytes(), 0) == Some(i as int),
            None => find_from(args@, word.spec_bytes(), 0) is None,
        },
{
    let w = word.as_bytes();
    let mut i: usize = 0;
    while i < args.len()
        invariant
            i <= args@.len(),
            w@ == word.spec_bytes(),
            find_from(args@, word.spec_bytes(), 0) == find_from(args@, word.spec_bytes(), i as int),
        decreases args@.len() - i,
    {
        if bytes_eq(args[i].as_bytes(), w) {
            return Some(i);
        }
        i = i + 1;
    }
    None
}

/// Reads the listening port from `args`.
fn parse_port(args: &[&str]) -> (r: Result<Port, PortError>)
    ensures
        match r {
            Ok(p) => port_of_text(port_text(args@)) == Ok::<u16, PortError>(p@),
            Err(e) => port_of_text(port_text(args@)) == Err::<u16, PortError>(e),
        },
{
    match find_arg(args, "--port") {
        Some(p) => if args.len() - p > 1 {
            Port::from_text(args[p + 1].as_bytes())
        } else {
            Port::from_text(literal_bytes("6379").as_slice())
        },
        None => Port::from_text(literal_bytes("6379").as_slice()),
    }
}

pub const COLON: u8 = 58;

/// A host that names no address.
#[derive(Debug, Clone, PartialEq, Eq)]
pub enum AddrError {
    InvalidHost(Vec<u8>),
}

impl AddrError {
    /// `<host> is not a valid host address`.
    pub fn message(&self) -> (r: Vec<u8>)
        ensures
            r@ == match self {
                AddrError::InvalidHost(h) => h@ + " is not a valid host address".spec_bytes(),
            },
    {
        match self {
            AddrError::InvalidHost(h) => {
                let mut out = vstd::slice::slice_to_vec(h.as_slice());
                push_all(&mut out, literal_bytes(" is not a valid host address").as_slice());
                out
            },
        }
    }
}

/// The master a replica follows: its host, as written, and its port.
#[derive(Debug, Clone, PartialEq, Eq)]
pub struct ReplicaOf {
    host_address: Vec<u8>,
    port: Port,
}

impl View for ReplicaOf {
    type V = (Seq<u8>, u16);

    closed spec fn view(&self) -> (Seq<u8>, u16) {
        (self.host_address@, self.port@)
    }
}

/// The address to connect to for a host: `localhost` means `127.0.0.1`.
pub open spec fn connect_host_of(host: Seq<u8>) -> Seq<u8> {
    if host == "localhost".spec_bytes() {
        "127.0.0.1".spec_bytes()
    } else {
        host
    }
}

impl ReplicaOf {
    pub fn new(host: Vec<u8>, port: Port) -> (r: ReplicaOf)
        ensures
            r@ == (host@, port@),
    {
        ReplicaOf { host_address: host, port }
    }

    /// The host as it was written.
    pub fn host_address(&self) -> (r: &[u8])
        ensures
            r@ == self@.0,
    {
        self.host_address.as_slice()
    }

    pub fn port(&self) -> (r: Port)
        ensures
            r@ == self@.1,
    {
        self.port
    }

    /// `<host>:<port>`, with `localhost` written as `127.0.0.1`.
    pub fn socket_address(&self) -> (r: Vec<u8>)
        ensures
            r@ == connect_host_of(self@.0) + seq![COLON] + decimal(self@.1 as nat),
    {
        let mut out = self.connect_host();
        out.push(COLON);
        push_decimal(&mut out, self.port.get() as u64);
        out
    }

    /// The address text to connect to.
    pub fn connect_host(&self) -> (r: Vec<u8>)
        ensures
            r@ == connect_host_of(self@.0),
    {
        if bytes_eq(self.host_address.as_slice(), literal_bytes("localhost").as_slice()) {
            literal_bytes("127.0.0.1")
        } else {
            vstd::slice::slice_to_vec(self.host_address.as_slice())
        }
    }
}

/// How a master is configured.
#[derive(Debug, Clone, Copy, PartialEq, Eq)]
pub struct MasterConfig {
    port: Port,
}

impl View for MasterConfig {
    type V = u16;

    closed spec fn view(&self) -> u16 {
        self.port@
    }
}

impl MasterConfig {
    pub fn port(&self) -> (r: Port)
        ensures
            r@ == self@,
    {
        self.port
    }

    /// Reads a master configuration from the command line.
    pub fn from_args(args: &[&str]) -> (r: Result<MasterConfig, MasterConfigError>)
        ensures
            match r {
                Ok(c) => master_config_of(args@) == Ok::<u16, MasterConfigError>(c@),
                Err(e) => master_config_of(args@) == Err::<u16, MasterConfigError>(e),
            },
    {
        match parse_port(args) {
            Ok(port) => Ok(MasterConfig { port }),
            Err(e) => Err(MasterConfigError::InvalidPort(e)),
        }
    }
}

/// How a replica is configured.
#[derive(Debug, Clone, PartialEq, Eq)]
pub struct ReplicaConfig {
    port: Port,
    replica_of: ReplicaOf,
}

impl View for ReplicaConfig {
    type V = (u16, Seq<u8>, u16);

    closed spec fn view(&self) -> (u16, Seq<u8>, u16) {
        (self.port@, self.replica_of@.0, self.replica_of@.1)
    }
}

impl ReplicaConfig {
    pub fn replica_of(&self) -> (r: &ReplicaOf)
        ensures
            r@ == (self@.1, self@.2),
    {
        &self.replica_of
    }

    pub fn port(&self) -> (r: Port)
        ensures
            r@ == self@.0,
    {
        self.port
    }

    /// Reads a replica configuration from the command line.
    pub fn from_args(args: &[&str]) -> (r: Result<ReplicaConfig, ReplicaConfigError>)
        ensures
            match r {
                Ok(c) => replica_config_of(args@) == Ok::<(u16, Seq<u8>, u16), ReplicaConfigError>(c@),
                Err(e) => replica_config_of(args@) == Err::<(u16, Seq<u8>, u16), ReplicaConfigError>(e),
            },
    {
        let r = match find_arg(args, "--replicaof") {
            Some(r) => r,
            None => return Err(ReplicaConfigError::MissingReplicaOf),
        };
        if args.len() - r <= 1 {
            return Err(ReplicaConfigError::MissingReplicaOfHost);
        }
        if args.len() - r <= 2 {
            return Err(ReplicaConfigError::MissingReplicaOfPort);
        }
        let upstream = match Port::from_text(args[r + 2].as_bytes()) {
            Ok(p) => p,
            Err(_) => return Err(ReplicaConfigError::InvalidReplicaOfPort),
        };
        let port = match parse_port(args) {
            Ok(p) => p,
            Err(e) => return Err(ReplicaConfigError::InvalidPort(e)),
        };
        let host = vstd::slice::slice_to_vec(args[r + 1].as_bytes());
        Ok(ReplicaConfig { port, replica_of: ReplicaOf::new(host, upstream) })
    }
}

/// The configuration of an instance.
#[derive(Debug, Clone, PartialEq, Eq)]
pub enum Config {
    Master(MasterConfig),
    Replica(ReplicaConfig),
}

impl View for Config {
    type V = ConfigView;

    open spec fn view(&self) -> ConfigView {
        match self {
            Config::Master(c) => ConfigView::Master(c@),
            Config::Replica(c) => ConfigView::Replica(c@.0, c@.1, c@.2),
        }
    }
}

impl MasterConfig {
    /// The master configuration inside `config`.
    pub fn from_server_config(config: Config) -> (r: Result<MasterConfig, MasterConfigError>)
        ensures
            match config {
                Config::Master(c) => r == Ok::<MasterConfig, MasterConfigError>(c),
                Config::Replica(_) => r == Err::<MasterConfig, MasterConfigError>(
                    MasterConfigError::MissingPort,
                ),
            },
    {
        match config {
            Config::Master(c) => Ok(c),
            Config::Replica(_) => Err(MasterConfigError::MissingPort),
        }
    }
}

impl ReplicaConfig {
    /// The replica configuration inside `config`.
    pub fn from_server_config(config: Config) -> (r: Result<ReplicaConfig, ReplicaConfigError>)
        ensures
            match config {
                Config::Replica(c) => r matches Ok(c2) && c2@ == c@,
                Config::Master(_) => r matches Err(e) && e == ReplicaConfigError::MissingReplicaOf,
            },
    {
        match config {
            Config::Replica(c) => Ok(c),
            Config::Master(_) => Err(ReplicaConfigError::MissingReplicaOf),
        }
    }
}

impl Config {
    /// Reads the configuration from the command line: a replica when
    /// `--replicaof` appears, else a master.
    pub fn from_args(args: &[&str]) -> (r: Result<Config, ConfigError>)
        ensures
            match r {
                Ok(c) => config_of(args@) == Ok::<ConfigView, ConfigError>(c@),
                Err(e) => config_of(args@) == Err::<ConfigView, ConfigError>(e),
            },
    {
        if find_arg(args, "--replicaof").is_some() {
            match ReplicaConfig::from_args(args) {
                Ok(c) => Ok(Config::Replica(c)),
                Err(e) => Err(ConfigError::Replica(e)),
            }
        } else {
            match MasterConfig::from_args(args) {
                Ok(c) => Ok(Config::Master(c)),
                Err(e) => Err(ConfigError::Master(e)),
            }
        }
    }

    /// The listening port.
    pub fn port(&self) -> (r: Port)
        ensures
            r@ == match self@ {
                ConfigView::Master(p) => p,
                ConfigView::Replica(p, _, _) => p,
            },
    {
        match self {
            Config::Master(c) => c.port(),
            Config::Replica(c) => c.port(),
        }
    }
}

} // verus!
