use redis_starter_rust::{
    AddrError, Config, ConfigError, MasterConfig, MasterConfigError, Offset, Port, PortError,
    ReplicaConfig, ReplicaConfigError, ReplicaOf, ReplicationId,
};

#[test]
fn test_host_addr_error_display() {
    let error = AddrError::InvalidHost(b"invalid_ip".to_vec());
    assert_eq!(
        String::from_utf8(error.message()).unwrap(),
        "invalid_ip is not a valid host address"
    );
}

#[test]
fn test_replication_id_len() {
    let id = ReplicationId::parse(Some(b"12345".to_vec()));
    assert_eq!(id.len(), 5);
}

#[test]
fn test_replication_id_parse() {
    let id = ReplicationId::parse(Some(b"12345".to_vec()));
    assert_eq!(id.as_bytes(), b"12345");

    let id = ReplicationId::parse(None);
    assert_eq!(id.as_bytes(), b"?");
}

#[test]
fn test_replication_id_display() {
    let id = ReplicationId::parse(Some(b"12345".to_vec()));
    assert_eq!(String::from_utf8(id.as_bytes().to_vec()).unwrap(), "12345");
}

#[test]
fn test_offset_len() {
    let offset = Offset::parse(Some(123));
    assert_eq!(offset.len(), 3);
}

#[test]
fn offset_len_counts_the_sign() {
    assert_eq!(Offset::parse(None).len(), 2);
    assert_eq!(Offset::parse(Some(-128)).len(), 4);
    assert_eq!(Offset::parse(Some(0)).len(), 1);
}

#[test]
fn test_offset_parse() {
    let offset = Offset::parse(Some(123));
    assert_eq!(offset.get(), 123);

    let offset = Offset::parse(None);
    assert_eq!(offset.get(), -1);
}

#[test]
fn test_offset_display() {
    let offset = Offset::parse(Some(123));
    assert_eq!(String::from_utf8(offset.to_bytes()).unwrap(), "123");
}

#[test]
fn test_port_new() {
    let port = Port::new(1024);
    assert!(port.is_ok());
    assert_eq!(port.unwrap().get(), 1024);

    let port = Port::new(65535);
    assert!(port.is_ok());
    assert_eq!(port.unwrap().get(), 65535);

    let port = Port::new(0);
    assert!(port.is_err());
    assert_eq!(port.unwrap_err().message(), "Port number is reserved");

    let port = Port::new(1023);
    assert!(port.is_err());
    assert_eq!(port.unwrap_err().message(), "Port number is reserved");
}

#[test]
fn test_port_from_str() {
    let port = "1024".parse::<Port>();
    assert!(port.is_ok());
    assert_eq!(port.unwrap().get(), 1024);

    let port = "65535".parse::<Port>();
    assert!(port.is_ok());
    assert_eq!(port.unwrap().get(), 65535);

    let port = "0".parse::<Port>();
    assert!(port.is_err());
    assert_eq!(port.unwrap_err().message(), "Port number is reserved");

    let port = "1023".parse::<Port>();
    assert!(port.is_err());
    assert_eq!(port.unwrap_err().message(), "Port number is reserved");

    let port = "invalid".parse::<Port>();
    assert!(port.is_err());
    assert_eq!(port.unwrap_err().message(), "Input is not a number");
}

#[test]
fn port_text_edge_cases() {
    assert_eq!("65536".parse::<Port>().unwrap_err(), PortError::NotANumber);
    assert_eq!("".parse::<Port>().unwrap_err(), PortError::NotANumber);
    assert_eq!("+6380".parse::<Port>().unwrap().get(), 6380);
    assert_eq!("-6380".parse::<Port>().unwrap_err(), PortError::NotANumber);
}

#[test]
fn test_port_display() {
    let port = Port::new(1024).unwrap();
    assert_eq!(format!("{}", port.get()), "1024");

    let port = Port::new(65535).unwrap();
    assert_eq!(format!("{}", port.get()), "65535");
}

#[test]
fn test_port_error_display() {
    let error = PortError::Reserved;
    assert_eq!(error.message(), "Port number is reserved");

    let error = PortError::NotANumber;
    assert_eq!(error.message(), "Input is not a number");
}

#[test]
fn test_replica_of_new() {
    let port = Port::new(8080).unwrap();
    let replica_of = ReplicaOf::new(b"192.168.0.1".to_vec(), port);

    assert_eq!(replica_of.host_address(), b"192.168.0.1");
    assert_eq!(replica_of.port(), port);
}

#[test]
fn test_replica_of_display() {
    let port = Port::new(8080).unwrap();
    let replica_of = ReplicaOf::new(b"192.168.0.1".to_vec(), port);

    assert_eq!(replica_of.socket_address(), b"192.168.0.1:8080");
}

#[test]
fn localhost_connects_to_loopback() {
    let replica_of = ReplicaOf::new(b"localhost".to_vec(), Port::new(6379).unwrap());
    assert_eq!(replica_of.socket_address(), b"127.0.0.1:6379");
}

#[test]
fn master_config_defaults_to_6379() {
    let config = Config::from_args(&["server"]).unwrap();
    assert_eq!(config.port().get(), 6379);
    assert!(matches!(config, Config::Master(_)));
    assert_eq!(MasterConfig::from_args(&["--port"]).unwrap().port().get(), 6379);
}

#[test]
fn master_config_reads_port() {
    let config = Config::from_args(&["server", "--port", "7001"]).unwrap();
    assert_eq!(config.port().get(), 7001);
    assert_eq!(
        Config::from_args(&["--port", "80"]).unwrap_err(),
        ConfigError::Master(MasterConfigError::InvalidPort(PortError::Reserved))
    );
}

#[test]
fn replica_config_reads_master() {
    let args = ["server", "--port", "6380", "--replicaof", "localhost", "6379"];
    let config = Config::from_args(&args).unwrap();
    assert_eq!(config.port().get(), 6380);
    match config {
        Config::Replica(replica) => {
            assert_eq!(replica.replica_of().host_address(), b"localhost");
            assert_eq!(replica.replica_of().port().get(), 6379);
        }
        Config::Master(_) => panic!("expected a replica configuration"),
    }
}

#[test]
fn replica_config_errors() {
    assert_eq!(
        ReplicaConfig::from_args(&["--port", "6380"]).unwrap_err(),
        ReplicaConfigError::MissingReplicaOf
    );
    assert_eq!(
        Config::from_args(&["--replicaof"]).unwrap_err(),
        ConfigError::Replica(ReplicaConfigError::MissingReplicaOfHost)
    );
    assert_eq!(
        Config::from_args(&["--replicaof", "localhost"]).unwrap_err(),
        ConfigError::Replica(ReplicaConfigError::MissingReplicaOfPort)
    );
    assert_eq!(
        Config::from_args(&["--replicaof", "localhost", "100"]).unwrap_err(),
        ConfigError::Replica(ReplicaConfigError::InvalidReplicaOfPort)
    );
    assert_eq!(
        Config::from_args(&["--port", "x", "--replicaof", "localhost", "6379"]).unwrap_err(),
        ConfigError::Replica(ReplicaConfigError::InvalidPort(PortError::NotANumber))
    );
}

#[test]
fn configs_from_server_config() {
    let master = Config::from_args(&["--port", "7002"]).unwrap();
    let replica = Config::from_args(&["--replicaof", "127.0.0.1", "7002"]).unwrap();
    assert_eq!(MasterConfig::from_server_config(master.clone()).unwrap().port().get(), 7002);
    assert_eq!(
        MasterConfig::from_server_config(replica.clone()).unwrap_err(),
        MasterConfigError::MissingPort
    );
    assert_eq!(
        ReplicaConfig::from_server_config(replica).unwrap().replica_of().port().get(),
        7002
    );
    assert_eq!(
        ReplicaConfig::from_server_config(master).unwrap_err(),
        ReplicaConfigError::MissingReplicaOf
    );
}
