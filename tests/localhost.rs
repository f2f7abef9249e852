use hydro_cli::strategy::{
    ClientStrategy, HostTargetType, LaunchedLocalhost, LocalhostHost, ResourceResult,
    ServerBindConfig, ServerStrategy, SocketAddress, StrategyError,
};

#[test]
fn same_host_negotiation_prefers_unix_socket() {
    let host = LocalhostHost::new(3, true);
    match host.strategy_as_server(None) {
        Ok((ClientStrategy::UnixSocket(id), ServerStrategy::UnixSocket)) => assert_eq!(id, 3),
        other => panic!("unexpected {:?}", other),
    }
    let same = LocalhostHost::new(3, true);
    match host.strategy_as_server(Some(&same)) {
        Ok((ClientStrategy::UnixSocket(id), ServerStrategy::UnixSocket)) => assert_eq!(id, 3),
        other => panic!("unexpected {:?}", other),
    }
}

#[test]
fn same_host_negotiation_without_unix_sockets_uses_tcp() {
    let host = LocalhostHost::new(5, false);
    match host.strategy_as_server(None) {
        Ok((ClientStrategy::InternalTcpPort(id), ServerStrategy::InternalTcpPort)) => {
            assert_eq!(id, 5)
        }
        other => panic!("unexpected {:?}", other),
    }
}

#[test]
fn cross_host_negotiation_fails() {
    let server = LocalhostHost::new(1, true);
    let client = LocalhostHost::new(2, true);
    assert!(matches!(
        server.strategy_as_server(Some(&client)),
        Err(StrategyError::NoViableStrategy)
    ));
}

#[test]
fn can_connect_to_each_strategy() {
    let host = LocalhostHost::new(4, true);
    assert!(host.can_connect_to(&ClientStrategy::UnixSocket(4)));
    assert!(!host.can_connect_to(&ClientStrategy::UnixSocket(7)));
    assert!(host.can_connect_to(&ClientStrategy::InternalTcpPort(4)));
    assert!(!host.can_connect_to(&ClientStrategy::InternalTcpPort(7)));
    let addr = SocketAddress { host: "10.0.0.1".to_string(), port: 80 };
    assert!(host.can_connect_to(&ClientStrategy::ForwardedTcpPort(addr)));
    let no_unix = LocalhostHost::new(4, false);
    assert!(!no_unix.can_connect_to(&ClientStrategy::UnixSocket(4)));
}

#[test]
fn host_basics() {
    let mut host = LocalhostHost::new(9, true);
    assert_eq!(host.id(), 9);
    assert_eq!(host.target_type(), HostTargetType::Local);
    host.request_port(&ServerStrategy::UnixSocket);
    host.request_custom_binary();
    let launched = host.provision(&ResourceResult {});
    assert_eq!(host.id(), 9);
    let addr = SocketAddress { host: "1.2.3.4".to_string(), port: 9 };
    let forwarded = launched.forward_port(&addr);
    assert_eq!(forwarded.host, "1.2.3.4");
    assert_eq!(forwarded.port, 9);
}

#[test]
fn server_config_external_port_fails() {
    let launched = LaunchedLocalhost {};
    assert!(matches!(
        launched.server_config(&ServerStrategy::ExternalTcpPort(8080)),
        Err(StrategyError::UnsupportedStrategy)
    ));
    let nested = ServerStrategy::Merge(vec![
        ServerStrategy::UnixSocket,
        ServerStrategy::Demux(vec![(0, ServerStrategy::ExternalTcpPort(1))]),
    ]);
    assert!(matches!(
        launched.server_config(&nested),
        Err(StrategyError::UnsupportedStrategy)
    ));
}

#[test]
fn server_config_leaves() {
    let launched = LaunchedLocalhost {};
    assert!(matches!(
        launched.server_config(&ServerStrategy::UnixSocket),
        Ok(ServerBindConfig::UnixSocket)
    ));
    match launched.server_config(&ServerStrategy::InternalTcpPort) {
        Ok(ServerBindConfig::TcpPort(h)) => assert_eq!(h, "127.0.0.1"),
        other => panic!("unexpected {:?}", other),
    }
    assert!(matches!(
        launched.server_config(&ServerStrategy::Null),
        Ok(ServerBindConfig::Null)
    ));
}

#[test]
fn server_config_demux_keeps_keys() {
    let launched = LaunchedLocalhost {};
    let demux = ServerStrategy::Demux(vec![
        (1, ServerStrategy::UnixSocket),
        (2, ServerStrategy::InternalTcpPort),
    ]);
    match launched.server_config(&demux) {
        Ok(ServerBindConfig::Demux(m)) => {
            assert_eq!(m.len(), 2);
            assert_eq!(m[0].0, 1);
            assert!(matches!(m[0].1, ServerBindConfig::UnixSocket));
            assert_eq!(m[1].0, 2);
            match &m[1].1 {
                ServerBindConfig::TcpPort(h) => assert_eq!(h, "127.0.0.1"),
                other => panic!("unexpected {:?}", other),
            }
        }
        other => panic!("unexpected {:?}", other),
    }
}

#[test]
fn server_config_merge_keeps_order() {
    let launched = LaunchedLocalhost {};
    let merge = ServerStrategy::Merge(vec![
        ServerStrategy::Null,
        ServerStrategy::UnixSocket,
        ServerStrategy::InternalTcpPort,
    ]);
    match launched.server_config(&merge) {
        Ok(ServerBindConfig::Merge(l)) => {
            assert_eq!(l.len(), 3);
            assert!(matches!(l[0], ServerBindConfig::Null));
            assert!(matches!(l[1], ServerBindConfig::UnixSocket));
            assert!(matches!(l[2], ServerBindConfig::TcpPort(_)));
        }
        other => panic!("unexpected {:?}", other),
    }
}
