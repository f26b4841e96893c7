use warpinator_lib::config::protocol::{ProtocolConfig, ProtocolFeatures, MESSAGE_SUPPORT};
use warpinator_lib::config::user::UserConfig;
use warpinator_lib::server::{
    after_mdns_shutdown, wind_up, MdnsShutdown, MdnsShutdownStep, ServeEnd, SERVICE_API_VERSION,
};
use warpinator_lib::{WarpinatorBuildError, WarpinatorServeError, WarpinatorServer};

fn user() -> UserConfig {
    UserConfig {
        hostname: "host".to_string(),
        bind_addr_v4: Some("192.168.0.7".to_string()),
        port: 5000,
        reg_port: 5001,
        ..UserConfig::default()
    }
}

fn server() -> WarpinatorServer {
    WarpinatorServer::builder().user_config(user()).service_name("HOST-1").build().unwrap()
}

#[test]
fn server_needs_a_name() {
    let result = WarpinatorServer::builder().user_config(user()).build();
    assert!(matches!(result, Err(WarpinatorBuildError::MissingServiceName)));
    let result = WarpinatorServer::builder().build();
    assert!(matches!(result, Err(WarpinatorBuildError::MissingServiceName)));
}

#[test]
fn server_needs_an_address() {
    let result = WarpinatorServer::builder().service_name("x").build();
    assert!(matches!(result, Err(WarpinatorBuildError::MissingAddress)));
    let config = UserConfig {
        bind_addr_v4: None,
        bind_addr_v6: Some("::1".to_string()),
        ..user()
    };
    let result = WarpinatorServer::builder().service_name("x").user_config(config).build();
    assert!(matches!(result, Err(WarpinatorBuildError::MissingAddress)));
}

#[test]
fn built_server_holds_what_was_set() {
    let config = ProtocolConfig {
        features: ProtocolFeatures { bits: 0 },
        reconnect_interval: 1,
        ping_interval: 2,
        ping_timeout: 3,
        connect_timeout: 4,
    };
    let server = WarpinatorServer::builder()
        .service_name("HOST-1")
        .protocol_config(config)
        .user_config(user())
        .build()
        .unwrap();
    assert_eq!(server.service_name, "HOST-1");
    assert_eq!(server.protocol_config, config);
    assert_eq!(server.user_config.hostname, "host");
    assert!(server.remotes.remotes().is_empty());
}

#[test]
fn order_of_setting_does_not_matter() {
    let config = ProtocolConfig::default();
    let first = WarpinatorServer::builder()
        .service_name("x")
        .protocol_config(config)
        .user_config(user());
    let second = WarpinatorServer::builder()
        .user_config(user())
        .service_name("x")
        .protocol_config(config);
    assert_eq!(format!("{:?}", first), format!("{:?}", second));
}

#[test]
fn what_is_set_last_counts() {
    let server = WarpinatorServer::builder()
        .service_name("x")
        .service_name("y")
        .user_config(UserConfig::default())
        .user_config(user())
        .build()
        .unwrap();
    assert_eq!(server.service_name, "y");
    assert_eq!(server.user_config.port, 5000);
}

#[test]
fn workers_of_a_server_present_it() {
    let mut server = server();
    let worker = server.remotes.add_remote(warpinator_lib::types::remote::Remote::new(
        "a".to_string(),
        "10.0.0.2".to_string(),
        1,
        2,
        "n".to_string(),
        "h".to_string(),
    ));
    let call = worker.receive_certificate(&server.remotes).unwrap();
    assert_eq!(call.request.ip, "192.168.0.7");
    assert_eq!(call.request.hostname, "host");
    assert_eq!(worker.wait_for_duplex(true).unwrap().id, "HOST-1");
}

#[test]
fn errors_of_a_server_have_words() {
    assert_eq!(WarpinatorBuildError::MissingServiceName.message(), "Service name is required");
    assert_eq!(
        WarpinatorBuildError::MissingAddress.message(),
        "One IP address (IPv4 or IPv6) is required"
    );
    assert_eq!(
        WarpinatorServeError::MissingAddress.message(),
        "One IP address (IPv4 or IPv6) is required"
    );
    assert_eq!(
        WarpinatorServeError::RegistrationServerTerminated.message(),
        "Registration server task terminated"
    );
    assert_eq!(
        WarpinatorServeError::WarpServerTerminated.message(),
        "Warp server task terminated"
    );
}

#[test]
fn listening_addresses_go_by_the_ports() {
    let mut server = server();
    let registration = server.registration_address().unwrap();
    assert_eq!(registration.ip, "192.168.0.7");
    assert_eq!(registration.port, 5001);
    let warp = server.warp_address().unwrap();
    assert_eq!(warp.ip, "192.168.0.7");
    assert_eq!(warp.port, 5000);
    server.user_config.bind_addr_v4 = None;
    assert!(server.registration_address().is_none());
    assert!(server.warp_address().is_none());
}

#[test]
fn registration_describes_the_machine() {
    let mut server = server();
    let registration = server.service_registration();
    assert_eq!(registration.service_id, "HOST-1");
    assert_eq!(registration.ip, "192.168.0.7");
    assert_eq!(registration.port, 5000);
    assert_eq!(registration.auth_port, 5001);
    assert_eq!(registration.hostname, "host");
    assert_eq!(registration.api_version, 2);
    assert_eq!(registration.ipv6, "");
    server.user_config.bind_addr_v4 = None;
    server.user_config.bind_addr_v6 = Some("fe80::1".to_string());
    let registration = server.service_registration();
    assert_eq!(registration.ip, "");
    assert_eq!(registration.ipv6, "fe80::1");
}

#[test]
fn announcement_names_the_service() {
    let mut server = server();
    let announcement = server.announce_mdns().unwrap();
    assert_eq!(announcement.domain, "_warpinator._tcp.local.");
    assert_eq!(announcement.service_name, "HOST-1");
    assert_eq!(announcement.host, "host.local.");
    assert_eq!(announcement.ip, "192.168.0.7");
    assert_eq!(announcement.port, 5000);
    let properties: Vec<(&str, &str)> = announcement
        .properties
        .iter()
        .map(|(name, value)| (name.as_str(), value.as_str()))
        .collect();
    assert_eq!(
        properties,
        vec![
            ("type", "real"),
            ("hostname", "host"),
            ("api-version", "2"),
            ("auth-port", "5001"),
        ]
    );
    assert_eq!(SERVICE_API_VERSION, 2);
    server.user_config.bind_addr_v4 = None;
    assert!(matches!(server.announce_mdns(), Err(WarpinatorServeError::MissingAddress)));
}

#[test]
fn winding_up_goes_by_the_cause() {
    for end in [ServeEnd::Shutdown, ServeEnd::RegistrationEnded, ServeEnd::WarpEnded] {
        assert!(wind_up(end).cancel_tasks);
    }
    let asked = wind_up(ServeEnd::Shutdown);
    assert!(asked.shutdown_mdns);
    assert_eq!(asked.result, Ok(()));
    let registration = wind_up(ServeEnd::RegistrationEnded);
    assert!(!registration.shutdown_mdns);
    assert_eq!(registration.result, Err(WarpinatorServeError::RegistrationServerTerminated));
    let warp = wind_up(ServeEnd::WarpEnded);
    assert!(!warp.shutdown_mdns);
    assert_eq!(warp.result, Err(WarpinatorServeError::WarpServerTerminated));
}

#[test]
fn withdrawing_is_tried_twice_at_most() {
    assert_eq!(after_mdns_shutdown(true, MdnsShutdown::Again), MdnsShutdownStep::Retry);
    assert_eq!(after_mdns_shutdown(false, MdnsShutdown::Again), MdnsShutdownStep::GiveUp);
    for first in [true, false] {
        assert_eq!(after_mdns_shutdown(first, MdnsShutdown::Started), MdnsShutdownStep::Drain);
        assert_eq!(after_mdns_shutdown(first, MdnsShutdown::Failed), MdnsShutdownStep::GiveUp);
    }
}

#[test]
fn features_are_bits() {
    let features = ProtocolFeatures { bits: 5 };
    assert_eq!(features.bits(), 5);
    assert!(features.contains(MESSAGE_SUPPORT));
    assert!(features.contains(5));
    assert!(features.contains(0));
    assert!(!features.contains(2));
    assert!(!features.contains(7));
}

#[test]
fn defaults_of_the_settings() {
    let user = UserConfig::default();
    assert_eq!(user.group_code, "Warpinator");
    assert_eq!(user.port, 42000);
    assert_eq!(user.reg_port, 42001);
    assert_eq!(user.bind_addr_v4, None);
    assert_eq!(user.picture, None);
    assert_eq!(format!("{:?}", user.clone()), format!("{:?}", user));
    let protocol = ProtocolConfig::default();
    assert!(protocol.features.contains(MESSAGE_SUPPORT));
    assert_eq!(protocol.reconnect_interval, 30_000);
    assert_eq!(protocol.ping_interval, 10_000);
    assert_eq!(protocol.ping_timeout, 5_000);
    assert_eq!(protocol.connect_timeout, 5_000);
}
