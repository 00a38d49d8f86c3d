use ftrans::endpoint::{EndpointAddr, EndpointId, IpAddr, SocketAddr, TransportAddr};
use ftrans::net::{
    choose_url, format_addrs, ip_addrs, relay_warning, EndpointConfig, RelayChoice, RelayServers,
};

fn addr(ip: u32, text: &str) -> SocketAddr {
    SocketAddr { ip: IpAddr::V4(ip), text: text.to_string() }
}

#[test]
fn parses_relay_choices() {
    assert_eq!("none".parse::<RelayChoice>().unwrap(), RelayChoice::Lan);
    assert_eq!("LAN".parse::<RelayChoice>().unwrap(), RelayChoice::Lan);
    assert_eq!("n0".parse::<RelayChoice>().unwrap(), RelayChoice::N0);
    assert!(matches!(
        "https://relay.example.com".parse::<RelayChoice>().unwrap(),
        RelayChoice::Url(_)
    ));
    assert!("not a url".parse::<RelayChoice>().is_err());
}

#[test]
fn keywords_stand_for_modes() {
    for s in ["none", "lan", "off", "local", " OFF\n", "Local"] {
        assert_eq!(RelayChoice::parse(s), Ok(RelayChoice::Lan));
    }
    for s in ["n0", "default", "public", "\tN0 ", "PUBLIC"] {
        assert_eq!(RelayChoice::parse(s), Ok(RelayChoice::N0));
    }
}

#[test]
fn relay_urls_are_read_by_the_url_parser() {
    let url = |s: &str| s.parse::<iroh::RelayUrl>().unwrap().to_string();
    let s = "http://10.0.0.5:3340";
    assert_ne!(url(s), s);
    assert_eq!(RelayChoice::parse(s), Ok(RelayChoice::Url(url(s))));
    assert_eq!(RelayChoice::parse("  http://10.0.0.5:3340 "), Ok(RelayChoice::Url(url(s))));
    let cause = "not a url".parse::<iroh::RelayUrl>().unwrap_err().to_string();
    assert_eq!(
        RelayChoice::parse(" not a url"),
        Err(format!("invalid relay URL \" not a url\": {}", cause))
    );
}

#[test]
fn bad_relay_url_is_reported() {
    assert_eq!(
        choose_url("a\"b", Err("why".to_string())),
        Err("invalid relay URL \"a\\\"b\": why".to_string())
    );
    assert_eq!(
        choose_url("x", Ok("y".to_string())),
        Ok(RelayChoice::Url("y".to_string()))
    );
}

#[test]
fn lan_is_the_default_and_uses_no_relay() {
    assert_eq!(RelayChoice::default(), RelayChoice::Lan);
    assert!(!RelayChoice::Lan.uses_relay());
    assert!(RelayChoice::N0.uses_relay());
}

#[test]
fn own_relay_is_used() {
    assert!(RelayChoice::Url("http://r/".to_string()).uses_relay());
}

#[test]
fn labels_describe_the_mode() {
    assert_eq!(RelayChoice::Lan.label(), "LAN only (no relay, no external server)");
    assert_eq!(RelayChoice::N0.label(), "n0 public relay (needs internet)");
    assert_eq!(RelayChoice::Url("http://r/".to_string()).label(), "relay http://r/");
}

#[test]
fn lan_contacts_nobody_else() {
    assert_eq!(
        RelayChoice::Lan.endpoint_config(),
        EndpointConfig {
            relay: RelayServers::Disabled,
            public_lookup: false,
            internet_probes: false,
            port_mapping: false,
            local_lookup: true,
        }
    );
    assert_eq!(
        RelayChoice::N0.endpoint_config(),
        EndpointConfig {
            relay: RelayServers::Public,
            public_lookup: true,
            internet_probes: true,
            port_mapping: true,
            local_lookup: true,
        }
    );
    assert_eq!(
        RelayChoice::Url("http://r/".to_string()).endpoint_config(),
        EndpointConfig {
            relay: RelayServers::Only("http://r/".to_string()),
            public_lookup: false,
            internet_probes: true,
            port_mapping: true,
            local_lookup: true,
        }
    );
}

#[test]
fn missing_relay_is_reported() {
    assert_eq!(relay_warning(&RelayChoice::Lan, false), None);
    assert_eq!(relay_warning(&RelayChoice::N0, true), None);
    assert_eq!(
        relay_warning(&RelayChoice::N0, false).as_deref(),
        Some(
            "warning: no relay connection after 10s; only peers reachable directly on this \
             network can connect"
        )
    );
}

#[test]
fn direct_addresses_are_picked_out() {
    let bytes = *iroh::SecretKey::generate().public().as_bytes();
    let at = EndpointAddr {
        id: EndpointId::from_bytes(bytes).unwrap(),
        addrs: vec![
            TransportAddr::Relay("http://r/".to_string()),
            TransportAddr::Ip(addr(1, "0.0.0.1:5")),
            TransportAddr::Custom("c".to_string()),
            TransportAddr::Ip(addr(2, "0.0.0.2:6")),
        ],
    };
    assert_eq!(ip_addrs(&at), vec![addr(1, "0.0.0.1:5"), addr(2, "0.0.0.2:6")]);
}

#[test]
fn addresses_are_listed() {
    assert_eq!(format_addrs(&vec![]), "<none>");
    assert_eq!(format_addrs(&vec![addr(1, "0.0.0.1:5")]), "0.0.0.1:5");
    assert_eq!(
        format_addrs(&vec![addr(1, "0.0.0.1:5"), addr(2, "0.0.0.2:6")]),
        "0.0.0.1:5, 0.0.0.2:6"
    );
}

#[test]
fn endpoint_ids_round_trip() {
    let public = iroh::SecretKey::generate().public();
    let id = EndpointId::from_bytes(*public.as_bytes()).unwrap();
    assert_eq!(id.to_text(), public.to_string());
    assert_eq!(id.to_bytes(), *public.as_bytes());
    let again = EndpointId::parse(&id.to_text()).unwrap();
    assert_eq!(again, id);
    assert!(EndpointId::parse("not an id").is_none());
    assert!(EndpointId::parse("").is_none());
    let mut no_point = [0xffu8; 32];
    no_point[0] = 2;
    assert_eq!(
        EndpointId::from_bytes(no_point).is_some(),
        iroh::EndpointId::from_bytes(&no_point).is_ok()
    );
}

#[test]
fn some_bytes_are_no_key() {
    let bad = (0u8..=255).filter(|b| EndpointId::from_bytes([*b; 32]).is_none()).count();
    assert!(bad > 0);
    for b in 0u8..=255 {
        assert_eq!(
            EndpointId::from_bytes([b; 32]).is_some(),
            iroh::EndpointId::from_bytes(&[b; 32]).is_ok()
        );
    }
}
