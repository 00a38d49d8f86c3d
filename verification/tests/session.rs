use ftrans::endpoint::{EndpointId, IpAddr, SocketAddr};
use ftrans::hash::BlobHash;
use ftrans::session::{
    broadcast_sources, code_from_seed, code_tag, discover, generate_code, hostname,
    listen_warning, normalize_code, probe_plan, respond_to_probes, tag_of_digest, Beacon,
    BeaconMessage, Probe, ProbeAction, CODE_LEN,
};

fn key() -> EndpointId {
    let bytes = *iroh::SecretKey::generate().public().as_bytes();
    EndpointId::from_bytes(bytes).unwrap()
}

fn addr() -> SocketAddr {
    SocketAddr { ip: IpAddr::V4(0xc0a88901), text: "192.168.137.1:41641".to_string() }
}

fn beacon(tag: &str, host: &str) -> Beacon {
    Beacon {
        tag: tag.to_string(),
        id: "id".to_string(),
        addrs: vec!["10.0.0.1:1".to_string()],
        host: host.to_string(),
    }
}

#[test]
fn generated_codes_are_valid() {
    for _ in 0..64 {
        let code = generate_code();
        assert_eq!(code.chars().count(), CODE_LEN);
        assert_eq!(normalize_code(&code).as_deref(), Some(code.as_str()));
    }
}

#[test]
fn generated_codes_differ() {
    let first = generate_code();
    assert!((0..16).any(|_| generate_code() != first));
}

#[test]
fn normalization_is_forgiving() {
    assert_eq!(normalize_code("4k7m2p").as_deref(), Some("4K7M2P"));
    assert_eq!(normalize_code("4K7-M2P").as_deref(), Some("4K7M2P"));
    assert_eq!(normalize_code(" 4k7 m2p ").as_deref(), Some("4K7M2P"));
    // lookalikes: I/L -> 1, O -> 0
    assert_eq!(normalize_code("4k7m2o").as_deref(), Some("4K7M20"));
    assert_eq!(normalize_code("4k7m2l").as_deref(), Some("4K7M21"));
    // wrong length or characters outside the alphabet
    assert_eq!(normalize_code("4K7M2"), None);
    assert_eq!(normalize_code("4K7M2PQ"), None);
    assert_eq!(normalize_code("4K7M2!"), None);
}

#[test]
fn normalization_edge_cases() {
    assert_eq!(normalize_code(""), None);
    assert_eq!(normalize_code(" - _"), None);
    assert_eq!(normalize_code("i_I-l L\u{3000}Oo").as_deref(), Some("111100"));
    assert_eq!(normalize_code("4K7M2U"), None);
    // Characters beyond ASCII are outside the alphabet, whatever their low byte is.
    assert_eq!(normalize_code("4K7M2\u{141}"), None);
    assert_eq!(normalize_code("\u{131}23456"), None);
}

#[test]
fn seed_picks_from_the_alphabet() {
    let mut seed = [7u8; 32];
    seed[0] = 0;
    seed[1] = 31;
    seed[2] = 32;
    seed[3] = 255;
    seed[4] = 10;
    seed[5] = 18;
    assert_eq!(code_from_seed(&seed), "0Z0ZAJ");
}

#[test]
fn tag_is_stable_and_short() {
    let tag = code_tag("4K7M2P");
    assert_eq!(tag, code_tag("4K7M2P"));
    assert_ne!(tag, code_tag("4K7M2Q"));
    assert_eq!(tag.len(), 16);
}

#[test]
fn tag_is_the_start_of_the_digest() {
    let digest = iroh_blobs::Hash::new(b"4K7M2P");
    assert_eq!(code_tag("4K7M2P"), digest.to_hex()[..16]);
    let mut bytes = [0xffu8; 32];
    for i in 0..8 {
        bytes[i] = i as u8;
    }
    assert_eq!(tag_of_digest(&BlobHash { bytes }), "0001020304050607");
}

#[test]
fn host_name_comes_from_the_environment() {
    let a = || Some("desktop".to_string());
    let b = || Some("laptop".to_string());
    assert_eq!(hostname(a(), b()), "desktop");
    assert_eq!(hostname(a(), None), "desktop");
    assert_eq!(hostname(None, b()), "laptop");
    assert_eq!(hostname(None, None), "unknown");
}

#[test]
fn beacon_round_trip() {
    let id = key();
    let beacon = Beacon::new("4K7M2P", &id, &vec![addr()], "desktop".to_string());
    assert_eq!(beacon.tag, code_tag("4K7M2P"));
    assert_eq!(beacon.id, id.to_text());
    assert_eq!(beacon.addrs, vec!["192.168.137.1:41641".to_string()]);
    assert_eq!(beacon.host, "desktop");

    let encoded = beacon.encode();
    assert_eq!(encoded.magic, "ftrans-v1");
    let decoded = Beacon::decode(Some(encoded)).unwrap();
    assert_eq!(decoded, beacon);
    assert!(decoded.same(&beacon));
    assert_eq!(decoded.socket_addrs(vec![Some(addr())]), vec![addr()]);
    assert_eq!(decoded.socket_addrs(vec![None]), vec![]);
    let twice = Beacon::new("4K7M2P", &id, &vec![addr(), addr()], "desktop".to_string());
    assert_eq!(twice.socket_addrs(vec![Some(addr()), Some(addr())]), vec![addr(), addr()]);

    // Foreign datagrams are ignored rather than misinterpreted.
    assert!(Beacon::decode(None).is_none());
    let foreign = BeaconMessage { magic: "something-else".to_string(), beacon };
    assert!(Beacon::decode(Some(foreign)).is_none());
}

#[test]
fn only_parsed_addresses_are_kept() {
    let mut b = beacon("t", "h");
    b.addrs = vec!["x".to_string(), "192.168.137.1:41641".to_string(), "y".to_string()];
    assert_eq!(b.socket_addrs(vec![None, Some(addr()), None]), vec![addr()]);
}

#[test]
fn each_sender_is_found_once() {
    let message = |b: &Beacon| Some(b.encode());
    let one = beacon("a", "one");
    let two = beacon("b", "two");
    let mut three = beacon("a", "one");
    three.addrs.push("10.0.0.2:1".to_string());
    let foreign = Some(BeaconMessage { magic: "x".to_string(), beacon: beacon("c", "c") });
    let found = discover(vec![
        message(&one),
        None,
        message(&two),
        foreign,
        message(&one),
        message(&three),
        message(&two),
    ]);
    assert_eq!(found, vec![one, two, three]);
    assert_eq!(discover(vec![]), vec![]);
}

#[test]
fn beacons_differ_in_any_field() {
    let b = beacon("a", "h");
    for other in [
        beacon("b", "h"),
        beacon("a", "i"),
        Beacon { id: "other".to_string(), ..beacon("a", "h") },
        Beacon { addrs: vec![], ..beacon("a", "h") },
        Beacon { addrs: vec!["10.0.0.1:2".to_string()], ..beacon("a", "h") },
    ] {
        assert!(!b.same(&other));
    }
}

#[test]
fn only_probes_are_answered() {
    assert_eq!(respond_to_probes(Some(b"ftrans-discover-v1")), ProbeAction::Reply);
    assert_eq!(respond_to_probes(Some(b"ftrans-discover-v2")), ProbeAction::Ignore);
    assert_eq!(respond_to_probes(Some(b"")), ProbeAction::Ignore);
    assert_eq!(respond_to_probes(None), ProbeAction::Pause(200));
}

#[test]
fn probes_go_out_from_ipv4_interfaces() {
    let v4 = IpAddr::V4(1);
    let other = IpAddr::V4(2);
    let v6 = IpAddr::V6(3);
    assert_eq!(broadcast_sources(&vec![v6, v4, other]), vec![v4, other]);
    assert_eq!(
        probe_plan(&vec![v4, v6, other], &vec![v6, v4]),
        vec![
            Probe::Broadcast(v4),
            Probe::Broadcast(other),
            Probe::Direct(v6),
            Probe::Direct(v4),
        ]
    );
}

#[test]
fn closed_port_is_reported() {
    assert_eq!(
        listen_warning("in use"),
        "warning: cannot listen for discovery probes on udp/53535 (in use); \
         the receiver will need --addr <this-machine-ip>"
    );
}
