use ftrans::endpoint::{EndpointAddr, EndpointId, IpAddr, SocketAddr, TransportAddr};
use ftrans::hash::BlobHash;
use ftrans::net::RelayChoice;
use ftrans::resolve::{
    beacon_endpoint_addr, choose_sender, describe_beacons, endpoint_addr, failure_hints, find_tag,
    interpret_argument, read_argument, receive_mode, unique_ips, ReceiveMode, Request,
};
use ftrans::session::{code_tag, Beacon};
use ftrans::ticket::{issue_ticket, BlobFormat, Ticket};

fn id() -> EndpointId {
    EndpointId::from_bytes(*iroh::SecretKey::generate().public().as_bytes()).unwrap()
}

fn addr(ip: IpAddr, text: &str) -> SocketAddr {
    SocketAddr { ip, text: text.to_string() }
}

fn local() -> SocketAddr {
    addr(IpAddr::V4(0x0a000001), "10.0.0.1:5")
}

fn beacon(tag: &str, host: &str) -> Beacon {
    Beacon {
        tag: tag.to_string(),
        id: "no id".to_string(),
        addrs: vec!["10.0.0.1:5".to_string(), "10.0.0.2:6".to_string()],
        host: host.to_string(),
    }
}

fn ticket() -> String {
    let at = EndpointAddr { id: id(), addrs: vec![TransportAddr::Ip(local())] };
    let hash = BlobHash { bytes: [3; 32] };
    issue_ticket(&at, &hash, BlobFormat::HashSeq).unwrap()
}

#[test]
fn arguments_are_tickets_or_codes() {
    let text = ticket();
    let expected = Ticket {
        text: text.clone(),
        hash: BlobHash { bytes: [3; 32] },
        format: BlobFormat::HashSeq,
    };
    assert_eq!(read_argument(Some(&format!(" {}\n", text))), Ok(Request::Ticket(expected)));
    assert_eq!(read_argument(Some(" 4k7-m2o ")), Ok(Request::Code("4K7M20".to_string())));
    assert_eq!(read_argument(None), Ok(Request::Anything));
    assert_eq!(
        read_argument(Some(" so\"what ")),
        Err("\"so\\\"what\" is neither a ticket nor a 6-character session code".to_string())
    );
}

#[test]
fn tickets_come_before_codes() {
    let t = || Ticket {
        text: "t".to_string(),
        hash: BlobHash { bytes: [0; 32] },
        format: BlobFormat::Raw,
    };
    assert_eq!(interpret_argument("4K7M2P", Some(t())), Ok(Request::Ticket(t())));
    assert_eq!(interpret_argument("4K7M2P", None), Ok(Request::Code("4K7M2P".to_string())));
    assert!(interpret_argument("4K7M2", None).is_err());
}

#[test]
fn sender_is_found_by_its_code() {
    let found = vec![
        beacon("x", "one"),
        beacon(&code_tag("4K7M2P"), "two"),
        beacon(&code_tag("4K7M2P"), "three"),
    ];
    assert_eq!(choose_sender(Some("4K7M2P"), &found), Ok(1));
    assert_eq!(
        choose_sender(Some("4K7M2Q"), &found[..1].iter().map(|b| b.encode().beacon).collect()),
        Err("no sender announced the code 4K7M2Q; found:\n  - one at 10.0.0.1:5, 10.0.0.2:6"
            .to_string())
    );
    assert_eq!(
        choose_sender(None, &vec![beacon("x", "one"), beacon("y", "two")]),
        Err("found 2 sender(s), but no session code was given:\
             \n  - one at 10.0.0.1:5, 10.0.0.2:6\n  - two at 10.0.0.1:5, 10.0.0.2:6"
            .to_string())
    );
    let nobody = "no sender found. Make sure it is running and that both machines are on the \
                  same network; if broadcast is filtered (many campus/guest Wi-Fi networks), \
                  pass --addr <sender-ip>";
    assert_eq!(choose_sender(None, &vec![]), Err(nobody.to_string()));
    assert_eq!(choose_sender(Some("4K7M2P"), &vec![]), Err(nobody.to_string()));
}

#[test]
fn first_sender_with_the_tag_is_taken() {
    let found = vec![beacon("a", "one"), beacon("b", "two"), beacon("b", "three")];
    assert_eq!(find_tag("C", "b", &found), Ok(1));
    assert!(find_tag("C", "c", &found).is_err());
}

#[test]
fn beacons_are_described() {
    assert_eq!(describe_beacons(&vec![]), "");
    let mut b = beacon("a", "one");
    b.addrs = vec![];
    assert_eq!(describe_beacons(&vec![b]), "  - one at ");
}

#[test]
fn announced_sender_can_be_reached() {
    let id = id();
    let b = Beacon::new("4K7M2P", &id, &vec![local(), local()], "h".to_string());
    let at = beacon_endpoint_addr(&b, vec![Some(local()), None]).unwrap();
    assert_eq!(at.id, id);
    assert_eq!(at.addrs, vec![TransportAddr::Ip(local())]);
    assert_eq!(
        beacon_endpoint_addr(&beacon("a", "one"), vec![None, None]),
        Err("the sender announced an invalid endpoint id".to_string())
    );
}

#[test]
fn addresses_go_with_the_id() {
    let at = endpoint_addr(Some(id()), vec![local()]).unwrap();
    assert_eq!(at.addrs, vec![TransportAddr::Ip(local())]);
    assert_eq!(
        endpoint_addr(None, vec![]),
        Err("the sender announced an invalid endpoint id".to_string())
    );
}

#[test]
fn interfaces_are_listed_once() {
    let addrs = vec![
        addr(IpAddr::V6(1), "[::1]:1"),
        addr(IpAddr::V4(9), "0.0.0.9:1"),
        addr(IpAddr::V4(3), "0.0.0.3:1"),
        addr(IpAddr::V4(9), "0.0.0.9:2"),
        addr(IpAddr::V6(0), "[::]:1"),
    ];
    assert_eq!(
        unique_ips(&addrs),
        vec![IpAddr::V4(3), IpAddr::V4(9), IpAddr::V6(0), IpAddr::V6(1)]
    );
    assert_eq!(unique_ips(&vec![]), vec![]);
}

#[test]
fn options_choose_the_mode() {
    assert_eq!(receive_mode(true, true), ReceiveMode::RetryFailed);
    assert_eq!(receive_mode(true, false), ReceiveMode::RetryFailed);
    assert_eq!(receive_mode(false, true), ReceiveMode::Unverified);
    assert_eq!(receive_mode(false, false), ReceiveMode::Verified);
}

#[test]
fn hints_mention_the_relay_where_there_is_one() {
    let lan = failure_hints(&RelayChoice::Lan);
    assert!(lan.starts_with("\nhints:\n  - make sure the sender is still running"));
    assert!(lan.ends_with("and connect the other to it\n"));
    assert_eq!(lan.lines().count(), 7);
    assert_eq!(
        failure_hints(&RelayChoice::N0),
        format!(
            "{}  - a relay was configured but may be unreachable here; retry with --relay none \
             for a pure LAN transfer\n",
            lan
        )
    );
}
