use ftrans::endpoint::{EndpointAddr, EndpointId, IpAddr, SocketAddr, TransportAddr};
use ftrans::hash::BlobHash;
use ftrans::sender::{transfer_format, transfer_ticket};
use ftrans::ticket::{
    accept_ticket, code_request, exchange_ticket, issue_ticket, parse_ticket, BlobFormat,
    MetaHandler, Ticket,
};

fn hash() -> BlobHash {
    BlobHash { bytes: *iroh_blobs::Hash::new(b"contents").as_bytes() }
}

fn endpoint(addrs: Vec<TransportAddr>) -> EndpointAddr {
    let bytes = *iroh::SecretKey::generate().public().as_bytes();
    EndpointAddr { id: EndpointId::from_bytes(bytes).unwrap(), addrs }
}

fn ip(text: &str) -> TransportAddr {
    TransportAddr::Ip(SocketAddr { ip: IpAddr::V4(0), text: text.to_string() })
}

fn text() -> String {
    issue_ticket(&endpoint(vec![ip("10.0.0.1:41641")]), &hash(), BlobFormat::HashSeq).unwrap()
}

const REJECTED: &str =
    "the sender rejected the session code (typo, or that session already ended)";

#[test]
fn issued_tickets_can_be_read() {
    for format in [BlobFormat::Raw, BlobFormat::HashSeq] {
        let at = endpoint(vec![ip("10.0.0.1:41641"), ip("[fe80::1]:7")]);
        let text = issue_ticket(&at, &hash(), format).unwrap();
        let read = parse_ticket(&text).unwrap();
        assert_eq!(read, Ticket { text: text.clone(), hash: hash(), format });

        let real: iroh_blobs::ticket::BlobTicket = text.parse().unwrap();
        assert_eq!(*real.addr().id.as_bytes(), at.id.to_bytes());
        let mut ips: Vec<String> = real.addr().ip_addrs().map(|a| a.to_string()).collect();
        ips.sort();
        assert_eq!(ips, vec!["10.0.0.1:41641".to_string(), "[fe80::1]:7".to_string()]);
        assert_eq!(real.hash().to_hex(), hash().to_hex());
    }
}

#[test]
fn issued_tickets_name_the_first_relay() {
    let at = endpoint(vec![
        TransportAddr::Relay("https://a.example/".to_string()),
        TransportAddr::Custom("c".to_string()),
        TransportAddr::Relay("https://b.example/".to_string()),
    ]);
    let text = issue_ticket(&at, &hash(), BlobFormat::Raw).unwrap();
    let real: iroh_blobs::ticket::BlobTicket = text.parse().unwrap();
    let read = parse_ticket(&text).unwrap();
    assert_eq!(read.hash, hash());
    assert_eq!(read.format, BlobFormat::Raw);
    let relays: Vec<String> = real.addr().relay_urls().map(|u| u.to_string()).collect();
    assert_eq!(relays, vec!["https://a.example/".to_string()]);
}

#[test]
fn transfers_are_lists_of_hashes() {
    assert_eq!(transfer_format(), BlobFormat::HashSeq);
    let at = endpoint(vec![ip("10.0.0.1:41641")]);
    let text = transfer_ticket(&at, &hash()).unwrap();
    assert_eq!(issue_ticket(&at, &hash(), BlobFormat::HashSeq), Some(text.clone()));
    let read = parse_ticket(&text).unwrap();
    assert_eq!(read.hash, hash());
    assert_eq!(read.format, BlobFormat::HashSeq);
}

#[test]
fn no_ticket_for_bad_addresses() {
    assert_eq!(issue_ticket(&endpoint(vec![ip("nowhere")]), &hash(), BlobFormat::Raw), None);
    let relay = TransportAddr::Relay("not a url".to_string());
    assert_eq!(issue_ticket(&endpoint(vec![relay]), &hash(), BlobFormat::Raw), None);
}

#[test]
fn other_texts_are_no_tickets() {
    for s in ["", "4K7M2P", "blob", "blobxyz", " "] {
        assert_eq!(parse_ticket(s), None);
    }
}

#[test]
fn requests_carry_their_length() {
    assert_eq!(code_request("4K7M2P"), Ok(b"\x064K7M2P".to_vec()));
    assert_eq!(code_request(""), Ok(vec![0]));
    let long = "a".repeat(255);
    assert_eq!(code_request(&long).unwrap().len(), 256);
    assert_eq!(code_request(&"a".repeat(256)), Err("session code too long".to_string()));
    assert_eq!(code_request(&"\u{e4}".repeat(128)), Err("session code too long".to_string()));
}

#[test]
fn right_code_gets_the_ticket() {
    let handler = MetaHandler { code: "4K7M2P".to_string(), ticket: text() };
    let reply = handler.reply(&code_request("4K7M2P").unwrap());
    assert_eq!(reply, handler.ticket.as_bytes());
    let ticket = exchange_ticket(reply).unwrap();
    assert_eq!(ticket.text, handler.ticket);
    assert_eq!(ticket.hash, hash());
    assert_eq!(ticket.format, BlobFormat::HashSeq);
    // What follows the code is not looked at.
    assert!(!handler.reply(b"\x064K7M2P more").is_empty());
}

#[test]
fn wrong_code_is_refused() {
    let handler = MetaHandler { code: "4K7M2P".to_string(), ticket: text() };
    for request in [
        code_request("4K7M2Q").unwrap(),
        code_request("4k7m2p").unwrap(),
        code_request("4K7M2").unwrap(),
        code_request("").unwrap(),
        vec![],
        b"\x074K7M2P".to_vec(),
        b"\x054K7M2P".to_vec(),
    ] {
        let reply = handler.reply(&request);
        assert!(reply.is_empty());
        assert_eq!(exchange_ticket(reply), Err(REJECTED.to_string()));
    }
}

#[test]
fn replies_are_checked() {
    assert_eq!(exchange_ticket(vec![]), Err(REJECTED.to_string()));
    assert_eq!(
        exchange_ticket(vec![0xff, 0xfe]),
        Err("the sender sent an invalid ticket".to_string())
    );
    assert_eq!(
        exchange_ticket(b"hello".to_vec()),
        Err("the sender sent an unparseable ticket".to_string())
    );
    let padded = format!("  {}\n", text());
    assert!(exchange_ticket(padded.into_bytes()).is_ok());
}

#[test]
fn parsed_ticket_is_handed_on() {
    let ticket = || Ticket { text: "t".to_string(), hash: hash(), format: BlobFormat::Raw };
    assert_eq!(accept_ticket(Some(ticket())), Ok(ticket()));
    assert_eq!(
        accept_ticket(None),
        Err("the sender sent an unparseable ticket".to_string())
    );
}
