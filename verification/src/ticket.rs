//! Tickets, and how a receiver that knows the session code gets one.
//!
//! The receiver sends the code, preceded by its length in one byte; the sender
//! answers with the ticket where the code is the one it announced, and with
//! nothing otherwise.
use vstd::prelude::*;

use vstd::utf8::{decode_utf8, encode_utf8, valid_utf8};

use crate::endpoint::{EndpointAddr, SocketAddr, TransportAddr};
use crate::hash::BlobHash;
use crate::net::parsed_relay_url;
use crate::text;
use crate::text::{texts, trimmed, white_space};

verus! {

/// How long to allow for each step of the exchange, in milliseconds.
pub const META_TIMEOUT_MS: u64 = 15000;

/// The most bytes that a reply may have.
pub const REPLY_LIMIT: usize = 65536;

/// What a ticket gives access to.
#[derive(Debug, Clone, Copy, PartialEq, Eq, Structural)]
pub enum BlobFormat {
    /// A single file.
    Raw,
    /// A list of hashes, and what they are the hashes of.
    HashSeq,
}

/// A ticket: everything a receiver needs to fetch a transfer.
#[derive(Debug, PartialEq, Eq)]
pub struct Ticket {
    /// The whole ticket in its string form, the sender's addresses among it.
    pub text: String,
    /// The hash of what to fetch.
    pub hash: BlobHash,
    pub format: BlobFormat,
}

/// A ticket's contents.
pub struct TicketView {
    pub text: Seq<char>,
    pub hash: Seq<u8>,
    pub format: BlobFormat,
}

impl View for Ticket {
    type V = TicketView;

    open spec fn view(&self) -> TicketView {
        TicketView { text: self.text@, hash: self.hash@, format: self.format }
    }
}

/// What a text parses to as a ticket: the ticket's string form, its hash, and
/// whether that is the hash of a list of hashes.
pub uninterp spec fn parsed_ticket(text: Seq<char>) -> Option<(Seq<char>, Seq<u8>, bool)>;

/// The string form of the ticket for an endpoint with the given key, relay and
/// direct addresses, and for the given hash, which may be that of a list of hashes;
/// nothing where the key is no key or an address cannot be parsed.
pub uninterp spec fn written_ticket(
    key: Seq<u8>,
    relay: Option<Seq<char>>,
    ips: Seq<Seq<char>>,
    hash: Seq<u8>,
    hash_seq: bool,
) -> Option<Seq<char>>;

/// The format that the hash of a list of hashes has, or that of a single file.
pub open spec fn format_of(hash_seq: bool) -> BlobFormat {
    if hash_seq {
        BlobFormat::HashSeq
    } else {
        BlobFormat::Raw
    }
}

/// The ticket that a text is, if it is one.
pub open spec fn ticket_of(text: Seq<char>) -> Option<TicketView> {
    match parsed_ticket(text) {
        Some((text, hash, hash_seq)) => Some(
            TicketView { text, hash, format: format_of(hash_seq) },
        ),
        None => None,
    }
}

/// `iroh_blobs::ticket::BlobTicket::from_str`, read with `to_string`, `hash` and
/// `format`. Claimed: what comes back depends on `text` alone.
#[verifier::external_body]
fn read_ticket(text: &str) -> (r: Option<Ticket>)
    ensures
        r is Some <==> parsed_ticket(text@) is Some,
        r matches Some(t) ==> parsed_ticket(text@) == Some(
            (t.text@, t.hash@, t.format is HashSeq),
        ),
{
    let t = text.parse::<iroh_blobs::ticket::BlobTicket>().ok()?;
    let format = match t.format() {
        iroh_blobs::BlobFormat::Raw => BlobFormat::Raw,
        iroh_blobs::BlobFormat::HashSeq => BlobFormat::HashSeq,
    };
    Some(Ticket { text: t.to_string(), hash: BlobHash { bytes: *t.hash().as_bytes() }, format })
}

/// `iroh_blobs::ticket::BlobTicket::new`, written with `to_string`. Claimed: the
/// text depends on the arguments alone; it holds no white space and is not empty; it
/// is a ticket for the given hash and format, with a relay where the string form of
/// the relay's URL can be parsed again. That it always can is left unsaid.
#[verifier::external_body]
fn write_ticket(
    key: &[u8; 32],
    relay: Option<&str>,
    ips: &Vec<String>,
    hash: &BlobHash,
    hash_seq: bool,
) -> (r: Option<String>)
    ensures
        r is Some <==> written_ticket(
            key@,
            optional_text(relay),
            texts(ips@),
            hash@,
            hash_seq,
        ) is Some,
        r matches Some(t) ==> {
            &&& written_ticket(key@, optional_text(relay), texts(ips@), hash@, hash_seq) == Some(t@)
            &&& is_word(t@)
            &&& reads_back(optional_text(relay)) ==> {
                &&& parsed_ticket(t@) matches Some(parsed)
                &&& parsed.1 == hash@
                &&& parsed.2 == hash_seq
            }
        },
{
    let id = iroh::EndpointId::from_bytes(key).ok()?;
    let relay = relay.map(|url| url.parse().map(iroh::TransportAddr::Relay)).transpose().ok()?;
    let ips = ips.iter().map(|ip| ip.parse().map(iroh::TransportAddr::Ip));
    let ips = ips.collect::<Result<Vec<_>, _>>().ok()?;
    let addr = iroh::EndpointAddr::from_parts(id, relay.into_iter().chain(ips));
    let format = match hash_seq {
        true => iroh_blobs::BlobFormat::HashSeq,
        false => iroh_blobs::BlobFormat::Raw,
    };
    let hash = iroh_blobs::Hash::from_bytes(hash.bytes);
    Some(iroh_blobs::ticket::BlobTicket::new(addr, hash, format).to_string())
}

/// A text that may be absent.
pub open spec fn optional_text(t: Option<&str>) -> Option<Seq<char>> {
    match t {
        Some(t) => Some(t@),
        None => None,
    }
}

/// Whether there is no relay, or one whose URL has a string form that can be parsed
/// again.
pub open spec fn reads_back(relay: Option<Seq<char>>) -> bool {
    match relay {
        None => true,
        Some(url) => parsed_relay_url(url) matches Ok(form) && parsed_relay_url(form) is Ok,
    }
}

/// A text without white space that is not empty.
pub open spec fn is_word(t: Seq<char>) -> bool {
    &&& t.len() > 0
    &&& forall|i: int| 0 <= i < t.len() ==> !white_space(#[trigger] t[i])
}

/// The relay in a transport address, if it is one.
pub open spec fn relay_addr(a: TransportAddr) -> Option<Seq<char>> {
    match a {
        TransportAddr::Relay(url) => Some(url@),
        _ => None,
    }
}

/// The string form of the direct address in a transport address, if it is one.
pub open spec fn direct_text(a: TransportAddr) -> Option<Seq<char>> {
    match a {
        TransportAddr::Ip(addr) => Some(addr.text@),
        _ => None,
    }
}

/// The first relay among transport addresses.
pub open spec fn first_relay(addrs: Seq<TransportAddr>) -> Option<Seq<char>> {
    let relays = addrs.filter_map(|a: TransportAddr| relay_addr(a));
    if relays.len() == 0 {
        None
    } else {
        Some(relays[0])
    }
}

/// The string forms of the direct addresses among transport addresses.
pub open spec fn direct_texts(addrs: Seq<TransportAddr>) -> Seq<Seq<char>> {
    addrs.filter_map(|a: TransportAddr| direct_text(a))
}

/// The ticket for a transfer.
pub open spec fn issued(
    key: Seq<u8>,
    addrs: Seq<TransportAddr>,
    hash: Seq<u8>,
    format: BlobFormat,
) -> Option<Seq<char>> {
    written_ticket(key, first_relay(addrs), direct_texts(addrs), hash, format is HashSeq)
}

/// The ticket for a transfer, in its string form: the endpoint, its first relay and
/// its direct addresses, and what to fetch there. `None` where an address cannot be
/// parsed.
pub fn issue_ticket(addr: &EndpointAddr, hash: &BlobHash, format: BlobFormat) -> (r: Option<String>)
    ensures
        r is Some <==> issued(addr.id@, addr.addrs@, hash@, format) is Some,
        r matches Some(t) ==> {
            &&& issued(addr.id@, addr.addrs@, hash@, format) == Some(t@)
            &&& is_word(t@)
            &&& reads_back(first_relay(addr.addrs@)) ==> {
                &&& ticket_of(t@) matches Some(ticket)
                &&& ticket.hash == hash@
                &&& ticket.format == format
            }
        },
{
    let addrs = &addr.addrs;
    let ghost relay_of = |a: TransportAddr| relay_addr(a);
    let ghost text_of = |a: TransportAddr| direct_text(a);
    let mut relay: Option<&str> = None;
    let mut ips: Vec<String> = Vec::new();
    let mut i: usize = 0;
    proof {
        reveal(Seq::filter_map);
        assert(texts(ips@) =~= direct_texts(addrs@.take(0)));
    }
    while i < addrs.len()
        invariant
            i <= addrs.len(),
            relay_of == (|a: TransportAddr| relay_addr(a)),
            text_of == (|a: TransportAddr| direct_text(a)),
            optional_text(relay) == first_relay(addrs@.take(i as int)),
            texts(ips@) == direct_texts(addrs@.take(i as int)),
        decreases addrs.len() - i,
    {
        let ghost so_far = addrs@.take(i as int);
        let ghost next = addrs@.take(i + 1);
        proof {
            reveal(Seq::filter_map);
            assert(next.drop_last() =~= so_far);
            assert(next.last() == addrs@[i as int]);
        }
        match &addrs[i] {
            TransportAddr::Relay(url) => {
                proof {
                    assert(next.filter_map(relay_of) =~= so_far.filter_map(relay_of).push(url@));
                    assert(next.filter_map(text_of) =~= so_far.filter_map(text_of));
                }
                match relay {
                    Some(_) => {},
                    None => {
                        relay = Some(url.as_str());
                    },
                }
            },
            TransportAddr::Ip(a) => {
                let ghost before = ips@;
                ips.push(a.text.clone());
                proof {
                    assert(texts(ips@) =~= texts(before).push(a.text@));
                    assert(next.filter_map(relay_of) =~= so_far.filter_map(relay_of));
                    assert(next.filter_map(text_of) =~= so_far.filter_map(text_of).push(a.text@));
                }
            },
            TransportAddr::Custom(_) => {
                proof {
                    assert(next.filter_map(relay_of) =~= so_far.filter_map(relay_of));
                    assert(next.filter_map(text_of) =~= so_far.filter_map(text_of));
                }
            },
        }
        i = i + 1;
    }
    assert(addrs@.take(i as int) =~= addrs@);
    let hash_seq = match format {
        BlobFormat::HashSeq => true,
        BlobFormat::Raw => false,
    };
    write_ticket(&addr.id.to_bytes(), relay, &ips, hash, hash_seq)
}

/// The ticket that a text is, if it is one.
pub fn parse_ticket(text: &str) -> (r: Option<Ticket>)
    ensures
        r is Some <==> ticket_of(text@) is Some,
        r matches Some(t) ==> ticket_of(text@) == Some(t@),
{
    read_ticket(text)
}

/// A code with its length in front.
pub open spec fn framed(code: Seq<char>) -> Seq<u8> {
    seq![encode_utf8(code).len() as u8] + encode_utf8(code)
}

/// Whether a code's length fits in one byte.
pub open spec fn can_frame(code: Seq<char>) -> bool {
    encode_utf8(code).len() <= 255
}

/// What the receiver sends to ask for the ticket.
pub fn code_request(code: &str) -> (r: Result<Vec<u8>, String>)
    ensures
        r is Ok <==> can_frame(code@),
        r matches Ok(request) ==> request@ == framed(code@),
        r matches Err(e) ==> e@ == "session code too long"@,
{
    let bytes = code.as_bytes();
    let len: usize = bytes.len();
    if len > 255 {
        return Err("session code too long".to_owned());
    }
    let mut request: Vec<u8> = Vec::new();
    request.push(len as u8);
    request.extend_from_slice(bytes);
    assert(request@ =~= framed(code@));
    Ok(request)
}

/// The code that a request asks for, if the request is whole.
pub open spec fn requested(request: Seq<u8>) -> Option<Seq<u8>> {
    if request.len() > request[0] && request.len() > 0 {
        Some(request.subrange(1, 1 + request[0]))
    } else {
        None
    }
}

/// What the sender answers: the ticket where the request asks for its code, and
/// nothing otherwise.
pub open spec fn replied(code: Seq<char>, ticket: Seq<char>, request: Seq<u8>) -> Seq<u8> {
    if requested(request) == Some(encode_utf8(code)) {
        encode_utf8(ticket)
    } else {
        Seq::empty()
    }
}

/// Hands out the ticket to receivers that know the session code.
#[derive(Debug)]
pub struct MetaHandler {
    pub code: String,
    pub ticket: String,
}

impl MetaHandler {
    /// The answer to a request.
    pub fn reply(&self, request: &[u8]) -> (r: Vec<u8>)
        ensures
            r@ == replied(self.code@, self.ticket@, request@),
    {
        let len: usize = request.len();
        let mut r: Vec<u8> = Vec::new();
        if len == 0 || len <= request[0] as usize {
            return r;
        }
        let end: usize = 1 + request[0] as usize;
        let asked = vstd::slice::slice_subrange(request, 1, end);
        if text::same_bytes(asked, self.code.as_str().as_bytes()) {
            r.extend_from_slice(self.ticket.as_str().as_bytes());
        }
        assert(r@ =~= replied(self.code@, self.ticket@, request@));
        r
    }
}

/// What the sender's answer says to the receiver.
pub open spec fn received(reply: Seq<u8>) -> Result<TicketView, Seq<char>> {
    if reply.len() == 0 {
        Err("the sender rejected the session code (typo, or that session already ended)"@)
    } else if !valid_utf8(reply) {
        Err("the sender sent an invalid ticket"@)
    } else {
        accepted(ticket_of(trimmed(decode_utf8(reply))))
    }
}

/// What the sender's ticket says to the receiver, once parsed.
pub open spec fn accepted(parsed: Option<TicketView>) -> Result<TicketView, Seq<char>> {
    match parsed {
        Some(t) => Ok(t),
        None => Err("the sender sent an unparseable ticket"@),
    }
}

/// An outcome, with the ticket and the message by their contents.
pub open spec fn ticket_outcome(r: Result<Ticket, String>) -> Result<TicketView, Seq<char>> {
    match r {
        Ok(t) => Ok(t@),
        Err(e) => Err(e@),
    }
}

/// A ticket that may be absent, by its contents.
pub open spec fn optional_ticket(t: Option<Ticket>) -> Option<TicketView> {
    match t {
        Some(t) => Some(t@),
        None => None,
    }
}

/// The ticket that the sender's text parsed to, or the error where it did not.
pub fn accept_ticket(parsed: Option<Ticket>) -> (r: Result<Ticket, String>)
    ensures
        ticket_outcome(r) == accepted(optional_ticket(parsed)),
{
    match parsed {
        Some(t) => Ok(t),
        None => Err("the sender sent an unparseable ticket".to_owned()),
    }
}

/// The ticket in the sender's answer, or why there is none.
pub fn exchange_ticket(reply: Vec<u8>) -> (r: Result<Ticket, String>)
    ensures
        ticket_outcome(r) == received(reply@),
{
    if reply.len() == 0 {
        return Err(
            "the sender rejected the session code (typo, or that session already ended)".to_owned(),
        );
    }
    match text::utf8_text(reply) {
        Some(t) => accept_ticket(parse_ticket(text::trim(t.as_str()).as_str())),
        None => Err("the sender sent an invalid ticket".to_owned()),
    }
}

proof fn framed_is_requested(code: Seq<char>)
    requires
        can_frame(code),
    ensures
        requested(framed(code)) == Some(encode_utf8(code)),
{
    let bytes = encode_utf8(code);
    assert(framed(code)[0] as int == bytes.len());
    assert(framed(code).subrange(1, 1 + framed(code)[0]) =~= bytes);
}

proof fn same_encoding_same_text(a: Seq<char>, b: Seq<char>)
    requires
        encode_utf8(a) == encode_utf8(b),
    ensures
        a == b,
{
    vstd::utf8::encode_utf8_decode_utf8(a);
    vstd::utf8::encode_utf8_decode_utf8(b);
}

/// A receiver that knows the code gets the sender's ticket.
pub proof fn right_code_gets_the_ticket(code: Seq<char>, ticket: Seq<char>)
    requires
        can_frame(code),
        is_word(ticket),
    ensures
        received(replied(code, ticket, framed(code))) == accepted(ticket_of(ticket)),
{
    framed_is_requested(code);
    vstd::utf8::encode_utf8_decode_utf8(ticket);
    vstd::utf8::encode_utf8_valid_utf8(ticket);
    if encode_utf8(ticket).len() == 0 {
        assert(encode_utf8(ticket) =~= encode_utf8(Seq::<char>::empty()));
        same_encoding_same_text(ticket, Seq::<char>::empty());
    }
    assert(trimmed(ticket) == ticket);
}

/// A receiver that knows the code gets to fetch just the transfer that the sender's
/// ticket is for.
pub proof fn right_code_leads_to_the_transfer(
    code: Seq<char>,
    ticket: Seq<char>,
    hash: Seq<u8>,
    format: BlobFormat,
)
    requires
        can_frame(code),
        is_word(ticket),
        ticket_of(ticket) is Some,
        ticket_of(ticket)->0.hash == hash,
        ticket_of(ticket)->0.format == format,
    ensures
        received(replied(code, ticket, framed(code))) is Ok,
        received(replied(code, ticket, framed(code)))->Ok_0.hash == hash,
        received(replied(code, ticket, framed(code)))->Ok_0.format == format,
{
    right_code_gets_the_ticket(code, ticket);
}

/// The ticket is answered only to a request for the very code that was announced.
pub proof fn ticket_needs_the_code(code: Seq<char>, ticket: Seq<char>, request: Seq<u8>)
    requires
        replied(code, ticket, request).len() > 0,
    ensures
        requested(request) == Some(encode_utf8(code)),
{
}

/// Any other code is refused, and the receiver is told so.
pub proof fn wrong_code_is_refused(code: Seq<char>, ticket: Seq<char>, other: Seq<char>)
    requires
        can_frame(other),
        other != code,
    ensures
        received(replied(code, ticket, framed(other))) == Err::<TicketView, Seq<char>>(
            "the sender rejected the session code (typo, or that session already ended)"@,
        ),
{
    framed_is_requested(other);
    if encode_utf8(other) == encode_utf8(code) {
        same_encoding_same_text(other, code);
    }
}

/// A request is the length of the code's UTF-8 form in one byte, and then that form.
pub proof fn requests_hold_length_and_code(code: Seq<char>)
    ensures
        can_frame(code) <==> encode_utf8(code).len() < 256,
        framed(code).len() == encode_utf8(code).len() + 1,
        can_frame(code) ==> framed(code)[0] as int == encode_utf8(code).len(),
        framed(code).skip(1) == encode_utf8(code),
{
    assert(framed(code).skip(1) =~= encode_utf8(code));
}

/// The ticket is handed out if and only if the request names a length, and as many bytes
/// as it says come after, and they are the code; what comes after them has no meaning.
/// Otherwise the answer is empty.
pub proof fn only_the_code_opens(
    code: Seq<char>,
    ticket: Seq<char>,
    request: Seq<u8>,
    asked: Seq<u8>,
    rest: Seq<u8>,
)
    requires
        asked.len() < 256,
    ensures
        replied(code, ticket, Seq::empty()) == Seq::<u8>::empty(),
        replied(code, ticket, seq![asked.len() as u8] + asked + rest) == if asked == encode_utf8(
            code,
        ) {
            encode_utf8(ticket)
        } else {
            Seq::<u8>::empty()
        },
        request.len() > 0 && request.len() <= request[0] ==> replied(code, ticket, request)
            == Seq::<u8>::empty(),
{
    let whole = seq![asked.len() as u8] + asked + rest;
    assert(whole[0] as int == asked.len());
    assert(whole.subrange(1, 1 + whole[0]) =~= asked);
}

/// An answer is a ticket if and only if it is UTF-8 text that parses as one, apart from
/// white space around it; each other kind of answer has its own message.
pub proof fn answers_are_tickets_or_errors(reply: Seq<u8>)
    ensures
        reply.len() == 0 ==> received(reply) == Err::<TicketView, Seq<char>>(
            "the sender rejected the session code (typo, or that session already ended)"@,
        ),
        reply.len() > 0 && !valid_utf8(reply) ==> received(reply) == Err::<TicketView, Seq<char>>(
            "the sender sent an invalid ticket"@,
        ),
        reply.len() > 0 && valid_utf8(reply) ==> match parsed_ticket(trimmed(decode_utf8(reply))) {
            Some(parsed) => {
                &&& received(reply) is Ok
                &&& received(reply)->Ok_0.text == parsed.0
                &&& received(reply)->Ok_0.hash == parsed.1
                &&& received(reply)->Ok_0.format == if parsed.2 {
                    BlobFormat::HashSeq
                } else {
                    BlobFormat::Raw
                }
            },
            None => received(reply) == Err::<TicketView, Seq<char>>(
                "the sender sent an unparseable ticket"@,
            ),
        },
{
}

/// What parses as a ticket is one, with the text, the hash and the format that it has;
/// what does not parse is none.
pub proof fn tickets_are_what_parses(text: Seq<char>, ticket: TicketView)
    ensures
        ticket_of(text) is Some <==> parsed_ticket(text) is Some,
        ticket_of(text) == Some(ticket) ==> parsed_ticket(text) == Some(
            (ticket.text, ticket.hash, ticket.format is HashSeq),
        ),
        accepted(Some(ticket)) == Ok::<TicketView, Seq<char>>(ticket),
        accepted(None) == Err::<TicketView, Seq<char>>("the sender sent an unparseable ticket"@),
{
}

/// A ticket names the first relay and every direct address, in order: a relay after the
/// first changes nothing, and neither does another kind of transport.
pub proof fn tickets_name_every_direct_address(
    addrs: Seq<TransportAddr>,
    addr: SocketAddr,
    url: String,
    other: String,
)
    ensures
        first_relay(Seq::empty()) is None,
        direct_texts(Seq::empty()) == Seq::<Seq<char>>::empty(),
        first_relay(addrs.push(TransportAddr::Relay(url))) == if first_relay(addrs) is Some {
            first_relay(addrs)
        } else {
            Some(url@)
        },
        direct_texts(addrs.push(TransportAddr::Relay(url))) == direct_texts(addrs),
        first_relay(addrs.push(TransportAddr::Ip(addr))) == first_relay(addrs),
        direct_texts(addrs.push(TransportAddr::Ip(addr))) == direct_texts(addrs).push(addr.text@),
        first_relay(addrs.push(TransportAddr::Custom(other))) == first_relay(addrs),
        direct_texts(addrs.push(TransportAddr::Custom(other))) == direct_texts(addrs),
{
    reveal(Seq::filter_map);
    let relay_of = |a: TransportAddr| relay_addr(a);
    let text_of = |a: TransportAddr| direct_text(a);
    let relays = addrs.filter_map(relay_of);
    let with_relay = addrs.push(TransportAddr::Relay(url));
    let with_ip = addrs.push(TransportAddr::Ip(addr));
    let with_other = addrs.push(TransportAddr::Custom(other));
    assert(direct_texts(Seq::empty()) =~= Seq::<Seq<char>>::empty());
    assert(with_relay.drop_last() =~= addrs);
    assert(with_ip.drop_last() =~= addrs);
    assert(with_other.drop_last() =~= addrs);
    assert(with_relay.filter_map(relay_of) =~= relays.push(url@));
    assert(with_relay.filter_map(text_of) =~= addrs.filter_map(text_of));
    assert(with_ip.filter_map(relay_of) =~= relays);
    assert(with_ip.filter_map(text_of) =~= addrs.filter_map(text_of).push(addr.text@));
    assert(with_other.filter_map(relay_of) =~= relays);
    assert(with_other.filter_map(text_of) =~= addrs.filter_map(text_of));
}

/// A ticket is written for just the endpoint, the addresses, the hash and the format.
pub proof fn tickets_are_written_for_the_transfer(
    key: Seq<u8>,
    addrs: Seq<TransportAddr>,
    hash: Seq<u8>,
)
    ensures
        issued(key, addrs, hash, BlobFormat::HashSeq) == written_ticket(
            key,
            first_relay(addrs),
            direct_texts(addrs),
            hash,
            true,
        ),
        issued(key, addrs, hash, BlobFormat::Raw) == written_ticket(
            key,
            first_relay(addrs),
            direct_texts(addrs),
            hash,
            false,
        ),
{
}

/// Tickets and outcomes stand in the laws for what they hold.
pub proof fn ticket_views_hold_it_all(ticket: Ticket, error: String, t: &str)
    ensures
        ticket@.text == ticket.text@,
        ticket@.hash == ticket.hash.bytes@,
        ticket@.format == ticket.format,
        ticket_outcome(Ok(ticket)) == Ok::<TicketView, Seq<char>>(ticket@),
        ticket_outcome(Err(error)) == Err::<TicketView, Seq<char>>(error@),
        optional_ticket(Some(ticket)) == Some(ticket@),
        optional_ticket(None) is None,
        optional_text(Some(t)) == Some(t@),
        optional_text(None) is None,
{
}

/// A relay reads back if it is none, or if its URL parses and the form it then has
/// parses too.
pub proof fn relays_read_back_when_they_parse_twice(url: Seq<char>)
    ensures
        reads_back(None),
        reads_back(Some(url)) <==> parsed_relay_url(url) is Ok && parsed_relay_url(
            parsed_relay_url(url)->Ok_0,
        ) is Ok,
{
}

/// A word has characters, and none of them is white space.
pub proof fn words_have_no_white_space(t: Seq<char>)
    ensures
        is_word(t) <==> t.len() > 0 && forall|i: int|
            0 <= i < t.len() ==> !white_space(#[trigger] t[i]),
{
}

} // verus!
