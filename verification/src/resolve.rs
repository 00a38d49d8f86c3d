//! From what the receiver typed to the sender and its ticket.
//!
//! A full ticket is used as it is. A short session code instead means: find the
//! sender on the local network by its announcement, then ask it for the ticket.
//! Without an argument only what was found can be listed, since the code is what
//! authenticates the request.
use vstd::prelude::*;

use crate::endpoint::{addr_ips, addr_view, ip_less, is_public_key, named_public_key};
use crate::endpoint::{EndpointAddr, EndpointId, IpAddr, SocketAddr, TransportAddr};
use crate::net::RelayChoice;
use crate::session;
use crate::session::{announced, beacons_view, normalized, parsed_addrs, tag};
use crate::session::{Beacon, BeaconView, CODE_LEN};
use crate::text;
use crate::text::{debug_form, decimal, hex, joined, same, texts, trimmed};
use crate::ticket;
use crate::ticket::{optional_text, optional_ticket, ticket_of, Ticket, TicketView};

verus! {

/// How long to look for the sender on the local network, in seconds.
pub const DISCOVER_TIMEOUT_SECS: u64 = 3;

/// What the receiver asks for.
#[derive(Debug, PartialEq, Eq)]
pub enum Request {
    /// The transfer of this ticket.
    Ticket(Ticket),
    /// The session with this code.
    Code(String),
    /// Nothing in particular.
    Anything,
}

/// What a [`Request`] says.
pub enum RequestView {
    Ticket(TicketView),
    Code(Seq<char>),
    Anything,
}

impl View for Request {
    type V = RequestView;

    open spec fn view(&self) -> RequestView {
        match self {
            Request::Ticket(t) => RequestView::Ticket(t@),
            Request::Code(c) => RequestView::Code(c@),
            Request::Anything => RequestView::Anything,
        }
    }
}

/// What an argument means, given what it parses to as a ticket.
pub open spec fn request_of(raw: Seq<char>, parsed: Option<TicketView>) -> Result<
    RequestView,
    Seq<char>,
> {
    match parsed {
        Some(t) => Ok(RequestView::Ticket(t)),
        None => match normalized(raw) {
            Some(code) => Ok(RequestView::Code(code)),
            None => Err(
                debug_form(trimmed(raw)) + " is neither a ticket nor a "@ + decimal(CODE_LEN as nat)
                    + "-character session code"@,
            ),
        },
    }
}

/// What an argument, or its absence, means.
pub open spec fn requested(arg: Option<Seq<char>>) -> Result<RequestView, Seq<char>> {
    match arg {
        Some(raw) => request_of(raw, ticket_of(trimmed(raw))),
        None => Ok(RequestView::Anything),
    }
}

/// An outcome, with the request and the message by their contents.
pub open spec fn request_outcome(r: Result<Request, String>) -> Result<RequestView, Seq<char>> {
    match r {
        Ok(q) => Ok(q@),
        Err(e) => Err(e@),
    }
}

/// What an argument means, given what it parses to as a ticket.
pub fn interpret_argument(raw: &str, parsed: Option<Ticket>) -> (r: Result<Request, String>)
    ensures
        request_outcome(r) == request_of(raw@, optional_ticket(parsed)),
{
    match parsed {
        Some(t) => Ok(Request::Ticket(t)),
        None => match session::normalize_code(raw) {
            Some(code) => Ok(Request::Code(code)),
            None => {
                let t = text::trim(raw);
                let mut e = text::debug_text(t.as_str());
                e.append(" is neither a ticket nor a ");
                e.append(text::decimal_of(CODE_LEN as u64).as_str());
                e.append("-character session code");
                Err(e)
            },
        },
    }
}

/// What the receiver's argument means: a ticket, or a session code.
pub fn read_argument(arg: Option<&str>) -> (r: Result<Request, String>)
    ensures
        request_outcome(r) == requested(optional_text(arg)),
{
    match arg {
        Some(raw) => {
            let t = text::trim(raw);
            interpret_argument(raw, ticket::parse_ticket(t.as_str()))
        },
        None => Ok(Request::Anything),
    }
}

/// The line for a sender that was found.
pub open spec fn description(b: BeaconView) -> Seq<char> {
    "  - "@ + b.host + " at "@ + joined(b.addrs, ", "@)
}

/// The senders that were found, a line each.
pub open spec fn descriptions(found: Seq<BeaconView>) -> Seq<char> {
    joined(found.map_values(|b: BeaconView| description(b)), "\n"@)
}

/// The senders that were found, a line each.
pub fn describe_beacons(found: &Vec<Beacon>) -> (r: String)
    ensures
        r@ == descriptions(beacons_view(found@)),
{
    let mut lines: Vec<String> = Vec::new();
    let mut i: usize = 0;
    while i < found.len()
        invariant
            i <= found.len(),
            lines@.len() == i,
            forall|k: int| 0 <= k < i ==> (#[trigger] lines@[k])@ == description(found@[k]@),
        decreases found.len() - i,
    {
        let mut line: String = "  - ".to_owned();
        line.append(found[i].host.as_str());
        line.append(" at ");
        line.append(text::join(&found[i].addrs, ", ").as_str());
        lines.push(line);
        i = i + 1;
    }
    assert(texts(lines@) =~= beacons_view(found@).map_values(|b: BeaconView| description(b)));
    text::join(&lines, "\n")
}

/// The message where no sender answered.
pub open spec fn no_sender_text() -> Seq<char> {
    "no sender found. Make sure it is running and that both machines are on the same network; if broadcast is filtered (many campus/guest Wi-Fi networks), pass --addr <sender-ip>"@
}

/// Whether the beacon at `i` is the first with the given tag.
pub open spec fn is_first_with_tag(found: Seq<BeaconView>, tag: Seq<char>, i: int) -> bool {
    &&& 0 <= i < found.len()
    &&& found[i].tag == tag
    &&& forall|k: int| 0 <= k < i ==> (#[trigger] found[k]).tag != tag
}

/// Whether some beacon has the given tag.
pub open spec fn announces(found: Seq<BeaconView>, tag: Seq<char>) -> bool {
    exists|i: int| 0 <= i < found.len() && (#[trigger] found[i]).tag == tag
}

/// Which of the senders that were found announced a code with the given tag: the
/// first that did.
pub fn find_tag(code: &str, tag: &str, found: &Vec<Beacon>) -> (r: Result<usize, String>)
    ensures
        r is Ok <==> announces(beacons_view(found@), tag@),
        r matches Ok(i) ==> is_first_with_tag(beacons_view(found@), tag@, i as int),
        r matches Err(e) ==> e@ == "no sender announced the code "@ + code@ + "; found:\n"@
            + descriptions(beacons_view(found@)),
{
    let ghost view = beacons_view(found@);
    let mut i: usize = 0;
    while i < found.len()
        invariant
            i <= found.len(),
            view == beacons_view(found@),
            forall|k: int| 0 <= k < i ==> (#[trigger] view[k]).tag != tag@,
        decreases found.len() - i,
    {
        if same(found[i].tag.as_str(), tag) {
            assert(view[i as int].tag == tag@);
            return Ok(i);
        }
        assert(view[i as int].tag != tag@);
        i = i + 1;
    }
    let mut e: String = "no sender announced the code ".to_owned();
    e.append(code);
    e.append("; found:\n");
    e.append(describe_beacons(found).as_str());
    Err(e)
}

/// Which of the senders that were found to ask for the ticket: the first that
/// announced the given code. It is an error if none was found, or if there is no
/// code, or if nobody announced it.
pub fn choose_sender(code: Option<&str>, found: &Vec<Beacon>) -> (r: Result<usize, String>)
    ensures
        r is Ok <==> code is Some && announces(beacons_view(found@), tag(code->0@)),
        r matches Ok(i) ==> is_first_with_tag(beacons_view(found@), tag(code->0@), i as int),
        r matches Err(e) ==> e@ == (if found@.len() == 0 {
            no_sender_text()
        } else {
            match code {
                None => "found "@ + decimal(found@.len())
                    + " sender(s), but no session code was given:\n"@ + descriptions(
                    beacons_view(found@),
                ),
                Some(code) => "no sender announced the code "@ + code@ + "; found:\n"@
                    + descriptions(beacons_view(found@)),
            }
        }),
{
    if found.len() == 0 {
        return Err(
            "no sender found. Make sure it is running and that both machines are on the same network; if broadcast is filtered (many campus/guest Wi-Fi networks), pass --addr <sender-ip>".to_owned(),
        );
    }
    match code {
        None => {
            let mut e: String = "found ".to_owned();
            e.append(text::decimal_of(found.len() as u64).as_str());
            e.append(" sender(s), but no session code was given:\n");
            e.append(describe_beacons(found).as_str());
            Err(e)
        },
        Some(code) => {
            let t = session::code_tag(code);
            find_tag(code, t.as_str(), found)
        },
    }
}

/// A receiver that types the code in any spelling finds a sender that announced it.
pub proof fn typed_code_finds_its_sender(
    typed: Seq<char>,
    code: Seq<char>,
    id: Seq<u8>,
    addrs: Seq<Seq<char>>,
    host: Seq<char>,
    found: Seq<BeaconView>,
)
    requires
        normalized(typed) == Some(code),
        found.contains(announced(code, id, addrs, host)),
    ensures
        announces(found, tag(normalized(typed)->0)),
{
    let i = choose|i: int| 0 <= i < found.len() && found[i] == announced(code, id, addrs, host);
    assert(found[i].tag == tag(code));
}

/// The address of an endpoint that was announced, given what the announced id and
/// addresses parse to.
pub fn endpoint_addr(id: Option<EndpointId>, addrs: Vec<SocketAddr>) -> (r: Result<
    EndpointAddr,
    String,
>)
    ensures
        r is Ok <==> id is Some,
        r matches Ok(addr) ==> {
            &&& addr.id@ == id->0@
            &&& addr.addrs@ == addrs@.map_values(|a: SocketAddr| TransportAddr::Ip(a))
        },
        r matches Err(e) ==> e@ == "the sender announced an invalid endpoint id"@,
{
    match id {
        None => Err("the sender announced an invalid endpoint id".to_owned()),
        Some(id) => {
            let ghost all = addrs@;
            let mut list: Vec<TransportAddr> = Vec::new();
            for a in it: addrs
                invariant
                    it.seq() == all,
                    list@ == all.take(it.index() as int).map_values(
                        |a: SocketAddr| TransportAddr::Ip(a),
                    ),
            {
                list.push(TransportAddr::Ip(a));
                assert(list@ =~= all.take(it.index() + 1).map_values(
                    |a: SocketAddr| TransportAddr::Ip(a),
                ));
            }
            assert(all.take(all.len() as int) =~= all);
            Ok(EndpointAddr { id, addrs: list })
        },
    }
}

/// The direct addresses of an endpoint, each as its IP address and its string form.
pub open spec fn direct_only(
    addrs: Seq<TransportAddr>,
    expected: Seq<(IpAddr, Seq<char>)>,
) -> bool {
    &&& addrs.len() == expected.len()
    &&& forall|i: int|
        0 <= i < addrs.len() ==> (#[trigger] addrs[i] matches TransportAddr::Ip(a) && addr_view(a)
            == expected[i])
}

/// Where a sender is to be reached, from its announcement; `parsed[i]` is what its
/// i-th address parses to.
pub fn beacon_endpoint_addr(beacon: &Beacon, parsed: Vec<Option<SocketAddr>>) -> (r: Result<
    EndpointAddr,
    String,
>)
    requires
        parsed@.len() == beacon.addrs@.len(),
    ensures
        r is Ok <==> named_public_key(beacon.id@) is Some,
        r matches Ok(addr) ==> {
            &&& named_public_key(beacon.id@) == Some(addr.id@)
            &&& direct_only(addr.addrs@, parsed_addrs(parsed@))
        },
        r matches Err(e) ==> e@ == "the sender announced an invalid endpoint id"@,
        forall|key: Seq<u8>|
            key.len() == 32 && is_public_key(key) && beacon.id@ == #[trigger] hex(key) ==> {
                &&& r is Ok
                &&& r->Ok_0.id@ == key
            },
{
    let addrs = beacon.socket_addrs(parsed);
    let ghost view = crate::endpoint::addrs_view(addrs@);
    let ghost plain = addrs@;
    let r = endpoint_addr(EndpointId::parse(beacon.id.as_str()), addrs);
    proof {
        if r is Ok {
            let got = r->Ok_0.addrs@;
            assert forall|i: int| 0 <= i < got.len() implies (#[trigger] got[i] matches
                TransportAddr::Ip(a) && addr_view(a) == view[i]) by {
                assert(got[i] == TransportAddr::Ip(plain[i]));
            }
        }
    }
    r
}

/// Whether a list is in ascending order, without repetition.
pub open spec fn ips_ascending(ips: Seq<IpAddr>) -> bool {
    forall|i: int, j: int| 0 <= i < j < ips.len() ==> ip_less(#[trigger] ips[i], #[trigger] ips[j])
}

/// The IP addresses of a list of socket addresses, each once, in ascending order.
pub fn unique_ips(addrs: &Vec<SocketAddr>) -> (r: Vec<IpAddr>)
    ensures
        ips_ascending(r@),
        r@.to_set() == addr_ips(addrs@).to_set(),
{
    let ghost all = addr_ips(addrs@);
    let mut r: Vec<IpAddr> = Vec::new();
    let mut i: usize = 0;
    assert(r@.to_set() =~= all.take(0).to_set());
    while i < addrs.len()
        invariant
            i <= addrs.len(),
            all == addr_ips(addrs@),
            ips_ascending(r@),
            r@.to_set() == all.take(i as int).to_set(),
        decreases addrs.len() - i,
    {
        let ghost before = r@;
        r = insert_ip(r, addrs[i].ip);
        proof {
            assert(all.take(i + 1) =~= all.take(i as int).push(all[i as int]));
            push_ip(all.take(i as int), all[i as int]);
        }
        i = i + 1;
    }
    assert(all.take(i as int) =~= all);
    r
}

proof fn push_ip(a: Seq<IpAddr>, x: IpAddr)
    ensures
        a.push(x).to_set() == a.to_set().insert(x),
{
    broadcast use vstd::seq_lib::group_seq_properties;

    assert(a.push(x).to_set() =~= a.to_set().insert(x));
}

fn insert_ip(list: Vec<IpAddr>, ip: IpAddr) -> (r: Vec<IpAddr>)
    requires
        ips_ascending(list@),
    ensures
        ips_ascending(r@),
        r@.to_set() == list@.to_set().insert(ip),
{
    let ghost before = list@;
    let mut at: usize = 0;
    while at < list.len() && list[at].is_less(&ip)
        invariant
            at <= list.len(),
            forall|k: int| 0 <= k < at ==> ip_less(#[trigger] list@[k], ip),
        decreases list.len() - at,
    {
        at = at + 1;
    }
    if at < list.len() && list[at] == ip {
        proof {
            assert(list@.contains(ip));
            assert(list@.to_set() =~= list@.to_set().insert(ip));
        }
        return list;
    }
    let mut r = list;
    r.insert(at, ip);
    proof {
        let after = r@;
        assert(after =~= before.insert(at as int, ip));
        assert forall|i: int, j: int| 0 <= i < j < after.len() implies ip_less(
            #[trigger] after[i],
            #[trigger] after[j],
        ) by {
            if at < before.len() {
                assert(ip_less(ip, before[at as int]));
            }
            if i < at && j > at {
                assert(ip_less(before[i], before[j - 1]));
            } else if i == at && j > at + 1 {
                assert(ip_less(before[at as int], before[j - 1]));
            } else if i > at {
                assert(ip_less(before[i - 1], before[j - 1]));
            } else if j < at {
                assert(ip_less(before[i], before[j]));
            }
        }
        assert forall|x: IpAddr| after.to_set().contains(x) <==> before.to_set().insert(
            ip,
        ).contains(x) by {
            if after.contains(x) {
                let k = choose|k: int| 0 <= k < after.len() && after[k] == x;
                if k < at {
                    assert(before[k] == x);
                } else if k > at {
                    assert(before[k - 1] == x);
                }
            }
            if before.contains(x) {
                let k = choose|k: int| 0 <= k < before.len() && before[k] == x;
                if k < at {
                    assert(after[k] == x);
                } else {
                    assert(after[k + 1] == x);
                }
            }
            assert(after[at as int] == ip);
        }
        assert(after.to_set() =~= before.to_set().insert(ip));
    }
    r
}

/// How to receive.
#[derive(Debug, Clone, Copy, PartialEq, Eq, Structural)]
pub enum ReceiveMode {
    /// Transfer only what failed before.
    RetryFailed,
    /// Transfer everything, without checking it.
    Unverified,
    /// Transfer everything, check it, and retry what fails.
    Verified,
}

/// How to receive, from the two options that say so; retrying comes first.
pub fn receive_mode(retry_failed: bool, skip_checks: bool) -> (r: ReceiveMode)
    ensures
        r == (if retry_failed {
            ReceiveMode::RetryFailed
        } else if skip_checks {
            ReceiveMode::Unverified
        } else {
            ReceiveMode::Verified
        }),
{
    if retry_failed {
        ReceiveMode::RetryFailed
    } else if skip_checks {
        ReceiveMode::Unverified
    } else {
        ReceiveMode::Verified
    }
}

/// Hints that always apply.
///
/// On a campus network the usual causes are, in order of likelihood: a firewall
/// dropping inbound UDP, the two machines sitting on different subnets, or Wi-Fi
/// client isolation blocking peer-to-peer traffic entirely. The last one cannot be
/// fixed from userspace, only by pairing the machines over a hotspot or cable.
pub const HINTS: &'static str = "\nhints:\n  - make sure the sender is still running and both machines are on the same subnet\n  - if the code was not found, retry with --addr <sender-ip>, which skips broadcast discovery\n  - on Windows, allow inbound UDP for ftrans.exe (Firewall -> the network profile must not be \"Public\" if the rule is restricted there)\n  - campus Wi-Fi often enables client isolation, which blocks all machine-to-machine traffic: check with a quick ping between the two machines\n  - if isolation is on, join the machines directly instead: start a hotspot on one of them (Windows: Mobile hotspot; Linux: nmcli device wifi hotspot) and connect the other to it\n";

/// The hint where a relay was configured.
pub const RELAY_HINT: &'static str = "  - a relay was configured but may be unreachable here; retry with --relay none for a pure LAN transfer\n";

/// Actionable hints printed when a receive fails.
pub fn failure_hints(relay: &RelayChoice) -> (r: String)
    ensures
        r@ == (if relay@ is Lan {
            HINTS@
        } else {
            HINTS@ + RELAY_HINT@
        }),
{
    let mut hints: String = HINTS.to_owned();
    if relay.uses_relay() {
        hints.append(RELAY_HINT);
    }
    hints
}

/// An argument that parses as a ticket is that ticket, whatever else it might be; one
/// that does not is the session code that it spells, and otherwise an error that names
/// it. Without an argument nothing in particular is asked for.
pub proof fn arguments_are_tickets_or_codes(raw: Seq<char>, ticket: TicketView)
    ensures
        requested(None) == Ok::<RequestView, Seq<char>>(RequestView::Anything),
        requested(Some(raw)) == request_of(raw, ticket_of(trimmed(raw))),
        request_of(raw, Some(ticket)) == Ok::<RequestView, Seq<char>>(RequestView::Ticket(ticket)),
        normalized(raw) is Some ==> request_of(raw, None) == Ok::<RequestView, Seq<char>>(
            RequestView::Code(normalized(raw)->0),
        ),
        normalized(raw) is None ==> request_of(raw, None) == Err::<RequestView, Seq<char>>(
            debug_form(trimmed(raw)) + " is neither a ticket nor a "@ + decimal(6)
                + "-character session code"@,
        ),
{
}

/// The senders that were found are described a line each, by host and addresses.
pub proof fn every_sender_is_described(found: Seq<BeaconView>, b: BeaconView)
    ensures
        descriptions(Seq::empty()) == Seq::<char>::empty(),
        descriptions(seq![b]) == "  - "@ + b.host + " at "@ + joined(b.addrs, ", "@),
        found.len() > 0 ==> descriptions(found.push(b)) == descriptions(found) + "\n"@ + ("  - "@
            + b.host + " at "@ + joined(b.addrs, ", "@)),
{
    let line = |b: BeaconView| description(b);
    let lines = found.map_values(line);
    assert(Seq::<BeaconView>::empty().map_values(line) =~= Seq::<Seq<char>>::empty());
    assert(seq![b].map_values(line) =~= seq![description(b)]);
    assert(found.push(b).map_values(line) =~= lines + seq![description(b)]);
    if found.len() > 0 {
        text::joined_parts_stand_in_order(lines, seq![description(b)], description(b), "\n"@);
    }
}

/// A sender is chosen by its tag alone, and the first of those that have it is taken.
pub proof fn the_first_with_the_tag_is_taken(found: Seq<BeaconView>, tag: Seq<char>, i: int)
    ensures
        announces(found, tag) <==> exists|k: int| is_first_with_tag(found, tag, k),
        is_first_with_tag(found, tag, i) ==> 0 <= i < found.len() && found[i].tag == tag,
        is_first_with_tag(found, tag, i) ==> forall|k: int|
            0 <= k < i ==> (#[trigger] found[k]).tag != tag,
        0 <= i < found.len() && found[i].tag == tag ==> announces(found, tag),
        announces(found, tag) ==> found.len() > 0,
{
    if announces(found, tag) {
        let k = choose|k: int| 0 <= k < found.len() && (#[trigger] found[k]).tag == tag;
        first_exists(found, tag, k);
    }
}

proof fn first_exists(found: Seq<BeaconView>, tag: Seq<char>, k: int)
    requires
        0 <= k < found.len(),
        found[k].tag == tag,
    ensures
        exists|j: int| is_first_with_tag(found, tag, j),
    decreases k,
{
    if !is_first_with_tag(found, tag, k) {
        let j = choose|j: int| 0 <= j < k && (#[trigger] found[j]).tag == tag;
        first_exists(found, tag, j);
    }
}

/// In an ascending list IPv4 addresses come first, smaller ones first, and then IPv6
/// addresses likewise; no address comes twice.
pub proof fn ascending_addresses(ips: Seq<IpAddr>)
    ensures
        ips_ascending(ips) ==> ips.no_duplicates(),
        ips_ascending(ips) <==> forall|i: int, j: int|
            0 <= i < j < ips.len() ==> match (#[trigger] ips[i], #[trigger] ips[j]) {
                (IpAddr::V4(x), IpAddr::V4(y)) => x < y,
                (IpAddr::V6(x), IpAddr::V6(y)) => x < y,
                (IpAddr::V4(_), IpAddr::V6(_)) => true,
                (IpAddr::V6(_), IpAddr::V4(_)) => false,
            },
{
    if ips_ascending(ips) {
        assert forall|i: int, j: int| 0 <= i < ips.len() && 0 <= j < ips.len() && i
            != j implies ips[i] != ips[j] by {
            if i < j {
                assert(ip_less(ips[i], ips[j]));
            } else {
                assert(ip_less(ips[j], ips[i]));
            }
        }
        assert forall|i: int, j: int| 0 <= i < j < ips.len() implies match (
            #[trigger] ips[i],
            #[trigger] ips[j],
        ) {
            (IpAddr::V4(x), IpAddr::V4(y)) => x < y,
            (IpAddr::V6(x), IpAddr::V6(y)) => x < y,
            (IpAddr::V4(_), IpAddr::V6(_)) => true,
            (IpAddr::V6(_), IpAddr::V4(_)) => false,
        } by {
            assert(ip_less(ips[i], ips[j]));
        }
    }
}

/// The ways to reach an announced sender are its direct addresses, one for one.
pub proof fn senders_are_reached_directly(
    addrs: Seq<TransportAddr>,
    expected: Seq<(IpAddr, Seq<char>)>,
)
    ensures
        direct_only(addrs, expected) <==> addrs.len() == expected.len() && forall|i: int|
            0 <= i < addrs.len() ==> (#[trigger] addrs[i] matches TransportAddr::Ip(a) && (
                a.ip,
                a.text@,
            ) == expected[i]),
{
}

/// Requests and outcomes stand in the laws for what they hold.
pub proof fn request_views_hold_it_all(ticket: Ticket, code: String, request: Request)
    ensures
        Request::Ticket(ticket)@ == RequestView::Ticket(ticket@),
        Request::Code(code)@ == RequestView::Code(code@),
        Request::Anything@ == RequestView::Anything,
        request_outcome(Ok(request)) == Ok::<RequestView, Seq<char>>(request@),
        request_outcome(Err(code)) == Err::<RequestView, Seq<char>>(code@),
        no_sender_text()
            == "no sender found. Make sure it is running and that both machines are on the same network; if broadcast is filtered (many campus/guest Wi-Fi networks), pass --addr <sender-ip>"@,
{
}

} // verus!
