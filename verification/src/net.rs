//! Peer transport setup.
//!
//! All decisions on what the network is used for stand here, so that the "no
//! external server" guarantee is easy to audit: in the default [`RelayChoice::Lan`]
//! mode the endpoint runs with relays disabled, no public lookup service, no
//! internet probes and no gateway port mapping. It only ever sends UDP to peers
//! that are reachable directly, i.e. on the same LAN.
use vstd::prelude::*;

use crate::endpoint::{addr_texts, addrs_view, direct_addr, direct_addrs, EndpointAddr};
use crate::endpoint::{SocketAddr, TransportAddr};
use crate::text;
use crate::text::{lowered, same, trimmed};

verus! {

/// How long to wait for a home relay when one is configured, in seconds. Never wait
/// indefinitely: restricted networks make relays unreachable.
pub const RELAY_WAIT_SECS: u64 = 10;

/// How this endpoint reaches its peer.
#[derive(Debug, Clone, PartialEq, Eq)]
pub enum RelayChoice {
    /// LAN only: no relay, no DNS lookup service, no internet probes.
    ///
    /// This is the default. Both machines must be able to reach each other
    /// directly (same LAN/Wi-Fi, or a hotspot between them).
    Lan,
    /// n0's public relays plus n0's DNS/pkarr lookup service.
    ///
    /// Needs working DNS and outbound TCP/UDP to `*.iroh.link`; fails behind
    /// networks that block those (many campus networks do).
    N0,
    /// A self-hosted relay, e.g. your own relay server on the LAN, by its URL.
    Url(String),
}

/// A relay choice's contents.
pub enum RelayView {
    Lan,
    N0,
    Url(Seq<char>),
}

impl View for RelayChoice {
    type V = RelayView;

    open spec fn view(&self) -> RelayView {
        match self {
            RelayChoice::Lan => RelayView::Lan,
            RelayChoice::N0 => RelayView::N0,
            RelayChoice::Url(url) => RelayView::Url(url@),
        }
    }
}

/// What a text parses to as the URL of a relay: the URL in its string form, or the
/// message of the error.
pub uninterp spec fn parsed_relay_url(text: Seq<char>) -> Result<Seq<char>, Seq<char>>;

/// A result of texts, by their contents.
pub open spec fn text_outcome(r: Result<String, String>) -> Result<Seq<char>, Seq<char>> {
    match r {
        Ok(t) => Ok(t@),
        Err(e) => Err(e@),
    }
}

/// `iroh::RelayUrl::from_str`, with `to_string` on the URL or on the error.
/// Claimed: the result depends on `text` alone; what a URL is is left unsaid.
#[verifier::external_body]
fn read_relay_url(text: &str) -> (r: Result<String, String>)
    ensures
        text_outcome(r) == parsed_relay_url(text@),
{
    text.parse::<iroh::RelayUrl>().map(|url| url.to_string()).map_err(|e| e.to_string())
}

/// The choice that a keyword stands for, in any case and with white space around it.
pub open spec fn keyword(s: Seq<char>) -> Option<RelayView> {
    let word = lowered(trimmed(s));
    if word == "none"@ || word == "lan"@ || word == "off"@ || word == "local"@ {
        Some(RelayView::Lan)
    } else if word == "n0"@ || word == "default"@ || word == "public"@ {
        Some(RelayView::N0)
    } else {
        None
    }
}

/// The choice that a text which is no keyword stands for, given what it parses to
/// as a URL.
pub open spec fn url_choice(s: Seq<char>, parsed: Result<Seq<char>, Seq<char>>) -> Result<
    RelayView,
    Seq<char>,
> {
    match parsed {
        Ok(url) => Ok(RelayView::Url(url)),
        Err(e) => Err("invalid relay URL "@ + text::debug_form(s) + ": "@ + e),
    }
}

/// The choice that a text stands for.
pub open spec fn relay_choice(s: Seq<char>) -> Result<RelayView, Seq<char>> {
    match keyword(s) {
        Some(choice) => Ok(choice),
        None => url_choice(s, parsed_relay_url(trimmed(s))),
    }
}

/// An outcome, with the choice and the message by their contents.
pub open spec fn choice_outcome(r: Result<RelayChoice, String>) -> Result<RelayView, Seq<char>> {
    match r {
        Ok(c) => Ok(c@),
        Err(e) => Err(e@),
    }
}

fn lower_text(s: &str) -> (r: String)
    ensures
        r@ == lowered(s@),
{
    let chars = text::chars_of(s);
    let mut r = String::new();
    let mut i: usize = 0;
    while i < chars.len()
        invariant
            i <= chars.len(),
            chars@ == s@,
            r@ == lowered(s@.take(i as int)),
        decreases chars.len() - i,
    {
        r.push(text::to_lower(chars[i]));
        i = i + 1;
        assert(r@ =~= lowered(s@.take(i as int)));
    }
    assert(s@.take(i as int) =~= s@);
    r
}

/// The choice that a keyword stands for, in any case and with white space around it.
pub fn parse_keyword(s: &str) -> (r: Option<RelayChoice>)
    ensures
        r is Some <==> keyword(s@) is Some,
        r matches Some(c) ==> keyword(s@) == Some(c@),
{
    let t = text::trim(s);
    let word = lower_text(t.as_str());
    let w = word.as_str();
    if same(w, "none") || same(w, "lan") || same(w, "off") || same(w, "local") {
        Some(RelayChoice::Lan)
    } else if same(w, "n0") || same(w, "default") || same(w, "public") {
        Some(RelayChoice::N0)
    } else {
        None
    }
}

/// The choice that a text which is no keyword stands for, given what it parses to
/// as a URL.
pub fn choose_url(s: &str, parsed: Result<String, String>) -> (r: Result<RelayChoice, String>)
    ensures
        choice_outcome(r) == url_choice(s@, text_outcome(parsed)),
{
    match parsed {
        Ok(url) => Ok(RelayChoice::Url(url)),
        Err(e) => {
            let mut message: String = "invalid relay URL ".to_owned();
            let quoted = text::debug_text(s);
            message.append(quoted.as_str());
            message.append(": ");
            message.append(e.as_str());
            Err(message)
        },
    }
}

impl RelayChoice {
    /// The choice that a text stands for: a keyword, or the URL of a relay.
    pub fn parse(s: &str) -> (r: Result<RelayChoice, String>)
        ensures
            choice_outcome(r) == relay_choice(s@),
    {
        match parse_keyword(s) {
            Some(choice) => Ok(choice),
            None => {
                let t = text::trim(s);
                choose_url(s, read_relay_url(t.as_str()))
            },
        }
    }

    /// Whether this mode contacts a relay server at all.
    pub fn uses_relay(&self) -> (r: bool)
        ensures
            r == !(self@ is Lan),
    {
        match self {
            RelayChoice::Lan => false,
            _ => true,
        }
    }

    /// Short human-readable description, for the startup banner.
    pub fn label(&self) -> (r: String)
        ensures
            r@ == (match self@ {
                RelayView::Lan => "LAN only (no relay, no external server)"@,
                RelayView::N0 => "n0 public relay (needs internet)"@,
                RelayView::Url(url) => "relay "@ + url,
            }),
    {
        match self {
            RelayChoice::Lan => "LAN only (no relay, no external server)".to_owned(),
            RelayChoice::N0 => "n0 public relay (needs internet)".to_owned(),
            RelayChoice::Url(url) => {
                let mut r: String = "relay ".to_owned();
                r.append(url.as_str());
                r
            },
        }
    }
}

impl Default for RelayChoice {
    fn default() -> (r: RelayChoice)
        ensures
            r@ is Lan,
    {
        RelayChoice::Lan
    }
}

impl std::str::FromStr for RelayChoice {
    type Err = String;

    fn from_str(s: &str) -> (r: Result<RelayChoice, String>)
        ensures
            choice_outcome(r) == relay_choice(s@),
    {
        RelayChoice::parse(s)
    }
}

/// The relay servers that an endpoint uses.
#[derive(Debug, PartialEq, Eq)]
pub enum RelayServers {
    /// None at all.
    Disabled,
    /// The public ones.
    Public,
    /// The one with this URL.
    Only(String),
}

/// What an endpoint is set up to use.
#[derive(Debug, PartialEq, Eq)]
pub struct EndpointConfig {
    pub relay: RelayServers,
    /// Publish to, and look up in, a public DNS/pkarr service.
    pub public_lookup: bool,
    /// Probe the internet for this machine's public address.
    pub internet_probes: bool,
    /// Ask the gateway to map a port.
    pub port_mapping: bool,
    /// Look for peers on the local network by multicast. This is only a
    /// convenience: the ticket already carries the sender's direct addresses.
    pub local_lookup: bool,
}

/// The relay servers of a choice.
pub open spec fn has_servers(servers: RelayServers, choice: RelayView) -> bool {
    match choice {
        RelayView::Lan => servers is Disabled,
        RelayView::N0 => servers is Public,
        RelayView::Url(url) => servers matches RelayServers::Only(u) && u@ == url,
    }
}

/// Whether an endpoint set up like this contacts anything beyond its peers.
pub open spec fn contacts_others(config: EndpointConfig) -> bool {
    ||| !(config.relay is Disabled)
    ||| config.public_lookup
    ||| config.internet_probes
    ||| config.port_mapping
}

impl RelayChoice {
    /// What the endpoint for this choice is set up to use.
    pub fn endpoint_config(&self) -> (r: EndpointConfig)
        ensures
            has_servers(r.relay, self@),
            r.public_lookup == (self@ is N0),
            r.internet_probes == !(self@ is Lan),
            r.port_mapping == !(self@ is Lan),
            r.local_lookup,
            contacts_others(r) <==> !(self@ is Lan),
    {
        match self {
            RelayChoice::Lan => EndpointConfig {
                relay: RelayServers::Disabled,
                public_lookup: false,
                internet_probes: false,
                port_mapping: false,
                local_lookup: true,
            },
            RelayChoice::N0 => EndpointConfig {
                relay: RelayServers::Public,
                public_lookup: true,
                internet_probes: true,
                port_mapping: true,
                local_lookup: true,
            },
            RelayChoice::Url(url) => EndpointConfig {
                relay: RelayServers::Only(url.clone()),
                public_lookup: false,
                internet_probes: true,
                port_mapping: true,
                local_lookup: true,
            },
        }
    }
}

/// The warning after waiting for a relay in vain; none where no relay is used.
pub fn relay_warning(relay: &RelayChoice, online: bool) -> (r: Option<String>)
    ensures
        r is Some <==> !(relay@ is Lan) && !online,
        r matches Some(t) ==> t@ == "warning: no relay connection after "@ + text::decimal(10)
            + "s; only peers reachable directly on this network can connect"@,
{
    if relay.uses_relay() && !online {
        let mut t: String = "warning: no relay connection after ".to_owned();
        let secs = text::decimal_of(RELAY_WAIT_SECS);
        t.append(secs.as_str());
        t.append("s; only peers reachable directly on this network can connect");
        Some(t)
    } else {
        None
    }
}

/// The direct (IP) addresses this endpoint advertises, e.g. `10.131.183.8:41641`.
pub fn ip_addrs(addr: &EndpointAddr) -> (r: Vec<SocketAddr>)
    ensures
        addrs_view(r@) == direct_addrs(addr.addrs@),
{
    let addrs = &addr.addrs;
    let ghost pick = |a: TransportAddr| direct_addr(a);
    let mut r: Vec<SocketAddr> = Vec::new();
    let mut i: usize = 0;
    proof {
        reveal(Seq::filter_map);
        assert(addrs_view(r@) =~= direct_addrs(addrs@.take(0)));
    }
    while i < addrs.len()
        invariant
            i <= addrs.len(),
            pick == (|a: TransportAddr| direct_addr(a)),
            addrs_view(r@) == direct_addrs(addrs@.take(i as int)),
        decreases addrs.len() - i,
    {
        proof {
            reveal(Seq::filter_map);
            assert(addrs@.take(i + 1).drop_last() =~= addrs@.take(i as int));
            assert(addrs@.take(i + 1).last() == addrs@[i as int]);
        }
        match &addrs[i] {
            TransportAddr::Ip(a) => {
                let ghost before = r@;
                r.push(a.copy());
                assert(addrs_view(r@) =~= addrs_view(before).push(
                    crate::endpoint::addr_view(*a),
                ));
            },
            _ => {},
        }
        i = i + 1;
    }
    assert(addrs@.take(i as int) =~= addrs@);
    r
}

/// Render a comma-separated address list, or a placeholder when empty.
pub fn format_addrs(addrs: &Vec<SocketAddr>) -> (r: String)
    ensures
        r@ == (if addrs@.len() == 0 {
            "<none>"@
        } else {
            text::joined(addr_texts(addrs@), ", "@)
        }),
{
    if addrs.len() == 0 {
        return "<none>".to_owned();
    }
    let mut list: Vec<String> = Vec::new();
    let mut i: usize = 0;
    while i < addrs.len()
        invariant
            i <= addrs.len(),
            list@.len() == i,
            forall|k: int| 0 <= k < i ==> (#[trigger] list@[k])@ == addrs@[k].text@,
        decreases addrs.len() - i,
    {
        list.push(addrs[i].text.clone());
        i = i + 1;
    }
    assert(text::texts(list@) =~= addr_texts(addrs@));
    text::join(&list, ", ")
}

/// A text stands for a choice by its words alone: four of them mean the local network,
/// three the public relays, and any other text is the URL of a relay or an error. Case
/// and the white space around it do not matter to a word.
pub proof fn words_choose_the_relay(s: Seq<char>)
    ensures
        ({
            let word = lowered(trimmed(s));
            let lan = word == "none"@ || word == "lan"@ || word == "off"@ || word == "local"@;
            let n0 = word == "n0"@ || word == "default"@ || word == "public"@;
            &&& lan ==> relay_choice(s) == Ok::<RelayView, Seq<char>>(RelayView::Lan)
            &&& n0 && !lan ==> relay_choice(s) == Ok::<RelayView, Seq<char>>(RelayView::N0)
            &&& !lan && !n0 ==> match parsed_relay_url(trimmed(s)) {
                Ok(url) => relay_choice(s) == Ok::<RelayView, Seq<char>>(RelayView::Url(url)),
                Err(e) => relay_choice(s) == Err::<RelayView, Seq<char>>(
                    "invalid relay URL "@ + text::debug_form(s) + ": "@ + e,
                ),
            }
        }),
{
}

/// A text that is no word is judged by what it parses to as a URL.
pub proof fn urls_are_judged_by_parsing(s: Seq<char>, url: Seq<char>, error: Seq<char>)
    ensures
        url_choice(s, Ok(url)) == Ok::<RelayView, Seq<char>>(RelayView::Url(url)),
        url_choice(s, Err(error)) == Err::<RelayView, Seq<char>>(
            "invalid relay URL "@ + text::debug_form(s) + ": "@ + error,
        ),
{
}

/// Each choice has its own servers: none, the public ones, or the one with the URL.
pub proof fn servers_follow_the_choice(servers: RelayServers, url: Seq<char>)
    ensures
        has_servers(servers, RelayView::Lan) <==> servers == RelayServers::Disabled,
        has_servers(servers, RelayView::N0) <==> servers == RelayServers::Public,
        has_servers(servers, RelayView::Url(url)) <==> servers is Only && servers->Only_0@ == url,
{
}

/// An endpoint keeps to its peers if and only if it uses no relay, no public lookup, no
/// probes and no port mapping.
pub proof fn keeping_to_peers_needs_all_off(config: EndpointConfig)
    ensures
        !contacts_others(config) <==> config.relay is Disabled && !config.public_lookup
            && !config.internet_probes && !config.port_mapping,
{
}

/// Choices and outcomes stand in the laws for what they hold.
pub proof fn relay_views_hold_it_all(choice: RelayChoice, url: String, error: String)
    ensures
        RelayChoice::Lan@ == RelayView::Lan,
        RelayChoice::N0@ == RelayView::N0,
        RelayChoice::Url(url)@ == RelayView::Url(url@),
        choice_outcome(Ok(choice)) == Ok::<RelayView, Seq<char>>(choice@),
        choice_outcome(Err(error)) == Err::<RelayView, Seq<char>>(error@),
        text_outcome(Ok(url)) == Ok::<Seq<char>, Seq<char>>(url@),
        text_outcome(Err(error)) == Err::<Seq<char>, Seq<char>>(error@),
{
}

} // verus!
