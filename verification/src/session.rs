//! Short session codes and LAN discovery.
//!
//! So the receiver does not have to paste a 100+ character ticket, the sender
//! announces a six character session code on the local network: a UDP probe /
//! reply pair on [`BEACON_PORT`] carries a truncated hash of the code plus the
//! sender's endpoint id and direct addresses. The receiver types the code, finds
//! the matching sender and then fetches the ticket over the authenticated
//! `ftrans-meta` protocol.
//!
//! Only the *hash* of the code is broadcast; the code itself is only ever sent
//! inside the encrypted connection, so a passive listener on the LAN learns
//! no more than "somebody is offering a session".
use vstd::prelude::*;

use crate::endpoint::{addr_texts, addr_view, addrs_view, EndpointId, IpAddr, SocketAddr};
use crate::hash::{blake3, blake3_hash, BlobHash};
use crate::text;
use crate::text::{hex, same, texts, upper, white_space};

verus! {

/// UDP port used for discovery probes and announcements.
pub const BEACON_PORT: u16 = 53535;

/// How often the sender announces itself again, in milliseconds.
pub const ANNOUNCE_INTERVAL_MS: u64 = 2000;

/// Magic string identifying our beacons.
pub const MAGIC: &'static str = "ftrans-v1";

/// Probe datagram payload. Anything else on the port is ignored.
pub const PROBE: &'static str = "ftrans-discover-v1";

/// Code alphabet: digits plus letters, minus the easily confused ones.
pub const ALPHABET: &'static str = "0123456789ABCDEFGHJKMNPQRSTVWXYZ";

/// Length of a session code.
pub const CODE_LEN: usize = 6;

/// Whether a text is a session code.
pub open spec fn is_code(s: Seq<char>) -> bool {
    &&& s.len() == 6
    &&& forall|i: int| 0 <= i < s.len() ==> ALPHABET@.contains(#[trigger] s[i])
}

/// The code that a seed of at least six bytes gives.
pub open spec fn seed_code(seed: Seq<u8>) -> Seq<char> {
    Seq::new(6, |i: int| ALPHABET@[seed[i] as int % 32])
}

/// `iroh::SecretKey::generate`, read with `to_bytes`. The bytes are random, so
/// nothing is claimed of them.
#[verifier::external_body]
fn random_seed() -> (r: [u8; 32]) {
    iroh::SecretKey::generate().to_bytes()
}

proof fn alphabet_len()
    ensures
        ALPHABET@.len() == 32,
{
    reveal_strlit("0123456789ABCDEFGHJKMNPQRSTVWXYZ");
}

/// The session code that a seed gives. 256 is an exact multiple of the 32
/// character alphabet, so the modulo introduces no bias.
pub fn code_from_seed(seed: &[u8; 32]) -> (r: String)
    ensures
        r@ == seed_code(seed@),
        is_code(r@),
{
    proof {
        alphabet_len();
    }
    let mut r = String::new();
    let mut i: usize = 0;
    while i < CODE_LEN
        invariant
            i <= 6,
            ALPHABET@.len() == 32,
            r@ == seed_code(seed@).take(i as int),
        decreases 6 - i,
    {
        let n: usize = (seed[i] % 32) as usize;
        r.push(ALPHABET.get_char(n));
        proof {
            assert(seed_code(seed@).take(i + 1) =~= seed_code(seed@).take(i as int).push(
                seed_code(seed@)[i as int],
            ));
        }
        i = i + 1;
    }
    assert(r@ =~= seed_code(seed@));
    r
}

/// Generate a random session code.
pub fn generate_code() -> (r: String)
    ensures
        is_code(r@),
{
    let seed = random_seed();
    code_from_seed(&seed)
}

/// Characters that a typed code may hold anywhere without a meaning.
pub open spec fn is_separator(c: char) -> bool {
    c == '-' || c == '_' || white_space(c)
}

/// The code character that a typed character stands for: upper case, with the
/// lookalikes replaced.
pub open spec fn code_char(c: char) -> char {
    let u = upper(c);
    if u == 'I' || u == 'L' {
        '1'
    } else if u == 'O' {
        '0'
    } else {
        u
    }
}

/// What a typed text means character by character.
pub open spec fn folded(input: Seq<char>) -> Seq<char> {
    input.filter(|c: char| !is_separator(c)).map_values(|c: char| code_char(c))
}

/// The session code that a typed text stands for, if it is one.
pub open spec fn normalized(input: Seq<char>) -> Option<Seq<char>> {
    if is_code(folded(input)) {
        Some(folded(input))
    } else {
        None
    }
}

fn in_alphabet(c: char) -> (r: bool)
    ensures
        r == ALPHABET@.contains(c),
{
    let chars = text::chars_of(ALPHABET);
    let mut i: usize = 0;
    while i < chars.len()
        invariant
            i <= chars.len(),
            chars@ == ALPHABET@,
            forall|k: int| 0 <= k < i ==> chars@[k] != c,
        decreases chars.len() - i,
    {
        if chars[i] == c {
            assert(ALPHABET@[i as int] == c);
            return true;
        }
        i = i + 1;
    }
    false
}

/// Normalize user input into a session code: case-insensitive, and tolerant of
/// dashes/spaces and of the I/L/O lookalikes.
pub fn normalize_code(input: &str) -> (r: Option<String>)
    ensures
        r is Some <==> normalized(input@) is Some,
        r matches Some(code) ==> normalized(input@) == Some(code@),
{
    let chars = text::chars_of(input);
    let ghost keep = |c: char| !is_separator(c);
    let ghost fold = |c: char| code_char(c);
    let mut out = String::new();
    let mut i: usize = 0;
    proof {
        reveal(Seq::filter);
        assert(out@ =~= folded(input@.take(0)));
    }
    let mut len: usize = 0;
    while i < chars.len()
        invariant
            i <= chars.len(),
            chars@ == input@,
            keep == (|c: char| !is_separator(c)),
            fold == (|c: char| code_char(c)),
            out@ == folded(input@.take(i as int)),
            len == out@.len(),
            len <= i,
            forall|k: int| 0 <= k < out@.len() ==> ALPHABET@.contains(#[trigger] out@[k]),
        decreases chars.len() - i,
    {
        let ch = chars[i];
        let ghost so_far = input@.take(i as int);
        proof {
            reveal(Seq::filter);
            assert(input@.take(i + 1).drop_last() =~= so_far);
            assert(input@.take(i + 1).last() == ch);
        }
        if ch == '-' || ch == '_' || text::is_white_space(ch) {
            assert(folded(input@.take(i + 1)) =~= out@);
        } else {
            let up = text::to_upper(ch);
            let mapped = if up == 'I' || up == 'L' {
                '1'
            } else if up == 'O' {
                '0'
            } else {
                up
            };
            proof {
                assert(folded(input@.take(i + 1)) =~= out@.push(mapped));
            }
            if !in_alphabet(mapped) {
                proof {
                    folded_is_prefix(input@, i + 1);
                    let k = out@.len() as int;
                    assert(folded(input@).take(k + 1)[k] == mapped);
                    assert(folded(input@)[k] == mapped);
                }
                return None;
            }
            out.push(mapped);
            len = len + 1;
        }
        i = i + 1;
    }
    assert(input@.take(i as int) =~= input@);
    if len == CODE_LEN {
        Some(out)
    } else {
        None
    }
}

proof fn folded_is_prefix(input: Seq<char>, n: int)
    requires
        0 <= n <= input.len(),
    ensures
        folded(input.take(n)).len() <= folded(input).len(),
        folded(input).take(folded(input.take(n)).len() as int) == folded(input.take(n)),
{
    folded_concat(input.take(n), input.skip(n));
    assert(input =~= input.take(n) + input.skip(n));
    assert(folded(input).take(folded(input.take(n)).len() as int) =~= folded(input.take(n)));
}

proof fn folded_concat(a: Seq<char>, b: Seq<char>)
    ensures
        folded(a + b) == folded(a) + folded(b),
{
    let keep = |c: char| !is_separator(c);
    let fold = |c: char| code_char(c);
    Seq::filter_distributes_over_add(a, b, keep);
    assert((a.filter(keep) + b.filter(keep)).map_values(fold) =~= a.filter(keep).map_values(fold)
        + b.filter(keep).map_values(fold));
}


proof fn alphabet_char(c: char)
    requires
        ALPHABET@.contains(c),
    ensures
        !is_separator(c),
        code_char(c) == c,
{
    reveal_strlit("0123456789ABCDEFGHJKMNPQRSTVWXYZ");
    assert forall|j: int| 0 <= j < ALPHABET@.len() implies {
        let a = #[trigger] ALPHABET@[j];
        ('0' <= a <= '9' || 'A' <= a <= 'Z') && a != 'I' && a != 'L' && a != 'O'
    } by {}
}

/// Normalizing leaves a session code as it is. Generated codes are session codes,
/// so a receiver that types one in exactly is understood.
pub proof fn codes_are_normal(code: Seq<char>)
    requires
        is_code(code),
    ensures
        normalized(code) == Some(code),
{
    let keep = |c: char| !is_separator(c);
    assert forall|i: int| 0 <= i < code.len() implies keep(#[trigger] code[i]) && code_char(code[i])
        == code[i] by {
        alphabet_char(code[i]);
    }
    filter_keeps_all(code, keep);
    assert(folded(code) =~= code);
}

proof fn filter_keeps_all(s: Seq<char>, keep: spec_fn(char) -> bool)
    requires
        forall|i: int| 0 <= i < s.len() ==> keep(#[trigger] s[i]),
    ensures
        s.filter(keep) == s,
    decreases s.len(),
{
    reveal(Seq::filter);
    if s.len() > 0 {
        assert forall|i: int| 0 <= i < s.drop_last().len() implies keep(
            #[trigger] s.drop_last()[i],
        ) by {
            assert(keep(s[i]));
        }
        filter_keeps_all(s.drop_last(), keep);
        assert(s.drop_last().push(s.last()) =~= s);
    }
}

/// What a typed text normalizes to is a session code, and normalizing it once more
/// changes nothing.
pub proof fn normalizing_is_idempotent(input: Seq<char>)
    requires
        normalized(input) is Some,
    ensures
        is_code(normalized(input)->0),
        normalized(normalized(input)->0) == normalized(input),
{
    codes_are_normal(folded(input));
}

/// A dash, an underscore or white space anywhere in a typed text has no meaning.
pub proof fn separators_have_no_meaning(before: Seq<char>, c: char, after: Seq<char>)
    requires
        is_separator(c),
    ensures
        normalized(before + seq![c] + after) == normalized(before + after),
{
    folded_concat(before + seq![c], after);
    folded_concat(before, seq![c]);
    folded_concat(before, after);
    reveal(Seq::filter);
    let keep = |c: char| !is_separator(c);
    assert(seq![c].drop_last() =~= Seq::<char>::empty());
    assert(Seq::<char>::empty().filter(keep) =~= Seq::<char>::empty());
    assert(!keep(seq![c].last()));
    assert(folded(seq![c]) =~= Seq::<char>::empty());
    assert(folded(before) + Seq::<char>::empty() =~= folded(before));
}

proof fn folded_single(c: char)
    requires
        !is_separator(c),
    ensures
        folded(seq![c]) == seq![code_char(c)],
{
    reveal(Seq::filter);
    assert(seq![c].drop_last() =~= Seq::<char>::empty());
    assert(folded(seq![c]) =~= seq![code_char(c)]);
}

/// The letters I and L are read as the digit 1 and O as 0, in either case.
pub proof fn lookalikes_are_read_as_digits(before: Seq<char>, c: char, after: Seq<char>)
    requires
        seq!['I', 'i', 'L', 'l', 'O', 'o'].contains(c),
    ensures
        normalized(before + seq![c] + after) == normalized(
            before + seq![if c == 'O' || c == 'o' { '0' } else { '1' }] + after,
        ),
{
    let d = if c == 'O' || c == 'o' {
        '0'
    } else {
        '1'
    };
    folded_concat(before + seq![c], after);
    folded_concat(before, seq![c]);
    folded_concat(before + seq![d], after);
    folded_concat(before, seq![d]);
    folded_single(c);
    folded_single(d);
}

/// Lower and upper case letters are the same.
pub proof fn case_has_no_meaning(input: Seq<char>)
    ensures
        normalized(text::lowered(input)) == normalized(input),
{
    folded_lowered(input);
}

proof fn folded_lowered(input: Seq<char>)
    ensures
        folded(text::lowered(input)) == folded(input),
    decreases input.len(),
{
    reveal(Seq::filter);
    if input.len() > 0 {
        let low = text::lowered(input);
        folded_lowered(input.drop_last());
        assert(low.drop_last() =~= text::lowered(input.drop_last()));
        let keep = |c: char| !is_separator(c);
        let fold = |c: char| code_char(c);
        assert(low.last() == text::lower(input.last()));
        assert(keep(low.last()) == keep(input.last()));
        assert(upper(text::lower(input.last())) == upper(input.last()));
        assert(fold(low.last()) == fold(input.last()));
        if keep(input.last()) {
            assert(folded(low) =~= folded(low.drop_last()).push(fold(low.last())));
            assert(folded(input) =~= folded(input.drop_last()).push(fold(input.last())));
        }
    } else {
        assert(text::lowered(input) =~= input);
    }
}

/// The tag that a digest gives: its first eight bytes in hexadecimal.
pub open spec fn digest_tag(digest: Seq<u8>) -> Seq<char> {
    hex(digest.take(8))
}

/// The tag of a code.
pub open spec fn tag(code: Seq<char>) -> Seq<char> {
    digest_tag(blake3(vstd::utf8::encode_utf8(code)))
}

/// The tag that a digest gives: its first eight bytes in hexadecimal.
pub fn tag_of_digest(digest: &BlobHash) -> (r: String)
    ensures
        r@ == digest_tag(digest@),
        r@.len() == 16,
{
    proof {
        text::hex_len(digest@.take(8));
        assert(digest@.subrange(0, 8) =~= digest@.take(8));
    }
    text::hex_of(vstd::slice::slice_subrange(digest.bytes.as_slice(), 0, 8))
}

/// Truncated hash of a code, safe to broadcast.
pub fn code_tag(code: &str) -> (r: String)
    ensures
        r@ == tag(code@),
        r@.len() == 16,
{
    let digest = blake3_hash(code.as_bytes());
    tag_of_digest(&digest)
}

/// Host name, for telling several senders apart, from the two environment
/// variables that may hold it.
pub fn hostname(computer_name: Option<String>, host_name: Option<String>) -> (r: String)
    ensures
        computer_name matches Some(name) ==> r@ == name@,
        computer_name is None ==> (host_name matches Some(name) ==> r@ == name@),
        computer_name is None && host_name is None ==> r@ == "unknown"@,
{
    match computer_name {
        Some(name) => name,
        None => match host_name {
            Some(name) => name,
            None => "unknown".to_owned(),
        },
    }
}

/// What a sender announces on the LAN.
#[derive(Debug, Clone, PartialEq, Eq)]
pub struct Beacon {
    /// Truncated hash of the session code.
    pub tag: String,
    /// Sender's endpoint id, in its string form.
    pub id: String,
    /// Sender's direct addresses (`ip:port`), reachable on the local network.
    pub addrs: Vec<String>,
    /// Sender's host name.
    pub host: String,
}

/// A beacon's contents.
pub struct BeaconView {
    pub tag: Seq<char>,
    pub id: Seq<char>,
    pub addrs: Seq<Seq<char>>,
    pub host: Seq<char>,
}

impl View for Beacon {
    type V = BeaconView;

    open spec fn view(&self) -> BeaconView {
        BeaconView {
            tag: self.tag@,
            id: self.id@,
            addrs: texts(self.addrs@),
            host: self.host@,
        }
    }
}

/// What a sender announces that offers a session under `code`.
pub open spec fn announced(
    code: Seq<char>,
    id: Seq<u8>,
    addrs: Seq<Seq<char>>,
    host: Seq<char>,
) -> BeaconView {
    BeaconView { tag: tag(code), id: hex(id), addrs, host }
}

/// The contents of a list of beacons.
pub open spec fn beacons_view(beacons: Seq<Beacon>) -> Seq<BeaconView> {
    beacons.map_values(|b: Beacon| b@)
}

/// A beacon as it stands in a datagram, where the magic string comes first.
#[derive(Debug, PartialEq, Eq)]
pub struct BeaconMessage {
    pub magic: String,
    pub beacon: Beacon,
}

/// A message's contents: the magic string and the beacon.
pub open spec fn message_view(m: BeaconMessage) -> (Seq<char>, BeaconView) {
    (m.magic@, m.beacon@)
}

/// What a datagram holds: nothing where it is no message.
pub open spec fn datagram_view(m: Option<BeaconMessage>) -> Option<(Seq<char>, BeaconView)> {
    match m {
        Some(m) => Some(message_view(m)),
        None => None,
    }
}

/// The message that announces a beacon.
pub open spec fn encoded(beacon: BeaconView) -> (Seq<char>, BeaconView) {
    (MAGIC@, beacon)
}

/// The beacon in a datagram: nothing for anything that is not ours.
pub open spec fn decoded(datagram: Option<(Seq<char>, BeaconView)>) -> Option<BeaconView> {
    match datagram {
        Some((magic, beacon)) => if magic == MAGIC@ {
            Some(beacon)
        } else {
            None
        },
        None => None,
    }
}

/// The addresses that could be parsed.
pub open spec fn parsed_addrs(parsed: Seq<Option<SocketAddr>>) -> Seq<(IpAddr, Seq<char>)> {
    parsed.filter_map(
        |a: Option<SocketAddr>|
            match a {
                Some(a) => Some(addr_view(a)),
                None => None,
            },
    )
}

impl Beacon {
    /// The beacon of a sender that offers a session under `code`.
    pub fn new(code: &str, id: &EndpointId, addrs: &Vec<SocketAddr>, host: String) -> (r: Beacon)
        ensures
            r@ == announced(code@, id@, addr_texts(addrs@), host@),
    {
        let mut list: Vec<String> = Vec::new();
        let mut i: usize = 0;
        while i < addrs.len()
            invariant
                i <= addrs.len(),
                list@.len() == i,
                forall|k: int| 0 <= k < i ==> (#[trigger] list@[k])@ == addrs@[k].text@,
            decreases addrs.len() - i,
        {
            list.push(addrs[i].text.clone());
            i = i + 1;
        }
        assert(texts(list@) =~= addr_texts(addrs@));
        Beacon { tag: code_tag(code), id: id.to_text(), addrs: list, host }
    }

    /// The message that announces this beacon.
    pub fn encode(&self) -> (r: BeaconMessage)
        ensures
            message_view(r) == encoded(self@),
    {
        let mut addrs: Vec<String> = Vec::new();
        let mut i: usize = 0;
        while i < self.addrs.len()
            invariant
                i <= self.addrs.len(),
                addrs@.len() == i,
                forall|k: int| 0 <= k < i ==> (#[trigger] addrs@[k])@ == self.addrs@[k]@,
            decreases self.addrs.len() - i,
        {
            addrs.push(self.addrs[i].clone());
            i = i + 1;
        }
        assert(texts(addrs@) =~= texts(self.addrs@));
        BeaconMessage {
            magic: MAGIC.to_owned(),
            beacon: Beacon {
                tag: self.tag.clone(),
                id: self.id.clone(),
                addrs,
                host: self.host.clone(),
            },
        }
    }

    /// The beacon in a datagram, `None` for anything that is not ours.
    pub fn decode(datagram: Option<BeaconMessage>) -> (r: Option<Beacon>)
        ensures
            r is Some <==> decoded(datagram_view(datagram)) is Some,
            r matches Some(beacon) ==> decoded(datagram_view(datagram)) == Some(beacon@),
    {
        match datagram {
            Some(m) => if same(m.magic.as_str(), MAGIC) {
                Some(m.beacon)
            } else {
                None
            },
            None => None,
        }
    }

    /// The sender's addresses, where `parsed[i]` is what `addrs[i]` parses to.
    pub fn socket_addrs(&self, parsed: Vec<Option<SocketAddr>>) -> (r: Vec<SocketAddr>)
        requires
            parsed@.len() == self.addrs@.len(),
        ensures
            addrs_view(r@) == parsed_addrs(parsed@),
    {
        let ghost pick = |a: Option<SocketAddr>|
            match a {
                Some(a) => Some(addr_view(a)),
                None => None,
            };
        let mut r: Vec<SocketAddr> = Vec::new();
        let mut i: usize = 0;
        proof {
            reveal(Seq::filter_map);
            assert(addrs_view(r@) =~= parsed_addrs(parsed@.take(0)));
        }
        while i < parsed.len()
            invariant
                i <= parsed.len(),
                pick == (|a: Option<SocketAddr>|
                    match a {
                        Some(a) => Some(addr_view(a)),
                        None => None,
                    }),
                addrs_view(r@) == parsed_addrs(parsed@.take(i as int)),
            decreases parsed.len() - i,
        {
            proof {
                reveal(Seq::filter_map);
                assert(parsed@.take(i + 1).drop_last() =~= parsed@.take(i as int));
                assert(parsed@.take(i + 1).last() == parsed@[i as int]);
            }
            match &parsed[i] {
                Some(a) => {
                    let ghost before = r@;
                    r.push(a.copy());
                    assert(addrs_view(r@) =~= addrs_view(before).push(addr_view(*a)));
                },
                None => {},
            }
            i = i + 1;
        }
        assert(parsed@.take(i as int) =~= parsed@);
        r
    }
}

/// Decoding gives back the beacon that was encoded.
pub proof fn decode_after_encode(beacon: BeaconView)
    ensures
        decoded(Some(encoded(beacon))) == Some(beacon),
{
}

/// All addresses of a sender come back from its announcement, in order and with
/// repetitions: where each address in the beacon parses to what it was written for,
/// what is parsed is what was announced.
pub proof fn announced_addresses_come_back(
    code: Seq<char>,
    id: Seq<u8>,
    addrs: Seq<SocketAddr>,
    host: Seq<char>,
    parsed: Seq<Option<SocketAddr>>,
)
    requires
        parsed.len() == addrs.len(),
        forall|i: int|
            0 <= i < addrs.len() ==> (#[trigger] parsed[i] matches Some(a) && addr_view(a)
                == addr_view(addrs[i])),
    ensures
        decoded(Some(encoded(announced(code, id, addr_texts(addrs), host)))) matches Some(beacon)
            && beacon.addrs == addr_texts(addrs),
        parsed_addrs(parsed) == addrs_view(addrs),
{
    all_parsed(addrs, parsed);
}

proof fn all_parsed(addrs: Seq<SocketAddr>, parsed: Seq<Option<SocketAddr>>)
    requires
        parsed.len() == addrs.len(),
        forall|i: int|
            0 <= i < addrs.len() ==> (#[trigger] parsed[i] matches Some(a) && addr_view(a)
                == addr_view(addrs[i])),
    ensures
        parsed_addrs(parsed) == addrs_view(addrs),
    decreases addrs.len(),
{
    reveal(Seq::filter_map);
    if addrs.len() == 0 {
        assert(parsed_addrs(parsed) =~= addrs_view(addrs));
    } else {
        let fewer = addrs.drop_last();
        let some = parsed.drop_last();
        assert forall|i: int| 0 <= i < fewer.len() implies (#[trigger] some[i] matches Some(a)
            && addr_view(a) == addr_view(fewer[i])) by {
            assert(parsed[i] is Some);
        }
        all_parsed(fewer, some);
        let last = addr_view(addrs.last());
        assert(parsed[parsed.len() - 1] is Some);
        assert(parsed_addrs(parsed) =~= parsed_addrs(some).push(last));
        assert(addrs_view(addrs) =~= addrs_view(fewer).push(last));
    }
}

/// An announcement says nothing of the code but its tag: codes with the same tag are
/// announced by the same message.
pub proof fn only_the_tag_is_announced(
    a: Seq<char>,
    b: Seq<char>,
    id: Seq<u8>,
    addrs: Seq<Seq<char>>,
    host: Seq<char>,
)
    requires
        tag(a) == tag(b),
    ensures
        encoded(announced(a, id, addrs, host)) == encoded(announced(b, id, addrs, host)),
{
}

/// Whether a datagram is a probe.
pub open spec fn is_probe(data: Seq<u8>) -> bool {
    data == vstd::utf8::encode_utf8(PROBE@)
}

/// What to do after waiting for a datagram on the discovery port.
#[derive(Debug, Clone, Copy, PartialEq, Eq, Structural)]
pub enum ProbeAction {
    /// Send the announcement to where the datagram came from.
    Reply,
    /// An unrelated datagram.
    Ignore,
    /// The socket failed: wait this many milliseconds.
    Pause(u64),
}

/// Answer a probe, ignore any other datagram, and pause when there was none.
pub fn respond_to_probes(received: Option<&[u8]>) -> (r: ProbeAction)
    ensures
        r == (match received {
            Some(data) => if is_probe(data@) {
                ProbeAction::Reply
            } else {
                ProbeAction::Ignore
            },
            None => ProbeAction::Pause(200),
        }),
{
    match received {
        Some(data) => {
            if text::same_bytes(data, PROBE.as_bytes()) {
                ProbeAction::Reply
            } else {
                ProbeAction::Ignore
            }
        },
        None => ProbeAction::Pause(200),
    }
}

/// The interfaces to announce from: those with an IPv4 address. A socket bound to
/// the unspecified address would send the broadcast out of whichever interface has
/// the default route, which is not where the other machine is.
pub open spec fn ipv4_only(ips: Seq<IpAddr>) -> Seq<IpAddr> {
    ips.filter(|ip: IpAddr| ip is V4)
}

/// The interfaces to announce from: those with an IPv4 address.
pub fn broadcast_sources(local_ips: &Vec<IpAddr>) -> (r: Vec<IpAddr>)
    ensures
        r@ == ipv4_only(local_ips@),
{
    let ghost keep = |ip: IpAddr| ip is V4;
    let mut r: Vec<IpAddr> = Vec::new();
    let mut i: usize = 0;
    proof {
        reveal(Seq::filter);
        assert(r@ =~= ipv4_only(local_ips@.take(0)));
    }
    while i < local_ips.len()
        invariant
            i <= local_ips.len(),
            keep == (|ip: IpAddr| ip is V4),
            r@ == ipv4_only(local_ips@.take(i as int)),
        decreases local_ips.len() - i,
    {
        proof {
            reveal(Seq::filter);
            assert(local_ips@.take(i + 1).drop_last() =~= local_ips@.take(i as int));
            assert(local_ips@.take(i + 1).last() == local_ips@[i as int]);
        }
        if local_ips[i].is_ipv4() {
            r.push(local_ips[i]);
        }
        i = i + 1;
    }
    assert(local_ips@.take(i as int) =~= local_ips@);
    r
}

/// The warning where the discovery port cannot be listened on.
pub fn listen_warning(cause: &str) -> (r: String)
    ensures
        r@ == "warning: cannot listen for discovery probes on udp/"@ + text::decimal(53535)
            + " ("@ + cause@ + "); the receiver will need --addr <this-machine-ip>"@,
{
    let mut r: String = "warning: cannot listen for discovery probes on udp/".to_owned();
    let port = text::decimal_of(BEACON_PORT as u64);
    r.append(port.as_str());
    r.append(" (");
    r.append(cause);
    r.append("); the receiver will need --addr <this-machine-ip>");
    r
}

/// Where to look for a sender.
#[derive(Debug, Clone, Copy, PartialEq, Eq, Structural)]
pub enum Probe {
    /// Broadcast from the interface with this address.
    Broadcast(IpAddr),
    /// Ask this address.
    Direct(IpAddr),
}

/// The probes to send: a broadcast from every IPv4 interface, and one to each of
/// `targets`.
pub open spec fn probes(local_ips: Seq<IpAddr>, targets: Seq<IpAddr>) -> Seq<Probe> {
    ipv4_only(local_ips).map_values(|ip: IpAddr| Probe::Broadcast(ip)) + targets.map_values(
        |ip: IpAddr| Probe::Direct(ip),
    )
}

/// The probes to send: a broadcast from every IPv4 interface, and one to each of
/// `targets`, which also covers networks where broadcast is filtered.
pub fn probe_plan(local_ips: &Vec<IpAddr>, targets: &Vec<IpAddr>) -> (r: Vec<Probe>)
    ensures
        r@ == probes(local_ips@, targets@),
{
    let sources = broadcast_sources(local_ips);
    let mut r: Vec<Probe> = Vec::new();
    let mut i: usize = 0;
    while i < sources.len()
        invariant
            i <= sources.len(),
            r@ == sources@.take(i as int).map_values(|ip: IpAddr| Probe::Broadcast(ip)),
        decreases sources.len() - i,
    {
        r.push(Probe::Broadcast(sources[i]));
        i = i + 1;
        assert(r@ =~= sources@.take(i as int).map_values(|ip: IpAddr| Probe::Broadcast(ip)));
    }
    assert(sources@.take(i as int) =~= sources@);
    let ghost first = r@;
    let mut j: usize = 0;
    while j < targets.len()
        invariant
            j <= targets.len(),
            r@ == first + targets@.take(j as int).map_values(|ip: IpAddr| Probe::Direct(ip)),
        decreases targets.len() - j,
    {
        r.push(Probe::Direct(targets[j]));
        j = j + 1;
        assert(r@ =~= first + targets@.take(j as int).map_values(|ip: IpAddr| Probe::Direct(ip)));
    }
    assert(targets@.take(j as int) =~= targets@);
    r
}

/// The beacons in a list of datagrams, in order.
pub open spec fn beacons_in(datagrams: Seq<Option<(Seq<char>, BeaconView)>>) -> Seq<BeaconView> {
    datagrams.filter_map(|d: Option<(Seq<char>, BeaconView)>| decoded(d))
}

/// The distinct items of a list, each where it first occurs.
pub open spec fn distinct<T>(items: Seq<T>) -> Seq<T>
    decreases items.len(),
{
    if items.len() == 0 {
        items
    } else {
        let rest = distinct(items.drop_last());
        if rest.contains(items.last()) {
            rest
        } else {
            rest.push(items.last())
        }
    }
}

/// What was received, datagram by datagram.
pub open spec fn datagrams_view(datagrams: Seq<Option<BeaconMessage>>) -> Seq<
    Option<(Seq<char>, BeaconView)>,
> {
    datagrams.map_values(|d: Option<BeaconMessage>| datagram_view(d))
}

/// The senders that answered: every distinct beacon among the datagrams, in the
/// order of arrival.
pub fn discover(datagrams: Vec<Option<BeaconMessage>>) -> (r: Vec<Beacon>)
    ensures
        beacons_view(r@) == distinct(beacons_in(datagrams_view(datagrams@))),
{
    let ghost raw = datagrams@;
    let ghost all = datagrams_view(raw);
    let ghost pick = |d: Option<(Seq<char>, BeaconView)>| decoded(d);
    let mut found: Vec<Beacon> = Vec::new();
    proof {
        reveal(Seq::filter_map);
        assert(beacons_view(found@) =~= distinct(beacons_in(all.take(0))));
    }
    for d in it: datagrams
        invariant
            it.seq() == raw,
            all == datagrams_view(raw),
            pick == (|d: Option<(Seq<char>, BeaconView)>| decoded(d)),
            beacons_view(found@) == distinct(beacons_in(all.take(it.index() as int))),
    {
        let ghost n = it.index() as int;
        let ghost ours = beacons_in(all.take(n));
        proof {
            reveal(Seq::filter_map);
            assert(all[n] == datagram_view(d));
            assert(all.take(n + 1).drop_last() =~= all.take(n));
            assert(all.take(n + 1).last() == all[n]);
        }
        match Beacon::decode(d) {
            Some(beacon) => {
                proof {
                    assert(beacons_in(all.take(n + 1)) =~= ours.push(beacon@));
                    assert(ours.push(beacon@).drop_last() =~= ours);
                }
                let ghost had = found@;
                if !holds_beacon(&found, &beacon) {
                    found.push(beacon);
                    assert(beacons_view(found@) =~= beacons_view(had).push(beacon@));
                }
            },
            None => {},
        }
    }
    assert(all.take(all.len() as int) =~= all);
    found
}

fn holds_beacon(found: &Vec<Beacon>, beacon: &Beacon) -> (r: bool)
    ensures
        r == beacons_view(found@).contains(beacon@),
{
    let mut i: usize = 0;
    while i < found.len()
        invariant
            i <= found.len(),
            forall|k: int| 0 <= k < i ==> (#[trigger] found@[k])@ != beacon@,
        decreases found.len() - i,
    {
        if found[i].same(beacon) {
            assert(beacons_view(found@)[i as int] == beacon@);
            return true;
        }
        i = i + 1;
    }
    proof {
        if beacons_view(found@).contains(beacon@) {
            let k = choose|k: int|
                0 <= k < beacons_view(found@).len() && beacons_view(found@)[k] == beacon@;
            assert(found@[k]@ == beacon@);
        }
    }
    false
}

impl Beacon {
    /// Whether both beacons announce the same.
    pub fn same(&self, other: &Beacon) -> (r: bool)
        ensures
            r == (self@ == other@),
    {
        if !same(self.tag.as_str(), other.tag.as_str()) || !same(
            self.id.as_str(),
            other.id.as_str(),
        ) || !same(self.host.as_str(), other.host.as_str()) {
            return false;
        }
        if self.addrs.len() != other.addrs.len() {
            assert(self@.addrs.len() != other@.addrs.len());
            return false;
        }
        let mut i: usize = 0;
        while i < self.addrs.len()
            invariant
                i <= self.addrs.len(),
                self.addrs.len() == other.addrs.len(),
                forall|k: int| 0 <= k < i ==> (#[trigger] self.addrs@[k])@ == other.addrs@[k]@,
            decreases self.addrs.len() - i,
        {
            if !same(self.addrs[i].as_str(), other.addrs[i].as_str()) {
                assert(self@.addrs[i as int] != other@.addrs[i as int]);
                return false;
            }
            i = i + 1;
        }
        assert(self@.addrs =~= other@.addrs);
        true
    }
}

/// Looking for senders gives each sender once: no beacon occurs twice, and every
/// beacon that arrived is there.
pub proof fn each_sender_is_found_once(datagrams: Seq<Option<(Seq<char>, BeaconView)>>)
    ensures
        distinct(beacons_in(datagrams)).no_duplicates(),
        forall|b: BeaconView|
            distinct(beacons_in(datagrams)).contains(b) <==> datagrams.contains(Some(encoded(b))),
{
    let ours = beacons_in(datagrams);
    distinct_has_no_duplicates(ours);
    assert forall|b: BeaconView| ours.contains(b) <==> datagrams.contains(Some(encoded(b))) by {
        beacons_in_contains(datagrams, b);
    }
    assert forall|b: BeaconView|
        distinct(ours).contains(b) <==> datagrams.contains(Some(encoded(b))) by {
        assert(ours.contains(b) <==> datagrams.contains(Some(encoded(b))));
    }
}

proof fn distinct_has_no_duplicates<T>(items: Seq<T>)
    ensures
        distinct(items).no_duplicates(),
        forall|x: T| distinct(items).contains(x) <==> items.contains(x),
    decreases items.len(),
{
    if items.len() > 0 {
        let front = items.drop_last();
        distinct_has_no_duplicates(front);
        let rest = distinct(front);
        assert(items =~= front.push(items.last()));
        assert forall|x: T| distinct(items).contains(x) <==> items.contains(x) by {
            vstd::seq_lib::lemma_seq_contains_after_push(front, items.last(), x);
            vstd::seq_lib::lemma_seq_contains_after_push(rest, items.last(), x);
        }
        if !rest.contains(items.last()) {
            let d = rest.push(items.last());
            assert forall|i: int, j: int| 0 <= i < j < d.len() implies d[i] != d[j] by {
                if j == rest.len() {
                    assert(rest.contains(rest[i]));
                }
            }
        }
    }
}

proof fn beacons_in_contains(datagrams: Seq<Option<(Seq<char>, BeaconView)>>, b: BeaconView)
    ensures
        beacons_in(datagrams).contains(b) <==> datagrams.contains(Some(encoded(b))),
    decreases datagrams.len(),
{
    reveal(Seq::filter_map);
    if datagrams.len() > 0 {
        let front = datagrams.drop_last();
        beacons_in_contains(front, b);
        assert(datagrams =~= front.push(datagrams.last()));
        vstd::seq_lib::lemma_seq_contains_after_push(front, datagrams.last(), Some(encoded(b)));
        match decoded(datagrams.last()) {
            Some(x) => {
                vstd::seq_lib::lemma_seq_contains_after_push(beacons_in(front), x, b);
                assert(beacons_in(datagrams) =~= beacons_in(front).push(x));
            },
            None => {
                assert(beacons_in(datagrams) =~= beacons_in(front));
            },
        }
    }
}

/// Every local IPv4 address, whatever its value, is broadcast from, and nothing else is.
/// A receiver probes from each of them, and asks each target directly.
pub proof fn every_ipv4_interface_is_used(
    local_ips: Seq<IpAddr>,
    targets: Seq<IpAddr>,
    ip: IpAddr,
)
    ensures
        ipv4_only(local_ips).contains(ip) <==> ip is V4 && local_ips.contains(ip),
        probes(local_ips, targets).contains(Probe::Broadcast(ip)) <==> ip is V4
            && local_ips.contains(ip),
        probes(local_ips, targets).contains(Probe::Direct(ip)) <==> targets.contains(ip),
{
    broadcast use vstd::seq_lib::group_filter_ensures;

    let keep = |ip: IpAddr| ip is V4;
    let sources = ipv4_only(local_ips);
    let all = probes(local_ips, targets);
    if sources.contains(ip) {
        let k = choose|k: int| 0 <= k < sources.len() && sources[k] == ip;
        assert(keep(local_ips.filter(keep)[k]));
        local_ips.lemma_filter_contains_rev(keep, ip);
        assert(all[k] == Probe::Broadcast(ip));
    }
    if ip is V4 && local_ips.contains(ip) {
        let i = choose|i: int| 0 <= i < local_ips.len() && local_ips[i] == ip;
        assert(keep(local_ips[i]));
        assert(local_ips.filter(keep).contains(local_ips[i]));
    }
    if all.contains(Probe::Broadcast(ip)) {
        let k = choose|k: int| 0 <= k < all.len() && all[k] == Probe::Broadcast(ip);
        assert(k < sources.len());
        assert(sources[k] == ip);
    }
    if all.contains(Probe::Direct(ip)) {
        let k = choose|k: int| 0 <= k < all.len() && all[k] == Probe::Direct(ip);
        assert(k >= sources.len());
        assert(targets[k - sources.len()] == ip);
    }
    if targets.contains(ip) {
        let k = choose|k: int| 0 <= k < targets.len() && targets[k] == ip;
        assert(all[sources.len() + k] == Probe::Direct(ip));
    }
}

/// One more interface is one more broadcast at the end where it is IPv4, and changes
/// nothing where it is not; one more target is one more probe at the end.
pub proof fn one_more_interface_is_one_more_broadcast(
    local_ips: Seq<IpAddr>,
    targets: Seq<IpAddr>,
    ip: IpAddr,
)
    ensures
        ipv4_only(local_ips.push(ip)) == if ip is V4 {
            ipv4_only(local_ips).push(ip)
        } else {
            ipv4_only(local_ips)
        },
        ipv4_only(Seq::empty()).len() == 0,
        probes(local_ips, targets.push(ip)) == probes(local_ips, targets).push(Probe::Direct(ip)),
        probes(local_ips, targets).len() == ipv4_only(local_ips).len() + targets.len(),
        forall|i: int|
            0 <= i < ipv4_only(local_ips).len() ==> #[trigger] probes(local_ips, targets)[i]
                == Probe::Broadcast(ipv4_only(local_ips)[i]),
{
    reveal(Seq::filter);
    let keep = |ip: IpAddr| ip is V4;
    assert(local_ips.push(ip).drop_last() =~= local_ips);
    assert(local_ips.push(ip).last() == ip);
    assert(keep(ip) == (ip is V4));
    assert(probes(local_ips, targets.push(ip)) =~= probes(local_ips, targets).push(
        Probe::Direct(ip),
    ));
}

/// A session code has six characters, each a digit or a capital other than I, L, O and U.
pub proof fn codes_have_six_plain_characters(s: Seq<char>)
    ensures
        is_code(s) <==> s.len() == 6 && forall|i: int|
            0 <= i < 6 ==> ('0' <= #[trigger] s[i] <= '9' || ('A' <= s[i] <= 'Z' && s[i] != 'I'
                && s[i] != 'L' && s[i] != 'O' && s[i] != 'U')),
{
    assert forall|c: char| #[trigger]
        ALPHABET@.contains(c) <==> ('0' <= c <= '9' || ('A' <= c <= 'Z' && c != 'I' && c != 'L' && c
            != 'O' && c != 'U')) by {
        alphabet_holds(c);
    }
}

proof fn alphabet_holds(c: char)
    ensures
        ALPHABET@.contains(c) <==> ('0' <= c <= '9' || ('A' <= c <= 'Z' && c != 'I' && c != 'L' && c
            != 'O' && c != 'U')),
{
    reveal_strlit("0123456789ABCDEFGHJKMNPQRSTVWXYZ");
    let past = |other: char|
        if c >= other {
            1int
        } else {
            0int
        };
    let k = if c <= '9' {
        c as int - '0' as int
    } else {
        c as int - 'A' as int + 10 - past('I') - past('L') - past('O') - past('U')
    };
    if '0' <= c <= '9' || ('A' <= c <= 'Z' && c != 'I' && c != 'L' && c != 'O' && c != 'U') {
        assert(0 <= k < 32);
        assert(ALPHABET@[k] == c);
    }
}

/// The bytes of a seed pick the characters of its code one by one, each by its remainder
/// modulo the size of the alphabet.
pub proof fn seeds_pick_the_characters(seed: Seq<u8>)
    ensures
        seed_code(seed).len() == 6,
        forall|i: int|
            0 <= i < 6 ==> #[trigger] seed_code(seed)[i]
                == "0123456789ABCDEFGHJKMNPQRSTVWXYZ"@[seed[i] as int % 32],
{
}

/// A typed text is read character by character: separators are passed over, I and L are
/// read as 1 and O as 0, small letters as their capitals, and everything else as it is.
pub proof fn typed_text_is_read_in_order(input: Seq<char>, c: char)
    ensures
        folded(Seq::empty()) == Seq::<char>::empty(),
        c == '-' || c == '_' || white_space(c) ==> folded(input.push(c)) == folded(input),
        c == 'I' || c == 'L' ==> folded(input.push(c)) == folded(input).push('1'),
        c == 'O' ==> folded(input.push(c)) == folded(input).push('0'),
        'a' <= c <= 'z' ==> folded(input.push(c)) == folded(
            input.push(((c as u32) - 'a' as u32 + 'A' as u32) as char),
        ),
        !('a' <= c <= 'z') && c != 'I' && c != 'L' && c != 'O' && c != '-' && c != '_'
            && !white_space(c) ==> folded(input.push(c)) == folded(input).push(c),
        normalized(input) == if is_code(folded(input)) {
            Some(folded(input))
        } else {
            None
        },
{
    reveal(Seq::filter);
    let keep = |c: char| !is_separator(c);
    let fold = |c: char| code_char(c);
    assert(folded(Seq::empty()) =~= Seq::<char>::empty());
    read_one_more(input, c);
    if 'a' <= c <= 'z' {
        let u = ((c as u32) - 'a' as u32 + 'A' as u32) as char;
        assert(u == upper(c));
        read_one_more(input, u);
    }
}

proof fn read_one_more(input: Seq<char>, c: char)
    ensures
        folded(input.push(c)) == if is_separator(c) {
            folded(input)
        } else {
            folded(input).push(code_char(c))
        },
{
    reveal(Seq::filter);
    let keep = |c: char| !is_separator(c);
    assert(input.push(c).drop_last() =~= input);
    assert(input.push(c).last() == c);
    if keep(c) {
        assert(folded(input.push(c)) =~= folded(input).push(code_char(c)));
    } else {
        assert(folded(input.push(c)) =~= folded(input));
    }
}

/// A tag is the first eight bytes of the digest of the code's UTF-8 form, two
/// hexadecimal digits for each.
pub proof fn tags_are_truncated_hashes(code: Seq<char>, digest: Seq<u8>)
    requires
        digest.len() >= 8,
    ensures
        tag(code) == digest_tag(blake3(vstd::utf8::encode_utf8(code))),
        digest_tag(digest).len() == 16,
        forall|i: int|
            0 <= i < 8 ==> #[trigger] text::digits_at(digest_tag(digest), i, digest[i]),
{
    text::hex_stands_for_the_bytes(digest.take(8));
    assert forall|i: int| 0 <= i < 8 implies #[trigger] text::digits_at(
        digest_tag(digest),
        i,
        digest[i],
    ) by {
        assert(digest.take(8)[i] == digest[i]);
        assert(text::digits_at(hex(digest.take(8)), i, digest.take(8)[i]));
    }
}

/// An announcement holds the tag of the code, the sender's id in hexadecimal, and the
/// addresses and the host name as they are.
pub proof fn announcements_hold_it_all(
    code: Seq<char>,
    id: Seq<u8>,
    addrs: Seq<Seq<char>>,
    host: Seq<char>,
)
    ensures
        announced(code, id, addrs, host).tag == tag(code),
        announced(code, id, addrs, host).id == hex(id),
        announced(code, id, addrs, host).addrs == addrs,
        announced(code, id, addrs, host).host == host,
{
}

/// A message is ours if and only if it starts with the magic string.
pub proof fn messages_start_with_the_magic_string(magic: Seq<char>, beacon: BeaconView)
    ensures
        encoded(beacon) == ("ftrans-v1"@, beacon),
        decoded(None) is None,
        magic == "ftrans-v1"@ ==> decoded(Some((magic, beacon))) == Some(beacon),
        magic != "ftrans-v1"@ ==> decoded(Some((magic, beacon))) is None,
{
}

/// Only the probe text in UTF-8 is a probe.
pub proof fn probes_are_the_probe_text(data: Seq<u8>)
    ensures
        is_probe(data) <==> data == vstd::utf8::encode_utf8("ftrans-discover-v1"@),
{
}

/// Addresses are read one by one, and those that cannot be parsed are passed over.
pub proof fn addresses_are_read_one_by_one(parsed: Seq<Option<SocketAddr>>, a: SocketAddr)
    ensures
        parsed_addrs(Seq::empty()) == Seq::<(IpAddr, Seq<char>)>::empty(),
        parsed_addrs(parsed.push(None)) == parsed_addrs(parsed),
        parsed_addrs(parsed.push(Some(a))) == parsed_addrs(parsed).push((a.ip, a.text@)),
{
    reveal(Seq::filter_map);
    assert(parsed.push(None).drop_last() =~= parsed);
    assert(parsed.push(Some(a)).drop_last() =~= parsed);
    assert(parsed_addrs(Seq::empty()) =~= Seq::<(IpAddr, Seq<char>)>::empty());
    assert(parsed_addrs(parsed.push(None)) =~= parsed_addrs(parsed));
    assert(parsed_addrs(parsed.push(Some(a))) =~= parsed_addrs(parsed).push((a.ip, a.text@)));
}

/// Senders are found in the order of arrival: one more datagram adds its beacon at the
/// end, unless it is not ours or the beacon has been found before.
pub proof fn senders_are_found_in_order(
    datagrams: Seq<Option<(Seq<char>, BeaconView)>>,
    magic: Seq<char>,
    b: BeaconView,
)
    ensures
        distinct(beacons_in(Seq::empty())) == Seq::<BeaconView>::empty(),
        distinct(beacons_in(datagrams.push(None))) == distinct(beacons_in(datagrams)),
        magic != "ftrans-v1"@ ==> distinct(beacons_in(datagrams.push(Some((magic, b)))))
            == distinct(beacons_in(datagrams)),
        magic == "ftrans-v1"@ ==> distinct(beacons_in(datagrams.push(Some((magic, b))))) == if (
        distinct(beacons_in(datagrams)).contains(b)) {
            distinct(beacons_in(datagrams))
        } else {
            distinct(beacons_in(datagrams)).push(b)
        },
{
    reveal(Seq::filter_map);
    let ours = beacons_in(datagrams);
    assert(beacons_in(Seq::empty()) =~= Seq::<BeaconView>::empty());
    assert(datagrams.push(None).drop_last() =~= datagrams);
    assert(beacons_in(datagrams.push(None)) =~= ours);
    let more = datagrams.push(Some((magic, b)));
    assert(more.drop_last() =~= datagrams);
    if magic == MAGIC@ {
        assert(beacons_in(more) =~= ours.push(b));
        assert(ours.push(b).drop_last() =~= ours);
    } else {
        assert(beacons_in(more) =~= ours);
    }
}

/// Messages, datagrams and lists of beacons stand in the laws for what they hold.
pub proof fn session_views_hold_it_all(
    beacon: Beacon,
    magic: String,
    beacons: Seq<Beacon>,
    datagrams: Seq<Option<BeaconMessage>>,
)
    ensures
        beacon@.tag == beacon.tag@,
        beacon@.id == beacon.id@,
        beacon@.host == beacon.host@,
        beacon@.addrs.len() == beacon.addrs@.len(),
        forall|i: int|
            0 <= i < beacon.addrs@.len() ==> beacon@.addrs[i] == (#[trigger] beacon.addrs@[i])@,
        message_view(BeaconMessage { magic, beacon }) == (magic@, beacon@),
        datagram_view(None) is None,
        datagram_view(Some(BeaconMessage { magic, beacon })) == Some((magic@, beacon@)),
        beacons_view(beacons).len() == beacons.len(),
        forall|i: int|
            0 <= i < beacons.len() ==> beacons_view(beacons)[i] == (#[trigger] beacons[i])@,
        datagrams_view(datagrams).len() == datagrams.len(),
        forall|i: int|
            0 <= i < datagrams.len() ==> datagrams_view(datagrams)[i] == datagram_view(
                #[trigger] datagrams[i],
            ),
{
}

/// Senders and receivers of one network agree on the port and on the length of a code, and
/// a sender announces itself every other second.
pub proof fn senders_and_receivers_meet()
    ensures
        BEACON_PORT == 53535,
        ANNOUNCE_INTERVAL_MS == 2000,
        CODE_LEN == 6,
{
}

} // verus!
