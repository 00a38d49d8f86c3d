//! Text primitives shared by the protocol modules.
use vstd::prelude::*;

verus! {

/// `String::push` of the standard library: the character is appended at the end.
pub assume_specification[ String::push ](s: &mut String, ch: char)
    ensures
        final(s)@ == old(s)@.push(ch),
;

/// The characters of `s`, in order.
pub fn chars_of(s: &str) -> (out: Vec<char>)
    ensures
        out@ == s@,
{
    let mut out: Vec<char> = Vec::new();
    for c in it: s.chars()
        invariant
            it.seq() == s@,
            out@ == s@.take(it.index() as int),
    {
        out.push(c);
    }
    out
}

/// Whether two texts are equal.
pub fn same(a: &str, b: &str) -> (r: bool)
    ensures
        r == (a@ == b@),
{
    let x: String = a.to_owned();
    let y: String = b.to_owned();
    x == y
}

/// The characters with the Unicode `White_Space` property.
pub open spec fn white_space(c: char) -> bool {
    let u = c as u32;
    ||| 0x0009 <= u <= 0x000d
    ||| u == 0x0020
    ||| u == 0x0085
    ||| u == 0x00a0
    ||| u == 0x1680
    ||| 0x2000 <= u <= 0x200a
    ||| u == 0x2028
    ||| u == 0x2029
    ||| u == 0x202f
    ||| u == 0x205f
    ||| u == 0x3000
}

/// Whether `c` is white space.
pub fn is_white_space(c: char) -> (r: bool)
    ensures
        r == white_space(c),
{
    let u: u32 = c as u32;
    (0x0009 <= u && u <= 0x000d) || u == 0x0020 || u == 0x0085 || u == 0x00a0 || u == 0x1680 || (
    0x2000 <= u && u <= 0x200a) || u == 0x2028 || u == 0x2029 || u == 0x202f || u == 0x205f || u
        == 0x3000
}

/// ASCII upper case of `c`; every other character stands for itself.
pub open spec fn upper(c: char) -> char {
    if 'a' <= c <= 'z' {
        ((c as u32) - 32) as char
    } else {
        c
    }
}

/// ASCII lower case of `c`; every other character stands for itself.
pub open spec fn lower(c: char) -> char {
    if 'A' <= c <= 'Z' {
        ((c as u32) + 32) as char
    } else {
        c
    }
}

/// `upper`, executable.
pub fn to_upper(c: char) -> (r: char)
    ensures
        r == upper(c),
{
    if 'a' <= c && c <= 'z' {
        ((c as u8) - 32) as char
    } else {
        c
    }
}

/// `lower`, executable.
pub fn to_lower(c: char) -> (r: char)
    ensures
        r == lower(c),
{
    if 'A' <= c && c <= 'Z' {
        ((c as u8) + 32) as char
    } else {
        c
    }
}

/// Every character of `s` in ASCII lower case.
pub open spec fn lowered(s: Seq<char>) -> Seq<char> {
    s.map_values(|c: char| lower(c))
}

/// `s` without its leading white space.
pub open spec fn trimmed_start(s: Seq<char>) -> Seq<char>
    decreases s.len(),
{
    if s.len() > 0 && white_space(s[0]) {
        trimmed_start(s.drop_first())
    } else {
        s
    }
}

/// `s` without its trailing white space.
pub open spec fn trimmed_end(s: Seq<char>) -> Seq<char>
    decreases s.len(),
{
    if s.len() > 0 && white_space(s.last()) {
        trimmed_end(s.drop_last())
    } else {
        s
    }
}

/// `s` without its leading and trailing white space.
pub open spec fn trimmed(s: Seq<char>) -> Seq<char> {
    trimmed_end(trimmed_start(s))
}

/// `s` without its leading and trailing white space.
pub fn trim(s: &str) -> (r: String)
    ensures
        r@ == trimmed(s@),
{
    let chars = chars_of(s);
    let mut i: usize = 0;
    assert(s@.skip(0) =~= s@);
    while i < chars.len() && is_white_space(chars[i])
        invariant
            i <= chars.len(),
            chars@ == s@,
            trimmed_start(s@) == trimmed_start(s@.skip(i as int)),
        decreases chars.len() - i,
    {
        proof {
            assert(s@.skip(i as int).drop_first() =~= s@.skip(i + 1));
        }
        i = i + 1;
    }
    assert(trimmed_start(s@) == s@.skip(i as int));
    let ghost rest = s@.skip(i as int);
    let mut j: usize = chars.len();
    assert(s@.subrange(i as int, j as int) =~= rest);
    while j > i && is_white_space(chars[j - 1])
        invariant
            i <= j <= chars.len(),
            chars@ == s@,
            trimmed_end(rest) == trimmed_end(s@.subrange(i as int, j as int)),
        decreases j,
    {
        proof {
            assert(s@.subrange(i as int, j as int).drop_last() =~= s@.subrange(i as int, j - 1));
        }
        j = j - 1;
    }
    let r = s.substring_char(i, j);
    r.to_owned()
}

/// The pieces of `s` between the occurrences of `sep`, in order.
pub open spec fn split(s: Seq<char>, sep: char) -> Seq<Seq<char>>
    decreases s.len(),
{
    if s.len() == 0 {
        seq![Seq::empty()]
    } else {
        let before = split(s.drop_last(), sep);
        if s.last() == sep {
            before.push(Seq::empty())
        } else {
            before.drop_last().push(before.last().push(s.last()))
        }
    }
}

/// The contents of a list of texts.
pub open spec fn texts(parts: Seq<String>) -> Seq<Seq<char>> {
    parts.map_values(|t: String| t@)
}

/// `parts` in order, with `sep` between neighbours.
pub open spec fn joined(parts: Seq<Seq<char>>, sep: Seq<char>) -> Seq<char>
    decreases parts.len(),
{
    if parts.len() == 0 {
        Seq::empty()
    } else if parts.len() == 1 {
        parts[0]
    } else {
        joined(parts.drop_last(), sep) + sep + parts.last()
    }
}

/// `parts` in order, with `sep` between neighbours.
pub fn join(parts: &Vec<String>, sep: &str) -> (r: String)
    ensures
        r@ == joined(texts(parts@), sep@),
{
    let mut r = String::new();
    let mut i: usize = 0;
    while i < parts.len()
        invariant
            i <= parts.len(),
            r@ == joined(texts(parts@).take(i as int), sep@),
        decreases parts.len() - i,
    {
        if i > 0 {
            r.append(sep);
        }
        r.append(parts[i].as_str());
        proof {
            let next = texts(parts@).take(i + 1);
            assert(next.drop_last() =~= texts(parts@).take(i as int));
            assert(next.last() == parts@[i as int]@);
            if i == 0 {
                assert(Seq::<char>::empty() + next[0] =~= next[0]);
            }
        }
        i = i + 1;
    }
    assert(texts(parts@).take(i as int) =~= texts(parts@));
    r
}

/// The decimal digit `d`.
pub open spec fn digit(d: nat) -> char {
    (0x30 + d) as char
}

/// `n` in decimal, without leading zeros.
pub open spec fn decimal(n: nat) -> Seq<char>
    decreases n,
{
    if n < 10 {
        seq![digit(n)]
    } else {
        decimal(n / 10).push(digit(n % 10))
    }
}

/// `n` in decimal, without leading zeros.
pub fn decimal_of(n: u64) -> (r: String)
    ensures
        r@ == decimal(n as nat),
    decreases n,
{
    let mut r = if n < 10 {
        String::new()
    } else {
        decimal_of(n / 10)
    };
    let d: u8 = (n % 10) as u8;
    r.push((0x30 + d) as char);
    r
}

/// The lower case hexadecimal digit `n`.
pub open spec fn hex_digit(n: nat) -> char {
    if n < 10 {
        (0x30 + n) as char
    } else {
        (0x57 + n) as char
    }
}

/// `bytes` in lower case hexadecimal, two digits each.
pub open spec fn hex(bytes: Seq<u8>) -> Seq<char>
    decreases bytes.len(),
{
    if bytes.len() == 0 {
        Seq::empty()
    } else {
        hex(bytes.drop_last()).push(hex_digit(bytes.last() as nat / 16)).push(
            hex_digit(bytes.last() as nat % 16),
        )
    }
}

fn to_hex_digit(n: u8) -> (r: char)
    requires
        n < 16,
    ensures
        r == hex_digit(n as nat),
{
    if n < 10 {
        (0x30 + n) as char
    } else {
        (0x57 + n) as char
    }
}

/// `bytes` in lower case hexadecimal, two digits each.
pub fn hex_of(bytes: &[u8]) -> (r: String)
    ensures
        r@ == hex(bytes@),
{
    let mut r = String::new();
    let mut i: usize = 0;
    while i < bytes.len()
        invariant
            i <= bytes@.len(),
            r@ == hex(bytes@.take(i as int)),
        decreases bytes@.len() - i,
    {
        let b: u8 = bytes[i];
        r.push(to_hex_digit(b / 16));
        r.push(to_hex_digit(b % 16));
        proof {
            assert(bytes@.take(i + 1).drop_last() =~= bytes@.take(i as int));
        }
        i = i + 1;
    }
    assert(bytes@.take(i as int) =~= bytes@);
    r
}

/// Two hexadecimal digits for each byte.
pub proof fn hex_len(bytes: Seq<u8>)
    ensures
        hex(bytes).len() == 2 * bytes.len(),
    decreases bytes.len(),
{
    if bytes.len() > 0 {
        hex_len(bytes.drop_last());
    }
}

/// Different bytes have different hexadecimal forms.
pub proof fn hex_injective(a: Seq<u8>, b: Seq<u8>)
    requires
        hex(a) == hex(b),
    ensures
        a == b,
    decreases a.len(),
{
    hex_len(a);
    hex_len(b);
    if a.len() > 0 {
        let n = hex(a).len();
        assert(hex(a).drop_last().drop_last() =~= hex(a.drop_last()));
        assert(hex(b).drop_last().drop_last() =~= hex(b.drop_last()));
        hex_injective(a.drop_last(), b.drop_last());
        assert(hex(a)[n - 1] == hex_digit(a.last() as nat % 16));
        assert(hex(a)[n - 2] == hex_digit(a.last() as nat / 16));
        assert(hex(b)[n - 1] == hex_digit(b.last() as nat % 16));
        assert(hex(b)[n - 2] == hex_digit(b.last() as nat / 16));
        assert(a.last() == b.last());
        assert(a =~= a.drop_last().push(a.last()));
        assert(b =~= b.drop_last().push(b.last()));
    } else {
        assert(a =~= b);
    }
}

/// Lexicographic order of texts by code point.
pub open spec fn text_less(a: Seq<char>, b: Seq<char>) -> bool
    decreases a.len(),
{
    if b.len() == 0 {
        false
    } else if a.len() == 0 {
        true
    } else if a[0] != b[0] {
        a[0] < b[0]
    } else {
        text_less(a.drop_first(), b.drop_first())
    }
}

/// Whether `a` comes before `b` in lexicographic order by code point.
pub fn is_text_less(a: &str, b: &str) -> (r: bool)
    ensures
        r == text_less(a@, b@),
{
    let x = chars_of(a);
    let y = chars_of(b);
    let mut i: usize = 0;
    assert(a@.skip(0) =~= a@);
    assert(b@.skip(0) =~= b@);
    while i < x.len() && i < y.len() && x[i] == y[i]
        invariant
            i <= x.len(),
            i <= y.len(),
            x@ == a@,
            y@ == b@,
            text_less(a@, b@) == text_less(a@.skip(i as int), b@.skip(i as int)),
        decreases x.len() - i,
    {
        proof {
            assert(a@.skip(i as int).drop_first() =~= a@.skip(i + 1));
            assert(b@.skip(i as int).drop_first() =~= b@.skip(i + 1));
        }
        i = i + 1;
    }
    if i >= y.len() {
        false
    } else if i >= x.len() {
        true
    } else {
        x[i] < y[i]
    }
}

/// The order is total: of two different texts one comes first.
pub proof fn text_less_total(a: Seq<char>, b: Seq<char>)
    requires
        a != b,
    ensures
        text_less(a, b) || text_less(b, a),
    decreases a.len(),
{
    if a.len() > 0 && b.len() > 0 && a[0] == b[0] {
        assert(a =~= seq![a[0]] + a.drop_first());
        assert(b =~= seq![b[0]] + b.drop_first());
        text_less_total(a.drop_first(), b.drop_first());
    } else if a.len() == 0 && b.len() == 0 {
        assert(a =~= b);
    }
}

/// The order is transitive.
pub proof fn text_less_transitive(a: Seq<char>, b: Seq<char>, c: Seq<char>)
    requires
        text_less(a, b),
        text_less(b, c),
    ensures
        text_less(a, c),
    decreases a.len(),
{
    if a.len() > 0 && a[0] == b[0] && b[0] == c[0] {
        text_less_transitive(a.drop_first(), b.drop_first(), c.drop_first());
    }
}

/// No text comes before itself.
pub proof fn text_less_irreflexive(a: Seq<char>)
    ensures
        !text_less(a, a),
    decreases a.len(),
{
    if a.len() > 0 {
        text_less_irreflexive(a.drop_first());
    }
}

/// What the standard library's `Debug` formatting of a text gives: the text in
/// double quotes, with special characters escaped.
pub uninterp spec fn debug_form(s: Seq<char>) -> Seq<char>;

/// `format!("{:?}", s)` of the standard library for a text `s`. Claimed: the
/// result depends on `s` alone; how characters are escaped is left unsaid.
#[verifier::external_body]
pub(crate) fn debug_text(s: &str) -> (r: String)
    ensures
        r@ == debug_form(s@),
{
    format!("{:?}", s)
}

/// The `Debug` form of a list of texts.
pub open spec fn debug_list_form(parts: Seq<Seq<char>>) -> Seq<char> {
    "["@ + joined(parts.map_values(|p: Seq<char>| debug_form(p)), ", "@) + "]"@
}

/// The `Debug` form of a list of texts.
pub fn debug_list(parts: &Vec<String>) -> (r: String)
    ensures
        r@ == debug_list_form(texts(parts@)),
{
    let mut forms: Vec<String> = Vec::new();
    let mut i: usize = 0;
    while i < parts.len()
        invariant
            i <= parts.len(),
            forms@.len() == i,
            forall|k: int| 0 <= k < i ==> (#[trigger] forms@[k])@ == debug_form(parts@[k]@),
        decreases parts.len() - i,
    {
        forms.push(debug_text(parts[i].as_str()));
        i = i + 1;
    }
    assert(texts(forms@) =~= texts(parts@).map_values(|p: Seq<char>| debug_form(p)));
    let mut r: String = "[".to_owned();
    let inner = join(&forms, ", ");
    r.append(inner.as_str());
    r.append("]");
    r
}

/// `String::from_utf8` of the standard library. Claimed: it succeeds on valid
/// UTF-8 and only there, and then gives the text that the bytes encode.
#[verifier::external_body]
pub(crate) fn utf8_text(bytes: Vec<u8>) -> (r: Option<String>)
    ensures
        r is Some <==> vstd::utf8::valid_utf8(bytes@),
        r matches Some(t) ==> t@ == vstd::utf8::decode_utf8(bytes@),
{
    String::from_utf8(bytes).ok()
}

/// Whether two byte strings are equal.
pub fn same_bytes(a: &[u8], b: &[u8]) -> (r: bool)
    ensures
        r == (a@ == b@),
{
    let len: usize = a.len();
    if len != b.len() {
        return false;
    }
    let mut i: usize = 0;
    while i < len
        invariant
            i <= len,
            len == a@.len(),
            len == b@.len(),
            forall|k: int| 0 <= k < i ==> a@[k] == b@[k],
        decreases len - i,
    {
        if a[i] != b[i] {
            return false;
        }
        i = i + 1;
    }
    assert(a@ =~= b@);
    true
}

/// Whether `s` has white space before `i` and from `j` on, and none at the ends of what
/// is between.
pub open spec fn white_outside(s: Seq<char>, i: int, j: int) -> bool {
    &&& 0 <= i <= j <= s.len()
    &&& forall|k: int| 0 <= k < i || j <= k < s.len() ==> white_space(#[trigger] s[k])
    &&& i < j ==> !white_space(s[i]) && !white_space(s[j - 1])
}

/// Trimming leaves the middle of a text, with nothing but white space left out and no
/// white space at its ends.
pub proof fn trimmed_is_the_middle(s: Seq<char>)
    ensures
        exists|i: int, j: int| #[trigger]
            white_outside(s, i, j) && trimmed(s) == s.subrange(i, j),
{
    let i = start_is_white(s);
    let rest = s.skip(i);
    let n = end_is_white(rest);
    assert(trimmed(s) =~= s.subrange(i, i + n));
    assert forall|k: int| 0 <= k < i || i + n <= k < s.len() implies white_space(
        #[trigger] s[k],
    ) by {
        if k >= i {
            assert(rest[k - i] == s[k]);
        }
    }
    if n > 0 {
        assert(rest[0] == s[i]);
        assert(rest[n - 1] == s[i + n - 1]);
    }
    assert(white_outside(s, i, i + n));
}

proof fn start_is_white(s: Seq<char>) -> (i: int)
    ensures
        0 <= i <= s.len(),
        trimmed_start(s) == s.skip(i),
        forall|k: int| 0 <= k < i ==> white_space(#[trigger] s[k]),
        i < s.len() ==> !white_space(s[i]),
    decreases s.len(),
{
    if s.len() > 0 && white_space(s[0]) {
        let i = start_is_white(s.drop_first());
        assert(s.drop_first().skip(i) =~= s.skip(i + 1));
        assert forall|k: int| 0 <= k < i + 1 implies white_space(#[trigger] s[k]) by {
            if k > 0 {
                assert(s.drop_first()[k - 1] == s[k]);
            }
        }
        i + 1
    } else {
        assert(s.skip(0) =~= s);
        0
    }
}

proof fn end_is_white(s: Seq<char>) -> (n: int)
    ensures
        0 <= n <= s.len(),
        trimmed_end(s) == s.take(n),
        forall|k: int| n <= k < s.len() ==> white_space(#[trigger] s[k]),
        n > 0 ==> !white_space(s[n - 1]),
    decreases s.len(),
{
    if s.len() > 0 && white_space(s.last()) {
        let n = end_is_white(s.drop_last());
        assert(s.drop_last().take(n) =~= s.take(n));
        assert forall|k: int| n <= k < s.len() implies white_space(#[trigger] s[k]) by {
            if k < s.len() - 1 {
                assert(s.drop_last()[k] == s[k]);
            }
        }
        n
    } else {
        assert(s.take(s.len() as int) =~= s);
        s.len() as int
    }
}

proof fn split_without_sep(s: Seq<char>, sep: char)
    requires
        !s.contains(sep),
    ensures
        split(s, sep) == seq![s],
    decreases s.len(),
{
    if s.len() > 0 {
        let before = s.drop_last();
        assert(!before.contains(sep)) by {
            if before.contains(sep) {
                let k = choose|k: int| 0 <= k < before.len() && before[k] == sep;
                assert(s[k] == sep);
            }
        }
        split_without_sep(before, sep);
        assert(s.last() == s[s.len() - 1]);
        assert(before.push(s.last()) =~= s);
        assert(split(s, sep) =~= seq![s]);
    } else {
        assert(s =~= Seq::<char>::empty());
        assert(split(s, sep) =~= seq![s]);
    }
}

proof fn split_append(a: Seq<char>, sep: char, b: Seq<char>)
    requires
        !b.contains(sep),
    ensures
        split(a + seq![sep] + b, sep) == split(a, sep).push(b),
    decreases b.len(),
{
    let s = a + seq![sep] + b;
    if b.len() == 0 {
        assert(s.drop_last() =~= a);
        assert(b =~= Seq::<char>::empty());
        assert(split(s, sep) =~= split(a, sep).push(b));
    } else {
        let shorter = b.drop_last();
        assert(!shorter.contains(sep)) by {
            if shorter.contains(sep) {
                let k = choose|k: int| 0 <= k < shorter.len() && shorter[k] == sep;
                assert(b[k] == sep);
            }
        }
        split_append(a, sep, shorter);
        assert(s.drop_last() =~= a + seq![sep] + shorter);
        assert(s.last() == b[b.len() - 1]);
        assert(shorter.push(b.last()) =~= b);
        assert(split(a, sep).push(shorter).drop_last() =~= split(a, sep));
        assert(split(s, sep) =~= split(a, sep).push(b));
    }
}

/// Splitting undoes joining, where the separator is in none of the parts.
pub proof fn split_undoes_join(parts: Seq<Seq<char>>, sep: char)
    requires
        parts.len() > 0,
        forall|i: int| 0 <= i < parts.len() ==> !(#[trigger] parts[i]).contains(sep),
    ensures
        split(joined(parts, seq![sep]), sep) == parts,
    decreases parts.len(),
{
    if parts.len() == 1 {
        split_without_sep(parts[0], sep);
        assert(parts =~= seq![parts[0]]);
    } else {
        let fewer = parts.drop_last();
        assert(parts.last() == parts[parts.len() - 1]);
        split_undoes_join(fewer, sep);
        split_append(joined(fewer, seq![sep]), sep, parts.last());
        assert(fewer.push(parts.last()) =~= parts);
    }
}

/// Joining undoes splitting, and the separator is in none of the pieces.
pub proof fn join_undoes_split(s: Seq<char>, sep: char)
    ensures
        joined(split(s, sep), seq![sep]) == s,
        split(s, sep).len() > 0,
        forall|i: int| 0 <= i < split(s, sep).len() ==> !(#[trigger] split(s, sep)[i]).contains(
            sep,
        ),
    decreases s.len(),
{
    let pieces = split(s, sep);
    if s.len() == 0 {
        assert(pieces =~= seq![Seq::<char>::empty()]);
        assert(joined(pieces, seq![sep]) =~= s);
    } else {
        let before = s.drop_last();
        let earlier = split(before, sep);
        join_undoes_split(before, sep);
        assert(before.push(s.last()) =~= s);
        if s.last() == sep {
            assert(pieces =~= earlier.push(Seq::empty()));
            assert(pieces.drop_last() =~= earlier);
            assert(joined(pieces, seq![sep]) =~= s);
        } else {
            let last = earlier.last().push(s.last());
            assert(pieces =~= earlier.drop_last().push(last));
            assert(pieces.drop_last() =~= earlier.drop_last());
            assert forall|i: int| 0 <= i < pieces.len() implies !(#[trigger] pieces[i]).contains(
                sep,
            ) by {
                if i < earlier.len() - 1 {
                    assert(pieces[i] == earlier[i]);
                } else {
                    assert(!earlier[i].contains(sep));
                    if last.contains(sep) {
                        let k = choose|k: int| 0 <= k < last.len() && last[k] == sep;
                        assert(earlier[i][k] == sep);
                    }
                }
            }
            assert(joined(pieces, seq![sep]) =~= s);
        }
    }
}

/// Parts that are joined stand one after the other with the separator between them:
/// one part stands alone, and two lists that are joined separately have one separator
/// between them when they are joined together.
pub proof fn joined_parts_stand_in_order(
    a: Seq<Seq<char>>,
    b: Seq<Seq<char>>,
    part: Seq<char>,
    sep: Seq<char>,
)
    requires
        a.len() > 0,
        b.len() > 0,
    ensures
        joined(Seq::empty(), sep) == Seq::<char>::empty(),
        joined(seq![part], sep) == part,
        joined(a + b, sep) == joined(a, sep) + sep + joined(b, sep),
    decreases b.len(),
{
    let both = a + b;
    if b.len() == 1 {
        assert(both.drop_last() =~= a);
        assert(both.last() == b[0]);
        assert(joined(both, sep) =~= joined(a, sep) + sep + b[0]);
    } else {
        let fewer = b.drop_last();
        joined_parts_stand_in_order(a, fewer, part, sep);
        assert(both.drop_last() =~= a + fewer);
        assert(both.last() == b.last());
        assert(joined(both, sep) =~= joined(a, sep) + sep + joined(b, sep));
    }
}

/// The number that decimal digits stand for.
pub open spec fn decimal_value(s: Seq<char>) -> int
    decreases s.len(),
{
    if s.len() == 0 {
        0
    } else {
        10 * decimal_value(s.drop_last()) + (s.last() as int - '0' as int)
    }
}

/// A number in decimal is digits that stand for it, without a zero in front unless the
/// number is zero.
pub proof fn decimal_stands_for_the_number(n: nat)
    ensures
        decimal_value(decimal(n)) == n,
        decimal(n).len() > 0,
        forall|i: int| 0 <= i < decimal(n).len() ==> '0' <= #[trigger] decimal(n)[i] <= '9',
        decimal(n)[0] == '0' ==> n == 0,
    decreases n,
{
    if n < 10 {
        let s = decimal(n);
        assert(s.drop_last() =~= Seq::<char>::empty());
        assert(s.last() == digit(n));
        assert(decimal_value(s.drop_last()) == 0);
    } else {
        decimal_stands_for_the_number(n / 10);
        let before = decimal(n / 10);
        let s = decimal(n);
        assert(s.drop_last() =~= before);
        assert(s.last() == digit(n % 10));
        assert forall|i: int| 0 <= i < s.len() implies '0' <= #[trigger] s[i] <= '9' by {
            if i < before.len() {
                assert(s[i] == before[i]);
            }
        }
        assert(s[0] == before[0]);
    }
}

/// The number that a lower case hexadecimal digit stands for.
pub open spec fn hex_value(c: char) -> int {
    if '0' <= c <= '9' {
        c as int - '0' as int
    } else if 'a' <= c <= 'f' {
        c as int - 'a' as int + 10
    } else {
        -1
    }
}

/// Whether the digits at `2 * i` stand for the byte `b`.
pub open spec fn digits_at(h: Seq<char>, i: int, b: u8) -> bool {
    &&& hex_value(h[2 * i]) >= 0
    &&& hex_value(h[2 * i + 1]) >= 0
    &&& 16 * hex_value(h[2 * i]) + hex_value(h[2 * i + 1]) == b
}

/// Bytes in hexadecimal are two digits for each byte, in order, that stand for it.
pub proof fn hex_stands_for_the_bytes(bytes: Seq<u8>)
    ensures
        hex(bytes).len() == 2 * bytes.len(),
        forall|i: int| 0 <= i < bytes.len() ==> digits_at(hex(bytes), i, #[trigger] bytes[i]),
    decreases bytes.len(),
{
    if bytes.len() > 0 {
        let before = bytes.drop_last();
        hex_stands_for_the_bytes(before);
        let last = bytes.last() as nat;
        assert forall|i: int| 0 <= i < bytes.len() implies digits_at(
            hex(bytes),
            i,
            #[trigger] bytes[i],
        ) by {
            if i < before.len() {
                assert(before[i] == bytes[i]);
                assert(hex(bytes)[2 * i] == hex(before)[2 * i]);
                assert(hex(bytes)[2 * i + 1] == hex(before)[2 * i + 1]);
            } else {
                assert(hex(bytes)[2 * i] == hex_digit(last / 16));
                assert(hex(bytes)[2 * i + 1] == hex_digit(last % 16));
            }
        }
    }
}

/// Whether `a` and `b` agree before `n`, and `a` ends there or has the smaller character.
pub open spec fn less_from(a: Seq<char>, b: Seq<char>, n: int) -> bool {
    &&& 0 <= n <= a.len()
    &&& n < b.len()
    &&& a.take(n) == b.take(n)
    &&& n == a.len() || a[n] < b[n]
}

/// The order of texts is that of dictionaries, by the code points of the characters.
pub proof fn texts_are_ordered_like_words(a: Seq<char>, b: Seq<char>)
    ensures
        text_less(a, b) <==> exists|n: int| less_from(a, b, n),
    decreases a.len(),
{
    if b.len() == 0 {
    } else if a.len() == 0 {
        assert(a.take(0) =~= b.take(0));
        assert(less_from(a, b, 0));
    } else if a[0] == b[0] {
        let x = a.drop_first();
        let y = b.drop_first();
        texts_are_ordered_like_words(x, y);
        if exists|n: int| less_from(x, y, n) {
            let n = choose|n: int| less_from(x, y, n);
            assert(a.take(n + 1) =~= seq![a[0]] + x.take(n));
            assert(b.take(n + 1) =~= seq![b[0]] + y.take(n));
            assert(less_from(a, b, n + 1));
        }
        if exists|n: int| less_from(a, b, n) {
            let n = choose|n: int| less_from(a, b, n);
            assert(x.take(n - 1) =~= a.take(n).drop_first());
            assert(y.take(n - 1) =~= b.take(n).drop_first());
            assert(less_from(x, y, n - 1));
        }
    } else {
        assert(a.take(0) =~= b.take(0));
        if a[0] < b[0] {
            assert(less_from(a, b, 0));
        }
        if exists|n: int| less_from(a, b, n) {
            let n = choose|n: int| less_from(a, b, n);
            if n > 0 {
                assert(a.take(n)[0] == b.take(n)[0]);
            }
        }
    }
}

/// A list is shown in brackets, its texts quoted and with a comma and a space between.
pub proof fn lists_are_shown_in_brackets(parts: Seq<Seq<char>>, part: Seq<char>)
    requires
        parts.len() > 0,
    ensures
        debug_list_form(Seq::empty()) == "["@ + "]"@,
        debug_list_form(seq![part]) == "["@ + debug_form(part) + "]"@,
        debug_list_form(parts.push(part)) == debug_list_form(parts).drop_last() + ", "@
            + debug_form(part) + "]"@,
{
    reveal_strlit("]");
    let f = |p: Seq<char>| debug_form(p);
    assert(Seq::<Seq<char>>::empty().map_values(f) =~= Seq::empty());
    assert("["@ + Seq::<char>::empty() + "]"@ =~= "["@ + "]"@);
    assert(seq![part].map_values(f) =~= seq![debug_form(part)]);
    let all = parts.push(part).map_values(f);
    assert(all.drop_last() =~= parts.map_values(f));
    assert(all.last() == debug_form(part));
    assert(debug_list_form(parts).drop_last() =~= "["@ + joined(parts.map_values(f), ", "@));
    assert(debug_list_form(parts.push(part)) =~= debug_list_form(parts).drop_last() + ", "@
        + debug_form(part) + "]"@);
}

/// Lists of texts, and texts in lower case, are taken one by one.
pub proof fn texts_are_taken_one_by_one(parts: Seq<String>, s: Seq<char>)
    ensures
        texts(parts).len() == parts.len(),
        forall|i: int| 0 <= i < parts.len() ==> texts(parts)[i] == (#[trigger] parts[i])@,
        lowered(s).len() == s.len(),
        forall|i: int|
            #![trigger s[i]]
            0 <= i < s.len() ==> lowered(s)[i] == if 'A' <= s[i] <= 'Z' {
                (s[i] as u32 + 32) as char
            } else {
                s[i]
            },
{
}

/// The white space among the ASCII characters is the blank and the five from the tab to
/// the carriage return; beyond them it is the next line, the no-break space and the
/// blanks of other scripts.
pub proof fn blanks_are_white_space(c: char)
    ensures
        (c as u32) < 0x80 ==> (white_space(c) <==> c == ' ' || 0x09 <= (c as u32) <= 0x0d),
        0x80 <= (c as u32) < 0x1000 ==> (white_space(c) <==> c as u32 == 0x85 || c as u32
            == 0xa0),
        0x1000 <= (c as u32) ==> (white_space(c) <==> c as u32 == 0x1680 || 0x2000 <= (c as u32)
            <= 0x200a || 0x2028 <= (c as u32) <= 0x2029 || c as u32 == 0x202f || c as u32 == 0x205f
            || c as u32 == 0x3000),
{
}

/// The letters from `a` to `z` and those from `A` to `Z` are each other's case, in
/// alphabetical order; every other character has no case.
pub proof fn letters_have_two_cases(c: char)
    ensures
        'a' <= c <= 'z' ==> upper(c) as int - 'A' as int == c as int - 'a' as int && lower(c) == c,
        'A' <= c <= 'Z' ==> lower(c) as int - 'a' as int == c as int - 'A' as int && upper(c) == c,
        !('a' <= c <= 'z') && !('A' <= c <= 'Z') ==> upper(c) == c && lower(c) == c,
{
}

} // verus!
