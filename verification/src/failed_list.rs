//! The list of files that failed verification, as it is kept between runs.
use vstd::prelude::*;

use crate::manifest::{entries, paths, FileEntry};
use crate::text;
use crate::text::{
    is_text_less, joined, same, split, text_less, texts, trimmed,
};

verus! {

/// Name of the list in the output directory.
pub const FAILED_LIST: &'static str = "ftrans-failed.txt";

/// A set of manifest paths.
#[derive(Debug, PartialEq, Eq)]
pub struct PathSet {
    paths: Vec<String>,
}

impl View for PathSet {
    type V = Set<Seq<char>>;

    closed spec fn view(&self) -> Set<Seq<char>> {
        texts(self.paths@).to_set()
    }
}

/// The set that restricts an operation, if there is one.
pub open spec fn only_view(only: Option<&PathSet>) -> Option<Set<Seq<char>>> {
    match only {
        Some(set) => Some(set@),
        None => None,
    }
}

/// Whether an operation restricted to `only` touches the file at `path`.
pub open spec fn wanted(only: Option<Set<Seq<char>>>, path: Seq<char>) -> bool {
    match only {
        Some(set) => set.contains(path),
        None => true,
    }
}

/// `order` lists `set` in ascending order.
pub open spec fn lists_ascending(order: Seq<Seq<char>>, set: Set<Seq<char>>) -> bool {
    &&& forall|i: int, j: int| 0 <= i < j < order.len() ==> text_less(order[i], order[j])
    &&& order.to_set() == set
}

impl PathSet {
    #[verifier::type_invariant]
    closed spec fn no_path_twice(self) -> bool {
        texts(self.paths@).no_duplicates()
    }

    /// The empty set.
    pub fn new() -> (r: PathSet)
        ensures
            r@ == Set::<Seq<char>>::empty(),
    {
        let r = PathSet { paths: Vec::new() };
        assert(r@ =~= Set::<Seq<char>>::empty());
        r
    }

    /// The set with `path` in it too.
    pub fn with(self, path: String) -> (r: PathSet)
        ensures
            r@ == self@.insert(path@),
    {
        proof {
            use_type_invariant(&self);
        }
        if self.contains(path.as_str()) {
            assert(self@ =~= self@.insert(path@));
            return self;
        }
        let ghost before = texts(self.paths@);
        let mut paths = self.paths;
        paths.push(path);
        proof {
            let after = texts(paths@);
            assert(after =~= before.push(path@));
            push_to_set(before, path@);
            assert(after.no_duplicates()) by {
                assert(!before.contains(path@));
            }
        }
        PathSet { paths }
    }

    /// Whether `path` is in the set.
    pub fn contains(&self, path: &str) -> (r: bool)
        ensures
            r == self@.contains(path@),
    {
        let mut i: usize = 0;
        while i < self.paths.len()
            invariant
                i <= self.paths.len(),
                forall|k: int| 0 <= k < i ==> texts(self.paths@)[k] != path@,
            decreases self.paths.len() - i,
        {
            if same(self.paths[i].as_str(), path) {
                assert(texts(self.paths@)[i as int] == path@);
                return true;
            }
            i = i + 1;
        }
        false
    }

    /// Number of paths in the set.
    pub fn len(&self) -> (r: usize)
        ensures
            r == self@.len(),
    {
        proof {
            use_type_invariant(self);
            texts(self.paths@).unique_seq_to_set();
        }
        self.paths.len()
    }

    /// Whether there is no path in the set.
    pub fn is_empty(&self) -> (r: bool)
        ensures
            r == (self@ == Set::<Seq<char>>::empty()),
    {
        if self.paths.len() > 0 {
            assert(self@.contains(texts(self.paths@)[0]));
            false
        } else {
            assert(self@ =~= Set::<Seq<char>>::empty());
            true
        }
    }

    /// The paths in ascending order.
    pub fn sorted(&self) -> (r: Vec<String>)
        ensures
            lists_ascending(texts(r@), self@),
    {
        proof {
            use_type_invariant(self);
        }
        let mut r: Vec<String> = Vec::new();
        let mut i: usize = 0;
        let ghost all = texts(self.paths@);
        assert(texts(r@).to_set() =~= all.take(0).to_set());
        while i < self.paths.len()
            invariant
                i <= self.paths.len(),
                all == texts(self.paths@),
                all.no_duplicates(),
                lists_ascending(texts(r@), all.take(i as int).to_set()),
            decreases self.paths.len() - i,
        {
            let path = self.paths[i].clone();
            proof {
                let done = all.take(i as int);
                if done.contains(path@) {
                    let k = choose|k: int| 0 <= k < done.len() && done[k] == path@;
                    assert(all[k] == all[i as int]);
                }
            }
            r = insert_ascending(r, path);
            proof {
                assert(all.take(i + 1) =~= all.take(i as int).push(path@));
                push_to_set(all.take(i as int), path@);
            }
            i = i + 1;
        }
        assert(all.take(i as int) =~= all);
        r
    }
}

/// Appending a text adds it to the set of texts.
pub proof fn push_to_set(a: Seq<Seq<char>>, x: Seq<char>)
    ensures
        a.push(x).to_set() == a.to_set().insert(x),
{
    let b = a.push(x);
    assert forall|y: Seq<char>| b.to_set().contains(y) <==> a.to_set().insert(x).contains(y) by {
        if b.contains(y) {
            let i = choose|i: int| 0 <= i < b.len() && b[i] == y;
            if i < a.len() {
                assert(a[i] == y);
            }
        }
        if a.contains(y) {
            let i = choose|i: int| 0 <= i < a.len() && a[i] == y;
            assert(b[i] == y);
        }
        assert(b[a.len() as int] == x);
    }
    assert(b.to_set() =~= a.to_set().insert(x));
}

/// Put `path` in its place in an ascending list that does not hold it.
fn insert_ascending(list: Vec<String>, path: String) -> (r: Vec<String>)
    requires
        lists_ascending(texts(list@), texts(list@).to_set()),
        !texts(list@).to_set().contains(path@),
    ensures
        lists_ascending(texts(r@), texts(list@).to_set().insert(path@)),
{
    let ghost before = texts(list@);
    let mut at: usize = 0;
    while at < list.len() && is_text_less(list[at].as_str(), path.as_str())
        invariant
            at <= list.len(),
            before == texts(list@),
            forall|k: int| 0 <= k < at ==> text_less(before[k], path@),
        decreases list.len() - at,
    {
        at = at + 1;
    }
    let mut r = list;
    r.insert(at, path);
    proof {
        let after = texts(r@);
        assert(after =~= before.insert(at as int, path@));
        if at < before.len() {
            assert(before[at as int] != path@) by {
                assert(before.contains(before[at as int]));
            }
            text::text_less_total(path@, before[at as int]);
        }
        assert forall|i: int, j: int| 0 <= i < j < after.len() implies text_less(
            after[i],
            after[j],
        ) by {
            if i < at && j == at {
            } else if i == at {
                if j > at + 1 {
                    assert(text_less(before[at as int], before[j - 1]));
                    text::text_less_transitive(path@, before[at as int], before[j - 1]);
                }
            } else if i < at && j > at {
                assert(text_less(before[i], before[j - 1]));
            } else if i > at {
                assert(text_less(before[i - 1], before[j - 1]));
            } else {
                assert(text_less(before[i], before[j]));
            }
        }
        assert forall|x: Seq<char>| after.to_set().contains(x) <==> before.to_set().insert(
            path@,
        ).contains(x) by {
            if after.contains(x) {
                let k = choose|k: int| 0 <= k < after.len() && after[k] == x;
                if k < at {
                    assert(before[k] == x);
                } else if k > at {
                    assert(before[k - 1] == x);
                }
            }
            if before.contains(x) {
                let k = choose|k: int| 0 <= k < before.len() && before[k] == x;
                if k < at {
                    assert(after[k] == x);
                } else {
                    assert(after[k + 1] == x);
                }
            }
            assert(after[at as int] == path@);
        }
        assert(after.to_set() =~= before.to_set().insert(path@));
    }
    r
}

/// The path that a line of a failed-file list names: the line itself where that is a
/// known path, or else the line without surrounding white space. A blank line names
/// nothing.
pub open spec fn line_path(line: Seq<char>, known: Seq<Seq<char>>) -> Option<Seq<char>> {
    if known.contains(line) {
        Some(line)
    } else if trimmed(line).len() == 0 {
        None
    } else {
        Some(trimmed(line))
    }
}

/// The paths that lines of a failed-file list name.
pub open spec fn named(lines: Seq<Seq<char>>, known: Seq<Seq<char>>) -> Set<Seq<char>> {
    lines.filter_map(|line: Seq<char>| line_path(line, known)).to_set()
}

/// The paths that a failed-file list names, line by line.
pub open spec fn listed(content: Seq<char>, known: Seq<Seq<char>>) -> Set<Seq<char>> {
    named(split(content, '\n'), known)
}

/// The contents of a failed-file list: one path per line.
pub open spec fn list_text(paths: Seq<Seq<char>>) -> Seq<char> {
    joined(paths, "\n"@)
}

proof fn named_push(lines: Seq<Seq<char>>, line: Seq<char>, known: Seq<Seq<char>>)
    ensures
        named(lines.push(line), known) == match line_path(line, known) {
            Some(path) => named(lines, known).insert(path),
            None => named(lines, known),
        },
{
    reveal(Seq::filter_map);
    let f = |line: Seq<char>| line_path(line, known);
    assert(lines.push(line).drop_last() =~= lines);
    assert(lines.push(line).last() == line);
    match line_path(line, known) {
        Some(path) => {
            assert(lines.push(line).filter_map(f) =~= lines.filter_map(f).push(path));
            push_to_set(lines.filter_map(f), path);
        },
        None => {
            assert(lines.push(line).filter_map(f) =~= lines.filter_map(f));
        },
    }
}

/// Whether a manifest has an entry at `path`.
fn is_known(known: &Vec<FileEntry>, path: &str) -> (r: bool)
    ensures
        r == paths(entries(known@)).contains(path@),
{
    let ghost all = paths(entries(known@));
    let mut i: usize = 0;
    while i < known.len()
        invariant
            i <= known.len(),
            all == paths(entries(known@)),
            forall|k: int| 0 <= k < i ==> all[k] != path@,
        decreases known.len() - i,
    {
        if same(known[i].path.as_str(), path) {
            assert(all[i as int] == path@);
            return true;
        }
        assert(all[i as int] != path@);
        i = i + 1;
    }
    false
}

/// Add what one line of a failed-file list names.
fn add_line(
    set: PathSet,
    line: &str,
    known: &Vec<FileEntry>,
    Ghost(lines): Ghost<Seq<Seq<char>>>,
) -> (r: PathSet)
    requires
        set@ == named(lines, paths(entries(known@))),
    ensures
        r@ == named(lines.push(line@), paths(entries(known@))),
{
    proof {
        named_push(lines, line@, paths(entries(known@)));
    }
    if is_known(known, line) {
        return set.with(line.to_owned());
    }
    let path = text::trim(line);
    if path.as_str().is_empty() {
        set
    } else {
        set.with(path)
    }
}

/// The paths that a failed-file list names, for a transfer with the given manifest
/// entries.
pub fn parse_failed_list(content: &str, known: &Vec<FileEntry>) -> (r: PathSet)
    ensures
        r@ == listed(content@, paths(entries(known@))),
{
    let ghost all = paths(entries(known@));
    let chars = text::chars_of(content);
    let mut set = PathSet::new();
    let mut line = String::new();
    let ghost mut lines: Seq<Seq<char>> = Seq::empty();
    let mut i: usize = 0;
    proof {
        reveal(Seq::filter_map);
        assert(lines.filter_map(|line: Seq<char>| line_path(line, all)).len() == 0);
        assert(set@ =~= named(lines, all));
        assert(split(content@.take(0), '\n') =~= lines.push(line@));
    }
    while i < chars.len()
        invariant
            i <= chars.len(),
            chars@ == content@,
            all == paths(entries(known@)),
            split(content@.take(i as int), '\n') == lines.push(line@),
            set@ == named(lines, all),
        decreases chars.len() - i,
    {
        let c = chars[i];
        proof {
            assert(content@.take(i + 1).drop_last() =~= content@.take(i as int));
            assert(content@.take(i + 1).last() == c);
            assert(lines.push(line@).drop_last() =~= lines);
        }
        if c == '\n' {
            set = add_line(set, line.as_str(), known, Ghost(lines));
            proof {
                lines = lines.push(line@);
            }
            line = String::new();
            assert(split(content@.take(i + 1), '\n') =~= lines.push(line@));
        } else {
            line.push(c);
            assert(split(content@.take(i + 1), '\n') =~= lines.push(line@));
        }
        i = i + 1;
    }
    assert(content@.take(i as int) =~= content@);
    add_line(set, line.as_str(), known, Ghost(lines))
}

/// Whether a path fits on a line. One with a line break in it cannot be told from two
/// paths when the list is read again.
pub open spec fn one_line(path: Seq<char>) -> bool {
    !path.contains('\n')
}

/// Whether every path fits on a line.
pub open spec fn can_list(failed: Seq<Seq<char>>) -> bool {
    forall|i: int| 0 <= i < failed.len() ==> one_line(#[trigger] failed[i])
}

/// The lines that announce which files are retried.
pub open spec fn listing_text(order: Seq<Seq<char>>) -> Seq<char>
    decreases order.len(),
{
    if order.len() == 0 {
        "Retrying these file(s):"@
    } else {
        listing_text(order.drop_last()) + "\n  - "@ + order.last()
    }
}

/// The list of files being retried (sorted for readability).
pub fn retried_listing(files: &PathSet) -> (r: String)
    ensures
        exists|order: Seq<Seq<char>>|
            lists_ascending(order, files@) && r@ == listing_text(order),
{
    let sorted = files.sorted();
    let ghost order = texts(sorted@);
    let mut r: String = "Retrying these file(s):".to_owned();
    assert(order.take(0).len() == 0);
    let mut i: usize = 0;
    while i < sorted.len()
        invariant
            i <= sorted.len(),
            order == texts(sorted@),
            r@ == listing_text(order.take(i as int)),
        decreases sorted.len() - i,
    {
        r.append("\n  - ");
        r.append(sorted[i].as_str());
        proof {
            assert(order.take(i + 1).drop_last() =~= order.take(i as int));
        }
        i = i + 1;
    }
    assert(order.take(i as int) =~= order);
    r
}

/// A set has one ascending order, so the listing is determined by the set.
pub proof fn ascending_order_is_unique(
    a: Seq<Seq<char>>,
    b: Seq<Seq<char>>,
    set: Set<Seq<char>>,
)
    requires
        lists_ascending(a, set),
        lists_ascending(b, set),
    ensures
        a == b,
    decreases a.len(),
{
    if a.len() == 0 || b.len() == 0 {
        if a.len() > 0 {
            assert(a.to_set().contains(a[0]));
            assert(b.contains(a[0]));
        }
        if b.len() > 0 {
            assert(b.to_set().contains(b[0]));
            assert(a.contains(b[0]));
        }
        assert(a =~= b);
    } else {
        first_is_same(a, b, set);
        ascending_rest(a, set);
        ascending_rest(b, set);
        ascending_order_is_unique(a.drop_first(), b.drop_first(), set.remove(a[0]));
        assert(a =~= seq![a[0]] + a.drop_first());
        assert(b =~= seq![b[0]] + b.drop_first());
    }
}

proof fn first_is_same(a: Seq<Seq<char>>, b: Seq<Seq<char>>, set: Set<Seq<char>>)
    requires
        lists_ascending(a, set),
        lists_ascending(b, set),
        a.len() > 0,
        b.len() > 0,
    ensures
        a[0] == b[0],
{
    assert(a.to_set().contains(a[0]));
    assert(b.to_set().contains(b[0]));
    let k = choose|k: int| 0 <= k < b.len() && b[k] == a[0];
    let m = choose|m: int| 0 <= m < a.len() && a[m] == b[0];
    if k > 0 && m > 0 {
        assert(text_less(b[0], b[k]));
        assert(text_less(a[0], a[m]));
        text::text_less_transitive(a[0], b[0], a[0]);
        text::text_less_irreflexive(a[0]);
    }
}

proof fn ascending_rest(a: Seq<Seq<char>>, set: Set<Seq<char>>)
    requires
        lists_ascending(a, set),
        a.len() > 0,
    ensures
        lists_ascending(a.drop_first(), set.remove(a[0])),
{
    let rest = a.drop_first();
    assert forall|x: Seq<char>| rest.to_set().contains(x) <==> set.remove(a[0]).contains(x) by {
        if rest.contains(x) {
            let k = choose|k: int| 0 <= k < rest.len() && rest[k] == x;
            assert(a[k + 1] == x);
            assert(a.to_set().contains(x));
            assert(text_less(a[0], a[k + 1]));
            text::text_less_irreflexive(a[0]);
        }
        if set.remove(a[0]).contains(x) {
            assert(a.to_set().contains(x));
            let k = choose|k: int| 0 <= k < a.len() && a[k] == x;
            assert(rest[k - 1] == x);
        }
    }
    assert(rest.to_set() =~= set.remove(a[0]));
    assert forall|i: int, j: int| 0 <= i < j < rest.len() implies text_less(rest[i], rest[j]) by {
        assert(text_less(a[i + 1], a[j + 1]));
    }
}

proof fn split_without_sep(s: Seq<char>, sep: char)
    requires
        !s.contains(sep),
    ensures
        split(s, sep) == seq![s],
    decreases s.len(),
{
    if s.len() > 0 {
        let before = s.drop_last();
        assert(!before.contains(sep)) by {
            if before.contains(sep) {
                let k = choose|k: int| 0 <= k < before.len() && before[k] == sep;
                assert(s[k] == sep);
            }
        }
        split_without_sep(before, sep);
        assert(s.last() == s[s.len() - 1]);
        assert(before.push(s.last()) =~= s);
        assert(split(s, sep) =~= seq![s]);
    } else {
        assert(s =~= Seq::<char>::empty());
        assert(split(s, sep) =~= seq![s]);
    }
}

proof fn split_append(a: Seq<char>, sep: char, b: Seq<char>)
    requires
        !b.contains(sep),
    ensures
        split(a + seq![sep] + b, sep) == split(a, sep).push(b),
    decreases b.len(),
{
    let s = a + seq![sep] + b;
    if b.len() == 0 {
        assert(s.drop_last() =~= a);
        assert(b =~= Seq::<char>::empty());
        assert(split(s, sep) =~= split(a, sep).push(b));
    } else {
        let shorter = b.drop_last();
        assert(!shorter.contains(sep)) by {
            if shorter.contains(sep) {
                let k = choose|k: int| 0 <= k < shorter.len() && shorter[k] == sep;
                assert(b[k] == sep);
            }
        }
        split_append(a, sep, shorter);
        assert(s.drop_last() =~= a + seq![sep] + shorter);
        assert(s.last() == b[b.len() - 1]);
        assert(shorter.push(b.last()) =~= b);
        assert(split(a, sep).push(shorter).drop_last() =~= split(a, sep));
        assert(split(s, sep) =~= split(a, sep).push(b));
    }
}

proof fn split_after_join(paths: Seq<Seq<char>>)
    requires
        paths.len() > 0,
        forall|i: int| 0 <= i < paths.len() ==> !(#[trigger] paths[i]).contains('\n'),
    ensures
        split(list_text(paths), '\n') == paths,
    decreases paths.len(),
{
    reveal_strlit("\n");
    assert("\n"@ =~= seq!['\n']);
    if paths.len() == 1 {
        split_without_sep(paths[0], '\n');
        assert(paths =~= seq![paths[0]]);
    } else {
        let fewer = paths.drop_last();
        assert(paths.last() == paths[paths.len() - 1]);
        split_after_join(fewer);
        split_append(list_text(fewer), '\n', paths.last());
        assert(fewer.push(paths.last()) =~= paths);
    }
}

/// The list written after a failed verification names, when it is read again,
/// exactly the files that failed.
pub proof fn listed_after_list_text(failed: Seq<Seq<char>>, known: Seq<Seq<char>>)
    requires
        failed.len() > 0,
        can_list(failed),
        forall|i: int| 0 <= i < failed.len() ==> known.contains(#[trigger] failed[i]),
    ensures
        listed(list_text(failed), known) == failed.to_set(),
{
    split_after_join(failed);
    known_lines_name_themselves(failed, known);
}

proof fn known_lines_name_themselves(lines: Seq<Seq<char>>, known: Seq<Seq<char>>)
    requires
        forall|i: int| 0 <= i < lines.len() ==> known.contains(#[trigger] lines[i]),
    ensures
        named(lines, known) == lines.to_set(),
    decreases lines.len(),
{
    if lines.len() == 0 {
        reveal(Seq::filter_map);
        assert(lines.filter_map(|line: Seq<char>| line_path(line, known)).len() == 0);
        assert(named(lines, known) =~= lines.to_set());
    } else {
        let fewer = lines.drop_last();
        assert forall|i: int| 0 <= i < fewer.len() implies known.contains(#[trigger] fewer[i]) by {
            assert(known.contains(lines[i]));
        }
        known_lines_name_themselves(fewer, known);
        named_push(fewer, lines.last(), known);
        push_to_set(fewer, lines.last());
        assert(known.contains(lines[lines.len() - 1]));
        assert(fewer.push(lines.last()) =~= lines);
    }
}

/// Whether a line names `path`: the line is the path and known, or it is not known and
/// the path is what is left of it without the white space around it, which is something.
pub open spec fn line_names(line: Seq<char>, known: Seq<Seq<char>>, path: Seq<char>) -> bool {
    ||| known.contains(line) && path == line
    ||| !known.contains(line) && path == trimmed(line) && path.len() > 0
}

/// A failed-file list names a path if and only if one of its lines does.
pub proof fn list_names_what_its_lines_name(
    content: Seq<char>,
    known: Seq<Seq<char>>,
    path: Seq<char>,
)
    ensures
        listed(content, known).contains(path) <==> exists|k: int|
            0 <= k < split(content, '\n').len() && line_names(
                #[trigger] split(content, '\n')[k],
                known,
                path,
            ),
{
    some_line_names(split(content, '\n'), known, path);
}

proof fn some_line_names(lines: Seq<Seq<char>>, known: Seq<Seq<char>>, path: Seq<char>)
    ensures
        named(lines, known).contains(path) <==> exists|k: int|
            0 <= k < lines.len() && line_names(#[trigger] lines[k], known, path),
    decreases lines.len(),
{
    if lines.len() == 0 {
        reveal(Seq::filter_map);
        assert(lines.filter_map(|line: Seq<char>| line_path(line, known)).len() == 0);
    } else {
        let fewer = lines.drop_last();
        let n = lines.len() - 1;
        some_line_names(fewer, known, path);
        named_push(fewer, lines.last(), known);
        assert(fewer.push(lines.last()) =~= lines);
        assert(line_names(lines[n], known, path) <==> line_path(lines[n], known) == Some(path));
        if exists|k: int| 0 <= k < fewer.len() && line_names(#[trigger] fewer[k], known, path) {
            let k = choose|k: int|
                0 <= k < fewer.len() && line_names(#[trigger] fewer[k], known, path);
            assert(line_names(lines[k], known, path));
        }
        if exists|k: int| 0 <= k < lines.len() && line_names(#[trigger] lines[k], known, path) {
            let k = choose|k: int|
                0 <= k < lines.len() && line_names(#[trigger] lines[k], known, path);
            if k < n {
                assert(line_names(fewer[k], known, path));
            }
        }
    }
}

/// Without a restriction every file is wanted; with one, just the files in it.
pub proof fn wanted_is_what_was_asked_for(only: Option<Set<Seq<char>>>, path: Seq<char>)
    ensures
        wanted(only, path) <==> only is None || only->0.contains(path),
{
}

/// A listing has a line for each file, after those of the files before it.
pub proof fn listing_has_a_line_for_each_file(order: Seq<Seq<char>>, path: Seq<char>)
    ensures
        listing_text(Seq::empty()) == "Retrying these file(s):"@,
        listing_text(order.push(path)) == listing_text(order) + "\n  - "@ + path,
{
    assert(order.push(path).drop_last() =~= order);
}

/// A failed-file list has its paths in order, with a line break between.
pub proof fn list_has_a_line_for_each_path(failed: Seq<Seq<char>>, path: Seq<char>)
    ensures
        list_text(Seq::empty()) == Seq::<char>::empty(),
        list_text(seq![path]) == path,
        failed.len() > 0 ==> list_text(failed.push(path)) == list_text(failed) + seq!['\n'] + path,
{
    reveal_strlit("\n");
    assert("\n"@ =~= seq!['\n']);
    if failed.len() > 0 {
        text::joined_parts_stand_in_order(failed, seq![path], path, "\n"@);
        assert(failed.push(path) =~= failed + seq![path]);
    }
}

/// An ascending listing holds each path of the set once, smaller ones first.
pub proof fn ascending_means_smaller_first(order: Seq<Seq<char>>, set: Set<Seq<char>>)
    ensures
        lists_ascending(order, set) <==> {
            &&& forall|p: Seq<char>| #[trigger] set.contains(p) <==> order.contains(p)
            &&& forall|i: int, j: int|
                0 <= i < j < order.len() ==> text_less(#[trigger] order[i], #[trigger] order[j])
        },
{
    if lists_ascending(order, set) {
        assert forall|p: Seq<char>| #[trigger] set.contains(p) <==> order.contains(p) by {
            assert(order.to_set().contains(p) <==> order.contains(p));
        }
    }
    if (forall|p: Seq<char>| #[trigger] set.contains(p) <==> order.contains(p)) {
        assert(order.to_set() =~= set);
    }
}

/// Paths can be kept in a list if and only if none of them has a line break in it.
pub proof fn paths_without_line_breaks_can_be_listed(failed: Seq<Seq<char>>)
    ensures
        can_list(failed) <==> forall|i: int, k: int|
            0 <= i < failed.len() && 0 <= k < failed[i].len() ==> #[trigger] failed[i][k] != '\n',
{
    if can_list(failed) {
        assert forall|i: int, k: int|
            0 <= i < failed.len() && 0 <= k < failed[i].len() implies #[trigger] failed[i][k]
            != '\n' by {
            assert(one_line(failed[i]));
        }
    } else {
        let i = choose|i: int| 0 <= i < failed.len() && !one_line(#[trigger] failed[i]);
        let k = choose|k: int| 0 <= k < failed[i].len() && failed[i][k] == '\n';
        assert(failed[i][k] == '\n');
    }
}

/// A restriction stands in the laws for the set that it is.
pub proof fn restrictions_are_their_sets(set: &PathSet)
    ensures
        only_view(None) is None,
        only_view(Some(set)) == Some(set@),
{
}

} // verus!
