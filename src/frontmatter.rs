//! Locating the metadata block of a test file and reading it as YAML.

use vstd::prelude::*;
use yaml_rust::Yaml;
use crate::error::HarnessError;
use crate::yaml::{
    Node, YamlEvent, node_of, parse_yaml, load_documents, yaml_events, parser_view,
    depth_after, peak_depth, new_parser, next_event, MAX_NESTING_DEPTH,
};

verus! {

broadcast use vstd::string::group_string_axioms;

/// The marker that opens a metadata block.
pub open spec fn open_marker() -> Seq<char> {
    seq!['/', '*', '-', '-', '-']
}

/// The marker that closes a metadata block.
pub open spec fn close_marker() -> Seq<char> {
    seq!['-', '-', '-', '*', '/']
}

/// `m` occurs in `t` starting at index `i`.
pub open spec fn occurs_at(t: Seq<char>, m: Seq<char>, i: int) -> bool {
    0 <= i && i + m.len() <= t.len() && t.subrange(i, i + m.len()) == m
}

/// The first index at or after `i` where `m` occurs in `t`.
pub open spec fn find_from(t: Seq<char>, m: Seq<char>, i: int) -> Option<int>
    decreases t.len() + 1 - i,
{
    if i < 0 || i + m.len() > t.len() {
        None
    } else if occurs_at(t, m, i) {
        Some(i)
    } else {
        find_from(t, m, i + 1)
    }
}

/// The text between the first opening marker and the first closing marker
/// that follows it.
pub open spec fn block_of(t: Seq<char>) -> Option<Seq<char>> {
    match find_from(t, open_marker(), 0) {
        None => None,
        Some(o) => match find_from(t, close_marker(), o + open_marker().len()) {
            None => None,
            Some(c) => Some(t.subrange(o + open_marker().len(), c)),
        },
    }
}


/// `s` with each `\r\n` and each bare `\r` turned into `\n`.
pub open spec fn normalize_newlines(s: Seq<char>) -> Seq<char>
    decreases s.len(),
{
    if s.len() == 0 {
        s
    } else if s[0] == '\r' && s.len() >= 2 && s[1] == '\n' {
        seq!['\n'] + normalize_newlines(s.subrange(2, s.len() as int))
    } else if s[0] == '\r' {
        seq!['\n'] + normalize_newlines(s.drop_first())
    } else {
        seq![s[0]] + normalize_newlines(s.drop_first())
    }
}

/// `s` without its leading newlines.
pub open spec fn trim_start_newlines(s: Seq<char>) -> Seq<char>
    decreases s.len(),
{
    if s.len() > 0 && s[0] == '\n' {
        trim_start_newlines(s.drop_first())
    } else {
        s
    }
}

/// `s` without its trailing newlines.
pub open spec fn trim_end_newlines(s: Seq<char>) -> Seq<char>
    decreases s.len(),
{
    if s.len() > 0 && s.last() == '\n' {
        trim_end_newlines(s.drop_last())
    } else {
        s
    }
}

/// `s` without its leading and trailing newlines.
pub open spec fn trim_newlines(s: Seq<char>) -> Seq<char> {
    trim_end_newlines(trim_start_newlines(s))
}

/// The metadata that a test file's text carries: the first document of its
/// block, once line endings are normalized and outer newlines removed. A block
/// with more nesting marks than the loader is given is a `ParseError`.
pub open spec fn frontmatter_of(t: Seq<char>) -> Result<Node, HarnessError> {
    match block_of(t) {
        None => Err(HarnessError::MalformedInput),
        Some(b) => {
            let y = trim_newlines(normalize_newlines(b));
            if peak_depth(yaml_events(y)) > MAX_NESTING_DEPTH {
                Err(HarnessError::ParseError)
            } else {
                match parse_yaml(y) {
                    None => Err(HarnessError::ParseError),
                    Some(docs) => if docs.len() == 0 {
                        Err(HarnessError::ParseError)
                    } else {
                        Ok(docs[0])
                    },
                }
            }
        },
    }
}

/// What the search finds: the first occurrence at or after its start, or
/// none at all.
pub proof fn lemma_find_from_first(t: Seq<char>, m: Seq<char>, i: int)
    requires
        0 <= i,
    ensures
        match find_from(t, m, i) {
            Some(j) => i <= j && occurs_at(t, m, j) && forall|k: int| i <= k < j ==> !occurs_at(t, m, k),
            None => forall|k: int| i <= k ==> !occurs_at(t, m, k),
        },
    decreases t.len() + 1 - i,
{
    if !(i + m.len() > t.len()) && !occurs_at(t, m, i) {
        lemma_find_from_first(t, m, i + 1);
    }
}

/// An occurrence with none before it, from the start on, is what the search finds.
pub proof fn lemma_find_from_at(t: Seq<char>, m: Seq<char>, i: int, c: int)
    requires
        0 <= i <= c,
        occurs_at(t, m, c),
        forall|k: int| i <= k < c ==> !occurs_at(t, m, k),
    ensures
        find_from(t, m, i) == Some(c),
    decreases c - i,
{
    if i < c {
        lemma_find_from_at(t, m, i + 1, c);
    }
}

/// Reading the metadata of a text twice gives the same result: it depends on
/// the text alone.
pub proof fn lemma_extraction_repeatable(t1: Seq<char>, t2: Seq<char>)
    requires
        t1 == t2,
    ensures
        frontmatter_of(t1) == frontmatter_of(t2),
{
}

/// Wrapping the extracted block in the two markers again and extracting once
/// more yields the same block, and so the same metadata.
pub proof fn lemma_extraction_idempotent(t: Seq<char>)
    requires
        block_of(t) is Some,
    ensures
        block_of(open_marker() + block_of(t)->0 + close_marker()) == block_of(t),
        frontmatter_of(open_marker() + block_of(t)->0 + close_marker()) == frontmatter_of(t),
{
    let b = block_of(t)->0;
    let bl: int = b.len() as int;
    let u = open_marker() + b + close_marker();
    lemma_find_from_first(t, open_marker(), 0);
    let o = find_from(t, open_marker(), 0)->0;
    lemma_find_from_first(t, close_marker(), o + 5);
    let c = find_from(t, close_marker(), o + 5)->0;
    assert(u.subrange(0, 5) =~= open_marker());
    lemma_find_from_at(u, open_marker(), 0, 0);
    assert(b.len() == c - (o + 5));
    assert forall|k: int| 5 <= k < 5 + bl implies !occurs_at(u, close_marker(), k) by {
        assert(u.subrange(k, k + 5) =~= t.subrange(k + o, k + o + 5));
        assert(!occurs_at(t, close_marker(), k + o));
    }
    assert(u.subrange(5 + bl, 10 + bl) =~= close_marker());
    lemma_find_from_at(u, close_marker(), 5, 5 + bl);
    assert(u.subrange(5, 5 + bl) =~= b);
}

/// A text with no closing marker after an opening marker has no metadata
/// block: reading it fails with `MalformedInput`.
pub proof fn lemma_missing_close_is_malformed(t: Seq<char>)
    requires
        forall|o: int, c: int|
            occurs_at(t, open_marker(), o) && o + 5 <= c ==> !occurs_at(t, close_marker(), c),
    ensures
        block_of(t) is None,
        frontmatter_of(t) == Err::<Node, HarnessError>(HarnessError::MalformedInput),
{
    lemma_find_from_first(t, open_marker(), 0);
    if let Some(o) = find_from(t, open_marker(), 0) {
        lemma_find_from_first(t, close_marker(), o + 5);
    }
}

/// The characters of `s`, in order.
pub fn text_chars(s: &str) -> (r: Vec<char>)
    ensures
        r@ == s@,
{
    let mut v: Vec<char> = Vec::new();
    for c in it: s.chars()
        invariant
            v@ == it.seq().take(it.index()),
    {
        v.push(c);
    }
    v
}

/// Whether `m` occurs in `t` starting at index `i`.
pub fn marker_at(t: &Vec<char>, m: &Vec<char>, i: usize) -> (r: bool)
    ensures
        r == occurs_at(t@, m@, i as int),
{
    if i > t.len() || m.len() > t.len() - i {
        return false;
    }
    let mut j: usize = 0;
    while j < m.len()
        invariant
            j <= m.len(),
            i + m.len() <= t.len(),
            forall|k: int| 0 <= k < j ==> t@[i + k] == m@[k],
        decreases m.len() - j,
    {
        if t[i + j] != m[j] {
            assert(t@.subrange(i as int, i + m.len())[j as int] != m@[j as int]);
            return false;
        }
        j = j + 1;
    }
    assert(t@.subrange(i as int, i + m.len()) =~= m@);
    true
}

/// The first index at or after `from` where `m` occurs in `t`.
pub fn find_marker(t: &Vec<char>, m: &Vec<char>, from: usize) -> (r: Option<usize>)
    ensures
        match r {
            Some(i) => find_from(t@, m@, from as int) == Some(i as int),
            None => find_from(t@, m@, from as int) is None,
        },
{
    if m.len() > t.len() || from > t.len() - m.len() {
        return None;
    }
    let last: usize = t.len() - m.len();
    let mut i: usize = from;
    while i < last
        invariant
            from <= i <= last,
            last == t.len() - m.len(),
            m.len() <= t.len(),
            find_from(t@, m@, i as int) == find_from(t@, m@, from as int),
        decreases last - i,
    {
        if marker_at(t, m, i) {
            return Some(i);
        }
        i = i + 1;
    }
    if marker_at(t, m, last) {
        Some(last)
    } else {
        assert(find_from(t@, m@, last + 1) is None);
        None
    }
}


/// The characters of `s` from index `lo` up to `hi`.
fn copy_range(s: &Vec<char>, lo: usize, hi: usize) -> (r: Vec<char>)
    requires
        lo <= hi <= s.len(),
    ensures
        r@ == s@.subrange(lo as int, hi as int),
{
    let mut out: Vec<char> = Vec::new();
    let mut k: usize = lo;
    while k < hi
        invariant
            lo <= k <= hi <= s.len(),
            out@ == s@.subrange(lo as int, k as int),
        decreases hi - k,
    {
        out.push(s[k]);
        k = k + 1;
        assert(out@ =~= s@.subrange(lo as int, k as int));
    }
    out
}

/// The peak nesting of a run of events is at least that of any of its prefixes.
pub proof fn lemma_peak_of_prefix(evs: Seq<Option<YamlEvent>>, i: int)
    requires
        0 <= i <= evs.len(),
    ensures
        peak_depth(evs.take(i)) <= peak_depth(evs),
    decreases evs.len() - i,
{
    if i == evs.len() {
        assert(evs.take(i) =~= evs);
    } else {
        lemma_peak_of_prefix(evs.drop_last(), i);
        assert(evs.drop_last().take(i) =~= evs.take(i));
    }
}

/// Whether the sequences and mappings of `text`, as the YAML parser reads it,
/// never nest deeper than `limit`.
pub fn nesting_within(text: &Vec<char>, limit: usize) -> (r: bool)
    requires
        limit < usize::MAX,
    ensures
        r == (peak_depth(yaml_events(text@)) <= limit),
{
    let ghost evs = yaml_events(text@);
    let mut p = new_parser(text);
    let mut depth: usize = 0;
    loop
        invariant
            limit < usize::MAX,
            evs == yaml_events(text@),
            parser_view(p).0 == text@,
            parser_view(p).1 < evs.len(),
            depth == depth_after(evs.take(parser_view(p).1 as int)),
            peak_depth(evs.take(parser_view(p).1 as int)) <= limit,
            depth <= limit,
        decreases evs.len() - parser_view(p).1,
    {
        let ghost i = parser_view(p).1 as int;
        let r = next_event(&mut p);
        let ghost e = evs[i];
        assert(evs.take(i + 1).drop_last() =~= evs.take(i));
        assert(evs.take(i + 1).last() == e);
        let mut end = false;
        match r {
            Ok(YamlEvent::SequenceStart) | Ok(YamlEvent::MappingStart) => {
                depth = depth + 1;
            },
            Ok(YamlEvent::SequenceEnd) | Ok(YamlEvent::MappingEnd) => {
                if depth > 0 {
                    depth = depth - 1;
                }
            },
            Ok(YamlEvent::StreamEnd) => {
                end = true;
            },
            Ok(_) => {},
            Err(_) => {
                end = true;
            },
        }
        assert(depth == depth_after(evs.take(i + 1)));
        if depth > limit {
            proof {
                lemma_peak_of_prefix(evs, i + 1);
            }
            return false;
        }
        if end {
            assert(evs.take(i + 1) =~= evs);
            return true;
        }
    }
}

/// `s` with each `\r\n` and each bare `\r` turned into `\n`.
pub fn normalize_line_endings(s: &Vec<char>) -> (r: Vec<char>)
    ensures
        r@ == normalize_newlines(s@),
{
    let mut out: Vec<char> = Vec::new();
    let mut i: usize = 0;
    assert(s@.subrange(0, s.len() as int) =~= s@);
    assert(Seq::<char>::empty() + normalize_newlines(s@) =~= normalize_newlines(s@));
    while i < s.len()
        invariant
            i <= s.len(),
            out@ + normalize_newlines(s@.subrange(i as int, s.len() as int)) == normalize_newlines(s@),
        decreases s.len() - i,
    {
        let ghost rest = s@.subrange(i as int, s.len() as int);
        if s[i] == '\r' && i + 1 < s.len() && s[i + 1] == '\n' {
            assert(rest.subrange(2, rest.len() as int) =~= s@.subrange(i + 2, s.len() as int));
            out.push('\n');
            i = i + 2;
        } else {
            assert(rest.drop_first() =~= s@.subrange(i + 1, s.len() as int));
            if s[i] == '\r' {
                out.push('\n');
            } else {
                out.push(s[i]);
            }
            i = i + 1;
        }
        assert(out@ + normalize_newlines(s@.subrange(i as int, s.len() as int)) =~= normalize_newlines(s@));
    }
    assert(s@.subrange(i as int, s.len() as int) =~= Seq::<char>::empty());
    assert(out@ + Seq::<char>::empty() =~= out@);
    out
}

/// `s` without its leading and trailing newlines.
pub fn strip_newlines(s: &Vec<char>) -> (r: Vec<char>)
    ensures
        r@ == trim_newlines(s@),
{
    let n: usize = s.len();
    let mut lo: usize = 0;
    assert(s@.subrange(0, n as int) =~= s@);
    while lo < n && s[lo] == '\n'
        invariant
            lo <= n == s.len(),
            trim_start_newlines(s@.subrange(lo as int, n as int)) == trim_start_newlines(s@),
        decreases n - lo,
    {
        assert(s@.subrange(lo as int, n as int).drop_first() =~= s@.subrange(lo + 1, n as int));
        lo = lo + 1;
    }
    assert(trim_start_newlines(s@.subrange(lo as int, n as int)) == s@.subrange(lo as int, n as int));
    let mut hi: usize = n;
    while hi > lo && s[hi - 1] == '\n'
        invariant
            lo <= hi <= n == s.len(),
            trim_end_newlines(s@.subrange(lo as int, hi as int)) == trim_newlines(s@),
        decreases hi - lo,
    {
        assert(s@.subrange(lo as int, hi as int).drop_last() =~= s@.subrange(lo as int, hi - 1));
        hi = hi - 1;
    }
    copy_range(s, lo, hi)
}


/// Reads the metadata block of a test file's text: the text between the first
/// `/*---` and the first `---*/` after it, with line endings normalized and
/// outer newlines removed, parsed as YAML; its first document is returned.
/// A block whose sequences and mappings nest deeper than `MAX_NESTING_DEPTH`
/// is refused as a `ParseError` without being loaded.
pub fn extract_frontmatter(contents: &str) -> (r: Result<Yaml, HarnessError>)
    ensures
        match r {
            Ok(y) => frontmatter_of(contents@) == Ok::<Node, HarnessError>(node_of(y)),
            Err(e) => frontmatter_of(contents@) == Err::<Node, HarnessError>(e),
        },
{
    let text = text_chars(contents);
    let n: usize = text.len();
    let open: Vec<char> = vec!['/', '*', '-', '-', '-'];
    let close: Vec<char> = vec!['-', '-', '-', '*', '/'];
    assert(open@ =~= open_marker());
    assert(close@ =~= close_marker());
    let o = match find_marker(&text, &open, 0) {
        Some(o) => o,
        None => return Err(HarnessError::MalformedInput),
    };
    proof {
        lemma_find_from_first(text@, open@, 0);
        assert(occurs_at(text@, open@, o as int));
        assert(o + open@.len() <= n);
    }
    let start: usize = o + open.len();
    let c = match find_marker(&text, &close, start) {
        Some(c) => c,
        None => return Err(HarnessError::MalformedInput),
    };
    proof {
        lemma_find_from_first(text@, close@, start as int);
        assert(occurs_at(text@, close@, c as int));
    }
    let block = copy_range(&text, start, c);
    let normalized = normalize_line_endings(&block);
    let trimmed = strip_newlines(&normalized);
    if !nesting_within(&trimmed, MAX_NESTING_DEPTH) {
        return Err(HarnessError::ParseError);
    }
    match load_documents(&trimmed) {
        Err(_) => Err(HarnessError::ParseError),
        Ok(mut docs) => {
            if docs.len() == 0 {
                Err(HarnessError::ParseError)
            } else {
                let first = docs.remove(0);
                Ok(first)
            }
        },
    }
}

} // verus!
