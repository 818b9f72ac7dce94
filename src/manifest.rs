use vstd::prelude::*;
use crate::digest::push_char;
use vstd::std_specs::iter::IteratorSpec;

verus! {

broadcast use vstd::string::group_string_axioms;

/// Characters with the Unicode `White_Space` property.
pub open spec fn is_white_space(c: char) -> bool {
    ('\u{9}' <= c && c <= '\u{d}') || c == ' ' || c == '\u{85}' || c == '\u{a0}' || c
        == '\u{1680}' || ('\u{2000}' <= c && c <= '\u{200a}') || c == '\u{2028}' || c
        == '\u{2029}' || c == '\u{202f}' || c == '\u{205f}' || c == '\u{3000}'
}

/// Relies on char::is_whitespace: true exactly for `White_Space` characters.
#[verifier::external_body]
fn char_is_whitespace(c: char) -> (r: bool)
    ensures
        r == is_white_space(c),
{
    c.is_whitespace()
}

/// `s` without its leading white space.
pub open spec fn trim_start(s: Seq<char>) -> Seq<char>
    decreases s.len(),
{
    if s.len() > 0 && is_white_space(s[0]) {
        trim_start(s.drop_first())
    } else {
        s
    }
}

/// `s` without its trailing white space.
pub open spec fn trim_end(s: Seq<char>) -> Seq<char>
    decreases s.len(),
{
    if s.len() > 0 && is_white_space(s.last()) {
        trim_end(s.drop_last())
    } else {
        s
    }
}

/// `s` without white space at either end.
pub open spec fn trimmed(s: Seq<char>) -> Seq<char> {
    trim_end(trim_start(s))
}

/// The width of a digest in a manifest line.
pub const DIGEST_WIDTH: usize = 32;

/// A manifest line, trimmed, splits into its last thirty-two characters (the
/// digest), the character before them (a separator, dropped) and all that
/// comes before (the path). A line too short for that is malformed.
pub open spec fn parse_entry(line: Seq<char>) -> Option<(Seq<char>, Seq<char>)> {
    let t = trimmed(line);
    if t.len() < 33 {
        None
    } else {
        Some((t.subrange(0, t.len() - 33), t.subrange(t.len() - 32, t.len() as int)))
    }
}

/// The manifest line of one entry.
pub open spec fn entry_line(path: Seq<char>, digest: Seq<char>) -> Seq<char> {
    path + seq![' '] + digest
}

/// The manifest: the lines of the entries joined by newlines, with no
/// newline after the last.
pub open spec fn manifest_text(entries: Seq<(Seq<char>, Seq<char>)>) -> Seq<char>
    decreases entries.len(),
{
    if entries.len() == 0 {
        Seq::empty()
    } else if entries.len() == 1 {
        entry_line(entries[0].0, entries[0].1)
    } else {
        manifest_text(entries.drop_last()) + seq!['\n'] + entry_line(
            entries.last().0,
            entries.last().1,
        )
    }
}

/// A line without the carriage return that ends it, if any.
pub open spec fn strip_cr(l: Seq<char>) -> Seq<char> {
    if l.len() > 0 && l.last() == '\r' {
        l.drop_last()
    } else {
        l
    }
}

/// Reading `t` from the start: the lines ended by a newline so far, and the
/// characters read since the last newline.
pub open spec fn line_scan(t: Seq<char>) -> (Seq<Seq<char>>, Seq<char>)
    decreases t.len(),
{
    if t.len() == 0 {
        (Seq::empty(), Seq::empty())
    } else {
        let (done, cur) = line_scan(t.drop_last());
        if t.last() == '\n' {
            (done.push(strip_cr(cur)), Seq::empty())
        } else {
            (done, cur.push(t.last()))
        }
    }
}

/// The lines of a text: split at each newline, each without a carriage
/// return before its newline; a newline at the very end opens no further
/// line.
pub open spec fn text_lines(t: Seq<char>) -> Seq<Seq<char>> {
    let (done, cur) = line_scan(t);
    if cur.len() == 0 {
        done
    } else {
        done.push(strip_cr(cur))
    }
}

/// One (path, digest) record of a manifest, the digest as text.
pub struct ManifestEntry {
    pub path: String,
    pub digest: String,
}

impl ManifestEntry {
    pub open spec fn spec_pair(&self) -> (Seq<char>, Seq<char>) {
        (self.path@, self.digest@)
    }
}

/// The (path, digest) pairs of a list of entries.
pub open spec fn entry_pairs(entries: Seq<ManifestEntry>) -> Seq<(Seq<char>, Seq<char>)> {
    entries.map_values(|e: ManifestEntry| e.spec_pair())
}

fn str_to_string(s: &str) -> (r: String)
    ensures
        r@ == s@,
{
    String::from_str(s)
}

/// Removes white space from both ends of a line.
pub fn trim(line: &str) -> (r: String)
    ensures
        r@ == trimmed(line@),
{
    let n = line.unicode_len();
    let mut start: usize = 0;
    assert(line@.subrange(0, n as int) == line@);
    while start < n && char_is_whitespace(line.get_char(start))
        invariant
            start <= n == line@.len(),
            trim_start(line@) == trim_start(line@.subrange(start as int, n as int)),
        decreases n - start,
    {
        proof {
            let s = line@.subrange(start as int, n as int);
            assert(s.drop_first() == line@.subrange(start + 1, n as int));
        }
        start = start + 1;
    }
    proof {
        let s = line@.subrange(start as int, n as int);
        assert(trim_start(s) == s);
    }
    let mut end: usize = n;
    while end > start && char_is_whitespace(line.get_char(end - 1))
        invariant
            start <= end <= n == line@.len(),
            trim_start(line@) == line@.subrange(start as int, n as int),
            trimmed(line@) == trim_end(line@.subrange(start as int, end as int)),
        decreases end - start,
    {
        proof {
            let s = line@.subrange(start as int, end as int);
            assert(s.drop_last() == line@.subrange(start as int, end - 1));
        }
        end = end - 1;
    }
    str_to_string(line.substring_char(start, end))
}

/// Parses one manifest line; `None` when it is too short to hold a digest
/// and its separator.
pub fn parse_line(line: &str) -> (r: Option<ManifestEntry>)
    ensures
        r is None <==> parse_entry(line@) is None,
        r matches Some(e) ==> parse_entry(line@) == Some(e.spec_pair()),
{
    let t = trim(line);
    let s = t.as_str();
    let n = s.unicode_len();
    if n < DIGEST_WIDTH + 1 {
        None
    } else {
        let path = str_to_string(s.substring_char(0, n - (DIGEST_WIDTH + 1)));
        let digest = str_to_string(s.substring_char(n - DIGEST_WIDTH, n));
        Some(ManifestEntry { path, digest })
    }
}

/// Splits a manifest into its lines.
pub fn split_lines(text: &str) -> (r: Vec<String>)
    ensures
        r.deep_view() == text_lines(text@),
{
    let mut lines: Vec<String> = Vec::new();
    let mut cur = String::new();
    let mut pending_cr = false;
    let mut it = text.chars();
    let ghost mut k: int = 0;
    loop
        invariant
            0 <= k <= text@.len(),
            it.remaining() == text@.skip(k),
            line_scan(text@.take(k)).0 == lines.deep_view(),
            line_scan(text@.take(k)).1 == (if pending_cr {
                cur@.push('\r')
            } else {
                cur@
            }),
            !pending_cr ==> (cur@.len() == 0 || cur@.last() != '\r'),
        ensures
            k == text@.len(),
            line_scan(text@.take(k)).0 == lines.deep_view(),
            line_scan(text@.take(k)).1 == (if pending_cr {
                cur@.push('\r')
            } else {
                cur@
            }),
        decreases text@.len() - k,
    {
        match it.next() {
            Some(c) => {
                proof {
                    assert(text@.take(k + 1).drop_last() == text@.take(k));
                    assert(text@.skip(k)[0] == text@[k]);
                    assert(text@.skip(k).drop_first() == text@.skip(k + 1));
                }
                let ghost old_lines = lines.deep_view();
                let ghost raw = line_scan(text@.take(k)).1;
                if c == '\n' {
                    proof {
                        assert(strip_cr(raw) == cur@);
                    }
                    lines.push(cur);
                    assert(lines.deep_view() == old_lines.push(strip_cr(raw)));
                    cur = String::new();
                    pending_cr = false;
                } else {
                    if pending_cr {
                        push_char(&mut cur, '\r');
                    }
                    if c == '\r' {
                        pending_cr = true;
                    } else {
                        push_char(&mut cur, c);
                        pending_cr = false;
                    }
                }
                proof {
                    k = k + 1;
                }
            },
            None => {
                assert(text@.skip(k).len() == 0);
                break ;
            },
        }
    }
    proof {
        assert(text@.take(k) == text@);
    }
    let ghost raw = line_scan(text@).1;
    if pending_cr || cur.unicode_len() > 0 {
        proof {
            assert(strip_cr(raw) == cur@);
        }
        let ghost old_lines = lines.deep_view();
        lines.push(cur);
        assert(lines.deep_view() == old_lines.push(strip_cr(raw)));
    }
    lines
}

/// The (path, digest) pair of a parsed line, if it parsed.
pub open spec fn parsed_pair(o: Option<ManifestEntry>) -> Option<(Seq<char>, Seq<char>)> {
    match o {
        Some(e) => Some(e.spec_pair()),
        None => None,
    }
}

/// Parses a whole manifest, one result per line; `None` marks a malformed
/// line.
pub fn parse_manifest(text: &str) -> (r: Vec<Option<ManifestEntry>>)
    ensures
        r@.len() == text_lines(text@).len(),
        forall|i: int|
            0 <= i < r@.len() ==> parsed_pair(#[trigger] r@[i]) == parse_entry(text_lines(text@)[i]),
{
    let lines = split_lines(text);
    let mut out: Vec<Option<ManifestEntry>> = Vec::new();
    let mut i: usize = 0;
    while i < lines.len()
        invariant
            i <= lines.len(),
            lines.deep_view() == text_lines(text@),
            out@.len() == i,
            forall|j: int|
                0 <= j < i ==> parsed_pair(#[trigger] out@[j]) == parse_entry(text_lines(text@)[j]),
        decreases lines.len() - i,
    {
        let e = parse_line(lines[i].as_str());
        assert(lines[i as int]@ == text_lines(text@)[i as int]);
        out.push(e);
        i = i + 1;
    }
    out
}

} // verus!
