//! Reading the distribution fields out of an os-release file's text.
use crate::text::{
    chars_of, is_white_space, lower_of, lowercase, text_eq, trim_quote_range, trim_quotes,
    trim_white, trim_white_range, unicode_white_space,
};
use crate::types::{OsReleaseInfo, OsReleaseView};
use vstd::prelude::*;

verus! {

/// The index of the first `c` in `s` at or after `i`, or `s.len()`.
pub open spec fn next_char(s: Seq<char>, i: int, c: char) -> int
    decreases s.len() - i,
{
    if i >= s.len() {
        s.len() as int
    } else if s[i] == c {
        i
    } else {
        next_char(s, i + 1, c)
    }
}

/// The index of the first white space in `s` at or after `i`, or `s.len()`.
pub open spec fn next_white(s: Seq<char>, i: int) -> int
    decreases s.len() - i,
{
    if i >= s.len() {
        s.len() as int
    } else if unicode_white_space(s[i]) {
        i
    } else {
        next_white(s, i + 1)
    }
}

proof fn lemma_next_char_bounds(s: Seq<char>, i: int, c: char)
    requires
        0 <= i <= s.len(),
    ensures
        i <= next_char(s, i, c) <= s.len(),
        next_char(s, i, c) < s.len() ==> s[next_char(s, i, c)] == c,
    decreases s.len() - i,
{
    if i < s.len() && s[i] != c {
        lemma_next_char_bounds(s, i + 1, c);
    }
}

proof fn lemma_next_white_bounds(s: Seq<char>, i: int)
    requires
        0 <= i <= s.len(),
    ensures
        i <= next_white(s, i) <= s.len(),
        i < s.len() && !unicode_white_space(s[i]) ==> i < next_white(s, i),
    decreases s.len() - i,
{
    if i < s.len() && !unicode_white_space(s[i]) {
        lemma_next_white_bounds(s, i + 1);
    }
}

/// The white-space separated words of `s` from `i` on, each lowercased, the
/// empty ones left out: `split_whitespace`, then `to_lowercase`, then a
/// filter on empty words.
pub open spec fn lowered_words(s: Seq<char>, i: int) -> Seq<Seq<char>>
    decreases s.len() - i via lowered_words_decreases
{
    if i < 0 || i >= s.len() {
        seq![]
    } else if unicode_white_space(s[i]) {
        lowered_words(s, i + 1)
    } else {
        let e = next_white(s, i);
        let w = lower_of(s.subrange(i, e));
        if w.len() > 0 {
            seq![w] + lowered_words(s, e)
        } else {
            lowered_words(s, e)
        }
    }
}

#[via_fn]
proof fn lowered_words_decreases(s: Seq<char>, i: int) {
    if 0 <= i < s.len() {
        lemma_next_white_bounds(s, i);
    }
}

/// The fields with nothing known.
pub open spec fn empty_release() -> OsReleaseView {
    OsReleaseView { id: seq![], id_like: seq![], version_id: seq![] }
}

/// `line` without a `\r` that ends it.
pub open spec fn strip_cr(line: Seq<char>) -> Seq<char> {
    if line.len() > 0 && line.last() == '\r' {
        line.drop_last()
    } else {
        line
    }
}

/// The fields after reading one line: `KEY=VALUE`, the key trimmed and
/// matched without regard to case, the value stripped of surrounding `"`.
/// Empty lines, lines without `=` and unknown keys change nothing.
pub open spec fn apply_line(acc: OsReleaseView, line: Seq<char>) -> OsReleaseView {
    let q = next_char(line, 0, '=');
    if line.len() == 0 || q >= line.len() {
        acc
    } else {
        let key = lower_of(trim_white(line.take(q)));
        let value = trim_quotes(line.skip(q + 1));
        if key == "id"@ {
            OsReleaseView { id: value, id_like: acc.id_like, version_id: acc.version_id }
        } else if key == "id_like"@ {
            OsReleaseView { id: acc.id, id_like: lowered_words(value, 0), version_id: acc.version_id }
        } else if key == "version_id"@ {
            OsReleaseView { id: acc.id, id_like: acc.id_like, version_id: value }
        } else {
            acc
        }
    }
}

/// The fields after reading the lines of `s` from position `i` on, starting
/// from `acc`. Lines end at `\n`, and a `\r` before the `\n` belongs to the
/// line ending, as with `str::lines`.
pub open spec fn parse_from(s: Seq<char>, i: int, acc: OsReleaseView) -> OsReleaseView
    decreases s.len() - i via parse_from_decreases
{
    if i < 0 || i > s.len() {
        acc
    } else {
        let e = next_char(s, i, '\n');
        if e < s.len() {
            parse_from(s, e + 1, apply_line(acc, strip_cr(s.subrange(i, e))))
        } else {
            apply_line(acc, s.subrange(i, s.len() as int))
        }
    }
}

#[via_fn]
proof fn parse_from_decreases(s: Seq<char>, i: int, acc: OsReleaseView) {
    if 0 <= i <= s.len() {
        lemma_next_char_bounds(s, i, '\n');
    }
}

/// The fields that the text of an os-release file gives.
pub open spec fn os_release_of(contents: Seq<char>) -> OsReleaseView {
    parse_from(contents, 0, empty_release())
}

/// The index of the first `c` in `cs` at or after `i`, or its length.
fn find_char(cs: &Vec<char>, i: usize, c: char) -> (r: usize)
    requires
        i <= cs@.len(),
    ensures
        r == next_char(cs@, i as int, c),
{
    let mut j: usize = i;
    while j < cs.len() && cs[j] != c
        invariant
            i <= j <= cs@.len(),
            next_char(cs@, i as int, c) == next_char(cs@, j as int, c),
        decreases cs@.len() - j,
    {
        j = j + 1;
    }
    j
}

/// The index of the first white space in `cs` at or after `i`, or its length.
fn find_white(cs: &Vec<char>, i: usize) -> (r: usize)
    requires
        i <= cs@.len(),
    ensures
        r == next_white(cs@, i as int),
{
    let mut j: usize = i;
    while j < cs.len() && !is_white_space(cs[j])
        invariant
            i <= j <= cs@.len(),
            next_white(cs@, i as int) == next_white(cs@, j as int),
        decreases cs@.len() - j,
    {
        j = j + 1;
    }
    j
}

/// The words of `text`, lowercased, without empty ones.
pub fn lowercase_words(text: &str) -> (r: Vec<String>)
    ensures
        r@.map_values(|w: String| w@) == lowered_words(text@, 0),
{
    let cs = chars_of(text);
    let mut r: Vec<String> = Vec::new();
    let mut i: usize = 0;
    while i < cs.len()
        invariant
            cs@ == text@,
            i <= cs@.len(),
            lowered_words(text@, 0) == r@.map_values(|w: String| w@) + lowered_words(text@, i as int),
        decreases cs@.len() - i,
    {
        if is_white_space(cs[i]) {
            i = i + 1;
        } else {
            let e = find_white(&cs, i);
            proof {
                lemma_next_white_bounds(cs@, i as int);
            }
            let word = lowercase(text.substring_char(i, e));
            if word.unicode_len() > 0 {
                let ghost before = r@.map_values(|w: String| w@);
                r.push(word);
                assert(r@.map_values(|w: String| w@) =~= before + seq![word@]);
            }
            i = e;
        }
    }
    assert(r@.map_values(|w: String| w@) + lowered_words(text@, i as int) =~= r@.map_values(
        |w: String| w@,
    ));
    r
}

/// Reads one line into `info`.
fn read_line(info: &mut OsReleaseInfo, line: &str)
    ensures
        final(info)@ == apply_line(old(info)@, line@),
{
    let cs = chars_of(line);
    let q = find_char(&cs, 0, '=');
    if cs.len() == 0 || q >= cs.len() {
        return;
    }
    proof {
        lemma_next_char_bounds(cs@, 0, '=');
    }
    let (ka, kb) = trim_white_range(&cs, 0, q);
    assert(cs@.subrange(0, q as int) =~= line@.take(q as int));
    let key = lowercase(line.substring_char(ka, kb));
    let (va, vb) = trim_quote_range(&cs, q + 1, cs.len());
    assert(cs@.subrange(q as int + 1, cs@.len() as int) =~= line@.skip(q as int + 1));
    let value = String::from_str(line.substring_char(va, vb));
    if text_eq(key.as_str(), "id") {
        info.id = value;
    } else if text_eq(key.as_str(), "id_like") {
        info.id_like = lowercase_words(value.as_str());
    } else if text_eq(key.as_str(), "version_id") {
        info.version_id = value;
    }
}

/// Reads the `ID`, `ID_LIKE` and `VERSION_ID` fields of an os-release text;
/// a field that is absent stays empty.
pub fn parse_os_release(contents: &str) -> (r: OsReleaseInfo)
    ensures
        r@ == os_release_of(contents@),
{
    let mut info = OsReleaseInfo { id: String::new(), id_like: Vec::new(), version_id: String::new() };
    assert(info@.id_like =~= seq![]);
    let cs = chars_of(contents);
    let mut i: usize = 0;
    loop
        invariant
            cs@ == contents@,
            i <= cs@.len(),
            os_release_of(contents@) == parse_from(contents@, i as int, info@),
        decreases cs@.len() - i,
    {
        let e = find_char(&cs, i, '\n');
        proof {
            lemma_next_char_bounds(cs@, i as int, '\n');
        }
        if e < cs.len() {
            let end: usize = if e > i && cs[e - 1] == '\r' {
                e - 1
            } else {
                e
            };
            let line = contents.substring_char(i, end);
            assert(line@ =~= strip_cr(contents@.subrange(i as int, e as int)));
            read_line(&mut info, line);
            i = e + 1;
        } else {
            read_line(&mut info, contents.substring_char(i, e));
            return info;
        }
    }
}

} // verus!
