//! Plain text from Markdown, and what is counted and cut from it.

use crate::text::{
    chars_of, chars_within, count_tokens, count_within, extend_range, find_from, first_match,
    has_at, lemma_boundary, lemma_chars_within, lemma_first_match_bounds,
    lemma_replaced_shorter, lemma_utf8_len_grows, lemma_utf8_len_joined, on_boundary,
    replace_all, replaced, string_of, token_count, trim_from, trimmed, utf8_len,
};
use vstd::prelude::*;

verus! {

/// The first position at or after `i` that holds `c`, or the length of `s`.
pub open spec fn first_char(s: Seq<char>, c: char, i: int) -> int
    decreases s.len() - i,
{
    if i < 0 || i >= s.len() {
        s.len() as int
    } else if s[i] == c {
        i
    } else {
        first_char(s, c, i + 1)
    }
}

/// What is found lies at or behind the start of the search, holds the
/// character, and nothing before it does.
pub proof fn lemma_first_char_bounds(s: Seq<char>, c: char, i: int)
    requires
        0 <= i <= s.len(),
    ensures
        i <= first_char(s, c, i) <= s.len(),
        first_char(s, c, i) < s.len() ==> s[first_char(s, c, i)] == c,
        forall|k: int| i <= k < first_char(s, c, i) ==> s[k] != c,
    decreases s.len() - i,
{
    if i < s.len() && s[i] != c {
        lemma_first_char_bounds(s, c, i + 1);
    }
}

/// Finds the first `c` at or after `from`.
pub fn find_char(v: &Vec<char>, c: char, from: usize) -> (r: usize)
    requires
        from <= v.len(),
    ensures
        r == first_char(v@, c, from as int),
        from <= r <= v.len(),
{
    let mut i: usize = from;
    while i < v.len()
        invariant
            from <= i <= v.len(),
            first_char(v@, c, i as int) == first_char(v@, c, from as int),
        decreases v.len() - i,
    {
        if v[i] == c {
            return i;
        }
        i += 1;
    }
    i
}

/// The first position at or after `i` that holds no `#`, or the length.
pub open spec fn skip_hashes(s: Seq<char>, i: int) -> int
    decreases s.len() - i,
{
    if 0 <= i < s.len() && s[i] == '#' {
        skip_hashes(s, i + 1)
    } else {
        i
    }
}

/// A line without the `#` signs at its start and then without the white
/// space at its two ends.
pub open spec fn clean_line(line: Seq<char>) -> Seq<char> {
    trimmed(line.subrange(skip_hashes(line, 0), line.len() as int))
}

/// The text from position `i` on, line by line: every line is cleaned, and
/// the lines are joined by single line feeds. A line feed at the very end
/// starts no further line.
pub open spec fn headerless_from(s: Seq<char>, i: int) -> Seq<char>
    decreases s.len() - i,
    via headerless_decreases
{
    if i < 0 || i >= s.len() {
        Seq::empty()
    } else {
        let e = first_char(s, '\n', i);
        let head = clean_line(s.subrange(i, e));
        if e + 1 >= s.len() {
            head
        } else {
            head + seq!['\n'] + headerless_from(s, e + 1)
        }
    }
}

#[via_fn]
proof fn headerless_decreases(s: Seq<char>, i: int) {
    if 0 <= i < s.len() {
        lemma_first_char_bounds(s, '\n', i);
    }
}

/// The text with every line cleaned of its heading signs and of the white
/// space at its ends.
pub open spec fn headerless(s: Seq<char>) -> Seq<char> {
    headerless_from(s, 0)
}

/// `c` is one of the signs of emphasis and inline code.
pub open spec fn is_marker(c: char) -> bool {
    c == '*' || c == '_' || c == '`'
}

/// The text without its signs of emphasis and inline code.
pub open spec fn unmarked(s: Seq<char>) -> Seq<char> {
    s.filter(|c: char| !is_marker(c))
}

/// The first link of `s`: the place of the first `[`, the place of the first
/// `](` from there on, and the place of the first `)` from there on; `None`
/// where one of the three is missing.
pub open spec fn first_link(s: Seq<char>) -> Option<(int, int, int)> {
    let start = first_char(s, '[', 0);
    let mid = first_match(s, seq![']', '('], start);
    let end = first_char(s, ')', mid);
    if start < s.len() && mid < s.len() && end < s.len() {
        Some((start, mid, end))
    } else {
        None
    }
}

/// The text with its first link, and every repetition of that same link,
/// replaced by the link's text.
pub open spec fn unlinked_once(s: Seq<char>) -> Seq<char> {
    match first_link(s) {
        Some((start, mid, end)) => replaced(
            s,
            s.subrange(start, end + 1),
            s.subrange(start + 1, mid),
        ),
        None => s,
    }
}

/// Replacing a link by its text makes the text shorter.
pub proof fn lemma_unlinked_once_shorter(s: Seq<char>)
    requires
        first_link(s) is Some,
    ensures
        unlinked_once(s).len() < s.len(),
{
    let (start, mid, end) = first_link(s)->0;
    lemma_first_char_bounds(s, '[', 0);
    lemma_first_match_bounds(s, seq![']', '('], start);
    lemma_first_char_bounds(s, ')', mid);
    assert(s.subrange(mid, mid + 2)[0] == ']');
    let full = s.subrange(start, end + 1);
    let label = s.subrange(start + 1, mid);
    assert forall|k: int| 0 <= k < start implies !has_at(s, full, k) by {
        if has_at(s, full, k) {
            assert(s.subrange(k, k + full.len())[0] == full[0]);
        }
    }
    lemma_replaced_shorter(s, full, label, 0, start);
}

/// The text after every link has been replaced by its text: links are
/// taken one at a time, the first of the text first, until the text holds
/// none.
pub open spec fn unlinked(s: Seq<char>) -> Seq<char>
    decreases s.len(),
    via unlinked_decreases
{
    if first_link(s) is None {
        s
    } else {
        unlinked(unlinked_once(s))
    }
}

#[via_fn]
proof fn unlinked_decreases(s: Seq<char>) {
    if first_link(s) is Some {
        lemma_unlinked_once_shorter(s);
    }
}

/// No link is left in a text whose links were replaced.
pub proof fn lemma_unlinked_has_no_link(s: Seq<char>)
    ensures
        first_link(unlinked(s)) is None,
    decreases s.len(),
{
    if first_link(s) is Some {
        lemma_unlinked_once_shorter(s);
        lemma_unlinked_has_no_link(unlinked_once(s));
    }
}

/// The plain text of a Markdown text: heading signs and the white space
/// round every line are dropped, then the signs of emphasis and inline
/// code, then every link is replaced by its text.
pub open spec fn plain_text(s: Seq<char>) -> Seq<char> {
    unlinked(unmarked(headerless(s)))
}

fn strip_headers(v: &Vec<char>) -> (r: Vec<char>)
    ensures
        r@ == headerless(v@),
{
    let mut out: Vec<char> = Vec::new();
    let mut i: usize = 0;
    let mut done = v.len() == 0;
    while !done
        invariant
            i <= v.len(),
            !done ==> i < v.len(),
            !done ==> out@ + headerless_from(v@, i as int) == headerless(v@),
            done ==> out@ == headerless(v@),
        decreases v.len() - i + (if done { 0int } else { 1int }),
    {
        let e = find_char(v, '\n', i);
        let mut line: Vec<char> = Vec::new();
        extend_range(&mut line, v, i, e);
        assert(line@ == v@.subrange(i as int, e as int));
        let mut h: usize = 0;
        while h < line.len() && line[h] == '#'
            invariant
                h <= line.len(),
                skip_hashes(line@, h as int) == skip_hashes(line@, 0),
            decreases line.len() - h,
        {
            h += 1;
        }
        let head = trim_from(&line, h);
        let ghost before = out@;
        extend_range(&mut out, &head, 0, head.len());
        assert(head@.subrange(0, head.len() as int) == head@);
        if e >= v.len() || e + 1 >= v.len() {
            done = true;
            assert(out@ == before + headerless_from(v@, i as int));
        } else {
            out.push('\n');
            assert(out@ + headerless_from(v@, e + 1) == before + (head@ + seq!['\n']
                + headerless_from(v@, e + 1)));
            i = e + 1;
        }
    }
    proof {
        if v.len() == 0 {
            assert(out@ =~= headerless(v@));
        }
    }
    out
}

fn strip_markers(v: &Vec<char>) -> (r: Vec<char>)
    ensures
        r@ == unmarked(v@),
{
    let ghost keep = |c: char| !is_marker(c);
    let mut out: Vec<char> = Vec::new();
    let mut i: usize = 0;
    while i < v.len()
        invariant
            i <= v.len(),
            keep == (|c: char| !is_marker(c)),
            out@ == v@.take(i as int).filter(keep),
        decreases v.len() - i,
    {
        proof {
            assert(v@.take(i + 1) =~= v@.take(i as int).push(v@[i as int]));
            v@.take(i as int).lemma_filter_push(v@[i as int], keep);
        }
        let c = v[i];
        if !(c == '*' || c == '_' || c == '`') {
            out.push(c);
        }
        i += 1;
    }
    assert(v@.take(v.len() as int) =~= v@);
    out
}

fn strip_links(v: Vec<char>) -> (r: Vec<char>)
    ensures
        r@ == unlinked(v@),
{
    let mut cur = v;
    let mut pattern: Vec<char> = Vec::new();
    pattern.push(']');
    pattern.push('(');
    assert(pattern@ =~= seq![']', '(']);
    loop
        invariant
            pattern@ == seq![']', '('],
            unlinked(cur@) == unlinked(v@),
        decreases cur.len(),
    {
        let start = find_char(&cur, '[', 0);
        let mid = find_from(&cur, &pattern, start);
        let end = find_char(&cur, ')', mid);
        if start >= cur.len() || mid >= cur.len() || end >= cur.len() {
            assert(first_link(cur@) is None);
            return cur;
        }
        proof {
            lemma_first_char_bounds(cur@, '[', 0);
            lemma_first_match_bounds(cur@, pattern@, start as int);
            assert(cur@.subrange(mid as int, mid + 2)[0] == ']');
            lemma_unlinked_once_shorter(cur@);
        }
        let mut full: Vec<char> = Vec::new();
        extend_range(&mut full, &cur, start, end + 1);
        let mut label: Vec<char> = Vec::new();
        extend_range(&mut label, &cur, start + 1, mid);
        cur = replace_all(&cur, &full, &label);
    }
}

/// The plain text of a Markdown text.
pub fn markdown_to_plain_text(markdown: &str) -> (r: String)
    ensures
        r@ == plain_text(markdown@),
{
    let v = chars_of(markdown);
    let body = strip_markers(&strip_headers(&v));
    let plain = strip_links(body);
    string_of(&plain)
}

/// The number of words of a Markdown text: the white-space-delimited tokens
/// of its plain text.
pub fn word_count(content: &str) -> (n: usize)
    ensures
        n == token_count(plain_text(content@)),
{
    let plain = markdown_to_plain_text(content);
    let v = chars_of(plain.as_str());
    count_tokens(&v)
}

/// The minutes that reading `words` words takes at 200 words a minute,
/// rounded up, and one minute at least.
pub open spec fn reading_minutes(words: nat) -> nat {
    if words <= 200 {
        1
    } else {
        (words + 199) / 200
    }
}

/// The estimated reading time of a Markdown text in minutes, or the largest
/// number that fits where the estimate does not.
pub fn reading_time_minutes(content: &str) -> (m: u32)
    ensures
        m == if reading_minutes(token_count(plain_text(content@))) <= u32::MAX {
            reading_minutes(token_count(plain_text(content@)))
        } else {
            u32::MAX as nat
        },
{
    let words = word_count(content);
    if words <= 200 {
        return 1;
    }
    let minutes: usize = (words - 1) / 200 + 1;
    assert(minutes == (words + 199) / 200);
    if minutes > u32::MAX as usize {
        u32::MAX
    } else {
        minutes as u32
    }
}

/// The place of the last space before position `n`, or -1.
pub open spec fn last_space(s: Seq<char>, n: int) -> int
    decreases n,
{
    if n <= 0 || n > s.len() {
        -1
    } else if s[n - 1] == ' ' {
        n - 1
    } else {
        last_space(s, n - 1)
    }
}

/// The excerpt of a plain text within `max` bytes of UTF-8: the text
/// itself where it takes no more than `max` bytes; else the characters
/// that lie within its first `max` bytes, cut back to before their last
/// space where they hold one, followed by three dots.
pub open spec fn excerpt_of(plain: Seq<char>, max: nat) -> Seq<char> {
    let whole = chars_within(plain, max, 0);
    if utf8_len(plain) <= max {
        plain
    } else if last_space(plain, whole) >= 0 {
        plain.take(last_space(plain, whole)) + seq!['.', '.', '.']
    } else {
        plain.take(whole) + seq!['.', '.', '.']
    }
}

/// The limit `max` cuts the plain text of `content` between two characters,
/// if it cuts it at all.
pub open spec fn excerpt_defined(content: Seq<char>, max: nat) -> bool {
    utf8_len(plain_text(content)) <= max || on_boundary(plain_text(content), max)
}

/// What is kept of a text before the dots is a start of the text and
/// takes no more bytes than the limit, so the excerpt takes at most three
/// bytes more.
pub proof fn lemma_excerpt_is_short(plain: Seq<char>, max: nat)
    ensures
        utf8_len(excerpt_of(plain, max)) <= max + 3,
        utf8_len(plain) > max ==> exists|k: int|
            0 <= k <= plain.len() && excerpt_of(plain, max) == #[trigger] plain.take(k) + seq![
                '.',
                '.',
                '.',
            ] && utf8_len(plain.take(k)) <= max,
{
    lemma_boundary(plain, max);
    let whole = chars_within(plain, max, 0);
    assert(plain.take(0).len() == 0);
    lemma_chars_within(plain, max, 0);
    if utf8_len(plain) > max {
        lemma_last_space_bounds(plain, whole);
        let k = if last_space(plain, whole) >= 0 {
            last_space(plain, whole)
        } else {
            whole
        };
        lemma_utf8_len_grows(plain, k, whole);
        let dots = seq!['.', '.', '.'];
        lemma_utf8_len_joined(plain.take(k), dots);
        assert(utf8_len(dots) == 3) by {
            assert(dots.drop_last() =~= seq!['.', '.']);
            assert(seq!['.', '.'].drop_last() =~= seq!['.']);
            assert(seq!['.'].drop_last() =~= Seq::<char>::empty());
            reveal_with_fuel(utf8_len, 4);
        }
        assert(excerpt_of(plain, max) == plain.take(k) + dots);
    }
}

/// The last space before `n` lies before `n`.
pub proof fn lemma_last_space_bounds(s: Seq<char>, n: int)
    ensures
        -1 <= last_space(s, n),
        last_space(s, n) >= 0 ==> last_space(s, n) < n && s[last_space(s, n)] == ' ',
    decreases n,
{
    if 0 < n <= s.len() && s[n - 1] != ' ' {
        lemma_last_space_bounds(s, n - 1);
    }
}

/// Decides whether the limit of `max_chars` bytes cuts the plain text of
/// `content` between two characters, if it cuts it at all.
pub fn excerpt_fits(content: &str, max_chars: usize) -> (b: bool)
    ensures
        b == excerpt_defined(content@, max_chars as nat),
{
    let plain = markdown_to_plain_text(content);
    let v = chars_of(plain.as_str());
    let (whole, used) = count_within(&v, max_chars);
    proof {
        lemma_boundary(v@, max_chars as nat);
    }
    whole == v.len() || used == max_chars
}

/// The excerpt of a Markdown text within `max_chars` bytes of UTF-8: its
/// plain text where that takes no more, else the start of the plain text up
/// to the limit, cut back to before its last space where it holds one, and
/// three dots. The limit must not fall inside a character.
pub fn excerpt(content: &str, max_chars: usize) -> (r: String)
    requires
        excerpt_defined(content@, max_chars as nat),
    ensures
        r@ == excerpt_of(plain_text(content@), max_chars as nat),
        utf8_len(r@) <= max_chars + 3,
{
    let plain = markdown_to_plain_text(content);
    let v = chars_of(plain.as_str());
    let (whole, used) = count_within(&v, max_chars);
    proof {
        lemma_boundary(v@, max_chars as nat);
        lemma_excerpt_is_short(v@, max_chars as nat);
    }
    if whole == v.len() {
        return plain;
    }
    let mut cut: usize = whole;
    let mut found = false;
    while cut > 0 && !found
        invariant
            cut <= whole < v.len(),
            !found ==> last_space(v@, cut as int) == last_space(v@, whole as int),
            found ==> last_space(v@, whole as int) == cut,
        decreases cut,
    {
        if v[cut - 1] == ' ' {
            found = true;
        }
        cut -= 1;
    }
    let keep = if found {
        cut
    } else {
        whole
    };
    let mut out: Vec<char> = Vec::new();
    extend_range(&mut out, &v, 0, keep);
    out.push('.');
    out.push('.');
    out.push('.');
    assert(out@ =~= v@.take(keep as int) + seq!['.', '.', '.']);
    string_of(&out)
}

/// The excerpt of a Markdown text within `max_chars` bytes, or `None` where
/// the limit falls inside a character of the plain text.
pub fn try_excerpt(content: &str, max_chars: usize) -> (r: Option<String>)
    ensures
        match r {
            Some(text) => excerpt_defined(content@, max_chars as nat) && text@ == excerpt_of(
                plain_text(content@),
                max_chars as nat,
            ) && utf8_len(text@) <= max_chars + 3,
            None => !excerpt_defined(content@, max_chars as nat),
        },
{
    if excerpt_fits(content, max_chars) {
        Some(excerpt(content, max_chars))
    } else {
        None
    }
}

} // verus!
