//! Character-level building blocks shared by the rest of the crate.

use vstd::prelude::*;
use vstd::std_specs::iter::IteratorSpec;

verus! {

/// The characters that carry the Unicode `White_Space` property.
pub open spec fn is_space(c: char) -> bool {
    let n = c as u32;
    (0x09 <= n <= 0x0D) || n == 0x20 || n == 0x85 || n == 0xA0 || n == 0x1680
        || (0x2000 <= n <= 0x200A) || n == 0x2028 || n == 0x2029 || n == 0x202F
        || n == 0x205F || n == 0x3000
}

/// Decides whether `c` is white space.
pub fn is_space_char(c: char) -> (b: bool)
    ensures
        b == is_space(c),
{
    let n: u32 = c as u32;
    (0x09 <= n && n <= 0x0D) || n == 0x20 || n == 0x85 || n == 0xA0 || n == 0x1680
        || (0x2000 <= n && n <= 0x200A) || n == 0x2028 || n == 0x2029 || n == 0x202F
        || n == 0x205F || n == 0x3000
}

/// The characters of `s`, in order.
pub fn chars_of(s: &str) -> (v: Vec<char>)
    ensures
        v@ == s@,
{
    broadcast use vstd::string::axiom_spec_iter;
    let mut v: Vec<char> = Vec::new();
    let it = s.chars();
    for c in iter: it
        invariant
            iter.seq() == s@,
            v@ == s@.take(iter.index() as int),
    {
        v.push(c);
    }
    v
}

/// `String::push` of the standard library: the character is added at the end
/// and nothing else changes.
#[verifier::external_body]
fn push_char(s: &mut String, c: char)
    ensures
        final(s)@ == old(s)@.push(c),
{
    s.push(c);
}

/// The string made of the characters of `v`, in order.
pub fn string_of(v: &Vec<char>) -> (s: String)
    ensures
        s@ == v@,
{
    let mut s = String::new();
    let mut i: usize = 0;
    while i < v.len()
        invariant
            i <= v.len(),
            s@ == v@.take(i as int),
        decreases v.len() - i,
    {
        push_char(&mut s, v[i]);
        i += 1;
    }
    s
}

/// The number of bytes that UTF-8 takes for `c`.
pub open spec fn char_width(c: char) -> nat {
    let n = c as u32;
    if n < 0x80 {
        1
    } else if n < 0x800 {
        2
    } else if n < 0x10000 {
        3
    } else {
        4
    }
}

/// The number of bytes that UTF-8 takes for `s`.
pub open spec fn utf8_len(s: Seq<char>) -> nat
    decreases s.len(),
{
    if s.len() == 0 {
        0
    } else {
        utf8_len(s.drop_last()) + char_width(s.last())
    }
}

/// Byte `n` of the UTF-8 form of `s` is where a character starts, or the
/// end: some number of whole characters takes exactly `n` bytes.
pub open spec fn on_boundary(s: Seq<char>, n: nat) -> bool {
    exists|j: int| 0 <= j <= s.len() && utf8_len(#[trigger] s.take(j)) == n
}

/// The number of whole characters from the start of `s` that lie within its
/// first `n` bytes, counted on from `i`.
pub open spec fn chars_within(s: Seq<char>, n: nat, i: int) -> int
    decreases s.len() - i,
{
    if 0 <= i < s.len() && utf8_len(s.take(i + 1)) <= n {
        chars_within(s, n, i + 1)
    } else {
        i
    }
}

/// One more character takes its own bytes more.
pub proof fn lemma_utf8_len_step(s: Seq<char>, i: int)
    requires
        0 <= i < s.len(),
    ensures
        utf8_len(s.take(i + 1)) == utf8_len(s.take(i)) + char_width(s[i]),
        utf8_len(s.take(0)) == 0,
{
    assert(s.take(i + 1).drop_last() =~= s.take(i));
    assert(s.take(i + 1).last() == s[i]);
}

/// More characters take more bytes.
pub proof fn lemma_utf8_len_grows(s: Seq<char>, i: int, j: int)
    requires
        0 <= i <= j <= s.len(),
    ensures
        utf8_len(s.take(i)) <= utf8_len(s.take(j)),
        i < j ==> utf8_len(s.take(i)) < utf8_len(s.take(j)),
    decreases j - i,
{
    if i < j {
        lemma_utf8_len_grows(s, i, j - 1);
        lemma_utf8_len_step(s, j - 1);
    }
}

/// The bytes of two texts, one behind the other, are the bytes of both.
pub proof fn lemma_utf8_len_joined(a: Seq<char>, b: Seq<char>)
    ensures
        utf8_len(a + b) == utf8_len(a) + utf8_len(b),
    decreases b.len(),
{
    if b.len() == 0 {
        assert(a + b =~= a);
    } else {
        assert((a + b).drop_last() =~= a + b.drop_last());
        assert((a + b).last() == b.last());
        lemma_utf8_len_joined(a, b.drop_last());
    }
}

/// The characters within the first `n` bytes take no more than `n` bytes,
/// and one character more would take more.
pub proof fn lemma_chars_within(s: Seq<char>, n: nat, i: int)
    requires
        0 <= i <= s.len(),
        utf8_len(s.take(i)) <= n,
    ensures
        i <= chars_within(s, n, i) <= s.len(),
        utf8_len(s.take(chars_within(s, n, i))) <= n,
        chars_within(s, n, i) < s.len() ==> utf8_len(s.take(chars_within(s, n, i) + 1)) > n,
    decreases s.len() - i,
{
    if i < s.len() && utf8_len(s.take(i + 1)) <= n {
        lemma_chars_within(s, n, i + 1);
    }
}

/// Byte `n` is a boundary exactly where the characters within the first `n`
/// bytes take all `n` of them; and all of `s` lies within `n` bytes exactly
/// where `s` takes no more than `n`.
pub proof fn lemma_boundary(s: Seq<char>, n: nat)
    ensures
        on_boundary(s, n) <==> utf8_len(s.take(chars_within(s, n, 0))) == n,
        chars_within(s, n, 0) == s.len() <==> utf8_len(s) <= n,
        0 <= chars_within(s, n, 0) <= s.len(),
{
    assert(s.take(0).len() == 0);
    lemma_chars_within(s, n, 0);
    let j = chars_within(s, n, 0);
    assert(s.take(s.len() as int) =~= s);
    if j < s.len() {
        lemma_utf8_len_grows(s, j + 1, s.len() as int);
    }
    if on_boundary(s, n) {
        let k = choose|k: int| 0 <= k <= s.len() && utf8_len(#[trigger] s.take(k)) == n;
        if k < j {
            lemma_utf8_len_grows(s, k, j);
        }
        if k > j {
            lemma_utf8_len_grows(s, j + 1, k);
        }
    }
}

/// The number of bytes that UTF-8 takes for `c`.
pub fn width_of(c: char) -> (w: usize)
    ensures
        w == char_width(c),
        1 <= w <= 4,
{
    let n: u32 = c as u32;
    if n < 0x80 {
        1
    } else if n < 0x800 {
        2
    } else if n < 0x10000 {
        3
    } else {
        4
    }
}

/// Counts the whole characters of `v` that lie within its first `max`
/// bytes, and the bytes that they take.
pub fn count_within(v: &Vec<char>, max: usize) -> (r: (usize, usize))
    ensures
        r.0 == chars_within(v@, max as nat, 0),
        r.1 == utf8_len(v@.take(r.0 as int)),
        r.0 <= v.len(),
        r.1 <= max,
{
    let mut i: usize = 0;
    let mut used: usize = 0;
    assert(v@.take(0).len() == 0);
    while i < v.len()
        invariant
            i <= v.len(),
            used <= max,
            used == utf8_len(v@.take(i as int)),
            chars_within(v@, max as nat, i as int) == chars_within(v@, max as nat, 0),
        decreases v.len() - i,
    {
        let w = width_of(v[i]);
        proof {
            lemma_utf8_len_step(v@, i as int);
        }
        if w > max - used {
            return (i, used);
        }
        used = used + w;
        i += 1;
    }
    (i, used)
}

/// Position `i` starts a token: a character that is no white space and that
/// stands first or behind white space.
pub open spec fn starts_token(s: Seq<char>, i: int) -> bool {
    0 <= i < s.len() && !is_space(s[i]) && (i == 0 || is_space(s[i - 1]))
}

/// The number of tokens that start before position `n`.
pub open spec fn tokens_before(s: Seq<char>, n: nat) -> nat
    decreases n,
{
    if n == 0 {
        0
    } else {
        tokens_before(s, (n - 1) as nat) + if starts_token(s, n - 1) {
            1nat
        } else {
            0nat
        }
    }
}

/// The number of maximal runs of characters that are no white space.
pub open spec fn token_count(s: Seq<char>) -> nat {
    tokens_before(s, s.len())
}

/// Counts the white-space-delimited tokens of `v`.
pub fn count_tokens(v: &Vec<char>) -> (n: usize)
    ensures
        n == token_count(v@),
        n <= v.len(),
{
    let mut n: usize = 0;
    let mut i: usize = 0;
    let mut after_space: bool = true;
    while i < v.len()
        invariant
            i <= v.len(),
            n <= i,
            n == tokens_before(v@, i as nat),
            after_space == (i == 0 || is_space(v@[i - 1])),
        decreases v.len() - i,
    {
        let space = is_space_char(v[i]);
        if !space && after_space {
            n += 1;
        }
        after_space = space;
        i += 1;
    }
    n
}

/// The first position at or after `i` that holds no white space, or the
/// length of `s`.
pub open spec fn skip_spaces(s: Seq<char>, i: int) -> int
    decreases s.len() - i,
{
    if 0 <= i < s.len() && is_space(s[i]) {
        skip_spaces(s, i + 1)
    } else {
        i
    }
}

/// The end of `s[lo..hi]` once the white space at its end is cut off.
pub open spec fn drop_spaces(s: Seq<char>, lo: int, hi: int) -> int
    decreases hi,
{
    if 0 <= lo < hi <= s.len() && is_space(s[hi - 1]) {
        drop_spaces(s, lo, hi - 1)
    } else {
        hi
    }
}

/// `s` without the white space at its two ends.
pub open spec fn trimmed(s: Seq<char>) -> Seq<char> {
    let lo = skip_spaces(s, 0);
    s.subrange(lo, drop_spaces(s, lo, s.len() as int))
}

/// Everything that is skipped is white space, and what the skipping stops
/// at is none.
pub proof fn lemma_skip_spaces(s: Seq<char>, i: int)
    requires
        0 <= i <= s.len(),
    ensures
        i <= skip_spaces(s, i) <= s.len(),
        forall|k: int| i <= k < skip_spaces(s, i) ==> is_space(s[k]),
        skip_spaces(s, i) < s.len() ==> !is_space(s[skip_spaces(s, i)]),
    decreases s.len() - i,
{
    if i < s.len() && is_space(s[i]) {
        lemma_skip_spaces(s, i + 1);
    }
}

/// Everything that is dropped is white space, and what the dropping stops
/// at is none.
pub proof fn lemma_drop_spaces(s: Seq<char>, lo: int, hi: int)
    requires
        0 <= lo <= hi <= s.len(),
    ensures
        lo <= drop_spaces(s, lo, hi) <= hi,
        forall|k: int| drop_spaces(s, lo, hi) <= k < hi ==> is_space(s[k]),
        lo < drop_spaces(s, lo, hi) ==> !is_space(s[drop_spaces(s, lo, hi) - 1]),
    decreases hi,
{
    if lo < hi && is_space(s[hi - 1]) {
        lemma_drop_spaces(s, lo, hi - 1);
    }
}

/// Trimming cuts white space and nothing else: the text is white space,
/// then what is left of it, then white space; and what is left neither
/// starts nor ends with white space.
pub proof fn lemma_trimmed_is_tight(s: Seq<char>)
    ensures
        ({
            let lo = skip_spaces(s, 0);
            let hi = drop_spaces(s, lo, s.len() as int);
            let t = trimmed(s);
            &&& 0 <= lo <= hi <= s.len()
            &&& s == s.subrange(0, lo) + t + s.subrange(hi, s.len() as int)
            &&& forall|k: int| 0 <= k < lo ==> is_space(s[k])
            &&& forall|k: int| hi <= k < s.len() ==> is_space(s[k])
            &&& t.len() > 0 ==> !is_space(t[0]) && !is_space(t[t.len() - 1])
        }),
{
    lemma_skip_spaces(s, 0);
    let lo = skip_spaces(s, 0);
    lemma_drop_spaces(s, lo, s.len() as int);
    let hi = drop_spaces(s, lo, s.len() as int);
    assert(s =~= s.subrange(0, lo) + trimmed(s) + s.subrange(hi, s.len() as int));
}

/// Cuts the white space off both ends of `v[from..]`.
pub fn trim_from(v: &Vec<char>, from: usize) -> (r: Vec<char>)
    requires
        from <= v.len(),
    ensures
        r@ == trimmed(v@.subrange(from as int, v.len() as int)),
{
    let ghost s = v@.subrange(from as int, v.len() as int);
    let mut lo: usize = from;
    while lo < v.len() && is_space_char(v[lo])
        invariant
            from <= lo <= v.len(),
            s == v@.subrange(from as int, v.len() as int),
            skip_spaces(s, lo - from) == skip_spaces(s, 0),
        decreases v.len() - lo,
    {
        lo += 1;
    }
    let mut hi: usize = v.len();
    while lo < hi && is_space_char(v[hi - 1])
        invariant
            from <= lo <= hi <= v.len(),
            s == v@.subrange(from as int, v.len() as int),
            drop_spaces(s, lo - from, hi - from) == drop_spaces(s, lo - from, s.len() as int),
        decreases hi,
    {
        hi -= 1;
    }
    let mut r: Vec<char> = Vec::new();
    let mut i: usize = lo;
    while i < hi
        invariant
            lo <= i <= hi <= v.len(),
            r@ == v@.subrange(lo as int, i as int),
        decreases hi - i,
    {
        r.push(v[i]);
        i += 1;
    }
    assert(r@ == s.subrange(lo - from, hi - from));
    r
}

/// `pat` stands in `s` at position `i`.
pub open spec fn has_at(s: Seq<char>, pat: Seq<char>, i: int) -> bool {
    0 <= i && i + pat.len() <= s.len() && s.subrange(i, i + pat.len()) == pat
}

/// Decides whether `pat` stands in `v` at position `i`.
pub fn matches_at(v: &Vec<char>, pat: &Vec<char>, i: usize) -> (b: bool)
    ensures
        b == has_at(v@, pat@, i as int),
{
    if i > v.len() || pat.len() > v.len() - i {
        return false;
    }
    let mut k: usize = 0;
    while k < pat.len()
        invariant
            k <= pat.len(),
            i + pat.len() <= v.len(),
            v@.subrange(i as int, i + k) == pat@.take(k as int),
        decreases pat.len() - k,
    {
        if v[i + k] != pat[k] {
            assert(v@.subrange(i as int, i + pat.len())[k as int] != pat@[k as int]);
            return false;
        }
        assert(v@.subrange(i as int, i + k + 1) == v@.subrange(i as int, i + k).push(v@[i + k]));
        assert(pat@.take(k + 1) == pat@.take(k as int).push(pat@[k as int]));
        k += 1;
    }
    assert(pat@.take(pat.len() as int) == pat@);
    true
}

/// The first position at or after `i` where `pat` stands in `s`, or the
/// length of `s` where it stands nowhere from there on.
pub open spec fn first_match(s: Seq<char>, pat: Seq<char>, i: int) -> int
    decreases s.len() - i,
{
    if i < 0 || i >= s.len() {
        s.len() as int
    } else if has_at(s, pat, i) {
        i
    } else {
        first_match(s, pat, i + 1)
    }
}

/// What is found lies at or behind the start of the search, and the
/// pattern stands there.
pub proof fn lemma_first_match_bounds(s: Seq<char>, pat: Seq<char>, i: int)
    requires
        0 <= i <= s.len(),
    ensures
        i <= first_match(s, pat, i) <= s.len(),
        first_match(s, pat, i) < s.len() ==> has_at(s, pat, first_match(s, pat, i)),
    decreases s.len() - i,
{
    if i < s.len() && !has_at(s, pat, i) {
        lemma_first_match_bounds(s, pat, i + 1);
    }
}

/// Where the pattern stands nowhere from `i` up to `j`, and stands at `j` or
/// `j` is the end, the search from `i` arrives at `j`.
pub proof fn lemma_first_match_is(s: Seq<char>, pat: Seq<char>, i: int, j: int)
    requires
        0 <= i <= j <= s.len(),
        forall|k: int| i <= k < j ==> !has_at(s, pat, k),
        j == s.len() || has_at(s, pat, j),
    ensures
        first_match(s, pat, i) == j,
    decreases j - i,
{
    if i < j {
        lemma_first_match_is(s, pat, i + 1, j);
    }
}

/// Finds the first place at or after `from` where `pat` stands in `v`.
pub fn find_from(v: &Vec<char>, pat: &Vec<char>, from: usize) -> (r: usize)
    requires
        from <= v.len(),
    ensures
        r == first_match(v@, pat@, from as int),
        from <= r <= v.len(),
{
    let mut i: usize = from;
    while i < v.len()
        invariant
            from <= i <= v.len(),
            first_match(v@, pat@, i as int) == first_match(v@, pat@, from as int),
        decreases v.len() - i,
    {
        if matches_at(v, pat, i) {
            return i;
        }
        i += 1;
    }
    i
}

/// `s` from position `i` on, with every occurrence of `pat` replaced by
/// `with`, scanning from the left and never looking inside a replacement.
pub open spec fn replaced_from(s: Seq<char>, pat: Seq<char>, with: Seq<char>, i: int) -> Seq<char>
    decreases s.len() - i,
{
    if i < 0 || i >= s.len() || pat.len() == 0 {
        Seq::empty()
    } else if has_at(s, pat, i) {
        with + replaced_from(s, pat, with, i + pat.len())
    } else {
        seq![s[i]] + replaced_from(s, pat, with, i + 1)
    }
}

/// `s` with every occurrence of the non-empty `pat` replaced by `with`.
pub open spec fn replaced(s: Seq<char>, pat: Seq<char>, with: Seq<char>) -> Seq<char> {
    if pat.len() == 0 {
        s
    } else {
        replaced_from(s, pat, with, 0)
    }
}

/// A replacement that is no longer than what it replaces makes the text no
/// longer.
pub proof fn lemma_replaced_no_longer(s: Seq<char>, pat: Seq<char>, with: Seq<char>, i: int)
    requires
        0 <= i <= s.len(),
        pat.len() > 0,
        with.len() <= pat.len(),
    ensures
        replaced_from(s, pat, with, i).len() <= s.len() - i,
    decreases s.len() - i,
{
    if i < s.len() {
        if has_at(s, pat, i) {
            lemma_replaced_no_longer(s, pat, with, i + pat.len());
        } else {
            lemma_replaced_no_longer(s, pat, with, i + 1);
        }
    }
}

/// A replacement that is shorter than what it replaces makes the text
/// shorter, if what it replaces occurs at all: here at `j`, with no
/// occurrence from `i` up to `j`.
pub proof fn lemma_replaced_shorter(s: Seq<char>, pat: Seq<char>, with: Seq<char>, i: int, j: int)
    requires
        0 <= i <= j,
        has_at(s, pat, j),
        forall|k: int| i <= k < j ==> !has_at(s, pat, k),
        pat.len() > 0,
        with.len() < pat.len(),
    ensures
        replaced_from(s, pat, with, i).len() < s.len() - i,
    decreases j - i,
{
    if i == j {
        lemma_replaced_no_longer(s, pat, with, i + pat.len());
    } else {
        lemma_replaced_shorter(s, pat, with, i + 1, j);
    }
}

/// Appends the elements of `src[lo..hi]` to `out`.
pub fn extend_range(out: &mut Vec<char>, src: &Vec<char>, lo: usize, hi: usize)
    requires
        lo <= hi <= src.len(),
    ensures
        final(out)@ == old(out)@ + src@.subrange(lo as int, hi as int),
{
    let mut i: usize = lo;
    while i < hi
        invariant
            lo <= i <= hi <= src.len(),
            out@ == old(out)@ + src@.subrange(lo as int, i as int),
        decreases hi - i,
    {
        out.push(src[i]);
        i += 1;
    }
}

/// Replaces every occurrence of `pat` in `v` by `with`.
pub fn replace_all(v: &Vec<char>, pat: &Vec<char>, with: &Vec<char>) -> (r: Vec<char>)
    ensures
        r@ == replaced(v@, pat@, with@),
{
    let mut out: Vec<char> = Vec::new();
    if pat.len() == 0 {
        extend_range(&mut out, v, 0, v.len());
        assert(v@.subrange(0, v.len() as int) == v@);
        return out;
    }
    let mut i: usize = 0;
    while i < v.len()
        invariant
            i <= v.len(),
            pat.len() > 0,
            out@ + replaced_from(v@, pat@, with@, i as int) == replaced_from(v@, pat@, with@, 0),
        decreases v.len() - i,
    {
        let ghost before = out@;
        if matches_at(v, pat, i) {
            extend_range(&mut out, with, 0, with.len());
            assert(with@.subrange(0, with.len() as int) == with@);
            assert(out@ + replaced_from(v@, pat@, with@, i + pat.len()) == before + (with@
                + replaced_from(v@, pat@, with@, i + pat.len())));
            i += pat.len();
        } else {
            out.push(v[i]);
            assert(out@ + replaced_from(v@, pat@, with@, i + 1) == before + (seq![v@[i as int]]
                + replaced_from(v@, pat@, with@, i + 1)));
            i += 1;
        }
    }
    assert(out@ + Seq::<char>::empty() == out@);
    out
}

/// The decimal digit for a number below ten.
pub open spec fn digit_char(d: nat) -> char {
    if d == 0 {
        '0'
    } else if d == 1 {
        '1'
    } else if d == 2 {
        '2'
    } else if d == 3 {
        '3'
    } else if d == 4 {
        '4'
    } else if d == 5 {
        '5'
    } else if d == 6 {
        '6'
    } else if d == 7 {
        '7'
    } else if d == 8 {
        '8'
    } else {
        '9'
    }
}

/// The decimal numeral of `n`, without leading zeros.
pub open spec fn decimal(n: nat) -> Seq<char>
    decreases n,
{
    if n < 10 {
        seq![digit_char(n)]
    } else {
        decimal(n / 10).push(digit_char(n % 10))
    }
}

fn digit_of(d: u64) -> (c: char)
    requires
        d < 10,
    ensures
        c == digit_char(d as nat),
{
    if d == 0 {
        '0'
    } else if d == 1 {
        '1'
    } else if d == 2 {
        '2'
    } else if d == 3 {
        '3'
    } else if d == 4 {
        '4'
    } else if d == 5 {
        '5'
    } else if d == 6 {
        '6'
    } else if d == 7 {
        '7'
    } else if d == 8 {
        '8'
    } else {
        '9'
    }
}

/// Appends the decimal numeral of `n` to `out`.
pub fn push_decimal(out: &mut String, n: u64)
    ensures
        final(out)@ == old(out)@ + decimal(n as nat),
    decreases n,
{
    if n >= 10 {
        push_decimal(out, n / 10);
    }
    push_char(out, digit_of(n % 10));
}

/// The decimal numeral of `n`, with a zero in front where it has one digit.
pub open spec fn two_digits(n: nat) -> Seq<char> {
    if n < 10 {
        seq!['0'] + decimal(n)
    } else {
        decimal(n)
    }
}

/// Appends `n` to `out` in at least two decimal digits.
pub fn push_two_digits(out: &mut String, n: u64)
    ensures
        final(out)@ == old(out)@ + two_digits(n as nat),
{
    if n < 10 {
        push_char(out, '0');
    }
    push_decimal(out, n);
}

/// Appends the characters of `v` to `out`.
pub fn push_chars(out: &mut String, v: &Vec<char>)
    ensures
        final(out)@ == old(out)@ + v@,
{
    let mut i: usize = 0;
    while i < v.len()
        invariant
            i <= v.len(),
            out@ == old(out)@ + v@.take(i as int),
        decreases v.len() - i,
    {
        push_char(out, v[i]);
        i += 1;
    }
}

} // verus!
