//! What the dialogs and menus report, read as plain values, and the short
//! messages that the user is shown.

use crate::storage::StoreError;
use crate::text::{
    chars_of, decimal, extend_range, find_from, first_match, has_at, lemma_first_match_is,
    push_decimal, string_of,
};
use vstd::prelude::*;
use vstd::string::StringExecFns;

verus! {

/// The pages of the main window, in the order of the navigation list.
#[derive(Clone, Copy, PartialEq, Eq, Structural, Debug)]
pub enum Page {
    Writing,
    FlowHistory,
    Projects,
    Archive,
}

/// The page behind the row `index` of the navigation list.
pub fn page_at(index: i32) -> (r: Option<Page>)
    ensures
        r == if index == 0 {
            Some(Page::Writing)
        } else if index == 1 {
            Some(Page::FlowHistory)
        } else if index == 2 {
            Some(Page::Projects)
        } else if index == 3 {
            Some(Page::Archive)
        } else {
            None
        },
{
    if index == 0 {
        Some(Page::Writing)
    } else if index == 1 {
        Some(Page::FlowHistory)
    } else if index == 2 {
        Some(Page::Projects)
    } else if index == 3 {
        Some(Page::Archive)
    } else {
        None
    }
}

/// The session length that a response of the duration dialog stands for.
pub open spec fn duration_of(response: Seq<char>) -> Option<u32> {
    if response == "5"@ {
        Some(5u32)
    } else if response == "10"@ {
        Some(10u32)
    } else if response == "15"@ {
        Some(15u32)
    } else if response == "20"@ {
        Some(20u32)
    } else {
        None
    }
}

fn same(a: &String, b: &str) -> (r: bool)
    ensures
        r == (a@ == b@),
{
    *a == b.to_owned()
}

/// Reads a response of the duration dialog; `None` for a cancellation or
/// anything else that names no length on offer.
pub fn parse_duration_choice(response: &str) -> (r: Option<u32>)
    ensures
        r == duration_of(response@),
{
    let given = response.to_owned();
    if same(&given, "5") {
        Some(5)
    } else if same(&given, "10") {
        Some(10)
    } else if same(&given, "15") {
        Some(15)
    } else if same(&given, "20") {
        Some(20)
    } else {
        None
    }
}

/// The two colons that part a composition from a folder in a move request.
pub open spec fn parting() -> Seq<char> {
    seq![':', ':']
}

/// A move request names a composition and a folder, parted by two colons
/// that occur once: the composition before them, and behind them the
/// folder, or nothing for no folder.
pub open spec fn move_target_of(value: Seq<char>) -> Option<(Seq<char>, Option<Seq<char>>)> {
    let p = first_match(value, parting(), 0);
    if p < value.len() && first_match(value, parting(), p + 2) >= value.len() {
        Some(
            (
                value.subrange(0, p),
                if p + 2 == value.len() {
                    None
                } else {
                    Some(value.subrange(p + 2, value.len() as int))
                },
            ),
        )
    } else {
        None
    }
}

/// The move request for the composition `id` and the folder `folder`.
pub open spec fn move_request_of(id: Seq<char>, folder: Option<Seq<char>>) -> Seq<char> {
    id + parting() + match folder {
        Some(f) => f,
        None => Seq::empty(),
    }
}

/// Writes the move request for the composition `id` and the folder
/// `folder`, or for no folder.
pub fn move_request(id: &str, folder: Option<&str>) -> (r: String)
    ensures
        r@ == move_request_of(
            id@,
            match folder {
                Some(f) => Some(f@),
                None => None,
            },
        ),
{
    let mut out = id.to_owned();
    out.append("::");
    proof {
        reveal_strlit("::");
        assert("::"@ =~= parting());
    }
    match folder {
        Some(f) => {
            out.append(f);
        },
        None => {
            assert(out@ + Seq::<char>::empty() =~= out@);
        },
    }
    out
}

/// A move request is read as it was written: for an identity and a folder
/// that hold no colon, the folder's name not empty, reading the request
/// gives back the two.
pub proof fn lemma_move_request_round_trip(id: Seq<char>, folder: Option<Seq<char>>)
    requires
        !id.contains(':'),
        folder matches Some(f) ==> f.len() > 0 && !f.contains(':'),
    ensures
        move_target_of(move_request_of(id, folder)) == Some((id, folder)),
{
    let tail = match folder {
        Some(f) => f,
        None => Seq::<char>::empty(),
    };
    let s = move_request_of(id, folder);
    let n = id.len() as int;
    assert(s.len() == n + 2 + tail.len());
    assert forall|k: int| 0 <= k < n implies !has_at(s, parting(), k) by {
        if has_at(s, parting(), k) {
            assert(s.subrange(k, k + 2)[0] == ':');
            assert(id[k] == ':');
        }
    }
    assert(s.subrange(n, n + 2) =~= parting());
    lemma_first_match_is(s, parting(), 0, n);
    assert forall|k: int| n + 2 <= k < s.len() implies !has_at(s, parting(), k) by {
        if has_at(s, parting(), k) {
            assert(s.subrange(k, k + 2)[0] == ':');
            assert(tail[k - n - 2] == ':');
        }
    }
    if n + 2 < s.len() {
        lemma_first_match_is(s, parting(), n + 2, s.len() as int);
    }
    assert(s.subrange(0, n) =~= id);
    assert(s.subrange(n + 2, s.len() as int) =~= tail);
}

/// Reads a move request.
pub fn parse_move_target(value: &str) -> (r: Option<(String, Option<String>)>)
    ensures
        match r {
            Some((id, folder)) => move_target_of(value@) == Some(
                (
                    id@,
                    match folder {
                        Some(f) => Some(f@),
                        None => None,
                    },
                ),
            ),
            None => move_target_of(value@) is None,
        },
{
    let v = chars_of(value);
    let mut sep: Vec<char> = Vec::new();
    sep.push(':');
    sep.push(':');
    assert(sep@ =~= parting());
    let p = find_from(&v, &sep, 0);
    if p >= v.len() {
        return None;
    }
    proof {
        crate::text::lemma_first_match_bounds(v@, sep@, 0);
    }
    if p + 2 < v.len() {
        if find_from(&v, &sep, p + 2) < v.len() {
            return None;
        }
    }
    let mut id: Vec<char> = Vec::new();
    extend_range(&mut id, &v, 0, p);
    assert(id@ =~= v@.subrange(0, p as int));
    if p + 2 == v.len() {
        Some((string_of(&id), None))
    } else {
        let mut folder: Vec<char> = Vec::new();
        extend_range(&mut folder, &v, p + 2, v.len());
        assert(folder@ =~= v@.subrange(p + 2, v.len() as int));
        Some((string_of(&id), Some(string_of(&folder))))
    }
}

/// `c` is a decimal digit.
pub open spec fn is_digit(c: char) -> bool {
    '0' <= c <= '9'
}

/// The number that the first `n` characters of `s` write in decimal
/// digits.
pub open spec fn digits_value(s: Seq<char>, n: nat) -> nat
    decreases n,
{
    if n == 0 || n > s.len() {
        0
    } else {
        10 * digits_value(s, (n - 1) as nat) + (s[n - 1] as nat - '0' as nat) as nat
    }
}

/// `s` is made of decimal digits, one at least.
pub open spec fn all_digits(s: Seq<char>) -> bool {
    s.len() > 0 && forall|k: int| 0 <= k < s.len() ==> is_digit(#[trigger] s[k])
}

/// `s` without the plus sign at its start, if it has one.
pub open spec fn unsigned(s: Seq<char>) -> Seq<char> {
    if s.len() > 0 && s[0] == '+' {
        s.skip(1)
    } else {
        s
    }
}

/// The number that `s` writes: decimal digits, at least one, behind at most
/// one plus sign; `None` for anything else.
pub open spec fn number_of(s: Seq<char>) -> Option<nat> {
    if all_digits(unsigned(s)) {
        Some(digits_value(unsigned(s), unsigned(s).len()))
    } else {
        None
    }
}

/// The composition that a response of the picker names among `count`
/// compositions: the response is `comp_` and a number below `count`.
pub open spec fn picked(response: Seq<char>, count: nat) -> Option<nat> {
    if crate::text::has_at(response, "comp_"@, 0) {
        match number_of(response.skip(5)) {
            Some(k) => if k < count {
                Some(k)
            } else {
                None
            },
            None => None,
        }
    } else {
        None
    }
}

/// More digits never write a smaller number.
pub proof fn lemma_digits_value_grows(s: Seq<char>, i: nat, n: nat)
    requires
        i <= n <= s.len(),
    ensures
        digits_value(s, i) <= digits_value(s, n),
    decreases n - i,
{
    if i < n {
        lemma_digits_value_grows(s, i, (n - 1) as nat);
    }
}

/// Reads a response of the composition picker over `count` compositions.
pub fn parse_picker_choice(response: &str, count: usize) -> (r: Option<usize>)
    ensures
        match r {
            Some(k) => picked(response@, count as nat) == Some(k as nat),
            None => picked(response@, count as nat) is None,
        },
{
    let v = chars_of(response);
    let prefix = chars_of("comp_");
    proof {
        reveal_strlit("comp_");
    }
    if !crate::text::matches_at(&v, &prefix, 0) {
        return None;
    }
    let mut start: usize = 5;
    if start < v.len() && v[start] == '+' {
        start = 6;
    }
    let ghost rest = v@.skip(5);
    let ghost digits = v@.skip(start as int);
    assert(digits =~= unsigned(rest));
    if start >= v.len() || count == 0 {
        return None;
    }
    let mut value: usize = 0;
    let mut i: usize = start;
    while i < v.len()
        invariant
            start <= i <= v.len(),
            digits == v@.skip(start as int),
            v@ == response@,
            rest == v@.skip(5),
            crate::text::has_at(response@, "comp_"@, 0),
            digits == unsigned(rest),
            forall|k: int| 0 <= k < i - start ==> is_digit(#[trigger] digits[k]),
            value == digits_value(digits, (i - start) as nat),
            value < count,
        decreases v.len() - i,
    {
        let c = v[i];
        assert(digits[i - start] == c);
        if !(c >= '0' && c <= '9') {
            assert(!is_digit(digits[i - start]));
            assert(!all_digits(digits));
            return None;
        }
        let d: u128 = (c as u32 - '0' as u32) as u128;
        let next: u128 = (value as u128) * 10 + d;
        assert(next == digits_value(digits, (i - start + 1) as nat));
        if next >= count as u128 {
            proof {
                lemma_digits_value_grows(digits, (i - start + 1) as nat, digits.len());
            }
            return None;
        }
        value = next as usize;
        i += 1;
    }
    assert(number_of(rest) == Some(value as nat));
    Some(value)
}

/// The title under which a composition is shown: its own, or a stand-in
/// where it has none.
pub fn display_title(title: &str) -> (r: String)
    ensures
        r@ == if title@.len() == 0 {
            "Untitled"@
        } else {
            title@
        },
{
    if title.is_empty() {
        "Untitled".to_owned()
    } else {
        title.to_owned()
    }
}

/// What stands below an editor: the number of words written.
pub fn words_label(words: usize) -> (r: String)
    ensures
        r@ == decimal(words as nat) + " words"@,
{
    let mut out = String::new();
    push_decimal(&mut out, words as u64);
    out.append(" words");
    out
}

/// What the writer is told after a flow was handed to the store.
pub fn flow_saved_notice(stored: Result<(), StoreError>, words: usize) -> (r: String)
    ensures
        r@ == match stored {
            Ok(_) => "Flow saved! "@ + decimal(words as nat) + " words written"@,
            Err(_) => "Failed to save flow"@,
        },
{
    match stored {
        Ok(_) => {
            let mut out = String::new();
            out.append("Flow saved! ");
            push_decimal(&mut out, words as u64);
            out.append(" words written");
            assert(out@ =~= "Flow saved! "@ + decimal(words as nat) + " words written"@);
            out
        },
        Err(_) => "Failed to save flow".to_owned(),
    }
}

/// How a flow's two writes came out.
#[derive(Clone, Copy, PartialEq, Eq, Structural, Debug)]
pub struct AppendOutcome {
    /// The collection of flows was written with the new record.
    pub record_stored: bool,
    /// The cumulative journal was written with the new record.
    pub journal_written: bool,
    /// The first failure, if any.
    pub error: Option<StoreError>,
}

/// Sums up the two writes of a flow. The journal is only written after the
/// collection, so its outcome counts only then; a failure of the journal is
/// reported and leaves the stored record stored.
pub fn conclude_append(saved: Result<(), StoreError>, journal: Result<(), StoreError>) -> (r: AppendOutcome)
    ensures
        r.record_stored == (saved is Ok),
        r.journal_written == (saved is Ok && journal is Ok),
        r.error == match saved {
            Err(e) => Some(e),
            Ok(_) => match journal {
                Err(e) => Some(e),
                Ok(_) => None,
            },
        },
{
    match saved {
        Err(e) => AppendOutcome { record_stored: false, journal_written: false, error: Some(e) },
        Ok(_) => match journal {
            Err(e) => AppendOutcome { record_stored: true, journal_written: false, error: Some(e) },
            Ok(_) => AppendOutcome { record_stored: true, journal_written: true, error: None },
        },
    }
}

/// A composition can be published once the endpoint and the key are given.
pub fn publish_ready(endpoint: &str, api_key: &str) -> (r: bool)
    ensures
        r == (endpoint@.len() > 0 && api_key@.len() > 0),
{
    !endpoint.is_empty() && !api_key.is_empty()
}

/// The address that a composition is posted to: the endpoint itself, or its
/// micropub path where a blog is named.
pub fn publish_url(endpoint: &str, blog_id: &str) -> (r: String)
    ensures
        r@ == if blog_id@.len() > 0 {
            endpoint@ + "/micropub"@
        } else {
            endpoint@
        },
{
    let mut url = endpoint.to_owned();
    if !blog_id.is_empty() {
        url.append("/micropub");
    }
    url
}

/// The authorization that goes with a post.
pub fn bearer(api_key: &str) -> (r: String)
    ensures
        r@ == "Bearer "@ + api_key@,
{
    let mut out = "Bearer ".to_owned();
    out.append(api_key);
    out
}

/// What a post came to, from the server's answer.
pub fn publish_result(success: bool, status: &str) -> (r: Result<(), String>)
    ensures
        match r {
            Ok(_) => success,
            Err(message) => !success && message@ == "Server returned status: "@ + status@,
        },
{
    if success {
        Ok(())
    } else {
        let mut out = "Server returned status: ".to_owned();
        out.append(status);
        Err(out)
    }
}

} // verus!
