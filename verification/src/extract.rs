//! Label-anchored field extraction from the feed's markup convention: a
//! bolded label span, a colon, a value, and a terminating line-break (or, for
//! one label, an end-of-block marker). Every extractor is total: a missing
//! label yields the documented default and never fails.

use vstd::prelude::*;
use crate::text::{
    match_at, find_from, skip_ws, line_end, trim_spec, is_space_char,
    is_match, find_pat, skip_ws_run, line_end_run, trim_chars, copy_range,
    chars_vec, string_from_chars, lemma_find_from_bounds,
};

verus! {

// ---------------------------------------------------------------------------
// The fixed markers of the markup convention.
// ---------------------------------------------------------------------------
pub open spec fn bold_open() -> Seq<char> {
    "<span style=\"font-weight:bold\">"@
}

pub open spec fn close_colon() -> Seq<char> {
    "</span>:"@
}

pub open spec fn span_close() -> Seq<char> {
    "</span>"@
}

pub open spec fn br_mark() -> Seq<char> {
    "<br"@
}

pub open spec fn div_close() -> Seq<char> {
    "</div>"@
}

pub open spec fn nation_open() -> Seq<char> {
    "<span style=\"font-size:150%\">Member of "@
}

pub open spec fn residents_key() -> Seq<char> {
    "Residents"@
}

pub open spec fn trusted_label() -> Seq<char> {
    "Trusted Players</span>: "@
}

pub open spec fn peaceful_key() -> Seq<char> {
    "Peaceful?"@
}

// ---------------------------------------------------------------------------
// Captured values.
// ---------------------------------------------------------------------------
/// Value after a label: skip the whitespace run after the colon, then take
/// the text up to the next `<br` on the same line, trimmed. `None` when no
/// line-break marker terminates the value before the line ends.
pub open spec fn br_capture(s: Seq<char>, e: int) -> Option<Seq<char>> {
    let c = skip_ws(s, e);
    match find_from(s, br_mark(), c) {
        Some(m) => if m <= line_end(s, c) {
            Some(trim_spec(s.subrange(c, m)))
        } else {
            None
        },
        None => None,
    }
}

/// Value running from `c` up to the nearest `<br` or `</div>` on the same
/// line, trimmed; no leading whitespace is skipped.
pub open spec fn block_capture(s: Seq<char>, c: int) -> Option<Seq<char>> {
    let stop = match (find_from(s, br_mark(), c), find_from(s, div_close(), c)) {
        (Some(m), Some(n)) => Some(if m <= n { m } else { n }),
        (Some(m), None) => Some(m),
        (None, Some(n)) => Some(n),
        (None, None) => None,
    };
    match stop {
        Some(m) => if m <= line_end(s, c) {
            Some(trim_spec(s.subrange(c, m)))
        } else {
            None
        },
        None => None,
    }
}

/// Value running from `c` up to the next `</span>` on the same line, trimmed.
pub open spec fn close_capture(s: Seq<char>, c: int) -> Option<Seq<char>> {
    match find_from(s, span_close(), c) {
        Some(m) => if m <= line_end(s, c) {
            Some(trim_spec(s.subrange(c, m)))
        } else {
            None
        },
        None => None,
    }
}

// ---------------------------------------------------------------------------
// Label forms.
// ---------------------------------------------------------------------------
/// A scalar label anchored at `p`: the label text, optional whitespace, then
/// `</span>:`. Returns the position just past the colon.
pub open spec fn label_close_at(s: Seq<char>, key: Seq<char>, p: int) -> Option<int> {
    if match_at(s, key, p) {
        let q = skip_ws(s, p + key.len());
        if match_at(s, close_colon(), q) {
            Some(q + close_colon().len() as int)
        } else {
            None
        }
    } else {
        None
    }
}

pub open spec fn is_digit(c: char) -> bool {
    0x30 <= c as u32 <= 0x39
}

/// End of the run of decimal digits starting at `i`.
pub open spec fn digits_end(s: Seq<char>, i: int) -> int
    decreases s.len() - i,
{
    if i < 0 || i >= s.len() {
        i
    } else if is_digit(s[i]) {
        digits_end(s, i + 1)
    } else {
        i
    }
}

/// The residents label anchored at `p`: `Residents`, optional whitespace, a
/// parenthesized count (ignored), optional whitespace, then `</span>:`.
pub open spec fn residents_close_at(s: Seq<char>, p: int) -> Option<int> {
    if match_at(s, residents_key(), p) {
        let q = skip_ws(s, p + residents_key().len());
        if 0 <= q < s.len() && s[q] == '(' {
            let d = digits_end(s, q + 1);
            if d > q + 1 && d < s.len() && s[d] == ')' {
                let w = skip_ws(s, d + 1);
                if match_at(s, close_colon(), w) {
                    Some(w + close_colon().len() as int)
                } else {
                    None
                }
            } else {
                None
            }
        } else {
            None
        }
    } else {
        None
    }
}

/// The peaceful label anchored at `p`: `Peaceful?`, optional whitespace, then
/// `</span>` (no colon). Returns the position just past the closing tag.
pub open spec fn peaceful_close_at(s: Seq<char>, p: int) -> Option<int> {
    if match_at(s, peaceful_key(), p) {
        let q = skip_ws(s, p + peaceful_key().len());
        if match_at(s, span_close(), q) {
            Some(q + span_close().len() as int)
        } else {
            None
        }
    } else {
        None
    }
}

// ---------------------------------------------------------------------------
// Searching: the label may be preceded by other characters inside the bolded
// span, but not by a line break; the earliest completed match wins.
// ---------------------------------------------------------------------------
pub open spec fn scan_scalar(s: Seq<char>, key: Seq<char>, p: int) -> Option<Seq<char>>
    decreases s.len() - p,
{
    if p < 0 || p > s.len() {
        None
    } else {
        let r = match label_close_at(s, key, p) {
            Some(e) => br_capture(s, e),
            None => None,
        };
        if r is Some {
            r
        } else if p == s.len() || s[p] == '\n' {
            None
        } else {
            scan_scalar(s, key, p + 1)
        }
    }
}

/// The first scalar value for `key` in a bolded span at or after `i`.
pub open spec fn scalar_value(s: Seq<char>, key: Seq<char>, i: int) -> Option<Seq<char>>
    decreases s.len() - i,
{
    if i < 0 || i >= s.len() {
        None
    } else {
        let r = if match_at(s, bold_open(), i) {
            scan_scalar(s, key, i + bold_open().len())
        } else {
            None
        };
        if r is Some {
            r
        } else {
            scalar_value(s, key, i + 1)
        }
    }
}

pub open spec fn scan_residents(s: Seq<char>, p: int) -> Option<Seq<char>>
    decreases s.len() - p,
{
    if p < 0 || p > s.len() {
        None
    } else {
        let r = match residents_close_at(s, p) {
            Some(e) => br_capture(s, e),
            None => None,
        };
        if r is Some {
            r
        } else if p == s.len() || s[p] == '\n' {
            None
        } else {
            scan_residents(s, p + 1)
        }
    }
}

pub open spec fn residents_value(s: Seq<char>, i: int) -> Option<Seq<char>>
    decreases s.len() - i,
{
    if i < 0 || i >= s.len() {
        None
    } else {
        let r = if match_at(s, bold_open(), i) {
            scan_residents(s, i + bold_open().len())
        } else {
            None
        };
        if r is Some {
            r
        } else {
            residents_value(s, i + 1)
        }
    }
}

pub open spec fn scan_trusted(s: Seq<char>, p: int) -> Option<Seq<char>>
    decreases s.len() - p,
{
    if p < 0 || p > s.len() {
        None
    } else {
        let r = if match_at(s, trusted_label(), p) {
            block_capture(s, p + trusted_label().len())
        } else {
            None
        };
        if r is Some {
            r
        } else if p == s.len() || s[p] == '\n' {
            None
        } else {
            scan_trusted(s, p + 1)
        }
    }
}

pub open spec fn trusted_value(s: Seq<char>, i: int) -> Option<Seq<char>>
    decreases s.len() - i,
{
    if i < 0 || i >= s.len() {
        None
    } else {
        let r = if match_at(s, bold_open(), i) {
            scan_trusted(s, i + bold_open().len())
        } else {
            None
        };
        if r is Some {
            r
        } else {
            trusted_value(s, i + 1)
        }
    }
}

pub open spec fn scan_peaceful(s: Seq<char>, p: int) -> Option<int>
    decreases s.len() - p,
{
    if p < 0 || p > s.len() {
        None
    } else {
        let r = peaceful_close_at(s, p);
        if r is Some {
            r
        } else if p == s.len() || s[p] == '\n' {
            None
        } else {
            scan_peaceful(s, p + 1)
        }
    }
}

pub open spec fn peaceful_label_end(s: Seq<char>, i: int) -> Option<int>
    decreases s.len() - i,
{
    if i < 0 || i >= s.len() {
        None
    } else {
        let r = if match_at(s, bold_open(), i) {
            scan_peaceful(s, i + bold_open().len())
        } else {
            None
        };
        if r is Some {
            r
        } else {
            peaceful_label_end(s, i + 1)
        }
    }
}

pub open spec fn nation_value(s: Seq<char>, i: int) -> Option<Seq<char>>
    decreases s.len() - i,
{
    if i < 0 || i >= s.len() {
        None
    } else {
        let r = if match_at(s, nation_open(), i) {
            close_capture(s, i + nation_open().len())
        } else {
            None
        };
        if r is Some {
            r
        } else {
            nation_value(s, i + 1)
        }
    }
}

// ---------------------------------------------------------------------------
// Comma lists.
// ---------------------------------------------------------------------------
/// Index of the first comma at or after `i` (or the end).
pub open spec fn comma_end(s: Seq<char>, i: int) -> int
    decreases s.len() - i,
{
    if i < 0 {
        i
    } else if i >= s.len() {
        s.len() as int
    } else if s[i] == ',' {
        i
    } else {
        comma_end(s, i + 1)
    }
}

pub proof fn lemma_comma_end(s: Seq<char>, i: int)
    requires
        0 <= i <= s.len(),
    ensures
        i <= comma_end(s, i) <= s.len(),
    decreases s.len() - i,
{
    if i < s.len() && s[i] != ',' {
        lemma_comma_end(s, i + 1);
    }
}

/// The comma-separated pieces of `s[from..]`; splitting an empty tail still
/// yields one (empty) piece, as `str::split` does.
pub open spec fn split_from(s: Seq<char>, from: int) -> Seq<Seq<char>>
    decreases s.len() - from,
    when 0 <= from <= s.len()
    via split_from_dec
{
    let k = comma_end(s, from);
    if k == s.len() {
        seq![s.subrange(from, k)]
    } else {
        seq![s.subrange(from, k)] + split_from(s, k + 1)
    }
}

#[via_fn]
proof fn split_from_dec(s: Seq<char>, from: int) {
    lemma_comma_end(s, from);
}

/// Every piece trimmed, in order.
pub open spec fn trim_all(ps: Seq<Seq<char>>) -> Seq<Seq<char>>
    decreases ps.len(),
{
    if ps.len() == 0 {
        Seq::empty()
    } else {
        seq![trim_spec(ps.first())] + trim_all(ps.drop_first())
    }
}

/// The empty pieces removed, order kept.
pub open spec fn drop_empties(ps: Seq<Seq<char>>) -> Seq<Seq<char>>
    decreases ps.len(),
{
    if ps.len() == 0 {
        Seq::empty()
    } else if ps.first().len() != 0 {
        seq![ps.first()] + drop_empties(ps.drop_first())
    } else {
        drop_empties(ps.drop_first())
    }
}

// ---------------------------------------------------------------------------
// The public extraction results, as mathematical functions of the text.
// ---------------------------------------------------------------------------
/// What `extract_value` returns: the first value for `key`, or the sentinel
/// `"0"` when the label is absent. The sentinel feeds numeric parsers that
/// also default to zero, so absence and a literal zero value coincide
/// downstream; this is a documented limitation of the convention.
pub open spec fn extract_value_spec(desc: Seq<char>, key: Seq<char>) -> Seq<char> {
    match scalar_value(desc, key, 0) {
        Some(v) => v,
        None => "0"@,
    }
}

/// What `extract_residents` returns: the member list, trimmed, empties
/// dropped; empty when the label is absent.
pub open spec fn residents_spec(desc: Seq<char>) -> Seq<Seq<char>> {
    match residents_value(desc, 0) {
        Some(v) => drop_empties(trim_all(split_from(v, 0))),
        None => Seq::empty(),
    }
}

/// What `extract_resources` returns: the resource list, trimmed, empties
/// kept (stray separators in the source yield empty entries).
pub open spec fn resources_spec(desc: Seq<char>) -> Seq<Seq<char>> {
    match scalar_value(desc, "Resources"@, 0) {
        Some(v) => trim_all(split_from(v, 0)),
        None => Seq::empty(),
    }
}

/// What `extract_trusted_players` returns: the trusted list, trimmed,
/// empties kept.
pub open spec fn trusted_spec(desc: Seq<char>) -> Seq<Seq<char>> {
    match trusted_value(desc, 0) {
        Some(v) => trim_all(split_from(v, 0)),
        None => Seq::empty(),
    }
}

/// What `extract_nation` returns: the affiliation text, or empty when absent
/// (absence is meaningful: unaffiliated).
pub open spec fn nation_spec(desc: Seq<char>) -> Seq<char> {
    match nation_value(desc, 0) {
        Some(v) => v,
        None => Seq::empty(),
    }
}

/// Case-insensitive match of the letter pair.
pub open spec fn eqi(c: char, lo: char, up: char) -> bool {
    c == lo || c == up
}

/// The token `true`, matched case-insensitively at `t`.
pub open spec fn true_token_at(s: Seq<char>, t: int) -> bool {
    &&& 0 <= t
    &&& t + 4 <= s.len()
    &&& eqi(s[t], 't', 'T')
    &&& eqi(s[t + 1], 'r', 'R')
    &&& eqi(s[t + 2], 'u', 'U')
    &&& eqi(s[t + 3], 'e', 'E')
}

/// What `extract_peaceful` returns: `true` exactly when the first peaceful
/// label is followed (after whitespace) by the token `true`, case
/// insensitively; `false` when the label is absent or any other token
/// follows.
pub open spec fn peaceful_spec(desc: Seq<char>) -> bool {
    match peaceful_label_end(desc, 0) {
        Some(e) => true_token_at(desc, skip_ws(desc, e)),
        None => false,
    }
}

/// A description in which a label finds no match yields that extractor's
/// documented default — the `"0"` sentinel, an empty list, an empty
/// affiliation, a false flag — and extraction is total: it never fails.
pub proof fn lemma_missing_label_defaults(desc: Seq<char>, key: Seq<char>)
    ensures
        scalar_value(desc, key, 0) is None ==> extract_value_spec(desc, key) == "0"@,
        residents_value(desc, 0) is None ==> residents_spec(desc) == Seq::<Seq<char>>::empty(),
        scalar_value(desc, "Resources"@, 0) is None ==> resources_spec(desc) == Seq::<
            Seq<char>,
        >::empty(),
        trusted_value(desc, 0) is None ==> trusted_spec(desc) == Seq::<Seq<char>>::empty(),
        nation_value(desc, 0) is None ==> nation_spec(desc) == Seq::<char>::empty(),
        peaceful_label_end(desc, 0) is None ==> !peaceful_spec(desc),
{
}

// ---------------------------------------------------------------------------
// Executable extraction.
// ---------------------------------------------------------------------------
fn label_close_end(s: &Vec<char>, key: &Vec<char>, close: &Vec<char>, p: usize) -> (r: Option<
    usize,
>)
    requires
        p <= s@.len(),
        close@ == close_colon(),
    ensures
        match r {
            Some(e) => label_close_at(s@, key@, p as int) == Some(e as int) && e <= s@.len(),
            None => label_close_at(s@, key@, p as int) is None,
        },
{
    if is_match(s, key, p) {
        proof {
            vstd::std_specs::vec::axiom_spec_len(s);
        }
        let q = skip_ws_run(s, p + key.len());
        if is_match(s, close, q) {
            Some(q + close.len())
        } else {
            None
        }
    } else {
        None
    }
}

fn br_capture_run(s: &Vec<char>, br: &Vec<char>, e: usize) -> (r: Option<Vec<char>>)
    requires
        e <= s@.len(),
        br@ == br_mark(),
    ensures
        match r {
            Some(v) => br_capture(s@, e as int) == Some(v@),
            None => br_capture(s@, e as int) is None,
        },
{
    let c = skip_ws_run(s, e);
    match find_pat(s, br, c) {
        Some(m) => {
            proof {
                lemma_find_from_bounds(s@, br@, c as int);
            }
            let le = line_end_run(s, c);
            if m <= le {
                let piece = copy_range(s, c, m);
                Some(trim_chars(&piece))
            } else {
                None
            }
        },
        None => None,
    }
}

fn scan_scalar_run(
    s: &Vec<char>,
    key: &Vec<char>,
    close: &Vec<char>,
    br: &Vec<char>,
    p: usize,
) -> (r: Option<Vec<char>>)
    requires
        p <= s@.len(),
        close@ == close_colon(),
        br@ == br_mark(),
    ensures
        match r {
            Some(v) => scan_scalar(s@, key@, p as int) == Some(v@),
            None => scan_scalar(s@, key@, p as int) is None,
        },
    decreases s@.len() - p,
{
    let cand = match label_close_end(s, key, close, p) {
        Some(e) => br_capture_run(s, br, e),
        None => None,
    };
    if cand.is_some() {
        return cand;
    }
    if p == s.len() || s[p] == '\n' {
        return None;
    }
    scan_scalar_run(s, key, close, br, p + 1)
}

fn scalar_value_run(
    s: &Vec<char>,
    key: &Vec<char>,
    open: &Vec<char>,
    close: &Vec<char>,
    br: &Vec<char>,
    i: usize,
) -> (r: Option<Vec<char>>)
    requires
        i <= s@.len(),
        open@ == bold_open(),
        close@ == close_colon(),
        br@ == br_mark(),
    ensures
        match r {
            Some(v) => scalar_value(s@, key@, i as int) == Some(v@),
            None => scalar_value(s@, key@, i as int) is None,
        },
    decreases s@.len() - i,
{
    if i >= s.len() {
        return None;
    }
    proof {
        vstd::std_specs::vec::axiom_spec_len(s);
    }
    let cand = if is_match(s, open, i) {
        scan_scalar_run(s, key, close, br, i + open.len())
    } else {
        None
    };
    if cand.is_some() {
        return cand;
    }
    scalar_value_run(s, key, open, close, br, i + 1)
}

/// Extracts the value for `key` from a description, or the sentinel `"0"`
/// when the label is absent.
pub fn extract_value(desc: &str, key: &str) -> (r: String)
    ensures
        r@ == extract_value_spec(desc@, key@),
{
    let d = chars_vec(desc);
    let k = chars_vec(key);
    let open = chars_vec("<span style=\"font-weight:bold\">");
    let close = chars_vec("</span>:");
    let br = chars_vec("<br");
    match scalar_value_run(&d, &k, &open, &close, &br, 0) {
        Some(v) => string_from_chars(&v),
        None => "0".to_owned(),
    }
}

// ---------------------------------------------------------------------------
// Executable comma lists.
// ---------------------------------------------------------------------------
fn comma_end_run(s: &Vec<char>, i: usize) -> (r: usize)
    requires
        i <= s@.len(),
    ensures
        r == comma_end(s@, i as int),
        i <= r <= s@.len(),
    decreases s@.len() - i,
{
    if i >= s.len() {
        return s.len();
    }
    if s[i] == ',' {
        return i;
    }
    comma_end_run(s, i + 1)
}

/// The list a captured value denotes: comma pieces of `v[from..]`, trimmed,
/// the empty ones dropped when `drop_empty` holds.
pub open spec fn list_model(v: Seq<char>, from: int, drop_empty: bool) -> Seq<Seq<char>> {
    if drop_empty {
        drop_empties(trim_all(split_from(v, from)))
    } else {
        trim_all(split_from(v, from))
    }
}

fn list_values(s: &Vec<char>, from: usize, drop_empty: bool) -> (r: Vec<String>)
    requires
        from <= s@.len(),
    ensures
        r@.len() == list_model(s@, from as int, drop_empty).len(),
        forall|j: int|
            0 <= j < r@.len() ==> r@[j]@ == list_model(s@, from as int, drop_empty)[j],
    decreases s@.len() - from,
{
    let k = comma_end_run(s, from);
    let piece = copy_range(s, from, k);
    let t = trim_chars(&piece);
    let keep = !drop_empty || t.len() > 0;
    let mut r: Vec<String> = Vec::new();
    if keep {
        r.push(string_from_chars(&t));
    }
    let ghost ps = split_from(s@, from as int);
    let ghost head = trim_spec(s@.subrange(from as int, k as int));
    if k < s.len() {
        let mut rest = list_values(s, k + 1, drop_empty);
        let ghost restm = list_model(s@, k + 1 as int, drop_empty);
        r.append(&mut rest);
        proof {
            assert(ps == seq![s@.subrange(from as int, k as int)] + split_from(s@, k + 1));
            assert(ps.first() == s@.subrange(from as int, k as int));
            assert(ps.drop_first() =~= split_from(s@, k + 1));
            assert(trim_all(ps) == seq![head] + trim_all(split_from(s@, k + 1)));
            if drop_empty {
                assert(trim_all(ps).first() == head);
                assert(trim_all(ps).drop_first() =~= trim_all(split_from(s@, k + 1)));
                if head.len() != 0 {
                    assert(list_model(s@, from as int, drop_empty) == seq![head] + restm);
                } else {
                    assert(list_model(s@, from as int, drop_empty) == restm);
                }
            }
            assert(forall|j: int|
                0 <= j < r@.len() ==> r@[j]@ == list_model(s@, from as int, drop_empty)[j]);
        }
    } else {
        proof {
            assert(k == s@.len());
            assert(ps =~= seq![s@.subrange(from as int, k as int)]);
            assert(ps.first() == s@.subrange(from as int, k as int));
            assert(ps.drop_first() =~= Seq::<Seq<char>>::empty());
            assert(trim_all(Seq::<Seq<char>>::empty()) == Seq::<Seq<char>>::empty());
            assert(trim_all(ps) == seq![head] + trim_all(ps.drop_first()));
            assert(trim_all(ps) =~= seq![head]);
            if drop_empty {
                assert(drop_empties(Seq::<Seq<char>>::empty()) == Seq::<Seq<char>>::empty());
                assert((seq![head]).first() == head);
                assert((seq![head]).drop_first() =~= Seq::<Seq<char>>::empty());
                if head.len() != 0 {
                    assert(drop_empties(seq![head]) =~= seq![head]);
                } else {
                    assert(drop_empties(seq![head]) =~= Seq::<Seq<char>>::empty());
                }
            }
        }
    }
    r
}

// ---------------------------------------------------------------------------
// Executable residents extraction.
// ---------------------------------------------------------------------------
fn digits_run(s: &Vec<char>, i: usize) -> (r: usize)
    requires
        i <= s@.len(),
    ensures
        r == digits_end(s@, i as int),
        i <= r <= s@.len(),
    decreases s@.len() - i,
{
    if i >= s.len() {
        return i;
    }
    let u = s[i] as u32;
    if 0x30 <= u && u <= 0x39 {
        digits_run(s, i + 1)
    } else {
        i
    }
}

fn residents_close_end(s: &Vec<char>, key: &Vec<char>, close: &Vec<char>, p: usize) -> (r: Option<
    usize,
>)
    requires
        p <= s@.len(),
        key@ == residents_key(),
        close@ == close_colon(),
    ensures
        match r {
            Some(e) => residents_close_at(s@, p as int) == Some(e as int) && e <= s@.len(),
            None => residents_close_at(s@, p as int) is None,
        },
{
    if !is_match(s, key, p) {
        return None;
    }
    proof {
        vstd::std_specs::vec::axiom_spec_len(s);
    }
    let q = skip_ws_run(s, p + key.len());
    if !(q < s.len() && s[q] == '(') {
        return None;
    }
    let d = digits_run(s, q + 1);
    if !(d > q + 1 && d < s.len() && s[d] == ')') {
        return None;
    }
    let w = skip_ws_run(s, d + 1);
    if is_match(s, close, w) {
        Some(w + close.len())
    } else {
        None
    }
}

fn scan_residents_run(s: &Vec<char>, key: &Vec<char>, close: &Vec<char>, br: &Vec<char>, p: usize) -> (r:
    Option<Vec<char>>)
    requires
        p <= s@.len(),
        key@ == residents_key(),
        close@ == close_colon(),
        br@ == br_mark(),
    ensures
        match r {
            Some(v) => scan_residents(s@, p as int) == Some(v@),
            None => scan_residents(s@, p as int) is None,
        },
    decreases s@.len() - p,
{
    let cand = match residents_close_end(s, key, close, p) {
        Some(e) => br_capture_run(s, br, e),
        None => None,
    };
    if cand.is_some() {
        return cand;
    }
    if p == s.len() || s[p] == '\n' {
        return None;
    }
    scan_residents_run(s, key, close, br, p + 1)
}

fn residents_value_run(
    s: &Vec<char>,
    key: &Vec<char>,
    open: &Vec<char>,
    close: &Vec<char>,
    br: &Vec<char>,
    i: usize,
) -> (r: Option<Vec<char>>)
    requires
        i <= s@.len(),
        key@ == residents_key(),
        open@ == bold_open(),
        close@ == close_colon(),
        br@ == br_mark(),
    ensures
        match r {
            Some(v) => residents_value(s@, i as int) == Some(v@),
            None => residents_value(s@, i as int) is None,
        },
    decreases s@.len() - i,
{
    if i >= s.len() {
        return None;
    }
    proof {
        vstd::std_specs::vec::axiom_spec_len(s);
    }
    let cand = if is_match(s, open, i) {
        scan_residents_run(s, key, close, br, i + open.len())
    } else {
        None
    };
    if cand.is_some() {
        return cand;
    }
    residents_value_run(s, key, open, close, br, i + 1)
}

/// Extracts the member list: trimmed entries, empties dropped; empty when
/// the label is absent.
pub fn extract_residents(desc: &str) -> (r: Vec<String>)
    ensures
        r@.len() == residents_spec(desc@).len(),
        forall|j: int| 0 <= j < r@.len() ==> r@[j]@ == residents_spec(desc@)[j],
{
    let d = chars_vec(desc);
    let key = chars_vec("Residents");
    let open = chars_vec("<span style=\"font-weight:bold\">");
    let close = chars_vec("</span>:");
    let br = chars_vec("<br");
    match residents_value_run(&d, &key, &open, &close, &br, 0) {
        Some(v) => list_values(&v, 0, true),
        None => Vec::new(),
    }
}

/// Extracts the resource list: trimmed entries, empties kept; empty when the
/// label is absent.
pub fn extract_resources(desc: &str) -> (r: Vec<String>)
    ensures
        r@.len() == resources_spec(desc@).len(),
        forall|j: int| 0 <= j < r@.len() ==> r@[j]@ == resources_spec(desc@)[j],
{
    let d = chars_vec(desc);
    let key = chars_vec("Resources");
    let open = chars_vec("<span style=\"font-weight:bold\">");
    let close = chars_vec("</span>:");
    let br = chars_vec("<br");
    match scalar_value_run(&d, &key, &open, &close, &br, 0) {
        Some(v) => list_values(&v, 0, false),
        None => Vec::new(),
    }
}

// ---------------------------------------------------------------------------
// Executable trusted-players extraction.
// ---------------------------------------------------------------------------
fn block_capture_run(s: &Vec<char>, br: &Vec<char>, div: &Vec<char>, c: usize) -> (r: Option<
    Vec<char>,
>)
    requires
        c <= s@.len(),
        br@ == br_mark(),
        div@ == div_close(),
    ensures
        match r {
            Some(v) => block_capture(s@, c as int) == Some(v@),
            None => block_capture(s@, c as int) is None,
        },
{
    let b = find_pat(s, br, c);
    let d = find_pat(s, div, c);
    proof {
        lemma_find_from_bounds(s@, br@, c as int);
        lemma_find_from_bounds(s@, div@, c as int);
    }
    let stop: Option<usize> = match (b, d) {
        (Some(m), Some(n)) => Some(if m <= n { m } else { n }),
        (Some(m), None) => Some(m),
        (None, Some(n)) => Some(n),
        (None, None) => None,
    };
    match stop {
        Some(m) => {
            let le = line_end_run(s, c);
            if m <= le {
                let piece = copy_range(s, c, m);
                Some(trim_chars(&piece))
            } else {
                None
            }
        },
        None => None,
    }
}

fn scan_trusted_run(s: &Vec<char>, label: &Vec<char>, br: &Vec<char>, div: &Vec<char>, p: usize) -> (r:
    Option<Vec<char>>)
    requires
        p <= s@.len(),
        label@ == trusted_label(),
        br@ == br_mark(),
        div@ == div_close(),
    ensures
        match r {
            Some(v) => scan_trusted(s@, p as int) == Some(v@),
            None => scan_trusted(s@, p as int) is None,
        },
    decreases s@.len() - p,
{
    proof {
        vstd::std_specs::vec::axiom_spec_len(s);
    }
    let cand = if is_match(s, label, p) {
        block_capture_run(s, br, div, p + label.len())
    } else {
        None
    };
    if cand.is_some() {
        return cand;
    }
    if p == s.len() || s[p] == '\n' {
        return None;
    }
    scan_trusted_run(s, label, br, div, p + 1)
}

fn trusted_value_run(
    s: &Vec<char>,
    label: &Vec<char>,
    open: &Vec<char>,
    br: &Vec<char>,
    div: &Vec<char>,
    i: usize,
) -> (r: Option<Vec<char>>)
    requires
        i <= s@.len(),
        label@ == trusted_label(),
        open@ == bold_open(),
        br@ == br_mark(),
        div@ == div_close(),
    ensures
        match r {
            Some(v) => trusted_value(s@, i as int) == Some(v@),
            None => trusted_value(s@, i as int) is None,
        },
    decreases s@.len() - i,
{
    if i >= s.len() {
        return None;
    }
    proof {
        vstd::std_specs::vec::axiom_spec_len(s);
    }
    let cand = if is_match(s, open, i) {
        scan_trusted_run(s, label, br, div, i + open.len())
    } else {
        None
    };
    if cand.is_some() {
        return cand;
    }
    trusted_value_run(s, label, open, br, div, i + 1)
}

/// Extracts the trusted-players list: trimmed entries, empties kept; empty
/// when the label is absent.
pub fn extract_trusted_players(desc: &str) -> (r: Vec<String>)
    ensures
        r@.len() == trusted_spec(desc@).len(),
        forall|j: int| 0 <= j < r@.len() ==> r@[j]@ == trusted_spec(desc@)[j],
{
    let d = chars_vec(desc);
    let label = chars_vec("Trusted Players</span>: ");
    let open = chars_vec("<span style=\"font-weight:bold\">");
    let br = chars_vec("<br");
    let div = chars_vec("</div>");
    match trusted_value_run(&d, &label, &open, &br, &div, 0) {
        Some(v) => list_values(&v, 0, false),
        None => Vec::new(),
    }
}

// ---------------------------------------------------------------------------
// Executable affiliation extraction.
// ---------------------------------------------------------------------------
fn close_capture_run(s: &Vec<char>, close: &Vec<char>, c: usize) -> (r: Option<Vec<char>>)
    requires
        c <= s@.len(),
        close@ == span_close(),
    ensures
        match r {
            Some(v) => close_capture(s@, c as int) == Some(v@),
            None => close_capture(s@, c as int) is None,
        },
{
    match find_pat(s, close, c) {
        Some(m) => {
            proof {
                lemma_find_from_bounds(s@, close@, c as int);
            }
            let le = line_end_run(s, c);
            if m <= le {
                let piece = copy_range(s, c, m);
                Some(trim_chars(&piece))
            } else {
                None
            }
        },
        None => None,
    }
}

fn nation_value_run(s: &Vec<char>, open: &Vec<char>, close: &Vec<char>, i: usize) -> (r: Option<
    Vec<char>,
>)
    requires
        i <= s@.len(),
        open@ == nation_open(),
        close@ == span_close(),
    ensures
        match r {
            Some(v) => nation_value(s@, i as int) == Some(v@),
            None => nation_value(s@, i as int) is None,
        },
    decreases s@.len() - i,
{
    if i >= s.len() {
        return None;
    }
    proof {
        vstd::std_specs::vec::axiom_spec_len(s);
    }
    let cand = if is_match(s, open, i) {
        close_capture_run(s, close, i + open.len())
    } else {
        None
    };
    if cand.is_some() {
        return cand;
    }
    nation_value_run(s, open, close, i + 1)
}

/// Extracts the affiliation ("Member of ...") text, or an empty string when
/// absent.
pub fn extract_nation(desc: &str) -> (r: String)
    ensures
        r@ == nation_spec(desc@),
{
    let d = chars_vec(desc);
    let open = chars_vec("<span style=\"font-size:150%\">Member of ");
    let close = chars_vec("</span>");
    match nation_value_run(&d, &open, &close, 0) {
        Some(v) => string_from_chars(&v),
        None => String::new(),
    }
}

// ---------------------------------------------------------------------------
// Executable peaceful extraction.
// ---------------------------------------------------------------------------
fn peaceful_close_end(s: &Vec<char>, key: &Vec<char>, close: &Vec<char>, p: usize) -> (r: Option<
    usize,
>)
    requires
        p <= s@.len(),
        key@ == peaceful_key(),
        close@ == span_close(),
    ensures
        match r {
            Some(e) => peaceful_close_at(s@, p as int) == Some(e as int) && e <= s@.len(),
            None => peaceful_close_at(s@, p as int) is None,
        },
{
    if is_match(s, key, p) {
        proof {
            vstd::std_specs::vec::axiom_spec_len(s);
        }
        let q = skip_ws_run(s, p + key.len());
        if is_match(s, close, q) {
            Some(q + close.len())
        } else {
            None
        }
    } else {
        None
    }
}

fn scan_peaceful_run(s: &Vec<char>, key: &Vec<char>, close: &Vec<char>, p: usize) -> (r: Option<
    usize,
>)
    requires
        p <= s@.len(),
        key@ == peaceful_key(),
        close@ == span_close(),
    ensures
        match r {
            Some(e) => scan_peaceful(s@, p as int) == Some(e as int) && e <= s@.len(),
            None => scan_peaceful(s@, p as int) is None,
        },
    decreases s@.len() - p,
{
    let cand = peaceful_close_end(s, key, close, p);
    if cand.is_some() {
        return cand;
    }
    if p == s.len() || s[p] == '\n' {
        return None;
    }
    scan_peaceful_run(s, key, close, p + 1)
}

fn peaceful_label_run(s: &Vec<char>, key: &Vec<char>, open: &Vec<char>, close: &Vec<char>, i: usize) -> (r:
    Option<usize>)
    requires
        i <= s@.len(),
        key@ == peaceful_key(),
        open@ == bold_open(),
        close@ == span_close(),
    ensures
        match r {
            Some(e) => peaceful_label_end(s@, i as int) == Some(e as int) && e <= s@.len(),
            None => peaceful_label_end(s@, i as int) is None,
        },
    decreases s@.len() - i,
{
    if i >= s.len() {
        return None;
    }
    proof {
        vstd::std_specs::vec::axiom_spec_len(s);
    }
    let cand = if is_match(s, open, i) {
        scan_peaceful_run(s, key, close, i + open.len())
    } else {
        None
    };
    if cand.is_some() {
        return cand;
    }
    peaceful_label_run(s, key, open, close, i + 1)
}

fn eqi_run(c: char, lo: char, up: char) -> (r: bool)
    ensures
        r == eqi(c, lo, up),
{
    c == lo || c == up
}

/// Extracts the peaceful flag: `true` exactly when the first peaceful label
/// is followed by the token `true` (case-insensitive); `false` otherwise.
pub fn extract_peaceful(desc: &str) -> (r: bool)
    ensures
        r == peaceful_spec(desc@),
{
    let d = chars_vec(desc);
    let key = chars_vec("Peaceful?");
    let open = chars_vec("<span style=\"font-weight:bold\">");
    let close = chars_vec("</span>");
    match peaceful_label_run(&d, &key, &open, &close, 0) {
        Some(e) => {
            let t = skip_ws_run(&d, e);
            if d.len() - t >= 4 && eqi_run(d[t], 't', 'T') && eqi_run(d[t + 1], 'r', 'R')
                && eqi_run(d[t + 2], 'u', 'U') && eqi_run(d[t + 3], 'e', 'E') {
                true
            } else {
                false
            }
        },
        None => false,
    }
}

} // verus!
