//! Whether a released version is newer than the running one.

use vstd::prelude::*;
use crate::text::chars_of;

verus! {

/// The text with every leading `v` removed, as `trim_start_matches('v')` does.
pub open spec fn strip_v(s: Seq<char>) -> Seq<char>
    decreases s.len(),
{
    if s.len() > 0 && s[0] == 'v' {
        strip_v(s.drop_first())
    } else {
        s
    }
}

/// The index of the first `.` in `s`, or its length when there is none.
pub open spec fn dot_index(s: Seq<char>) -> nat
    decreases s.len(),
{
    if s.len() == 0 || s[0] == '.' {
        0
    } else {
        1 + dot_index(s.drop_first())
    }
}

/// The first dot, if any, lies inside the text.
pub proof fn lemma_dot_index_bound(s: Seq<char>)
    ensures
        dot_index(s) <= s.len(),
        dot_index(s) < s.len() ==> s[dot_index(s) as int] == '.',
    decreases s.len(),
{
    if s.len() > 0 && s[0] != '.' {
        lemma_dot_index_bound(s.drop_first());
    }
}

/// The pieces of `s` between dots, as `str::split('.')` yields them.
pub open spec fn split_dots(s: Seq<char>) -> Seq<Seq<char>>
    decreases s.len(),
{
    let d = dot_index(s);
    if d >= s.len() {
        seq![s]
    } else {
        proof {
            lemma_dot_index_bound(s);
        }
        seq![s.take(d as int)] + split_dots(s.skip(d as int + 1))
    }
}

/// Whether a character is an ASCII decimal digit.
pub open spec fn is_digit(c: char) -> bool {
    '0' <= c && c <= '9'
}

/// The value of a run of decimal digits.
pub open spec fn digits_value(s: Seq<char>) -> nat
    decreases s.len(),
{
    if s.len() == 0 {
        0
    } else {
        digits_value(s.drop_last()) * 10 + ((s.last() as int) - ('0' as int)) as nat
    }
}

/// What `str::parse::<u64>` gives: an optional `+`, then one or more ASCII
/// digits whose value fits a `u64`.
pub open spec fn parse_u64(s: Seq<char>) -> Option<u64> {
    let d = unsigned_digits(s);
    if d.len() > 0 && (forall|i: int| 0 <= i < d.len() ==> is_digit(#[trigger] d[i]))
        && digits_value(d) <= u64::MAX {
        Some(digits_value(d) as u64)
    } else {
        None
    }
}

/// The text without its leading `+`, if it has one.
pub open spec fn unsigned_digits(s: Seq<char>) -> Seq<char> {
    if s.len() > 0 && s[0] == '+' {
        s.drop_first()
    } else {
        s
    }
}

/// A `major.minor.patch` version: leading `v`s dropped, then exactly three
/// dot-separated pieces, each read as a number.
pub open spec fn parse_version(v: Seq<char>) -> Option<(u64, u64, u64)> {
    let parts = split_dots(strip_v(v));
    if parts.len() == 3 {
        match (parse_u64(parts[0]), parse_u64(parts[1]), parse_u64(parts[2])) {
            (Some(a), Some(b), Some(c)) => Some((a, b, c)),
            _ => None,
        }
    } else {
        None
    }
}

/// Strict order of versions: by major, then minor, then patch.
pub open spec fn version_gt(l: (u64, u64, u64), c: (u64, u64, u64)) -> bool {
    l.0 > c.0 || (l.0 == c.0 && (l.1 > c.1 || (l.1 == c.1 && l.2 > c.2)))
}

/// Whether `latest` names a newer version than `current`; a text that does
/// not parse as a version is never newer, nor older.
pub open spec fn newer(latest: Seq<char>, current: Seq<char>) -> bool {
    match (parse_version(latest), parse_version(current)) {
        (Some(l), Some(c)) => version_gt(l, c),
        _ => false,
    }
}

/// A text that is not exactly three numeric parts (say `1.2.3.4` or `1.2`)
/// is never newer than anything, nor anything newer than it.
pub proof fn unparsed_versions_are_never_newer(v: Seq<char>, other: Seq<char>)
    requires
        parse_version(v) is None,
    ensures
        !newer(v, other),
        !newer(other, v),
{
}

/// No version is newer than itself.
pub proof fn newer_is_irreflexive(v: Seq<char>)
    ensures
        !newer(v, v),
{
}

/// Of two versions, at most one is newer than the other.
pub proof fn newer_is_asymmetric(a: Seq<char>, b: Seq<char>)
    requires
        newer(a, b),
    ensures
        !newer(b, a),
{
}

/// Newer-than is transitive.
pub proof fn newer_is_transitive(a: Seq<char>, b: Seq<char>, c: Seq<char>)
    requires
        newer(a, b),
        newer(b, c),
    ensures
        newer(a, c),
{
}

proof fn lemma_strip_v(s: Seq<char>, p: int)
    requires
        0 <= p <= s.len(),
        forall|k: int| 0 <= k < p ==> s[k] == 'v',
        p == s.len() || s[p] != 'v',
    ensures
        strip_v(s) == s.skip(p),
    decreases p,
{
    if p == 0 {
        assert(s.skip(0) =~= s);
    } else {
        lemma_strip_v(s.drop_first(), p - 1);
        assert(s.drop_first().skip(p - 1) =~= s.skip(p));
    }
}

proof fn lemma_dot_index_at(s: Seq<char>, pos: int, e: int)
    requires
        0 <= pos <= e <= s.len(),
        forall|k: int| pos <= k < e ==> s[k] != '.',
        e == s.len() || s[e] == '.',
    ensures
        dot_index(s.skip(pos)) == e - pos,
    decreases e - pos,
{
    if pos < e {
        lemma_dot_index_at(s, pos + 1, e);
        assert(s.skip(pos).drop_first() =~= s.skip(pos + 1));
    }
}

proof fn lemma_split_step(s: Seq<char>, pos: int, e: int)
    requires
        0 <= pos <= e <= s.len(),
        forall|k: int| pos <= k < e ==> s[k] != '.',
        e == s.len() || s[e] == '.',
    ensures
        e == s.len() ==> split_dots(s.skip(pos)) == seq![s.subrange(pos, e)],
        e < s.len() ==> split_dots(s.skip(pos)) == seq![s.subrange(pos, e)] + split_dots(
            s.skip(e + 1),
        ),
{
    lemma_dot_index_at(s, pos, e);
    let t = s.skip(pos);
    if e == s.len() {
        assert(t =~= s.subrange(pos, e));
    } else {
        assert(t.take(e - pos) =~= s.subrange(pos, e));
        assert(t.skip(e - pos + 1) =~= s.skip(e + 1));
    }
}

proof fn lemma_digits_prefix(s: Seq<char>, j: int)
    requires
        0 <= j <= s.len(),
    ensures
        digits_value(s.take(j)) <= digits_value(s),
    decreases s.len() - j,
{
    if j < s.len() {
        lemma_digits_prefix(s.drop_last(), j);
        assert(s.drop_last().take(j) =~= s.take(j));
        assert(s.take(s.len() as int) =~= s);
    } else {
        assert(s.take(j) =~= s);
    }
}

/// The number written in `s[start..end]`, read as `str::parse::<u64>` does.
fn parse_u64_at(s: &Vec<char>, start: usize, end: usize) -> (r: Option<u64>)
    requires
        start <= end <= s@.len(),
    ensures
        r == parse_u64(s@.subrange(start as int, end as int)),
{
    let ghost whole = s@.subrange(start as int, end as int);
    let first = if start < end && s[start] == '+' { start + 1 } else { start };
    assert(whole.len() == end - start);
    assert(start < end ==> whole[0] == s@[start as int]);
    assert(first == start + 1 <==> (whole.len() > 0 && whole[0] == '+'));
    let ghost d = unsigned_digits(whole);
    assert(d =~= s@.subrange(first as int, end as int));
    if first == end {
        return None;
    }
    let mut i = first;
    let mut value: u64 = 0;
    assert(s@.subrange(first as int, first as int) =~= Seq::<char>::empty());
    while i < end
        invariant
            first <= i <= end <= s@.len(),
            first < end,
            start <= first <= start + 1,
            whole == s@.subrange(start as int, end as int),
            first == start + 1 <==> (whole.len() > 0 && whole[0] == '+'),
            d == unsigned_digits(whole),
            d == s@.subrange(first as int, end as int),
            forall|k: int| first <= k < i ==> is_digit(#[trigger] s@[k]),
            value == digits_value(s@.subrange(first as int, i as int)),
        decreases end - i,
    {
        let c = s[i];
        if !('0' <= c && c <= '9') {
            assert(d[i - first] == c);
            assert(!is_digit(d[i - first]));
            assert(!is_digit(unsigned_digits(whole)[i - first]));
            assert(parse_u64(whole) is None);
            return None;
        }
        let digit = (c as u32 - '0' as u32) as u64;
        let ghost next = s@.subrange(first as int, i + 1);
        assert(next.drop_last() =~= s@.subrange(first as int, i as int));
        assert(next.last() == c);
        if value > (u64::MAX - digit) / 10 {
            proof {
                assert(digits_value(next) > u64::MAX);
                lemma_digits_prefix(d, i + 1 - first);
                assert(d.take(i + 1 - first) =~= next);
                assert(digits_value(d) > u64::MAX);
                assert(parse_u64(whole) is None);
            }
            return None;
        }
        value = value * 10 + digit;
        i += 1;
    }
    assert(s@.subrange(first as int, end as int) =~= d);
    assert forall|k: int| 0 <= k < d.len() implies is_digit(#[trigger] d[k]) by {
        assert(d[k] == s@[first + k]);
    }
    Some(value)
}

/// Where the dot-separated piece starting at `pos` ends.
fn piece_end(s: &Vec<char>, pos: usize) -> (e: usize)
    requires
        pos <= s@.len(),
    ensures
        pos <= e <= s@.len(),
        forall|j: int| pos <= j < e ==> s@[j] != '.',
        e == s@.len() || s@[e as int] == '.',
{
    let mut e = pos;
    while e < s.len() && s[e] != '.'
        invariant
            pos <= e <= s@.len(),
            forall|j: int| pos <= j < e ==> s@[j] != '.',
        decreases s@.len() - e,
    {
        e += 1;
    }
    e
}

proof fn lemma_split_nonempty(s: Seq<char>)
    ensures
        split_dots(s).len() >= 1,
    decreases s.len(),
{
    let d = dot_index(s);
    if d < s.len() {
        lemma_dot_index_bound(s);
        lemma_split_nonempty(s.skip(d as int + 1));
    }
}

/// Reads `major.minor.patch` from a version text.
pub fn parse_version_text(v: &str) -> (r: Option<(u64, u64, u64)>)
    ensures
        r == parse_version(v@),
{
    let s = chars_of(v);
    let n = s.len();
    let mut pos: usize = 0;
    while pos < n && s[pos] == 'v'
        invariant
            pos <= n == s@.len(),
            forall|k: int| 0 <= k < pos ==> s@[k] == 'v',
        decreases n - pos,
    {
        pos += 1;
    }
    proof {
        lemma_strip_v(s@, pos as int);
    }
    let ghost all = split_dots(strip_v(v@));
    let e0 = piece_end(&s, pos);
    proof {
        lemma_split_step(s@, pos as int, e0 as int);
    }
    if e0 == n {
        assert(all.len() == 1);
        return None;
    }
    let p1 = e0 + 1;
    let e1 = piece_end(&s, p1);
    proof {
        lemma_split_step(s@, p1 as int, e1 as int);
    }
    if e1 == n {
        assert(all.len() == 2);
        return None;
    }
    let p2 = e1 + 1;
    let e2 = piece_end(&s, p2);
    proof {
        lemma_split_step(s@, p2 as int, e2 as int);
    }
    if e2 != n {
        proof {
            lemma_split_nonempty(s@.skip(e2 + 1));
        }
        assert(all.len() > 3);
        return None;
    }
    proof {
        let rest = split_dots(s@.skip(p2 as int));
        assert(rest.len() == 1);
        assert(all[0] == s@.subrange(pos as int, e0 as int));
        assert(all[1] == s@.subrange(p1 as int, e1 as int));
        assert(all[2] == s@.subrange(p2 as int, e2 as int));
    }
    let a = parse_u64_at(&s, pos, e0);
    let b = parse_u64_at(&s, p1, e1);
    let c = parse_u64_at(&s, p2, e2);
    match (a, b, c) {
        (Some(x), Some(y), Some(z)) => Some((x, y, z)),
        _ => None,
    }
}

/// Compares two `major.minor.patch` version strings (leading `v`s, as
/// GitHub tags use, are dropped). Anything that doesn't parse as exactly
/// three numeric parts is treated as not newer, since a malformed tag isn't
/// grounds to nag the user about an update.
pub fn is_newer(latest: &str, current: &str) -> (r: bool)
    ensures
        r == newer(latest@, current@),
{
    match (parse_version_text(latest), parse_version_text(current)) {
        (Some(l), Some(c)) => l.0 > c.0 || (l.0 == c.0 && (l.1 > c.1 || (l.1 == c.1 && l.2 > c.2))),
        _ => false,
    }
}

/// The error shown when the release query answers with a failing HTTP
/// status; `status` is that status as text (such as `404 Not Found`).
pub fn release_query_error(status: &str) -> (r: String)
    ensures
        r@ == "GitHub вернул ошибку: "@ + status@,
{
    let mut r = String::from_str("GitHub вернул ошибку: ");
    r.append(status);
    r
}

/// What the update check reports.
#[derive(Debug, Clone)]
pub struct UpdateInfo {
    pub current_version: String,
    pub latest_version: String,
    pub update_available: bool,
    pub release_url: String,
}

/// The update report for the running `current_version`, given the latest
/// release's tag and page: the tag without its leading `v`s is the latest
/// version, and an update is available when that is newer.
pub fn update_info(current_version: String, tag_name: &str, release_url: String) -> (info: UpdateInfo)
    ensures
        info.current_version@ == current_version@,
        info.latest_version@ == strip_v(tag_name@),
        info.update_available == newer(strip_v(tag_name@), current_version@),
        info.release_url@ == release_url@,
{
    let n = tag_name.unicode_len();
    let mut p: usize = 0;
    while p < n && tag_name.get_char(p) == 'v'
        invariant
            p <= n == tag_name@.len(),
            forall|k: int| 0 <= k < p ==> tag_name@[k] == 'v',
        decreases n - p,
    {
        p += 1;
    }
    proof {
        lemma_strip_v(tag_name@, p as int);
        assert(tag_name@.subrange(p as int, n as int) =~= tag_name@.skip(p as int));
    }
    let latest = String::from_str(tag_name.substring_char(p, n));
    let update_available = is_newer(latest.as_str(), current_version.as_str());
    UpdateInfo { current_version, latest_version: latest, update_available, release_url }
}

} // verus!
