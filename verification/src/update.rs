use vstd::prelude::*;

use crate::json::Json;
use crate::text::{
    all_digits, chars_of, decimal, digits_to_u64, digits_u64, digits_value, lemma_decimal_digits,
    to_decimal,
};

verus! {

/// The pieces of `s` between dots, in order; as many as there are dots, plus one.
pub open spec fn split_dots(s: Seq<char>) -> Seq<Seq<char>>
    decreases s.len(),
{
    if s.len() == 0 {
        seq![Seq::empty()]
    } else {
        let r = split_dots(s.drop_last());
        if s.last() == '.' {
            r.push(Seq::empty())
        } else {
            r.update(r.len() - 1, r.last().push(s.last()))
        }
    }
}

/// There is always at least one piece.
pub proof fn lemma_split_dots_nonempty(s: Seq<char>)
    ensures
        split_dots(s).len() >= 1,
    decreases s.len(),
{
    if s.len() > 0 {
        lemma_split_dots_nonempty(s.drop_last());
    }
}

/// An unsigned decimal number as the standard library reads one: an
/// optional `+`, then one or more ASCII digits, fitting in a `u64`.
pub open spec fn parse_u64(p: Seq<char>) -> Option<u64> {
    let digits = if p.len() > 0 && p[0] == '+' {
        p.drop_first()
    } else {
        p
    };
    if digits.len() == 0 {
        None
    } else {
        digits_u64(digits)
    }
}

/// The number of a version segment; 0 when it is not a number.
pub open spec fn segment_value(p: Seq<char>) -> u64 {
    match parse_u64(p) {
        Some(v) => v,
        None => 0,
    }
}

/// The numbers of the dot-separated segments of a version string.
pub open spec fn versions(s: Seq<char>) -> Seq<u64> {
    split_dots(s).map_values(|p: Seq<char>| segment_value(p))
}

/// Segment `i` of a version; segments past the end count as 0.
pub open spec fn seg(v: Seq<u64>, i: int) -> u64 {
    if 0 <= i < v.len() {
        v[i]
    } else {
        0
    }
}

/// `a` and `b` agree on every segment before `i`.
pub open spec fn agree_below(a: Seq<u64>, b: Seq<u64>, i: int) -> bool {
    forall|j: int| 0 <= j < i ==> #[trigger] seg(a, j) == seg(b, j)
}

/// `a` is a later version than `b`: at the first segment where they differ,
/// `a` has the larger number.
pub open spec fn version_newer(a: Seq<u64>, b: Seq<u64>) -> bool {
    exists|i: int| 0 <= i && agree_below(a, b, i) && #[trigger] seg(a, i) > seg(b, i)
}

/// The version string `a` is later than the version string `b`.
pub open spec fn newer(a: Seq<char>, b: Seq<char>) -> bool {
    version_newer(versions(a), versions(b))
}

fn segment_number(p: &Vec<char>) -> (r: u64)
    ensures
        r == segment_value(p@),
{
    if p.len() > 0 && p[0] == '+' {
        assert(p@.skip(1) =~= p@.drop_first());
        if p.len() == 1 {
            return 0;
        }
        match digits_to_u64(p, 1) {
            Some(v) => v,
            None => 0,
        }
    } else {
        if p.len() == 0 {
            return 0;
        }
        assert(p@.skip(0) =~= p@);
        match digits_to_u64(p, 0) {
            Some(v) => v,
            None => 0,
        }
    }
}

/// The numbers of the dot-separated segments of `s`.
fn version_numbers(s: &str) -> (r: Vec<u64>)
    ensures
        r@ == versions(s@),
{
    let v = chars_of(s);
    let n = v.len();
    let mut done: Vec<u64> = Vec::new();
    let mut cur: Vec<char> = Vec::new();
    assert(s@.take(0) =~= Seq::<char>::empty());
    for i in 0..n
        invariant
            n == s@.len(),
            v@ == s@,
            split_dots(s@.take(i as int)).len() >= 1,
            done@ == split_dots(s@.take(i as int)).drop_last().map_values(
                |p: Seq<char>| segment_value(p),
            ),
            cur@ == split_dots(s@.take(i as int)).last(),
    {
        let c = v[i];
        let ghost sp = split_dots(s@.take(i as int));
        let ghost next = s@.take(i + 1);
        assert(next.drop_last() =~= s@.take(i as int));
        assert(next.last() == c);
        if c == '.' {
            assert(split_dots(next) == sp.push(Seq::empty()));
            let value = segment_number(&cur);
            done.push(value);
            cur = Vec::new();
            assert(split_dots(next).drop_last() =~= sp);
            assert(sp =~= sp.drop_last().push(sp.last()));
            assert(done@ =~= split_dots(next).drop_last().map_values(
                |p: Seq<char>| segment_value(p),
            ));
            assert(cur@ =~= split_dots(next).last());
        } else {
            assert(split_dots(next) == sp.update(sp.len() - 1, sp.last().push(c)));
            cur.push(c);
            assert(split_dots(next).drop_last() =~= sp.drop_last());
        }
    }
    let ghost sp = split_dots(s@.take(n as int));
    let value = segment_number(&cur);
    done.push(value);
    assert(s@.take(n as int) =~= s@);
    assert(sp =~= sp.drop_last().push(sp.last()));
    assert(done@ =~= sp.map_values(|p: Seq<char>| segment_value(p)));
    done
}

/// Compares "1.2.3"-style versions segment by segment; a version with fewer
/// segments counts the missing ones as 0. True when `a` is later than `b`.
pub fn is_newer(a: &str, b: &str) -> (r: bool)
    ensures
        r == newer(a@, b@),
{
    let x = version_numbers(a);
    let y = version_numbers(b);
    let len = if x.len() >= y.len() {
        x.len()
    } else {
        y.len()
    };
    for i in 0..len
        invariant
            x@ == versions(a@),
            y@ == versions(b@),
            len >= x@.len(),
            len >= y@.len(),
            agree_below(x@, y@, i as int),
    {
        let p: u64 = if i < x.len() {
            x[i]
        } else {
            0
        };
        let q: u64 = if i < y.len() {
            y[i]
        } else {
            0
        };
        assert(p == seg(x@, i as int) && q == seg(y@, i as int));
        if p != q {
            if p < q {
                assert forall|k: int| 0 <= k && agree_below(x@, y@, k) implies !(#[trigger] seg(
                    x@,
                    k,
                ) > seg(y@, k)) by {
                    if k > i {
                        assert(seg(x@, i as int) == seg(y@, i as int));
                    }
                }
            }
            return p > q;
        }
    }
    assert forall|k: int| 0 <= k && agree_below(x@, y@, k) implies !(#[trigger] seg(x@, k) > seg(
        y@,
        k,
    )) by {
        if k < len {
        }
    }
    false
}

/// The repository whose releases announce new versions.
pub const REPO: &'static str = "terrence03/mytranslator";

/// Whether a newer release exists, and where to download it.
#[derive(Debug, Clone)]
pub struct UpdateInfo {
    pub current: String,
    pub latest: String,
    pub has_update: bool,
    pub url: String,
}

/// The address of the latest release in the repository's release API.
pub fn latest_release_url() -> (r: String)
    ensures
        r@ == "https://api.github.com/repos/"@ + REPO@ + "/releases/latest"@,
{
    String::from_str("https://api.github.com/repos/").concat(REPO).concat("/releases/latest")
}

/// The error reported for a release query answered with HTTP `status`.
pub fn http_error(status: u16) -> (r: String)
    ensures
        r@ == "HTTP "@ + decimal(status as nat),
{
    let code = to_decimal(status as u64);
    String::from_str("HTTP ").concat(code.as_str())
}

/// The error of a release query answered with HTTP `status`: none for a
/// success (2xx), "HTTP <status>" otherwise.
pub fn status_error(status: u16) -> (r: Option<String>)
    ensures
        match r {
            Some(e) => !(200 <= status < 300) && e@ == "HTTP "@ + decimal(status as nat),
            None => 200 <= status < 300,
        },
{
    if 200 <= status && status < 300 {
        None
    } else {
        Some(http_error(status))
    }
}

/// A release tag without its leading "v".
pub open spec fn version_of_tag(tag: Seq<char>) -> Seq<char> {
    if tag.len() > 0 && tag[0] == 'v' {
        tag.drop_first()
    } else {
        tag
    }
}

fn strip_v(tag: &str) -> (r: String)
    ensures
        r@ == version_of_tag(tag@),
{
    let n = tag.unicode_len();
    if n > 0 && tag.get_char(0) == 'v' {
        String::from_str(tag.substring_char(1, n))
    } else {
        String::from_str(tag)
    }
}

/// The tag of a release, when the release names one.
pub open spec fn release_tag(release: Json) -> Option<Seq<char>> {
    match release.get_key("tag_name"@) {
        Some(v) => v.str_of(),
        None => None,
    }
}

/// The page of a release, when the release names one.
pub open spec fn release_page(release: Json) -> Option<Seq<char>> {
    match release.get_key("html_url"@) {
        Some(v) => v.str_of(),
        None => None,
    }
}

/// What the latest release (as the release API describes it) means for the
/// running version `current`; `url` is the address that was queried. Without
/// a tag the release cannot be compared; without a page the queried address
/// is offered instead.
pub fn update_info(current: &str, release: &Json, url: &str) -> (r: Result<UpdateInfo, String>)
    ensures
        match r {
            Ok(info) => {
                &&& release_tag(*release) matches Some(tag) && info.latest@ == version_of_tag(tag)
                &&& info.current@ == current@
                &&& info.has_update == newer(info.latest@, current@)
                &&& info.url@ == match release_page(*release) {
                    Some(page) => page,
                    None => url@,
                }
            },
            Err(e) => release_tag(*release) is None && e@ == "release 回應缺少 tag_name"@,
        },
{
    let tag = match release.get("tag_name") {
        Some(v) => v.as_str(),
        None => None,
    };
    let tag = match tag {
        Some(t) => t,
        None => {
            return Err(String::from_str("release 回應缺少 tag_name"));
        },
    };
    let page = match release.get("html_url") {
        Some(v) => v.as_str(),
        None => None,
    };
    let page = match page {
        Some(h) => String::from_str(h),
        None => String::from_str(url),
    };
    let latest = strip_v(tag);
    let has_update = is_newer(latest.as_str(), current);
    Ok(UpdateInfo { current: String::from_str(current), latest, has_update, url: page })
}

/// No version string is later than itself.
pub proof fn law_newer_irreflexive(a: Seq<char>)
    ensures
        !newer(a, a),
{
}

/// Of two version strings, at most one is later than the other.
pub proof fn law_newer_asymmetric(a: Seq<char>, b: Seq<char>)
    ensures
        newer(a, b) ==> !newer(b, a),
{
    lemma_newer_asymmetric(versions(a), versions(b));
}

/// Being later is transitive.
pub proof fn law_newer_transitive(a: Seq<char>, b: Seq<char>, c: Seq<char>)
    requires
        newer(a, b),
        newer(b, c),
    ensures
        newer(a, c),
{
    lemma_newer_transitive(versions(a), versions(b), versions(c));
}

proof fn lemma_newer_asymmetric(a: Seq<u64>, b: Seq<u64>)
    ensures
        version_newer(a, b) ==> !version_newer(b, a),
{
    if version_newer(a, b) && version_newer(b, a) {
        let i = choose|i: int| 0 <= i && agree_below(a, b, i) && #[trigger] seg(a, i) > seg(b, i);
        let k = choose|k: int| 0 <= k && agree_below(b, a, k) && #[trigger] seg(b, k) > seg(a, k);
        if i < k {
            assert(seg(b, i) == seg(a, i));
        } else if k < i {
            assert(seg(a, k) == seg(b, k));
        }
    }
}

proof fn lemma_newer_transitive(a: Seq<u64>, b: Seq<u64>, c: Seq<u64>)
    requires
        version_newer(a, b),
        version_newer(b, c),
    ensures
        version_newer(a, c),
{
    let i = choose|i: int| 0 <= i && agree_below(a, b, i) && #[trigger] seg(a, i) > seg(b, i);
    let k = choose|k: int| 0 <= k && agree_below(b, c, k) && #[trigger] seg(b, k) > seg(c, k);
    let m = if i < k {
        i
    } else {
        k
    };
    assert(agree_below(a, c, m)) by {
        assert forall|j: int| 0 <= j < m implies #[trigger] seg(a, j) == seg(c, j) by {
            assert(seg(a, j) == seg(b, j));
            assert(seg(b, j) == seg(c, j));
        }
    }
    if i < k {
        assert(seg(b, i) == seg(c, i));
    } else if k < i {
        assert(seg(a, k) == seg(b, k));
    }
    assert(seg(a, m) > seg(c, m));
}

/// Missing segments count as 0: version strings whose numbers agree once
/// padded with zeros (such as "1.2" and "1.2.0") are not later than one another.
pub proof fn law_missing_segments_are_zero(a: Seq<char>, b: Seq<char>)
    requires
        forall|i: int| 0 <= i ==> #[trigger] seg(versions(a), i) == seg(versions(b), i),
    ensures
        !newer(a, b),
        !newer(b, a),
{
}

/// Version strings whose numbers differ in some segment `d` are ordered one
/// way or the other.
pub proof fn law_newer_total(a: Seq<char>, b: Seq<char>, d: int)
    requires
        0 <= d,
        seg(versions(a), d) != seg(versions(b), d),
    ensures
        newer(a, b) || newer(b, a),
{
    lemma_newer_total(versions(a), versions(b), d);
}

proof fn lemma_newer_total(a: Seq<u64>, b: Seq<u64>, d: int)
    requires
        0 <= d,
        seg(a, d) != seg(b, d),
    ensures
        version_newer(a, b) || version_newer(b, a),
    decreases d,
{
    if agree_below(a, b, d) {
        if seg(a, d) > seg(b, d) {
            assert(version_newer(a, b));
        } else {
            assert(agree_below(b, a, d));
            assert(version_newer(b, a));
        }
    } else {
        let j = choose|j: int| 0 <= j < d && #[trigger] seg(a, j) != seg(b, j);
        lemma_newer_total(a, b, j);
    }
}

proof fn lemma_split_without_dot(s: Seq<char>)
    requires
        !s.contains('.'),
    ensures
        split_dots(s) == seq![s],
    decreases s.len(),
{
    if s.len() > 0 {
        assert(!s.drop_last().contains('.')) by {
            if s.drop_last().contains('.') {
                let k = choose|k: int| 0 <= k < s.drop_last().len() && s.drop_last()[k] == '.';
                assert(s[k] == '.');
            }
        }
        lemma_split_without_dot(s.drop_last());
        assert(s.last() != '.') by {
            assert(s[s.len() - 1] == s.last());
        }
        assert(s.drop_last().push(s.last()) =~= s);
        let r = split_dots(s.drop_last());
        assert(r.update(r.len() - 1, r.last().push(s.last())) =~= seq![s]);
    } else {
        assert(s =~= Seq::<char>::empty());
    }
}

proof fn lemma_split_join(a: Seq<char>, b: Seq<char>)
    ensures
        split_dots(a + seq!['.'] + b) == split_dots(a) + split_dots(b),
    decreases b.len(),
{
    let s = a + seq!['.'] + b;
    lemma_split_dots_nonempty(a);
    if b.len() == 0 {
        assert(s =~= a.push('.'));
        assert(s.drop_last() =~= a);
        assert(split_dots(a).push(Seq::empty()) =~= split_dots(a) + seq![Seq::<char>::empty()]);
    } else {
        lemma_split_join(a, b.drop_last());
        lemma_split_dots_nonempty(b.drop_last());
        assert(s.drop_last() =~= a + seq!['.'] + b.drop_last());
        assert(s.last() == b.last());
        let l = split_dots(a);
        let r = split_dots(b.drop_last());
        if b.last() == '.' {
            assert((l + r).push(Seq::empty()) =~= l + r.push(Seq::empty()));
        } else {
            assert((l + r).update((l + r).len() - 1, (l + r).last().push(b.last())) =~= l + r.update(
                r.len() - 1,
                r.last().push(b.last()),
            ));
        }
    }
}

/// Joining two version strings with a dot joins their segment numbers.
pub proof fn law_versions_join(a: Seq<char>, b: Seq<char>)
    ensures
        versions(a + seq!['.'] + b) == versions(a) + versions(b),
{
    lemma_split_join(a, b);
    assert(split_dots(a + seq!['.'] + b).map_values(|p: Seq<char>| segment_value(p)) =~= split_dots(
        a,
    ).map_values(|p: Seq<char>| segment_value(p)) + split_dots(b).map_values(
        |p: Seq<char>| segment_value(p),
    ));
}

/// A segment written in decimal, with or without a leading `+`, is that
/// number; a segment that is not a number counts as 0.
pub proof fn law_segment_numbers(n: u64, p: Seq<char>)
    ensures
        versions(decimal(n as nat)) == seq![n],
        versions(seq!['+'] + decimal(n as nat)) == seq![n],
        !p.contains('.') && parse_u64(p) is None ==> versions(p) == seq![0u64],
{
    let d = decimal(n as nat);
    lemma_decimal_digits(n as nat);
    assert(!d.contains('.')) by {
        if d.contains('.') {
            let k = choose|k: int| 0 <= k < d.len() && d[k] == '.';
            assert(crate::text::is_digit(d[k]));
        }
    }
    lemma_split_without_dot(d);
    assert(d[0] != '+') by {
        assert(crate::text::is_digit(d[0]));
    }
    assert(parse_u64(d) == Some(n));
    assert(split_dots(d).map_values(|q: Seq<char>| segment_value(q)) =~= seq![n]);
    let pd = seq!['+'] + d;
    assert(!pd.contains('.')) by {
        if pd.contains('.') {
            let k = choose|k: int| 0 <= k < pd.len() && pd[k] == '.';
            if k > 0 {
                assert(pd[k] == d[k - 1]);
                assert(crate::text::is_digit(d[k - 1]));
            }
        }
    }
    lemma_split_without_dot(pd);
    assert(pd.drop_first() =~= d);
    assert(parse_u64(pd) == Some(n));
    assert(split_dots(pd).map_values(|q: Seq<char>| segment_value(q)) =~= seq![n]);
    if !p.contains('.') && parse_u64(p) is None {
        lemma_split_without_dot(p);
        assert(split_dots(p).map_values(|q: Seq<char>| segment_value(q)) =~= seq![0u64]);
    }
}

/// Versions made of one number compare as numbers: "10" is later than "9".
pub proof fn law_numbers_compare(m: u64, n: u64)
    ensures
        newer(decimal(m as nat), decimal(n as nat)) <==> m > n,
{
    law_segment_numbers(m, Seq::empty());
    law_segment_numbers(n, Seq::empty());
    let a = versions(decimal(m as nat));
    let b = versions(decimal(n as nat));
    if m > n {
        assert(agree_below(a, b, 0));
        assert(seg(a, 0) > seg(b, 0));
    } else {
        assert forall|i: int| 0 <= i && agree_below(a, b, i) implies !(#[trigger] seg(a, i) > seg(b, i)) by {
            if i > 0 {
                assert(seg(a, i) == 0);
            }
        }
    }
}

} // verus!
