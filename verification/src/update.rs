//! Whether a release is news.
use crate::text;
use crate::text::{chars_of, slice_of, split_on, string_of};
use vstd::prelude::*;

verus! {

/// A release that is newer than this program.
#[derive(Debug, Clone)]
pub struct UpdateInfo {
    pub latest_version: String,
    /// The release page.
    pub url: String,
}

/// A published release, as the release list describes it.
pub struct Release {
    pub tag_name: String,
    pub html_url: String,
    pub prerelease: bool,
    pub draft: bool,
}

/// `s` is made of decimal digits.
pub open spec fn all_digits(s: Seq<char>) -> bool {
    forall|i: int| 0 <= i < s.len() ==> '0' <= #[trigger] s[i] <= '9'
}

/// The number that the digits of `s` write.
pub open spec fn decimal(s: Seq<char>) -> int
    decreases s.len(),
{
    if s.len() == 0 {
        0
    } else {
        decimal(s.drop_last()) * 10 + (s.last() as int - '0' as int)
    }
}

/// `s` without a plus sign in front.
pub open spec fn unsigned(s: Seq<char>) -> Seq<char> {
    if s.len() > 0 && s[0] == '+' {
        s.skip(1)
    } else {
        s
    }
}

/// The 32-bit number that `s` writes: digits, at least one, with or without a
/// plus sign in front.
pub open spec fn number(s: Seq<char>) -> Option<u32> {
    let digits = unsigned(s);
    if digits.len() > 0 && all_digits(digits) && decimal(digits) <= u32::MAX {
        Some(decimal(digits) as u32)
    } else {
        None
    }
}

/// The numbers among the parts; a part that is none is left out.
pub open spec fn numbers(ps: Seq<Seq<char>>) -> Seq<u32>
    decreases ps.len(),
{
    if ps.len() == 0 {
        Seq::empty()
    } else {
        match number(ps.last()) {
            Some(n) => numbers(ps.drop_last()).push(n),
            None => numbers(ps.drop_last()),
        }
    }
}

/// A version's components.
pub open spec fn version(s: Seq<char>) -> Seq<u32> {
    numbers(text::parts(s, '.'))
}

/// The component at `i`; what is missing counts as zero.
pub open spec fn component(v: Seq<u32>, i: int) -> int {
    if 0 <= i < v.len() {
        v[i] as int
    } else {
        0
    }
}

/// `a` and `b` agree in the components before `i`.
pub open spec fn agree_before(a: Seq<u32>, b: Seq<u32>, i: int) -> bool {
    forall|j: int| 0 <= j < i ==> #[trigger] component(a, j) == component(b, j)
}

/// `a` is newer than `b`: it is greater in the first component in which the two
/// differ.
pub open spec fn newer(a: Seq<u32>, b: Seq<u32>) -> bool {
    exists|i: int|
        0 <= i && #[trigger] agree_before(a, b, i) && component(a, i) > component(b, i)
}

proof fn lemma_decimal_grows(s: Seq<char>, n: int)
    requires
        all_digits(s),
        0 <= n <= s.len(),
    ensures
        0 <= decimal(s.take(n)) <= decimal(s),
    decreases s.len(),
{
    if n == s.len() {
        assert(s.take(n) =~= s);
        if s.len() > 0 {
            lemma_decimal_grows(s.drop_last(), s.len() - 1);
            assert(s.drop_last().take(s.len() - 1) =~= s.drop_last());
        }
    } else {
        assert(s.drop_last().take(n) =~= s.take(n));
        assert forall|i: int| 0 <= i < s.drop_last().len() implies '0' <= #[trigger] s.drop_last()[i]
            <= '9' by {
            assert(s.drop_last()[i] == s[i]);
        }
        lemma_decimal_grows(s.drop_last(), n);
    }
}

/// Reads a 32-bit number.
fn parse_number(part: &Vec<char>) -> (r: Option<u32>)
    ensures
        r == number(part@),
{
    let digits = if part.len() > 0 && part[0] == '+' {
        slice_of(part, 1, part.len())
    } else {
        slice_of(part, 0, part.len())
    };
    assert(digits@ =~= unsigned(part@));
    if digits.len() == 0 {
        return None;
    }
    let mut value: u64 = 0;
    let mut i: usize = 0;
    assert(digits@.take(0) =~= Seq::empty());
    while i < digits.len()
        invariant
            i <= digits@.len(),
            digits@ == unsigned(part@),
            digits@.len() > 0,
            forall|k: int| 0 <= k < i ==> '0' <= #[trigger] digits@[k] <= '9',
            value == decimal(digits@.take(i as int)),
            value <= u32::MAX,
        decreases digits.len() - i,
    {
        let c = digits[i];
        if c < '0' || c > '9' {
            assert(!all_digits(digits@));
            return None;
        }
        assert(digits@.take(i + 1).drop_last() =~= digits@.take(i as int));
        value = value * 10 + (c as u64 - '0' as u64);
        i += 1;
        if value > u32::MAX as u64 {
            proof {
                if all_digits(digits@) {
                    lemma_decimal_grows(digits@, i as int);
                }
            }
            return None;
        }
    }
    assert(digits@.take(digits@.len() as int) =~= digits@);
    Some(value as u32)
}

/// The components of a version.
pub fn parse_version(s: &str) -> (r: Vec<u32>)
    ensures
        r@ == version(s@),
{
    let chars = chars_of(s);
    let split = split_on(&chars, '.');
    let ghost ps = text::parts(s@, '.');
    let mut out: Vec<u32> = Vec::new();
    let mut i: usize = 0;
    assert(ps.take(0) =~= Seq::empty());
    while i < split.len()
        invariant
            i <= split@.len(),
            ps == text::parts(s@, '.'),
            split@.len() == ps.len(),
            forall|k: int| 0 <= k < split@.len() ==> (#[trigger] split@[k])@ == ps[k],
            out@ == numbers(ps.take(i as int)),
        decreases split.len() - i,
    {
        assert(ps.take(i + 1).drop_last() =~= ps.take(i as int));
        assert(ps.take(i + 1).last() == split@[i as int]@);
        if let Some(n) = parse_number(&split[i]) {
            out.push(n);
        }
        i += 1;
    }
    assert(ps.take(ps.len() as int) =~= ps);
    out
}

/// Whether `latest` is a newer version than `current`.
pub fn newer_than(latest: &str, current: &str) -> (r: bool)
    ensures
        r == newer(version(latest@), version(current@)),
{
    let l = parse_version(latest);
    let c = parse_version(current);
    let n: usize = if l.len() >= c.len() {
        l.len()
    } else {
        c.len()
    };
    let mut i: usize = 0;
    while i < n
        invariant
            i <= n,
            l@.len() <= n,
            c@.len() <= n,
            agree_before(l@, c@, i as int),
            l@ == version(latest@),
            c@ == version(current@),
        decreases n - i,
    {
        let lv: u32 = if i < l.len() {
            l[i]
        } else {
            0
        };
        let cv: u32 = if i < c.len() {
            c[i]
        } else {
            0
        };
        assert(lv == component(l@, i as int) && cv == component(c@, i as int));
        if lv != cv {
            proof {
                lemma_decided(l@, c@, i as int);
            }
            return lv > cv;
        }
        i += 1;
    }
    proof {
        assert forall|k: int| 0 <= k && agree_before(l@, c@, k) implies component(l@, k)
            == component(c@, k) by {
            if k < n {
                assert(component(l@, k) == component(c@, k));
            }
        }
    }
    false
}

/// The first component in which two versions differ decides between them.
proof fn lemma_decided(a: Seq<u32>, b: Seq<u32>, i: int)
    requires
        0 <= i,
        agree_before(a, b, i),
        component(a, i) != component(b, i),
    ensures
        newer(a, b) == (component(a, i) > component(b, i)),
{
    if newer(a, b) {
        let k = choose|k: int|
            0 <= k && #[trigger] agree_before(a, b, k) && component(a, k) > component(b, k);
        if k < i {
            assert(component(a, k) == component(b, k));
        }
        if i < k {
            assert(component(a, i) == component(b, i));
        }
    }
}

/// `s` without the letters v in front.
pub open spec fn without_v(s: Seq<char>) -> Seq<char>
    decreases s.len(),
{
    if s.len() > 0 && s[0] == 'v' {
        without_v(s.skip(1))
    } else {
        s
    }
}

fn strip_v(tag: &str) -> (r: String)
    ensures
        r@ == without_v(tag@),
{
    let chars = chars_of(tag);
    let mut i: usize = 0;
    assert(chars@.skip(0) =~= chars@);
    while i < chars.len() && chars[i] == 'v'
        invariant
            i <= chars@.len(),
            without_v(chars@) == without_v(chars@.skip(i as int)),
        decreases chars.len() - i,
    {
        assert(chars@.skip(i as int).skip(1) =~= chars@.skip(i + 1));
        i += 1;
    }
    assert(chars@.skip(i as int) =~= chars@.subrange(i as int, chars@.len() as int));
    string_of(&slice_of(&chars, i, chars.len()))
}

/// A release is news: it is out, it is meant for everybody, and it is newer.
pub open spec fn is_news(r: Release, current: Seq<char>) -> bool {
    &&& !r.prerelease
    &&& !r.draft
    &&& newer(version(without_v(r.tag_name@)), version(current))
}

/// What to tell the user about the latest release, if anything.
pub fn news(release: Release, current: &str) -> (r: Option<UpdateInfo>)
    ensures
        r is Some <==> is_news(release, current@),
        r matches Some(info) ==> info.latest_version@ == without_v(release.tag_name@) && info.url
            == release.html_url,
{
    if release.prerelease || release.draft {
        return None;
    }
    let latest_version = strip_v(release.tag_name.as_str());
    if newer_than(latest_version.as_str(), current) {
        Some(UpdateInfo { latest_version, url: release.html_url })
    } else {
        None
    }
}

/// No version is newer than itself.
pub proof fn law_newer_is_irreflexive(a: Seq<u32>)
    ensures
        !newer(a, a),
{
}

/// Of two versions at most one is newer.
pub proof fn law_newer_is_asymmetric(a: Seq<u32>, b: Seq<u32>)
    requires
        newer(a, b),
    ensures
        !newer(b, a),
{
    let i = choose|i: int|
        0 <= i && #[trigger] agree_before(a, b, i) && component(a, i) > component(b, i);
    assert forall|j: int| 0 <= j < i implies #[trigger] component(b, j) == component(a, j) by {
        assert(component(a, j) == component(b, j));
    }
    lemma_decided(b, a, i);
}

/// What is newer than a newer version is newer.
pub proof fn law_newer_is_transitive(a: Seq<u32>, b: Seq<u32>, c: Seq<u32>)
    requires
        newer(a, b),
        newer(b, c),
    ensures
        newer(a, c),
{
    let i = choose|i: int|
        0 <= i && #[trigger] agree_before(a, b, i) && component(a, i) > component(b, i);
    let k = choose|k: int|
        0 <= k && #[trigger] agree_before(b, c, k) && component(b, k) > component(c, k);
    let m = if i <= k {
        i
    } else {
        k
    };
    assert forall|j: int| 0 <= j < m implies #[trigger] component(a, j) == component(c, j) by {
        assert(component(a, j) == component(b, j));
        assert(component(b, j) == component(c, j));
    }
    assert(agree_before(a, c, m));
    if i < k {
        assert(component(b, i) == component(c, i));
    }
    if k < i {
        assert(component(a, k) == component(b, k));
    }
    assert(component(a, m) > component(c, m));
}

/// Missing components count as zero: a zero at the end changes nothing.
pub proof fn law_trailing_zeros_do_not_count(a: Seq<u32>, b: Seq<u32>)
    ensures
        newer(a.push(0), b) == newer(a, b),
        newer(b, a.push(0)) == newer(b, a),
{
    assert forall|j: int| #[trigger] component(a.push(0), j) == component(a, j) by {}
    if newer(a, b) {
        let i = choose|i: int|
            0 <= i && #[trigger] agree_before(a, b, i) && component(a, i) > component(b, i);
        assert forall|j: int| 0 <= j < i implies #[trigger] component(a.push(0), j) == component(
            b,
            j,
        ) by {
            assert(component(a, j) == component(b, j));
        }
        assert(agree_before(a.push(0), b, i));
        assert(component(a.push(0), i) > component(b, i));
    }
    if newer(a.push(0), b) {
        let i = choose|i: int|
            0 <= i && #[trigger] agree_before(a.push(0), b, i) && component(a.push(0), i)
                > component(b, i);
        assert forall|j: int| 0 <= j < i implies #[trigger] component(a, j) == component(b, j) by {
            assert(component(a.push(0), j) == component(b, j));
        }
        assert(agree_before(a, b, i));
        assert(component(a.push(0), i) == component(a, i));
    }
    if newer(b, a) {
        let i = choose|i: int|
            0 <= i && #[trigger] agree_before(b, a, i) && component(b, i) > component(a, i);
        assert forall|j: int| 0 <= j < i implies #[trigger] component(b, j) == component(
            a.push(0),
            j,
        ) by {
            assert(component(b, j) == component(a, j));
            assert(component(a.push(0), j) == component(a, j));
        }
        assert(agree_before(b, a.push(0), i));
        assert(component(a.push(0), i) == component(a, i));
    }
    if newer(b, a.push(0)) {
        let i = choose|i: int|
            0 <= i && #[trigger] agree_before(b, a.push(0), i) && component(b, i) > component(
                a.push(0),
                i,
            );
        assert forall|j: int| 0 <= j < i implies #[trigger] component(b, j) == component(a, j) by {
            assert(component(b, j) == component(a.push(0), j));
            assert(component(a.push(0), j) == component(a, j));
        }
        assert(agree_before(b, a, i));
        assert(component(a.push(0), i) == component(a, i));
    }
}

/// A number in decimal is a component of that value, with or without a plus sign in front;
/// a text that holds anything but digits behind that sign is none, and neither is one that
/// holds nothing.
pub proof fn law_what_a_component_is(n: u32, junk: Seq<char>, i: int)
    ensures
        number(text::decimal_text(n as nat)) == Some(n),
        number(seq!['+'] + text::decimal_text(n as nat)) == Some(n),
        1 <= i < junk.len() && !('0' <= junk[i] <= '9') ==> number(junk) is None,
        junk.len() > 0 && junk[0] != '+' && !('0' <= junk[0] <= '9') ==> number(junk) is None,
        number(Seq::empty()) is None,
        number(seq!['+']) is None,
{
    let s = text::decimal_text(n as nat);
    text::law_decimals_read_back(n as nat);
    lemma_decimal_reads(s);
    assert(s[0] != '+');
    let signed = seq!['+'] + s;
    assert(signed.skip(1) =~= s);
    assert(signed[0] == '+');
    if 1 <= i < junk.len() && !('0' <= junk[i] <= '9') {
        let d = unsigned(junk);
        if junk[0] == '+' {
            assert(d[i - 1] == junk[i]);
        } else {
            assert(d[i] == junk[i]);
        }
    }
    if junk.len() > 0 && junk[0] != '+' && !('0' <= junk[0] <= '9') {
        assert(unsigned(junk)[0] == junk[0]);
    }
    assert(unsigned(seq!['+']) =~= Seq::empty());
}

proof fn lemma_decimal_reads(s: Seq<char>)
    ensures
        decimal(s) == text::read_decimal(s),
    decreases s.len(),
{
    if s.len() > 0 {
        lemma_decimal_reads(s.drop_last());
    }
}

/// A version is read part by part: behind a point its components follow those before it, a
/// number is one component, and a part that is no number is passed over.
pub proof fn law_versions_are_read_part_by_part(s: Seq<char>, t: Seq<char>)
    ensures
        version(s.push('.') + t) == version(s) + version(t),
        !s.contains('.') ==> version(s) == (match number(s) {
            Some(n) => seq![n],
            None => Seq::empty(),
        }),
{
    text::law_a_separator_parts_a_text(s, '.', t);
    lemma_numbers_join(text::parts(s, '.'), text::parts(t, '.'));
    if !s.contains('.') {
        assert(seq![s].drop_last() =~= Seq::<Seq<char>>::empty());
        assert(numbers(Seq::<Seq<char>>::empty()) =~= Seq::<u32>::empty());
        assert(version(s) =~= (match number(s) {
            Some(n) => seq![n],
            None => Seq::empty(),
        }));
    }
}

proof fn lemma_numbers_join(a: Seq<Seq<char>>, b: Seq<Seq<char>>)
    ensures
        numbers(a + b) == numbers(a) + numbers(b),
    decreases b.len(),
{
    if b.len() == 0 {
        assert(a + b =~= a);
        assert(numbers(a) + numbers(b) =~= numbers(a));
    } else {
        lemma_numbers_join(a, b.drop_last());
        assert((a + b).drop_last() =~= a + b.drop_last());
        assert((a + b).last() == b.last());
        assert(numbers(a + b) =~= numbers(a) + numbers(b));
    }
}

/// The first component in which two versions differ decides which of them is newer, and
/// nothing behind it matters.
pub proof fn law_the_first_difference_decides(
    same: Seq<u32>,
    x: u32,
    y: u32,
    rest: Seq<u32>,
    other: Seq<u32>,
)
    requires
        x != y,
    ensures
        newer(same.push(x) + rest, same.push(y) + other) <==> x > y,
{
    let a = same.push(x) + rest;
    let b = same.push(y) + other;
    let n = same.len() as int;
    assert forall|j: int| 0 <= j < n implies #[trigger] component(a, j) == component(b, j) by {
        assert(a[j] == same[j] && b[j] == same[j]);
    }
    assert(component(a, n) == x && component(b, n) == y);
    lemma_decided(a, b, n);
}

/// A version that goes on longer is newer where what it adds is not all zero.
pub proof fn law_a_longer_version_is_newer(a: Seq<u32>, more: Seq<u32>, i: int)
    requires
        0 <= i < more.len(),
        forall|k: int| 0 <= k < i ==> #[trigger] more[k] == 0,
    ensures
        more[i] > 0 ==> newer(a + more, a) && !newer(a, a + more),
{
    let b = a + more;
    let n = a.len() + i;
    assert forall|j: int| 0 <= j < n implies #[trigger] component(b, j) == component(a, j) by {
        if j < a.len() {
            assert(b[j] == a[j]);
        } else {
            assert(b[j] == more[j - a.len()]);
        }
    }
    assert(component(b, n) == more[i] && component(a, n) == 0);
    if more[i] > 0 {
        lemma_decided(b, a, n);
        law_newer_is_asymmetric(b, a);
    }
}

/// The letters v in front of a tag do not count, and nothing else of it goes.
pub proof fn law_only_leading_vs_are_dropped(tag: Seq<char>)
    requires
        tag.len() > 0 ==> tag[0] != 'v',
    ensures
        without_v(tag) == tag,
        without_v(seq!['v'] + tag) == tag,
{
    assert((seq!['v'] + tag).skip(1) =~= tag);
}

/// A draft or a release for testers is never news, and any other is exactly where it is
/// newer than the version that runs.
pub proof fn law_what_is_news(r: Release, current: Seq<char>)
    ensures
        r.prerelease || r.draft ==> !is_news(r, current),
        !r.prerelease && !r.draft ==> (is_news(r, current) <==> newer(
            version(without_v(r.tag_name@)),
            version(current),
        )),
{
}

} // verus!
