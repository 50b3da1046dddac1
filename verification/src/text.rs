//! Text as sequences of characters: the small operations that the rest of the
//! library states its results with.
use vstd::prelude::*;
use vstd::utf8;

verus! {

/// `String::push` appends one character.
pub assume_specification[ String::push ](s: &mut String, c: char)
    ensures
        final(s)@ == old(s)@.push(c),
;

/// `String::push_str` appends a whole string slice.
pub assume_specification[ String::push_str ](s: &mut String, t: &str)
    ensures
        final(s)@ == old(s)@ + t@,
;

/// The characters of `s`.
pub fn chars_of(s: &str) -> (r: Vec<char>)
    ensures
        r@ == s@,
{
    let mut out: Vec<char> = Vec::new();
    for c in it: s.chars()
        invariant
            it.seq() == s@,
            out@ == s@.take(it.index()),
    {
        out.push(c);
        assert(s@.take(it.index() + 1) == s@.take(it.index()).push(c));
    }
    assert(s@.take(s@.len() as int) == s@);
    out
}

/// The string that holds `chars`.
pub fn string_of(chars: &Vec<char>) -> (r: String)
    ensures
        r@ == chars@,
{
    let mut s = String::new();
    let mut i: usize = 0;
    while i < chars.len()
        invariant
            i <= chars.len(),
            s@ == chars@.take(i as int),
        decreases chars.len() - i,
    {
        s.push(chars[i]);
        assert(chars@.take(i + 1) == chars@.take(i as int).push(chars@[i as int]));
        i += 1;
    }
    assert(chars@.take(chars@.len() as int) == chars@);
    s
}

/// Whether two character vectors hold the same text.
pub fn same_chars(a: &Vec<char>, b: &Vec<char>) -> (r: bool)
    ensures
        r == (a@ == b@),
{
    if a.len() != b.len() {
        return false;
    }
    let mut i: usize = 0;
    while i < a.len()
        invariant
            i <= a.len(),
            a.len() == b.len(),
            forall|k: int| 0 <= k < i ==> a@[k] == b@[k],
        decreases a.len() - i,
    {
        if a[i] != b[i] {
            return false;
        }
        i += 1;
    }
    assert(a@ =~= b@);
    true
}

/// Whether two string slices hold the same text.
pub fn same(a: &str, b: &str) -> (r: bool)
    ensures
        r == (a@ == b@),
{
    same_chars(&chars_of(a), &chars_of(b))
}

/// The number of bytes that `s` takes in UTF-8.
pub fn byte_len(s: &str) -> (n: usize)
    ensures
        n == utf8::encode_utf8(s@).len(),
{
    s.as_bytes().len()
}

/// The characters with the Unicode property `White_Space`.
pub open spec fn white(c: char) -> bool {
    ||| '\u{9}' <= c <= '\u{d}'
    ||| c == '\u{20}'
    ||| c == '\u{85}'
    ||| c == '\u{a0}'
    ||| c == '\u{1680}'
    ||| '\u{2000}' <= c <= '\u{200a}'
    ||| '\u{2028}' <= c <= '\u{2029}'
    ||| c == '\u{202f}'
    ||| c == '\u{205f}'
    ||| c == '\u{3000}'
}

/// Whether `c` is white space.
pub fn is_white(c: char) -> (r: bool)
    ensures
        r == white(c),
{
    ('\u{9}' <= c && c <= '\u{d}') || c == '\u{20}' || c == '\u{85}' || c == '\u{a0}'
        || c == '\u{1680}' || ('\u{2000}' <= c && c <= '\u{200a}') || c == '\u{2028}'
        || c == '\u{2029}' || c == '\u{202f}' || c == '\u{205f}' || c == '\u{3000}'
}

/// The words of `s`: its longest runs without white space, in order.
pub open spec fn words(s: Seq<char>) -> Seq<Seq<char>>
    decreases s.len(),
{
    if s.len() == 0 {
        Seq::empty()
    } else {
        let before = words(s.drop_last());
        if white(s.last()) {
            before
        } else if s.len() == 1 || white(s[s.len() - 2]) {
            before.push(seq![s.last()])
        } else {
            before.drop_last().push(before.last().push(s.last()))
        }
    }
}

/// A text that does not end in white space ends in its last word.
pub proof fn lemma_words_last(s: Seq<char>)
    requires
        s.len() > 0,
        !white(s.last()),
    ensures
        words(s).len() > 0,
        words(s).last().len() > 0,
    decreases s.len(),
{
    if s.len() > 1 && !white(s[s.len() - 2]) {
        lemma_words_last(s.drop_last());
    }
}

/// No word is empty and none holds white space.
pub proof fn lemma_words_solid(s: Seq<char>)
    ensures
        forall|k: int, j: int|
            #![trigger words(s)[k][j]]
            0 <= k < words(s).len() && 0 <= j < words(s)[k].len() ==> !white(words(s)[k][j]),
        forall|k: int| 0 <= k < words(s).len() ==> #[trigger] words(s)[k].len() > 0,
    decreases s.len(),
{
    if s.len() > 0 {
        lemma_words_solid(s.drop_last());
        if !white(s.last()) && s.len() > 1 && !white(s[s.len() - 2]) {
            lemma_words_last(s.drop_last());
        }
    }
}

/// The words of two texts that stand a space apart are those of the one and then those
/// of the other.
pub proof fn lemma_words_apart(s: Seq<char>, t: Seq<char>)
    ensures
        words(s.push(' ') + t) == words(s) + words(t),
{
    law_white_space_parts_words(s, ' ', t);
}

/// The words of `text`, as `str::split_whitespace` yields them.
pub fn split_words(text: &str) -> (r: Vec<Vec<char>>)
    ensures
        r@.len() == words(text@).len(),
        forall|k: int| 0 <= k < r@.len() ==> (#[trigger] r@[k])@ == words(text@)[k],
{
    let chars = chars_of(text);
    let mut out: Vec<Vec<char>> = Vec::new();
    let mut i: usize = 0;
    while i < chars.len()
        invariant
            i <= chars.len(),
            chars@ == text@,
            out@.len() == words(text@.take(i as int)).len(),
            forall|k: int|
                0 <= k < out@.len() ==> (#[trigger] out@[k])@ == words(text@.take(i as int))[k],
        decreases chars.len() - i,
    {
        let c = chars[i];
        let ghost seen = text@.take(i as int);
        let ghost next = text@.take(i + 1);
        assert(next.drop_last() == seen && next.last() == c);
        if !is_white(c) {
            if i == 0 || is_white(chars[i - 1]) {
                let mut word: Vec<char> = Vec::new();
                word.push(c);
                assert(word@ == seq![c]);
                out.push(word);
            } else {
                proof {
                    lemma_words_last(seen);
                }
                let last = out.pop();
                if let Some(mut word) = last {
                    word.push(c);
                    out.push(word);
                }
            }
        }
        i += 1;
    }
    assert(text@.take(text@.len() as int) == text@);
    out
}

/// `s` without the white space at its start.
pub open spec fn trim_start(s: Seq<char>) -> Seq<char>
    decreases s.len(),
{
    if s.len() > 0 && white(s[0]) {
        trim_start(s.skip(1))
    } else {
        s
    }
}

/// `s` without the white space at its end.
pub open spec fn trim_end(s: Seq<char>) -> Seq<char>
    decreases s.len(),
{
    if s.len() > 0 && white(s.last()) {
        trim_end(s.drop_last())
    } else {
        s
    }
}

/// `s` without the white space at either end.
pub open spec fn trimmed(s: Seq<char>) -> Seq<char> {
    trim_end(trim_start(s))
}

/// The part of `chars` from `lo` up to `hi`.
pub fn slice_of(chars: &Vec<char>, lo: usize, hi: usize) -> (r: Vec<char>)
    requires
        lo <= hi <= chars@.len(),
    ensures
        r@ == chars@.subrange(lo as int, hi as int),
{
    let mut out: Vec<char> = Vec::new();
    let mut i: usize = lo;
    while i < hi
        invariant
            lo <= i <= hi <= chars@.len(),
            out@ == chars@.subrange(lo as int, i as int),
        decreases hi - i,
    {
        out.push(chars[i]);
        assert(chars@.subrange(lo as int, i + 1) == chars@.subrange(lo as int, i as int).push(
            chars@[i as int],
        ));
        i += 1;
    }
    out
}

/// `text` without the white space at either end, as `str::trim` gives it.
pub fn trim(text: &str) -> (r: String)
    ensures
        r@ == trimmed(text@),
{
    let chars = chars_of(text);
    let mut lo: usize = 0;
    assert(chars@.skip(0) == chars@);
    while lo < chars.len() && is_white(chars[lo])
        invariant
            lo <= chars@.len(),
            trim_start(chars@) == trim_start(chars@.skip(lo as int)),
        decreases chars.len() - lo,
    {
        assert(chars@.skip(lo as int).skip(1) == chars@.skip(lo + 1));
        lo += 1;
    }
    let ghost rest = chars@.skip(lo as int);
    assert(trim_start(chars@) == rest);
    let mut hi: usize = chars.len();
    assert(chars@.subrange(lo as int, hi as int) == rest);
    while hi > lo && is_white(chars[hi - 1])
        invariant
            lo <= hi <= chars@.len(),
            trim_end(rest) == trim_end(chars@.subrange(lo as int, hi as int)),
        decreases hi,
    {
        assert(chars@.subrange(lo as int, hi as int).drop_last() == chars@.subrange(
            lo as int,
            hi - 1,
        ));
        hi -= 1;
    }
    string_of(&slice_of(&chars, lo, hi))
}

/// The parts of `s` between the separators.
pub open spec fn parts(s: Seq<char>, sep: char) -> Seq<Seq<char>>
    decreases s.len(),
{
    if s.len() == 0 {
        seq![Seq::empty()]
    } else {
        let before = parts(s.drop_last(), sep);
        if s.last() == sep {
            before.push(Seq::empty())
        } else {
            before.drop_last().push(before.last().push(s.last()))
        }
    }
}

/// Every text has at least one part.
pub proof fn lemma_parts_nonempty(s: Seq<char>, sep: char)
    ensures
        parts(s, sep).len() > 0,
    decreases s.len(),
{
    if s.len() > 0 {
        lemma_parts_nonempty(s.drop_last(), sep);
    }
}

/// Splits a text at every separator.
pub fn split_on(chars: &Vec<char>, sep: char) -> (r: Vec<Vec<char>>)
    ensures
        r@.len() == parts(chars@, sep).len(),
        forall|k: int| 0 <= k < r@.len() ==> (#[trigger] r@[k])@ == parts(chars@, sep)[k],
{
    let mut out: Vec<Vec<char>> = Vec::new();
    out.push(Vec::new());
    let mut i: usize = 0;
    assert(chars@.take(0) =~= Seq::empty());
    assert(out@[0]@ =~= Seq::<char>::empty());
    while i < chars.len()
        invariant
            i <= chars@.len(),
            out@.len() == parts(chars@.take(i as int), sep).len(),
            forall|k: int|
                0 <= k < out@.len() ==> (#[trigger] out@[k])@ == parts(
                    chars@.take(i as int),
                    sep,
                )[k],
        decreases chars.len() - i,
    {
        let c = chars[i];
        let ghost seen = chars@.take(i as int);
        let ghost next = chars@.take(i + 1);
        assert(next.drop_last() =~= seen && next.last() == c);
        proof {
            lemma_parts_nonempty(seen, sep);
        }
        if c == sep {
            let fresh: Vec<char> = Vec::new();
            assert(fresh@ =~= Seq::<char>::empty());
            out.push(fresh);
        } else if let Some(mut part) = out.pop() {
            part.push(c);
            out.push(part);
        }
        i += 1;
    }
    assert(chars@.take(chars@.len() as int) =~= chars@);
    out
}

/// The decimal digit for `d`.
pub open spec fn digit(d: int) -> char {
    ('0' as int + d) as char
}

/// `n` in decimal.
pub open spec fn decimal_text(n: nat) -> Seq<char>
    decreases n,
{
    if n < 10 {
        seq![digit(n as int)]
    } else {
        decimal_text(n / 10).push(digit((n % 10) as int))
    }
}

fn digit_char(d: u64) -> (c: char)
    requires
        d < 10,
    ensures
        c == digit(d as int),
{
    if d == 0 {
        '0'
    } else if d == 1 {
        '1'
    } else if d == 2 {
        '2'
    } else if d == 3 {
        '3'
    } else if d == 4 {
        '4'
    } else if d == 5 {
        '5'
    } else if d == 6 {
        '6'
    } else if d == 7 {
        '7'
    } else if d == 8 {
        '8'
    } else {
        '9'
    }
}

/// Writes `n` in decimal.
pub fn decimal(n: u64) -> (r: String)
    ensures
        r@ == decimal_text(n as nat),
    decreases n,
{
    if n < 10 {
        let mut s = String::new();
        s.push(digit_char(n));
        assert(s@ =~= seq![digit(n as int)]);
        s
    } else {
        let mut s = decimal(n / 10);
        s.push(digit_char(n % 10));
        s
    }
}

/// `needle` stands in `hay` at `i`.
pub open spec fn occurs_at(hay: Seq<char>, needle: Seq<char>, i: int) -> bool {
    &&& 0 <= i
    &&& i + needle.len() <= hay.len()
    &&& hay.subrange(i, i + needle.len()) == needle
}

/// `needle` stands somewhere in `hay`.
pub open spec fn occurs(hay: Seq<char>, needle: Seq<char>) -> bool {
    exists|i: int| occurs_at(hay, needle, i)
}

fn is_at(hay: &Vec<char>, needle: &Vec<char>, i: usize) -> (r: bool)
    requires
        i + needle@.len() <= hay@.len(),
    ensures
        r == occurs_at(hay@, needle@, i as int),
{
    let mut k: usize = 0;
    while k < needle.len()
        invariant
            k <= needle@.len(),
            i + needle@.len() <= hay@.len(),
            i + needle.len() <= hay.len(),
            forall|j: int| 0 <= j < k ==> hay@[i + j] == #[trigger] needle@[j],
        decreases needle.len() - k,
    {
        if hay[i + k] != needle[k] {
            let ghost sub = hay@.subrange(i as int, i + needle@.len());
            assert(sub[k as int] != needle@[k as int]);
            return false;
        }
        k += 1;
    }
    assert(hay@.subrange(i as int, i + needle@.len()) =~= needle@);
    true
}

/// Whether `needle` stands somewhere in `hay`, as `str::contains` answers.
pub fn contains(hay: &str, needle: &str) -> (r: bool)
    ensures
        r == occurs(hay@, needle@),
{
    let h = chars_of(hay);
    let n = chars_of(needle);
    if n.len() > h.len() {
        return false;
    }
    let last: usize = h.len() - n.len();
    let mut i: usize = 0;
    while i <= last
        invariant
            h@ == hay@,
            n@ == needle@,
            n.len() <= h.len(),
            last == h.len() - n.len(),
            i <= last + 1,
            forall|k: int| 0 <= k < i ==> !occurs_at(hay@, needle@, k),
        decreases last + 1 - i,
    {
        if is_at(&h, &n, i) {
            return true;
        }
        if i == last {
            assert forall|k: int| !occurs_at(hay@, needle@, k) by {
                if 0 <= k < i {
                    assert(!occurs_at(hay@, needle@, k));
                }
            }
            return false;
        }
        i += 1;
    }
    false
}

/// What `char::is_alphanumeric` answers: the Unicode properties `Alphabetic`
/// and `Numeric` taken together.
pub uninterp spec fn alphanumeric(c: char) -> bool;

/// Calls `char::is_alphanumeric`. Its answer depends on the character alone and
/// goes by the name [`alphanumeric`]; which characters those are is the Unicode
/// tables' to say.
#[verifier::external_body]
pub(crate) fn is_alphanumeric(c: char) -> (r: bool)
    ensures
        r == alphanumeric(c),
{
    c.is_alphanumeric()
}

/// What `str::to_lowercase` gives for a text.
pub uninterp spec fn lowercase(s: Seq<char>) -> Seq<char>;

/// Calls `str::to_lowercase`. The result depends on the text alone and goes by
/// the name [`lowercase`].
#[verifier::external_body]
pub(crate) fn to_lowercase(s: &str) -> (r: String)
    ensures
        r@ == lowercase(s@),
{
    s.to_lowercase()
}

/// What `str::to_uppercase` gives for a text.
pub uninterp spec fn uppercase(s: Seq<char>) -> Seq<char>;

/// Calls `str::to_uppercase`. The result depends on the text alone and goes by
/// the name [`uppercase`].
#[verifier::external_body]
pub(crate) fn to_uppercase(s: &str) -> (r: String)
    ensures
        r@ == uppercase(s@),
{
    s.to_uppercase()
}

/// What `char::to_uppercase` gives for a character.
pub uninterp spec fn char_uppercase(c: char) -> Seq<char>;

/// Calls `char::to_uppercase` and collects what it yields. The result depends
/// on the character alone and goes by the name [`char_uppercase`].
#[verifier::external_body]
pub(crate) fn char_to_uppercase(c: char) -> (r: String)
    ensures
        r@ == char_uppercase(c),
{
    c.to_uppercase().to_string()
}

/// The white space of Unicode by its code points.
pub proof fn law_what_white_space_is(c: char)
    ensures
        white(c) <==> {
            let n = c as u32;
            ||| 9 <= n <= 13
            ||| n == 32
            ||| n == 133
            ||| n == 160
            ||| n == 5760
            ||| 8192 <= n <= 8202
            ||| n == 8232
            ||| n == 8233
            ||| n == 8239
            ||| n == 8287
            ||| n == 12288
        },
{
}

/// Trimming takes the white space off the two ends and nothing else: what stands between
/// two runs of white space, and neither begins nor ends with any, comes out whole.
pub proof fn law_trimming_keeps_what_stands_between(
    lead: Seq<char>,
    middle: Seq<char>,
    tail: Seq<char>,
)
    requires
        forall|i: int| 0 <= i < lead.len() ==> white(#[trigger] lead[i]),
        forall|i: int| 0 <= i < tail.len() ==> white(#[trigger] tail[i]),
        middle.len() > 0 ==> !white(middle[0]) && !white(middle.last()),
    ensures
        trimmed(lead + middle + tail) == middle,
    decreases lead.len() + tail.len(),
{
    let s = lead + middle + tail;
    if lead.len() > 0 {
        assert(white(lead[0]));
        assert(s[0] == lead[0]);
        assert(s.skip(1) =~= lead.skip(1) + middle + tail);
        assert forall|i: int| 0 <= i < lead.skip(1).len() implies white(
            #[trigger] lead.skip(1)[i],
        ) by {
            assert(white(lead[i + 1]));
        }
        law_trimming_keeps_what_stands_between(lead.skip(1), middle, tail);
    } else if middle.len() > 0 {
        assert(s =~= middle + tail);
        assert(s[0] == middle[0]);
        assert(trim_start(s) == s);
        lemma_tail_trimmed(middle, tail);
    } else {
        assert(s =~= tail);
        lemma_all_white(tail);
        assert(middle =~= Seq::empty());
    }
}

proof fn lemma_tail_trimmed(middle: Seq<char>, tail: Seq<char>)
    requires
        middle.len() > 0,
        !white(middle.last()),
        forall|i: int| 0 <= i < tail.len() ==> white(#[trigger] tail[i]),
    ensures
        trim_end(middle + tail) == middle,
    decreases tail.len(),
{
    let s = middle + tail;
    if tail.len() == 0 {
        assert(s =~= middle);
    } else {
        assert(white(tail[tail.len() - 1]));
        assert(s.last() == tail.last());
        assert(s.drop_last() =~= middle + tail.drop_last());
        assert forall|i: int| 0 <= i < tail.drop_last().len() implies white(
            #[trigger] tail.drop_last()[i],
        ) by {
            assert(white(tail[i]));
        }
        lemma_tail_trimmed(middle, tail.drop_last());
    }
}

proof fn lemma_all_white(s: Seq<char>)
    requires
        forall|i: int| 0 <= i < s.len() ==> white(#[trigger] s[i]),
    ensures
        trim_start(s).len() == 0,
    decreases s.len(),
{
    if s.len() > 0 {
        assert(white(s[0]));
        assert forall|i: int| 0 <= i < s.skip(1).len() implies white(#[trigger] s.skip(1)[i]) by {
            assert(white(s[i + 1]));
        }
        lemma_all_white(s.skip(1));
    }
}

/// Every text is white space, then its trimmed self, then white space. The trimmed text is
/// empty only where there was nothing but white space.
pub proof fn law_every_text_has_a_trimmed_middle(s: Seq<char>) -> (lo: int)
    ensures
        0 <= lo,
        lo + trimmed(s).len() <= s.len(),
        s.subrange(lo, lo + trimmed(s).len()) == trimmed(s),
        forall|i: int|
            0 <= i < lo || lo + trimmed(s).len() <= i < s.len() ==> white(#[trigger] s[i]),
        trimmed(s).len() > 0 ==> !white(trimmed(s)[0]) && !white(trimmed(s).last()),
        trimmed(s).len() == 0 <==> forall|i: int| 0 <= i < s.len() ==> white(#[trigger] s[i]),
        trimmed(trimmed(s)) == trimmed(s),
{
    let t = trim_start(s);
    let u = trim_end(t);
    lemma_trim_start(s);
    lemma_trim_end(t);
    let lo = s.len() - t.len();
    assert(s.subrange(lo, lo + u.len()) =~= u) by {
        assert(t =~= s.skip(lo));
    }
    assert forall|i: int| 0 <= i < lo || lo + u.len() <= i < s.len() implies white(
        #[trigger] s[i],
    ) by {
        if i >= lo {
            assert(s[i] == t[i - lo]);
            assert(white(t[i - lo]));
        }
    }
    if u.len() > 0 {
        assert(u[0] == t[0]);
        assert(s[lo] == t[0]);
        assert(!white(s[lo]));
    } else {
        assert forall|i: int| 0 <= i < s.len() implies white(#[trigger] s[i]) by {}
    }
    let e = Seq::<char>::empty();
    law_trimming_keeps_what_stands_between(e, u, e);
    assert(e + u + e =~= u);
    lo
}

proof fn lemma_trim_start(s: Seq<char>)
    ensures
        trim_start(s).len() <= s.len(),
        trim_start(s) == s.skip(s.len() - trim_start(s).len()),
        forall|i: int| 0 <= i < s.len() - trim_start(s).len() ==> white(#[trigger] s[i]),
        trim_start(s).len() > 0 ==> !white(trim_start(s)[0]),
    decreases s.len(),
{
    if s.len() > 0 && white(s[0]) {
        lemma_trim_start(s.skip(1));
        let n = s.len() - trim_start(s).len();
        assert(s.skip(n) =~= s.skip(1).skip(n - 1));
        assert forall|i: int| 0 <= i < n implies white(#[trigger] s[i]) by {
            if i > 0 {
                assert(white(s.skip(1)[i - 1]));
            }
        }
    } else {
        assert(s.skip(0) =~= s);
    }
}

proof fn lemma_trim_end(s: Seq<char>)
    ensures
        trim_end(s).len() <= s.len(),
        trim_end(s) == s.take(trim_end(s).len() as int),
        forall|i: int| trim_end(s).len() <= i < s.len() ==> white(#[trigger] s[i]),
        trim_end(s).len() > 0 ==> !white(trim_end(s).last()),
    decreases s.len(),
{
    if s.len() > 0 && white(s.last()) {
        lemma_trim_end(s.drop_last());
        let n = trim_end(s).len() as int;
        assert(s.take(n) =~= s.drop_last().take(n));
        assert forall|i: int| n <= i < s.len() implies white(#[trigger] s[i]) by {
            if i < s.len() - 1 {
                assert(white(s.drop_last()[i]));
            }
        }
    } else {
        assert(s.take(s.len() as int) =~= s);
    }
}

/// White space parts words: on either side of it stand the words of what stands there, and
/// none reaches across.
pub proof fn law_white_space_parts_words(s: Seq<char>, c: char, t: Seq<char>)
    requires
        white(c),
    ensures
        words(s.push(c) + t) == words(s) + words(t),
    decreases t.len(),
{
    let u = s.push(c) + t;
    if t.len() == 0 {
        assert(u =~= s.push(c));
        assert(u.drop_last() =~= s);
        assert(words(s) + words(t) =~= words(s));
    } else {
        let rest = t.drop_last();
        law_white_space_parts_words(s, c, rest);
        assert(u.drop_last() =~= s.push(c) + rest);
        assert(u.last() == t.last());
        if t.len() == 1 {
            assert(u[u.len() - 2] == c);
        } else {
            assert(u[u.len() - 2] == t[t.len() - 2]);
            if !white(t[t.len() - 2]) {
                lemma_words_last(rest);
                assert((words(s) + words(rest)).drop_last() =~= words(s) + words(rest).drop_last());
            }
        }
        assert(words(u) =~= words(s) + words(t));
    }
}

/// A run of characters without white space is one word, whatever the characters are.
pub proof fn law_a_run_is_one_word(w: Seq<char>)
    requires
        w.len() > 0,
        forall|i: int| 0 <= i < w.len() ==> !white(#[trigger] w[i]),
    ensures
        words(w) == seq![w],
    decreases w.len(),
{
    assert(!white(w[w.len() - 1]));
    if w.len() == 1 {
        assert(w.drop_last() =~= Seq::empty());
        assert(words(w.drop_last()) =~= Seq::empty());
        assert(words(w) =~= seq![seq![w[0]]]);
        assert(w =~= seq![w[0]]);
    } else {
        assert(!white(w[w.len() - 2]));
        assert forall|i: int| 0 <= i < w.drop_last().len() implies !white(
            #[trigger] w.drop_last()[i],
        ) by {
            assert(!white(w[i]));
        }
        law_a_run_is_one_word(w.drop_last());
        assert(w.drop_last().push(w.last()) =~= w);
        assert(words(w) =~= seq![w]);
    }
}

/// A separator parts a text in two, and a text without one is a single part.
pub proof fn law_a_separator_parts_a_text(s: Seq<char>, sep: char, t: Seq<char>)
    ensures
        parts(s.push(sep) + t, sep) == parts(s, sep) + parts(t, sep),
        !s.contains(sep) ==> parts(s, sep) == seq![s],
    decreases s.len() + t.len(),
{
    lemma_parts_join(s, sep, t);
    if !s.contains(sep) {
        lemma_one_part(s, sep);
    }
}

proof fn lemma_parts_join(s: Seq<char>, sep: char, t: Seq<char>)
    ensures
        parts(s.push(sep) + t, sep) == parts(s, sep) + parts(t, sep),
    decreases t.len(),
{
    let u = s.push(sep) + t;
    if t.len() == 0 {
        assert(u =~= s.push(sep));
        assert(u.drop_last() =~= s);
        assert(parts(u, sep) =~= parts(s, sep) + parts(t, sep));
    } else {
        let rest = t.drop_last();
        lemma_parts_join(s, sep, rest);
        lemma_parts_nonempty(rest, sep);
        assert(u.drop_last() =~= s.push(sep) + rest);
        assert(u.last() == t.last());
        let before = parts(s, sep) + parts(rest, sep);
        assert(before.last() == parts(rest, sep).last());
        assert(before.drop_last() =~= parts(s, sep) + parts(rest, sep).drop_last());
        assert(parts(u, sep) =~= parts(s, sep) + parts(t, sep));
    }
}

proof fn lemma_one_part(s: Seq<char>, sep: char)
    requires
        !s.contains(sep),
    ensures
        parts(s, sep) == seq![s],
    decreases s.len(),
{
    if s.len() > 0 {
        assert(s[s.len() - 1] != sep);
        assert(!s.drop_last().contains(sep)) by {
            if s.drop_last().contains(sep) {
                let i = s.drop_last().index_of(sep);
                assert(s[i] == sep);
            }
        }
        lemma_one_part(s.drop_last(), sep);
        assert(s.drop_last().push(s.last()) =~= s);
        assert(parts(s, sep) =~= seq![s]);
    } else {
        assert(s =~= Seq::empty());
    }
}

/// A text is found in every text that it stands in, wherever that is.
pub proof fn law_what_stands_there_is_found(before: Seq<char>, needle: Seq<char>, after: Seq<char>)
    ensures
        occurs(before + needle + after, needle),
{
    let hay = before + needle + after;
    let i = before.len() as int;
    assert(hay.subrange(i, i + needle.len()) =~= needle);
    assert(occurs_at(hay, needle, i));
}

/// The number that a run of decimal digits stands for.
pub open spec fn read_decimal(s: Seq<char>) -> int
    decreases s.len(),
{
    if s.len() == 0 {
        0
    } else {
        read_decimal(s.drop_last()) * 10 + (s.last() as int - '0' as int)
    }
}

/// A number that was written in decimal reads back as itself. It is written with digits
/// alone, and with no zero in front.
pub proof fn law_decimals_read_back(n: nat)
    ensures
        read_decimal(decimal_text(n)) == n,
        forall|i: int|
            0 <= i < decimal_text(n).len() ==> '0' <= #[trigger] decimal_text(n)[i] <= '9',
        decimal_text(n).len() > 0,
        n > 0 ==> decimal_text(n)[0] != '0',
    decreases n,
{
    if n < 10 {
        let s = decimal_text(n);
        assert(s.drop_last() =~= Seq::empty());
        assert(read_decimal(s.drop_last()) == 0);
    } else {
        law_decimals_read_back(n / 10);
        let s = decimal_text(n);
        let d = digit((n % 10) as int);
        assert(s.drop_last() =~= decimal_text(n / 10));
        assert(s.last() == d);
        assert(s[0] == decimal_text(n / 10)[0]);
        assert forall|i: int| 0 <= i < s.len() implies '0' <= #[trigger] s[i] <= '9' by {
            if i < s.len() - 1 {
                assert(s[i] == decimal_text(n / 10)[i]);
            }
        }
    }
}

/// Where a text is found in another, it stands there character for character.
pub proof fn law_what_is_found_stands_there(hay: Seq<char>, needle: Seq<char>) -> (i: int)
    requires
        occurs(hay, needle),
    ensures
        0 <= i,
        i + needle.len() <= hay.len(),
        forall|k: int| 0 <= k < needle.len() ==> hay[i + k] == #[trigger] needle[k],
{
    let i = choose|i: int| occurs_at(hay, needle, i);
    assert forall|k: int| 0 <= k < needle.len() implies hay[i + k] == #[trigger] needle[k] by {
        assert(hay.subrange(i, i + needle.len())[k] == needle[k]);
    }
    i
}

} // verus!
