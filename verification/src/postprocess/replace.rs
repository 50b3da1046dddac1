//! Find/replace: deterministic, instant, the same with every provider. It also
//! covers snippets ("my email" -> an address).
use crate::config;
use crate::config::Replacement;
use crate::text;
use crate::text::{chars_of, is_alphanumeric};
use vstd::prelude::*;

verus! {

/// The code point of `c`, with `A` to `Z` taken as `a` to `z`.
pub open spec fn folded(c: char) -> int {
    if 'A' <= c <= 'Z' {
        c as int + 32
    } else {
        c as int
    }
}

/// Whether two characters count as the same.
pub open spec fn chars_equal(a: char, b: char, case_sensitive: bool) -> bool {
    if case_sensitive {
        a == b
    } else {
        folded(a) == folded(b)
    }
}

/// The characters that words are made of.
pub open spec fn word_char(c: char) -> bool {
    text::alphanumeric(c) || c == '_'
}

/// Which characters of `s` words are made of.
pub open spec fn word_marks(s: Seq<char>) -> Seq<bool> {
    Seq::new(s.len(), |i: int| word_char(s[i]))
}

/// The rule matches `hay` at `i`. `marks` says which characters words are made
/// of: a whole-word rule matches only where none of those touches the match.
pub open spec fn matches_at(
    hay: Seq<char>,
    marks: Seq<bool>,
    rule: config::RuleView,
    i: int,
) -> bool {
    let end = i + rule.from.len();
    &&& 0 <= i
    &&& end <= hay.len()
    &&& forall|k: int|
        0 <= k < rule.from.len() ==> #[trigger] chars_equal(
            hay[i + k],
            rule.from[k],
            rule.case_sensitive,
        )
    &&& rule.whole_word ==> (i == 0 || !marks[i - 1]) && (end == hay.len() || !marks[end])
}

/// `hay` from `i` on with every match replaced, left to right. The scan goes on
/// behind a match, so no match overlaps another and nothing that was put in is
/// looked at again.
pub open spec fn replaced_from(
    hay: Seq<char>,
    marks: Seq<bool>,
    rule: config::RuleView,
    i: int,
) -> Seq<char>
    decreases hay.len() - i,
{
    if i >= hay.len() {
        Seq::empty()
    } else if rule.from.len() > 0 && matches_at(hay, marks, rule, i) {
        rule.to + replaced_from(hay, marks, rule, i + rule.from.len())
    } else {
        seq![hay[i]] + replaced_from(hay, marks, rule, i + 1)
    }
}

/// `s` with every match of the rule replaced. A rule with nothing to find
/// changes nothing.
pub open spec fn replaced(s: Seq<char>, rule: config::RuleView) -> Seq<char> {
    replaced_from(s, word_marks(s), rule, 0)
}

fn fold(c: char) -> (r: u32)
    ensures
        r == folded(c),
{
    if 'A' <= c && c <= 'Z' {
        c as u32 + 32
    } else {
        c as u32
    }
}

fn char_eq(a: char, b: char, case_sensitive: bool) -> (r: bool)
    ensures
        r == chars_equal(a, b, case_sensitive),
{
    if case_sensitive {
        a == b
    } else {
        fold(a) == fold(b)
    }
}

fn is_word(c: char) -> (r: bool)
    ensures
        r == word_char(c),
{
    is_alphanumeric(c) || c == '_'
}

/// Tells whether the rule, whose `from` is `needle`, matches `hay` at `i`.
fn is_match(
    hay: &Vec<char>,
    marks: &Vec<bool>,
    needle: &Vec<char>,
    rule: &Replacement,
    i: usize,
) -> (r: bool)
    requires
        i < hay@.len(),
        marks@.len() == hay@.len(),
        needle@ == rule.from@,
    ensures
        r == matches_at(hay@, marks@, rule@, i as int),
{
    if needle.len() > hay.len() - i {
        return false;
    }
    let mut k: usize = 0;
    while k < needle.len()
        invariant
            i < hay@.len(),
            k <= needle@.len(),
            i + needle.len() <= hay.len(),
            needle@ == rule@.from,
            forall|j: int|
                0 <= j < k ==> #[trigger] chars_equal(
                    hay@[i + j],
                    rule@.from[j],
                    rule@.case_sensitive,
                ),
        decreases needle.len() - k,
    {
        if !char_eq(hay[i + k], needle[k], rule.case_sensitive) {
            let ghost at = k as int;
            assert(!chars_equal(hay@[i + at], rule@.from[at], rule@.case_sensitive));
            return false;
        }
        k += 1;
    }
    if rule.whole_word {
        let end: usize = i + needle.len();
        let left_ok = i == 0 || !marks[i - 1];
        let right_ok = end == hay.len() || !marks[end];
        left_ok && right_ok
    } else {
        true
    }
}

/// Replaces every match of the rule in `hay`, given which of its characters
/// words are made of.
pub fn replace_marked(hay: &Vec<char>, marks: &Vec<bool>, rule: &Replacement) -> (out: String)
    requires
        marks@.len() == hay@.len(),
    ensures
        out@ == replaced_from(hay@, marks@, rule@, 0),
{
    let needle = chars_of(rule.from.as_str());
    let mut out = String::new();
    let mut i: usize = 0;
    let ghost whole = replaced_from(hay@, marks@, rule@, 0);
    assert(out@ + whole =~= whole);
    while i < hay.len()
        invariant
            i <= hay@.len(),
            marks@.len() == hay@.len(),
            needle@ == rule.from@,
            whole == out@ + replaced_from(hay@, marks@, rule@, i as int),
        decreases hay.len() - i,
    {
        let ghost done = out@;
        let ghost from = i as int;
        if needle.len() > 0 && is_match(hay, marks, &needle, rule, i) {
            out.push_str(rule.to.as_str());
            i += needle.len();
            assert(done + (rule@.to + replaced_from(hay@, marks@, rule@, i as int)) =~= out@
                + replaced_from(hay@, marks@, rule@, i as int));
        } else {
            out.push(hay[i]);
            i += 1;
            assert(done + (seq![hay@[from]] + replaced_from(hay@, marks@, rule@, i as int))
                =~= out@ + replaced_from(hay@, marks@, rule@, i as int));
        }
    }
    assert(out@ + replaced_from(hay@, marks@, rule@, i as int) =~= out@);
    out
}

/// Applies one rule across `text`.
pub fn apply_replacement(text: &str, rule: &Replacement) -> (out: String)
    ensures
        out@ == replaced(text@, rule@),
{
    let hay = chars_of(text);
    let mut marks: Vec<bool> = Vec::new();
    let mut i: usize = 0;
    while i < hay.len()
        invariant
            i <= hay@.len(),
            hay@ == text@,
            marks@ == word_marks(text@).take(i as int),
        decreases hay.len() - i,
    {
        marks.push(is_word(hay[i]));
        assert(word_marks(text@).take(i + 1) =~= word_marks(text@).take(i as int).push(
            word_char(hay@[i as int]),
        ));
        i += 1;
    }
    assert(word_marks(text@).take(text@.len() as int) =~= word_marks(text@));
    replace_marked(&hay, &marks, rule)
}

/// A rule with nothing to find changes nothing.
pub proof fn law_empty_rule_changes_nothing(s: Seq<char>, rule: config::RuleView)
    requires
        rule.from.len() == 0,
    ensures
        replaced(s, rule) == s,
{
    lemma_unmatched(s, word_marks(s), rule, 0, s.len() as int);
    assert(s.subrange(0, s.len() as int) =~= s);
    assert(replaced_from(s, word_marks(s), rule, s.len() as int) =~= Seq::empty());
    assert(s + Seq::<char>::empty() =~= s);
}

/// Where the rule matches nowhere the text stays as it is.
pub proof fn law_no_match_changes_nothing(s: Seq<char>, rule: config::RuleView)
    requires
        forall|i: int| 0 <= i < s.len() ==> !#[trigger] matches_at(s, word_marks(s), rule, i),
    ensures
        replaced(s, rule) == s,
{
    lemma_unmatched(s, word_marks(s), rule, 0, s.len() as int);
    assert(s.subrange(0, s.len() as int) =~= s);
    assert(replaced_from(s, word_marks(s), rule, s.len() as int) =~= Seq::empty());
    assert(s + Seq::<char>::empty() =~= s);
}

/// The leftmost match is replaced, what stands before it is kept, and the scan
/// goes on behind it: what was put in is not looked at again.
pub proof fn law_leftmost_match_is_replaced(s: Seq<char>, rule: config::RuleView, i: int)
    requires
        rule.from.len() > 0,
        0 <= i < s.len(),
        matches_at(s, word_marks(s), rule, i),
        forall|k: int| 0 <= k < i ==> !#[trigger] matches_at(s, word_marks(s), rule, k),
    ensures
        replaced(s, rule) == s.take(i) + rule.to + replaced_from(
            s,
            word_marks(s),
            rule,
            i + rule.from.len(),
        ),
{
    let marks = word_marks(s);
    lemma_unmatched(s, marks, rule, 0, i);
    assert(s.subrange(0, i) =~= s.take(i));
    assert(s.take(i) + (rule.to + replaced_from(s, marks, rule, i + rule.from.len())) =~= s.take(
        i,
    ) + rule.to + replaced_from(s, marks, rule, i + rule.from.len()));
}

/// Wherever a rule matches with case, it also matches without; wherever it
/// matches whole words, it also matches parts of words.
pub proof fn law_options_only_narrow(
    s: Seq<char>,
    marks: Seq<bool>,
    rule: config::RuleView,
    i: int,
)
    requires
        matches_at(s, marks, rule, i),
    ensures
        matches_at(s, marks, config::RuleView { case_sensitive: false, ..rule }, i),
        matches_at(s, marks, config::RuleView { whole_word: false, ..rule }, i),
{
    assert forall|k: int| 0 <= k < rule.from.len() implies #[trigger] chars_equal(
        s[i + k],
        rule.from[k],
        false,
    ) by {
        assert(chars_equal(s[i + k], rule.from[k], rule.case_sensitive));
    }
}

/// Two characters count as the same where they are the same, and, unless case counts,
/// where they are the two cases of one of the letters `A` to `Z`.
pub proof fn law_case_is_that_of_ascii_letters(a: char, b: char)
    ensures
        chars_equal(a, b, true) <==> a == b,
        chars_equal(a, b, false) <==> a == b || ('A' <= a <= 'Z' && b as int == a as int + 32) || (
        'A' <= b <= 'Z' && a as int == b as int + 32),
{
}

/// The characters that the rule looks for stand in `s` at `i`, whatever stands around them.
pub open spec fn reads(s: Seq<char>, rule: config::RuleView, i: int) -> bool {
    &&& 0 <= i
    &&& i + rule.from.len() <= s.len()
    &&& forall|k: int|
        0 <= k < rule.from.len() ==> #[trigger] chars_equal(
            s[i + k],
            rule.from[k],
            rule.case_sensitive,
        )
}

/// What a rule matches: its characters, and for a whole-word rule only where neither
/// neighbour is alphanumeric or an underscore. The start and the end of the text, and
/// every other character, leave a word standing on its own.
pub proof fn law_whole_words_stand_on_their_own(s: Seq<char>, rule: config::RuleView, i: int)
    ensures
        matches_at(s, word_marks(s), rule, i) <==> reads(s, rule, i) && (rule.whole_word ==> {
            let end = i + rule.from.len();
            &&& i > 0 ==> !text::alphanumeric(s[i - 1]) && s[i - 1] != '_'
            &&& end < s.len() ==> !text::alphanumeric(s[end]) && s[end] != '_'
        }),
{
    let end = i + rule.from.len();
    if reads(s, rule, i) {
        if i > 0 {
            assert(word_marks(s)[i - 1] == (text::alphanumeric(s[i - 1]) || s[i - 1] == '_'));
        }
        if end < s.len() {
            assert(word_marks(s)[end] == (text::alphanumeric(s[end]) || s[end] == '_'));
        }
    }
}

/// A whole-word match is replaced whatever stands directly before and behind it, as long
/// as that is neither alphanumeric nor an underscore. What stands before it is kept, and
/// what follows is treated as a text of its own, unless the match ends in the middle of
/// a word that the rule's own characters would go on from.
pub proof fn law_a_word_on_its_own_is_replaced(
    before: Seq<char>,
    found: Seq<char>,
    after: Seq<char>,
    rule: config::RuleView,
)
    requires
        rule.whole_word,
        rule.from.len() > 0,
        found.len() == rule.from.len(),
        forall|k: int|
            0 <= k < found.len() ==> #[trigger] chars_equal(
                found[k],
                rule.from[k],
                rule.case_sensitive,
            ),
        before.len() > 0 ==> !text::alphanumeric(before.last()) && before.last() != '_',
        after.len() > 0 ==> !text::alphanumeric(after[0]) && after[0] != '_',
        forall|k: int| 0 <= k < before.len() ==> !#[trigger] reads(before + found + after, rule, k),
    ensures
        (before + rule.to).is_prefix_of(replaced(before + found + after, rule)),
        after.len() == 0 || !chars_equal(after[0], rule.from[0], rule.case_sensitive) || (
        !text::alphanumeric(found.last()) && found.last() != '_') ==> replaced(
            before + found + after,
            rule,
        ) == before + rule.to + replaced(after, rule),
{
    let s = before + found + after;
    let i = before.len() as int;
    let end = i + found.len();
    assert forall|k: int| 0 <= k < rule.from.len() implies #[trigger] chars_equal(
        s[i + k],
        rule.from[k],
        rule.case_sensitive,
    ) by {
        assert(s[i + k] == found[k]);
    }
    assert(reads(s, rule, i));
    law_whole_words_stand_on_their_own(s, rule, i);
    if i > 0 {
        assert(s[i - 1] == before.last());
    }
    if end < s.len() {
        assert(s[end] == after[0]);
    }
    assert(matches_at(s, word_marks(s), rule, i));
    assert forall|k: int| 0 <= k < i implies !#[trigger] matches_at(s, word_marks(s), rule, k) by {
        law_whole_words_stand_on_their_own(s, rule, k);
        assert(!reads(s, rule, k));
    }
    law_leftmost_match_is_replaced(s, rule, i);
    assert(s.take(i) =~= before);
    let rest = replaced_from(s, word_marks(s), rule, end);
    assert(replaced(s, rule) == before + rule.to + rest);
    assert((before + rule.to).is_prefix_of(before + rule.to + rest)) by {
        assert((before + rule.to + rest).subrange(0, (before + rule.to).len() as int) =~= before
            + rule.to);
    }
    assert(s.skip(end) =~= after);
    if after.len() == 0 || !chars_equal(after[0], rule.from[0], rule.case_sensitive) || (
    !text::alphanumeric(found.last()) && found.last() != '_') {
        assert(matches_at(s, word_marks(s), rule, end) == matches_at(
            after,
            word_marks(after),
            rule,
            0,
        )) by {
            law_whole_words_stand_on_their_own(s, rule, end);
            law_whole_words_stand_on_their_own(after, rule, 0);
            assert(s[end - 1] == found.last());
            lemma_reads_behind(s, rule, end, 0);
            if reads(after, rule, 0) {
                assert(chars_equal(after[0int + 0int], rule.from[0], rule.case_sensitive));
            }
            if end + rule.from.len() < s.len() {
                assert(s[end + rule.from.len()] == after[rule.from.len() as int]);
            }
        }
        lemma_rest_alone(s, rule, end, end);
    }
}

/// A rule that does not ask for whole words is found anywhere: its leftmost occurrence is
/// replaced, and what follows is treated as a text of its own.
pub proof fn law_parts_of_words_are_replaced(
    before: Seq<char>,
    found: Seq<char>,
    after: Seq<char>,
    rule: config::RuleView,
)
    requires
        !rule.whole_word,
        rule.from.len() > 0,
        found.len() == rule.from.len(),
        forall|k: int|
            0 <= k < found.len() ==> #[trigger] chars_equal(
                found[k],
                rule.from[k],
                rule.case_sensitive,
            ),
        forall|k: int| 0 <= k < before.len() ==> !#[trigger] reads(before + found + after, rule, k),
    ensures
        replaced(before + found + after, rule) == before + rule.to + replaced(after, rule),
{
    let s = before + found + after;
    let i = before.len() as int;
    let end = i + found.len();
    assert forall|k: int| 0 <= k < rule.from.len() implies #[trigger] chars_equal(
        s[i + k],
        rule.from[k],
        rule.case_sensitive,
    ) by {
        assert(s[i + k] == found[k]);
    }
    law_whole_words_stand_on_their_own(s, rule, i);
    assert forall|k: int| 0 <= k < i implies !#[trigger] matches_at(s, word_marks(s), rule, k) by {
        law_whole_words_stand_on_their_own(s, rule, k);
        assert(!reads(s, rule, k));
    }
    law_leftmost_match_is_replaced(s, rule, i);
    assert(s.take(i) =~= before);
    assert(s.skip(end) =~= after);
    lemma_reads_behind(s, rule, end, 0);
    law_whole_words_stand_on_their_own(s, rule, end);
    law_whole_words_stand_on_their_own(after, rule, 0);
    lemma_rest_alone(s, rule, end, end);
}

/// Where a word goes on into something alphanumeric or into an underscore, on either side,
/// a whole-word rule leaves it alone: a text in which every place that reads like the rule
/// is of that sort stays as it is, and so does one that holds no such place.
pub proof fn law_parts_of_words_are_left_alone(s: Seq<char>, rule: config::RuleView)
    requires
        forall|i: int|
            0 <= i < s.len() && #[trigger] reads(s, rule, i) ==> rule.whole_word && {
                let end = i + rule.from.len();
                ||| i > 0 && (text::alphanumeric(s[i - 1]) || s[i - 1] == '_')
                ||| end < s.len() && (text::alphanumeric(s[end]) || s[end] == '_')
            },
    ensures
        replaced(s, rule) == s,
{
    assert forall|i: int| 0 <= i < s.len() implies !#[trigger] matches_at(
        s,
        word_marks(s),
        rule,
        i,
    ) by {
        law_whole_words_stand_on_their_own(s, rule, i);
        if reads(s, rule, i) {
            assert(rule.whole_word);
        }
    }
    law_no_match_changes_nothing(s, rule);
}

proof fn lemma_reads_behind(s: Seq<char>, rule: config::RuleView, cut: int, i: int)
    requires
        0 <= cut <= s.len(),
        0 <= i,
    ensures
        reads(s, rule, cut + i) == reads(s.skip(cut), rule, i),
{
    let t = s.skip(cut);
    if reads(s, rule, cut + i) {
        assert forall|k: int| 0 <= k < rule.from.len() implies #[trigger] chars_equal(
            t[i + k],
            rule.from[k],
            rule.case_sensitive,
        ) by {
            assert(chars_equal(s[cut + i + k], rule.from[k], rule.case_sensitive));
            assert(t[i + k] == s[cut + i + k]);
        }
    }
    if reads(t, rule, i) {
        assert forall|k: int| 0 <= k < rule.from.len() implies #[trigger] chars_equal(
            s[cut + i + k],
            rule.from[k],
            rule.case_sensitive,
        ) by {
            assert(chars_equal(t[i + k], rule.from[k], rule.case_sensitive));
            assert(t[i + k] == s[cut + i + k]);
        }
    }
}

/// What stands behind `cut` comes out as it would alone, where a match right at `cut` does
/// not depend on what stands before it.
proof fn lemma_rest_alone(s: Seq<char>, rule: config::RuleView, cut: int, i: int)
    requires
        0 <= cut <= i,
        cut <= s.len(),
        rule.from.len() > 0,
        matches_at(s, word_marks(s), rule, cut) == matches_at(
            s.skip(cut),
            word_marks(s.skip(cut)),
            rule,
            0,
        ),
    ensures
        replaced_from(s, word_marks(s), rule, i) == replaced_from(
            s.skip(cut),
            word_marks(s.skip(cut)),
            rule,
            i - cut,
        ),
    decreases
            if i < s.len() {
                s.len() - i
            } else {
                0
            },
{
    let t = s.skip(cut);
    if i < s.len() {
        lemma_rest_alone(s, rule, cut, i + 1);
        lemma_rest_alone(s, rule, cut, i + rule.from.len());
        assert(t[i - cut] == s[i]);
        assert(matches_at(s, word_marks(s), rule, i) == matches_at(
            t,
            word_marks(t),
            rule,
            i - cut,
        )) by {
            if i > cut {
                law_whole_words_stand_on_their_own(s, rule, i);
                law_whole_words_stand_on_their_own(t, rule, i - cut);
                lemma_reads_behind(s, rule, cut, i - cut);
                assert(t[i - cut - 1] == s[i - 1]);
                if i + rule.from.len() < s.len() {
                    assert(t[i - cut + rule.from.len()] == s[i + rule.from.len()]);
                }
            }
        }
    }
}

proof fn lemma_unmatched(
    s: Seq<char>,
    marks: Seq<bool>,
    rule: config::RuleView,
    from: int,
    to: int,
)
    requires
        0 <= from <= to <= s.len(),
        rule.from.len() == 0 || forall|k: int|
            from <= k < to ==> !#[trigger] matches_at(s, marks, rule, k),
    ensures
        replaced_from(s, marks, rule, from) == s.subrange(from, to) + replaced_from(
            s,
            marks,
            rule,
            to,
        ),
    decreases to - from,
{
    if from < to {
        lemma_unmatched(s, marks, rule, from + 1, to);
        assert(!(rule.from.len() > 0 && matches_at(s, marks, rule, from)));
        assert(seq![s[from]] + (s.subrange(from + 1, to) + replaced_from(s, marks, rule, to))
            =~= s.subrange(from, to) + replaced_from(s, marks, rule, to));
    } else {
        assert(s.subrange(from, to) + replaced_from(s, marks, rule, to) =~= replaced_from(
            s,
            marks,
            rule,
            to,
        ));
    }
}

} // verus!
