//! What was built once and is kept: a path is asked for on every frame, and only
//! ever comes out the same for the same source and size.
use crate::text::same;
use vstd::prelude::*;

verus! {

struct Entry<V> {
    what: &'static str,
    size: u32,
    value: V,
}

/// Values by what they were built from and at which size. The size is a bit
/// pattern: two sizes are the same where all their bits are.
pub struct Kept<V> {
    entries: Vec<Entry<V>>,
}

/// The value of the first entry of that source and size.
spec fn first<V>(entries: Seq<Entry<V>>, what: Seq<char>, size: u32) -> Option<V>
    decreases entries.len(),
{
    if entries.len() == 0 {
        None
    } else {
        let earlier = first(entries.drop_last(), what, size);
        let last = entries.last();
        if earlier is None && last.what@ == what && last.size == size {
            Some(last.value)
        } else {
            earlier
        }
    }
}

/// An entry that is not the first of its source and size changes nothing, nor does
/// any entry for the others.
proof fn lemma_first_of_more<V>(entries: Seq<Entry<V>>, more: Entry<V>, what: Seq<char>, size: u32)
    ensures
        first(entries.push(more), what, size) == if first(entries, what, size) is None
            && more.what@ == what && more.size == size {
            Some(more.value)
        } else {
            first(entries, what, size)
        },
{
    assert(entries.push(more).drop_last() =~= entries);
}

/// What comes first is found, whatever follows it.
proof fn lemma_first_stays<V>(entries: Seq<Entry<V>>, n: int, what: Seq<char>, size: u32)
    requires
        0 <= n <= entries.len(),
        first(entries.take(n), what, size) is Some,
    ensures
        first(entries, what, size) == first(entries.take(n), what, size),
    decreases entries.len(),
{
    if n < entries.len() {
        assert(entries.drop_last().take(n) =~= entries.take(n));
        lemma_first_stays(entries.drop_last(), n, what, size);
    } else {
        assert(entries.take(n) =~= entries);
    }
}

/// What is kept once `value` was handed in. Where something is kept already, that
/// stays.
pub open spec fn with_one<V>(
    kept: Map<(Seq<char>, u32), V>,
    key: (Seq<char>, u32),
    value: V,
) -> Map<(Seq<char>, u32), V> {
    if kept.contains_key(key) {
        kept
    } else {
        kept.insert(key, value)
    }
}

impl<V> View for Kept<V> {
    type V = Map<(Seq<char>, u32), V>;

    closed spec fn view(&self) -> Map<(Seq<char>, u32), V> {
        Map::new(
            |k: (Seq<char>, u32)| first(self.entries@, k.0, k.1) is Some,
            |k: (Seq<char>, u32)| first(self.entries@, k.0, k.1).unwrap(),
        )
    }
}

impl<V> Kept<V> {
    /// Nothing kept yet.
    pub fn new() -> (k: Self)
        ensures
            k@ == Map::<(Seq<char>, u32), V>::empty(),
    {
        let k = Kept { entries: Vec::new() };
        assert(k@ =~= Map::<(Seq<char>, u32), V>::empty());
        k
    }

    /// What is kept of that source at that size.
    pub fn find(&self, what: &str, size: u32) -> (r: Option<&V>)
        ensures
            r == if self@.contains_key((what@, size)) {
                Some(&self@[(what@, size)])
            } else {
                None
            },
    {
        let mut i: usize = 0;
        assert(self.entries@.take(0) =~= Seq::empty());
        while i < self.entries.len()
            invariant
                i <= self.entries@.len(),
                first(self.entries@.take(i as int), what@, size) is None,
            decreases self.entries.len() - i,
        {
            let entry = &self.entries[i];
            proof {
                let seen = self.entries@.take(i as int);
                assert(self.entries@.take(i + 1) =~= seen.push(*entry));
                lemma_first_of_more(seen, *entry, what@, size);
            }
            if entry.size == size && same(entry.what, what) {
                proof {
                    lemma_first_stays(self.entries@, i + 1, what@, size);
                }
                return Some(&entry.value);
            }
            i += 1;
        }
        assert(self.entries@.take(i as int) =~= self.entries@);
        None
    }

    /// Keeps a value. Where one is kept already, that one stays.
    pub fn keep(&mut self, what: &'static str, size: u32, value: V)
        ensures
            final(self)@ == with_one(old(self)@, (what@, size), value),
    {
        if self.find(what, size).is_some() {
            return;
        }
        let ghost before = self.entries@;
        let entry = Entry { what, size, value };
        self.entries.push(entry);
        assert forall|w: Seq<char>, s: u32|
            #![trigger first(self.entries@, w, s)]
            true implies first(self.entries@, w, s) == if first(before, w, s) is None && what@ == w
            && size == s {
            Some(value)
        } else {
            first(before, w, s)
        } by {
            lemma_first_of_more(before, entry, w, s);
        }
        assert(self@ =~= with_one(old(self)@, (what@, size), value));
    }
}

/// What is kept once is never built again: from then on the same value is found for
/// that source and size, whatever else is kept.
pub proof fn law_the_first_one_stays<V>(
    kept: Map<(Seq<char>, u32), V>,
    key: (Seq<char>, u32),
    other: (Seq<char>, u32),
    value: V,
)
    requires
        kept.contains_key(key),
    ensures
        ({
            let after = with_one(kept, other, value);
            after.contains_key(key) && after[key] == kept[key]
        }),
{
}

/// What is handed in is kept where nothing was, and only under its own source and size.
pub proof fn law_what_is_handed_in_is_kept<V>(
    kept: Map<(Seq<char>, u32), V>,
    key: (Seq<char>, u32),
    other: (Seq<char>, u32),
    value: V,
)
    ensures
        with_one(kept, key, value).contains_key(key),
        !kept.contains_key(key) ==> with_one(kept, key, value)[key] == value,
        other != key ==> {
            &&& with_one(kept, key, value).contains_key(other) <==> kept.contains_key(other)
            &&& kept.contains_key(other) ==> with_one(kept, key, value)[other] == kept[other]
        },
{
}

} // verus!
