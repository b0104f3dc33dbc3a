//! The cache store: words mapped to their records.
use vstd::prelude::*;
use crate::record::{RecordModel, WordInfo};

verus! {

/// The mapping that a list of entries with distinct words stands for.
pub open spec fn entries_map(s: Seq<(String, WordInfo)>) -> Map<Seq<char>, RecordModel>
    decreases s.len(),
{
    if s.len() == 0 {
        Map::empty()
    } else {
        entries_map(s.drop_last()).insert(s.last().0@, s.last().1@)
    }
}

/// No word occurs twice.
pub open spec fn distinct_words(s: Seq<(String, WordInfo)>) -> bool {
    forall|i: int, j: int| 0 <= i < j < s.len() ==> #[trigger] s[i].0@ != #[trigger] s[j].0@
}

/// A word is in the mapping exactly where it is in the list, with that entry's record.
pub proof fn lemma_entries_map(s: Seq<(String, WordInfo)>)
    requires
        distinct_words(s),
    ensures
        forall|k: Seq<char>| #[trigger] entries_map(s).contains_key(k)
            <==> exists|i: int| 0 <= i < s.len() && s[i].0@ == k,
        forall|i: int| 0 <= i < s.len() ==> #[trigger] entries_map(s)[s[i].0@] == s[i].1@,
    decreases s.len(),
{
    if s.len() > 0 {
        let p = s.drop_last();
        assert(distinct_words(p));
        lemma_entries_map(p);
        assert(entries_map(s) == entries_map(p).insert(s.last().0@, s.last().1@));
        assert forall|k: Seq<char>| #[trigger] entries_map(s).contains_key(k)
            <==> exists|i: int| 0 <= i < s.len() && s[i].0@ == k by {
            if entries_map(s).contains_key(k) && k != s.last().0@ {
                assert(entries_map(p).contains_key(k));
                let i = choose|i: int| 0 <= i < p.len() && p[i].0@ == k;
                assert(s[i] == p[i]);
            }
            if exists|i: int| 0 <= i < s.len() && s[i].0@ == k {
                let i = choose|i: int| 0 <= i < s.len() && s[i].0@ == k;
                if i < p.len() {
                    assert(p[i] == s[i]);
                }
            }
        }
        assert forall|i: int| 0 <= i < s.len() implies #[trigger] entries_map(s)[s[i].0@]
            == s[i].1@ by {
            if i < p.len() {
                assert(p[i] == s[i]);
                assert(s[i].0@ != s[s.len() - 1].0@);
            }
        }
    }
}

/// The cache store: each word at most once, with its record.
pub struct Dictionary {
    entries: Vec<(String, WordInfo)>,
}

impl View for Dictionary {
    type V = Map<Seq<char>, RecordModel>;

    closed spec fn view(&self) -> Map<Seq<char>, RecordModel> {
        entries_map(self.entries@)
    }
}

impl Dictionary {
    /// Each word once, and every record within the cap of definitions.
    pub closed spec fn wf(&self) -> bool {
        &&& distinct_words(self.entries@)
        &&& forall|i: int| 0 <= i < self.entries@.len() ==> (#[trigger] self.entries@[i]).1@.wf()
    }

    /// Every record of a well-formed store is within the cap.
    pub proof fn lemma_records_wf(&self)
        requires
            self.wf(),
        ensures
            forall|k: Seq<char>| #[trigger] self@.contains_key(k) ==> self@[k].wf(),
    {
        lemma_entries_map(self.entries@);
        assert forall|k: Seq<char>| #[trigger] self@.contains_key(k) implies self@[k].wf() by {
            let i = choose|i: int| 0 <= i < self.entries@.len() && self.entries@[i].0@ == k;
            assert(self.entries@[i].1@.wf());
        }
    }

    /// An empty store.
    pub fn new() -> (r: Dictionary)
        ensures
            r.wf(),
            r@ == Map::<Seq<char>, RecordModel>::empty(),
    {
        Dictionary { entries: Vec::new() }
    }

    /// The number of words held.
    pub fn len(&self) -> (r: usize)
        requires
            self.wf(),
        ensures
            r == self@.dom().len(),
    {
        proof {
            lemma_entries_map(self.entries@);
            lemma_len(self.entries@);
        }
        self.entries.len()
    }

    /// The record of `word`, if the store holds one.
    pub fn get(&self, word: &String) -> (r: Option<&WordInfo>)
        requires
            self.wf(),
        ensures
            r.is_some() == self@.contains_key(word@),
            r.is_some() ==> r.unwrap()@ == self@[word@],
    {
        proof {
            lemma_entries_map(self.entries@);
        }
        let mut i: usize = 0;
        while i < self.entries.len()
            invariant
                self.wf(),
                i <= self.entries@.len(),
                forall|j: int| 0 <= j < i ==> self.entries@[j].0@ != word@,
            decreases self.entries@.len() - i,
        {
            if self.entries[i].0 == *word {
                proof {
                    lemma_entries_map(self.entries@);
                }
                return Some(&self.entries[i].1);
            }
            i = i + 1;
        }
        None
    }

    /// Whether the store holds `word`.
    pub fn contains_key(&self, word: &String) -> (r: bool)
        requires
            self.wf(),
        ensures
            r == self@.contains_key(word@),
    {
        self.get(word).is_some()
    }

    /// Adds `word` with its record unless the word is already held; a held
    /// record is never replaced. Returns whether it was added.
    pub fn insert(&mut self, word: String, info: WordInfo) -> (r: bool)
        requires
            old(self).wf(),
            info@.wf(),
        ensures
            final(self).wf(),
            r == !old(self)@.contains_key(word@),
            r ==> final(self)@ == old(self)@.insert(word@, info@),
            !r ==> final(self)@ == old(self)@,
    {
        if self.contains_key(&word) {
            return false;
        }
        proof {
            lemma_entries_map(self.entries@);
        }
        let ghost before = self.entries@;
        self.entries.push((word, info));
        proof {
            assert(self.entries@.drop_last() == before);
            assert forall|i: int, j: int|
                0 <= i < j < self.entries@.len() implies #[trigger] self.entries@[i].0@
                != #[trigger] self.entries@[j].0@ by {
                if j == before.len() {
                    assert(self.entries@[i] == before[i]);
                }
            }
        }
        true
    }

    /// The words and records held, each word once.
    pub fn entries(&self) -> (r: &Vec<(String, WordInfo)>)
        requires
            self.wf(),
        ensures
            distinct_words(r@),
            entries_map(r@) == self@,
            forall|i: int| 0 <= i < r@.len() ==> (#[trigger] r@[i]).1@.wf(),
    {
        &self.entries
    }

    /// A store of the given entries, whose words are distinct.
    pub(crate) fn from_entries(entries: Vec<(String, WordInfo)>) -> (r: Dictionary)
        requires
            distinct_words(entries@),
            forall|i: int| 0 <= i < entries@.len() ==> (#[trigger] entries@[i]).1@.wf(),
        ensures
            r.wf(),
            r@ == entries_map(entries@),
    {
        Dictionary { entries }
    }
}

/// A list of distinct words stands for a mapping with as many keys.
proof fn lemma_len(s: Seq<(String, WordInfo)>)
    requires
        distinct_words(s),
    ensures
        entries_map(s).dom().finite(),
        entries_map(s).dom().len() == s.len(),
    decreases s.len(),
{
    if s.len() > 0 {
        let p = s.drop_last();
        assert(distinct_words(p));
        lemma_len(p);
        lemma_entries_map(p);
        if entries_map(p).contains_key(s.last().0@) {
            let i = choose|i: int| 0 <= i < p.len() && p[i].0@ == s.last().0@;
            assert(s[i] == p[i]);
        }
    }
}

} // verus!
