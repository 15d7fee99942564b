//! A run-scoped table from original names to their pseudonyms.
use vstd::prelude::*;

verus! {

/// The mapping that a sequence of (original, pseudonym) writes leaves behind:
/// a later write of an original replaces an earlier one.
pub open spec fn written_map(s: Seq<(String, String)>) -> Map<Seq<char>, Seq<char>>
    decreases s.len(),
{
    if s.len() == 0 {
        Map::empty()
    } else {
        written_map(s.drop_last()).insert(s.last().0@, s.last().1@)
    }
}

proof fn lemma_written_absent(s: Seq<(String, String)>, k: Seq<char>)
    requires
        forall|j: int| 0 <= j < s.len() ==> (#[trigger] s[j]).0@ != k,
    ensures
        !written_map(s).contains_key(k),
    decreases s.len(),
{
    if s.len() > 0 {
        lemma_written_absent(s.drop_last(), k);
    }
}

proof fn lemma_written_last(s: Seq<(String, String)>, i: int, k: Seq<char>)
    requires
        0 <= i < s.len(),
        s[i].0@ == k,
        forall|j: int| i < j < s.len() ==> (#[trigger] s[j]).0@ != k,
    ensures
        written_map(s).contains_key(k),
        written_map(s)[k] == s[i].1@,
    decreases s.len(),
{
    if i < s.len() - 1 {
        lemma_written_last(s.drop_last(), i, k);
    }
}

/// Original name to pseudonym. Writing an original that is already present
/// replaces its pseudonym.
pub struct NameTable {
    entries: Vec<(String, String)>,
}

impl View for NameTable {
    type V = Map<Seq<char>, Seq<char>>;

    closed spec fn view(&self) -> Map<Seq<char>, Seq<char>> {
        written_map(self.entries@)
    }
}

impl NameTable {
    /// An empty table.
    pub fn new() -> (t: NameTable)
        ensures
            t@ == Map::<Seq<char>, Seq<char>>::empty(),
    {
        let t = NameTable { entries: Vec::new() };
        assert(t@ == Map::<Seq<char>, Seq<char>>::empty());
        t
    }

    /// The pseudonym recorded for `original`, if any.
    pub fn get(&self, original: &String) -> (r: Option<String>)
        ensures
            match r {
                Some(p) => self@.contains_key(original@) && p@ == self@[original@],
                None => !self@.contains_key(original@),
            },
    {
        let mut i: usize = self.entries.len();
        while i > 0
            invariant
                i <= self.entries@.len(),
                forall|j: int|
                    i <= j < self.entries@.len() ==> (#[trigger] self.entries@[j]).0@
                        != original@,
            decreases i,
        {
            i = i - 1;
            if self.entries[i].0.eq(original) {
                proof {
                    lemma_written_last(self.entries@, i as int, original@);
                }
                return Some(self.entries[i].1.clone());
            }
        }
        proof {
            lemma_written_absent(self.entries@, original@);
        }
        None
    }

    /// Records `pseudonym` for `original`, replacing an earlier record of it.
    pub fn insert(&mut self, original: String, pseudonym: String)
        ensures
            final(self)@ == old(self)@.insert(original@, pseudonym@),
    {
        self.entries.push((original, pseudonym));
        proof {
            assert(self.entries@.drop_last() == old(self).entries@);
        }
    }
}

} // verus!
