//! Sets of names.

use crate::text::{one_of, texts};
use vstd::prelude::*;

verus! {

/// A set of names, in the order in which they came in.
#[derive(Debug)]
pub struct NameSet {
    names: Vec<String>,
}

impl View for NameSet {
    type V = Set<Seq<char>>;

    closed spec fn view(&self) -> Set<Seq<char>> {
        texts(self.names@).to_set()
    }
}

impl NameSet {
    /// No name is there twice.
    #[verifier::type_invariant]
    spec fn well_formed(self) -> bool {
        texts(self.names@).no_duplicates()
    }

    /// The empty set.
    pub fn new() -> (r: Self)
        ensures
            r@ == Set::<Seq<char>>::empty(),
    {
        let names: Vec<String> = Vec::new();
        proof {
            assert(texts(names@) =~= Seq::empty());
            assert(texts(names@).to_set() =~= Set::empty());
        }
        NameSet { names }
    }

    /// The set of the names in a list.
    pub fn from_names(list: &Vec<String>) -> (r: Self)
        ensures
            r@ == texts(list@).to_set(),
    {
        let mut out = NameSet::new();
        let mut i: usize = 0;
        proof {
            assert(texts(list@).take(0).to_set() =~= Set::empty());
        }
        while i < list.len()
            invariant
                i <= list@.len(),
                out@ == texts(list@).take(i as int).to_set(),
            decreases list@.len() - i,
        {
            let ghost before = texts(list@).take(i as int);
            out.insert(list[i].as_str());
            proof {
                let after = texts(list@).take(i + 1);
                assert(after =~= before.push(list@[i as int]@));
                lemma_set_of_push(before, list@[i as int]@);
            }
            i += 1;
        }
        proof {
            assert(texts(list@).take(list@.len() as int) =~= texts(list@));
        }
        out
    }

    /// Whether a name is in the set.
    pub fn contains(&self, name: &str) -> (r: bool)
        ensures
            r == self@.contains(name@),
    {
        one_of(&self.names, name)
    }

    /// Whether the set is empty.
    pub fn is_empty(&self) -> (r: bool)
        ensures
            r == (self@ == Set::<Seq<char>>::empty()),
    {
        let r = self.names.len() == 0;
        proof {
            if r {
                assert(self@ =~= Set::<Seq<char>>::empty());
            } else {
                assert(texts(self.names@)[0] == self.names@[0]@);
                assert(self@.contains(self.names@[0]@));
            }
        }
        r
    }

    /// Puts a name into the set; tells whether it was not there before.
    pub fn insert(&mut self, name: &str) -> (r: bool)
        ensures
            final(self)@ == old(self)@.insert(name@),
            r == !old(self)@.contains(name@),
    {
        proof {
            use_type_invariant(&*self);
        }
        if self.contains(name) {
            proof {
                assert(self@.insert(name@) =~= self@);
            }
            return false;
        }
        let ghost before = texts(self.names@);
        let mut names: Vec<String> = Vec::new();
        std::mem::swap(&mut names, &mut self.names);
        names.push(name.to_owned());
        proof {
            assert(texts(names@) =~= before.push(name@));
            lemma_set_of_push(before, name@);
            assert(texts(names@).no_duplicates()) by {
                assert forall|i: int, j: int|
                    0 <= i < texts(names@).len() && 0 <= j < texts(names@).len() && i
                        != j implies texts(names@)[i] != texts(names@)[j] by {
                    if i < before.len() && j < before.len() {
                        assert(before[i] != before[j]);
                    } else if i < before.len() {
                        assert(before.contains(before[i]));
                    } else {
                        assert(before.contains(before[j]));
                    }
                }
            }
        }
        self.names = names;
        true
    }

    /// Puts all names of another set into this one.
    pub fn extend(&mut self, other: &NameSet)
        ensures
            final(self)@ == old(self)@.union(other@),
    {
        let ghost start = self@;
        let mut i: usize = 0;
        proof {
            assert(start.union(texts(other.names@).take(0).to_set()) =~= start);
        }
        while i < other.names.len()
            invariant
                i <= other.names@.len(),
                self@ == start.union(texts(other.names@).take(i as int).to_set()),
            decreases other.names@.len() - i,
        {
            let ghost before = texts(other.names@).take(i as int);
            self.insert(other.names[i].as_str());
            proof {
                let after = texts(other.names@).take(i + 1);
                assert(after =~= before.push(other.names@[i as int]@));
                lemma_set_of_push(before, other.names@[i as int]@);
                assert(self@ =~= start.union(after.to_set()));
            }
            i += 1;
        }
        proof {
            assert(texts(other.names@).take(other.names@.len() as int) =~= texts(other.names@));
        }
    }

    /// A copy of the set.
    pub fn copy(&self) -> (r: Self)
        ensures
            r@ == self@,
    {
        let mut out = NameSet::new();
        out.extend(self);
        proof {
            assert(Set::<Seq<char>>::empty().union(self@) =~= self@);
        }
        out
    }

    /// The names, each once.
    pub fn to_names(&self) -> (r: Vec<String>)
        ensures
            texts(r@).to_set() == self@,
            texts(r@).no_duplicates(),
    {
        proof {
            use_type_invariant(self);
        }
        crate::text::copy_texts(&self.names)
    }
}

/// The set of a list with one more element.
pub proof fn lemma_set_of_push(s: Seq<Seq<char>>, x: Seq<char>)
    ensures
        s.push(x).to_set() == s.to_set().insert(x),
{
    let a = s.push(x).to_set();
    let b = s.to_set().insert(x);
    assert forall|e: Seq<char>| a.contains(e) implies b.contains(e) by {
        let i = choose|i: int| 0 <= i < s.push(x).len() && s.push(x)[i] == e;
        if i < s.len() {
            assert(s[i] == e);
        }
    }
    assert forall|e: Seq<char>| b.contains(e) implies a.contains(e) by {
        if e == x {
            assert(s.push(x)[s.len() as int] == e);
        } else {
            let i = choose|i: int| 0 <= i < s.len() && s[i] == e;
            assert(s.push(x)[i] == e);
        }
    }
    assert(a =~= b);
}

} // verus!
