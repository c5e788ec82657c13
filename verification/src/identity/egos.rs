//! The egos that the identity service lists: a mapping from names to private keys.

use vstd::prelude::*;
use vstd::utf8::encode_utf8;
use crate::identity::keys::{Ego, PrivateKey};

verus! {

/// The egos that a listing has told of: a private key for each name, and
/// each name once.
pub struct Egos {
    entries: Vec<Ego>,
}

impl Egos {
    /// No name occurs twice.
    pub closed spec fn wf(&self) -> bool {
        forall|i: int, j: int|
            0 <= i < j < self.entries@.len() ==> self.entries@[i].name@ != self.entries@[j].name@
    }

    /// Where `name` stands among the entries.
    spec fn position(&self, name: Seq<char>) -> int {
        choose|i: int| 0 <= i < self.entries@.len() && self.entries@[i].name@ == name
    }

    /// The mapping from names to private keys.
    pub closed spec fn view(&self) -> Map<Seq<char>, PrivateKey> {
        Map::new(
            |name: Seq<char>|
                exists|i: int| 0 <= i < self.entries@.len() && self.entries@[i].name@ == name,
            |name: Seq<char>| self.entries@[self.position(name)].private_key,
        )
    }

    /// Each entry stands in the mapping under its name.
    proof fn lemma_entry(&self, i: int)
        requires
            self.wf(),
            0 <= i < self.entries@.len(),
        ensures
            self@.dom().contains(self.entries@[i].name@),
            self@[self.entries@[i].name@] == self.entries@[i].private_key,
    {
        let name = self.entries@[i].name@;
        let p = self.position(name);
        assert(0 <= p < self.entries@.len() && self.entries@[p].name@ == name);
        assert(p == i);
    }

    /// No egos.
    pub fn new() -> (egos: Self)
        ensures
            egos.wf(),
            egos@ == Map::<Seq<char>, PrivateKey>::empty(),
    {
        let egos = Egos { entries: Vec::new() };
        assert(egos@ =~= Map::<Seq<char>, PrivateKey>::empty());
        egos
    }

    /// Where `name` stands among the entries, if it does.
    fn find(&self, name: &str) -> (r: Option<usize>)
        requires
            self.wf(),
        ensures
            match r {
                Some(i) => i < self.entries@.len() && self.entries@[i as int].name@ == name@,
                None => !self@.dom().contains(name@),
            },
    {
        let mut i: usize = 0;
        while i < self.entries.len()
            invariant
                i <= self.entries@.len(),
                forall|j: int| 0 <= j < i ==> self.entries@[j].name@ != name@,
            decreases self.entries@.len() - i,
        {
            if str_eq(self.entries[i].name.as_str(), name) {
                return Some(i);
            }
            i += 1;
        }
        None
    }

    /// The private key of `name`, if the listing told of one.
    pub fn get(&self, name: &str) -> (r: Option<PrivateKey>)
        requires
            self.wf(),
        ensures
            r == if self@.dom().contains(name@) {
                Some(self@[name@])
            } else {
                None
            },
    {
        match self.find(name) {
            Some(i) => {
                proof {
                    self.lemma_entry(i as int);
                }
                Some(self.entries[i].private_key.clone())
            },
            None => None,
        }
    }

    /// Whether the listing told of `name`.
    pub fn contains(&self, name: &str) -> (r: bool)
        requires
            self.wf(),
        ensures
            r == self@.dom().contains(name@),
    {
        match self.find(name) {
            Some(i) => {
                proof {
                    self.lemma_entry(i as int);
                }
                true
            },
            None => false,
        }
    }

    /// Puts `private_key` under `name`, in place of the key that stood there, if one did.
    pub fn insert(&mut self, name: String, private_key: PrivateKey)
        requires
            old(self).wf(),
        ensures
            final(self).wf(),
            final(self)@ == old(self)@.insert(name@, private_key),
    {
        let ghost n = name@;
        let found: Option<usize> = self.find(name.as_str());
        match found {
            Some(i) => {
                self.entries.remove(i);
            },
            None => {},
        }
        let ghost mid = self.entries@;
        assert(forall|j: int| 0 <= j < mid.len() ==> mid[j].name@ != n) by {
            assert forall|j: int| 0 <= j < mid.len() implies mid[j].name@ != n by {
                match found {
                    Some(i) => {
                        if j < i {
                            assert(mid[j] == old(self).entries@[j]);
                        } else {
                            assert(mid[j] == old(self).entries@[j + 1]);
                        }
                    },
                    None => {
                        if mid[j].name@ == n {
                            old(self).lemma_entry(j);
                        }
                    },
                }
            }
        }
        assert(forall|a: int, b: int| 0 <= a < b < mid.len() ==> mid[a].name@ != mid[b].name@) by {
            assert forall|a: int, b: int| 0 <= a < b < mid.len() implies mid[a].name@
                != mid[b].name@ by {
                match found {
                    Some(i) => {
                        let a0 = if a < i { a } else { a + 1 };
                        let b0 = if b < i { b } else { b + 1 };
                        assert(mid[a] == old(self).entries@[a0]);
                        assert(mid[b] == old(self).entries@[b0]);
                    },
                    None => {},
                }
            }
        }
        self.entries.push(Ego { name, private_key });
        let ghost last = mid.len() as int;
        assert(self.wf());
        assert forall|x: Seq<char>| #[trigger]
            self@.dom().contains(x) == old(self)@.insert(n, private_key).dom().contains(x) by {
            if x == n {
                assert(self.entries@[last].name@ == x);
            } else if old(self)@.dom().contains(x) {
                let p = old(self).position(x);
                match found {
                    Some(i) => {
                        let q = if p < i { p } else { p - 1 };
                        assert(self.entries@[q].name@ == x);
                    },
                    None => {
                        assert(self.entries@[p].name@ == x);
                    },
                }
            } else if self@.dom().contains(x) {
                let q = self.position(x);
                match found {
                    Some(i) => {
                        let p = if q < i { q } else { q + 1 };
                        assert(old(self).entries@[p].name@ == x);
                    },
                    None => {
                        assert(old(self).entries@[q].name@ == x);
                    },
                }
            }
        }
        assert forall|x: Seq<char>| #[trigger] self@.dom().contains(x) implies self@[x]
            == old(self)@.insert(n, private_key)[x] by {
            if x == n {
                self.lemma_entry(last);
            } else {
                let p = old(self).position(x);
                old(self).lemma_entry(p);
                match found {
                    Some(i) => {
                        let q = if p < i { p } else { p - 1 };
                        assert(self.entries@[q] == old(self).entries@[p]);
                        self.lemma_entry(q);
                    },
                    None => {
                        assert(self.entries@[p] == old(self).entries@[p]);
                        self.lemma_entry(p);
                    },
                }
            }
        }
        assert(self@ =~= old(self)@.insert(n, private_key));
    }

    /// The names of the first `n` entries.
    spec fn names(&self, n: int) -> Set<Seq<char>> {
        Set::new(|name: Seq<char>| exists|i: int| 0 <= i < n && self.entries@[i].name@ == name)
    }

    /// The first `n` entries have `n` names.
    proof fn lemma_names(&self, n: int)
        requires
            self.wf(),
            0 <= n <= self.entries@.len(),
        ensures
            self.names(n).finite(),
            self.names(n).len() == n,
        decreases n,
    {
        if n == 0 {
            assert(self.names(0) =~= Set::<Seq<char>>::empty());
        } else {
            self.lemma_names(n - 1);
            let last = self.entries@[n - 1].name@;
            assert(self.names(n) =~= self.names(n - 1).insert(last));
            assert(!self.names(n - 1).contains(last));
        }
    }

    /// There are as many names as entries.
    proof fn lemma_len(&self)
        requires
            self.wf(),
        ensures
            self@.dom().finite(),
            self@.dom().len() == self.entries@.len(),
    {
        self.lemma_names(self.entries@.len() as int);
        assert(self@.dom() =~= self.names(self.entries@.len() as int));
    }

    /// How many egos there are.
    pub fn len(&self) -> (n: usize)
        requires
            self.wf(),
        ensures
            n == self@.dom().len(),
    {
        proof {
            self.lemma_len();
        }
        self.entries.len()
    }

    /// The entries, one for each name, in no order that means anything.
    pub fn into_entries(self) -> (entries: Vec<Ego>)
        requires
            self.wf(),
        ensures
            entries@.len() == self@.dom().len(),
            forall|i: int|
                0 <= i < entries@.len() ==> self@.dom().contains(#[trigger] entries@[i].name@)
                    && self@[entries@[i].name@] == entries@[i].private_key,
            forall|i: int, j: int|
                0 <= i < j < entries@.len() ==> entries@[i].name@ != entries@[j].name@,
    {
        proof {
            self.lemma_len();
            assert forall|i: int| 0 <= i < self.entries@.len() implies self@.dom().contains(
                #[trigger] self.entries@[i].name@,
            ) && self@[self.entries@[i].name@] == self.entries@[i].private_key by {
                self.lemma_entry(i);
            }
        }
        self.entries
    }
}

/// Whether two texts are the same.
fn str_eq(a: &str, b: &str) -> (r: bool)
    ensures
        r == (a@ == b@),
{
    let x: &[u8] = a.as_bytes();
    let y: &[u8] = b.as_bytes();
    proof {
        vstd::utf8::encode_utf8_decode_utf8(a@);
        vstd::utf8::encode_utf8_decode_utf8(b@);
    }
    if x.len() != y.len() {
        return false;
    }
    let mut i: usize = 0;
    while i < x.len()
        invariant
            i <= x.len(),
            x.len() == y.len(),
            x@ == encode_utf8(a@),
            y@ == encode_utf8(b@),
            x@.take(i as int) == y@.take(i as int),
        decreases x.len() - i,
    {
        if x[i] != y[i] {
            return false;
        }
        i += 1;
        assert(x@.take(i as int) =~= x@.take(i - 1).push(x@[i - 1]));
        assert(y@.take(i as int) =~= y@.take(i - 1).push(y@[i - 1]));
    }
    assert(x@.take(x.len() as int) =~= x@);
    assert(y@.take(y.len() as int) =~= y@);
    true
}

} // verus!
