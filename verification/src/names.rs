use crate::text::to_text;
use vstd::hash_set::StringHashSet;
use vstd::prelude::*;

verus! {

/// The set of the texts that the strings of `v` hold.
pub open spec fn texts(v: Seq<String>) -> Set<Seq<char>> {
    Set::new(|n: Seq<char>| exists|i: int| 0 <= i < v.len() && v[i]@ == n)
}

/// A set of names. Names are the same where they hold the same characters:
/// a capital letter differs from its small one.
pub struct NameSet {
    names: StringHashSet,
}

impl View for NameSet {
    type V = Set<Seq<char>>;

    closed spec fn view(&self) -> Set<Seq<char>> {
        self.names@
    }
}

impl NameSet {
    /// The empty set.
    pub fn new() -> (r: NameSet)
        ensures
            r@ == Set::<Seq<char>>::empty(),
    {
        NameSet { names: StringHashSet::new() }
    }

    /// Whether the set holds `name`.
    pub fn contains(&self, name: &[char]) -> (r: bool)
        ensures
            r == self@.contains(name@),
    {
        let text = to_text(name);
        self.names.contains(text.as_str())
    }

    /// Puts `name` into the set.
    pub fn insert(&mut self, name: &[char])
        ensures
            final(self)@ == old(self)@.insert(name@),
    {
        let _ = self.names.insert(to_text(name));
    }

    /// The set of the names that `names` lists.
    pub fn from_strings(names: &Vec<String>) -> (r: NameSet)
        ensures
            r@ == texts(names@),
    {
        let mut out = NameSet::new();
        let mut i: usize = 0;
        proof {
            assert(texts(names@.take(0)) =~= Set::<Seq<char>>::empty());
        }
        while i < names.len()
            invariant
                i <= names@.len(),
                out@ == texts(names@.take(i as int)),
            decreases names.len() - i,
        {
            let ghost before = out@;
            let _ = out.names.insert(names[i].clone());
            proof {
                let a = names@.take(i as int);
                let b = names@.take(i + 1);
                let added = names@[i as int]@;
                assert(out@ == before.insert(added));
                assert forall|n: Seq<char>| texts(b).contains(n) <==> texts(a).insert(
                    added,
                ).contains(n) by {
                    if texts(b).contains(n) {
                        let j = choose|j: int| 0 <= j < b.len() && b[j]@ == n;
                        if j < i {
                            assert(a[j]@ == n);
                        }
                    }
                    if texts(a).contains(n) {
                        let j = choose|j: int| 0 <= j < a.len() && a[j]@ == n;
                        assert(b[j]@ == n);
                    }
                    if n == added {
                        assert(b[i as int]@ == n);
                    }
                }
                assert(texts(b) =~= texts(a).insert(added));
            }
            i += 1;
        }
        proof {
            assert(names@.take(names@.len() as int) =~= names@);
        }
        out
    }
}

} // verus!
