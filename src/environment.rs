use vstd::prelude::*;

use crate::ast::Identifier;

verus! {

/// The map that a list of bindings denotes: a later binding of a name hides
/// an earlier one.
pub open spec fn bindings<V: View>(s: Seq<(Identifier, V)>) -> Map<Seq<char>, V::V>
    decreases s.len(),
{
    if s.len() == 0 {
        Map::empty()
    } else {
        bindings(s.drop_last()).insert(s.last().0.name@, s.last().1@)
    }
}

/// The latest binding of a name decides its value.
proof fn lemma_bindings_latest<V: View>(s: Seq<(Identifier, V)>, n: Seq<char>, j: int)
    requires
        0 <= j < s.len(),
        s[j].0.name@ == n,
        forall|k: int| j < k < s.len() ==> (#[trigger] s[k]).0.name@ != n,
    ensures
        bindings(s).contains_key(n),
        bindings(s)[n] == s[j].1@,
    decreases s.len(),
{
    if j < s.len() - 1 {
        lemma_bindings_latest(s.drop_last(), n, j);
    }
}

/// A name that no binding has is not in the map.
proof fn lemma_bindings_absent<V: View>(s: Seq<(Identifier, V)>, n: Seq<char>)
    requires
        forall|k: int| 0 <= k < s.len() ==> (#[trigger] s[k]).0.name@ != n,
    ensures
        !bindings(s).contains_key(n),
    decreases s.len(),
{
    if s.len() > 0 {
        lemma_bindings_absent(s.drop_last(), n);
    }
}

/// A map from names to values, looked up by name only.
pub struct Environment<V> {
    entries: Vec<(Identifier, V)>,
}

impl<V: View> View for Environment<V> {
    type V = Map<Seq<char>, V::V>;

    closed spec fn view(&self) -> Map<Seq<char>, V::V> {
        bindings(self.entries@)
    }
}

impl<V: View> Environment<V> {
    /// An environment with no bindings.
    pub fn new() -> (r: Self)
        ensures
            r@ == Map::<Seq<char>, V::V>::empty(),
    {
        Environment { entries: Vec::new() }
    }

    /// The index of the latest binding of `name`.
    fn find(&self, name: &String) -> (r: Option<usize>)
        ensures
            r is Some <==> self@.contains_key(name@),
            r is Some ==> r->0 < self.entries@.len() && self@[name@] == self.entries@[r->0 as int].1@,
    {
        let mut i: usize = self.entries.len();
        while i > 0
            invariant
                i <= self.entries@.len(),
                forall|k: int| i <= k < self.entries@.len() ==> (#[trigger] self.entries@[k]).0.name@
                    != name@,
            decreases i,
        {
            i = i - 1;
            if self.entries[i].0.name == *name {
                proof {
                    lemma_bindings_latest(self.entries@, name@, i as int);
                }
                return Some(i);
            }
        }
        proof {
            lemma_bindings_absent(self.entries@, name@);
        }
        None
    }

    /// The value bound to `name`, if any.
    pub fn get(&self, name: &String) -> (r: Option<&V>)
        ensures
            r is Some <==> self@.contains_key(name@),
            r is Some ==> r->0@ == self@[name@],
    {
        match self.find(name) {
            Some(i) => Some(&self.entries[i].1),
            None => None,
        }
    }

    /// Whether `name` is bound.
    pub fn contains(&self, name: &String) -> (r: bool)
        ensures
            r == self@.contains_key(name@),
    {
        self.find(name).is_some()
    }

    /// Binds the name of `identifier` to `value`, in place of any earlier
    /// binding.
    pub fn insert(&mut self, identifier: Identifier, value: V)
        ensures
            final(self)@ == old(self)@.insert(identifier.name@, value@),
    {
        let ghost before = self.entries@;
        self.entries.push((identifier, value));
        proof {
            assert(self.entries@.drop_last() =~= before);
        }
    }

    /// The bindings in the order they were made.
    pub fn entries(&self) -> (r: &Vec<(Identifier, V)>)
        ensures
            bindings(r@) == self@,
    {
        &self.entries
    }
}

} // verus!
