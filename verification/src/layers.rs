//! Sets of layer names.
//!
//! A tile is made of named layers (roads, water, ...). A request names the
//! layers it wants as a set: no name twice. The set keeps its names in the
//! order in which they were first inserted, so that everything derived from
//! it has a fixed order too.

use vstd::prelude::*;

verus! {

/// The distinct names of `names`, each at the place of its first occurrence.
pub open spec fn distinct_names(names: Seq<Seq<char>>) -> Seq<Seq<char>>
    decreases names.len(),
{
    if names.len() == 0 {
        Seq::empty()
    } else {
        let before = distinct_names(names.drop_last());
        if before.contains(names.last()) {
            before
        } else {
            before.push(names.last())
        }
    }
}

/// `distinct_names` drops repetitions and nothing else: the result holds no
/// name twice, and it holds a name exactly if `names` does.
pub proof fn lemma_distinct_names(names: Seq<Seq<char>>)
    ensures
        distinct_names(names).no_duplicates(),
        forall|name: Seq<char>| #[trigger]
            distinct_names(names).contains(name) <==> names.contains(name),
    decreases names.len(),
{
    if names.len() > 0 {
        let front = names.drop_last();
        let before = distinct_names(front);
        lemma_distinct_names(front);
        assert forall|name: Seq<char>| #[trigger]
            distinct_names(names).contains(name) <==> names.contains(name) by {
            if names.contains(name) {
                let i = choose|i: int| 0 <= i < names.len() && names[i] == name;
                if i < names.len() - 1 {
                    assert(front[i] == name);
                    assert(before.contains(name));
                    let j = choose|j: int| 0 <= j < before.len() && before[j] == name;
                    assert(distinct_names(names)[j] == name);
                } else if before.contains(name) {
                } else {
                    assert(distinct_names(names)[before.len() as int] == name);
                }
            }
            if distinct_names(names).contains(name) {
                let j = choose|j: int|
                    0 <= j < distinct_names(names).len() && distinct_names(names)[j] == name;
                if j < before.len() {
                    assert(before.contains(name));
                }
            }
        }
    }
}

/// A set of layer names, in the order of insertion. Two sets are equal if
/// they hold the same names, in whatever order.
#[derive(Debug, Eq)]
pub struct LayerSet {
    names: Vec<String>,
}

impl View for LayerSet {
    type V = Seq<Seq<char>>;

    /// The names, in the order of insertion.
    closed spec fn view(&self) -> Seq<Seq<char>> {
        self.names.deep_view()
    }
}

impl LayerSet {
    #[verifier::type_invariant]
    spec fn holds_no_name_twice(&self) -> bool {
        self.names.deep_view().no_duplicates()
    }

    /// The empty set.
    pub fn new() -> (set: Self)
        ensures
            set@ == Seq::<Seq<char>>::empty(),
    {
        let names: Vec<String> = Vec::new();
        LayerSet { names }
    }

    /// Number of names in the set. No name is counted twice, because the set
    /// holds none twice.
    pub fn len(&self) -> (n: usize)
        ensures
            n == self@.len(),
            self@.no_duplicates(),
    {
        proof {
            use_type_invariant(self);
        }
        self.names.len()
    }

    /// Whether the set holds no name.
    pub fn is_empty(&self) -> (empty: bool)
        ensures
            empty == (self@.len() == 0),
    {
        self.names.len() == 0
    }

    /// The name at place `index` in the order of insertion, `None` beyond
    /// the last.
    pub fn get(&self, index: usize) -> (name: Option<&String>)
        ensures
            name is Some <==> index < self@.len(),
            name matches Some(name) ==> name@ == self@[index as int],
    {
        if index < self.names.len() {
            Some(&self.names[index])
        } else {
            None
        }
    }

    /// Whether the set holds `name`.
    pub fn contains(&self, name: &String) -> (found: bool)
        ensures
            found == self@.contains(name@),
    {
        let mut index: usize = 0;
        while index < self.names.len()
            invariant
                index <= self.names.len(),
                forall|i: int| 0 <= i < index ==> self@[i] != name@,
            decreases self.names.len() - index,
        {
            if self.names[index] == *name {
                assert(self@[index as int] == name@);
                return true;
            }
            index = index + 1;
        }
        false
    }

    /// Adds `name` unless the set holds it already, and says whether it was
    /// added. A new name goes to the end.
    pub fn insert(&mut self, name: String) -> (added: bool)
        ensures
            added == !old(self)@.contains(name@),
            final(self)@ == if added {
                old(self)@.push(name@)
            } else {
                old(self)@
            },
    {
        proof {
            use_type_invariant(&*self);
        }
        if self.contains(&name) {
            false
        } else {
            let mut names: Vec<String> = Vec::new();
            core::mem::swap(&mut self.names, &mut names);
            let ghost before = names.deep_view();
            names.push(name);
            assert(names.deep_view() =~= before.push(name@));
            core::mem::swap(&mut self.names, &mut names);
            true
        }
    }

    /// The set of the names in `names`, each at the place of its first
    /// occurrence.
    pub fn from_names(names: Vec<String>) -> (set: Self)
        ensures
            set@ == distinct_names(names.deep_view()),
    {
        let mut set = LayerSet::new();
        let mut index: usize = 0;
        while index < names.len()
            invariant
                index <= names.len(),
                set@ == distinct_names(names.deep_view().take(index as int)),
            decreases names.len() - index,
        {
            assert(names.deep_view().take(index + 1).drop_last() =~= names.deep_view().take(
                index as int,
            ));
            set.insert(names[index].clone());
            index = index + 1;
        }
        assert(names.deep_view().take(index as int) =~= names.deep_view());
        set
    }
}

impl PartialEq for LayerSet {
    fn eq(&self, other: &Self) -> (equal: bool) {
        proof {
            use_type_invariant(self);
            use_type_invariant(other);
            self@.unique_seq_to_set();
            other@.unique_seq_to_set();
            vstd::seq_lib::seq_to_set_is_finite(self@);
            vstd::seq_lib::seq_to_set_is_finite(other@);
        }
        if self.names.len() != other.names.len() {
            return false;
        }
        let mut index: usize = 0;
        while index < self.names.len()
            invariant
                index <= self.names.len(),
                forall|i: int| 0 <= i < index ==> other@.contains(#[trigger] self@[i]),
            decreases self.names.len() - index,
        {
            if !other.contains(&self.names[index]) {
                assert(self@.to_set().contains(self@[index as int]));
                return false;
            }
            index = index + 1;
        }
        proof {
            assert(self@.to_set().subset_of(other@.to_set())) by {
                assert forall|name: Seq<char>| self@.to_set().contains(name) implies other@.to_set().contains(
                    name,
                ) by {
                    let i = choose|i: int| 0 <= i < self@.len() && self@[i] == name;
                    assert(other@.contains(self@[i]));
                }
            }
            vstd::set_lib::lemma_subset_equality(self@.to_set(), other@.to_set());
        }
        true
    }
}

impl vstd::std_specs::cmp::PartialEqSpecImpl for LayerSet {
    open spec fn obeys_eq_spec() -> bool {
        true
    }

    /// Equal are sets that hold the same names.
    open spec fn eq_spec(&self, other: &Self) -> bool {
        self@.to_set() == other@.to_set()
    }
}

impl Clone for LayerSet {
    fn clone(&self) -> (copy: Self)
        ensures
            copy@ == self@,
    {
        proof {
            use_type_invariant(self);
        }
        let mut names: Vec<String> = Vec::new();
        let mut index: usize = 0;
        while index < self.names.len()
            invariant
                index <= self.names.len(),
                names.len() == index,
                forall|i: int| 0 <= i < index ==> names[i]@ == self.names[i]@,
            decreases self.names.len() - index,
        {
            names.push(self.names[index].clone());
            index = index + 1;
        }
        assert(names.deep_view() =~= self.names.deep_view());
        LayerSet { names }
    }
}

} // verus!
