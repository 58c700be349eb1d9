//! A set of names, kept in ascending order without repetition.

use crate::text::{
    clone_strings, holds, less, same_text, text_less, text_less_irreflexive, text_less_total, text_less_transitive, views,
};
use vstd::prelude::*;

verus! {

/// Whether each text of `s` comes before every later one.
pub open spec fn ascending(s: Seq<Seq<char>>) -> bool {
    forall|i: int, j: int| 0 <= i < j < s.len() ==> text_less(#[trigger] s[i], #[trigger] s[j])
}

/// An ascending sequence is determined by what it holds.
pub proof fn ascending_is_determined(a: Seq<Seq<char>>, b: Seq<Seq<char>>)
    requires
        ascending(a),
        ascending(b),
        a.to_set() == b.to_set(),
    ensures
        a == b,
    decreases a.len(),
{
    if a.len() == 0 {
        if b.len() > 0 {
            assert(b.to_set().contains(b[0]));
            assert(a.contains(b[0]));
        }
        assert(a =~= b);
    } else {
        assert(a.to_set().contains(a.last()));
        assert(b.contains(a.last()));
        let k = choose|k: int| 0 <= k < b.len() && b[k] == a.last();
        assert(b.to_set().contains(b.last()));
        assert(a.contains(b.last()));
        let m = choose|m: int| 0 <= m < a.len() && a[m] == b.last();
        if k < b.len() - 1 {
            assert(text_less(b[k], b[b.len() - 1]));
            if m < a.len() - 1 {
                assert(text_less(a[m], a[a.len() - 1]));
                text_less_transitive(b[k], b.last(), a.last());
            }
            text_less_irreflexive(a.last());
        }
        assert(a.last() == b.last());
        let x = a.last();
        assert forall|t: Seq<char>| a.drop_last().to_set().contains(t) == b.drop_last().to_set().contains(t) by {
            lemma_without_last(a, t);
            lemma_without_last(b, t);
            assert(a.to_set().contains(t) == b.to_set().contains(t));
        }
        assert(a.drop_last().to_set() =~= b.drop_last().to_set());
        ascending_is_determined(a.drop_last(), b.drop_last());
        assert(a =~= a.drop_last().push(x));
        assert(b =~= b.drop_last().push(x));
    }
}

proof fn lemma_without_last(a: Seq<Seq<char>>, t: Seq<char>)
    requires
        ascending(a),
        a.len() > 0,
    ensures
        a.drop_last().to_set().contains(t) == (a.to_set().contains(t) && t != a.last()),
{
    if a.drop_last().contains(t) {
        let i = choose|i: int| 0 <= i < a.drop_last().len() && a.drop_last()[i] == t;
        assert(a[i] == t);
        assert(text_less(a[i], a[a.len() - 1]));
        text_less_irreflexive(t);
    }
    if a.contains(t) && t != a.last() {
        let i = choose|i: int| 0 <= i < a.len() && a[i] == t;
        assert(a.drop_last()[i] == t);
    }
}

/// Where every text before `at` is less than `t` and every text from `at` on is greater, `t`
/// can be inserted at `at`.
pub proof fn lemma_insert_ascending(s: Seq<Seq<char>>, at: int, t: Seq<char>)
    requires
        ascending(s),
        0 <= at <= s.len(),
        at > 0 ==> text_less(s[at - 1], t),
        at < s.len() ==> text_less(t, s[at]),
    ensures
        ascending(s.insert(at, t)),
        s.insert(at, t).to_set() == s.to_set().insert(t),
        !s.contains(t),
{
    let r = s.insert(at, t);
    assert forall|i: int| 0 <= i < at implies text_less(#[trigger] s[i], t) by {
        if i < at - 1 {
            assert(text_less(s[i], s[at - 1]));
            text_less_transitive(s[i], s[at - 1], t);
        }
    }
    assert forall|i: int| at <= i < s.len() implies text_less(t, #[trigger] s[i]) by {
        if i > at {
            assert(text_less(s[at], s[i]));
            text_less_transitive(t, s[at], s[i]);
        }
    }
    assert forall|i: int, j: int| 0 <= i < j < r.len() implies text_less(#[trigger] r[i], #[trigger] r[j]) by {
        if i < at {
            assert(r[i] == s[i]);
        } else if i > at {
            assert(r[i] == s[i - 1]);
        }
        if j < at {
            assert(r[j] == s[j]);
        } else if j > at {
            assert(r[j] == s[j - 1]);
        }
    }
    assert forall|x: Seq<char>| r.to_set().contains(x) == s.to_set().insert(t).contains(x) by {
        if r.contains(x) {
            let i = choose|i: int| 0 <= i < r.len() && r[i] == x;
            if i < at {
                assert(s[i] == x);
            } else if i > at {
                assert(s[i - 1] == x);
            }
        }
        if s.contains(x) {
            let i = choose|i: int| 0 <= i < s.len() && s[i] == x;
            if i < at {
                assert(r[i] == x);
            } else {
                assert(r[i + 1] == x);
            }
        }
        assert(r[at] == t);
    }
    assert(r.to_set() =~= s.to_set().insert(t));
    if s.contains(t) {
        let i = choose|i: int| 0 <= i < s.len() && s[i] == t;
        text_less_irreflexive(t);
    }
}

/// A set of names.
pub struct NameSet {
    names: Vec<String>,
}

impl View for NameSet {
    type V = Set<Seq<char>>;

    closed spec fn view(&self) -> Set<Seq<char>> {
        views(self.names@).to_set()
    }
}

impl NameSet {
    #[verifier::type_invariant]
    spec fn ordered(&self) -> bool {
        ascending(views(self.names@))
    }

    /// The set that holds no name.
    pub fn new() -> (r: NameSet)
        ensures
            r@ == Set::<Seq<char>>::empty(),
    {
        let r = NameSet { names: Vec::new() };
        assert(views(r.names@).to_set() =~= Set::<Seq<char>>::empty());
        r
    }

    /// Adds `name`, and says whether it was new.
    pub fn insert(&mut self, name: &str) -> (r: bool)
        ensures
            final(self)@ == old(self)@.insert(name@),
            r == !old(self)@.contains(name@),
    {
        proof {
            use_type_invariant(&*self);
        }
        let ghost before = views(self.names@);
        let mut i: usize = 0;
        while i < self.names.len() && less(self.names[i].as_str(), name)
            invariant
                i <= self.names@.len(),
                views(self.names@) == before,
                ascending(before),
                i > 0 ==> text_less(before[i - 1], name@),
            decreases self.names@.len() - i,
        {
            i += 1;
        }
        if i < self.names.len() && same_text(self.names[i].as_str(), name) {
            assert(before[i as int] == name@);
            assert(self@.insert(name@) =~= self@);
            return false;
        }
        let owned: String = name.to_owned();
        proof {
            if i < before.len() {
                text_less_total(before[i as int], name@);
            }
            lemma_insert_ascending(before, i as int, name@);
            assert(views(self.names@.insert(i as int, owned)) =~= before.insert(i as int, name@));
        }
        let mut names: Vec<String> = clone_strings(&self.names);
        names.insert(i, owned);
        self.names = names;
        true
    }

    /// Whether the set holds `name`.
    pub fn contains(&self, name: &str) -> (r: bool)
        ensures
            r == self@.contains(name@),
    {
        holds(&self.names, name)
    }

    /// Whether the set holds no name.
    pub fn is_empty(&self) -> (r: bool)
        ensures
            r == (self@ == Set::<Seq<char>>::empty()),
    {
        proof {
            if self.names@.len() > 0 {
                assert(views(self.names@)[0] == self.names@[0]@);
                assert(self@.contains(self.names@[0]@));
            } else {
                assert(self@ =~= Set::<Seq<char>>::empty());
            }
        }
        self.names.len() == 0
    }

    /// How many names the set holds.
    pub fn len(&self) -> (r: usize)
        ensures
            self@.finite(),
            r == self@.len(),
    {
        proof {
            use_type_invariant(&*self);
            let all = views(self.names@);
            assert(all.no_duplicates()) by {
                assert forall|i: int, j: int| 0 <= i < j < all.len() implies all[i] != all[j] by {
                    assert(text_less(all[i], all[j]));
                    text_less_irreflexive(all[i]);
                }
            }
            all.unique_seq_to_set();
        }
        self.names.len()
    }

    /// The names in ascending order.
    pub fn names(&self) -> (r: &Vec<String>)
        ensures
            ascending(views(r@)),
            views(r@).to_set() == self@,
    {
        proof {
            use_type_invariant(&*self);
        }
        &self.names
    }
}

impl Clone for NameSet {
    fn clone(&self) -> (r: Self)
        ensures
            r@ == self@,
    {
        proof {
            use_type_invariant(&*self);
        }
        let names: Vec<String> = clone_strings(&self.names);
        NameSet { names }
    }
}

} // verus!
