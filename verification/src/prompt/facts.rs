//! Facts about a session that decide which prompt workflows apply.

use crate::sets::{ascending, lemma_insert_ascending};
use crate::text::{less, same_text, text_less_total};
use crate::tools::ToolSemanticCapability;
use vstd::prelude::*;

verus! {

/// A fact about the tools of a session or the workflows that are active in it.
#[derive(Debug)]
pub enum PromptFact {
    ToolCapability(ToolSemanticCapability),
    SpecializedWithFallback(ToolSemanticCapability),
    Workflow(String),
}

/// What a [`PromptFact`] says.
pub enum FactView {
    ToolCapability(ToolSemanticCapability),
    SpecializedWithFallback(ToolSemanticCapability),
    Workflow(Seq<char>),
}

impl View for PromptFact {
    type V = FactView;

    open spec fn view(&self) -> FactView {
        match *self {
            PromptFact::ToolCapability(c) => FactView::ToolCapability(c),
            PromptFact::SpecializedWithFallback(c) => FactView::SpecializedWithFallback(c),
            PromptFact::Workflow(id) => FactView::Workflow(id@),
        }
    }
}

/// The views of a sequence of facts.
pub open spec fn fact_views(facts: Seq<PromptFact>) -> Seq<FactView> {
    facts.map_values(|f: PromptFact| f@)
}

impl FactView {
    /// The text by which facts are ordered: first by kind, then by capability or by workflow.
    pub open spec fn key(self) -> Seq<char> {
        match self {
            FactView::ToolCapability(c) => seq![0u8 as char, c.rank_spec() as char],
            FactView::SpecializedWithFallback(c) => seq![1u8 as char, c.rank_spec() as char],
            FactView::Workflow(id) => seq![2u8 as char] + id,
        }
    }
}

/// The keys of a sequence of facts.
pub open spec fn fact_keys(facts: Seq<PromptFact>) -> Seq<Seq<char>> {
    facts.map_values(|f: PromptFact| f@.key())
}

/// Facts with the same key are the same.
pub proof fn fact_key_is_unique(a: FactView, b: FactView)
    requires
        a.key() == b.key(),
    ensures
        a == b,
{
    assert(a.key()[0] == b.key()[0]);
    match (a, b) {
        (FactView::Workflow(x), FactView::Workflow(y)) => {
            assert(x =~= a.key().drop_first());
            assert(y =~= b.key().drop_first());
        },
        _ => {
            assert(a.key()[1] == b.key()[1]);
        },
    }
}

impl PromptFact {
    /// The text by which facts are ordered.
    fn order_key(&self) -> (r: String)
        ensures
            r@ == self@.key(),
    {
        let mut out: String = String::new();
        match self {
            PromptFact::ToolCapability(c) => {
                out.push(0u8 as char);
                out.push(c.rank() as char);
                assert(out@ =~= self@.key());
            },
            PromptFact::SpecializedWithFallback(c) => {
                out.push(1u8 as char);
                out.push(c.rank() as char);
                assert(out@ =~= self@.key());
            },
            PromptFact::Workflow(id) => {
                out.push(2u8 as char);
                out.append(id.as_str());
                assert(out@ =~= self@.key());
            },
        }
        out
    }

    /// Whether two facts say the same.
    pub fn same(&self, other: &PromptFact) -> (r: bool)
        ensures
            r == (self@ == other@),
    {
        match (self, other) {
            (PromptFact::ToolCapability(a), PromptFact::ToolCapability(b)) => *a == *b,
            (PromptFact::SpecializedWithFallback(a), PromptFact::SpecializedWithFallback(b)) => *a
                == *b,
            (PromptFact::Workflow(a), PromptFact::Workflow(b)) => same_text(
                a.as_str(),
                b.as_str(),
            ),
            _ => false,
        }
    }
}

impl Clone for PromptFact {
    fn clone(&self) -> (r: Self)
        ensures
            r == *self,
    {
        match self {
            PromptFact::ToolCapability(c) => PromptFact::ToolCapability(*c),
            PromptFact::SpecializedWithFallback(c) => PromptFact::SpecializedWithFallback(*c),
            PromptFact::Workflow(id) => PromptFact::Workflow(id.clone()),
        }
    }
}

/// A copy of `facts`.
pub fn clone_facts(facts: &Vec<PromptFact>) -> (r: Vec<PromptFact>)
    ensures
        r@ == facts@,
{
    let mut out: Vec<PromptFact> = Vec::new();
    let mut i: usize = 0;
    while i < facts.len()
        invariant
            i <= facts@.len(),
            out@ == facts@.take(i as int),
        decreases facts@.len() - i,
    {
        out.push(facts[i].clone());
        i += 1;
    }
    assert(facts@.take(i as int) =~= facts@);
    out
}

/// A set of facts, kept in the order of their keys.
pub struct FactSet {
    facts: Vec<PromptFact>,
}

impl View for FactSet {
    type V = Set<FactView>;

    closed spec fn view(&self) -> Set<FactView> {
        fact_views(self.facts@).to_set()
    }
}

impl FactSet {
    #[verifier::type_invariant]
    spec fn ordered(&self) -> bool {
        ascending(fact_keys(self.facts@))
    }

    /// The set that holds no fact.
    pub fn new() -> (r: FactSet)
        ensures
            r@ == Set::<FactView>::empty(),
    {
        let r = FactSet { facts: Vec::new() };
        assert(r@ =~= Set::<FactView>::empty());
        r
    }

    /// Adds `fact`.
    pub fn insert(&mut self, fact: PromptFact)
        ensures
            final(self)@ == old(self)@.insert(fact@),
    {
        proof {
            use_type_invariant(&*self);
        }
        let ghost before = fact_keys(self.facts@);
        let ghost held = self.facts@;
        let key: String = fact.order_key();
        let mut i: usize = 0;
        while i < self.facts.len() && less(self.facts[i].order_key().as_str(), key.as_str())
            invariant
                i <= self.facts@.len(),
                self.facts@ == held,
                fact_keys(held) == before,
                i > 0 ==> crate::text::text_less(before[i - 1], key@),
            decreases self.facts@.len() - i,
        {
            i += 1;
        }
        if i < self.facts.len() && self.facts[i].same(&fact) {
            assert(fact_views(held)[i as int] == fact@);
            assert(self@.insert(fact@) =~= self@);
            return;
        }
        proof {
            if i < before.len() {
                text_less_total(before[i as int], key@);
                if before[i as int] == key@ {
                    fact_key_is_unique(held[i as int]@, fact@);
                }
            }
            lemma_insert_ascending(before, i as int, key@);
            assert(fact_keys(held.insert(i as int, fact)) =~= before.insert(i as int, key@));
            let all = fact_views(held.insert(i as int, fact));
            assert(all =~= fact_views(held).insert(i as int, fact@));
            assert forall|f: FactView| all.to_set().contains(f) == fact_views(
                held,
            ).to_set().insert(fact@).contains(f) by {
                let old_views = fact_views(held);
                assert(all[i as int] == fact@);
                if all.contains(f) {
                    let k = choose|k: int| 0 <= k < all.len() && all[k] == f;
                    if k < i {
                        assert(old_views[k] == f);
                    } else if k > i {
                        assert(old_views[k - 1] == f);
                    }
                }
                if old_views.contains(f) {
                    let k = choose|k: int| 0 <= k < old_views.len() && old_views[k] == f;
                    if k < i {
                        assert(all[k] == f);
                    } else {
                        assert(all[k + 1] == f);
                    }
                }
            }
            assert(all.to_set() =~= fact_views(held).to_set().insert(fact@));
        }
        let mut facts: Vec<PromptFact> = clone_facts(&self.facts);
        facts.insert(i, fact);
        self.facts = facts;
    }

    /// Whether the set holds `fact`.
    pub fn contains(&self, fact: &PromptFact) -> (r: bool)
        ensures
            r == self@.contains(fact@),
    {
        let mut i: usize = 0;
        while i < self.facts.len()
            invariant
                i <= self.facts@.len(),
                forall|j: int| 0 <= j < i ==> (#[trigger] self.facts@[j])@ != fact@,
            decreases self.facts@.len() - i,
        {
            if self.facts[i].same(fact) {
                assert(fact_views(self.facts@)[i as int] == fact@);
                return true;
            }
            i += 1;
        }
        assert forall|j: int| 0 <= j < fact_views(self.facts@).len() implies fact_views(
            self.facts@,
        )[j] != fact@ by {
            assert(fact_views(self.facts@)[j] == self.facts@[j]@);
        }
        false
    }

    /// Whether the set holds no fact.
    pub fn is_empty(&self) -> (r: bool)
        ensures
            r == (self@ == Set::<FactView>::empty()),
    {
        proof {
            if self.facts@.len() > 0 {
                assert(fact_views(self.facts@)[0] == self.facts@[0]@);
                assert(self@.contains(self.facts@[0]@));
            } else {
                assert(self@ =~= Set::<FactView>::empty());
            }
        }
        self.facts.len() == 0
    }

    /// The facts in order.
    pub fn facts(&self) -> (r: &Vec<PromptFact>)
        ensures
            ascending(fact_keys(r@)),
            fact_views(r@).to_set() == self@,
    {
        proof {
            use_type_invariant(&*self);
        }
        &self.facts
    }
}

impl Clone for FactSet {
    fn clone(&self) -> (r: Self)
        ensures
            r@ == self@,
    {
        proof {
            use_type_invariant(&*self);
        }
        FactSet { facts: clone_facts(&self.facts) }
    }
}

} // verus!
