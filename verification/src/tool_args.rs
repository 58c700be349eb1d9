//! The arguments of a tool call.

use crate::json::{
    field_views, json_text, lemma_object_view, FieldView, Json, JsonField, JsonView,
};
use crate::sets::{ascending, ascending_is_determined, lemma_insert_ascending};
use crate::text::{less, same_text, text_less, text_less_irreflexive, text_less_total};
use vstd::prelude::*;

verus! {

/// The names of a sequence of arguments.
pub open spec fn arg_names(entries: Seq<(String, String)>) -> Seq<Seq<char>> {
    entries.map_values(|e: (String, String)| e.0@)
}

/// The map that a sequence of arguments with distinct names makes up.
pub open spec fn arg_map(entries: Seq<(String, String)>) -> Map<Seq<char>, Seq<char>>
    decreases entries.len(),
{
    if entries.len() == 0 {
        Map::empty()
    } else {
        arg_map(entries.drop_last()).insert(entries.last().0@, entries.last().1@)
    }
}

proof fn lemma_arg_map(entries: Seq<(String, String)>)
    requires
        ascending(arg_names(entries)),
    ensures
        forall|i: int|
            0 <= i < entries.len() ==> arg_map(entries).contains_key((#[trigger] entries[i]).0@)
                && arg_map(entries)[entries[i].0@] == entries[i].1@,
        forall|k: Seq<char>| #[trigger]
            arg_map(entries).contains_key(k) ==> exists|i: int|
                0 <= i < entries.len() && (#[trigger] entries[i]).0@ == k,
    decreases entries.len(),
{
    if entries.len() > 0 {
        let front = entries.drop_last();
        let names = arg_names(entries);
        assert(arg_names(front) =~= names.drop_last());
        lemma_arg_map(front);
        assert forall|i: int| 0 <= i < entries.len() implies arg_map(entries).contains_key(
            (#[trigger] entries[i]).0@,
        ) && arg_map(entries)[entries[i].0@] == entries[i].1@ by {
            if i < front.len() {
                assert(front[i] == entries[i]);
                assert(names[i] == entries[i].0@ && names[entries.len() - 1] == entries.last().0@);
                assert(text_less(names[i], names[entries.len() - 1]));
                text_less_irreflexive(entries[i].0@);
            }
        }
        assert forall|k: Seq<char>| #[trigger] arg_map(entries).contains_key(k) implies exists|
            i: int,
        | 0 <= i < entries.len() && (#[trigger] entries[i]).0@ == k by {
            if k == entries.last().0@ {
                assert(entries[entries.len() - 1].0@ == k);
            } else {
                assert(arg_map(front).contains_key(k));
                let i = choose|i: int| 0 <= i < front.len() && (#[trigger] front[i]).0@ == k;
                assert(entries[i].0@ == k);
            }
        }
    }
}

/// The arguments of a tool call by their names.
#[derive(Debug)]
pub struct ToolArgs {
    entries: Vec<(String, String)>,
}

impl View for ToolArgs {
    type V = Map<Seq<char>, Seq<char>>;

    closed spec fn view(&self) -> Map<Seq<char>, Seq<char>> {
        arg_map(self.entries@)
    }
}

/// The names of arguments, in order.
pub open spec fn names_in_order(args: Map<Seq<char>, Seq<char>>) -> Seq<Seq<char>> {
    choose|names: Seq<Seq<char>>| ascending(names) && names.to_set() == args.dom()
}

/// The arguments as the fields of a JSON object.
pub open spec fn arg_fields(args: Map<Seq<char>, Seq<char>>) -> Seq<FieldView> {
    names_in_order(args).map_values(
        |name: Seq<char>| FieldView { name, value: JsonView::Text(args[name]) },
    )
}

/// The JSON text of arguments: an object with the arguments in the order of their names.
pub open spec fn json_of_args(args: Map<Seq<char>, Seq<char>>) -> Seq<char> {
    json_text(JsonView::Object(arg_fields(args)))
}

proof fn lemma_names_in_order(entries: Seq<(String, String)>)
    requires
        ascending(arg_names(entries)),
    ensures
        names_in_order(arg_map(entries)) == arg_names(entries),
{
    lemma_arg_map(entries);
    let names = arg_names(entries);
    let args = arg_map(entries);
    assert forall|k: Seq<char>| names.to_set().contains(k) == args.dom().contains(k) by {
        if names.to_set().contains(k) {
            let i = choose|i: int| 0 <= i < names.len() && names[i] == k;
            assert(entries[i].0@ == k);
        }
        if args.dom().contains(k) {
            let i = choose|i: int| 0 <= i < entries.len() && (#[trigger] entries[i]).0@ == k;
            assert(names[i] == k);
        }
    }
    assert(names.to_set() =~= args.dom());
    let chosen = names_in_order(args);
    assert(ascending(chosen) && chosen.to_set() == args.dom());
    ascending_is_determined(chosen, names);
}

impl ToolArgs {
    #[verifier::type_invariant]
    spec fn ordered(&self) -> bool {
        ascending(arg_names(self.entries@))
    }

    /// No arguments.
    pub fn new() -> (r: ToolArgs)
        ensures
            r@ == Map::<Seq<char>, Seq<char>>::empty(),
    {
        ToolArgs { entries: Vec::new() }
    }

    fn position(&self, name: &str) -> (r: Option<usize>)
        ensures
            match r {
                Some(i) => i < self.entries@.len() && self.entries@[i as int].0@ == name@,
                None => !self@.contains_key(name@),
            },
    {
        proof {
            use_type_invariant(&*self);
            lemma_arg_map(self.entries@);
        }
        let mut i: usize = 0;
        while i < self.entries.len()
            invariant
                i <= self.entries@.len(),
                forall|j: int| 0 <= j < i ==> (#[trigger] self.entries@[j]).0@ != name@,
            decreases self.entries@.len() - i,
        {
            if same_text(self.entries[i].0.as_str(), name) {
                return Some(i);
            }
            i += 1;
        }
        None
    }

    /// The argument `name`.
    pub fn get(&self, name: &str) -> (r: Option<&String>)
        ensures
            match r {
                Some(v) => self@.contains_key(name@) && v@ == self@[name@],
                None => !self@.contains_key(name@),
            },
    {
        proof {
            use_type_invariant(&*self);
            lemma_arg_map(self.entries@);
        }
        match self.position(name) {
            Some(i) => Some(&self.entries[i].1),
            None => None,
        }
    }

    /// These arguments and `name`, where it is not among them.
    pub fn with(self, name: &str, value: &str) -> (r: ToolArgs)
        ensures
            r@ == if self@.contains_key(name@) {
                self@
            } else {
                self@.insert(name@, value@)
            },
    {
        proof {
            use_type_invariant(&self);
            lemma_arg_map(self.entries@);
        }
        if self.position(name).is_some() {
            return self;
        }
        let ghost before = self.entries@;
        let ghost names = arg_names(before);
        let mut at: usize = 0;
        while at < self.entries.len() && less(self.entries[at].0.as_str(), name)
            invariant
                at <= self.entries@.len(),
                before == self.entries@,
                names == arg_names(before),
                at > 0 ==> text_less(names[at - 1], name@),
            decreases self.entries@.len() - at,
        {
            assert(names[at as int] == before[at as int].0@);
            at += 1;
        }
        let entry: (String, String) = (name.to_owned(), value.to_owned());
        proof {
            if at < before.len() {
                assert(names[at as int] == before[at as int].0@);
                text_less_total(names[at as int], name@);
            }
            lemma_insert_ascending(names, at as int, name@);
            assert(arg_names(before.insert(at as int, entry)) =~= names.insert(at as int, name@));
        }
        let mut entries: Vec<(String, String)> = self.entries;
        entries.insert(at, entry);
        proof {
            lemma_arg_map(entries@);
            let after = arg_map(entries@);
            let expected = arg_map(before).insert(name@, value@);
            assert(entries@[at as int] == entry);
            assert forall|k: Seq<char>| after.contains_key(k) == expected.contains_key(k) by {
                if after.contains_key(k) {
                    let i = choose|i: int| 0 <= i < entries@.len() && (#[trigger] entries@[i]).0@ == k;
                    if i < at {
                        assert(before[i] == entries@[i]);
                    } else if i > at {
                        assert(before[i - 1] == entries@[i]);
                    }
                }
                if arg_map(before).contains_key(k) {
                    let i = choose|i: int| 0 <= i < before.len() && (#[trigger] before[i]).0@ == k;
                    if i < at {
                        assert(entries@[i] == before[i]);
                    } else {
                        assert(entries@[i + 1] == before[i]);
                    }
                }
            }
            assert forall|k: Seq<char>| after.contains_key(k) implies after[k] == expected[k] by {
                let i = choose|i: int| 0 <= i < entries@.len() && (#[trigger] entries@[i]).0@ == k;
                if i < at {
                    assert(before[i] == entries@[i]);
                } else if i > at {
                    assert(before[i - 1] == entries@[i]);
                }
            }
            assert(after =~= expected);
        }
        ToolArgs { entries }
    }

    /// The JSON text of the arguments: an object with the arguments in the order of their names.
    pub fn canonical_json(&self) -> (r: String)
        ensures
            r@ == json_of_args(self@),
    {
        proof {
            use_type_invariant(&*self);
            lemma_arg_map(self.entries@);
            lemma_names_in_order(self.entries@);
        }
        let ghost all = arg_fields(self@);
        let mut fields: Vec<JsonField> = Vec::new();
        let mut i: usize = 0;
        assert(field_views(fields@) =~= all.take(0));
        while i < self.entries.len()
            invariant
                i <= self.entries@.len(),
                all == arg_fields(self@),
                all.len() == self.entries@.len(),
                forall|k: int|
                    0 <= k < all.len() ==> #[trigger] all[k] == (FieldView {
                        name: self.entries@[k].0@,
                        value: JsonView::Text(self.entries@[k].1@),
                    }),
                field_views(fields@) == all.take(i as int),
            decreases self.entries@.len() - i,
        {
            let ghost before = fields@;
            let field: JsonField = JsonField {
                name: self.entries[i].0.clone(),
                value: Json::Text(self.entries[i].1.clone()),
            };
            fields.push(field);
            proof {
                assert(all[i as int] == field@);
                assert(field_views(fields@) =~= field_views(before).push(field@));
                assert(all.take(i + 1) =~= all.take(i as int).push(all[i as int]));
            }
            i += 1;
        }
        proof {
            assert(all.take(i as int) =~= all);
            lemma_object_view(fields);
        }
        Json::Object(fields).to_text()
    }
}

impl Clone for ToolArgs {
    fn clone(&self) -> (r: Self)
        ensures
            r@ == self@,
    {
        proof {
            use_type_invariant(&*self);
        }
        let mut entries: Vec<(String, String)> = Vec::new();
        let mut i: usize = 0;
        while i < self.entries.len()
            invariant
                i <= self.entries@.len(),
                entries@ == self.entries@.take(i as int),
            decreases self.entries@.len() - i,
        {
            let e: &(String, String) = &self.entries[i];
            entries.push((e.0.clone(), e.1.clone()));
            assert(self.entries@.take(i + 1) =~= self.entries@.take(i as int).push(
                self.entries@[i as int],
            ));
            i += 1;
        }
        assert(self.entries@.take(i as int) =~= self.entries@);
        ToolArgs { entries }
    }
}

} // verus!
