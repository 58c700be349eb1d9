//! Which model a name stands for.

use crate::text::{
    chars_of, is_space, opt_view, same_text, string_of, trim, trim_twice_is_once, trimmed,
};
use vstd::prelude::*;

verus! {

/// A short name of a model.
#[derive(Debug)]
pub struct ModelAlias {
    pub alias: String,
    pub model: String,
}

/// What a [`ModelAlias`] says.
pub struct AliasView {
    pub alias: Seq<char>,
    pub model: Seq<char>,
}

impl View for ModelAlias {
    type V = AliasView;

    open spec fn view(&self) -> AliasView {
        AliasView { alias: self.alias@, model: self.model@ }
    }
}

/// The views of a sequence of short names.
pub open spec fn alias_views(aliases: Seq<ModelAlias>) -> Seq<AliasView> {
    aliases.map_values(|a: ModelAlias| a@)
}

/// The models that short names stand for: those that come with the library, and then, one after
/// the other, the first `n` of `custom` of which neither part is blank.
pub open spec fn alias_table(custom: Seq<AliasView>, n: nat) -> Map<Seq<char>, Seq<char>>
    decreases n,
{
    if n == 0 {
        map!["flash"@ => "deepseek-v4-flash"@, "pro"@ => "deepseek-v4-pro"@]
    } else {
        let before = alias_table(custom, (n - 1) as nat);
        let alias = trimmed(custom[n - 1].alias);
        let model = trimmed(custom[n - 1].model);
        if alias.len() > 0 && model.len() > 0 {
            before.insert(alias, model)
        } else {
            before
        }
    }
}

/// The model that is asked for: `flash` where the name is blank.
pub open spec fn requested_model(name: Seq<char>) -> Seq<char> {
    if trimmed(name).len() == 0 {
        "flash"@
    } else {
        trimmed(name)
    }
}

/// A model that a name stands for.
#[derive(Debug)]
pub struct ResolvedModel {
    pub requested: String,
    pub actual: String,
    pub label: String,
    pub alias: Option<String>,
}

/// What a [`ResolvedModel`] says.
pub struct ResolvedModelView {
    pub requested: Seq<char>,
    pub actual: Seq<char>,
    pub label: Seq<char>,
    pub alias: Option<Seq<char>>,
}

impl View for ResolvedModel {
    type V = ResolvedModelView;

    open spec fn view(&self) -> ResolvedModelView {
        ResolvedModelView {
            requested: self.requested@,
            actual: self.actual@,
            label: self.label@,
            alias: opt_view(self.alias),
        }
    }
}

/// The model that `name` stands for: the one that a short name is for, or else the one of that
/// name.
pub open spec fn resolved_model(
    table: Map<Seq<char>, Seq<char>>,
    name: Seq<char>,
) -> ResolvedModelView {
    let requested = requested_model(name);
    if table.contains_key(requested) {
        ResolvedModelView {
            requested,
            actual: table[requested],
            label: requested,
            alias: Some(requested),
        }
    } else {
        ResolvedModelView { requested, actual: requested, label: requested, alias: None }
    }
}

/// Knows the short names of models.
#[derive(Debug)]
pub struct ModelResolver {
    aliases: Vec<ModelAlias>,
}

impl View for ModelResolver {
    type V = Map<Seq<char>, Seq<char>>;

    closed spec fn view(&self) -> Map<Seq<char>, Seq<char>> {
        table_of(alias_views(self.aliases@))
    }
}

/// The table that a list of short names stands for: the last of a name counts.
spec fn table_of(aliases: Seq<AliasView>) -> Map<Seq<char>, Seq<char>>
    decreases aliases.len(),
{
    if aliases.len() == 0 {
        Map::empty()
    } else {
        table_of(aliases.drop_last()).insert(aliases.last().alias, aliases.last().model)
    }
}

fn add_alias(aliases: &mut Vec<ModelAlias>, alias: String, model: String)
    ensures
        table_of(alias_views(final(aliases)@)) == table_of(alias_views(old(aliases)@)).insert(
            alias@,
            model@,
        ),
{
    let ghost before = alias_views(aliases@);
    let entry: ModelAlias = ModelAlias { alias, model };
    aliases.push(entry);
    proof {
        assert(alias_views(aliases@) =~= before.push(entry@));
        assert(before.push(entry@).drop_last() =~= before);
    }
}

impl ModelResolver {
    /// Knows the short names that come with the library, and those of `custom`.
    pub fn new(custom: &Vec<ModelAlias>) -> (r: ModelResolver)
        ensures
            r@ == alias_table(alias_views(custom@), custom@.len()),
    {
        let ghost given = alias_views(custom@);
        let mut aliases: Vec<ModelAlias> = Vec::new();
        assert(alias_views(aliases@) =~= seq![]);
        add_alias(&mut aliases, "flash".to_owned(), "deepseek-v4-flash".to_owned());
        add_alias(&mut aliases, "pro".to_owned(), "deepseek-v4-pro".to_owned());
        assert(table_of(alias_views(aliases@)) =~= alias_table(given, 0));
        let mut i: usize = 0;
        while i < custom.len()
            invariant
                i <= custom@.len(),
                given == alias_views(custom@),
                table_of(alias_views(aliases@)) == alias_table(given, i as nat),
            decreases custom@.len() - i,
        {
            assert(given[i as int] == custom@[i as int]@);
            let alias: String = trim(custom[i].alias.as_str());
            let model: String = trim(custom[i].model.as_str());
            if !alias.as_str().is_empty() && !model.as_str().is_empty() {
                add_alias(&mut aliases, alias, model);
            }
            i += 1;
        }
        ModelResolver { aliases }
    }

    fn find(&self, name: &str) -> (r: Option<String>)
        ensures
            match r {
                Some(m) => self@.contains_key(name@) && self@[name@] == m@,
                None => !self@.contains_key(name@),
            },
    {
        let ghost all = alias_views(self.aliases@);
        let mut i: usize = self.aliases.len();
        assert(all.take(i as int) =~= all);
        while i > 0
            invariant
                i <= self.aliases@.len(),
                all == alias_views(self.aliases@),
                table_of(all).contains_key(name@) == table_of(all.take(i as int)).contains_key(
                    name@,
                ),
                table_of(all).contains_key(name@) ==> table_of(all)[name@] == table_of(
                    all.take(i as int),
                )[name@],
            decreases i,
        {
            i -= 1;
            assert(all[i as int] == self.aliases@[i as int]@);
            assert(all.take(i + 1).drop_last() =~= all.take(i as int));
            if same_text(self.aliases[i].alias.as_str(), name) {
                return Some(self.aliases[i].model.clone());
            }
        }
        assert(all.take(0) =~= seq![]);
        None
    }

    /// The model that `model` stands for.
    pub fn resolve(&self, model: &str) -> (r: ResolvedModel)
        ensures
            r@ == resolved_model(self@, model@),
    {
        let bare: String = trim(model);
        let requested: String = if bare.as_str().is_empty() {
            "flash".to_owned()
        } else {
            bare
        };
        match self.find(requested.as_str()) {
            Some(actual) => ResolvedModel {
                requested: requested.clone(),
                actual,
                label: requested.clone(),
                alias: Some(requested),
            },
            None => ResolvedModel {
                requested: requested.clone(),
                actual: requested.clone(),
                label: requested,
                alias: None,
            },
        }
    }
}

/// The address without the slashes at its end.
pub open spec fn without_slashes(url: Seq<char>) -> Seq<char>
    decreases url.len(),
{
    if url.len() > 0 && url.last() == '/' {
        without_slashes(url.drop_last())
    } else {
        url
    }
}

/// Where requests are sent to, given the address in the settings.
pub open spec fn chat_url(base_url: Seq<char>) -> Seq<char> {
    if base_url.len() == 0 {
        "https://api.deepseek.com/v1"@ + "/chat/completions"@
    } else {
        without_slashes(base_url) + "/chat/completions"@
    }
}

/// Where requests are sent to, given the address in the settings.
pub fn chat_url_of(base_url: &str) -> (r: String)
    ensures
        r@ == chat_url(base_url@),
{
    if base_url.is_empty() {
        return "https://api.deepseek.com/v1".to_owned().concat("/chat/completions");
    }
    let chars: Vec<char> = chars_of(base_url);
    let mut end: usize = chars.len();
    assert(base_url@.take(end as int) =~= base_url@);
    while end > 0 && chars[end - 1] == '/'
        invariant
            end <= chars@.len(),
            chars@ == base_url@,
            without_slashes(base_url@) == without_slashes(base_url@.take(end as int)),
        decreases end,
    {
        end -= 1;
        assert(base_url@.take(end + 1).drop_last() =~= base_url@.take(end as int));
    }
    let base: String = string_of(&chars, 0, end);
    proof {
        assert(base@ =~= base_url@.take(end as int));
        assert(end > 0 ==> base_url@.take(end as int).last() == chars@[end - 1]);
    }
    base.concat("/chat/completions")
}

/// A short name that is given stands for the model that it is given for last: no entry for another
/// name, and none that is blank, takes it away.
pub proof fn given_alias_counts(custom: Seq<AliasView>, i: int, n: nat)
    requires
        0 <= i < n <= custom.len(),
        trimmed(custom[i].alias).len() > 0,
        trimmed(custom[i].model).len() > 0,
        forall|j: int|
            i < j < n && trimmed(#[trigger] custom[j].alias) == trimmed(custom[i].alias) ==> trimmed(
                custom[j].model,
            ).len() == 0,
    ensures
        alias_table(custom, n).contains_key(trimmed(custom[i].alias)),
        alias_table(custom, n)[trimmed(custom[i].alias)] == trimmed(custom[i].model),
    decreases n,
{
    if i + 1 < n {
        given_alias_counts(custom, i, (n - 1) as nat);
    }
}

/// A name that stands for no other model is passed on as it is.
pub proof fn unlisted_name_is_passed_on(custom: Seq<AliasView>, name: Seq<char>)
    requires
        trimmed(name).len() > 0,
        trimmed(name) != "flash"@,
        trimmed(name) != "pro"@,
        forall|j: int| 0 <= j < custom.len() ==> trimmed(#[trigger] custom[j].alias) != trimmed(name),
    ensures
        ({
            let model = resolved_model(alias_table(custom, custom.len()), name);
            model.actual == trimmed(name) && model.alias is None
        }),
{
    lemma_unlisted_is_unknown(custom, custom.len(), trimmed(name));
}

proof fn lemma_unlisted_is_unknown(custom: Seq<AliasView>, n: nat, name: Seq<char>)
    requires
        n <= custom.len(),
        name != "flash"@,
        name != "pro"@,
        forall|j: int| 0 <= j < n ==> trimmed(#[trigger] custom[j].alias) != name,
    ensures
        !alias_table(custom, n).contains_key(name),
    decreases n,
{
    if n > 0 {
        lemma_unlisted_is_unknown(custom, (n - 1) as nat, name);
    }
}

/// The short names that come with the library are always known.
pub proof fn builtin_aliases_stay(custom: Seq<AliasView>, n: nat)
    requires
        n <= custom.len(),
    ensures
        alias_table(custom, n).contains_key("flash"@),
        alias_table(custom, n).contains_key("pro"@),
    decreases n,
{
    if n > 0 {
        builtin_aliases_stay(custom, (n - 1) as nat);
    }
}

/// The settings by which a sub-agent uses the model of the agent that launches it.
#[derive(Debug)]
pub struct ModelSelection {
    pub aliases: Vec<ModelAlias>,
    pub model: String,
}

/// What a [`ModelSelection`] says.
pub struct SelectionView {
    pub aliases: Seq<AliasView>,
    pub model: Seq<char>,
}

impl View for ModelSelection {
    type V = SelectionView;

    open spec fn view(&self) -> SelectionView {
        SelectionView { aliases: alias_views(self.aliases@), model: self.model@ }
    }
}

/// The settings by which a sub-agent uses this model: by its short name, which then stands for
/// it, or else by its name.
pub open spec fn selection_of(
    aliases: Seq<AliasView>,
    model: Seq<char>,
    alias: Option<Seq<char>>,
) -> SelectionView {
    match alias {
        Some(alias) => SelectionView {
            aliases: aliases.push(AliasView { alias, model }),
            model: alias,
        },
        None => SelectionView { aliases, model },
    }
}

/// The settings by which a sub-agent uses the model of the agent that launches it.
pub fn select_model(aliases: Vec<ModelAlias>, model: String, alias: Option<String>) -> (r:
    ModelSelection)
    ensures
        r@ == selection_of(alias_views(aliases@), model@, opt_view(alias)),
{
    match alias {
        Some(alias) => {
            let ghost before = alias_views(aliases@);
            let mut aliases: Vec<ModelAlias> = aliases;
            let entry: ModelAlias = ModelAlias { alias: alias.clone(), model };
            aliases.push(entry);
            assert(alias_views(aliases@) =~= before.push(entry@));
            ModelSelection { aliases, model: alias }
        },
        None => ModelSelection { aliases, model },
    }
}

proof fn lemma_table_of_prefix(custom: Seq<AliasView>, more: AliasView, n: nat)
    requires
        n <= custom.len(),
    ensures
        alias_table(custom.push(more), n) == alias_table(custom, n),
    decreases n,
{
    if n > 0 {
        lemma_table_of_prefix(custom, more, (n - 1) as nat);
    }
}

proof fn lemma_models_are_trimmed(custom: Seq<AliasView>, n: nat, name: Seq<char>)
    requires
        n <= custom.len(),
        alias_table(custom, n).contains_key(name),
    ensures
        ({
            let model = alias_table(custom, n)[name];
            trimmed(model) == model && model.len() > 0
        }),
    decreases n,
{
    if n == 0 {
        lemma_bare("deepseek-v4-flash"@);
        lemma_bare("deepseek-v4-pro"@);
        reveal_strlit("deepseek-v4-flash");
        reveal_strlit("deepseek-v4-pro");
    } else {
        trim_twice_is_once(custom[n - 1].model);
        if alias_table(custom, (n - 1) as nat).contains_key(name) {
            lemma_models_are_trimmed(custom, (n - 1) as nat, name);
        }
    }
}

proof fn lemma_bare(s: Seq<char>)
    ensures
        s.len() > 0 && !is_space(s[0]) && !is_space(s.last()) ==> trimmed(s) == s,
{
}

/// A sub-agent uses the model of the agent that launches it: with the settings that are made for
/// it, its model is resolved to that one, under the same short name.
pub proof fn sub_agent_uses_the_active_model(custom: Seq<AliasView>, name: Seq<char>)
    ensures
        ({
            let active = resolved_model(alias_table(custom, custom.len()), name);
            let selected = selection_of(custom, active.actual, active.alias);
            let table = alias_table(selected.aliases, selected.aliases.len());
            resolved_model(table, selected.model).actual == active.actual && resolved_model(
                table,
                selected.model,
            ).alias == active.alias
        }),
{
    reveal_strlit("flash");
    lemma_bare("flash"@);
    trim_twice_is_once(name);
    let active = resolved_model(alias_table(custom, custom.len()), name);
    if active.alias is Some {
        lemma_models_are_trimmed(custom, custom.len(), active.alias->Some_0);
        let more = AliasView { alias: active.alias->Some_0, model: active.actual };
        lemma_table_of_prefix(custom, more, custom.len());
    }
}

} // verus!
