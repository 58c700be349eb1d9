//! What holds of the settings, whatever they are.

use crate::config::limits::{in_unit_interval, limits_fault, RuntimeLimits};
use crate::config::models::{
    alias_table, chat_url, resolved_model, without_slashes, AliasView,
};
use crate::config::policy::{
    approval_mode_of, edit_mode_of, setting_word, signal_policy_of, EditMode, SignalPolicy,
    ToolApprovalMode,
};
use crate::config::resolved::{runtime_limits, ResolvedConfig};
use crate::text::trimmed;
use vstd::prelude::*;

verus! {

/// Limits are accepted exactly where each of them lies in its range and, with a known window,
/// the reserve and the output of a compaction are smaller than the window and the output, the
/// tail and the response fit in it together.
pub proof fn limits_are_accepted_iff_they_fit(limits: RuntimeLimits)
    ensures
        limits_fault(limits) is None <==> {
            let window = limits.max_context_tokens as int;
            let reserve = limits.context_reserve_tokens as int;
            let tail = limits.context_compact_tail_tokens as int;
            let output = limits.context_compact_max_output_tokens as int;
            let wanted = limits.max_tokens as int;
            &&& in_unit_interval(limits.edit_fuzzy_threshold_bits)
            &&& wanted > 0
            &&& limits.max_turns > 0
            &&& 1 <= limits.context_compact_pct <= 100
            &&& reserve > 0
            &&& tail > 0
            &&& output > 0
            &&& window > 0 ==> {
                &&& reserve < window
                &&& output < window
                &&& output + tail + wanted <= window || output + tail + reserve <= window
            }
        },
{
}

/// A name that the table lists stands for the model that it lists, and is kept as the name of
/// that model.
pub proof fn listed_name_is_replaced(table: Map<Seq<char>, Seq<char>>, name: Seq<char>)
    requires
        trimmed(name).len() > 0,
        table.contains_key(trimmed(name)),
    ensures
        resolved_model(table, name).requested == trimmed(name),
        resolved_model(table, name).label == trimmed(name),
        resolved_model(table, name).alias == Some(trimmed(name)),
        resolved_model(table, name).actual == table[trimmed(name)],
{
}

/// A blank name stands for the model that `flash` stands for.
pub proof fn blank_name_is_flash(table: Map<Seq<char>, Seq<char>>, name: Seq<char>)
    requires
        trimmed(name).len() == 0,
    ensures
        resolved_model(table, name).requested == "flash"@,
        table.contains_key("flash"@) ==> resolved_model(table, name).actual == table["flash"@],
{
}

/// What is shown for a model is what was asked for.
pub proof fn label_is_what_was_asked_for(table: Map<Seq<char>, Seq<char>>, name: Seq<char>)
    ensures
        resolved_model(table, name).label == resolved_model(table, name).requested,
        resolved_model(table, name).alias is Some <==> table.contains_key(
            resolved_model(table, name).requested,
        ),
        resolved_model(table, name).alias is None ==> resolved_model(table, name).actual
            == resolved_model(table, name).requested,
{
}

/// An alias without a name or without a model changes nothing.
pub proof fn blank_alias_is_passed_over(custom: Seq<AliasView>, n: nat)
    requires
        n < custom.len(),
        trimmed(custom[n as int].alias).len() == 0 || trimmed(custom[n as int].model).len() == 0,
    ensures
        alias_table(custom, n + 1) == alias_table(custom, n),
{
}

/// An alias says what its own name stands for and nothing of another name.
pub proof fn alias_is_taken_without_white_space(custom: Seq<AliasView>, n: nat, name: Seq<char>)
    requires
        n < custom.len(),
        trimmed(custom[n as int].alias).len() > 0,
        trimmed(custom[n as int].model).len() > 0,
    ensures
        ({
            let before = alias_table(custom, n);
            let after = alias_table(custom, n + 1);
            if name == trimmed(custom[n as int].alias) {
                after.contains_key(name) && after[name] == trimmed(custom[n as int].model)
            } else {
                &&& after.contains_key(name) == before.contains_key(name)
                &&& before.contains_key(name) ==> after[name] == before[name]
            }
        }),
{
}

proof fn lemma_slashes_are_cut(url: Seq<char>)
    ensures
        without_slashes(url).is_prefix_of(url),
        without_slashes(url).len() > 0 ==> without_slashes(url).last() != '/',
        forall|i: int| without_slashes(url).len() <= i < url.len() ==> #[trigger] url[i] == '/',
    decreases url.len(),
{
    if url.len() > 0 && url.last() == '/' {
        lemma_slashes_are_cut(url.drop_last());
        let rest = url.drop_last();
        assert forall|i: int| without_slashes(url).len() <= i < url.len() implies #[trigger] url[i]
            == '/' by {
            if i < rest.len() {
                assert(rest[i] == url[i]);
            }
        }
    }
}

/// The address of the service is the given one up to its slashes at the end, and the path of
/// the call behind it, however many slashes stand at the end.
pub proof fn call_goes_below_the_given_address(base: Seq<char>)
    requires
        base.len() > 0,
    ensures
        ({
            let kept = chat_url(base).len() - "/chat/completions"@.len();
            &&& 0 <= kept <= base.len()
            &&& chat_url(base) == base.take(kept) + "/chat/completions"@
            &&& kept > 0 ==> base[kept - 1] != '/'
            &&& forall|i: int| kept <= i < base.len() ==> #[trigger] base[i] == '/'
        }),
        chat_url(base + "/"@) == chat_url(base),
{
    lemma_slashes_are_cut(base);
    let kept = without_slashes(base).len() as int;
    assert(base.take(kept) == without_slashes(base));
    assert(kept > 0 ==> without_slashes(base).last() == base[kept - 1]);
    reveal_strlit("/");
    let more = base + "/"@;
    assert(more.last() == '/');
    assert(more.drop_last() == base);
    assert(without_slashes(more) == without_slashes(base));
}

/// A mode is read by its name, and nothing else gives it: two values that give a mode and agree
/// up to white space and the case of their letters give the same one.
pub proof fn mode_is_read_by_its_name(value: Seq<char>)
    ensures
        edit_mode_of(value) is Ok <==> (setting_word(value) == EditMode::Hashline.name()
            || setting_word(value) == EditMode::Replace.name()),
        edit_mode_of(value) matches Ok(mode) ==> mode.name() == setting_word(value),
{
    reveal_strlit("hashline");
    reveal_strlit("replace");
    assert("hashline"@.len() != "replace"@.len());
}

/// Each policy is given by its own word, and no other word gives one.
pub proof fn policy_is_read_by_its_word(value: Seq<char>)
    ensures
        signal_policy_of(value) == Ok::<SignalPolicy, Seq<char>>(SignalPolicy::Off) <==> setting_word(
            value,
        ) == "off"@,
        signal_policy_of(value) == Ok::<SignalPolicy, Seq<char>>(SignalPolicy::Evidence)
            <==> setting_word(value) == "evidence"@,
        signal_policy_of(value) == Ok::<SignalPolicy, Seq<char>>(SignalPolicy::StateOps) <==> (
        setting_word(value) == "state_ops"@ || setting_word(value) == "state-ops"@),
        signal_policy_of(value) == Ok::<SignalPolicy, Seq<char>>(SignalPolicy::Restart)
            <==> setting_word(value) == "restart"@,
        signal_policy_of(value) == Ok::<SignalPolicy, Seq<char>>(SignalPolicy::Full)
            <==> setting_word(value) == "full"@,
{
    reveal_strlit("off");
    reveal_strlit("evidence");
    reveal_strlit("state_ops");
    reveal_strlit("state-ops");
    reveal_strlit("restart");
    reveal_strlit("full");
    assert("off"@.len() == 3 && "evidence"@.len() == 8 && "state_ops"@.len() == 9
        && "state-ops"@.len() == 9 && "restart"@.len() == 7 && "full"@.len() == 4);
}

/// The policies stand in a row, and each reaches one step farther than the one before it.
pub proof fn policies_stand_in_a_row()
    ensures
        SignalPolicy::Off.reach() < SignalPolicy::Evidence.reach()
            < SignalPolicy::StateOps.reach() < SignalPolicy::Restart.reach()
            < SignalPolicy::Full.reach(),
        forall|p: SignalPolicy| #[trigger] p.reach() > SignalPolicy::Off.reach() <==> !(p is Off),
        forall|p: SignalPolicy|
            #[trigger] p.reach() >= SignalPolicy::Full.reach() <==> p is Full,
{
}

/// A way of asking is given by its own word as it is written, and no other word gives one.
pub proof fn approval_is_read_by_its_word(raw: Seq<char>)
    ensures
        approval_mode_of(raw) == Ok::<ToolApprovalMode, Seq<char>>(ToolApprovalMode::AlwaysAsk)
            <==> raw == "always-ask"@,
        approval_mode_of(raw) == Ok::<ToolApprovalMode, Seq<char>>(ToolApprovalMode::Write) <==> raw
            == "write"@,
        approval_mode_of(raw) == Ok::<ToolApprovalMode, Seq<char>>(ToolApprovalMode::Yolo) <==> raw
            == "yolo"@,
{
    reveal_strlit("always-ask");
    reveal_strlit("write");
    reveal_strlit("yolo");
    assert("always-ask"@.len() == 10 && "write"@.len() == 5 && "yolo"@.len() == 4);
}

/// A configuration is accepted by its own settings, each taken from the field of its name.
pub proof fn configuration_is_checked_by_its_own_settings(cfg: ResolvedConfig)
    requires
        limits_fault(runtime_limits(cfg)) is None,
    ensures
        in_unit_interval(cfg.edit_fuzzy_threshold_bits),
        cfg.max_tokens > 0,
        cfg.max_turns > 0,
        1 <= cfg.context_compact_pct <= 100,
        cfg.context_reserve_tokens > 0,
        cfg.context_compact_tail_tokens > 0,
        cfg.context_compact_max_output_tokens > 0,
        cfg.max_context_tokens > 0 ==> cfg.context_reserve_tokens < cfg.max_context_tokens
            && cfg.context_compact_max_output_tokens + cfg.context_compact_tail_tokens
            < cfg.max_context_tokens,
{
}

} // verus!
