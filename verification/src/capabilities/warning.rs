//! Warnings about capabilities.

use vstd::prelude::*;

verus! {

/// Something about a provider that a user should know.
#[derive(Debug)]
pub struct CapabilityWarning {
    pub provider_id: String,
    pub message: String,
}

/// What a [`CapabilityWarning`] says.
pub struct WarningView {
    pub provider_id: Seq<char>,
    pub message: Seq<char>,
}

impl View for CapabilityWarning {
    type V = WarningView;

    open spec fn view(&self) -> WarningView {
        WarningView { provider_id: self.provider_id@, message: self.message@ }
    }
}

impl Clone for CapabilityWarning {
    fn clone(&self) -> (r: Self)
        ensures
            r == *self,
    {
        CapabilityWarning { provider_id: self.provider_id.clone(), message: self.message.clone() }
    }
}

/// The views of a sequence of warnings.
pub open spec fn warning_views(warnings: Seq<CapabilityWarning>) -> Seq<WarningView> {
    warnings.map_values(|w: CapabilityWarning| w@)
}

/// Appends a copy of `from` to `to`.
pub fn extend_warnings(to: &mut Vec<CapabilityWarning>, from: &Vec<CapabilityWarning>)
    ensures
        warning_views(final(to)@) == warning_views(old(to)@) + warning_views(from@),
{
    let ghost start = warning_views(to@);
    let ghost all = warning_views(from@);
    let mut i: usize = 0;
    assert(start + all.take(0) =~= start);
    while i < from.len()
        invariant
            i <= from@.len(),
            all == warning_views(from@),
            warning_views(to@) == start + all.take(i as int),
        decreases from@.len() - i,
    {
        let ghost before = to@;
        let w: CapabilityWarning = from[i].clone();
        to.push(w);
        assert(warning_views(to@) =~= warning_views(before).push(w@));
        assert(start + all.take(i + 1) =~= (start + all.take(i as int)).push(all[i as int]));
        i += 1;
    }
    assert(all.take(i as int) =~= all);
}

} // verus!
