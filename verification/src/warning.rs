//! What rendering has to say without failing: references that it could not
//! resolve.

use vstd::prelude::*;

verus! {

/// One thing that rendering noticed and went on from.
#[derive(Clone, Debug, PartialEq, Eq)]
pub enum Warning {
    /// A structural placeholder stood as a value, its variable was missing
    /// or blank, and the string was kept.
    KeptPlaceholder(String),
    /// A structural placeholder stood as an item of an array, its variable
    /// was missing or blank, and the item was dropped.
    DroppedItem(String),
    /// A `${NAME}` named a missing variable and was replaced by nothing.
    MissingVariable(String),
}

/// The mathematical model of a [`Warning`].
pub enum WarningView {
    KeptPlaceholder(Seq<char>),
    DroppedItem(Seq<char>),
    MissingVariable(Seq<char>),
}

impl View for Warning {
    type V = WarningView;

    open spec fn view(&self) -> WarningView {
        match self {
            Warning::KeptPlaceholder(name) => WarningView::KeptPlaceholder(name@),
            Warning::DroppedItem(name) => WarningView::DroppedItem(name@),
            Warning::MissingVariable(name) => WarningView::MissingVariable(name@),
        }
    }
}

/// The models of a sequence of warnings.
pub open spec fn warning_views(warnings: Seq<Warning>) -> Seq<WarningView> {
    Seq::new(warnings.len(), |i: int| warnings[i]@)
}

/// Adds `warning` to `warnings`.
pub fn note(warnings: &mut Vec<Warning>, warning: Warning)
    ensures
        warning_views(final(warnings)@) == warning_views(old(warnings)@).push(warning@),
{
    warnings.push(warning);
    assert(warning_views(warnings@) =~= warning_views(old(warnings)@).push(warning@));
}

} // verus!
