//! When a session is said to wait for its user, over several looks at its screen.
use crate::attention;
use crate::attention::{ActionView, Debounced, EdgeView};
use crate::model::ReasonView;
use vstd::prelude::*;

verus! {

/// A prompt that shows in two looks in a row is raised with the second, as the second shows
/// it; the signal is then up.
pub proof fn law_two_looks_raise(s: Debounced, first: ReasonView, second: ReasonView)
    requires
        s.wf(),
        s.confirmed is None,
        s.match_streak == 0,
    ensures
        s.edge(Some(first)) is None,
        s.looked(Some(first)).confirmed is None,
        s.looked(Some(first)).edge(Some(second)) == Some(EdgeView::Mark(second)),
        s.looked(Some(first)).looked(Some(second)).confirmed == Some(second),
        s.looked(Some(first)).looked(Some(second)).wf(),
{
}

/// Looks that show nothing never raise the signal, and break the row of those that do.
pub proof fn law_gap_starts_over(s: Debounced, first: ReasonView, second: ReasonView)
    requires
        s.wf(),
        s.confirmed is None,
    ensures
        s.edge(None) is None,
        s.looked(None).confirmed is None,
        s.looked(None).edge(Some(first)) is None,
        s.looked(Some(first)).confirmed is None ==> s.looked(Some(first)).looked(None).edge(
            Some(second),
        ) is None,
{
}

/// While the signal is up it shows the prompt of the last look that had one, and changes
/// without an edge.
pub proof fn law_raised_signal_follows_the_prompt(s: Debounced, reason: ReasonView)
    requires
        s.wf(),
        s.confirmed is Some,
    ensures
        s.edge(Some(reason)) is None,
        s.looked(Some(reason)).confirmed == Some(reason),
        s.looked(Some(reason)).clear_streak == 0,
        s.looked(None).confirmed is Some ==> s.looked(None).confirmed == s.confirmed,
{
}

/// The signal goes down with the third look in a row that shows nothing, and with no
/// earlier one; whatever came before is then forgotten.
pub proof fn law_three_blank_looks_clear(s: Debounced, reason: ReasonView)
    requires
        s.wf(),
        s.confirmed is Some,
    ensures
        ({
            let shown = s.looked(Some(reason));
            &&& shown.edge(None) is None
            &&& shown.looked(None).edge(None) is None
            &&& shown.looked(None).looked(None).confirmed == Some(reason)
            &&& shown.looked(None).looked(None).edge(None) == Some(EdgeView::Clear)
            &&& shown.looked(None).looked(None).looked(None) == (Debounced {
                confirmed: None,
                match_streak: 0,
                clear_streak: 0,
            })
        }),
{
}

/// After every look the session shows the signal. A task is told when the signal goes up
/// or down, before that, and is reminded of it after; without a task nothing else is done.
pub proof fn law_look_is_acted_on(s: Debounced, next: Option<ReasonView>)
    requires
        s.wf(),
    ensures
        ({
            let later = s.looked(next).confirmed;
            let show = ActionView::Show(later);
            let remind = ActionView::Reassert { awaiting: later is Some };
            let with = attention::after_look(s, next, true);
            &&& attention::after_look(s, next, false) =~= seq![show]
            &&& (s.confirmed is None && later is Some) ==> with =~= seq![
                ActionView::Mark(later->0),
                show,
                remind,
            ]
            &&& (s.confirmed is Some && later is None) ==> with =~= seq![
                ActionView::Resume,
                show,
                remind,
            ]
            &&& (s.confirmed is Some == later is Some) ==> with =~= seq![show, remind]
        }),
{
}

} // verus!
