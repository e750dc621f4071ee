use vstd::prelude::*;
use crate::schildi::ScSortOrder;
use crate::sorters::{
    latest_event, name, new_sorter_lexicographic, recency, tag, unread, LexicographicSorter,
    Sorter,
};
use crate::sorters::tag::TagMatcher;
use crate::sorters::unread::UnreadMatcher;

verus! {

/// The comparator stack a sort order asks for, in decreasing precedence:
/// the tag tier always leads, so that invites sort on top; the unread
/// tier follows where unread sorting is on; recency and name close the
/// stack as deterministic tie-breaks.
pub open spec fn spec_sort_by_list(
    sort_order: ScSortOrder,
    enable_latest_event_sorter: bool,
) -> Seq<Sorter> {
    seq![
        Sorter::Tag(
            TagMatcher {
                pin_favorites: sort_order.pin_favorites,
                bury_low_priority: sort_order.bury_low_priority,
            },
        ),
    ] + (if sort_order.by_unread {
        seq![
            Sorter::Unread(
                UnreadMatcher {
                    client_generated_counts: sort_order.client_generated_unread,
                    with_silent_unread: sort_order.with_silent_unread,
                },
            ),
        ]
    } else {
        Seq::empty()
    }) + (if enable_latest_event_sorter {
        seq![Sorter::LatestEvent]
    } else {
        Seq::empty()
    }) + seq![Sorter::Recency, Sorter::Name]
}

/// Builds the comparator stack a sort order asks for.
pub fn get_sort_by_vec(sort_order: ScSortOrder, enable_latest_event_sorter: bool) -> (r: Vec<
    Sorter,
>)
    ensures
        r@ == spec_sort_by_list(sort_order, enable_latest_event_sorter),
{
    let mut result: Vec<Sorter> = Vec::new();
    // Always sort by tag: that also sorts invites on top.
    result.push(
        Sorter::Tag(tag::new_sorter(sort_order.pin_favorites, sort_order.bury_low_priority)),
    );
    if sort_order.by_unread {
        result.push(
            Sorter::Unread(
                unread::new_sorter(
                    sort_order.client_generated_unread,
                    sort_order.with_silent_unread,
                ),
            ),
        );
    }
    if enable_latest_event_sorter {
        // Put the rooms whose latest event is a local echo first.
        result.push(latest_event::new_sorter());
    }
    result.push(recency::new_sorter());
    result.push(name::new_sorter());
    proof {
        assert(result@ =~= spec_sort_by_list(sort_order, enable_latest_event_sorter));
    }
    result
}

/// Builds the combined comparator a sort order asks for.
pub fn get_sc_sort_box(setting: ScSortOrder, enable_latest_event_sorter: bool) -> (r:
    LexicographicSorter)
    ensures
        r.sorters@ == spec_sort_by_list(setting, enable_latest_event_sorter),
{
    new_sorter_lexicographic(get_sort_by_vec(setting, enable_latest_event_sorter))
}

impl From<ScSortOrder> for LexicographicSorter {
    /// The combined comparator of a sort order, without the latest-event
    /// criterion.
    fn from(value: ScSortOrder) -> (r: Self)
        ensures
            r.sorters@ == spec_sort_by_list(value, false),
    {
        new_sorter_lexicographic(get_sort_by_vec(value, false))
    }
}

impl vstd::std_specs::convert::FromSpecImpl<ScSortOrder> for LexicographicSorter {
    open spec fn obeys_from_spec() -> bool {
        false
    }

    open spec fn from_spec(v: ScSortOrder) -> Self {
        choose|ls: LexicographicSorter| ls.sorters@ == spec_sort_by_list(v, false)
    }
}

} // verus!
