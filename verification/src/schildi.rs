use vstd::prelude::*;

verus! {

/// User-controlled settings for inbox sorting and filtering.
#[derive(Clone, Copy, PartialEq, Eq, Structural, Debug)]
pub struct ScInboxSettings {
    /// The sort order to apply to the inbox.
    pub sort_order: ScSortOrder,
}

/// User-controlled inbox sort-order settings.
#[derive(Clone, Copy, PartialEq, Eq, Structural, Debug)]
pub struct ScSortOrder {
    /// Whether to sort unread chats above read chats.
    pub by_unread: bool,
    /// Whether to sort favorite chats above anything else.
    pub pin_favorites: bool,
    /// Whether to sort low-priority chats at the bottom.
    pub bury_low_priority: bool,
    /// Whether to sort by client-generated or server-reported unread counts,
    /// when sorting by unread.
    pub client_generated_unread: bool,
    /// Whether to include non-notification/mention unread counts when sorting
    /// by unread.
    pub with_silent_unread: bool,
}

impl Default for ScSortOrder {
    /// Every ordering refinement is off by default.
    fn default() -> (r: Self)
        ensures
            !r.by_unread,
            !r.pin_favorites,
            !r.bury_low_priority,
            !r.client_generated_unread,
            !r.with_silent_unread,
    {
        ScSortOrder {
            by_unread: false,
            pin_favorites: false,
            bury_low_priority: false,
            client_generated_unread: false,
            with_silent_unread: false,
        }
    }
}

impl Default for ScInboxSettings {
    /// The default settings carry the default sort order.
    fn default() -> (r: Self)
        ensures
            r.sort_order == ScSortOrder::default_spec(),
    {
        ScInboxSettings { sort_order: ScSortOrder::default() }
    }
}

impl ScSortOrder {
    /// The value produced by `Default::default`.
    pub open spec fn default_spec() -> Self {
        ScSortOrder {
            by_unread: false,
            pin_favorites: false,
            bury_low_priority: false,
            client_generated_unread: false,
            with_silent_unread: false,
        }
    }
}

} // verus!
