//! The registration of an automatic posting: a channel, the webhook that posts
//! into it, and the tag to search for.

use vstd::prelude::*;

verus! {

/// One automatic posting, as stored in the `hooks` table.
#[derive(Debug, Clone)]
pub struct Hook {
    pub guild_id: i64,
    pub channel_id: i64,
    pub enabled: bool,
    pub hook_id: i64,
    pub hook_token: String,
    pub tag: String,
}

/// A hook with its strings taken as character sequences.
pub struct HookView {
    pub guild_id: i64,
    pub channel_id: i64,
    pub enabled: bool,
    pub hook_id: i64,
    pub hook_token: Seq<char>,
    pub tag: Seq<char>,
}

impl View for Hook {
    type V = HookView;

    open spec fn view(&self) -> HookView {
        HookView {
            guild_id: self.guild_id,
            channel_id: self.channel_id,
            enabled: self.enabled,
            hook_id: self.hook_id,
            hook_token: self.hook_token@,
            tag: self.tag@,
        }
    }
}

/// The views of a sequence of hooks.
pub open spec fn hook_views(hooks: Seq<Hook>) -> Seq<HookView> {
    hooks.map_values(|h: Hook| h@)
}

impl Hook {
    /// The row that registering a channel stores: enabled, with the given
    /// ids, webhook token and tag.
    pub fn new_enabled(guild_id: i64, channel_id: i64, hook_id: i64, hook_token: String, tag: String) -> (r: Hook)
        ensures
            r.guild_id == guild_id,
            r.channel_id == channel_id,
            r.enabled,
            r.hook_id == hook_id,
            r.hook_token == hook_token,
            r.tag == tag,
    {
        Hook { guild_id, channel_id, enabled: true, hook_id, hook_token, tag }
    }
}

} // verus!
