//! The decisions of the bot's commands. Registering a channel for automatic
//! posting (`/autobooru new`) talks to Discord and the database in turns; the
//! decisions between those turns form the state machine `Registration`, which
//! takes what came back (an event) and says what to do next (an action).

use vstd::prelude::*;

use crate::model::{hook_views, Hook, HookView};

verus! {

/// The answer outside a server.
pub const NOT_IN_GUILD_MESSAGE: &'static str = "このコマンドはサーバー内でのみ使用できます";

/// The start of the answer for a channel that is already registered.
pub const ALREADY_REGISTERED_MESSAGE: &'static str = "このチャンネルは既に登録済みです\n`/autobooru delete`で削除するか、`/autobooru edit`でタグを編集できます。\n現在のタグは";

/// The answer when Discord gives the new webhook no token.
pub const WEBHOOK_FAILED_MESSAGE: &'static str = "Webhookの作成に失敗しました";

/// The start of the answer after a registration.
pub const STARTED_MESSAGE: &'static str = "自動投稿を開始しました\n\nタグ: `";

/// The name of the webhooks that the bot creates.
pub const WEBHOOK_NAME: &'static str = "Autobooru";

/// The avatar of the webhooks that the bot creates.
pub const WEBHOOK_AVATAR: &'static str = "https://cdn.discordapp.com/app-icons/1031731551928590366/7fefc1692284d3a5bf332ce5ff476c0a.png?size=256";

/// The answer for a channel already registered with `tag`.
pub open spec fn already_registered_reply(tag: Seq<char>) -> Seq<char> {
    ALREADY_REGISTERED_MESSAGE@ + " `"@ + tag + "` です。"@
}

/// The answer after registering a channel with `tag`.
pub open spec fn started_reply(tag: Seq<char>) -> Seq<char> {
    STARTED_MESSAGE@ + tag + "`"@
}

/// Where a registration stands.
#[derive(Debug, Clone, Copy, PartialEq, Eq, Structural)]
pub enum RegistrationPhase {
    /// Nothing has happened yet.
    Start,
    /// Waiting for the hooks already stored for the channel.
    LookingUp,
    /// Waiting for Discord to create the webhook.
    CreatingWebhook,
    /// Waiting for the database to store the new hook.
    Storing,
    /// The command has answered; nothing more happens.
    Finished,
}

/// A registration of the command's channel for automatic posts with `tag`.
#[derive(Debug)]
pub struct Registration {
    pub tag: String,
    pub phase: RegistrationPhase,
    pub guild_id: i64,
    pub channel_id: u64,
}

/// What came back from the outside.
#[derive(Debug)]
pub enum RegistrationEvent {
    /// The command was invoked, in a server or not, in a channel.
    Invoked { guild_id: Option<u64>, channel_id: u64 },
    /// The hooks stored for the server and channel.
    HooksFound { hooks: Vec<Hook> },
    /// Discord created a webhook, with or without a token.
    WebhookCreated { hook_id: u64, token: Option<String> },
    /// The new hook is stored.
    HookStored,
}

/// What to do next.
#[derive(Debug)]
pub enum RegistrationAction {
    /// Fetch the hooks stored for this server and channel.
    LookUpHooks { guild_id: i64, channel_id: i64 },
    /// Create a webhook in the channel, with this name and avatar.
    CreateWebhook { channel_id: u64, name: String, avatar: String },
    /// Store this hook.
    StoreHook { hook: Hook },
    /// Answer with this message; the command is then done.
    Reply { message: String },
    /// Nothing: the command is done.
    Nothing,
}

/// A registration with its strings taken as character sequences.
pub struct RegistrationView {
    pub tag: Seq<char>,
    pub phase: RegistrationPhase,
    pub guild_id: i64,
    pub channel_id: u64,
}

/// An event with its strings taken as character sequences.
pub enum EventView {
    Invoked { guild_id: Option<u64>, channel_id: u64 },
    HooksFound { hooks: Seq<HookView> },
    WebhookCreated { hook_id: u64, token: Option<Seq<char>> },
    HookStored,
}

/// An action with its strings taken as character sequences.
pub enum ActionView {
    LookUpHooks { guild_id: i64, channel_id: i64 },
    CreateWebhook { channel_id: u64, name: Seq<char>, avatar: Seq<char> },
    StoreHook { hook: HookView },
    Reply { message: Seq<char> },
    Nothing,
}

impl View for Registration {
    type V = RegistrationView;

    open spec fn view(&self) -> RegistrationView {
        RegistrationView {
            tag: self.tag@,
            phase: self.phase,
            guild_id: self.guild_id,
            channel_id: self.channel_id,
        }
    }
}

impl View for RegistrationEvent {
    type V = EventView;

    open spec fn view(&self) -> EventView {
        match self {
            RegistrationEvent::Invoked { guild_id, channel_id } => EventView::Invoked {
                guild_id: *guild_id,
                channel_id: *channel_id,
            },
            RegistrationEvent::HooksFound { hooks } => EventView::HooksFound {
                hooks: hook_views(hooks@),
            },
            RegistrationEvent::WebhookCreated { hook_id, token } => EventView::WebhookCreated {
                hook_id: *hook_id,
                token: match token {
                    Some(t) => Some(t@),
                    None => None,
                },
            },
            RegistrationEvent::HookStored => EventView::HookStored,
        }
    }
}

impl View for RegistrationAction {
    type V = ActionView;

    open spec fn view(&self) -> ActionView {
        match self {
            RegistrationAction::LookUpHooks { guild_id, channel_id } => ActionView::LookUpHooks {
                guild_id: *guild_id,
                channel_id: *channel_id,
            },
            RegistrationAction::CreateWebhook { channel_id, name, avatar } =>
                ActionView::CreateWebhook { channel_id: *channel_id, name: name@, avatar: avatar@ },
            RegistrationAction::StoreHook { hook } => ActionView::StoreHook { hook: hook@ },
            RegistrationAction::Reply { message } => ActionView::Reply { message: message@ },
            RegistrationAction::Nothing => ActionView::Nothing,
        }
    }
}

/// A registration for `tag` that has not started.
pub open spec fn initial_registration(tag: Seq<char>) -> RegistrationView {
    RegistrationView { tag, phase: RegistrationPhase::Start, guild_id: 0, channel_id: 0 }
}

/// `s`, done.
pub open spec fn finished(s: RegistrationView) -> RegistrationView {
    RegistrationView { phase: RegistrationPhase::Finished, ..s }
}

/// One step of a registration: the next state and the action, given the
/// state and what came back.
///  - Invoked outside a server: answer that the command works in servers only.
///  - Invoked in a server: look up the hooks of the server and channel.
///  - Some hook found: answer that the channel is registered, with its tag.
///  - None found: create a webhook in the channel.
///  - Webhook without a token: answer that creating it failed.
///  - Webhook with a token: store an enabled hook for it, with the tag.
///  - Hook stored: answer that posting has started, with the tag.
///  - Anything else: the command is done, with nothing to do.
pub open spec fn registration_step(s: RegistrationView, e: EventView) -> (
    RegistrationView,
    ActionView,
) {
    match s.phase {
        RegistrationPhase::Start => match e {
            EventView::Invoked { guild_id, channel_id } => match guild_id {
                None => (finished(s), ActionView::Reply { message: NOT_IN_GUILD_MESSAGE@ }),
                Some(g) => (
                    RegistrationView {
                        phase: RegistrationPhase::LookingUp,
                        guild_id: g as i64,
                        channel_id,
                        ..s
                    },
                    ActionView::LookUpHooks { guild_id: g as i64, channel_id: channel_id as i64 },
                ),
            },
            _ => (finished(s), ActionView::Nothing),
        },
        RegistrationPhase::LookingUp => match e {
            EventView::HooksFound { hooks } => if hooks.len() > 0 {
                (
                    finished(s),
                    ActionView::Reply { message: already_registered_reply(hooks[0].tag) },
                )
            } else {
                (
                    RegistrationView { phase: RegistrationPhase::CreatingWebhook, ..s },
                    ActionView::CreateWebhook {
                        channel_id: s.channel_id,
                        name: WEBHOOK_NAME@,
                        avatar: WEBHOOK_AVATAR@,
                    },
                )
            },
            _ => (finished(s), ActionView::Nothing),
        },
        RegistrationPhase::CreatingWebhook => match e {
            EventView::WebhookCreated { hook_id, token } => match token {
                None => (finished(s), ActionView::Reply { message: WEBHOOK_FAILED_MESSAGE@ }),
                Some(t) => (
                    RegistrationView { phase: RegistrationPhase::Storing, ..s },
                    ActionView::StoreHook {
                        hook: HookView {
                            guild_id: s.guild_id,
                            channel_id: s.channel_id as i64,
                            enabled: true,
                            hook_id: hook_id as i64,
                            hook_token: t,
                            tag: s.tag,
                        },
                    },
                ),
            },
            _ => (finished(s), ActionView::Nothing),
        },
        RegistrationPhase::Storing => match e {
            EventView::HookStored => (
                finished(s),
                ActionView::Reply { message: started_reply(s.tag) },
            ),
            _ => (finished(s), ActionView::Nothing),
        },
        RegistrationPhase::Finished => (s, ActionView::Nothing),
    }
}

impl Registration {
    /// A registration for `tag` that has not started.
    pub fn new(tag: String) -> (r: Registration)
        ensures
            r@ == initial_registration(tag@),
    {
        Registration { tag, phase: RegistrationPhase::Start, guild_id: 0, channel_id: 0 }
    }

    /// Whether the command is done.
    pub fn is_finished(&self) -> (r: bool)
        ensures
            r == (self.phase == RegistrationPhase::Finished),
    {
        match self.phase {
            RegistrationPhase::Finished => true,
            _ => false,
        }
    }

    /// One step: the next state and what to do, given what came back.
    pub fn step(self, event: RegistrationEvent) -> (r: (Registration, RegistrationAction))
        ensures
            (r.0@, r.1@) == registration_step(self@, event@),
    {
        let ghost s = self@;
        let ghost e = event@;
        let mut next = self;
        match next.phase {
            RegistrationPhase::Start => match event {
                RegistrationEvent::Invoked { guild_id, channel_id } => match guild_id {
                    None => {
                        next.phase = RegistrationPhase::Finished;
                        (next, RegistrationAction::Reply { message: NOT_IN_GUILD_MESSAGE.to_owned() })
                    },
                    Some(g) => {
                        next.phase = RegistrationPhase::LookingUp;
                        next.guild_id = g as i64;
                        next.channel_id = channel_id;
                        (
                            next,
                            RegistrationAction::LookUpHooks {
                                guild_id: g as i64,
                                channel_id: channel_id as i64,
                            },
                        )
                    },
                },
                _ => {
                    next.phase = RegistrationPhase::Finished;
                    (next, RegistrationAction::Nothing)
                },
            },
            RegistrationPhase::LookingUp => match event {
                RegistrationEvent::HooksFound { hooks } => {
                    if hooks.len() > 0 {
                        next.phase = RegistrationPhase::Finished;
                        let mut message = ALREADY_REGISTERED_MESSAGE.to_owned();
                        message.append(" `");
                        message.append(hooks[0].tag.as_str());
                        message.append("` です。");
                        (next, RegistrationAction::Reply { message })
                    } else {
                        next.phase = RegistrationPhase::CreatingWebhook;
                        let channel_id = next.channel_id;
                        (
                            next,
                            RegistrationAction::CreateWebhook {
                                channel_id,
                                name: WEBHOOK_NAME.to_owned(),
                                avatar: WEBHOOK_AVATAR.to_owned(),
                            },
                        )
                    }
                },
                _ => {
                    next.phase = RegistrationPhase::Finished;
                    (next, RegistrationAction::Nothing)
                },
            },
            RegistrationPhase::CreatingWebhook => match event {
                RegistrationEvent::WebhookCreated { hook_id, token } => match token {
                    None => {
                        next.phase = RegistrationPhase::Finished;
                        (
                            next,
                            RegistrationAction::Reply {
                                message: WEBHOOK_FAILED_MESSAGE.to_owned(),
                            },
                        )
                    },
                    Some(t) => {
                        next.phase = RegistrationPhase::Storing;
                        let hook = Hook::new_enabled(
                            next.guild_id,
                            next.channel_id as i64,
                            hook_id as i64,
                            t,
                            next.tag.clone(),
                        );
                        (next, RegistrationAction::StoreHook { hook })
                    },
                },
                _ => {
                    next.phase = RegistrationPhase::Finished;
                    (next, RegistrationAction::Nothing)
                },
            },
            RegistrationPhase::Storing => match event {
                RegistrationEvent::HookStored => {
                    next.phase = RegistrationPhase::Finished;
                    let mut message = STARTED_MESSAGE.to_owned();
                    message.append(next.tag.as_str());
                    message.append("`");
                    (next, RegistrationAction::Reply { message })
                },
                _ => {
                    next.phase = RegistrationPhase::Finished;
                    (next, RegistrationAction::Nothing)
                },
            },
            RegistrationPhase::Finished => (next, RegistrationAction::Nothing),
        }
    }
}

/// The state and the actions after feeding `events` one by one to a
/// registration in state `s`.
pub open spec fn registration_run(s: RegistrationView, events: Seq<EventView>) -> (
    RegistrationView,
    Seq<ActionView>,
)
    decreases events.len(),
{
    if events.len() == 0 {
        (s, seq![])
    } else {
        let (mid, acts) = registration_run(s, events.drop_last());
        let (next, a) = registration_step(mid, events.last());
        (next, acts.push(a))
    }
}

/// `e` is an invocation in a server.
pub open spec fn invoked_in_guild(e: EventView) -> bool {
    e matches EventView::Invoked { guild_id: Some(_), .. }
}

/// `e` reports that no hook is stored for the channel.
pub open spec fn no_hooks_found(e: EventView) -> bool {
    e matches EventView::HooksFound { hooks } && hooks.len() == 0
}

/// `e` reports a webhook that came with a token.
pub open spec fn webhook_with_token(e: EventView) -> bool {
    e matches EventView::WebhookCreated { token: Some(_), .. }
}

/// The hook that a registration for `tag` stores, given the invocation and
/// the created webhook.
pub open spec fn registered_hook(tag: Seq<char>, invocation: EventView, webhook: EventView) -> HookView {
    HookView {
        guild_id: invocation->guild_id.unwrap() as i64,
        channel_id: invocation->channel_id as i64,
        enabled: true,
        hook_id: webhook->hook_id as i64,
        hook_token: webhook->token.unwrap(),
        tag,
    }
}

/// The lookup that the invocation `e` in a server asks for.
pub open spec fn lookup_of(e: EventView) -> ActionView {
    ActionView::LookUpHooks {
        guild_id: e->guild_id.unwrap() as i64,
        channel_id: e->channel_id as i64,
    }
}

/// `s` holds the server and channel of the invocation `e`.
pub open spec fn holds_invocation(s: RegistrationView, e: EventView) -> bool {
    &&& invoked_in_guild(e)
    &&& s.guild_id == e->guild_id.unwrap() as i64
    &&& s.channel_id == e->channel_id
}

/// What holds after any run of a registration from its start.
pub open spec fn run_shape(tag: Seq<char>, events: Seq<EventView>) -> bool {
    let (st, acts) = registration_run(initial_registration(tag), events);
    let n = events.len();
    &&& acts.len() == n
    &&& st.tag == tag
    &&& st.phase == RegistrationPhase::Start ==> n == 0
    &&& st.phase == RegistrationPhase::LookingUp ==> n == 1 && holds_invocation(st, events[0])
    &&& st.phase == RegistrationPhase::CreatingWebhook ==> n == 2 && holds_invocation(
        st,
        events[0],
    ) && no_hooks_found(events[1])
    &&& st.phase == RegistrationPhase::Storing ==> n == 3 && holds_invocation(st, events[0])
        && no_hooks_found(events[1]) && webhook_with_token(events[2])
    &&& n > 0 && (acts.last() is Reply || acts.last() is Nothing) ==> st.phase
        == RegistrationPhase::Finished
    &&& n > 0 && invoked_in_guild(events[0]) ==> acts[0] == lookup_of(events[0])
    &&& forall|k: int|
        0 <= k < n && (#[trigger] acts[k]) is StoreHook ==> k == 2 && invoked_in_guild(events[0])
            && no_hooks_found(events[1]) && webhook_with_token(events[2]) && acts[k]->hook
            == registered_hook(tag, events[0], events[2])
    &&& forall|k1: int, k2: int|
        0 <= k1 < k2 < n && ((#[trigger] acts[k1]) is Reply || acts[k1] is Nothing)
            ==> (#[trigger] acts[k2]) is Nothing
}

proof fn lemma_run_shape(tag: Seq<char>, events: Seq<EventView>)
    ensures
        run_shape(tag, events),
    decreases events.len(),
{
    if events.len() > 0 {
        let p = events.drop_last();
        lemma_run_shape(tag, p);
        let (mid, old_acts) = registration_run(initial_registration(tag), p);
        let (st, acts) = registration_run(initial_registration(tag), events);
        let n = events.len();
        assert(acts == old_acts.push(registration_step(mid, events.last()).1));
        assert forall|k: int| 0 <= k < n - 1 implies acts[k] == old_acts[k] && events[k] == p[k] by {}
        if n > 1 {
            assert(events[0] == p[0]);
        }
        if p.len() >= 3 {
            assert(events[0] == p[0] && events[1] == p[1] && events[2] == p[2]);
        }
        if mid.phase == RegistrationPhase::CreatingWebhook {
            assert(events[0] == p[0] && events[1] == p[1]);
        }
        assert forall|k1: int, k2: int|
            0 <= k1 < k2 < n && ((#[trigger] acts[k1]) is Reply || acts[k1] is Nothing)
            implies (#[trigger] acts[k2]) is Nothing by {
            if k2 == n - 1 {
                if k1 < n - 2 {
                    assert(old_acts[k1] == acts[k1]);
                    assert(old_acts[n - 2] is Nothing);
                }
                assert(old_acts.last() == old_acts[n - 2]);
            }
        }
    }
}

/// A registration stores at most one hook: only as its third action, only
/// after it was invoked in a server and found no hook stored for the channel,
/// and only when Discord gave the new webhook a token. The stored hook is
/// enabled, carries the requested tag and the new webhook, and belongs to the
/// server and channel of the invocation, which are the server and channel
/// that its first action looked up.
pub proof fn lemma_registration_stores_at_most_one_hook(tag: Seq<char>, events: Seq<EventView>)
    ensures
        ({
            let acts = registration_run(initial_registration(tag), events).1;
            forall|k: int|
                0 <= k < acts.len() && (#[trigger] acts[k]) is StoreHook ==> k == 2
                    && invoked_in_guild(events[0]) && no_hooks_found(events[1])
                    && webhook_with_token(events[2]) && acts[k]->hook == registered_hook(
                    tag,
                    events[0],
                    events[2],
                ) && acts[0] == ActionView::LookUpHooks {
                    guild_id: acts[k]->hook.guild_id,
                    channel_id: acts[k]->hook.channel_id,
                }
        }),
{
    lemma_run_shape(tag, events);
}

/// A registration answers at most once: after an answer (or after giving up)
/// every later action is `Nothing`.
pub proof fn lemma_registration_answers_at_most_once(tag: Seq<char>, events: Seq<EventView>)
    ensures
        ({
            let acts = registration_run(initial_registration(tag), events).1;
            forall|k1: int, k2: int|
                0 <= k1 < k2 < acts.len() && ((#[trigger] acts[k1]) is Reply || acts[k1] is Nothing)
                    ==> (#[trigger] acts[k2]) is Nothing
        }),
{
    lemma_run_shape(tag, events);
}

/// Two stored hooks belong to the same server and channel.
pub open spec fn same_channel(a: HookView, b: HookView) -> bool {
    a.guild_id == b.guild_id && a.channel_id == b.channel_id
}

/// No two rows of `table` belong to the same server and channel.
pub open spec fn one_row_per_channel(table: Seq<HookView>) -> bool {
    forall|i: int, j: int|
        0 <= i < j < table.len() ==> !same_channel(#[trigger] table[i], #[trigger] table[j])
}

/// The hook belongs to this server and channel.
pub open spec fn on_channel(guild_id: i64, channel_id: i64) -> spec_fn(HookView) -> bool {
    |h: HookView| h.guild_id == guild_id && h.channel_id == channel_id
}

/// The rows of `table` for a server and channel, as a lookup answers them.
pub open spec fn rows_for(table: Seq<HookView>, guild_id: i64, channel_id: i64) -> Seq<HookView> {
    table.filter(on_channel(guild_id, channel_id))
}

/// `table` after the hooks that `acts` store were added to it, in order.
pub open spec fn apply_stores(table: Seq<HookView>, acts: Seq<ActionView>) -> Seq<HookView>
    decreases acts.len(),
{
    if acts.len() == 0 {
        table
    } else {
        let t = apply_stores(table, acts.drop_last());
        match acts.last() {
            ActionView::StoreHook { hook } => t.push(hook),
            _ => t,
        }
    }
}

/// The lookup among `acts` (if any, as the first action) is answered by the
/// second event with the rows that `table` holds for that server and channel.
pub open spec fn lookup_answered_from(
    table: Seq<HookView>,
    acts: Seq<ActionView>,
    events: Seq<EventView>,
) -> bool {
    events.len() >= 2 && acts.len() >= 1 && acts[0] is LookUpHooks ==> events[1]
        == EventView::HooksFound { hooks: rows_for(table, acts[0]->guild_id, acts[0]->LookUpHooks_channel_id) }
}

proof fn lemma_apply_one_store(table: Seq<HookView>, acts: Seq<ActionView>)
    requires
        forall|k: int| 0 <= k < acts.len() && (#[trigger] acts[k]) is StoreHook ==> k == 2,
    ensures
        apply_stores(table, acts) == (if acts.len() > 2 && acts[2] is StoreHook {
            table.push(acts[2]->hook)
        } else {
            table
        }),
    decreases acts.len(),
{
    if acts.len() > 0 {
        let p = acts.drop_last();
        assert forall|k: int| 0 <= k < p.len() && (#[trigger] p[k]) is StoreHook implies k == 2 by {
            assert(p[k] == acts[k]);
        }
        lemma_apply_one_store(table, p);
        if p.len() > 2 {
            assert(p[2] == acts[2]);
        }
    }
}

/// Registering keeps the hooks table at one row per server and channel, and
/// leaves every row that was there before unchanged: where the table held one
/// row per channel and the lookup was answered from it, the table with the
/// stored hooks added still holds one row per channel and begins with the old
/// rows.
pub proof fn lemma_registration_keeps_one_row_per_channel(
    tag: Seq<char>,
    events: Seq<EventView>,
    table: Seq<HookView>,
)
    requires
        one_row_per_channel(table),
        lookup_answered_from(table, registration_run(initial_registration(tag), events).1, events),
    ensures
        ({
            let after = apply_stores(table, registration_run(initial_registration(tag), events).1);
            &&& one_row_per_channel(after)
            &&& table.len() <= after.len() <= table.len() + 1
            &&& forall|i: int| 0 <= i < table.len() ==> after[i] == table[i]
        }),
{
    lemma_run_shape(tag, events);
    let acts = registration_run(initial_registration(tag), events).1;
    lemma_apply_one_store(table, acts);
    let after = apply_stores(table, acts);
    if acts.len() > 2 && acts[2] is StoreHook {
        let h = acts[2]->hook;
        assert(acts[0] == ActionView::LookUpHooks { guild_id: h.guild_id, channel_id: h.channel_id });
        let pred = on_channel(h.guild_id, h.channel_id);
        assert(rows_for(table, h.guild_id, h.channel_id).len() == 0);
        assert forall|i: int, j: int|
            0 <= i < j < after.len() implies !same_channel(#[trigger] after[i], #[trigger] after[j]) by {
            if j == table.len() {
                if same_channel(after[i], after[j]) {
                    assert(pred(table[i]));
                    table.lemma_filter_contains(pred, i);
                }
            } else {
                assert(after[i] == table[i] && after[j] == table[j]);
            }
        }
    }
}

proof fn lemma_run_push(s: RegistrationView, events: Seq<EventView>, e: EventView)
    ensures
        registration_run(s, events.push(e)) == ({
            let (mid, acts) = registration_run(s, events);
            let (next, a) = registration_step(mid, e);
            (next, acts.push(a))
        }),
{
    assert(events.push(e).drop_last() =~= events);
}

/// Registering a channel that has no hook yet, in a server, goes: look up the
/// hooks of exactly that server and channel; create the webhook in that very
/// channel, named "Autobooru" with the bot's avatar; store an enabled hook for
/// that server, that channel and the new webhook, with the requested tag; and
/// answer that posting has started, with the tag.
pub proof fn lemma_registration_of_a_free_channel(
    tag: Seq<char>,
    guild_id: u64,
    channel_id: u64,
    hook_id: u64,
    token: Seq<char>,
)
    ensures
        registration_run(
            initial_registration(tag),
            seq![
                EventView::Invoked { guild_id: Some(guild_id), channel_id },
                EventView::HooksFound { hooks: Seq::empty() },
                EventView::WebhookCreated { hook_id, token: Some(token) },
                EventView::HookStored,
            ],
        ).1 == seq![
            ActionView::LookUpHooks { guild_id: guild_id as i64, channel_id: channel_id as i64 },
            ActionView::CreateWebhook {
                channel_id,
                name: "Autobooru"@,
                avatar: "https://cdn.discordapp.com/app-icons/1031731551928590366/7fefc1692284d3a5bf332ce5ff476c0a.png?size=256"@,
            },
            ActionView::StoreHook {
                hook: HookView {
                    guild_id: guild_id as i64,
                    channel_id: channel_id as i64,
                    enabled: true,
                    hook_id: hook_id as i64,
                    hook_token: token,
                    tag,
                },
            },
            ActionView::Reply { message: "自動投稿を開始しました\n\nタグ: `"@ + tag + "`"@ },
        ],
{
    let e0 = EventView::Invoked { guild_id: Some(guild_id), channel_id };
    let e1 = EventView::HooksFound { hooks: Seq::empty() };
    let e2 = EventView::WebhookCreated { hook_id, token: Some(token) };
    let e3 = EventView::HookStored;
    let s0 = initial_registration(tag);
    let z = Seq::<EventView>::empty();
    assert(registration_run(s0, z) == (s0, Seq::<ActionView>::empty()));
    lemma_run_push(s0, z, e0);
    lemma_run_push(s0, z.push(e0), e1);
    lemma_run_push(s0, z.push(e0).push(e1), e2);
    lemma_run_push(s0, z.push(e0).push(e1).push(e2), e3);
    assert(seq![e0, e1, e2, e3] =~= z.push(e0).push(e1).push(e2).push(e3));
    reveal_strlit("Autobooru");
    assert(registration_run(s0, seq![e0, e1, e2, e3]).1 =~= seq![
        lookup_of(e0),
        ActionView::CreateWebhook {
            channel_id,
            name: WEBHOOK_NAME@,
            avatar: WEBHOOK_AVATAR@,
        },
        ActionView::StoreHook {
            hook: HookView {
                guild_id: guild_id as i64,
                channel_id: channel_id as i64,
                enabled: true,
                hook_id: hook_id as i64,
                hook_token: token,
                tag,
            },
        },
        ActionView::Reply { message: started_reply(tag) },
    ]);
}

/// Registering a channel that already has a hook, in a server, looks up the
/// hooks of exactly that server and channel and answers that the channel is
/// registered, with the tag of the first hook found; nothing is created or
/// stored.
pub proof fn lemma_registration_of_a_taken_channel(
    tag: Seq<char>,
    guild_id: u64,
    channel_id: u64,
    hooks: Seq<HookView>,
)
    requires
        hooks.len() > 0,
    ensures
        registration_run(
            initial_registration(tag),
            seq![
                EventView::Invoked { guild_id: Some(guild_id), channel_id },
                EventView::HooksFound { hooks },
            ],
        ).1 == seq![
            ActionView::LookUpHooks { guild_id: guild_id as i64, channel_id: channel_id as i64 },
            ActionView::Reply {
                message: "このチャンネルは既に登録済みです\n`/autobooru delete`で削除するか、`/autobooru edit`でタグを編集できます。\n現在のタグは"@
                    + " `"@ + hooks[0].tag + "` です。"@,
            },
        ],
{
    let e0 = EventView::Invoked { guild_id: Some(guild_id), channel_id };
    let e1 = EventView::HooksFound { hooks };
    let s0 = initial_registration(tag);
    let z = Seq::<EventView>::empty();
    assert(registration_run(s0, z) == (s0, Seq::<ActionView>::empty()));
    lemma_run_push(s0, z, e0);
    lemma_run_push(s0, z.push(e0), e1);
    assert(seq![e0, e1] =~= z.push(e0).push(e1));
    assert(registration_run(s0, seq![e0, e1]).1 =~= seq![
        lookup_of(e0),
        ActionView::Reply { message: already_registered_reply(hooks[0].tag) },
    ]);
}

/// Outside a server, the command answers that it works in servers only, and
/// nothing is looked up, created or stored.
pub proof fn lemma_registration_outside_a_server(tag: Seq<char>, channel_id: u64)
    ensures
        registration_run(
            initial_registration(tag),
            seq![EventView::Invoked { guild_id: None, channel_id }],
        ).1 == seq![ActionView::Reply { message: "このコマンドはサーバー内でのみ使用できます"@ }],
{
    let e0 = EventView::Invoked { guild_id: None, channel_id };
    let s0 = initial_registration(tag);
    let z = Seq::<EventView>::empty();
    assert(registration_run(s0, z) == (s0, Seq::<ActionView>::empty()));
    lemma_run_push(s0, z, e0);
    assert(seq![e0] =~= z.push(e0));
    assert(registration_run(s0, seq![e0]).1 =~= seq![
        ActionView::Reply { message: NOT_IN_GUILD_MESSAGE@ },
    ]);
}

} // verus!
