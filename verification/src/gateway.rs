//! The platform hub: the chat platforms the agent can reach (five built in), which are
//! connected, and the messages that came in from them.

use vstd::prelude::*;
use crate::clock::{new_uuid, now_timestamp, MAX_TIMESTAMP};
use crate::error::AppError;
use crate::json::json_null;
use crate::keyed::restrict_where;
use crate::rbac::lists_map;
use crate::store::{filter_pred, record_entries, Record, RecordFilter, Store};
use crate::text::{concat3, str_eq, str_to_string};

verus! {

/// A platform's settings. `config` is free-form JSON carried along as it was given.
#[derive(Debug)]
pub struct PlatformConfig {
    pub id: String,
    pub name: String,
    pub platform_type: String,
    pub enabled: bool,
    pub connected: bool,
    pub config: serde_json::Value,
    pub created_at: i64,
}

/// The value of a platform's settings.
pub struct PlatformView {
    pub id: Seq<char>,
    pub name: Seq<char>,
    pub platform_type: Seq<char>,
    pub enabled: bool,
    pub connected: bool,
    pub config: serde_json::Value,
    pub created_at: i64,
}

impl View for PlatformConfig {
    type V = PlatformView;

    open spec fn view(&self) -> PlatformView {
        PlatformView {
            id: self.id@,
            name: self.name@,
            platform_type: self.platform_type@,
            enabled: self.enabled,
            connected: self.connected,
            config: self.config,
            created_at: self.created_at,
        }
    }
}

impl Record for PlatformConfig {
    open spec fn key_of(v: PlatformView) -> Seq<char> {
        v.id
    }

    fn key(&self) -> (r: &str) {
        self.id.as_str()
    }

    fn duplicate(&self) -> (r: Self) {
        PlatformConfig {
            id: self.id.clone(),
            name: self.name.clone(),
            platform_type: self.platform_type.clone(),
            enabled: self.enabled,
            connected: self.connected,
            config: self.config.clone(),
            created_at: self.created_at,
        }
    }
}

/// A message that came in from a platform.
#[derive(Debug)]
pub struct Message {
    pub id: String,
    pub platform: String,
    pub content: String,
    pub sender: String,
    pub timestamp: i64,
    pub read: bool,
}

/// The value of a message.
pub struct MessageView {
    pub id: Seq<char>,
    pub platform: Seq<char>,
    pub content: Seq<char>,
    pub sender: Seq<char>,
    pub timestamp: i64,
    pub read: bool,
}

impl View for Message {
    type V = MessageView;

    open spec fn view(&self) -> MessageView {
        MessageView {
            id: self.id@,
            platform: self.platform@,
            content: self.content@,
            sender: self.sender@,
            timestamp: self.timestamp,
            read: self.read,
        }
    }
}

impl Message {
    /// A copy of the message.
    pub fn duplicate(&self) -> (r: Self)
        ensures
            r@ == self@,
    {
        Message {
            id: self.id.clone(),
            platform: self.platform.clone(),
            content: self.content.clone(),
            sender: self.sender.clone(),
            timestamp: self.timestamp,
            read: self.read,
        }
    }
}

/// The views of some messages.
pub open spec fn message_views(v: Seq<Message>) -> Seq<MessageView> {
    v.map_values(|m: Message| m@)
}

/// Messages from one platform.
pub open spec fn from_platform(p: Seq<char>) -> spec_fn(MessageView) -> bool {
    |m: MessageView| m.platform == p
}

/// Messages not yet read.
pub open spec fn is_unread() -> spec_fn(MessageView) -> bool {
    |m: MessageView| !m.read
}

/// Position `i` holds the first message with id `id`.
pub open spec fn first_message(ms: Seq<MessageView>, id: Seq<char>, i: int) -> bool {
    0 <= i < ms.len() && ms[i].id == id && forall|j: int| 0 <= j < i ==> #[trigger] ms[j].id != id
}

/// Whether some message has id `id`.
pub open spec fn has_message(ms: Seq<MessageView>, id: Seq<char>) -> bool {
    exists|i: int| 0 <= i < ms.len() && #[trigger] ms[i].id == id
}

/// A built-in platform: disabled, not connected, with the settings `config`.
pub open spec fn builtin_platform(id: Seq<char>, name: Seq<char>, platform_type: Seq<char>, now: i64, config: serde_json::Value) -> PlatformView {
    PlatformView { id, name, platform_type, enabled: false, connected: false, config, created_at: now }
}

/// The platforms the hub starts with, created at `now`, all with the settings `config`.
pub open spec fn default_platforms(now: i64, config: serde_json::Value) -> Map<Seq<char>, PlatformView> {
    Map::<Seq<char>, PlatformView>::empty()
        .insert("wechat"@, builtin_platform("wechat"@, "WeChat"@, "wechat"@, now, config))
        .insert("qqbot"@, builtin_platform("qqbot"@, "QQ Bot"@, "qq"@, now, config))
        .insert("telegram"@, builtin_platform("telegram"@, "Telegram"@, "telegram"@, now, config))
        .insert("feishu"@, builtin_platform("feishu"@, "Feishu"@, "feishu"@, now, config))
        .insert("discord"@, builtin_platform("discord"@, "Discord"@, "discord"@, now, config))
}

/// Connected platforms.
pub struct ConnectedPlatforms;

impl RecordFilter<PlatformConfig> for ConnectedPlatforms {
    open spec fn holds(&self, v: PlatformView) -> bool {
        v.connected
    }

    fn test(&self, r: &PlatformConfig) -> (b: bool) {
        r.connected
    }
}

fn builtin(id: &str, name: &str, platform_type: &str, now: i64, config: &serde_json::Value) -> (p: PlatformConfig)
    ensures
        p@ == builtin_platform(id@, name@, platform_type@, now, *config),
{
    PlatformConfig {
        id: str_to_string(id),
        name: str_to_string(name),
        platform_type: str_to_string(platform_type),
        enabled: false,
        connected: false,
        config: config.clone(),
        created_at: now,
    }
}

/// The platforms by id, and the messages in the order they came.
pub struct GatewayManager {
    platforms: Store<PlatformConfig>,
    messages: Vec<Message>,
}

impl GatewayManager {
    /// The platforms, by id.
    pub closed spec fn platforms_view(&self) -> Map<Seq<char>, PlatformView> {
        self.platforms.view_map()
    }

    /// The messages, in the order they came.
    pub closed spec fn messages_view(&self) -> Seq<MessageView> {
        message_views(self.messages@)
    }

    /// The hub's invariant: each platform id is held once.
    pub closed spec fn wf(&self) -> bool {
        self.platforms.wf()
    }

    /// The built-in platforms, created at `now`, and no messages.
    pub fn new_at(now: i64) -> (r: Self)
        ensures
            r.wf(),
            r.platforms_view() == default_platforms(now, r.platforms_view()["wechat"@].config),
            r.messages_view() == Seq::<MessageView>::empty(),
    {
        let null = json_null();
        let mut platforms: Store<PlatformConfig> = Store::new();
        platforms.insert(builtin("wechat", "WeChat", "wechat", now, &null));
        platforms.insert(builtin("qqbot", "QQ Bot", "qq", now, &null));
        platforms.insert(builtin("telegram", "Telegram", "telegram", now, &null));
        platforms.insert(builtin("feishu", "Feishu", "feishu", now, &null));
        platforms.insert(builtin("discord", "Discord", "discord", now, &null));
        let r = GatewayManager { platforms, messages: Vec::new() };
        assert(r.messages_view() =~= Seq::<MessageView>::empty());
        r
    }

    /// The built-in platforms, created now, and no messages.
    pub fn new() -> (r: Self)
        ensures
            r.wf(),
            exists|now: i64| 0 <= now < MAX_TIMESTAMP && r.platforms_view() == #[trigger] default_platforms(now, r.platforms_view()["wechat"@].config),
            r.messages_view() == Seq::<MessageView>::empty(),
    {
        let now = now_timestamp();
        let r = Self::new_at(now);
        assert(r.platforms_view() == default_platforms(now, r.platforms_view()["wechat"@].config));
        r
    }

    /// Connects and enables the platform `platform_id` and returns it; `NotFound` when
    /// there is none.
    pub fn connect_platform(&mut self, platform_id: &str) -> (r: Result<PlatformConfig, AppError>)
        requires
            old(self).wf(),
        ensures
            final(self).wf(),
            final(self).messages_view() == old(self).messages_view(),
            r is Ok <==> old(self).platforms_view().dom().contains(platform_id@),
            match r {
                Ok(p) => p@ == PlatformView { connected: true, enabled: true, ..old(self).platforms_view()[platform_id@] }
                    && final(self).platforms_view() == old(self).platforms_view().insert(platform_id@, p@),
                Err(e) => e is NotFound && e.message() == "Platform "@ + platform_id@ + " not found"@
                    && final(self).platforms_view() == old(self).platforms_view(),
            },
    {
        match self.platforms.get_copy(platform_id) {
            Some(mut p) => {
                p.connected = true;
                p.enabled = true;
                let copy = p.duplicate();
                self.platforms.insert(p);
                Ok(copy)
            },
            None => Err(AppError::NotFound(concat3("Platform ", platform_id, " not found"))),
        }
    }

    /// Disconnects the platform `platform_id` and returns it; `NotFound` when there is none.
    pub fn disconnect_platform(&mut self, platform_id: &str) -> (r: Result<PlatformConfig, AppError>)
        requires
            old(self).wf(),
        ensures
            final(self).wf(),
            final(self).messages_view() == old(self).messages_view(),
            r is Ok <==> old(self).platforms_view().dom().contains(platform_id@),
            match r {
                Ok(p) => p@ == PlatformView { connected: false, ..old(self).platforms_view()[platform_id@] }
                    && final(self).platforms_view() == old(self).platforms_view().insert(platform_id@, p@),
                Err(e) => e is NotFound && e.message() == "Platform "@ + platform_id@ + " not found"@
                    && final(self).platforms_view() == old(self).platforms_view(),
            },
    {
        match self.platforms.get_copy(platform_id) {
            Some(mut p) => {
                p.connected = false;
                let copy = p.duplicate();
                self.platforms.insert(p);
                Ok(copy)
            },
            None => Err(AppError::NotFound(concat3("Platform ", platform_id, " not found"))),
        }
    }

    /// The platform `platform_id`, if there is one.
    pub fn get_platform(&self, platform_id: &str) -> (r: Option<PlatformConfig>)
        requires
            self.wf(),
        ensures
            match r {
                Some(p) => self.platforms_view().dom().contains(platform_id@) && p@ == self.platforms_view()[platform_id@],
                None => !self.platforms_view().dom().contains(platform_id@),
            },
    {
        self.platforms.get_copy(platform_id)
    }

    /// Every platform, once each.
    pub fn list_platforms(&self) -> (r: Vec<PlatformConfig>)
        requires
            self.wf(),
        ensures
            lists_map(record_entries(r@).map_values(|e: (Seq<char>, PlatformView)| e.0), r@.map_values(|x: PlatformConfig| x@), self.platforms_view()),
    {
        self.platforms.values()
    }

    /// The connected platforms, once each.
    pub fn list_connected(&self) -> (r: Vec<PlatformConfig>)
        requires
            self.wf(),
        ensures
            lists_map(
                record_entries(r@).map_values(|e: (Seq<char>, PlatformView)| e.0),
                r@.map_values(|x: PlatformConfig| x@),
                restrict_where(self.platforms_view(), |v: PlatformView| v.connected),
            ),
    {
        let f = ConnectedPlatforms;
        let r = self.platforms.values_where(&f);
        assert(restrict_where(self.platforms_view(), filter_pred::<PlatformConfig, ConnectedPlatforms>(&f))
            =~= restrict_where(self.platforms_view(), |v: PlatformView| v.connected));
        r
    }

    /// Replaces the JSON settings of the platform `platform_id` and returns it; `NotFound`
    /// when there is none.
    pub fn update_platform_config(&mut self, platform_id: &str, config: serde_json::Value) -> (r: Result<PlatformConfig, AppError>)
        requires
            old(self).wf(),
        ensures
            final(self).wf(),
            final(self).messages_view() == old(self).messages_view(),
            r is Ok <==> old(self).platforms_view().dom().contains(platform_id@),
            match r {
                Ok(p) => p@ == PlatformView { config, ..old(self).platforms_view()[platform_id@] }
                    && final(self).platforms_view() == old(self).platforms_view().insert(platform_id@, p@),
                Err(e) => e is NotFound && e.message() == "Platform "@ + platform_id@ + " not found"@
                    && final(self).platforms_view() == old(self).platforms_view(),
            },
    {
        match self.platforms.get_copy(platform_id) {
            Some(mut p) => {
                p.config = config;
                let copy = p.duplicate();
                self.platforms.insert(p);
                Ok(copy)
            },
            None => Err(AppError::NotFound(concat3("Platform ", platform_id, " not found"))),
        }
    }

    /// Records an unread message under `id` at `now` and returns it.
    pub fn add_message_at(&mut self, platform: &str, content: &str, sender: &str, id: String, now: i64) -> (r: Message)
        requires
            old(self).wf(),
        ensures
            final(self).wf(),
            r@ == (MessageView { id: id@, platform: platform@, content: content@, sender: sender@, timestamp: now, read: false }),
            final(self).messages_view() == old(self).messages_view().push(r@),
            final(self).platforms_view() == old(self).platforms_view(),
    {
        let m = Message {
            id,
            platform: str_to_string(platform),
            content: str_to_string(content),
            sender: str_to_string(sender),
            timestamp: now,
            read: false,
        };
        let copy = m.duplicate();
        self.messages.push(m);
        assert(self.messages_view() =~= old(self).messages_view().push(copy@));
        copy
    }

    /// Records an unread message under a fresh random id, now, and returns it.
    pub fn add_message(&mut self, platform: &str, content: &str, sender: &str) -> (r: Message)
        requires
            old(self).wf(),
        ensures
            final(self).wf(),
            r@.timestamp < MAX_TIMESTAMP,
            r@ == (MessageView { id: r@.id, platform: platform@, content: content@, sender: sender@, timestamp: r@.timestamp, read: false }),
            final(self).messages_view() == old(self).messages_view().push(r@),
            final(self).platforms_view() == old(self).platforms_view(),
    {
        let id = new_uuid();
        let now = now_timestamp();
        self.add_message_at(platform, content, sender, id, now)
    }

    fn copy_where(&self, platform: Option<&str>) -> (r: Vec<Message>)
        ensures
            message_views(r@) == match platform {
                Some(p) => self.messages_view().filter(from_platform(p@)),
                None => self.messages_view(),
            },
    {
        let ghost mv = self.messages_view();
        let ghost p = match platform { Some(p) => from_platform(p@), None => |m: MessageView| true };
        let mut out: Vec<Message> = Vec::new();
        let mut i: usize = 0;
        proof {
            reveal(Seq::filter);
            assert(mv.take(0).filter(p) =~= Seq::<MessageView>::empty());
            assert(message_views(out@) =~= Seq::<MessageView>::empty());
        }
        while i < self.messages.len()
            invariant
                i <= self.messages@.len(),
                mv == self.messages_view(),
                p == match platform { Some(p) => from_platform(p@), None => |m: MessageView| true },
                message_views(out@) == mv.take(i as int).filter(p),
            decreases self.messages.len() - i,
        {
            let ghost before = message_views(out@);
            proof {
                assert(mv.take(i + 1) =~= mv.take(i as int).push(mv[i as int]));
                mv.take(i as int).lemma_filter_push(mv[i as int], p);
            }
            let m = &self.messages[i];
            let keep = match platform {
                Some(q) => str_eq(m.platform.as_str(), q),
                None => true,
            };
            if keep {
                out.push(m.duplicate());
                assert(message_views(out@) =~= before.push(mv[i as int]));
            }
            i = i + 1;
        }
        proof {
            assert(mv.take(mv.len() as int) =~= mv);
            if platform is None {
                assert(mv.filter(p) =~= mv) by {
                    reveal(Seq::filter);
                    assert forall|k: int| 0 <= k <= mv.len() implies mv.take(k).filter(p) =~= mv.take(k) by {
                        lemma_filter_all_true(mv.take(k), p);
                    }
                }
            }
        }
        out
    }

    /// The messages, in the order they came.
    pub fn list_messages(&self) -> (r: Vec<Message>)
        ensures
            message_views(r@) == self.messages_view(),
    {
        self.copy_where(None)
    }

    /// The messages from `platform`, in the order they came.
    pub fn list_messages_by_platform(&self, platform: &str) -> (r: Vec<Message>)
        ensures
            message_views(r@) == self.messages_view().filter(from_platform(platform@)),
    {
        self.copy_where(Some(platform))
    }

    /// Marks the first message with id `message_id` read; `NotFound` when there is none.
    pub fn mark_read(&mut self, message_id: &str) -> (r: Result<bool, AppError>)
        requires
            old(self).wf(),
        ensures
            final(self).wf(),
            final(self).platforms_view() == old(self).platforms_view(),
            r is Ok <==> has_message(old(self).messages_view(), message_id@),
            match r {
                Ok(b) => b && exists|i: int| first_message(old(self).messages_view(), message_id@, i)
                    && final(self).messages_view() == old(self).messages_view().update(i, MessageView { read: true, ..#[trigger] old(self).messages_view()[i] }),
                Err(e) => e is NotFound && e.message() == "Message "@ + message_id@ + " not found"@
                    && final(self).messages_view() == old(self).messages_view(),
            },
    {
        let ghost mv = self.messages_view();
        let mut i: usize = 0;
        while i < self.messages.len()
            invariant
                i <= self.messages@.len(),
                mv == self.messages_view(),
                self.messages_view() == old(self).messages_view(),
                self.platforms == old(self).platforms,
                self.wf(),
                forall|j: int| 0 <= j < i ==> #[trigger] mv[j].id != message_id@,
            decreases self.messages.len() - i,
        {
            if str_eq(self.messages[i].id.as_str(), message_id) {
                let mut m = self.messages[i].duplicate();
                m.read = true;
                let ghost nv = m@;
                self.messages.set(i, m);
                proof {
                    assert(self.messages_view() =~= mv.update(i as int, nv));
                    assert(nv == MessageView { read: true, ..mv[i as int] });
                    assert(first_message(mv, message_id@, i as int));
                    assert(has_message(mv, message_id@));
                }
                return Ok(true);
            }
            i = i + 1;
        }
        proof {
            if has_message(mv, message_id@) {
                let j = choose|j: int| 0 <= j < mv.len() && #[trigger] mv[j].id == message_id@;
                assert(mv[j].id != message_id@);
            }
        }
        Err(AppError::NotFound(concat3("Message ", message_id, " not found")))
    }

    /// How many messages are unread.
    pub fn get_unread_count(&self) -> (n: usize)
        ensures
            n == self.messages_view().filter(is_unread()).len(),
    {
        let ghost mv = self.messages_view();
        let ghost p = is_unread();
        let mut n: usize = 0;
        let mut i: usize = 0;
        proof {
            reveal(Seq::filter);
            assert(mv.take(0).filter(p) =~= Seq::<MessageView>::empty());
        }
        while i < self.messages.len()
            invariant
                i <= self.messages@.len(),
                mv == self.messages_view(),
                p == is_unread(),
                n == mv.take(i as int).filter(p).len(),
                n <= i,
            decreases self.messages.len() - i,
        {
            proof {
                assert(mv.take(i + 1) =~= mv.take(i as int).push(mv[i as int]));
                mv.take(i as int).lemma_filter_push(mv[i as int], p);
            }
            if !self.messages[i].read {
                n = n + 1;
            }
            i = i + 1;
        }
        assert(mv.take(mv.len() as int) =~= mv);
        n
    }
}

proof fn lemma_filter_all_true<A>(s: Seq<A>, p: spec_fn(A) -> bool)
    requires
        forall|x: A| #[trigger] p(x),
    ensures
        s.filter(p) == s,
    decreases s.len(),
{
    reveal(Seq::filter);
    if s.len() > 0 {
        lemma_filter_all_true(s.drop_last(), p);
        assert(s =~= s.drop_last().push(s.last()));
    }
}

} // verus!
