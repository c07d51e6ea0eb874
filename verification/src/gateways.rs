//! Messaging gateways (chat platforms): their settings, whether they are enabled, and
//! how many messages went through each.

use vstd::prelude::*;
use crate::audit::{clone_opt, opt_view};
use crate::clock::new_uuid;
use crate::error::AppError;
use crate::rbac::lists_map;
use crate::store::{record_entries, Record, Store};
use crate::text::{clone_strings, concat3, push_str, str_to_string, string_views};

verus! {

/// A gateway's settings. `settings` is free-form JSON carried along as it was given.
#[derive(Debug)]
pub struct GatewayConfig {
    pub id: String,
    pub platform: String,
    pub name: String,
    pub enabled: bool,
    pub token: String,
    pub webhook_url: Option<String>,
    pub settings: serde_json::Value,
}

/// The value of a gateway's settings.
pub struct GatewayView {
    pub id: Seq<char>,
    pub platform: Seq<char>,
    pub name: Seq<char>,
    pub enabled: bool,
    pub token: Seq<char>,
    pub webhook_url: Option<Seq<char>>,
    pub settings: serde_json::Value,
}

impl View for GatewayConfig {
    type V = GatewayView;

    open spec fn view(&self) -> GatewayView {
        GatewayView {
            id: self.id@,
            platform: self.platform@,
            name: self.name@,
            enabled: self.enabled,
            token: self.token@,
            webhook_url: opt_view(self.webhook_url),
            settings: self.settings,
        }
    }
}

impl Record for GatewayConfig {
    open spec fn key_of(v: GatewayView) -> Seq<char> {
        v.id
    }

    fn key(&self) -> (r: &str) {
        self.id.as_str()
    }

    fn duplicate(&self) -> (r: Self) {
        GatewayConfig {
            id: self.id.clone(),
            platform: self.platform.clone(),
            name: self.name.clone(),
            enabled: self.enabled,
            token: self.token.clone(),
            webhook_url: clone_opt(&self.webhook_url),
            settings: self.settings.clone(),
        }
    }
}

/// A message that came in through a gateway.
#[derive(Debug)]
pub struct Message {
    pub id: String,
    pub platform: String,
    pub chat_id: String,
    pub user_id: String,
    pub content: String,
    pub timestamp: i64,
    pub attachments: Vec<String>,
}

/// A gateway's status: whether it is connected (enabled) and how many messages went
/// through it.
#[derive(Debug)]
pub struct GatewayStatus {
    pub id: String,
    pub platform: String,
    pub name: String,
    pub connected: bool,
    pub message_count: usize,
    pub last_activity: Option<i64>,
}

/// The value of a gateway's status.
pub struct StatusView {
    pub id: Seq<char>,
    pub platform: Seq<char>,
    pub name: Seq<char>,
    pub connected: bool,
    pub message_count: usize,
    pub last_activity: Option<i64>,
}

impl View for GatewayStatus {
    type V = StatusView;

    open spec fn view(&self) -> StatusView {
        StatusView {
            id: self.id@,
            platform: self.platform@,
            name: self.name@,
            connected: self.connected,
            message_count: self.message_count,
            last_activity: self.last_activity,
        }
    }
}

/// How many messages went through one gateway.
#[derive(Debug)]
pub struct MessageTally {
    pub gateway_id: String,
    pub count: usize,
}

impl View for MessageTally {
    type V = (Seq<char>, usize);

    open spec fn view(&self) -> (Seq<char>, usize) {
        (self.gateway_id@, self.count)
    }
}

impl Record for MessageTally {
    open spec fn key_of(v: (Seq<char>, usize)) -> Seq<char> {
        v.0
    }

    fn key(&self) -> (r: &str) {
        self.gateway_id.as_str()
    }

    fn duplicate(&self) -> (r: Self) {
        MessageTally { gateway_id: self.gateway_id.clone(), count: self.count }
    }
}

/// The number of messages counted for gateway `id`: none when it has no tally.
pub open spec fn count_of(m: Map<Seq<char>, (Seq<char>, usize)>, id: Seq<char>) -> usize {
    if m.dom().contains(id) { m[id].1 } else { 0 }
}

/// The tallies after one more message through gateway `id`.
pub open spec fn counted(m: Map<Seq<char>, (Seq<char>, usize)>, id: Seq<char>) -> Map<Seq<char>, (Seq<char>, usize)> {
    m.insert(id, (id, (count_of(m, id) + 1) as usize))
}

/// The status of gateway `g` with the tallies `m`.
pub open spec fn status_of(g: GatewayView, m: Map<Seq<char>, (Seq<char>, usize)>) -> StatusView {
    StatusView {
        id: g.id,
        platform: g.platform,
        name: g.name,
        connected: g.enabled,
        message_count: count_of(m, g.id),
        last_activity: None,
    }
}

/// The gateways, and the message tallies, both by gateway id. A tally outlives the
/// removal of its gateway.
pub struct GatewayManager {
    gateways: Store<GatewayConfig>,
    message_counts: Store<MessageTally>,
}

impl GatewayManager {
    /// The gateways, by id.
    pub closed spec fn gateways_view(&self) -> Map<Seq<char>, GatewayView> {
        self.gateways.view_map()
    }

    /// The message tallies, by gateway id.
    pub closed spec fn counts_view(&self) -> Map<Seq<char>, (Seq<char>, usize)> {
        self.message_counts.view_map()
    }

    /// The manager's invariant: each id is held once in each table.
    pub closed spec fn wf(&self) -> bool {
        self.gateways.wf() && self.message_counts.wf()
    }

    /// No gateways, no messages.
    pub fn new() -> (r: Self)
        ensures
            r.wf(),
            r.gateways_view() == Map::<Seq<char>, GatewayView>::empty(),
            r.counts_view() == Map::<Seq<char>, (Seq<char>, usize)>::empty(),
    {
        GatewayManager { gateways: Store::new(), message_counts: Store::new() }
    }

    /// Adds a gateway, replacing any with the same id.
    pub fn add_gateway(&mut self, config: GatewayConfig) -> (r: Result<(), AppError>)
        requires
            old(self).wf(),
        ensures
            final(self).wf(),
            r is Ok,
            final(self).gateways_view() == old(self).gateways_view().insert(config@.id, config@),
            final(self).counts_view() == old(self).counts_view(),
    {
        self.gateways.insert(config);
        Ok(())
    }

    /// Removes the gateway `id`; whether there was one.
    pub fn remove_gateway(&mut self, id: &str) -> (r: Result<bool, AppError>)
        requires
            old(self).wf(),
        ensures
            final(self).wf(),
            r == Ok::<bool, AppError>(old(self).gateways_view().dom().contains(id@)),
            final(self).gateways_view() == old(self).gateways_view().remove(id@),
            final(self).counts_view() == old(self).counts_view(),
    {
        let removed = self.gateways.remove(id);
        Ok(removed.is_some())
    }

    fn set_enabled(&mut self, id: &str, enabled: bool) -> (r: Result<(), AppError>)
        requires
            old(self).wf(),
        ensures
            final(self).wf(),
            final(self).counts_view() == old(self).counts_view(),
            r is Ok <==> old(self).gateways_view().dom().contains(id@),
            final(self).gateways_view() == if r is Ok {
                old(self).gateways_view().insert(id@, GatewayView { enabled, ..old(self).gateways_view()[id@] })
            } else {
                old(self).gateways_view()
            },
            r is Err ==> r->Err_0 is NotFound && r->Err_0.message() == "Gateway "@ + id@ + " not found"@,
    {
        match self.gateways.get_copy(id) {
            Some(mut g) => {
                g.enabled = enabled;
                self.gateways.insert(g);
                Ok(())
            },
            None => Err(AppError::NotFound(concat3("Gateway ", id, " not found"))),
        }
    }

    /// Enables the gateway `id`; `NotFound` when there is none.
    pub fn enable_gateway(&mut self, id: &str) -> (r: Result<(), AppError>)
        requires
            old(self).wf(),
        ensures
            final(self).wf(),
            final(self).counts_view() == old(self).counts_view(),
            r is Ok <==> old(self).gateways_view().dom().contains(id@),
            final(self).gateways_view() == if r is Ok {
                old(self).gateways_view().insert(id@, GatewayView { enabled: true, ..old(self).gateways_view()[id@] })
            } else {
                old(self).gateways_view()
            },
            r is Err ==> r->Err_0 is NotFound && r->Err_0.message() == "Gateway "@ + id@ + " not found"@,
    {
        self.set_enabled(id, true)
    }

    /// Disables the gateway `id`; `NotFound` when there is none.
    pub fn disable_gateway(&mut self, id: &str) -> (r: Result<(), AppError>)
        requires
            old(self).wf(),
        ensures
            final(self).wf(),
            final(self).counts_view() == old(self).counts_view(),
            r is Ok <==> old(self).gateways_view().dom().contains(id@),
            final(self).gateways_view() == if r is Ok {
                old(self).gateways_view().insert(id@, GatewayView { enabled: false, ..old(self).gateways_view()[id@] })
            } else {
                old(self).gateways_view()
            },
            r is Err ==> r->Err_0 is NotFound && r->Err_0.message() == "Gateway "@ + id@ + " not found"@,
    {
        self.set_enabled(id, false)
    }

    /// The gateway `id`, if there is one.
    pub fn get_gateway(&self, id: &str) -> (r: Option<GatewayConfig>)
        requires
            self.wf(),
        ensures
            match r {
                Some(g) => self.gateways_view().dom().contains(id@) && g@ == self.gateways_view()[id@],
                None => !self.gateways_view().dom().contains(id@),
            },
    {
        self.gateways.get_copy(id)
    }

    /// Every gateway, once each.
    pub fn list_gateways(&self) -> (r: Vec<GatewayConfig>)
        requires
            self.wf(),
        ensures
            lists_map(record_entries(r@).map_values(|e: (Seq<char>, GatewayView)| e.0), r@.map_values(|x: GatewayConfig| x@), self.gateways_view()),
    {
        self.gateways.values()
    }

    /// How many messages went through gateway `gateway_id`.
    pub fn get_message_count(&self, gateway_id: &str) -> (n: usize)
        requires
            self.wf(),
        ensures
            n == count_of(self.counts_view(), gateway_id@),
    {
        match self.message_counts.get(gateway_id) {
            Some(t) => t.count,
            None => 0,
        }
    }

    fn status(&self, g: &GatewayConfig) -> (s: GatewayStatus)
        requires
            self.wf(),
        ensures
            s@ == status_of(g@, self.counts_view()),
    {
        GatewayStatus {
            id: g.id.clone(),
            platform: g.platform.clone(),
            name: g.name.clone(),
            connected: g.enabled,
            message_count: self.get_message_count(g.id.as_str()),
            last_activity: None,
        }
    }

    /// The status of gateway `id`, if there is one.
    pub fn get_status(&self, id: &str) -> (r: Option<GatewayStatus>)
        requires
            self.wf(),
        ensures
            match r {
                Some(s) => self.gateways_view().dom().contains(id@) && s@ == status_of(self.gateways_view()[id@], self.counts_view()),
                None => !self.gateways_view().dom().contains(id@),
            },
    {
        match self.gateways.get(id) {
            Some(g) => Some(self.status(g)),
            None => None,
        }
    }

    /// The status of every gateway, once each.
    pub fn list_statuses(&self) -> (r: Vec<GatewayStatus>)
        requires
            self.wf(),
        ensures
            lists_map(
                r@.map_values(|s: GatewayStatus| s@.id),
                r@.map_values(|s: GatewayStatus| s@),
                self.gateways_view().map_values(|g: GatewayView| status_of(g, self.counts_view())),
            ),
    {
        let gs = self.gateways.values();
        let ghost keys = record_entries(gs@).map_values(|e: (Seq<char>, GatewayView)| e.0);
        let ghost vals = gs@.map_values(|x: GatewayConfig| x@);
        let ghost m = self.gateways_view();
        let ghost cm = self.counts_view();
        let mut out: Vec<GatewayStatus> = Vec::new();
        let mut i: usize = 0;
        while i < gs.len()
            invariant
                i <= gs@.len(),
                self.wf(),
                cm == self.counts_view(),
                keys == record_entries(gs@).map_values(|e: (Seq<char>, GatewayView)| e.0),
                vals == gs@.map_values(|x: GatewayConfig| x@),
                out@.len() == i,
                forall|j: int| 0 <= j < i ==> #[trigger] out@[j]@ == status_of(vals[j], cm),
            decreases gs.len() - i,
        {
            let s = self.status(&gs[i]);
            out.push(s);
            i = i + 1;
        }
        proof {
            let sm = m.map_values(|g: GatewayView| status_of(g, cm));
            let ok = out@.map_values(|s: GatewayStatus| s@.id);
            let ov = out@.map_values(|s: GatewayStatus| s@);
            assert(lists_map(keys, vals, m));
            assert forall|j: int| 0 <= j < ok.len() implies ok[j] == keys[j] by {
                assert(ov[j] == status_of(vals[j], cm));
                assert(m[keys[j]] == vals[j]);
                assert(keys[j] == gs@[j]@.id);
                assert(vals[j] == gs@[j]@);
            }
            assert(ok =~= keys);
            assert forall|j: int| 0 <= j < ok.len() implies #[trigger] sm.dom().contains(ok[j]) && sm[ok[j]] == ov[j] by {
                assert(ok[j] == keys[j]);
                assert(0 <= j < keys.len());
                assert(m.dom().contains(keys[j]));
                assert(m[keys[j]] == vals[j]);
                assert(ov[j] == status_of(vals[j], cm));
            }
            assert forall|k: Seq<char>| #[trigger] sm.dom().contains(k) implies ok.contains(k) by {
                assert(m.dom().contains(k));
                assert(keys.contains(k));
            }
            assert(sm.dom() =~= m.dom());
        }
        out
    }

    fn bump(&mut self, gateway_id: &str)
        requires
            old(self).wf(),
            count_of(old(self).counts_view(), gateway_id@) < usize::MAX,
        ensures
            final(self).wf(),
            final(self).gateways_view() == old(self).gateways_view(),
            final(self).counts_view() == counted(old(self).counts_view(), gateway_id@),
    {
        let n = self.get_message_count(gateway_id);
        self.message_counts.insert(MessageTally { gateway_id: str_to_string(gateway_id), count: n + 1 });
    }

    /// Sends `content` to `chat_id` through the enabled gateway `gateway_id` under message
    /// id `message_id`, counts it, and reports it; `NotFound` when there is no such
    /// gateway, `Internal` when it is disabled.
    pub fn send_message_as(&mut self, gateway_id: &str, chat_id: &str, content: &str, message_id: &str) -> (r: Result<String, AppError>)
        requires
            old(self).wf(),
            count_of(old(self).counts_view(), gateway_id@) < usize::MAX,
        ensures
            final(self).wf(),
            final(self).gateways_view() == old(self).gateways_view(),
            r is Ok <==> old(self).gateways_view().dom().contains(gateway_id@) && old(self).gateways_view()[gateway_id@].enabled,
            match r {
                Ok(s) => s@ == "Message sent via "@ + old(self).gateways_view()[gateway_id@].platform + ": "@ + message_id@
                    && final(self).counts_view() == counted(old(self).counts_view(), gateway_id@),
                Err(e) => final(self).counts_view() == old(self).counts_view()
                    && if old(self).gateways_view().dom().contains(gateway_id@) {
                        e is Internal && e.message() == "Gateway "@ + gateway_id@ + " is not enabled"@
                    } else {
                        e is NotFound && e.message() == "Gateway "@ + gateway_id@ + " not found"@
                    },
            },
    {
        let platform = match self.gateways.get(gateway_id) {
            Some(g) => {
                if !g.enabled {
                    return Err(AppError::Internal(concat3("Gateway ", gateway_id, " is not enabled")));
                }
                g.platform.clone()
            },
            None => return Err(AppError::NotFound(concat3("Gateway ", gateway_id, " not found"))),
        };
        self.bump(gateway_id);
        let mut report = concat3("Message sent via ", platform.as_str(), ": ");
        push_str(&mut report, message_id);
        Ok(report)
    }

    /// Sends `content` to `chat_id` through the enabled gateway `gateway_id` under a fresh
    /// random message id, counts it, and reports it.
    pub fn send_message(&mut self, gateway_id: &str, chat_id: &str, content: &str) -> (r: Result<String, AppError>)
        requires
            old(self).wf(),
            count_of(old(self).counts_view(), gateway_id@) < usize::MAX,
        ensures
            final(self).wf(),
            final(self).gateways_view() == old(self).gateways_view(),
            r is Ok <==> old(self).gateways_view().dom().contains(gateway_id@) && old(self).gateways_view()[gateway_id@].enabled,
            match r {
                Ok(s) => (exists|mid: Seq<char>| s@ == "Message sent via "@ + old(self).gateways_view()[gateway_id@].platform + ": "@ + mid)
                    && final(self).counts_view() == counted(old(self).counts_view(), gateway_id@),
                Err(e) => final(self).counts_view() == old(self).counts_view()
                    && if old(self).gateways_view().dom().contains(gateway_id@) {
                        e is Internal && e.message() == "Gateway "@ + gateway_id@ + " is not enabled"@
                    } else {
                        e is NotFound && e.message() == "Gateway "@ + gateway_id@ + " not found"@
                    },
            },
    {
        let mid = new_uuid();
        self.send_message_as(gateway_id, chat_id, content, mid.as_str())
    }

    /// Counts a message received through the gateway `gateway_id`; `NotFound` when there
    /// is none.
    pub fn receive_message(&mut self, gateway_id: &str, message: Message) -> (r: Result<(), AppError>)
        requires
            old(self).wf(),
            count_of(old(self).counts_view(), gateway_id@) < usize::MAX,
        ensures
            final(self).wf(),
            final(self).gateways_view() == old(self).gateways_view(),
            r is Ok <==> old(self).gateways_view().dom().contains(gateway_id@),
            final(self).counts_view() == if r is Ok {
                counted(old(self).counts_view(), gateway_id@)
            } else {
                old(self).counts_view()
            },
            r is Err ==> r->Err_0 is NotFound && r->Err_0.message() == "Gateway "@ + gateway_id@ + " not found"@,
    {
        if self.gateways.contains(gateway_id) {
            self.bump(gateway_id);
            Ok(())
        } else {
            Err(AppError::NotFound(concat3("Gateway ", gateway_id, " not found")))
        }
    }
}

/// Each message sent or received through a gateway adds exactly one to its count, and
/// leaves every other gateway's count as it was.
pub proof fn law_message_counted(m: Map<Seq<char>, (Seq<char>, usize)>, id: Seq<char>, other: Seq<char>)
    requires
        count_of(m, id) < usize::MAX,
        other != id,
    ensures
        count_of(counted(m, id), id) == count_of(m, id) + 1,
        count_of(counted(m, id), other) == count_of(m, other),
{
}

} // verus!
