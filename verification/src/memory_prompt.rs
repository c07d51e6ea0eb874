//! Memory prompting: prompts scheduled for users, schedules, responses to prompts and
//! per-user settings.

use vstd::prelude::*;
use crate::audit::{opt_view, pair_views};
use crate::clock::{now_timestamp, MAX_TIMESTAMP};
use crate::error::AppError;
use crate::keyed::{count_where, restrict_where};
use crate::rbac::lists_map;
use crate::store::{filter_pred, latest_first, record_entries, record_views, Dated, Everything, Record, RecordFilter, Store};
use crate::text::{clone_pairs, clone_strings, concat3, str_eq, str_to_string, string_views};

verus! {

/// A prompt for a user.
#[derive(Debug)]
pub struct MemoryPrompt {
    pub id: String,
    pub user_id: String,
    pub prompt_type: String,
    pub content: String,
    pub context: Vec<(String, String)>,
    pub priority: u8,
    pub created_at: i64,
    pub scheduled_at: i64,
    pub triggered_at: Option<i64>,
    pub is_active: bool,
    pub metadata: Vec<(String, String)>,
}

/// The value of a prompt.
pub struct PromptView {
    pub id: Seq<char>,
    pub user_id: Seq<char>,
    pub prompt_type: Seq<char>,
    pub content: Seq<char>,
    pub context: Seq<(Seq<char>, Seq<char>)>,
    pub priority: u8,
    pub created_at: i64,
    pub scheduled_at: i64,
    pub triggered_at: Option<i64>,
    pub is_active: bool,
    pub metadata: Seq<(Seq<char>, Seq<char>)>,
}

impl View for MemoryPrompt {
    type V = PromptView;

    open spec fn view(&self) -> PromptView {
        PromptView {
            id: self.id@,
            user_id: self.user_id@,
            prompt_type: self.prompt_type@,
            content: self.content@,
            context: pair_views(self.context@),
            priority: self.priority,
            created_at: self.created_at,
            scheduled_at: self.scheduled_at,
            triggered_at: self.triggered_at,
            is_active: self.is_active,
            metadata: pair_views(self.metadata@),
        }
    }
}

impl Record for MemoryPrompt {
    open spec fn key_of(v: PromptView) -> Seq<char> {
        v.id
    }

    fn key(&self) -> (r: &str) {
        self.id.as_str()
    }

    fn duplicate(&self) -> (r: Self) {
        MemoryPrompt {
            id: self.id.clone(),
            user_id: self.user_id.clone(),
            prompt_type: self.prompt_type.clone(),
            content: self.content.clone(),
            context: clone_pairs(&self.context),
            priority: self.priority,
            created_at: self.created_at,
            scheduled_at: self.scheduled_at,
            triggered_at: self.triggered_at,
            is_active: self.is_active,
            metadata: clone_pairs(&self.metadata),
        }
    }
}

impl Dated for MemoryPrompt {
    open spec fn date_of(v: PromptView) -> int {
        v.created_at as int
    }

    fn date(&self) -> (d: i128) {
        self.created_at as i128
    }
}

/// A schedule of prompts.
#[derive(Debug)]
pub struct PromptSchedule {
    pub id: String,
    pub name: String,
    pub description: String,
    pub cron_expression: String,
    pub prompt_type: String,
    pub target_users: Vec<String>,
    pub is_active: bool,
    pub last_triggered: Option<i64>,
    pub trigger_count: usize,
    pub created_at: i64,
}

/// The value of a schedule.
pub struct ScheduleView {
    pub id: Seq<char>,
    pub name: Seq<char>,
    pub description: Seq<char>,
    pub cron_expression: Seq<char>,
    pub prompt_type: Seq<char>,
    pub target_users: Seq<Seq<char>>,
    pub is_active: bool,
    pub last_triggered: Option<i64>,
    pub trigger_count: usize,
    pub created_at: i64,
}

impl View for PromptSchedule {
    type V = ScheduleView;

    open spec fn view(&self) -> ScheduleView {
        ScheduleView {
            id: self.id@,
            name: self.name@,
            description: self.description@,
            cron_expression: self.cron_expression@,
            prompt_type: self.prompt_type@,
            target_users: string_views(self.target_users@),
            is_active: self.is_active,
            last_triggered: self.last_triggered,
            trigger_count: self.trigger_count,
            created_at: self.created_at,
        }
    }
}

impl Record for PromptSchedule {
    open spec fn key_of(v: ScheduleView) -> Seq<char> {
        v.id
    }

    fn key(&self) -> (r: &str) {
        self.id.as_str()
    }

    fn duplicate(&self) -> (r: Self) {
        PromptSchedule {
            id: self.id.clone(),
            name: self.name.clone(),
            description: self.description.clone(),
            cron_expression: self.cron_expression.clone(),
            prompt_type: self.prompt_type.clone(),
            target_users: clone_strings(&self.target_users),
            is_active: self.is_active,
            last_triggered: self.last_triggered,
            trigger_count: self.trigger_count,
            created_at: self.created_at,
        }
    }
}

impl Dated for PromptSchedule {
    open spec fn date_of(v: ScheduleView) -> int {
        v.created_at as int
    }

    fn date(&self) -> (d: i128) {
        self.created_at as i128
    }
}

/// A user's response to a prompt. Its sentiment score is a floating-point number, held
/// by its IEEE-754 bit pattern (`f64::to_bits`).
#[derive(Debug)]
pub struct PromptResponse {
    pub id: String,
    pub prompt_id: String,
    pub user_id: String,
    pub response: String,
    pub sentiment_bits: u64,
    pub timestamp: i64,
    pub follow_up_required: bool,
}

/// The value of a response.
pub struct ResponseView {
    pub id: Seq<char>,
    pub prompt_id: Seq<char>,
    pub user_id: Seq<char>,
    pub response: Seq<char>,
    pub sentiment_bits: u64,
    pub timestamp: i64,
    pub follow_up_required: bool,
}

impl View for PromptResponse {
    type V = ResponseView;

    open spec fn view(&self) -> ResponseView {
        ResponseView {
            id: self.id@,
            prompt_id: self.prompt_id@,
            user_id: self.user_id@,
            response: self.response@,
            sentiment_bits: self.sentiment_bits,
            timestamp: self.timestamp,
            follow_up_required: self.follow_up_required,
        }
    }
}

impl PromptResponse {
    /// A copy of the response.
    pub fn duplicate(&self) -> (r: Self)
        ensures
            r@ == self@,
    {
        PromptResponse {
            id: self.id.clone(),
            prompt_id: self.prompt_id.clone(),
            user_id: self.user_id.clone(),
            response: self.response.clone(),
            sentiment_bits: self.sentiment_bits,
            timestamp: self.timestamp,
            follow_up_required: self.follow_up_required,
        }
    }
}

/// The views of some responses.
pub open spec fn response_views(v: Seq<PromptResponse>) -> Seq<ResponseView> {
    v.map_values(|r: PromptResponse| r@)
}

fn clone_responses(v: &Vec<PromptResponse>) -> (r: Vec<PromptResponse>)
    ensures
        response_views(r@) == response_views(v@),
{
    let mut out: Vec<PromptResponse> = Vec::new();
    let mut i: usize = 0;
    while i < v.len()
        invariant
            i <= v@.len(),
            response_views(out@) == response_views(v@).take(i as int),
        decreases v.len() - i,
    {
        let ghost before = out@;
        out.push(v[i].duplicate());
        proof {
            assert(response_views(out@) =~= response_views(before).push(v@[i as int]@));
            assert(response_views(v@).take(i + 1) =~= response_views(v@).take(i as int).push(v@[i as int]@));
        }
        i = i + 1;
    }
    assert(response_views(v@).take(v@.len() as int) =~= response_views(v@));
    out
}

/// The responses to one prompt, in the order they came.
pub struct ResponseList {
    pub prompt_id: String,
    pub items: Vec<PromptResponse>,
}

impl View for ResponseList {
    type V = (Seq<char>, Seq<ResponseView>);

    open spec fn view(&self) -> (Seq<char>, Seq<ResponseView>) {
        (self.prompt_id@, response_views(self.items@))
    }
}

impl Record for ResponseList {
    open spec fn key_of(v: (Seq<char>, Seq<ResponseView>)) -> Seq<char> {
        v.0
    }

    fn key(&self) -> (r: &str) {
        self.prompt_id.as_str()
    }

    fn duplicate(&self) -> (r: Self) {
        ResponseList { prompt_id: self.prompt_id.clone(), items: clone_responses(&self.items) }
    }
}

/// A user's prompting settings.
#[derive(Debug)]
pub struct MemoryPromptConfig {
    pub user_id: String,
    pub prompt_frequency_hours: u64,
    pub preferred_prompt_types: Vec<String>,
    pub max_prompts_per_day: usize,
    pub quiet_hours_start: u8,
    pub quiet_hours_end: u8,
    pub enable_adaptive_scheduling: bool,
}

/// The value of a user's settings.
pub struct UserConfigView {
    pub user_id: Seq<char>,
    pub prompt_frequency_hours: u64,
    pub preferred_prompt_types: Seq<Seq<char>>,
    pub max_prompts_per_day: usize,
    pub quiet_hours_start: u8,
    pub quiet_hours_end: u8,
    pub enable_adaptive_scheduling: bool,
}

impl View for MemoryPromptConfig {
    type V = UserConfigView;

    open spec fn view(&self) -> UserConfigView {
        UserConfigView {
            user_id: self.user_id@,
            prompt_frequency_hours: self.prompt_frequency_hours,
            preferred_prompt_types: string_views(self.preferred_prompt_types@),
            max_prompts_per_day: self.max_prompts_per_day,
            quiet_hours_start: self.quiet_hours_start,
            quiet_hours_end: self.quiet_hours_end,
            enable_adaptive_scheduling: self.enable_adaptive_scheduling,
        }
    }
}

impl Record for MemoryPromptConfig {
    open spec fn key_of(v: UserConfigView) -> Seq<char> {
        v.user_id
    }

    fn key(&self) -> (r: &str) {
        self.user_id.as_str()
    }

    fn duplicate(&self) -> (r: Self) {
        MemoryPromptConfig {
            user_id: self.user_id.clone(),
            prompt_frequency_hours: self.prompt_frequency_hours,
            preferred_prompt_types: clone_strings(&self.preferred_prompt_types),
            max_prompts_per_day: self.max_prompts_per_day,
            quiet_hours_start: self.quiet_hours_start,
            quiet_hours_end: self.quiet_hours_end,
            enable_adaptive_scheduling: self.enable_adaptive_scheduling,
        }
    }
}

/// Counts over one user's prompts.
#[derive(Debug)]
pub struct UserPromptStats {
    pub user_id: String,
    pub total_prompts: usize,
    pub active_prompts: usize,
    pub triggered_prompts: usize,
    pub total_responses: usize,
}

/// Counts over the whole system.
#[derive(Debug)]
pub struct MemoryPromptStats {
    pub total_prompts: usize,
    pub total_schedules: usize,
    pub active_schedules: usize,
    pub total_responses: usize,
    pub total_user_configs: usize,
}

/// Active schedules.
pub struct ActiveSchedules;

impl RecordFilter<PromptSchedule> for ActiveSchedules {
    open spec fn holds(&self, v: ScheduleView) -> bool {
        v.is_active
    }

    fn test(&self, r: &PromptSchedule) -> (b: bool) {
        r.is_active
    }
}

/// Prompts of a user (any user when none is given), active ones only when asked.
pub struct PromptFilter<'a> {
    pub user_id: Option<&'a str>,
    pub active_only: bool,
}

impl<'a> RecordFilter<MemoryPrompt> for PromptFilter<'a> {
    open spec fn holds(&self, v: PromptView) -> bool {
        (match self.user_id {
            Some(u) => v.user_id == u@,
            None => true,
        }) && (!self.active_only || v.is_active)
    }

    fn test(&self, r: &MemoryPrompt) -> (b: bool) {
        let user_ok = match self.user_id {
            Some(u) => str_eq(r.user_id.as_str(), u),
            None => true,
        };
        user_ok && (!self.active_only || r.is_active)
    }
}

/// Prompts due at `now`: active, scheduled at or before `now`, not triggered yet.
pub struct DueAt {
    pub now: i64,
}

impl RecordFilter<MemoryPrompt> for DueAt {
    open spec fn holds(&self, v: PromptView) -> bool {
        v.is_active && v.scheduled_at <= self.now && v.triggered_at is None
    }

    fn test(&self, r: &MemoryPrompt) -> (b: bool) {
        r.is_active && r.scheduled_at <= self.now && r.triggered_at.is_none()
    }
}

/// The sum of the lengths of some response lists.
pub open spec fn responses_total(es: Seq<(Seq<char>, (Seq<char>, Seq<ResponseView>))>) -> nat
    decreases es.len(),
{
    if es.len() == 0 {
        0
    } else {
        responses_total(es.drop_last()) + es.last().1.1.len()
    }
}

/// Prompts, schedules, responses by prompt and settings by user, with counters of how
/// many prompts, schedules and responses were ever submitted.
pub struct MemoryPromptingSystem {
    prompts: Store<MemoryPrompt>,
    schedules: Store<PromptSchedule>,
    responses: Store<ResponseList>,
    user_configs: Store<MemoryPromptConfig>,
    schedules_created: usize,
    prompts_created: usize,
    responses_submitted: usize,
}

impl MemoryPromptingSystem {
    /// The prompts, by id.
    pub closed spec fn prompts_view(&self) -> Map<Seq<char>, PromptView> {
        self.prompts.view_map()
    }

    /// The schedules, by id.
    pub closed spec fn schedules_view(&self) -> Map<Seq<char>, ScheduleView> {
        self.schedules.view_map()
    }

    /// The responses, by prompt id.
    pub closed spec fn responses_view(&self) -> Map<Seq<char>, Seq<ResponseView>> {
        self.responses.view_map().map_values(|l: (Seq<char>, Seq<ResponseView>)| l.1)
    }

    /// The responses to a prompt (none when there are none).
    pub open spec fn responses_to(&self, prompt_id: Seq<char>) -> Seq<ResponseView> {
        if self.responses_view().dom().contains(prompt_id) {
            self.responses_view()[prompt_id]
        } else {
            Seq::empty()
        }
    }

    /// The settings, by user.
    pub closed spec fn configs_view(&self) -> Map<Seq<char>, UserConfigView> {
        self.user_configs.view_map()
    }

    /// How many responses are kept, all prompts together.
    pub closed spec fn total_responses(&self) -> nat {
        responses_total(self.responses.entries())
    }

    /// How many schedules, prompts and responses were submitted.
    pub closed spec fn submitted(&self) -> (usize, usize, usize) {
        (self.schedules_created, self.prompts_created, self.responses_submitted)
    }

    /// Each table holds one record per key.
    pub closed spec fn wf(&self) -> bool {
        &&& self.prompts.wf()
        &&& self.schedules.wf()
        &&& self.responses.wf()
        &&& self.user_configs.wf()
    }

    /// An empty system.
    pub fn new() -> (r: Self)
        ensures
            r.wf(),
            r.prompts_view() == Map::<Seq<char>, PromptView>::empty(),
            r.schedules_view() == Map::<Seq<char>, ScheduleView>::empty(),
            r.responses_view() == Map::<Seq<char>, Seq<ResponseView>>::empty(),
            r.configs_view() == Map::<Seq<char>, UserConfigView>::empty(),
            r.total_responses() == 0,
            r.submitted() == (0usize, 0usize, 0usize),
    {
        let r = MemoryPromptingSystem {
            prompts: Store::new(),
            schedules: Store::new(),
            responses: Store::new(),
            user_configs: Store::new(),
            schedules_created: 0,
            prompts_created: 0,
            responses_submitted: 0,
        };
        proof {
            assert(r.responses_view() =~= Map::<Seq<char>, Seq<ResponseView>>::empty());
        }
        r
    }
    /// Stores a schedule under its id (replacing one with that id) and counts it.
    pub fn create_schedule(&mut self, schedule: PromptSchedule) -> (r: Result<String, AppError>)
        requires
            old(self).wf(),
            old(self).submitted().0 < usize::MAX,
        ensures
            final(self).wf(),
            r == Ok::<String, AppError>(schedule.id),
            final(self).schedules_view() == old(self).schedules_view().insert(schedule.id@, schedule@),
            final(self).prompts_view() == old(self).prompts_view(),
            final(self).responses_view() == old(self).responses_view(),
            final(self).configs_view() == old(self).configs_view(),
            final(self).total_responses() == old(self).total_responses(),
            final(self).submitted() == ((old(self).submitted().0 + 1) as usize, old(self).submitted().1, old(self).submitted().2),
    {
        let id = schedule.id.clone();
        self.schedules.insert(schedule);
        self.schedules_created = self.schedules_created + 1;
        Ok(id)
    }

    /// The schedule `schedule_id`; `NotFound` when there is none.
    pub fn get_schedule(&self, schedule_id: &str) -> (r: Result<PromptSchedule, AppError>)
        requires
            self.wf(),
        ensures
            r is Ok <==> self.schedules_view().dom().contains(schedule_id@),
            match r {
                Ok(s) => s@ == self.schedules_view()[schedule_id@],
                Err(e) => e is NotFound && e.message() == "Schedule "@ + schedule_id@ + " not found"@,
            },
    {
        match self.schedules.get_copy(schedule_id) {
            Some(s) => Ok(s),
            None => Err(AppError::NotFound(concat3("Schedule ", schedule_id, " not found"))),
        }
    }

    /// The schedules (the active ones only when asked), each once, newest first.
    pub fn list_schedules(&self, active_only: bool) -> (r: Vec<PromptSchedule>)
        requires
            self.wf(),
        ensures
            lists_map(
                record_entries(r@).map_values(|e: (Seq<char>, ScheduleView)| e.0),
                record_views(r@),
                if active_only { restrict_where(self.schedules_view(), |v: ScheduleView| v.is_active) } else { self.schedules_view() },
            ),
            latest_first::<PromptSchedule>(record_views(r@)),
    {
        if active_only {
            let f = ActiveSchedules;
            let r = self.schedules.values_where_latest_first(&f);
            assert(restrict_where(self.schedules_view(), filter_pred::<PromptSchedule, ActiveSchedules>(&f))
                =~= restrict_where(self.schedules_view(), |v: ScheduleView| v.is_active));
            r
        } else {
            let f = Everything;
            let r = self.schedules.values_where_latest_first(&f);
            assert(restrict_where(self.schedules_view(), filter_pred::<PromptSchedule, Everything>(&f)) =~= self.schedules_view());
            r
        }
    }

    /// Stores a prompt under its id (replacing one with that id) and counts it.
    pub fn create_prompt(&mut self, prompt: MemoryPrompt) -> (r: Result<String, AppError>)
        requires
            old(self).wf(),
            old(self).submitted().1 < usize::MAX,
        ensures
            final(self).wf(),
            r == Ok::<String, AppError>(prompt.id),
            final(self).prompts_view() == old(self).prompts_view().insert(prompt.id@, prompt@),
            final(self).schedules_view() == old(self).schedules_view(),
            final(self).responses_view() == old(self).responses_view(),
            final(self).configs_view() == old(self).configs_view(),
            final(self).total_responses() == old(self).total_responses(),
            final(self).submitted() == (old(self).submitted().0, (old(self).submitted().1 + 1) as usize, old(self).submitted().2),
    {
        let id = prompt.id.clone();
        self.prompts.insert(prompt);
        self.prompts_created = self.prompts_created + 1;
        Ok(id)
    }

    /// The prompt `prompt_id`; `NotFound` when there is none.
    pub fn get_prompt(&self, prompt_id: &str) -> (r: Result<MemoryPrompt, AppError>)
        requires
            self.wf(),
        ensures
            r is Ok <==> self.prompts_view().dom().contains(prompt_id@),
            match r {
                Ok(p) => p@ == self.prompts_view()[prompt_id@],
                Err(e) => e is NotFound && e.message() == "Prompt "@ + prompt_id@ + " not found"@,
            },
    {
        match self.prompts.get_copy(prompt_id) {
            Some(p) => Ok(p),
            None => Err(AppError::NotFound(concat3("Prompt ", prompt_id, " not found"))),
        }
    }

    /// The prompts of `user_id` (of everyone when it is not given), the active ones only
    /// when asked, each once, newest first.
    pub fn list_prompts(&self, user_id: Option<&str>, active_only: bool) -> (r: Vec<MemoryPrompt>)
        requires
            self.wf(),
        ensures
            lists_map(
                record_entries(r@).map_values(|e: (Seq<char>, PromptView)| e.0),
                record_views(r@),
                restrict_where(self.prompts_view(), |v: PromptView|
                    (match user_id { Some(u) => v.user_id == u@, None => true }) && (!active_only || v.is_active)),
            ),
            latest_first::<MemoryPrompt>(record_views(r@)),
    {
        let f = PromptFilter { user_id, active_only };
        let r = self.prompts.values_where_latest_first(&f);
        assert(restrict_where(self.prompts_view(), filter_pred::<MemoryPrompt, PromptFilter>(&f))
            =~= restrict_where(self.prompts_view(), |v: PromptView|
                (match user_id { Some(u) => v.user_id == u@, None => true }) && (!active_only || v.is_active)));
        r
    }

    /// Marks the active prompt `prompt_id` triggered now and returns its id; `NotFound`
    /// when there is none, `Internal` when it is not active.
    pub fn trigger_prompt(&mut self, prompt_id: &str) -> (r: Result<String, AppError>)
        requires
            old(self).wf(),
        ensures
            final(self).wf(),
            final(self).schedules_view() == old(self).schedules_view(),
            final(self).responses_view() == old(self).responses_view(),
            final(self).configs_view() == old(self).configs_view(),
            final(self).total_responses() == old(self).total_responses(),
            final(self).submitted() == old(self).submitted(),
            r is Ok <==> old(self).prompts_view().dom().contains(prompt_id@) && old(self).prompts_view()[prompt_id@].is_active,
            match r {
                Ok(id) => {
                    let p = final(self).prompts_view()[prompt_id@];
                    &&& id@ == prompt_id@
                    &&& final(self).prompts_view() == old(self).prompts_view().insert(prompt_id@, p)
                    &&& p == (PromptView { triggered_at: p.triggered_at, ..old(self).prompts_view()[prompt_id@] })
                    &&& p.triggered_at matches Some(t) && 0 <= t < MAX_TIMESTAMP
                },
                Err(e) => final(self).prompts_view() == old(self).prompts_view() && if old(self).prompts_view().dom().contains(prompt_id@) {
                    e is Internal && e.message() == "Prompt is not active"@
                } else {
                    e is NotFound && e.message() == "Prompt "@ + prompt_id@ + " not found"@
                },
            },
    {
        let mut p = match self.prompts.get_copy(prompt_id) {
            Some(p) => p,
            None => return Err(AppError::NotFound(concat3("Prompt ", prompt_id, " not found"))),
        };
        if !p.is_active {
            return Err(AppError::Internal(str_to_string("Prompt is not active")));
        }
        p.triggered_at = Some(now_timestamp());
        let id = p.id.clone();
        self.prompts.insert(p);
        Ok(id)
    }

    /// Files a response under its prompt's id (after the earlier ones) and counts it;
    /// returns the response's id.
    pub fn submit_response(&mut self, response: PromptResponse) -> (r: Result<String, AppError>)
        requires
            old(self).wf(),
            old(self).submitted().2 < usize::MAX,
        ensures
            final(self).wf(),
            r == Ok::<String, AppError>(response.id),
            final(self).responses_view() == old(self).responses_view().insert(
                response.prompt_id@,
                old(self).responses_to(response.prompt_id@).push(response@),
            ),
            final(self).total_responses() == old(self).total_responses() + 1,
            final(self).prompts_view() == old(self).prompts_view(),
            final(self).schedules_view() == old(self).schedules_view(),
            final(self).configs_view() == old(self).configs_view(),
            final(self).submitted() == (old(self).submitted().0, old(self).submitted().1, (old(self).submitted().2 + 1) as usize),
    {
        let id = response.id.clone();
        let ghost key = response.prompt_id@;
        let ghost rv = response@;
        let ghost es = self.responses.entries();
        let mut list = match self.responses.get_copy(response.prompt_id.as_str()) {
            Some(l) => l,
            None => ResponseList { prompt_id: response.prompt_id.clone(), items: Vec::new() },
        };
        assert(list@.1 == self.responses_to(key)) by {
            if !self.responses.view_map().dom().contains(key) {
                assert(response_views(list.items@) =~= Seq::<ResponseView>::empty());
            }
        }
        list.items.push(response);
        assert(response_views(list.items@) =~= self.responses_to(key).push(rv));
        self.responses.insert(list);
        proof {
            assert(self.responses_view() =~= old(self).responses_view().insert(key, old(self).responses_to(key).push(rv)));
            if old(self).responses.view_map().dom().contains(key) {
                let i = old(self).responses.index_of(key);
                lemma_map_of_entry(es, i);
                lemma_total_update(es, i, (key, old(self).responses_to(key).push(rv)));
            } else {
                assert(es.push((key, (key, old(self).responses_to(key).push(rv)))).drop_last() =~= es);
            }
        }
        self.responses_submitted = self.responses_submitted + 1;
        Ok(id)
    }

    /// The responses to `prompt_id`, in the order they came (none when there are none).
    pub fn get_responses(&self, prompt_id: &str) -> (r: Vec<PromptResponse>)
        requires
            self.wf(),
        ensures
            response_views(r@) == self.responses_to(prompt_id@),
    {
        match self.responses.get(prompt_id) {
            Some(l) => clone_responses(&l.items),
            None => {
                let v: Vec<PromptResponse> = Vec::new();
                assert(response_views(v@) =~= Seq::<ResponseView>::empty());
                v
            },
        }
    }

    /// Stores a user's settings under the user's id, replacing earlier ones.
    pub fn set_user_config(&mut self, config: MemoryPromptConfig) -> (r: Result<(), AppError>)
        requires
            old(self).wf(),
        ensures
            final(self).wf(),
            r is Ok,
            final(self).configs_view() == old(self).configs_view().insert(config.user_id@, config@),
            final(self).prompts_view() == old(self).prompts_view(),
            final(self).schedules_view() == old(self).schedules_view(),
            final(self).responses_view() == old(self).responses_view(),
            final(self).total_responses() == old(self).total_responses(),
            final(self).submitted() == old(self).submitted(),
    {
        self.user_configs.insert(config);
        Ok(())
    }

    /// The settings of `user_id`; `NotFound` when there are none.
    pub fn get_user_config(&self, user_id: &str) -> (r: Result<MemoryPromptConfig, AppError>)
        requires
            self.wf(),
        ensures
            r is Ok <==> self.configs_view().dom().contains(user_id@),
            match r {
                Ok(c) => c@ == self.configs_view()[user_id@],
                Err(e) => e is NotFound && e.message() == "Config for user "@ + user_id@ + " not found"@,
            },
    {
        match self.user_configs.get_copy(user_id) {
            Some(c) => Ok(c),
            None => Err(AppError::NotFound(concat3("Config for user ", user_id, " not found"))),
        }
    }

    /// The prompts due at the clock reading `now`, each once: active, scheduled at or
    /// before `now`, not triggered yet.
    pub fn get_due_prompts_at(&self, now: i64) -> (r: Vec<MemoryPrompt>)
        requires
            self.wf(),
        ensures
            lists_map(
                record_entries(r@).map_values(|e: (Seq<char>, PromptView)| e.0),
                record_views(r@),
                restrict_where(self.prompts_view(), is_due(now)),
            ),
    {
        let f = DueAt { now };
        let r = self.prompts.values_where(&f);
        assert(restrict_where(self.prompts_view(), filter_pred::<MemoryPrompt, DueAt>(&f))
            =~= restrict_where(self.prompts_view(), is_due(now)));
        r
    }

    /// The prompts due now by the clock.
    pub fn get_due_prompts(&self) -> (r: Vec<MemoryPrompt>)
        requires
            self.wf(),
        ensures
            exists|now: i64| 0 <= now < MAX_TIMESTAMP && lists_map(
                record_entries(r@).map_values(|e: (Seq<char>, PromptView)| e.0),
                record_views(r@),
                #[trigger] restrict_where(self.prompts_view(), is_due(now)),
            ),
    {
        let now = now_timestamp();
        self.get_due_prompts_at(now)
    }

    fn set_active(&mut self, prompt_id: &str, active: bool)
        requires
            old(self).wf(),
        ensures
            final(self).wf(),
            final(self).prompts_view() == if old(self).prompts_view().dom().contains(prompt_id@) {
                old(self).prompts_view().insert(prompt_id@, PromptView { is_active: active, ..old(self).prompts_view()[prompt_id@] })
            } else {
                old(self).prompts_view()
            },
            final(self).schedules_view() == old(self).schedules_view(),
            final(self).responses_view() == old(self).responses_view(),
            final(self).configs_view() == old(self).configs_view(),
            final(self).total_responses() == old(self).total_responses(),
            final(self).submitted() == old(self).submitted(),
    {
        if let Some(mut p) = self.prompts.get_copy(prompt_id) {
            p.is_active = active;
            self.prompts.insert(p);
        }
    }

    /// Marks the prompt `prompt_id` inactive, if there is one.
    pub fn deactivate_prompt(&mut self, prompt_id: &str) -> (r: Result<(), AppError>)
        requires
            old(self).wf(),
        ensures
            final(self).wf(),
            r is Ok,
            final(self).prompts_view() == if old(self).prompts_view().dom().contains(prompt_id@) {
                old(self).prompts_view().insert(prompt_id@, PromptView { is_active: false, ..old(self).prompts_view()[prompt_id@] })
            } else {
                old(self).prompts_view()
            },
            final(self).schedules_view() == old(self).schedules_view(),
            final(self).responses_view() == old(self).responses_view(),
            final(self).configs_view() == old(self).configs_view(),
            final(self).total_responses() == old(self).total_responses(),
            final(self).submitted() == old(self).submitted(),
    {
        self.set_active(prompt_id, false);
        Ok(())
    }

    /// Marks the prompt `prompt_id` active, if there is one.
    pub fn activate_prompt(&mut self, prompt_id: &str) -> (r: Result<(), AppError>)
        requires
            old(self).wf(),
        ensures
            final(self).wf(),
            r is Ok,
            final(self).prompts_view() == if old(self).prompts_view().dom().contains(prompt_id@) {
                old(self).prompts_view().insert(prompt_id@, PromptView { is_active: true, ..old(self).prompts_view()[prompt_id@] })
            } else {
                old(self).prompts_view()
            },
            final(self).schedules_view() == old(self).schedules_view(),
            final(self).responses_view() == old(self).responses_view(),
            final(self).configs_view() == old(self).configs_view(),
            final(self).total_responses() == old(self).total_responses(),
            final(self).submitted() == old(self).submitted(),
    {
        self.set_active(prompt_id, true);
        Ok(())
    }

    /// How many responses the prompts of `user_id` have, all together.
    pub closed spec fn user_responses(&self, user_id: Seq<char>) -> nat {
        user_response_total(self.prompts.entries(), user_id, self.responses_view())
    }

    /// Counts over the prompts of `user_id`: all, active, triggered, and their responses.
    pub fn get_user_prompt_stats(&self, user_id: &str) -> (r: UserPromptStats)
        requires
            self.wf(),
            self.user_responses(user_id@) <= usize::MAX,
        ensures
            r.user_id@ == user_id@,
            r.total_prompts == count_where(self.prompts_view(), |v: PromptView| v.user_id == user_id@),
            r.active_prompts == count_where(self.prompts_view(), |v: PromptView| v.user_id == user_id@ && v.is_active),
            r.triggered_prompts == count_where(self.prompts_view(), |v: PromptView| v.user_id == user_id@ && v.triggered_at is Some),
            r.total_responses == self.user_responses(user_id@),
    {
        let mut total: usize = 0;
        let mut active: usize = 0;
        let mut triggered: usize = 0;
        let mut responses: usize = 0;
        let items = self.prompts.records();
        let ghost es = record_entries(items@);
        let ghost m = self.prompts_view();
        let ghost rv = self.responses_view();
        let ghost p_all = value_is_user(user_id@);
        let ghost p_act = value_is_active_user(user_id@);
        let ghost p_trig = value_is_triggered_user(user_id@);
        let mut i: usize = 0;
        proof {
            reveal(Seq::filter);
            assert(es.take(0).filter(p_all) =~= Seq::<(Seq<char>, PromptView)>::empty());
            assert(es.take(0).filter(p_act) =~= Seq::<(Seq<char>, PromptView)>::empty());
            assert(es.take(0).filter(p_trig) =~= Seq::<(Seq<char>, PromptView)>::empty());
            assert(es.take(0) =~= Seq::<(Seq<char>, PromptView)>::empty());
        }
        while i < items.len()
            invariant
                i <= items@.len(),
                self.wf(),
                es == record_entries(items@),
                es == self.prompts.entries(),
                rv == self.responses_view(),
                p_all == value_is_user(user_id@),
                p_act == value_is_active_user(user_id@),
                p_trig == value_is_triggered_user(user_id@),
                user_response_total(es, user_id@, rv) <= usize::MAX,
                total == es.take(i as int).filter(p_all).len(),
                active == es.take(i as int).filter(p_act).len(),
                triggered == es.take(i as int).filter(p_trig).len(),
                responses == user_response_total(es.take(i as int), user_id@, rv),
                total <= i,
                active <= i,
                triggered <= i,
            decreases items.len() - i,
        {
            let x = &items[i];
            proof {
                let t = es.take(i + 1);
                assert(t =~= es.take(i as int).push(es[i as int]));
                assert(t.drop_last() =~= es.take(i as int));
                es.take(i as int).lemma_filter_push(es[i as int], p_all);
                es.take(i as int).lemma_filter_push(es[i as int], p_act);
                es.take(i as int).lemma_filter_push(es[i as int], p_trig);
                assert(es[i as int] == (x@.id, x@));
                lemma_user_total_prefix(es, i + 1, user_id@, rv);
            }
            if str_eq(x.user_id.as_str(), user_id) {
                total = total + 1;
                if x.is_active {
                    active = active + 1;
                }
                if x.triggered_at.is_some() {
                    triggered = triggered + 1;
                }
                let n = match self.responses.get(x.id.as_str()) {
                    Some(l) => l.items.len(),
                    None => 0,
                };
                proof {
                    assert(n == self.responses_to(x@.id).len());
                }
                responses = responses + n;
            }
            i = i + 1;
        }
        proof {
            assert(es.take(es.len() as int) =~= es);
            crate::keyed::lemma_count_where(es, |v: PromptView| v.user_id == user_id@);
            crate::keyed::lemma_count_where(es, |v: PromptView| v.user_id == user_id@ && v.is_active);
            crate::keyed::lemma_count_where(es, |v: PromptView| v.user_id == user_id@ && v.triggered_at is Some);
            assert(p_all == crate::keyed::value_pred::<Seq<char>, PromptView>(|v: PromptView| v.user_id == user_id@));
            assert(p_act == crate::keyed::value_pred::<Seq<char>, PromptView>(|v: PromptView| v.user_id == user_id@ && v.is_active));
            assert(p_trig == crate::keyed::value_pred::<Seq<char>, PromptView>(|v: PromptView| v.user_id == user_id@ && v.triggered_at is Some));
        }
        UserPromptStats {
            user_id: str_to_string(user_id),
            total_prompts: total,
            active_prompts: active,
            triggered_prompts: triggered,
            total_responses: responses,
        }
    }

    /// Counts of prompts, schedules, active schedules, responses and user settings.
    pub fn get_stats(&self) -> (r: MemoryPromptStats)
        requires
            self.wf(),
            self.total_responses() <= usize::MAX,
        ensures
            r.total_prompts == self.prompts_view().dom().len(),
            r.total_schedules == self.schedules_view().dom().len(),
            r.active_schedules == count_where(self.schedules_view(), |v: ScheduleView| v.is_active),
            r.total_responses == self.total_responses(),
            r.total_user_configs == self.configs_view().dom().len(),
    {
        let f = ActiveSchedules;
        let active = self.schedules.values_where(&f);
        proof {
            let m = self.schedules_view();
            let p = |v: ScheduleView| v.is_active;
            assert(restrict_where(m, filter_pred::<PromptSchedule, ActiveSchedules>(&f)) =~= restrict_where(m, p));
            assert(restrict_where(m, p).dom() =~= m.dom().filter(|k: Seq<char>| p(m[k])));
        }
        let lists = self.responses.records();
        let ghost es = record_entries(lists@);
        let mut total: usize = 0;
        let mut i: usize = 0;
        assert(es.take(0) =~= Seq::<(Seq<char>, (Seq<char>, Seq<ResponseView>))>::empty());
        while i < lists.len()
            invariant
                i <= lists@.len(),
                es == record_entries(lists@),
                es == self.responses.entries(),
                responses_total(es) <= usize::MAX,
                total == responses_total(es.take(i as int)),
            decreases lists.len() - i,
        {
            proof {
                assert(es.take(i + 1).drop_last() =~= es.take(i as int));
                assert(es[i as int].1.1.len() == lists@[i as int].items@.len());
                lemma_responses_prefix(es, i + 1);
            }
            total = total + lists[i].items.len();
            i = i + 1;
        }
        assert(es.take(es.len() as int) =~= es);
        MemoryPromptStats {
            total_prompts: self.prompts.len(),
            total_schedules: self.schedules.len(),
            active_schedules: active.len(),
            total_responses: total,
            total_user_configs: self.user_configs.len(),
        }
    }
}

/// Prompts due at `now`: active, scheduled at or before `now`, not triggered yet.
pub open spec fn is_due(now: i64) -> spec_fn(PromptView) -> bool {
    |v: PromptView| v.is_active && v.scheduled_at <= now && v.triggered_at is None
}

/// Entries whose prompt belongs to `u`.
pub open spec fn value_is_user(u: Seq<char>) -> spec_fn((Seq<char>, PromptView)) -> bool {
    |e: (Seq<char>, PromptView)| e.1.user_id == u
}

/// Entries whose prompt belongs to `u` and is active.
pub open spec fn value_is_active_user(u: Seq<char>) -> spec_fn((Seq<char>, PromptView)) -> bool {
    |e: (Seq<char>, PromptView)| e.1.user_id == u && e.1.is_active
}

/// Entries whose prompt belongs to `u` and was triggered.
pub open spec fn value_is_triggered_user(u: Seq<char>) -> spec_fn((Seq<char>, PromptView)) -> bool {
    |e: (Seq<char>, PromptView)| e.1.user_id == u && e.1.triggered_at is Some
}

/// The number of responses to the prompts of `u` among some prompt entries.
pub open spec fn user_response_total(es: Seq<(Seq<char>, PromptView)>, u: Seq<char>, rv: Map<Seq<char>, Seq<ResponseView>>) -> nat
    decreases es.len(),
{
    if es.len() == 0 {
        0
    } else {
        let p = es.last().1;
        user_response_total(es.drop_last(), u, rv) + if p.user_id == u && rv.dom().contains(p.id) {
            rv[p.id].len()
        } else {
            0
        }
    }
}

/// A prefix of the prompts has no more responses than all of them.
pub proof fn lemma_user_total_prefix(es: Seq<(Seq<char>, PromptView)>, i: int, u: Seq<char>, rv: Map<Seq<char>, Seq<ResponseView>>)
    requires
        0 <= i <= es.len(),
    ensures
        user_response_total(es.take(i), u, rv) <= user_response_total(es, u, rv),
    decreases es.len() - i,
{
    if i < es.len() {
        lemma_user_total_prefix(es, i + 1, u, rv);
        assert(es.take(i + 1).drop_last() =~= es.take(i));
    } else {
        assert(es.take(i) =~= es);
    }
}

/// A prefix of the response lists holds no more responses than all of them.
pub proof fn lemma_responses_prefix(es: Seq<(Seq<char>, (Seq<char>, Seq<ResponseView>))>, i: int)
    requires
        0 <= i <= es.len(),
    ensures
        responses_total(es.take(i)) <= responses_total(es),
    decreases es.len() - i,
{
    if i < es.len() {
        lemma_responses_prefix(es, i + 1);
        assert(es.take(i + 1).drop_last() =~= es.take(i));
    } else {
        assert(es.take(i) =~= es);
    }
}

/// The map holds, at the key of entry `i`, that entry's value.
pub proof fn lemma_map_of_entry(es: Seq<(Seq<char>, (Seq<char>, Seq<ResponseView>))>, i: int)
    requires
        crate::keyed::unique_keys(es),
        0 <= i < es.len(),
    ensures
        crate::keyed::map_of(es)[es[i].0] == es[i].1,
{
    crate::keyed::lemma_map_of_index(es, i);
}

/// Replacing one response list changes the total by the difference of the lengths.
pub proof fn lemma_total_update(es: Seq<(Seq<char>, (Seq<char>, Seq<ResponseView>))>, i: int, x: (Seq<char>, Seq<ResponseView>))
    requires
        0 <= i < es.len(),
    ensures
        responses_total(es.update(i, (es[i].0, x))) == responses_total(es) - es[i].1.1.len() + x.1.len(),
    decreases es.len(),
{
    let u = es.update(i, (es[i].0, x));
    if i == es.len() - 1 {
        assert(u.drop_last() =~= es.drop_last());
    } else {
        lemma_total_update(es.drop_last(), i, x);
        assert(u.drop_last() =~= es.drop_last().update(i, (es[i].0, x)));
    }
}

/// The due prompts at `now` are exactly the active prompts scheduled at or before `now`
/// that were not triggered yet: every prompt a due query lists (with its id) is such a
/// prompt, stored under that id, and every such prompt is listed. So a triggered prompt
/// is never listed, and a prompt just marked triggered is not due at any time.
pub proof fn law_due_prompts(keys: Seq<Seq<char>>, vals: Seq<PromptView>, m: Map<Seq<char>, PromptView>, now: i64)
    requires
        lists_map(keys, vals, restrict_where(m, is_due(now))),
    ensures
        forall|i: int| 0 <= i < vals.len() ==> {
            &&& m.dom().contains(keys[i])
            &&& m[keys[i]] == #[trigger] vals[i]
            &&& vals[i].is_active
            &&& vals[i].scheduled_at <= now
            &&& vals[i].triggered_at is None
        },
        forall|k: Seq<char>| #[trigger] m.dom().contains(k) && m[k].is_active && m[k].scheduled_at <= now
            && m[k].triggered_at is None ==> keys.contains(k),
        forall|k: Seq<char>, p: PromptView, later: i64| p.triggered_at is Some
            ==> !#[trigger] restrict_where(m.insert(k, p), is_due(later)).dom().contains(k),
{
    assert forall|i: int| 0 <= i < vals.len() implies {
        &&& m.dom().contains(keys[i])
        &&& m[keys[i]] == #[trigger] vals[i]
        &&& vals[i].is_active
        &&& vals[i].scheduled_at <= now
        &&& vals[i].triggered_at is None
    } by {
        assert(restrict_where(m, is_due(now)).dom().contains(keys[i]));
    }
    assert forall|k: Seq<char>| #[trigger] m.dom().contains(k) && m[k].is_active && m[k].scheduled_at <= now
        && m[k].triggered_at is None implies keys.contains(k) by {
        assert(restrict_where(m, is_due(now)).dom().contains(k));
    }
}

} // verus!
