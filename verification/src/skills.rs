//! The skill registry: built-in skills and custom ones, which of them are installed,
//! and which are enabled.

use vstd::prelude::*;
use crate::audit::opt_view;
use crate::clock::{now_timestamp, MAX_TIMESTAMP};
use crate::error::AppError;
use crate::json::json_null;
use crate::keyed::restrict_where;
use crate::plugins::{plugin_id, plugin_id_of};
use crate::rbac::lists_map;
use crate::store::{filter_pred, record_entries, Record, RecordFilter, Store};
use crate::text::{concat3, str_eq, str_to_string};

verus! {

/// A skill. `config` is free-form JSON carried along as it was given.
#[derive(Debug)]
pub struct Skill {
    pub id: String,
    pub name: String,
    pub description: String,
    pub category: String,
    pub installed: bool,
    pub enabled: bool,
    pub version: String,
    pub config: serde_json::Value,
    pub created_at: i64,
}

/// The value of a skill.
pub struct SkillView {
    pub id: Seq<char>,
    pub name: Seq<char>,
    pub description: Seq<char>,
    pub category: Seq<char>,
    pub installed: bool,
    pub enabled: bool,
    pub version: Seq<char>,
    pub config: serde_json::Value,
    pub created_at: i64,
}

impl View for Skill {
    type V = SkillView;

    open spec fn view(&self) -> SkillView {
        SkillView {
            id: self.id@,
            name: self.name@,
            description: self.description@,
            category: self.category@,
            installed: self.installed,
            enabled: self.enabled,
            version: self.version@,
            config: self.config,
            created_at: self.created_at,
        }
    }
}

impl Record for Skill {
    open spec fn key_of(v: SkillView) -> Seq<char> {
        v.id
    }

    fn key(&self) -> (r: &str) {
        self.id.as_str()
    }

    fn duplicate(&self) -> (r: Self) {
        Skill {
            id: self.id.clone(),
            name: self.name.clone(),
            description: self.description.clone(),
            category: self.category.clone(),
            installed: self.installed,
            enabled: self.enabled,
            version: self.version.clone(),
            config: self.config.clone(),
            created_at: self.created_at,
        }
    }
}

/// What a user gives to add a custom skill.
#[derive(Debug)]
pub struct SkillCreate {
    pub name: String,
    pub description: Option<String>,
    pub category: Option<String>,
}

/// A built-in skill as the registry starts with it: not installed, enabled, version 1.0.0,
/// with the settings `config`.
pub open spec fn builtin_skill(id: Seq<char>, name: Seq<char>, description: Seq<char>, category: Seq<char>, now: i64, config: serde_json::Value) -> SkillView {
    SkillView { id, name, description, category, installed: false, enabled: true, version: "1.0.0"@, config, created_at: now }
}

/// The skills a registry starts with, created at `now`, all with the settings `config`.
pub open spec fn default_skills(now: i64, config: serde_json::Value) -> Map<Seq<char>, SkillView> {
    Map::<Seq<char>, SkillView>::empty()
        .insert("creative_writing"@, builtin_skill("creative_writing"@, "Creative Writing"@, "AI creative writing skills"@, "creative"@, now, config))
        .insert("code_review"@, builtin_skill("code_review"@, "Code Review"@, "Automated code review"@, "devops"@, now, config))
        .insert("web_research"@, builtin_skill("web_research"@, "Web Research"@, "Deep web research assistant"@, "research"@, now, config))
        .insert("document_summary"@, builtin_skill("document_summary"@, "Document Summary"@, "Summarize documents"@, "productivity"@, now, config))
        .insert("data_analysis"@, builtin_skill("data_analysis"@, "Data Analysis"@, "Data analysis and visualization"@, "research"@, now, config))
        .insert("email_assistant"@, builtin_skill("email_assistant"@, "Email Assistant"@, "Email drafting and management"@, "productivity"@, now, config))
        .insert("ci_cd_pipeline"@, builtin_skill("ci_cd_pipeline"@, "CI/CD Pipeline"@, "CI/CD automation skills"@, "devops"@, now, config))
        .insert("image_generation"@, builtin_skill("image_generation"@, "Image Generation"@, "AI image generation skills"@, "creative"@, now, config))
}

/// The custom skill a user adds, at `now`, with the settings `config`: installed and
/// enabled; no description unless given; category `general` unless given.
pub open spec fn custom_skill(name: Seq<char>, description: Option<Seq<char>>, category: Option<Seq<char>>, now: i64, config: serde_json::Value) -> SkillView {
    SkillView {
        id: plugin_id(name),
        name,
        description: match description { Some(d) => d, None => Seq::<char>::empty() },
        category: match category { Some(c) => c, None => "general"@ },
        installed: true,
        enabled: true,
        version: "1.0.0"@,
        config,
        created_at: now,
    }
}

/// Skills of one category.
pub struct SkillsIn<'a> {
    pub category: &'a str,
}

impl<'a> RecordFilter<Skill> for SkillsIn<'a> {
    open spec fn holds(&self, v: SkillView) -> bool {
        v.category == self.category@
    }

    fn test(&self, r: &Skill) -> (b: bool) {
        str_eq(r.category.as_str(), self.category)
    }
}

/// Installed skills; the enabled ones among them only, when asked.
pub struct InstalledSkills {
    pub enabled_only: bool,
}

impl RecordFilter<Skill> for InstalledSkills {
    open spec fn holds(&self, v: SkillView) -> bool {
        v.installed && (!self.enabled_only || v.enabled)
    }

    fn test(&self, r: &Skill) -> (b: bool) {
        r.installed && (!self.enabled_only || r.enabled)
    }
}

/// Whether a skill can be used: installed and enabled.
pub open spec fn is_usable(v: SkillView) -> bool {
    v.installed && v.enabled
}

fn builtin(id: &str, name: &str, description: &str, category: &str, now: i64, config: &serde_json::Value) -> (s: Skill)
    ensures
        s@ == builtin_skill(id@, name@, description@, category@, now, *config),
{
    Skill {
        id: str_to_string(id),
        name: str_to_string(name),
        description: str_to_string(description),
        category: str_to_string(category),
        installed: false,
        enabled: true,
        version: str_to_string("1.0.0"),
        config: config.clone(),
        created_at: now,
    }
}

/// The skills, by id.
pub struct SkillRegistry {
    skills: Store<Skill>,
    blank: serde_json::Value,
}

impl SkillRegistry {
    /// The skills, by id.
    pub closed spec fn skills_view(&self) -> Map<Seq<char>, SkillView> {
        self.skills.view_map()
    }

    /// The registry's invariant: each id is held once.
    pub closed spec fn wf(&self) -> bool {
        self.skills.wf()
    }

    /// The settings a skill gets when nothing gives it any (JSON `null`).
    pub closed spec fn blank(&self) -> serde_json::Value {
        self.blank
    }

    /// A registry holding the default skills, created at `now`.
    pub fn new_at(now: i64) -> (r: Self)
        ensures
            r.wf(),
            r.skills_view() == default_skills(now, r.blank()),
    {
        let null = json_null();
        let mut skills: Store<Skill> = Store::new();
        skills.insert(builtin("creative_writing", "Creative Writing", "AI creative writing skills", "creative", now, &null));
        skills.insert(builtin("code_review", "Code Review", "Automated code review", "devops", now, &null));
        skills.insert(builtin("web_research", "Web Research", "Deep web research assistant", "research", now, &null));
        skills.insert(builtin("document_summary", "Document Summary", "Summarize documents", "productivity", now, &null));
        skills.insert(builtin("data_analysis", "Data Analysis", "Data analysis and visualization", "research", now, &null));
        skills.insert(builtin("email_assistant", "Email Assistant", "Email drafting and management", "productivity", now, &null));
        skills.insert(builtin("ci_cd_pipeline", "CI/CD Pipeline", "CI/CD automation skills", "devops", now, &null));
        skills.insert(builtin("image_generation", "Image Generation", "AI image generation skills", "creative", now, &null));
        SkillRegistry { skills, blank: null }
    }

    /// A registry holding the default skills, created now.
    pub fn new() -> (r: Self)
        ensures
            r.wf(),
            exists|now: i64| 0 <= now < MAX_TIMESTAMP && r.skills_view() == #[trigger] default_skills(now, r.blank()),
    {
        let now = now_timestamp();
        let r = Self::new_at(now);
        assert(r.skills_view() == default_skills(now, r.blank()));
        r
    }

    /// Sets a skill's flags: `installed` when given, `enabled` always.
    fn set_flags(&mut self, skill_id: &str, installed: Option<bool>, enabled: bool) -> (r: Result<Skill, AppError>)
        requires
            old(self).wf(),
        ensures
            final(self).wf(),
            r is Ok <==> old(self).skills_view().dom().contains(skill_id@),
            match r {
                Ok(s) => s@ == SkillView {
                        installed: match installed { Some(b) => b, None => old(self).skills_view()[skill_id@].installed },
                        enabled,
                        ..old(self).skills_view()[skill_id@]
                    }
                    && final(self).skills_view() == old(self).skills_view().insert(skill_id@, s@),
                Err(e) => e is NotFound && e.message() == "Skill "@ + skill_id@ + " not found"@
                    && final(self).skills_view() == old(self).skills_view(),
            },
    {
        match self.skills.get_copy(skill_id) {
            Some(mut s) => {
                if let Some(b) = installed {
                    s.installed = b;
                }
                s.enabled = enabled;
                let copy = s.duplicate();
                self.skills.insert(s);
                Ok(copy)
            },
            None => Err(AppError::NotFound(concat3("Skill ", skill_id, " not found"))),
        }
    }

    /// Installs and enables the skill `skill_id`; `NotFound` when there is none.
    pub fn install(&mut self, skill_id: &str) -> (r: Result<Skill, AppError>)
        requires
            old(self).wf(),
        ensures
            final(self).wf(),
            r is Ok <==> old(self).skills_view().dom().contains(skill_id@),
            match r {
                Ok(s) => s@ == SkillView { installed: true, enabled: true, ..old(self).skills_view()[skill_id@] }
                    && final(self).skills_view() == old(self).skills_view().insert(skill_id@, s@),
                Err(e) => e is NotFound && e.message() == "Skill "@ + skill_id@ + " not found"@
                    && final(self).skills_view() == old(self).skills_view(),
            },
    {
        self.set_flags(skill_id, Some(true), true)
    }

    /// Uninstalls and disables the skill `skill_id`; `NotFound` when there is none.
    pub fn uninstall(&mut self, skill_id: &str) -> (r: Result<Skill, AppError>)
        requires
            old(self).wf(),
        ensures
            final(self).wf(),
            r is Ok <==> old(self).skills_view().dom().contains(skill_id@),
            match r {
                Ok(s) => s@ == SkillView { installed: false, enabled: false, ..old(self).skills_view()[skill_id@] }
                    && final(self).skills_view() == old(self).skills_view().insert(skill_id@, s@),
                Err(e) => e is NotFound && e.message() == "Skill "@ + skill_id@ + " not found"@
                    && final(self).skills_view() == old(self).skills_view(),
            },
    {
        self.set_flags(skill_id, Some(false), false)
    }

    /// Enables the installed skill `skill_id`; `NotFound` when there is none,
    /// `InvalidInput` when it is not installed.
    pub fn enable(&mut self, skill_id: &str) -> (r: Result<Skill, AppError>)
        requires
            old(self).wf(),
        ensures
            final(self).wf(),
            r is Ok <==> old(self).skills_view().dom().contains(skill_id@) && old(self).skills_view()[skill_id@].installed,
            match r {
                Ok(s) => s@ == SkillView { enabled: true, ..old(self).skills_view()[skill_id@] }
                    && final(self).skills_view() == old(self).skills_view().insert(skill_id@, s@),
                Err(e) => final(self).skills_view() == old(self).skills_view()
                    && if old(self).skills_view().dom().contains(skill_id@) {
                        e is InvalidInput && e.message() == "Skill "@ + skill_id@ + " is not installed"@
                    } else {
                        e is NotFound && e.message() == "Skill "@ + skill_id@ + " not found"@
                    },
            },
    {
        match self.skills.get(skill_id) {
            Some(s) => {
                if !s.installed {
                    return Err(AppError::InvalidInput(concat3("Skill ", skill_id, " is not installed")));
                }
            },
            None => {},
        }
        self.set_flags(skill_id, None, true)
    }

    /// Disables the skill `skill_id`; `NotFound` when there is none.
    pub fn disable(&mut self, skill_id: &str) -> (r: Result<Skill, AppError>)
        requires
            old(self).wf(),
        ensures
            final(self).wf(),
            r is Ok <==> old(self).skills_view().dom().contains(skill_id@),
            match r {
                Ok(s) => s@ == SkillView { enabled: false, ..old(self).skills_view()[skill_id@] }
                    && final(self).skills_view() == old(self).skills_view().insert(skill_id@, s@),
                Err(e) => e is NotFound && e.message() == "Skill "@ + skill_id@ + " not found"@
                    && final(self).skills_view() == old(self).skills_view(),
            },
    {
        self.set_flags(skill_id, None, false)
    }

    /// The skill `skill_id`, if there is one.
    pub fn get(&self, skill_id: &str) -> (r: Option<Skill>)
        requires
            self.wf(),
        ensures
            match r {
                Some(s) => self.skills_view().dom().contains(skill_id@) && s@ == self.skills_view()[skill_id@],
                None => !self.skills_view().dom().contains(skill_id@),
            },
    {
        self.skills.get_copy(skill_id)
    }

    /// Every skill, once each.
    pub fn list(&self) -> (r: Vec<Skill>)
        requires
            self.wf(),
        ensures
            lists_map(record_entries(r@).map_values(|e: (Seq<char>, SkillView)| e.0), r@.map_values(|x: Skill| x@), self.skills_view()),
    {
        self.skills.values()
    }

    /// The skills of category `category`, once each.
    pub fn list_by_category(&self, category: &str) -> (r: Vec<Skill>)
        requires
            self.wf(),
        ensures
            lists_map(
                record_entries(r@).map_values(|e: (Seq<char>, SkillView)| e.0),
                r@.map_values(|x: Skill| x@),
                restrict_where(self.skills_view(), |v: SkillView| v.category == category@),
            ),
    {
        let f = SkillsIn { category };
        let r = self.skills.values_where(&f);
        assert(restrict_where(self.skills_view(), filter_pred::<Skill, SkillsIn>(&f))
            =~= restrict_where(self.skills_view(), |v: SkillView| v.category == category@));
        r
    }

    /// The installed skills, once each.
    pub fn list_installed(&self) -> (r: Vec<Skill>)
        requires
            self.wf(),
        ensures
            lists_map(
                record_entries(r@).map_values(|e: (Seq<char>, SkillView)| e.0),
                r@.map_values(|x: Skill| x@),
                restrict_where(self.skills_view(), |v: SkillView| v.installed),
            ),
    {
        let f = InstalledSkills { enabled_only: false };
        let r = self.skills.values_where(&f);
        assert(restrict_where(self.skills_view(), filter_pred::<Skill, InstalledSkills>(&f))
            =~= restrict_where(self.skills_view(), |v: SkillView| v.installed));
        r
    }

    /// The installed and enabled skills, once each.
    pub fn list_enabled(&self) -> (r: Vec<Skill>)
        requires
            self.wf(),
        ensures
            lists_map(
                record_entries(r@).map_values(|e: (Seq<char>, SkillView)| e.0),
                r@.map_values(|x: Skill| x@),
                restrict_where(self.skills_view(), |v: SkillView| is_usable(v)),
            ),
    {
        let f = InstalledSkills { enabled_only: true };
        let r = self.skills.values_where(&f);
        assert(restrict_where(self.skills_view(), filter_pred::<Skill, InstalledSkills>(&f))
            =~= restrict_where(self.skills_view(), |v: SkillView| is_usable(v)));
        r
    }

    /// Adds a custom skill, installed and enabled, at `now`, replacing any with the same id.
    pub fn add_custom_skill_at(&mut self, create: SkillCreate, now: i64) -> (r: Result<Skill, AppError>)
        requires
            old(self).wf(),
        ensures
            final(self).wf(),
            r is Ok,
            match r {
                Ok(s) => s@ == custom_skill(create.name@, opt_view(create.description), opt_view(create.category), now, old(self).blank())
                    && final(self).skills_view() == old(self).skills_view().insert(s@.id, s@),
                Err(_) => false,
            },
    {
        let id = plugin_id_of(create.name.as_str());
        let description = match create.description {
            Some(d) => d,
            None => String::new(),
        };
        let category = match create.category {
            Some(c) => c,
            None => str_to_string("general"),
        };
        let skill = Skill {
            id,
            name: create.name,
            description,
            category,
            installed: true,
            enabled: true,
            version: str_to_string("1.0.0"),
            config: self.blank.clone(),
            created_at: now,
        };
        let copy = skill.duplicate();
        self.skills.insert(skill);
        Ok(copy)
    }

    /// Adds a custom skill, installed and enabled, now, replacing any with the same id.
    pub fn add_custom_skill(&mut self, create: SkillCreate) -> (r: Result<Skill, AppError>)
        requires
            old(self).wf(),
        ensures
            final(self).wf(),
            r is Ok,
            match r {
                Ok(s) => s@.created_at < MAX_TIMESTAMP
                    && s@ == custom_skill(create.name@, opt_view(create.description), opt_view(create.category), s@.created_at, old(self).blank())
                    && final(self).skills_view() == old(self).skills_view().insert(s@.id, s@),
                Err(_) => false,
            },
    {
        let now = now_timestamp();
        self.add_custom_skill_at(create, now)
    }
}

/// The skill registry as the rest of the program uses it.
pub struct SkillManager {
    registry: SkillRegistry,
}

impl SkillManager {
    /// The skills, by id.
    pub closed spec fn skills_view(&self) -> Map<Seq<char>, SkillView> {
        self.registry.skills_view()
    }

    /// The manager's invariant: that of its registry.
    pub closed spec fn wf(&self) -> bool {
        self.registry.wf()
    }

    /// The settings a skill gets when nothing gives it any (JSON `null`).
    pub closed spec fn blank(&self) -> serde_json::Value {
        self.registry.blank()
    }

    /// A manager over a registry holding the default skills, created now.
    pub fn new() -> (r: Self)
        ensures
            r.wf(),
            exists|now: i64| 0 <= now < MAX_TIMESTAMP && r.skills_view() == #[trigger] default_skills(now, r.blank()),
    {
        let registry = SkillRegistry::new();
        let r = SkillManager { registry };
        proof {
            let now = choose|now: i64| 0 <= now < MAX_TIMESTAMP && r.registry.skills_view() == #[trigger] default_skills(now, r.registry.blank());
            assert(r.skills_view() == default_skills(now, r.blank()));
        }
        r
    }

    /// Installs and enables the skill `skill_id`; `NotFound` when there is none.
    pub fn install(&mut self, skill_id: &str) -> (r: Result<Skill, AppError>)
        requires
            old(self).wf(),
        ensures
            final(self).wf(),
            r is Ok <==> old(self).skills_view().dom().contains(skill_id@),
            match r {
                Ok(s) => s@ == SkillView { installed: true, enabled: true, ..old(self).skills_view()[skill_id@] }
                    && final(self).skills_view() == old(self).skills_view().insert(skill_id@, s@),
                Err(e) => e is NotFound && e.message() == "Skill "@ + skill_id@ + " not found"@
                    && final(self).skills_view() == old(self).skills_view(),
            },
    {
        self.registry.install(skill_id)
    }

    /// Uninstalls and disables the skill `skill_id`; `NotFound` when there is none.
    pub fn uninstall(&mut self, skill_id: &str) -> (r: Result<Skill, AppError>)
        requires
            old(self).wf(),
        ensures
            final(self).wf(),
            r is Ok <==> old(self).skills_view().dom().contains(skill_id@),
            match r {
                Ok(s) => s@ == SkillView { installed: false, enabled: false, ..old(self).skills_view()[skill_id@] }
                    && final(self).skills_view() == old(self).skills_view().insert(skill_id@, s@),
                Err(e) => e is NotFound && e.message() == "Skill "@ + skill_id@ + " not found"@
                    && final(self).skills_view() == old(self).skills_view(),
            },
    {
        self.registry.uninstall(skill_id)
    }

    /// Enables the installed skill `skill_id`; `NotFound` when there is none,
    /// `InvalidInput` when it is not installed.
    pub fn enable(&mut self, skill_id: &str) -> (r: Result<Skill, AppError>)
        requires
            old(self).wf(),
        ensures
            final(self).wf(),
            r is Ok <==> old(self).skills_view().dom().contains(skill_id@) && old(self).skills_view()[skill_id@].installed,
            match r {
                Ok(s) => s@ == SkillView { enabled: true, ..old(self).skills_view()[skill_id@] }
                    && final(self).skills_view() == old(self).skills_view().insert(skill_id@, s@),
                Err(e) => final(self).skills_view() == old(self).skills_view()
                    && if old(self).skills_view().dom().contains(skill_id@) {
                        e is InvalidInput && e.message() == "Skill "@ + skill_id@ + " is not installed"@
                    } else {
                        e is NotFound && e.message() == "Skill "@ + skill_id@ + " not found"@
                    },
            },
    {
        self.registry.enable(skill_id)
    }

    /// Disables the skill `skill_id`; `NotFound` when there is none.
    pub fn disable(&mut self, skill_id: &str) -> (r: Result<Skill, AppError>)
        requires
            old(self).wf(),
        ensures
            final(self).wf(),
            r is Ok <==> old(self).skills_view().dom().contains(skill_id@),
            match r {
                Ok(s) => s@ == SkillView { enabled: false, ..old(self).skills_view()[skill_id@] }
                    && final(self).skills_view() == old(self).skills_view().insert(skill_id@, s@),
                Err(e) => e is NotFound && e.message() == "Skill "@ + skill_id@ + " not found"@
                    && final(self).skills_view() == old(self).skills_view(),
            },
    {
        self.registry.disable(skill_id)
    }

    /// The skill `skill_id`, if there is one.
    pub fn get(&self, skill_id: &str) -> (r: Option<Skill>)
        requires
            self.wf(),
        ensures
            match r {
                Some(s) => self.skills_view().dom().contains(skill_id@) && s@ == self.skills_view()[skill_id@],
                None => !self.skills_view().dom().contains(skill_id@),
            },
    {
        self.registry.get(skill_id)
    }

    /// Every skill, once each.
    pub fn list(&self) -> (r: Vec<Skill>)
        requires
            self.wf(),
        ensures
            lists_map(record_entries(r@).map_values(|e: (Seq<char>, SkillView)| e.0), r@.map_values(|x: Skill| x@), self.skills_view()),
    {
        self.registry.list()
    }

    /// The skills of category `category`, once each.
    pub fn list_by_category(&self, category: &str) -> (r: Vec<Skill>)
        requires
            self.wf(),
        ensures
            lists_map(
                record_entries(r@).map_values(|e: (Seq<char>, SkillView)| e.0),
                r@.map_values(|x: Skill| x@),
                restrict_where(self.skills_view(), |v: SkillView| v.category == category@),
            ),
    {
        self.registry.list_by_category(category)
    }

    /// The installed skills, once each.
    pub fn list_installed(&self) -> (r: Vec<Skill>)
        requires
            self.wf(),
        ensures
            lists_map(
                record_entries(r@).map_values(|e: (Seq<char>, SkillView)| e.0),
                r@.map_values(|x: Skill| x@),
                restrict_where(self.skills_view(), |v: SkillView| v.installed),
            ),
    {
        self.registry.list_installed()
    }

    /// The installed and enabled skills, once each.
    pub fn list_enabled(&self) -> (r: Vec<Skill>)
        requires
            self.wf(),
        ensures
            lists_map(
                record_entries(r@).map_values(|e: (Seq<char>, SkillView)| e.0),
                r@.map_values(|x: Skill| x@),
                restrict_where(self.skills_view(), |v: SkillView| is_usable(v)),
            ),
    {
        self.registry.list_enabled()
    }

    /// Adds a custom skill, installed and enabled, now, replacing any with the same id.
    pub fn add_custom_skill(&mut self, create: SkillCreate) -> (r: Result<Skill, AppError>)
        requires
            old(self).wf(),
        ensures
            final(self).wf(),
            r is Ok,
            match r {
                Ok(s) => s@.created_at < MAX_TIMESTAMP
                    && s@ == custom_skill(create.name@, opt_view(create.description), opt_view(create.category), s@.created_at, old(self).blank())
                    && final(self).skills_view() == old(self).skills_view().insert(s@.id, s@),
                Err(_) => false,
            },
    {
        self.registry.add_custom_skill(create)
    }
}

/// Installing a known skill makes it usable: it is then listed among the enabled skills,
/// and enabling it succeeds.
pub proof fn law_installed_skill_is_usable(m: Map<Seq<char>, SkillView>, id: Seq<char>)
    requires
        m.dom().contains(id),
    ensures
        ({
            let after = m.insert(id, SkillView { installed: true, enabled: true, ..m[id] });
            &&& restrict_where(after, |v: SkillView| is_usable(v)).dom().contains(id)
            &&& after[id].installed
        }),
{
}

/// Uninstalling a skill takes it off the enabled list, and enabling it is then refused.
pub proof fn law_uninstalled_skill_is_unusable(m: Map<Seq<char>, SkillView>, id: Seq<char>)
    requires
        m.dom().contains(id),
    ensures
        ({
            let after = m.insert(id, SkillView { installed: false, enabled: false, ..m[id] });
            &&& !restrict_where(after, |v: SkillView| is_usable(v)).dom().contains(id)
            &&& !after[id].installed
        }),
{
}

} // verus!
