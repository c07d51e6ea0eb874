//! Learning from experience: the experiences recorded, the lessons drawn from them, the
//! skills made from them, and which tools they used most. Storing lessons as memory
//! facts happens outside the library, which hands back the text to store.

use vstd::prelude::*;
use crate::audit::opt_view;
use crate::error::AppError;
use crate::keyed::{map_of, unique_keys};
use crate::skills::{custom_skill, Skill, SkillCreate, SkillManager};
use crate::text::{
    clone_strings, concat3, count_occurrences, join_strings, joined, lowercase, nat_decimal, occurrences, push_str,
    push_u64_decimal, replace_char, replace_chars, str_eq, str_to_string, string_views, tally_entries, to_lowercase,
};

verus! {

broadcast use vstd::seq_lib::to_multiset_insert;

/// An experience of carrying out a task.
#[derive(Debug)]
pub struct LearningExperience {
    pub id: String,
    pub task_description: String,
    pub tools_used: Vec<String>,
    pub skills_used: Vec<String>,
    pub success: bool,
    pub feedback: String,
    pub timestamp: i64,
    pub lessons_learned: String,
}

/// The value of an experience.
pub struct ExperienceView {
    pub id: Seq<char>,
    pub task_description: Seq<char>,
    pub tools_used: Seq<Seq<char>>,
    pub skills_used: Seq<Seq<char>>,
    pub success: bool,
    pub feedback: Seq<char>,
    pub timestamp: i64,
    pub lessons_learned: Seq<char>,
}

impl View for LearningExperience {
    type V = ExperienceView;

    open spec fn view(&self) -> ExperienceView {
        ExperienceView {
            id: self.id@,
            task_description: self.task_description@,
            tools_used: string_views(self.tools_used@),
            skills_used: string_views(self.skills_used@),
            success: self.success,
            feedback: self.feedback@,
            timestamp: self.timestamp,
            lessons_learned: self.lessons_learned@,
        }
    }
}

impl LearningExperience {
    /// A copy of the experience.
    pub fn duplicate(&self) -> (r: Self)
        ensures
            r@ == self@,
    {
        LearningExperience {
            id: self.id.clone(),
            task_description: self.task_description.clone(),
            tools_used: clone_strings(&self.tools_used),
            skills_used: clone_strings(&self.skills_used),
            success: self.success,
            feedback: self.feedback.clone(),
            timestamp: self.timestamp,
            lessons_learned: self.lessons_learned.clone(),
        }
    }
}

/// A template for making a skill.
#[derive(Debug)]
pub struct SkillTemplate {
    pub name: String,
    pub description: String,
    pub category: String,
    pub tools_required: Vec<String>,
    pub steps: Vec<String>,
    pub prompts: Vec<String>,
}

/// The value of a template: its name, category and steps.
pub open spec fn template_view(t: SkillTemplate) -> (Seq<char>, Seq<char>, Seq<Seq<char>>) {
    (t.name@, t.category@, string_views(t.steps@))
}

/// The views of some experiences.
pub open spec fn experience_views(v: Seq<LearningExperience>) -> Seq<ExperienceView> {
    v.map_values(|e: LearningExperience| e@)
}

/// The lessons drawn from an experience.
pub open spec fn lessons_of(e: ExperienceView) -> Seq<char> {
    if e.success {
        "Successfully completed task: "@ + e.task_description + "\nTools used: "@ + joined(e.tools_used, ", "@)
            + "\nSkills used: "@ + joined(e.skills_used, ", "@)
            + "\nKey takeaway: The approach worked well and can be reused."@
    } else {
        "Failed to complete task: "@ + e.task_description + "\nTools used: "@ + joined(e.tools_used, ", "@)
            + "\nSkills used: "@ + joined(e.skills_used, ", "@) + "\nFeedback: "@ + e.feedback
            + "\nKey takeaway: Need to improve the approach or use different tools."@
    }
}

/// The letters and digits of Unicode, which std's `char::is_alphanumeric` recognizes
/// (the Alphabetic and Numeric properties, defined by tables of many pages).
pub uninterp spec fn is_alphanumeric(c: char) -> bool;

/// std's `char::is_alphanumeric`. Its result is named `is_alphanumeric` of the character;
/// nothing more is claimed of it.
#[verifier::external_body]
fn char_is_alphanumeric(c: char) -> (b: bool)
    ensures
        b == is_alphanumeric(c),
{
    c.is_alphanumeric()
}

/// Letters and digits.
pub open spec fn alphanumeric() -> spec_fn(char) -> bool {
    |c: char| is_alphanumeric(c)
}

/// The name a skill made from a task gets: the task lower-cased, spaces made underscores,
/// then every character that is not a letter or digit (those underscores included)
/// removed.
pub open spec fn task_skill_name(task: Seq<char>) -> Seq<char> {
    replace_char(lowercase(task), ' ', '_').filter(alphanumeric())
}

fn keep_alphanumeric(s: &str) -> (r: String)
    ensures
        r@ == s@.filter(alphanumeric()),
{
    let cs = crate::text::chars_of(s);
    let ghost p = alphanumeric();
    let mut out = String::new();
    let mut i: usize = 0;
    proof {
        reveal(Seq::filter);
        assert(cs@.take(0).filter(p) =~= Seq::<char>::empty());
    }
    while i < cs.len()
        invariant
            i <= cs@.len(),
            cs@ == s@,
            p == alphanumeric(),
            out@ == cs@.take(i as int).filter(p),
        decreases cs.len() - i,
    {
        proof {
            assert(cs@.take(i + 1) =~= cs@.take(i as int).push(cs@[i as int]));
            cs@.take(i as int).lemma_filter_push(cs@[i as int], p);
        }
        if char_is_alphanumeric(cs[i]) {
            crate::text::push_char(&mut out, cs[i]);
        }
        i = i + 1;
    }
    assert(cs@.take(cs@.len() as int) =~= cs@);
    out
}

/// The steps of the template used for new skills: those of the first template of
/// category `general`, else the single step `Execute task`.
pub open spec fn general_steps(ts: Seq<(Seq<char>, Seq<char>, Seq<Seq<char>>)>) -> Seq<Seq<char>>
    decreases ts.len(),
{
    if ts.len() == 0 {
        seq!["Execute task"@]
    } else if ts[0].1 == "general"@ {
        ts[0].2
    } else {
        general_steps(ts.drop_first())
    }
}

/// The lesson recorded when `skill_name` is made from an experience that used `tools`,
/// following `steps`.
pub open spec fn creation_lesson(skill_name: Seq<char>, tools: Seq<Seq<char>>, steps: Seq<Seq<char>>) -> Seq<char> {
    "Skill '"@ + skill_name + "' created from experience. Tools: "@ + joined(tools, ", "@) + ", Steps: "@
        + joined(steps, " -> "@)
}

/// The tools the experiences used, in order, with repeats.
pub open spec fn tools_of(es: Seq<ExperienceView>) -> Seq<Seq<char>> {
    es.map_values(|e: ExperienceView| e.tools_used).flatten()
}

/// Tallies ranked by count, highest first.
pub open spec fn ranked(v: Seq<(Seq<char>, nat)>) -> bool {
    forall|a: int, b: int| 0 <= a < b < v.len() ==> (#[trigger] v[a]).1 >= (#[trigger] v[b]).1
}

/// The insight line about a tool and how often it was used.
pub open spec fn tool_line(e: (Seq<char>, nat)) -> Seq<char> {
    "Most used tool: "@ + e.0 + " ("@ + nat_decimal(e.1) + " times)"@
}

/// The tally sorted by count, highest first (ties keep their order).
pub fn rank_by_count(tally: Vec<(String, usize)>) -> (r: Vec<(String, usize)>)
    ensures
        ranked(tally_entries(r@)),
        tally_entries(r@).to_multiset() == tally_entries(tally@).to_multiset(),
        r@.len() == tally@.len(),
{
    let ghost tv = tally_entries(tally@);
    let mut rest = tally;
    let mut out: Vec<(String, usize)> = Vec::new();
    let ghost n = tv.len();
    proof {
        assert(tally_entries(rest@) =~= tv.skip(0));
        assert(tv.take(0) =~= Seq::<(Seq<char>, nat)>::empty());
        assert(tally_entries(out@) =~= Seq::<(Seq<char>, nat)>::empty());
    }
    while rest.len() > 0
        invariant
            n == tv.len(),
            out@.len() + rest@.len() == n,
            tally_entries(rest@) == tv.skip(out@.len() as int),
            ranked(tally_entries(out@)),
            tally_entries(out@).to_multiset() == tv.take(out@.len() as int).to_multiset(),
        decreases rest.len(),
    {
        let ghost i = out@.len() as int;
        let ghost ov = tally_entries(out@);
        let ghost before_rest = rest@;
        let x = rest.remove(0);
        let ghost xv = (x.0@, x.1 as nat);
        proof {
            assert(tally_entries(before_rest)[0] == tv.skip(i)[0]);
            assert(xv == tv[i]);
            assert forall|k: int| 0 <= k < rest@.len() implies #[trigger] tally_entries(rest@)[k] == tv.skip(i + 1)[k] by {
                assert(rest@[k] == before_rest[k + 1]);
                assert(tally_entries(before_rest)[k + 1] == tv.skip(i)[k + 1]);
            }
            assert(tally_entries(rest@) =~= tv.skip(i + 1));
        }
        let mut p: usize = 0;
        while p < out.len() && out[p].1 >= x.1
            invariant
                p <= out@.len(),
                ov == tally_entries(out@),
                xv.1 == x.1,
                forall|k: int| 0 <= k < p ==> (#[trigger] ov[k]).1 >= xv.1,
            decreases out.len() - p,
        {
            assert(ov[p as int].1 == out@[p as int].1);
            p = p + 1;
        }
        proof {
            assert forall|k: int| p <= k < ov.len() implies (#[trigger] ov[k]).1 < xv.1 by {
                assert(ov[p as int].1 == out@[p as int].1);
                assert(ov[p as int].1 < xv.1);
                if k > p {
                    assert(ov[p as int].1 >= ov[k].1);
                }
            }
        }
        out.insert(p, x);
        proof {
            let nv = tally_entries(out@);
            assert(nv =~= ov.insert(p as int, xv));
            assert forall|a: int, b: int| 0 <= a < b < nv.len() implies (#[trigger] nv[a]).1 >= (#[trigger] nv[b]).1 by {
                if a < p && b < p {
                    assert(nv[a] == ov[a] && nv[b] == ov[b]);
                } else if a < p && b == p {
                    assert(nv[a] == ov[a]);
                } else if a < p {
                    assert(nv[a] == ov[a] && nv[b] == ov[b - 1]);
                } else if a == p {
                    assert(nv[b] == ov[b - 1]);
                } else {
                    assert(nv[a] == ov[a - 1] && nv[b] == ov[b - 1]);
                }
            }
            assert(tv.take(i + 1) =~= tv.take(i).push(xv));
            assert(tv.take(i).push(xv) =~= tv.take(i).insert(i, xv));
        }
    }
    proof {
        assert(tv.take(n as int) =~= tv);
    }
    out
}

/// The experiences recorded, the skill templates, and the skills they feed.
pub struct LearningLoop {
    skills: SkillManager,
    experiences: Vec<LearningExperience>,
    skill_templates: Vec<SkillTemplate>,
}

fn template(name: &str, description: &str, category: &str, tools: Vec<String>, steps: Vec<String>, prompt: &str) -> (t: SkillTemplate)
    ensures
        template_view(t) == (name@, category@, string_views(steps@)),
{
    let mut prompts: Vec<String> = Vec::new();
    prompts.push(str_to_string(prompt));
    SkillTemplate {
        name: str_to_string(name),
        description: str_to_string(description),
        category: str_to_string(category),
        tools_required: tools,
        steps,
        prompts,
    }
}

fn strings2(a: &str, b: &str) -> (r: Vec<String>)
    ensures
        string_views(r@) == seq![a@, b@],
{
    let mut v: Vec<String> = Vec::new();
    v.push(str_to_string(a));
    v.push(str_to_string(b));
    assert(string_views(v@) =~= seq![a@, b@]);
    v
}

fn strings5(a: &str, b: &str, c: &str, d: &str, e: &str) -> (r: Vec<String>)
    ensures
        string_views(r@) == seq![a@, b@, c@, d@, e@],
{
    let mut v: Vec<String> = Vec::new();
    v.push(str_to_string(a));
    v.push(str_to_string(b));
    v.push(str_to_string(c));
    v.push(str_to_string(d));
    v.push(str_to_string(e));
    assert(string_views(v@) =~= seq![a@, b@, c@, d@, e@]);
    v
}

/// The templates a loop starts with: code review (devops) and data analysis (research).
pub open spec fn default_templates() -> Seq<(Seq<char>, Seq<char>, Seq<Seq<char>>)> {
    seq![
        ("code_review_template"@, "devops"@, seq![
            "Read the target file"@,
            "Analyze code structure and patterns"@,
            "Identify potential issues"@,
            "Generate review report"@,
            "Save review results"@,
        ]),
        ("data_analysis_template"@, "research"@, seq![
            "Load data file"@,
            "Clean and preprocess data"@,
            "Perform statistical analysis"@,
            "Generate visualizations"@,
            "Write analysis report"@,
        ]),
    ]
}

impl LearningLoop {
    /// The skills the loop makes skills in.
    pub closed spec fn skills_view(&self) -> Map<Seq<char>, crate::skills::SkillView> {
        self.skills.skills_view()
    }

    /// The experiences, in the order recorded.
    pub closed spec fn experiences_view(&self) -> Seq<ExperienceView> {
        experience_views(self.experiences@)
    }

    /// The templates: name, category and steps of each.
    pub closed spec fn templates_view(&self) -> Seq<(Seq<char>, Seq<char>, Seq<Seq<char>>)> {
        self.skill_templates@.map_values(|t: SkillTemplate| template_view(t))
    }

    /// The loop's invariant: that of its skills.
    pub closed spec fn wf(&self) -> bool {
        self.skills.wf()
    }

    /// A loop over `skills`, with no experiences and the default templates.
    pub fn new(skills: SkillManager) -> (r: Self)
        requires
            skills.wf(),
        ensures
            r.wf(),
            r.skills_view() == skills.skills_view(),
            r.experiences_view() == Seq::<ExperienceView>::empty(),
            r.templates_view() == default_templates(),
    {
        let mut templates: Vec<SkillTemplate> = Vec::new();
        templates.push(template(
            "code_review_template",
            "Automated code review skill template",
            "devops",
            strings2("file_read", "file_write"),
            strings5(
                "Read the target file",
                "Analyze code structure and patterns",
                "Identify potential issues",
                "Generate review report",
                "Save review results",
            ),
            "Please review the following code and provide feedback on: 1) Code quality 2) Potential bugs 3) Performance issues 4) Best practices",
        ));
        templates.push(template(
            "data_analysis_template",
            "Data analysis and visualization template",
            "research",
            strings2("file_read", "shell_exec"),
            strings5(
                "Load data file",
                "Clean and preprocess data",
                "Perform statistical analysis",
                "Generate visualizations",
                "Write analysis report",
            ),
            "Please analyze the following data and provide insights including: 1) Summary statistics 2) Trends 3) Anomalies 4) Recommendations",
        ));
        let r = LearningLoop { skills, experiences: Vec::new(), skill_templates: templates };
        assert(r.experiences_view() =~= Seq::<ExperienceView>::empty());
        assert(r.templates_view() =~= default_templates());
        r
    }

    /// Records an experience.
    pub fn record_experience(&mut self, experience: LearningExperience) -> (r: Result<(), AppError>)
        ensures
            r is Ok,
            final(self).experiences_view() == old(self).experiences_view().push(experience@),
            final(self).skills_view() == old(self).skills_view(),
            final(self).templates_view() == old(self).templates_view(),
            final(self).wf() == old(self).wf(),
    {
        let ghost ev = experience@;
        self.experiences.push(experience);
        assert(self.experiences_view() =~= old(self).experiences_view().push(ev));
        Ok(())
    }

    /// The lessons drawn from an experience, to be stored as a `learning` fact.
    pub fn analyze_experience(&self, experience: &LearningExperience) -> (r: Result<String, AppError>)
        ensures
            r matches Ok(s) && s@ == lessons_of(experience@),
    {
        let tools = join_strings(&experience.tools_used, ", ");
        let skills = join_strings(&experience.skills_used, ", ");
        let mut s = if experience.success {
            str_to_string("Successfully completed task: ")
        } else {
            str_to_string("Failed to complete task: ")
        };
        push_str(&mut s, experience.task_description.as_str());
        push_str(&mut s, "\nTools used: ");
        push_str(&mut s, tools.as_str());
        push_str(&mut s, "\nSkills used: ");
        push_str(&mut s, skills.as_str());
        if experience.success {
            push_str(&mut s, "\nKey takeaway: The approach worked well and can be reused.");
        } else {
            push_str(&mut s, "\nFeedback: ");
            push_str(&mut s, experience.feedback.as_str());
            push_str(&mut s, "\nKey takeaway: Need to improve the approach or use different tools.");
        }
        Ok(s)
    }

    fn template_steps(&self) -> (r: Vec<String>)
        ensures
            string_views(r@) == general_steps(self.templates_view()),
    {
        let ghost tv = self.templates_view();
        let mut i: usize = 0;
        assert(tv.skip(0) =~= tv);
        while i < self.skill_templates.len()
            invariant
                i <= self.skill_templates@.len(),
                tv == self.templates_view(),
                general_steps(tv) == general_steps(tv.skip(i as int)),
            decreases self.skill_templates.len() - i,
        {
            let t = &self.skill_templates[i];
            proof {
                assert(tv.skip(i as int)[0] == template_view(*t));
                assert(tv.skip(i as int).drop_first() =~= tv.skip(i + 1));
            }
            if str_eq(t.category.as_str(), "general") {
                return clone_strings(&t.steps);
            }
            i = i + 1;
        }
        let mut v: Vec<String> = Vec::new();
        v.push(str_to_string("Execute task"));
        assert(tv.skip(i as int) =~= Seq::<(Seq<char>, Seq<char>, Seq<Seq<char>>)>::empty());
        assert(string_views(v@) =~= seq!["Execute task"@]);
        v
    }

    /// Makes an installed, enabled skill `auto_<name>` from an experience (the name taken
    /// from its task), in category `auto_generated`, and returns it with the lesson to
    /// be stored as a `skill_creation` fact.
    pub fn create_skill_from_experience(&mut self, experience: &LearningExperience) -> (r: Result<(Skill, String), AppError>)
        requires
            old(self).wf(),
        ensures
            final(self).wf(),
            final(self).experiences_view() == old(self).experiences_view(),
            final(self).templates_view() == old(self).templates_view(),
            r is Ok,
            match r {
                Ok((s, lesson)) => s@ == custom_skill(
                        "auto_"@ + task_skill_name(experience@.task_description),
                        Some("Auto-generated skill from experience: "@ + experience@.task_description),
                        Some("auto_generated"@),
                        s@.created_at,
                        s@.config,
                    )
                    && final(self).skills_view() == old(self).skills_view().insert(s@.id, s@)
                    && lesson@ == creation_lesson(s@.name, experience@.tools_used, general_steps(old(self).templates_view())),
                Err(_) => false,
            },
    {
        let lower = to_lowercase(experience.task_description.as_str());
        let spaced = replace_chars(lower.as_str(), ' ', '_');
        let name = keep_alphanumeric(spaced.as_str());
        let steps = self.template_steps();
        let create = SkillCreate {
            name: concat3("auto_", name.as_str(), ""),
            description: Some(concat3("Auto-generated skill from experience: ", experience.task_description.as_str(), "")),
            category: Some(str_to_string("auto_generated")),
        };
        proof {
            reveal_strlit("");
        }
        let skill = match self.skills.add_custom_skill(create) {
            Ok(s) => s,
            Err(e) => return Err(e),
        };
        let tools = join_strings(&experience.tools_used, ", ");
        let step_text = join_strings(&steps, " -> ");
        let mut lesson = concat3("Skill '", skill.name.as_str(), "' created from experience. Tools: ");
        push_str(&mut lesson, tools.as_str());
        push_str(&mut lesson, ", Steps: ");
        push_str(&mut lesson, step_text.as_str());
        Ok((skill, lesson))
    }

    /// How many experiences succeeded, and how many there are.
    pub fn success_counts(&self) -> (r: (usize, usize))
        ensures
            r.0 == self.experiences_view().filter(|e: ExperienceView| e.success).len(),
            r.1 == self.experiences_view().len(),
    {
        let ghost ev = self.experiences_view();
        let ghost p = |e: ExperienceView| e.success;
        let mut n: usize = 0;
        let mut i: usize = 0;
        proof {
            reveal(Seq::filter);
            assert(ev.take(0).filter(p) =~= Seq::<ExperienceView>::empty());
        }
        while i < self.experiences.len()
            invariant
                i <= self.experiences@.len(),
                ev == self.experiences_view(),
                p == (|e: ExperienceView| e.success),
                n == ev.take(i as int).filter(p).len(),
                n <= i,
            decreases self.experiences.len() - i,
        {
            proof {
                assert(ev.take(i + 1) =~= ev.take(i as int).push(ev[i as int]));
                ev.take(i as int).lemma_filter_push(ev[i as int], p);
            }
            if self.experiences[i].success {
                n = n + 1;
            }
            i = i + 1;
        }
        assert(ev.take(ev.len() as int) =~= ev);
        (n, self.experiences.len())
    }

    fn all_tools(&self) -> (r: Vec<String>)
        ensures
            string_views(r@) == tools_of(self.experiences_view()),
    {
        let ghost ev = self.experiences_view();
        let mut out: Vec<String> = Vec::new();
        let mut i: usize = 0;
        proof {
            assert(ev.take(0).map_values(|e: ExperienceView| e.tools_used) =~= Seq::<Seq<Seq<char>>>::empty());
            assert(string_views(out@) =~= Seq::<Seq<char>>::empty());
        }
        while i < self.experiences.len()
            invariant
                i <= self.experiences@.len(),
                ev == self.experiences_view(),
                string_views(out@) == tools_of(ev.take(i as int)),
            decreases self.experiences.len() - i,
        {
            let ghost before = string_views(out@);
            let ts = &self.experiences[i].tools_used;
            let mut j: usize = 0;
            while j < ts.len()
                invariant
                    j <= ts@.len(),
                    string_views(out@) == before + string_views(ts@).take(j as int),
                decreases ts.len() - j,
            {
                let ghost b2 = string_views(out@);
                out.push(ts[j].clone());
                proof {
                    assert(string_views(out@) =~= b2.push(ts@[j as int]@));
                    assert(string_views(ts@).take(j + 1) =~= string_views(ts@).take(j as int).push(ts@[j as int]@));
                }
                j = j + 1;
            }
            proof {
                assert(string_views(ts@).take(ts@.len() as int) =~= string_views(ts@));
                let ms = ev.take(i as int).map_values(|e: ExperienceView| e.tools_used);
                assert(ev.take(i + 1).map_values(|e: ExperienceView| e.tools_used) =~= ms.push(ev[i as int].tools_used));
                ms.lemma_flatten_push(ev[i as int].tools_used);
                assert(ev[i as int].tools_used == string_views(ts@));
            }
            i = i + 1;
        }
        assert(ev.take(ev.len() as int) =~= ev);
        out
    }

    /// The insights: how many experiences there are, the success rate (the percentage,
    /// formatted by the caller, given as `success_rate`), and the five most used tools
    /// with their counts, most used first.
    pub fn get_learning_insights(&self, success_rate: &str) -> (r: Result<Vec<String>, AppError>)
        ensures
            r matches Ok(lines) && exists|tally: Seq<(Seq<char>, nat)>, order: Seq<(Seq<char>, nat)>|
                #[trigger] unique_keys(tally) && map_of(tally) == occurrences(tools_of(self.experiences_view()))
                && #[trigger] ranked(order) && order.to_multiset() == tally.to_multiset()
                && string_views(lines@) == seq![
                    "Total experiences: "@ + nat_decimal(self.experiences_view().len()),
                    "Success rate: "@ + success_rate@ + "%"@,
                ] + order.take(if order.len() < 5 { order.len() as int } else { 5 }).map_values(|e: (Seq<char>, nat)| tool_line(e)),
    {
        let mut lines: Vec<String> = Vec::new();
        let mut total = str_to_string("Total experiences: ");
        push_u64_decimal(&mut total, self.experiences.len() as u64);
        lines.push(total);
        let rate = concat3("Success rate: ", success_rate, "%");
        lines.push(rate);
        let tools = self.all_tools();
        let tally = count_occurrences(&tools);
        let ghost tv = tally_entries(tally@);
        let order = rank_by_count(tally);
        let ghost ov = tally_entries(order@);
        let limit: usize = if order.len() < 5 { order.len() } else { 5 };
        let ghost head = string_views(lines@);
        let mut k: usize = 0;
        while k < limit
            invariant
                k <= limit,
                limit <= order@.len(),
                ov == tally_entries(order@),
                string_views(lines@) == head + ov.take(k as int).map_values(|e: (Seq<char>, nat)| tool_line(e)),
            decreases limit - k,
        {
            let ghost before = string_views(lines@);
            let mut line = concat3("Most used tool: ", order[k].0.as_str(), " (");
            push_u64_decimal(&mut line, order[k].1 as u64);
            push_str(&mut line, " times)");
            lines.push(line);
            proof {
                assert(ov[k as int] == (order@[k as int].0@, order@[k as int].1 as nat));
                assert(string_views(lines@) =~= before.push(tool_line(ov[k as int])));
                assert(ov.take(k + 1).map_values(|e: (Seq<char>, nat)| tool_line(e))
                    =~= ov.take(k as int).map_values(|e: (Seq<char>, nat)| tool_line(e)).push(tool_line(ov[k as int])));
            }
            k = k + 1;
        }
        proof {
            assert(head =~= seq![
                "Total experiences: "@ + nat_decimal(self.experiences_view().len()),
                "Success rate: "@ + success_rate@ + "%"@,
            ]);
            assert(unique_keys(tv) && ranked(ov));
        }
        Ok(lines)
    }

    /// The suggestions drawn from the latest `learning` facts (their texts, newest first,
    /// as the caller read them): a review of each of the first ten that mentions a
    /// failure, or that nothing needs improving.
    pub fn suggest_skill_improvements(&self, facts: &Vec<String>) -> (r: Result<Vec<String>, AppError>)
        ensures
            r matches Ok(s) && string_views(s@) == suggestions_from(string_views(facts@)),
    {
        suggest_from_facts(facts)
    }

    /// The experiences, in the order recorded.
    pub fn get_experiences(&self) -> (r: Vec<LearningExperience>)
        ensures
            experience_views(r@) == self.experiences_view(),
    {
        let mut out: Vec<LearningExperience> = Vec::new();
        let mut i: usize = 0;
        while i < self.experiences.len()
            invariant
                i <= self.experiences@.len(),
                experience_views(out@) == self.experiences_view().take(i as int),
            decreases self.experiences.len() - i,
        {
            let ghost before = out@;
            out.push(self.experiences[i].duplicate());
            proof {
                assert(experience_views(out@) =~= experience_views(before).push(self.experiences@[i as int]@));
                assert(self.experiences_view().take(i + 1) =~= self.experiences_view().take(i as int).push(self.experiences@[i as int]@));
            }
            i = i + 1;
        }
        assert(self.experiences_view().take(self.experiences@.len() as int) =~= self.experiences_view());
        out
    }
}

/// A fact that mentions a failure.
pub open spec fn mentions_failure(f: Seq<char>) -> bool {
    crate::text::seq_contains(f, "Failed"@) || crate::text::seq_contains(f, "failed"@)
}

/// The suggestion for reviewing a failed experience.
pub open spec fn review_line(f: Seq<char>) -> Seq<char> {
    "Review failed experience: "@ + f
}

/// The suggestions drawn from facts: a review of each of the first ten that mentions a
/// failure, or, when there is none, that nothing needs improving.
pub open spec fn suggestions_from(facts: Seq<Seq<char>>) -> Seq<Seq<char>> {
    let first = facts.take(if facts.len() < 10 { facts.len() as int } else { 10 });
    let reviews = first.filter(|f: Seq<char>| mentions_failure(f)).map_values(|f: Seq<char>| review_line(f));
    if reviews.len() == 0 {
        seq!["No improvements needed based on current learning data"@]
    } else {
        reviews
    }
}

fn suggest_from_facts(facts: &Vec<String>) -> (r: Result<Vec<String>, AppError>)
    ensures
        r matches Ok(s) && string_views(s@) == suggestions_from(string_views(facts@)),
{
    let ghost fv = string_views(facts@);
    let limit: usize = if facts.len() < 10 { facts.len() } else { 10 };
    let ghost first = fv.take(limit as int);
    let ghost p = |f: Seq<char>| mentions_failure(f);
    let mut out: Vec<String> = Vec::new();
    let mut i: usize = 0;
    proof {
        reveal(Seq::filter);
        assert(first.take(0).filter(p) =~= Seq::<Seq<char>>::empty());
        assert(string_views(out@) =~= Seq::<Seq<char>>::empty());
    }
    while i < limit
        invariant
            i <= limit,
            limit <= facts@.len(),
            fv == string_views(facts@),
            first == fv.take(limit as int),
            p == (|f: Seq<char>| mentions_failure(f)),
            string_views(out@) == first.take(i as int).filter(p).map_values(|f: Seq<char>| review_line(f)),
        decreases limit - i,
    {
        let ghost before = string_views(out@);
        proof {
            assert(first[i as int] == facts@[i as int]@);
            assert(first.take(i + 1) =~= first.take(i as int).push(first[i as int]));
            first.take(i as int).lemma_filter_push(first[i as int], p);
        }
        let f = facts[i].as_str();
        if crate::text::str_contains(f, "Failed") || crate::text::str_contains(f, "failed") {
            out.push(concat3("Review failed experience: ", f, ""));
            proof {
                reveal_strlit("");
                assert(string_views(out@) =~= before.push(review_line(first[i as int])));
            }
        }
        i = i + 1;
    }
    assert(first.take(limit as int) =~= first);
    if out.len() == 0 {
        out.push(str_to_string("No improvements needed based on current learning data"));
        assert(string_views(out@) =~= seq!["No improvements needed based on current learning data"@]);
    }
    Ok(out)
}

} // verus!
