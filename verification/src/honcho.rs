//! User modelling: the settings of the modeller and the decisions it makes about a user
//! from what they write: the stages of a dialectic (thesis, antithesis, synthesis), the
//! style they communicate in, their goals, and the limit on recorded interactions. The
//! scores the modeller keeps (sentiment, complexity, engagement, learning progress) are
//! floating-point and are kept outside the library.

use vstd::prelude::*;
use crate::error::AppError;
use crate::text::{
    lowercase, seq_contains, str_contains, str_eq, str_to_string, string_views, strings_contain,
    to_lowercase, utf8_len, concat3, push_str,
};
use crate::sentences::utf8_byte_len;
use crate::keyed::{map_of, unique_keys};
use crate::learning::{rank_by_count, ranked};
use crate::text::{chars_of, count_occurrences, distinct_strings, occurrences, split_kept, split_text, tally_entries};

verus! {

/// What the modeller tracks and how much it keeps.
#[derive(Debug, Clone)]
pub struct HonchoConfig {
    pub max_interactions_per_user: usize,
    pub enable_dialectical_analysis: bool,
    pub enable_sentiment_tracking: bool,
    pub enable_learning_progress: bool,
    pub personality_dimensions: Vec<String>,
    pub knowledge_domains: Vec<String>,
}

impl Default for HonchoConfig {
    fn default() -> (r: Self)
        ensures
            r.max_interactions_per_user == 10000,
            r.enable_dialectical_analysis,
            r.enable_sentiment_tracking,
            r.enable_learning_progress,
            string_views(r.personality_dimensions@) == seq![
                "openness"@,
                "conscientiousness"@,
                "extraversion"@,
                "agreeableness"@,
                "neuroticism"@,
            ],
            string_views(r.knowledge_domains@) == seq![
                "technical"@,
                "creative"@,
                "analytical"@,
                "social"@,
            ],
    {
        let personality_dimensions = vec![
            str_to_string("openness"),
            str_to_string("conscientiousness"),
            str_to_string("extraversion"),
            str_to_string("agreeableness"),
            str_to_string("neuroticism"),
        ];
        let knowledge_domains = vec![
            str_to_string("technical"),
            str_to_string("creative"),
            str_to_string("analytical"),
            str_to_string("social"),
        ];
        assert(string_views(personality_dimensions@) =~= seq![
            "openness"@,
            "conscientiousness"@,
            "extraversion"@,
            "agreeableness"@,
            "neuroticism"@,
        ]);
        assert(string_views(knowledge_domains@) =~= seq![
            "technical"@,
            "creative"@,
            "analytical"@,
            "social"@,
        ]);
        HonchoConfig {
            max_interactions_per_user: 10000,
            enable_dialectical_analysis: true,
            enable_sentiment_tracking: true,
            enable_learning_progress: true,
            personality_dimensions,
            knowledge_domains,
        }
    }
}

/// Where a user's reasoning stands: a first position, its opposite, and the synthesis
/// of both, each filled once in that order.
#[derive(Debug, Clone)]
pub struct DialecticalState {
    pub user_id: String,
    pub thesis: String,
    pub antithesis: String,
    pub synthesis: String,
    pub current_position: String,
    pub cognitive_biases: Vec<String>,
    pub emotional_state: String,
    pub last_updated: i64,
}

/// The text positions of a dialectical state: thesis, antithesis, synthesis, current
/// position.
pub struct DialecticView {
    pub thesis: Seq<char>,
    pub antithesis: Seq<char>,
    pub synthesis: Seq<char>,
    pub current_position: Seq<char>,
}

impl DialecticalState {
    /// The state's positions.
    pub open spec fn positions(&self) -> DialecticView {
        DialecticView {
            thesis: self.thesis@,
            antithesis: self.antithesis@,
            synthesis: self.synthesis@,
            current_position: self.current_position@,
        }
    }

    /// The state of a new user: no positions, a neutral emotional state.
    pub fn initial(user_id: &str, now: i64) -> (r: Self)
        ensures
            r.user_id@ == user_id@,
            r.thesis@.len() == 0,
            r.antithesis@.len() == 0,
            r.synthesis@.len() == 0,
            r.current_position@.len() == 0,
            r.cognitive_biases@.len() == 0,
            r.emotional_state@ == "neutral"@,
            r.last_updated == now,
    {
        DialecticalState {
            user_id: str_to_string(user_id),
            thesis: String::new(),
            antithesis: String::new(),
            synthesis: String::new(),
            current_position: String::new(),
            cognitive_biases: Vec::new(),
            emotional_state: str_to_string("neutral"),
            last_updated: now,
        }
    }
}

/// The synthesis of a thesis and an antithesis.
pub open spec fn synthesis_text(thesis: Seq<char>, antithesis: Seq<char>) -> Seq<char> {
    "Synthesis of: "@ + thesis + " and "@ + antithesis
}

/// The positions after the user says `input`: the first input becomes the thesis; the
/// next one that differs from it, the antithesis; the input after that fills the
/// synthesis of the two, which becomes the current position. Later inputs change nothing.
pub open spec fn next_positions(d: DialecticView, input: Seq<char>) -> DialecticView {
    if d.thesis.len() == 0 {
        DialecticView { thesis: input, ..d }
    } else if d.antithesis.len() == 0 && input != d.thesis {
        DialecticView { antithesis: input, ..d }
    } else if d.antithesis.len() != 0 && d.synthesis.len() == 0 {
        let s = synthesis_text(d.thesis, d.antithesis);
        DialecticView { synthesis: s, current_position: s, ..d }
    } else {
        d
    }
}

/// Moves the dialectic on by what the user said, at time `now`.
pub fn advance_dialectic(state: &mut DialecticalState, input: &str, now: i64)
    ensures
        final(state).positions() == next_positions(old(state).positions(), input@),
        final(state).user_id == old(state).user_id,
        final(state).cognitive_biases == old(state).cognitive_biases,
        final(state).emotional_state == old(state).emotional_state,
        final(state).last_updated == now,
{
    if state.thesis.as_str().is_empty() {
        state.thesis = str_to_string(input);
    } else if state.antithesis.as_str().is_empty() && !str_eq(input, state.thesis.as_str()) {
        state.antithesis = str_to_string(input);
    } else if !state.antithesis.as_str().is_empty() && state.synthesis.as_str().is_empty() {
        let mut s = concat3("Synthesis of: ", state.thesis.as_str(), " and ");
        push_str(&mut s, state.antithesis.as_str());
        state.current_position = s.clone();
        state.synthesis = s;
    }
    state.last_updated = now;
}

/// Each position, once filled, is kept: the dialectic only ever fills empty positions.
pub proof fn law_positions_are_kept(d: DialecticView, input: Seq<char>)
    ensures
        d.thesis.len() != 0 ==> next_positions(d, input).thesis == d.thesis,
        d.antithesis.len() != 0 ==> next_positions(d, input).antithesis == d.antithesis,
        d.synthesis.len() != 0 ==> next_positions(d, input).synthesis == d.synthesis,
{
}

/// The style a user communicates in after writing `input`: polite when the lower-cased
/// text holds "please" or "thank", else inquisitive when it holds a `?`, else detailed
/// when it is longer than 200 bytes; otherwise the style stays `current`.
pub open spec fn style_after(input: Seq<char>, current: Seq<char>) -> Seq<char> {
    if seq_contains(lowercase(input), "please"@) || seq_contains(lowercase(input), "thank"@) {
        "polite"@
    } else if seq_contains(input, "?"@) {
        "inquisitive"@
    } else if utf8_len(input) > 200 {
        "detailed"@
    } else {
        current
    }
}

/// The communication style a user has after writing `input`, given their style so far.
pub fn communication_style(input: &str, current: &str) -> (r: String)
    ensures
        r@ == style_after(input@, current@),
{
    let lower = to_lowercase(input);
    if str_contains(lower.as_str(), "please") || str_contains(lower.as_str(), "thank") {
        str_to_string("polite")
    } else if str_contains(input, "?") {
        str_to_string("inquisitive")
    } else if utf8_byte_len(input) > 200 {
        str_to_string("detailed")
    } else {
        str_to_string(current)
    }
}

/// A user's goals after adding `goal`: unchanged when it is already among them, else
/// with it at the end.
pub open spec fn goals_after(goals: Seq<Seq<char>>, goal: Seq<char>) -> Seq<Seq<char>> {
    if goals.contains(goal) {
        goals
    } else {
        goals.push(goal)
    }
}

/// Adds a goal to a user's goals unless it is already among them.
pub fn add_goal(goals: &mut Vec<String>, goal: String)
    ensures
        string_views(final(goals)@) == goals_after(string_views(old(goals)@), goal@),
{
    if !strings_contain(goals, goal.as_str()) {
        goals.push(goal);
        proof {
            assert(string_views(goals@) =~= string_views(old(goals)@).push(goal@));
        }
    }
}

/// Adding the same goal a second time changes nothing, and after adding a goal it is
/// among the user's goals.
pub proof fn law_goal_added_once(goals: Seq<Seq<char>>, goal: Seq<char>)
    ensures
        goals_after(goals_after(goals, goal), goal) == goals_after(goals, goal),
        goals_after(goals, goal).contains(goal),
{
    if !goals.contains(goal) {
        assert(goals.push(goal)[goals.len() as int] == goal);
    }
}

/// The error when a user already has `max` recorded interactions, if they have.
pub fn check_interaction_limit(recorded: usize, max: usize) -> (r: Result<(), AppError>)
    ensures
        recorded < max <==> r is Ok,
        r is Err ==> r->Err_0 == AppError::Internal(r->Err_0->Internal_0)
            && r->Err_0->Internal_0@ == "Maximum interaction limit reached"@,
{
    if recorded >= max {
        Err(AppError::Internal(str_to_string("Maximum interaction limit reached")))
    } else {
        Ok(())
    }
}

/// The error for a user the modeller does not know: "User <id> not found".
pub fn user_not_found(user_id: &str) -> (r: AppError)
    ensures
        r is NotFound,
        r->NotFound_0@ == "User "@ + user_id@ + " not found"@,
{
    AppError::NotFound(concat3("User ", user_id, " not found"))
}

// ----- What the scores are made from -----

/// The words that count as positive.
pub open spec fn positive_words() -> Seq<Seq<char>> {
    seq!["good"@, "great"@, "excellent"@, "happy"@, "love"@, "thanks"@, "perfect"@, "wonderful"@]
}

/// The words that count as negative.
pub open spec fn negative_words() -> Seq<Seq<char>> {
    seq!["bad"@, "terrible"@, "awful"@, "hate"@, "angry"@, "worst"@, "horrible"@, "disappointing"@]
}

/// The words `text` holds (as parts of it), counted once each.
pub open spec fn word_hits(words: Seq<Seq<char>>, text: Seq<char>) -> nat
    decreases words.len(),
{
    if words.len() == 0 {
        0
    } else {
        word_hits(words.drop_last(), text) + if seq_contains(text, words.last()) { 1nat } else { 0nat }
    }
}

fn count_hits(words: &Vec<String>, text: &str) -> (n: u64)
    requires
        words@.len() < 100,
    ensures
        n == word_hits(string_views(words@), text@),
{
    let ghost wv = string_views(words@);
    let mut n: u64 = 0;
    let mut i: usize = 0;
    while i < words.len()
        invariant
            i <= words@.len() < 100,
            wv == string_views(words@),
            n == word_hits(wv.take(i as int), text@),
            n <= i,
        decreases words.len() - i,
    {
        proof {
            assert(wv.take(i + 1).drop_last() =~= wv.take(i as int));
            assert(wv.take(i + 1).last() == words@[i as int]@);
        }
        if str_contains(text, words[i].as_str()) {
            n = n + 1;
        }
        i = i + 1;
    }
    assert(wv.take(words@.len() as int) =~= wv);
    n
}

/// How many positive and how many negative words the lower-cased `input` holds: the
/// sentiment of an interaction is their difference over their sum.
pub fn sentiment_hits(input: &str) -> (r: (u64, u64))
    ensures
        r.0 == word_hits(positive_words(), lowercase(input@)),
        r.1 == word_hits(negative_words(), lowercase(input@)),
{
    let lower = to_lowercase(input);
    let pos = vec![
        str_to_string("good"), str_to_string("great"), str_to_string("excellent"), str_to_string("happy"),
        str_to_string("love"), str_to_string("thanks"), str_to_string("perfect"), str_to_string("wonderful"),
    ];
    let neg = vec![
        str_to_string("bad"), str_to_string("terrible"), str_to_string("awful"), str_to_string("hate"),
        str_to_string("angry"), str_to_string("worst"), str_to_string("horrible"), str_to_string("disappointing"),
    ];
    assert(string_views(pos@) =~= positive_words());
    assert(string_views(neg@) =~= negative_words());
    (count_hits(&pos, lower.as_str()), count_hits(&neg, lower.as_str()))
}

/// The number of whitespace-separated words of `input`, and how many of them differ: the
/// complexity of an interaction is made from their ratio and the word count.
pub fn word_counts(input: &str) -> (r: (usize, usize))
    ensures
        r.0 == split_kept(input@, false, 0).len(),
        r.1 == split_kept(input@, false, 0).to_set().len(),
{
    let cs = chars_of(input);
    let words = split_text(&cs, false, 0);
    let distinct = distinct_strings(&words);
    proof {
        string_views(distinct@).unique_seq_to_set();
    }
    (words.len(), distinct.len())
}

/// The topics of some interactions ranked by how often they occur, most frequent first,
/// at most five: the first five of a ranking of the tally of their occurrences.
pub fn top_topics(topics: &Vec<String>) -> (r: Vec<String>)
    ensures
        exists|tally: Seq<(Seq<char>, nat)>, ranking: Seq<(Seq<char>, nat)>|
            #![trigger unique_keys(tally), ranked(ranking)]
            {
                &&& unique_keys(tally)
                &&& map_of(tally) == occurrences(string_views(topics@))
                &&& ranked(ranking)
                &&& ranking.to_multiset() == tally.to_multiset()
                &&& string_views(r@) == ranking.take(if ranking.len() < 5 { ranking.len() as int } else { 5 }).map_values(
                    |e: (Seq<char>, nat)| e.0,
                )
            },
{
    let tally = count_occurrences(topics);
    let ghost tv = tally_entries(tally@);
    let ranking = rank_by_count(tally);
    let n: usize = if ranking.len() < 5 { ranking.len() } else { 5 };
    let ghost rv = tally_entries(ranking@);
    let mut out: Vec<String> = Vec::new();
    let mut i: usize = 0;
    while i < n
        invariant
            i <= n <= ranking@.len(),
            rv == tally_entries(ranking@),
            string_views(out@) == rv.take(i as int).map_values(|e: (Seq<char>, nat)| e.0),
        decreases n - i,
    {
        let ghost before = string_views(out@);
        out.push(ranking[i].0.clone());
        proof {
            assert(string_views(out@) =~= before.push(rv[i as int].0));
            assert(rv.take(i + 1).map_values(|e: (Seq<char>, nat)| e.0) =~= rv.take(i as int).map_values(|e: (Seq<char>, nat)| e.0).push(rv[i as int].0));
        }
        i = i + 1;
    }
    assert(unique_keys(tv) && ranked(rv));
    out
}

} // verus!
