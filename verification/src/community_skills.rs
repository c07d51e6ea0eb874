//! A community skill centre: published skills with per-author limits, search, reviews
//! that keep each skill's rating, downloads and statistics.

use vstd::prelude::*;
use crate::audit::{field_passes, filter_value, lookup_filter, pair_views};
use crate::clock::{new_uuid, now_timestamp, MAX_TIMESTAMP};
use crate::error::AppError;
use crate::fts_search::{filter_pairs, tag_passes};
use crate::keyed::{count_where, field_values, lemma_count_where, lemma_field_count, map_of, restrict_where, unique_keys, value_pred};
use crate::rbac::lists_map;
use crate::store::{filter_pred, latest_first, record_entries, record_views, Dated, Everything, Record, RecordFilter, Store};
use crate::text::{
    clone_strings, concat3, count_occurrences, eq_to, lowercase, nat_decimal, push_str, push_u64_decimal, seq_contains,
    seq_lt, sorted_distinct, str_contains, str_eq, str_to_string, strictly_sorted, string_views, strings_contain,
    tally_entries, to_lowercase,
};

verus! {

/// A skill shared with the community. Its average rating is `rating_total` divided by
/// `rating_count` (a floating-point quotient formed outside the library).
#[derive(Debug)]
pub struct CommunitySkill {
    pub id: String,
    pub name: String,
    pub description: String,
    pub version: String,
    pub author: String,
    pub category: String,
    pub tags: Vec<String>,
    pub code: String,
    pub dependencies: Vec<String>,
    pub readme: String,
    pub license: String,
    pub created_at: i64,
    pub updated_at: i64,
    pub downloads: u64,
    pub rating_total: u128,
    pub rating_count: u64,
    pub is_published: bool,
}

/// The value of a skill.
pub struct SkillView {
    pub id: Seq<char>,
    pub name: Seq<char>,
    pub description: Seq<char>,
    pub version: Seq<char>,
    pub author: Seq<char>,
    pub category: Seq<char>,
    pub tags: Seq<Seq<char>>,
    pub code: Seq<char>,
    pub dependencies: Seq<Seq<char>>,
    pub readme: Seq<char>,
    pub license: Seq<char>,
    pub created_at: i64,
    pub updated_at: i64,
    pub downloads: u64,
    pub rating_total: u128,
    pub rating_count: u64,
    pub is_published: bool,
}

impl View for CommunitySkill {
    type V = SkillView;

    open spec fn view(&self) -> SkillView {
        SkillView {
            id: self.id@,
            name: self.name@,
            description: self.description@,
            version: self.version@,
            author: self.author@,
            category: self.category@,
            tags: string_views(self.tags@),
            code: self.code@,
            dependencies: string_views(self.dependencies@),
            readme: self.readme@,
            license: self.license@,
            created_at: self.created_at,
            updated_at: self.updated_at,
            downloads: self.downloads,
            rating_total: self.rating_total,
            rating_count: self.rating_count,
            is_published: self.is_published,
        }
    }
}

impl Record for CommunitySkill {
    open spec fn key_of(v: SkillView) -> Seq<char> {
        v.id
    }

    fn key(&self) -> (r: &str) {
        self.id.as_str()
    }

    fn duplicate(&self) -> (r: Self) {
        CommunitySkill {
            id: self.id.clone(),
            name: self.name.clone(),
            description: self.description.clone(),
            version: self.version.clone(),
            author: self.author.clone(),
            category: self.category.clone(),
            tags: clone_strings(&self.tags),
            code: self.code.clone(),
            dependencies: clone_strings(&self.dependencies),
            readme: self.readme.clone(),
            license: self.license.clone(),
            created_at: self.created_at,
            updated_at: self.updated_at,
            downloads: self.downloads,
            rating_total: self.rating_total,
            rating_count: self.rating_count,
            is_published: self.is_published,
        }
    }
}

impl Dated for CommunitySkill {
    open spec fn date_of(v: SkillView) -> int {
        v.downloads as int
    }

    fn date(&self) -> (d: i128) {
        self.downloads as i128
    }
}

/// A review of a skill.
#[derive(Debug)]
pub struct SkillReview {
    pub id: String,
    pub skill_id: String,
    pub user_id: String,
    pub rating: u8,
    pub comment: String,
    pub created_at: i64,
}

/// The value of a review.
pub struct ReviewView {
    pub id: Seq<char>,
    pub skill_id: Seq<char>,
    pub user_id: Seq<char>,
    pub rating: u8,
    pub comment: Seq<char>,
    pub created_at: i64,
}

impl View for SkillReview {
    type V = ReviewView;

    open spec fn view(&self) -> ReviewView {
        ReviewView {
            id: self.id@,
            skill_id: self.skill_id@,
            user_id: self.user_id@,
            rating: self.rating,
            comment: self.comment@,
            created_at: self.created_at,
        }
    }
}

impl SkillReview {
    /// A copy of the review.
    pub fn duplicate(&self) -> (r: Self)
        ensures
            r@ == self@,
    {
        SkillReview {
            id: self.id.clone(),
            skill_id: self.skill_id.clone(),
            user_id: self.user_id.clone(),
            rating: self.rating,
            comment: self.comment.clone(),
            created_at: self.created_at,
        }
    }
}

/// A download of a skill.
#[derive(Debug)]
pub struct SkillDownload {
    pub id: String,
    pub skill_id: String,
    pub user_id: String,
    pub downloaded_at: i64,
}

/// The value of a download.
pub struct DownloadView {
    pub id: Seq<char>,
    pub skill_id: Seq<char>,
    pub user_id: Seq<char>,
    pub downloaded_at: i64,
}

impl View for SkillDownload {
    type V = DownloadView;

    open spec fn view(&self) -> DownloadView {
        DownloadView { id: self.id@, skill_id: self.skill_id@, user_id: self.user_id@, downloaded_at: self.downloaded_at }
    }
}

/// The views of some reviews.
pub open spec fn review_views(v: Seq<SkillReview>) -> Seq<ReviewView> {
    v.map_values(|r: SkillReview| r@)
}

/// The views of some downloads.
pub open spec fn download_views(v: Seq<SkillDownload>) -> Seq<DownloadView> {
    v.map_values(|d: SkillDownload| d@)
}

fn clone_reviews(v: &Vec<SkillReview>) -> (r: Vec<SkillReview>)
    ensures
        review_views(r@) == review_views(v@),
{
    let mut out: Vec<SkillReview> = Vec::new();
    let mut i: usize = 0;
    while i < v.len()
        invariant
            i <= v@.len(),
            review_views(out@) == review_views(v@).take(i as int),
        decreases v.len() - i,
    {
        let ghost before = out@;
        out.push(v[i].duplicate());
        proof {
            assert(review_views(out@) =~= review_views(before).push(v@[i as int]@));
            assert(review_views(v@).take(i + 1) =~= review_views(v@).take(i as int).push(v@[i as int]@));
        }
        i = i + 1;
    }
    assert(review_views(v@).take(v@.len() as int) =~= review_views(v@));
    out
}

fn clone_downloads(v: &Vec<SkillDownload>) -> (r: Vec<SkillDownload>)
    ensures
        download_views(r@) == download_views(v@),
{
    let mut out: Vec<SkillDownload> = Vec::new();
    let mut i: usize = 0;
    while i < v.len()
        invariant
            i <= v@.len(),
            download_views(out@) == download_views(v@).take(i as int),
        decreases v.len() - i,
    {
        let ghost before = out@;
        let d = &v[i];
        out.push(SkillDownload { id: d.id.clone(), skill_id: d.skill_id.clone(), user_id: d.user_id.clone(), downloaded_at: d.downloaded_at });
        proof {
            assert(download_views(out@) =~= download_views(before).push(v@[i as int]@));
            assert(download_views(v@).take(i + 1) =~= download_views(v@).take(i as int).push(v@[i as int]@));
        }
        i = i + 1;
    }
    assert(download_views(v@).take(v@.len() as int) =~= download_views(v@));
    out
}

/// The reviews of one skill, in the order they came.
pub struct ReviewList {
    pub skill_id: String,
    pub items: Vec<SkillReview>,
}

impl View for ReviewList {
    type V = (Seq<char>, Seq<ReviewView>);

    open spec fn view(&self) -> (Seq<char>, Seq<ReviewView>) {
        (self.skill_id@, review_views(self.items@))
    }
}

impl Record for ReviewList {
    open spec fn key_of(v: (Seq<char>, Seq<ReviewView>)) -> Seq<char> {
        v.0
    }

    fn key(&self) -> (r: &str) {
        self.skill_id.as_str()
    }

    fn duplicate(&self) -> (r: Self) {
        ReviewList { skill_id: self.skill_id.clone(), items: clone_reviews(&self.items) }
    }
}

/// The downloads of one skill, in the order they came.
pub struct DownloadList {
    pub skill_id: String,
    pub items: Vec<SkillDownload>,
}

impl View for DownloadList {
    type V = (Seq<char>, Seq<DownloadView>);

    open spec fn view(&self) -> (Seq<char>, Seq<DownloadView>) {
        (self.skill_id@, download_views(self.items@))
    }
}

impl Record for DownloadList {
    open spec fn key_of(v: (Seq<char>, Seq<DownloadView>)) -> Seq<char> {
        v.0
    }

    fn key(&self) -> (r: &str) {
        self.skill_id.as_str()
    }

    fn duplicate(&self) -> (r: Self) {
        DownloadList { skill_id: self.skill_id.clone(), items: clone_downloads(&self.items) }
    }
}

/// The ids of the skills one user published, in order.
pub struct UserSkillList {
    pub user_id: String,
    pub skill_ids: Vec<String>,
}

impl View for UserSkillList {
    type V = (Seq<char>, Seq<Seq<char>>);

    open spec fn view(&self) -> (Seq<char>, Seq<Seq<char>>) {
        (self.user_id@, string_views(self.skill_ids@))
    }
}

impl Record for UserSkillList {
    open spec fn key_of(v: (Seq<char>, Seq<Seq<char>>)) -> Seq<char> {
        v.0
    }

    fn key(&self) -> (r: &str) {
        self.user_id.as_str()
    }

    fn duplicate(&self) -> (r: Self) {
        UserSkillList { user_id: self.user_id.clone(), skill_ids: clone_strings(&self.skill_ids) }
    }
}

/// How the centre is run.
#[derive(Debug, Clone, Copy)]
pub struct CommunitySkillConfig {
    pub max_skills_per_user: usize,
    pub enable_reviews: bool,
    pub enable_ratings: bool,
    pub require_approval: bool,
}

impl Default for CommunitySkillConfig {
    fn default() -> (r: Self)
        ensures
            r.max_skills_per_user == 50,
            r.enable_reviews,
            r.enable_ratings,
            !r.require_approval,
    {
        CommunitySkillConfig { max_skills_per_user: 50, enable_reviews: true, enable_ratings: true, require_approval: false }
    }
}

/// Counts over the centre.
#[derive(Debug)]
pub struct CommunitySkillStats {
    pub total_skills: usize,
    pub published_skills: usize,
    pub total_downloads: u64,
    pub total_reviews: usize,
    pub categories: Vec<(String, usize)>,
}

/// A search text matches a skill whose lower-cased name, description or one of whose
/// lower-cased tags contains the lower-cased search text.
pub open spec fn search_matches(search: Option<Seq<char>>, v: SkillView) -> bool {
    match search {
        Some(q) => {
            let ql = lowercase(q);
            seq_contains(lowercase(v.name), ql) || seq_contains(lowercase(v.description), ql)
                || exists|k: int| 0 <= k < v.tags.len() && seq_contains(lowercase(#[trigger] v.tags[k]), ql)
        },
        None => true,
    }
}

/// The skills a listing shows: published ones that pass the `category`, `author`,
/// `tag` and `search` filters.
pub open spec fn listed(f: Seq<(Seq<char>, Seq<char>)>) -> spec_fn(SkillView) -> bool {
    |v: SkillView|
        v.is_published
        && field_passes(filter_value(f, "category"@), v.category)
        && field_passes(filter_value(f, "author"@), v.author)
        && tag_passes(filter_value(f, "tag"@), v.tags)
        && search_matches(filter_value(f, "search"@), v)
}

/// The filter of a listing, read from filter pairs.
pub struct SkillFilter {
    pairs: Ghost<Seq<(Seq<char>, Seq<char>)>>,
    category: Option<String>,
    author: Option<String>,
    tag: Option<String>,
    search_lower: Option<String>,
}

impl SkillFilter {
    /// The filter fields are those the pairs give.
    #[verifier::type_invariant]
    spec fn reads_pairs(&self) -> bool {
        let f = self.pairs@;
        &&& crate::audit::opt_view(self.category) == filter_value(f, "category"@)
        &&& crate::audit::opt_view(self.author) == filter_value(f, "author"@)
        &&& crate::audit::opt_view(self.tag) == filter_value(f, "tag"@)
        &&& match filter_value(f, "search"@) {
            Some(q) => self.search_lower matches Some(l) && l@ == lowercase(q),
            None => self.search_lower is None,
        }
    }

    /// The pairs the filter was read from.
    pub closed spec fn source(&self) -> Seq<(Seq<char>, Seq<char>)> {
        self.pairs@
    }

    /// The filter that the pairs describe.
    pub fn from_pairs(pairs: &Vec<(String, String)>) -> (r: Self)
        ensures
            r.source() == pair_views(pairs@),
    {
        let search = lookup_filter(pairs, "search");
        let search_lower = match &search {
            Some(q) => Some(to_lowercase(q.as_str())),
            None => None,
        };
        SkillFilter {
            pairs: Ghost(pair_views(pairs@)),
            category: lookup_filter(pairs, "category"),
            author: lookup_filter(pairs, "author"),
            tag: lookup_filter(pairs, "tag"),
            search_lower,
        }
    }
}

fn tags_mention(tags: &Vec<String>, lower_query: &str) -> (r: bool)
    ensures
        r == exists|k: int| 0 <= k < tags@.len() && seq_contains(lowercase(#[trigger] string_views(tags@)[k]), lower_query@),
{
    let mut k: usize = 0;
    while k < tags.len()
        invariant
            k <= tags@.len(),
            forall|j: int| 0 <= j < k ==> !seq_contains(lowercase(#[trigger] string_views(tags@)[j]), lower_query@),
        decreases tags.len() - k,
    {
        let l = to_lowercase(tags[k].as_str());
        assert(string_views(tags@)[k as int] == tags@[k as int]@);
        if str_contains(l.as_str(), lower_query) {
            return true;
        }
        k = k + 1;
    }
    false
}

impl RecordFilter<CommunitySkill> for SkillFilter {
    open spec fn holds(&self, v: SkillView) -> bool {
        listed(self.source())(v)
    }

    fn test(&self, r: &CommunitySkill) -> (b: bool) {
        proof {
            use_type_invariant(self);
        }
        if !r.is_published {
            return false;
        }
        let category_ok = match &self.category {
            Some(c) => str_eq(r.category.as_str(), c.as_str()),
            None => true,
        };
        let author_ok = match &self.author {
            Some(a) => str_eq(r.author.as_str(), a.as_str()),
            None => true,
        };
        let tag_ok = match &self.tag {
            Some(t) => strings_contain(&r.tags, t.as_str()),
            None => true,
        };
        let search_ok = match &self.search_lower {
            Some(l) => {
                let n = to_lowercase(r.name.as_str());
                let d = to_lowercase(r.description.as_str());
                str_contains(n.as_str(), l.as_str()) || str_contains(d.as_str(), l.as_str()) || tags_mention(&r.tags, l.as_str())
            },
            None => true,
        };
        proof {
            let f = self.source();
            let v = r@;
            assert(category_ok == field_passes(filter_value(f, "category"@), v.category));
            assert(author_ok == field_passes(filter_value(f, "author"@), v.author));
            assert(tag_ok == tag_passes(filter_value(f, "tag"@), v.tags));
            assert(search_ok == search_matches(filter_value(f, "search"@), v));
        }
        category_ok && author_ok && tag_ok && search_ok
    }
}

/// The message of a missing skill.
pub open spec fn skill_not_found(id: Seq<char>) -> Seq<char> {
    "Skill "@ + id + " not found"@
}

/// Whether `author` already has a skill named `name`.
pub open spec fn name_taken(m: Map<Seq<char>, SkillView>, name: Seq<char>, author: Seq<char>) -> bool {
    exists|k: Seq<char>| #[trigger] m.dom().contains(k) && m[k].name == name && m[k].author == author
}

/// The sum of the ratings of some reviews.
pub open spec fn ratings_sum(rs: Seq<ReviewView>) -> nat
    decreases rs.len(),
{
    if rs.len() == 0 {
        0
    } else {
        ratings_sum(rs.drop_last()) + rs.last().rating as nat
    }
}

/// The stored skills among some ids, in the order of the ids.
pub open spec fn skills_among(ids: Seq<Seq<char>>, m: Map<Seq<char>, SkillView>) -> Seq<SkillView>
    decreases ids.len(),
{
    if ids.len() == 0 {
        Seq::empty()
    } else {
        let rest = skills_among(ids.drop_last(), m);
        if m.dom().contains(ids.last()) {
            rest.push(m[ids.last()])
        } else {
            rest
        }
    }
}

/// The sum of the download counts of some skill entries.
pub open spec fn downloads_total(es: Seq<(Seq<char>, SkillView)>) -> int
    decreases es.len(),
{
    if es.len() == 0 {
        0
    } else {
        downloads_total(es.drop_last()) + es.last().1.downloads
    }
}

/// The number of reviews of some review lists.
pub open spec fn reviews_total(es: Seq<(Seq<char>, (Seq<char>, Seq<ReviewView>))>) -> int
    decreases es.len(),
{
    if es.len() == 0 {
        0
    } else {
        reviews_total(es.drop_last()) + es.last().1.1.len()
    }
}

/// Skills of a category.
pub open spec fn category_of() -> spec_fn(SkillView) -> Seq<char> {
    |v: SkillView| v.category
}

/// Published skills.
pub struct PublishedSkills;

impl RecordFilter<CommunitySkill> for PublishedSkills {
    open spec fn holds(&self, v: SkillView) -> bool {
        v.is_published
    }

    fn test(&self, r: &CommunitySkill) -> (b: bool) {
        r.is_published
    }
}

/// Skills, their reviews and downloads, and the skills of each author.
pub struct CommunitySkillCenter {
    skills: Store<CommunitySkill>,
    reviews: Store<ReviewList>,
    downloads: Store<DownloadList>,
    user_skills: Store<UserSkillList>,
    config: CommunitySkillConfig,
}

impl CommunitySkillCenter {
    /// The skills, by id.
    pub closed spec fn skills_view(&self) -> Map<Seq<char>, SkillView> {
        self.skills.view_map()
    }

    /// The reviews, by skill id.
    pub closed spec fn reviews_view(&self) -> Map<Seq<char>, Seq<ReviewView>> {
        self.reviews.view_map().map_values(|l: (Seq<char>, Seq<ReviewView>)| l.1)
    }

    /// The downloads, by skill id.
    pub closed spec fn downloads_view(&self) -> Map<Seq<char>, Seq<DownloadView>> {
        self.downloads.view_map().map_values(|l: (Seq<char>, Seq<DownloadView>)| l.1)
    }

    /// The ids of each author's skills, in the order published.
    pub closed spec fn user_skills_view(&self) -> Map<Seq<char>, Seq<Seq<char>>> {
        self.user_skills.view_map().map_values(|l: (Seq<char>, Seq<Seq<char>>)| l.1)
    }

    /// The configuration.
    pub closed spec fn config_view(&self) -> CommunitySkillConfig {
        self.config
    }

    /// The reviews of a skill (none when there are none).
    pub open spec fn reviews_of(&self, id: Seq<char>) -> Seq<ReviewView> {
        if self.reviews_view().dom().contains(id) {
            self.reviews_view()[id]
        } else {
            Seq::empty()
        }
    }

    /// The downloads of a skill (none when there are none).
    pub open spec fn downloads_of(&self, id: Seq<char>) -> Seq<DownloadView> {
        if self.downloads_view().dom().contains(id) {
            self.downloads_view()[id]
        } else {
            Seq::empty()
        }
    }

    /// The ids of an author's skills (none when there are none).
    pub open spec fn skill_ids_of(&self, user: Seq<char>) -> Seq<Seq<char>> {
        if self.user_skills_view().dom().contains(user) {
            self.user_skills_view()[user]
        } else {
            Seq::empty()
        }
    }

    /// The sum of all skills' download counts.
    pub closed spec fn total_downloads(&self) -> int {
        downloads_total(self.skills.entries())
    }

    /// The number of reviews, all skills together.
    pub closed spec fn total_reviews(&self) -> int {
        reviews_total(self.reviews.entries())
    }

    /// Each table holds one record per key.
    pub closed spec fn wf(&self) -> bool {
        &&& self.skills.wf()
        &&& self.reviews.wf()
        &&& self.downloads.wf()
        &&& self.user_skills.wf()
    }

    /// What a change leaves of the other tables.
    pub open spec fn same_except_skills(&self, other: &Self) -> bool {
        &&& self.reviews_view() == other.reviews_view()
        &&& self.downloads_view() == other.downloads_view()
        &&& self.user_skills_view() == other.user_skills_view()
        &&& self.config_view() == other.config_view()
    }

    /// An empty centre run as `config` says.
    pub fn new(config: CommunitySkillConfig) -> (r: Self)
        ensures
            r.wf(),
            r.skills_view() == Map::<Seq<char>, SkillView>::empty(),
            r.reviews_view() == Map::<Seq<char>, Seq<ReviewView>>::empty(),
            r.downloads_view() == Map::<Seq<char>, Seq<DownloadView>>::empty(),
            r.user_skills_view() == Map::<Seq<char>, Seq<Seq<char>>>::empty(),
            r.config_view() == config,
    {
        let r = CommunitySkillCenter {
            skills: Store::new(),
            reviews: Store::new(),
            downloads: Store::new(),
            user_skills: Store::new(),
            config,
        };
        assert(r.reviews_view() =~= Map::<Seq<char>, Seq<ReviewView>>::empty());
        assert(r.downloads_view() =~= Map::<Seq<char>, Seq<DownloadView>>::empty());
        assert(r.user_skills_view() =~= Map::<Seq<char>, Seq<Seq<char>>>::empty());
        r
    }

    fn user_skill_count(&self, user_id: &str) -> (n: usize)
        requires
            self.wf(),
        ensures
            n == self.skill_ids_of(user_id@).len(),
    {
        match self.user_skills.get(user_id) {
            Some(l) => l.skill_ids.len(),
            None => 0,
        }
    }

    fn has_named_skill(&self, name: &str, author: &str) -> (b: bool)
        requires
            self.wf(),
        ensures
            b == name_taken(self.skills_view(), name@, author@),
    {
        let items = self.skills.records();
        let ghost es = record_entries(items@);
        let mut i: usize = 0;
        while i < items.len()
            invariant
                i <= items@.len(),
                es == record_entries(items@),
                es == self.skills.entries(),
                unique_keys(es),
                forall|j: int| 0 <= j < i ==> !(#[trigger] es[j].1.name == name@ && es[j].1.author == author@),
            decreases items.len() - i,
        {
            if str_eq(items[i].name.as_str(), name) && str_eq(items[i].author.as_str(), author) {
                proof {
                    crate::keyed::lemma_map_of_index(es, i as int);
                    assert(self.skills_view().dom().contains(es[i as int].0));
                }
                return true;
            }
            i = i + 1;
        }
        proof {
            if name_taken(self.skills_view(), name@, author@) {
                let k = choose|k: Seq<char>| #[trigger] self.skills_view().dom().contains(k) && self.skills_view()[k].name == name@
                    && self.skills_view()[k].author == author@;
                let j = choose|j: int| 0 <= j < es.len() && es[j].0 == k;
                crate::keyed::lemma_map_of_index(es, j);
            }
        }
        false
    }

    /// Publishes a skill of `user_id` under a fresh random id (published at once unless
    /// approval is required). `Internal` when the author has reached the per-user limit
    /// or already has a skill of that name.
    pub fn publish_skill(
        &mut self,
        user_id: String,
        name: String,
        description: String,
        version: String,
        category: String,
        tags: Vec<String>,
        code: String,
        dependencies: Vec<String>,
        readme: String,
        license: String,
    ) -> (r: Result<String, AppError>)
        requires
            old(self).wf(),
        ensures
            final(self).wf(),
            final(self).reviews_view() == old(self).reviews_view(),
            final(self).downloads_view() == old(self).downloads_view(),
            final(self).config_view() == old(self).config_view(),
            ({
                let full = old(self).skill_ids_of(user_id@).len() >= old(self).config_view().max_skills_per_user;
                let taken = name_taken(old(self).skills_view(), name@, user_id@);
                &&& (r is Ok <==> !full && !taken)
                &&& full ==> (r matches Err(e) && e is Internal && e.message() == "Maximum skill limit ("@
                    + nat_decimal(old(self).config_view().max_skills_per_user as nat) + ") reached for user"@)
                &&& !full && taken ==> (r matches Err(e) && e is Internal
                    && e.message() == "Skill with name '"@ + name@ + "' already exists"@)
            }),
            match r {
                Ok(id) => {
                    let sk = final(self).skills_view()[id@];
                    &&& final(self).skills_view() == old(self).skills_view().insert(id@, sk)
                    &&& sk == (SkillView {
                        id: id@,
                        name: name@,
                        description: description@,
                        version: version@,
                        author: user_id@,
                        category: category@,
                        tags: string_views(tags@),
                        code: code@,
                        dependencies: string_views(dependencies@),
                        readme: readme@,
                        license: license@,
                        created_at: sk.created_at,
                        updated_at: sk.created_at,
                        downloads: 0,
                        rating_total: 0,
                        rating_count: 0,
                        is_published: !old(self).config_view().require_approval,
                    })
                    &&& 0 <= sk.created_at < MAX_TIMESTAMP
                    &&& final(self).user_skills_view() == old(self).user_skills_view().insert(user_id@, old(self).skill_ids_of(user_id@).push(id@))
                },
                Err(_) => final(self).skills_view() == old(self).skills_view()
                    && final(self).user_skills_view() == old(self).user_skills_view(),
            },
    {
        if self.user_skill_count(user_id.as_str()) >= self.config.max_skills_per_user {
            let mut msg = str_to_string("Maximum skill limit (");
            push_u64_decimal(&mut msg, self.config.max_skills_per_user as u64);
            push_str(&mut msg, ") reached for user");
            return Err(AppError::Internal(msg));
        }
        if self.has_named_skill(name.as_str(), user_id.as_str()) {
            return Err(AppError::Internal(concat3("Skill with name '", name.as_str(), "' already exists")));
        }
        let id = new_uuid();
        let now = now_timestamp();
        let mut ids = match self.user_skills.get_copy(user_id.as_str()) {
            Some(l) => l.skill_ids,
            None => Vec::new(),
        };
        assert(string_views(ids@) == old(self).skill_ids_of(user_id@));
        ids.push(id.clone());
        let ghost new_ids = string_views(ids@);
        assert(new_ids =~= old(self).skill_ids_of(user_id@).push(id@));
        let skill = CommunitySkill {
            id: id.clone(),
            name,
            description,
            version,
            author: user_id.clone(),
            category,
            tags,
            code,
            dependencies,
            readme,
            license,
            created_at: now,
            updated_at: now,
            downloads: 0,
            rating_total: 0,
            rating_count: 0,
            is_published: !self.config.require_approval,
        };
        self.skills.insert(skill);
        self.user_skills.insert(UserSkillList { user_id, skill_ids: ids });
        assert(self.user_skills_view() =~= old(self).user_skills_view().insert(user_id@, new_ids));
        Ok(id)
    }

    /// The skill `skill_id`; `NotFound` when there is none.
    pub fn get_skill(&self, skill_id: &str) -> (r: Result<CommunitySkill, AppError>)
        requires
            self.wf(),
        ensures
            r is Ok <==> self.skills_view().dom().contains(skill_id@),
            match r {
                Ok(sk) => sk@ == self.skills_view()[skill_id@],
                Err(e) => e is NotFound && e.message() == skill_not_found(skill_id@),
            },
    {
        match self.skills.get_copy(skill_id) {
            Some(sk) => Ok(sk),
            None => Err(AppError::NotFound(concat3("Skill ", skill_id, " not found"))),
        }
    }

    /// The published skills that pass the filters, each once, most downloaded first.
    /// The filter keys read are `category`, `author`, `tag` and `search`; a key given
    /// twice counts with its last value.
    pub fn list_skills(&self, filters: Option<Vec<(String, String)>>) -> (r: Vec<CommunitySkill>)
        requires
            self.wf(),
        ensures
            lists_map(
                record_entries(r@).map_values(|e: (Seq<char>, SkillView)| e.0),
                record_views(r@),
                restrict_where(self.skills_view(), listed(filter_pairs(filters))),
            ),
            latest_first::<CommunitySkill>(record_views(r@)),
    {
        let ghost fp = filter_pairs(filters);
        let pairs = match filters {
            Some(f) => f,
            None => Vec::new(),
        };
        assert(pair_views(pairs@) =~= fp);
        let f = SkillFilter::from_pairs(&pairs);
        let r = self.skills.values_where_latest_first(&f);
        assert(restrict_where(self.skills_view(), filter_pred::<CommunitySkill, SkillFilter>(&f))
            =~= restrict_where(self.skills_view(), listed(fp)));
        r
    }

    /// Sets the fields given as `Some` of the skill `skill_id` and its update time;
    /// `NotFound` when there is no such skill, `Internal` when `user_id` is not its author.
    pub fn update_skill(
        &mut self,
        skill_id: &str,
        user_id: &str,
        name: Option<String>,
        description: Option<String>,
        version: Option<String>,
        code: Option<String>,
        dependencies: Option<Vec<String>>,
        readme: Option<String>,
    ) -> (r: Result<(), AppError>)
        requires
            old(self).wf(),
        ensures
            final(self).wf(),
            final(self).same_except_skills(old(self)),
            r is Ok <==> old(self).skills_view().dom().contains(skill_id@) && old(self).skills_view()[skill_id@].author == user_id@,
            match r {
                Ok(_) => {
                    let old_skill = old(self).skills_view()[skill_id@];
                    let sk = final(self).skills_view()[skill_id@];
                    &&& final(self).skills_view() == old(self).skills_view().insert(skill_id@, sk)
                    &&& sk == (SkillView {
                        name: match name { Some(n) => n@, None => old_skill.name },
                        description: match description { Some(d) => d@, None => old_skill.description },
                        version: match version { Some(v) => v@, None => old_skill.version },
                        code: match code { Some(c) => c@, None => old_skill.code },
                        dependencies: match dependencies { Some(d) => string_views(d@), None => old_skill.dependencies },
                        readme: match readme { Some(x) => x@, None => old_skill.readme },
                        updated_at: sk.updated_at,
                        ..old_skill
                    })
                    &&& 0 <= sk.updated_at < MAX_TIMESTAMP
                },
                Err(e) => final(self).skills_view() == old(self).skills_view() && if old(self).skills_view().dom().contains(skill_id@) {
                    e is Internal && e.message() == "Only the author can update the skill"@
                } else {
                    e is NotFound && e.message() == skill_not_found(skill_id@)
                },
            },
    {
        let mut sk = match self.skills.get_copy(skill_id) {
            Some(sk) => sk,
            None => return Err(AppError::NotFound(concat3("Skill ", skill_id, " not found"))),
        };
        if !str_eq(sk.author.as_str(), user_id) {
            return Err(AppError::Internal(str_to_string("Only the author can update the skill")));
        }
        if let Some(n) = name {
            sk.name = n;
        }
        if let Some(d) = description {
            sk.description = d;
        }
        if let Some(v) = version {
            sk.version = v;
        }
        if let Some(c) = code {
            sk.code = c;
        }
        if let Some(d) = dependencies {
            sk.dependencies = d;
        }
        if let Some(x) = readme {
            sk.readme = x;
        }
        sk.updated_at = now_timestamp();
        self.skills.insert(sk);
        Ok(())
    }

    /// Removes the skill `skill_id` and its id from its author's list; `NotFound` when
    /// there is no such skill, `Internal` when `user_id` is not its author.
    pub fn delete_skill(&mut self, skill_id: &str, user_id: &str) -> (r: Result<(), AppError>)
        requires
            old(self).wf(),
        ensures
            final(self).wf(),
            final(self).reviews_view() == old(self).reviews_view(),
            final(self).downloads_view() == old(self).downloads_view(),
            final(self).config_view() == old(self).config_view(),
            r is Ok <==> old(self).skills_view().dom().contains(skill_id@) && old(self).skills_view()[skill_id@].author == user_id@,
            match r {
                Ok(_) => final(self).skills_view() == old(self).skills_view().remove(skill_id@)
                    && final(self).user_skills_view() == if old(self).user_skills_view().dom().contains(user_id@) {
                        old(self).user_skills_view().insert(user_id@, old(self).skill_ids_of(user_id@).filter(crate::postings::ne(skill_id@)))
                    } else {
                        old(self).user_skills_view()
                    },
                Err(e) => final(self).skills_view() == old(self).skills_view()
                    && final(self).user_skills_view() == old(self).user_skills_view()
                    && if old(self).skills_view().dom().contains(skill_id@) {
                        e is Internal && e.message() == "Only the author can delete the skill"@
                    } else {
                        e is NotFound && e.message() == skill_not_found(skill_id@)
                    },
            },
    {
        match self.skills.get(skill_id) {
            None => return Err(AppError::NotFound(concat3("Skill ", skill_id, " not found"))),
            Some(sk) => {
                if !str_eq(sk.author.as_str(), user_id) {
                    return Err(AppError::Internal(str_to_string("Only the author can delete the skill")));
                }
            },
        }
        let _ = self.skills.remove(skill_id);
        if let Some(l) = self.user_skills.get_copy(user_id) {
            let kept = retain_other(&l.skill_ids, skill_id);
            self.user_skills.insert(UserSkillList { user_id: l.user_id, skill_ids: kept });
            assert(self.user_skills_view() =~= old(self).user_skills_view().insert(user_id@, old(self).skill_ids_of(user_id@).filter(crate::postings::ne(skill_id@))));
        }
        Ok(())
    }

    /// Counts a download of the published skill `skill_id` by `user_id` and records it
    /// under a fresh random id; `NotFound` when there is no such skill, `Internal` when it
    /// is not published.
    pub fn download_skill(&mut self, skill_id: &str, user_id: &str) -> (r: Result<String, AppError>)
        requires
            old(self).wf(),
            old(self).skills_view().dom().contains(skill_id@) ==> old(self).skills_view()[skill_id@].downloads < u64::MAX,
        ensures
            final(self).wf(),
            final(self).reviews_view() == old(self).reviews_view(),
            final(self).user_skills_view() == old(self).user_skills_view(),
            final(self).config_view() == old(self).config_view(),
            r is Ok <==> old(self).skills_view().dom().contains(skill_id@) && old(self).skills_view()[skill_id@].is_published,
            match r {
                Ok(id) => {
                    let old_skill = old(self).skills_view()[skill_id@];
                    let d = final(self).downloads_of(skill_id@).last();
                    &&& final(self).skills_view() == old(self).skills_view().insert(
                        skill_id@,
                        SkillView { downloads: (old_skill.downloads + 1) as u64, ..old_skill },
                    )
                    &&& final(self).downloads_view() == old(self).downloads_view().insert(skill_id@, old(self).downloads_of(skill_id@).push(d))
                    &&& d.id == id@ && d.skill_id == skill_id@ && d.user_id == user_id@
                    &&& 0 <= d.downloaded_at < MAX_TIMESTAMP
                },
                Err(e) => final(self).skills_view() == old(self).skills_view()
                    && final(self).downloads_view() == old(self).downloads_view()
                    && if old(self).skills_view().dom().contains(skill_id@) {
                        e is Internal && e.message() == "Skill is not published"@
                    } else {
                        e is NotFound && e.message() == skill_not_found(skill_id@)
                    },
            },
    {
        let mut sk = match self.skills.get_copy(skill_id) {
            Some(sk) => sk,
            None => return Err(AppError::NotFound(concat3("Skill ", skill_id, " not found"))),
        };
        if !sk.is_published {
            return Err(AppError::Internal(str_to_string("Skill is not published")));
        }
        sk.downloads = sk.downloads + 1;
        self.skills.insert(sk);
        let id = new_uuid();
        let download = SkillDownload {
            id: id.clone(),
            skill_id: str_to_string(skill_id),
            user_id: str_to_string(user_id),
            downloaded_at: now_timestamp(),
        };
        let ghost dv = download@;
        let mut items = match self.downloads.get_copy(skill_id) {
            Some(l) => l.items,
            None => Vec::new(),
        };
        assert(download_views(items@) == old(self).downloads_of(skill_id@));
        items.push(download);
        assert(download_views(items@) =~= old(self).downloads_of(skill_id@).push(dv));
        self.downloads.insert(DownloadList { skill_id: str_to_string(skill_id), items });
        assert(self.downloads_view() =~= old(self).downloads_view().insert(skill_id@, old(self).downloads_of(skill_id@).push(dv)));
        Ok(id)
    }

    /// Adds a review (rating 1 to 5) of the skill `skill_id` under a fresh random id and,
    /// when ratings are on, sets the skill's rating to the sum and count of its reviews'
    /// ratings. `Internal` when reviews are off or the rating is out of range,
    /// `NotFound` when there is no such skill.
    pub fn add_review(&mut self, skill_id: &str, user_id: &str, rating: u8, comment: String) -> (r: Result<String, AppError>)
        requires
            old(self).wf(),
        ensures
            final(self).wf(),
            final(self).downloads_view() == old(self).downloads_view(),
            final(self).user_skills_view() == old(self).user_skills_view(),
            final(self).config_view() == old(self).config_view(),
            r is Ok <==> old(self).config_view().enable_reviews && 1 <= rating <= 5 && old(self).skills_view().dom().contains(skill_id@),
            !old(self).config_view().enable_reviews ==> (r matches Err(e) && e is Internal && e.message() == "Reviews are disabled"@),
            old(self).config_view().enable_reviews && !(1 <= rating <= 5) ==> (r matches Err(e) && e is Internal
                && e.message() == "Rating must be between 1 and 5"@),
            old(self).config_view().enable_reviews && 1 <= rating <= 5 && !old(self).skills_view().dom().contains(skill_id@)
                ==> (r matches Err(e) && e is NotFound && e.message() == skill_not_found(skill_id@)),
            match r {
                Ok(id) => {
                    let rv = final(self).reviews_of(skill_id@).last();
                    let all = old(self).reviews_of(skill_id@).push(rv);
                    let old_skill = old(self).skills_view()[skill_id@];
                    &&& final(self).reviews_view() == old(self).reviews_view().insert(skill_id@, all)
                    &&& rv.id == id@ && rv.skill_id == skill_id@ && rv.user_id == user_id@ && rv.rating == rating
                        && rv.comment == comment@
                    &&& 0 <= rv.created_at < MAX_TIMESTAMP
                    &&& final(self).skills_view() == if old(self).config_view().enable_ratings {
                        old(self).skills_view().insert(skill_id@, SkillView {
                            rating_total: ratings_sum(all) as u128,
                            rating_count: all.len() as u64,
                            ..old_skill
                        })
                    } else {
                        old(self).skills_view()
                    }
                },
                Err(_) => final(self).skills_view() == old(self).skills_view()
                    && final(self).reviews_view() == old(self).reviews_view(),
            },
    {
        if !self.config.enable_reviews {
            return Err(AppError::Internal(str_to_string("Reviews are disabled")));
        }
        if rating < 1 || rating > 5 {
            return Err(AppError::Internal(str_to_string("Rating must be between 1 and 5")));
        }
        if !self.skills.contains(skill_id) {
            return Err(AppError::NotFound(concat3("Skill ", skill_id, " not found")));
        }
        let id = new_uuid();
        let review = SkillReview {
            id: id.clone(),
            skill_id: str_to_string(skill_id),
            user_id: str_to_string(user_id),
            rating,
            comment,
            created_at: now_timestamp(),
        };
        let ghost rv = review@;
        let mut items = match self.reviews.get_copy(skill_id) {
            Some(l) => l.items,
            None => Vec::new(),
        };
        assert(review_views(items@) == old(self).reviews_of(skill_id@));
        items.push(review);
        let ghost all = review_views(items@);
        assert(all =~= old(self).reviews_of(skill_id@).push(rv));
        let (total, count) = rating_of(&items);
        self.reviews.insert(ReviewList { skill_id: str_to_string(skill_id), items });
        assert(self.reviews_view() =~= old(self).reviews_view().insert(skill_id@, all));
        assert(self.reviews_of(skill_id@) == all);
        if self.config.enable_ratings {
            let mut sk = match self.skills.get_copy(skill_id) {
                Some(sk) => sk,
                None => return Ok(id),
            };
            sk.rating_total = total;
            sk.rating_count = count;
            self.skills.insert(sk);
        }
        Ok(id)
    }

    /// The reviews of `skill_id`, in the order they came (none when there are none).
    pub fn get_reviews(&self, skill_id: &str) -> (r: Vec<SkillReview>)
        requires
            self.wf(),
        ensures
            review_views(r@) == self.reviews_of(skill_id@),
    {
        match self.reviews.get(skill_id) {
            Some(l) => clone_reviews(&l.items),
            None => {
                let v: Vec<SkillReview> = Vec::new();
                assert(review_views(v@) =~= Seq::<ReviewView>::empty());
                v
            },
        }
    }

    /// The stored skills of `user_id`, in the order published.
    pub fn get_user_skills(&self, user_id: &str) -> (r: Vec<CommunitySkill>)
        requires
            self.wf(),
        ensures
            record_views(r@) == skills_among(self.skill_ids_of(user_id@), self.skills_view()),
    {
        let ids = match self.user_skills.get(user_id) {
            Some(l) => clone_strings(&l.skill_ids),
            None => Vec::new(),
        };
        let ghost iv = string_views(ids@);
        assert(iv == self.skill_ids_of(user_id@)) by {
            if !self.user_skills_view().dom().contains(user_id@) {
                assert(iv =~= Seq::<Seq<char>>::empty());
            }
        }
        let mut out: Vec<CommunitySkill> = Vec::new();
        let mut i: usize = 0;
        assert(iv.take(0) =~= Seq::<Seq<char>>::empty());
        assert(record_views(out@) =~= Seq::<SkillView>::empty());
        while i < ids.len()
            invariant
                i <= ids@.len(),
                self.wf(),
                iv == string_views(ids@),
                record_views(out@) == skills_among(iv.take(i as int), self.skills_view()),
            decreases ids.len() - i,
        {
            let ghost before = record_views(out@);
            proof {
                assert(iv.take(i + 1).drop_last() =~= iv.take(i as int));
                assert(iv.take(i + 1).last() == ids@[i as int]@);
            }
            if let Some(sk) = self.skills.get_copy(ids[i].as_str()) {
                out.push(sk);
                assert(record_views(out@) =~= before.push(sk@));
            }
            i = i + 1;
        }
        assert(iv.take(ids@.len() as int) =~= iv);
        out
    }

    /// The categories of the skills, each once, in `Ord` order.
    pub fn get_categories(&self) -> (r: Vec<String>)
        requires
            self.wf(),
        ensures
            strictly_sorted(string_views(r@)),
            forall|c: Seq<char>| #[trigger] string_views(r@).contains(c) <==>
                exists|k: Seq<char>| #[trigger] self.skills_view().dom().contains(k) && self.skills_view()[k].category == c,
    {
        let cats = self.categories_in_order();
        let r = sorted_distinct(&cats);
        proof {
            let es = self.skills.entries();
            assert forall|c: Seq<char>| #[trigger] string_views(r@).contains(c) <==>
                exists|k: Seq<char>| #[trigger] self.skills_view().dom().contains(k) && self.skills_view()[k].category == c by {
                assert(string_views(r@).contains(c) == string_views(r@).to_set().contains(c));
                assert(string_views(cats@).contains(c) == string_views(cats@).to_set().contains(c));
                if string_views(cats@).contains(c) {
                    let j = choose|j: int| 0 <= j < string_views(cats@).len() && string_views(cats@)[j] == c;
                    crate::keyed::lemma_map_of_index(es, j);
                    assert(self.skills_view().dom().contains(es[j].0));
                }
                if exists|k: Seq<char>| #[trigger] self.skills_view().dom().contains(k) && self.skills_view()[k].category == c {
                    let k = choose|k: Seq<char>| #[trigger] self.skills_view().dom().contains(k) && self.skills_view()[k].category == c;
                    let j = choose|j: int| 0 <= j < es.len() && es[j].0 == k;
                    crate::keyed::lemma_map_of_index(es, j);
                    assert(string_views(cats@)[j] == c);
                }
            }
        }
        r
    }

    fn categories_in_order(&self) -> (r: Vec<String>)
        requires
            self.wf(),
        ensures
            string_views(r@) == field_values(self.skills.entries(), category_of()),
    {
        let items = self.skills.records();
        let ghost es = record_entries(items@);
        let mut out: Vec<String> = Vec::new();
        let mut i: usize = 0;
        while i < items.len()
            invariant
                i <= items@.len(),
                es == record_entries(items@),
                string_views(out@) == field_values(es.take(i as int), category_of()),
            decreases items.len() - i,
        {
            let ghost before = string_views(out@);
            out.push(items[i].category.clone());
            proof {
                assert(es.take(i + 1) =~= es.take(i as int).push(es[i as int]));
                assert(string_views(out@) =~= before.push(es[i as int].1.category));
                assert(field_values(es.take(i + 1), category_of()) =~= field_values(es.take(i as int), category_of()).push(es[i as int].1.category));
            }
            i = i + 1;
        }
        assert(es.take(es.len() as int) =~= es);
        out
    }

    /// Counts of skills, published skills, downloads and reviews, and how many skills
    /// there are of each category.
    pub fn get_stats(&self) -> (r: CommunitySkillStats)
        requires
            self.wf(),
            self.total_downloads() <= u64::MAX,
            self.total_reviews() <= usize::MAX,
        ensures
            r.total_skills == self.skills_view().dom().len(),
            r.published_skills == count_where(self.skills_view(), |v: SkillView| v.is_published),
            r.total_downloads == self.total_downloads(),
            r.total_reviews == self.total_reviews(),
            unique_keys(tally_entries(r.categories@)),
            forall|c: Seq<char>| #[trigger] map_of(tally_entries(r.categories@)).dom().contains(c)
                <==> count_where(self.skills_view(), crate::keyed::field_is(category_of(), c)) > 0,
            forall|c: Seq<char>| #[trigger] map_of(tally_entries(r.categories@)).dom().contains(c)
                ==> map_of(tally_entries(r.categories@))[c] == count_where(self.skills_view(), crate::keyed::field_is(category_of(), c)),
    {
        let f = PublishedSkills;
        let published = self.skills.values_where(&f);
        proof {
            let m = self.skills_view();
            let p = |v: SkillView| v.is_published;
            assert(restrict_where(m, filter_pred::<CommunitySkill, PublishedSkills>(&f)) =~= restrict_where(m, p));
            assert(restrict_where(m, p).dom() =~= m.dom().filter(|k: Seq<char>| p(m[k])));
        }
        let items = self.skills.records();
        let ghost es = record_entries(items@);
        let mut downloads: u64 = 0;
        let mut i: usize = 0;
        assert(es.take(0) =~= Seq::<(Seq<char>, SkillView)>::empty());
        while i < items.len()
            invariant
                i <= items@.len(),
                es == record_entries(items@),
                es == self.skills.entries(),
                downloads_total(es) <= u64::MAX,
                downloads == downloads_total(es.take(i as int)),
            decreases items.len() - i,
        {
            proof {
                assert(es.take(i + 1).drop_last() =~= es.take(i as int));
                lemma_downloads_prefix(es, i + 1);
            }
            downloads = downloads + items[i].downloads;
            i = i + 1;
        }
        assert(es.take(es.len() as int) =~= es);
        let lists = self.reviews.records();
        let ghost rs = record_entries(lists@);
        let mut reviews: usize = 0;
        let mut j: usize = 0;
        assert(rs.take(0) =~= Seq::<(Seq<char>, (Seq<char>, Seq<ReviewView>))>::empty());
        while j < lists.len()
            invariant
                j <= lists@.len(),
                rs == record_entries(lists@),
                rs == self.reviews.entries(),
                reviews_total(rs) <= usize::MAX,
                reviews == reviews_total(rs.take(j as int)),
            decreases lists.len() - j,
        {
            proof {
                assert(rs.take(j + 1).drop_last() =~= rs.take(j as int));
                lemma_reviews_prefix(rs, j + 1);
            }
            reviews = reviews + lists[j].items.len();
            j = j + 1;
        }
        assert(rs.take(rs.len() as int) =~= rs);
        let cats = self.categories_in_order();
        let counts = count_occurrences(&cats);
        proof {
            let m = map_of(tally_entries(counts@));
            assert forall|c: Seq<char>| #[trigger] m.dom().contains(c) <==> count_where(self.skills_view(), crate::keyed::field_is(category_of(), c)) > 0 by {
                lemma_field_count(es, category_of(), c);
                lemma_count_where(es, crate::keyed::field_is(category_of(), c));
                crate::text::lemma_filter_absent_converse(field_values(es, category_of()), c);
            }
            assert forall|c: Seq<char>| #[trigger] m.dom().contains(c) implies m[c] == count_where(self.skills_view(), crate::keyed::field_is(category_of(), c)) by {
                lemma_field_count(es, category_of(), c);
                lemma_count_where(es, crate::keyed::field_is(category_of(), c));
            }
        }
        CommunitySkillStats {
            total_skills: self.skills.len(),
            published_skills: published.len(),
            total_downloads: downloads,
            total_reviews: reviews,
            categories: counts,
        }
    }

    /// Downloads the skill (`download_skill`).
    pub fn install_skill(&mut self, skill_id: &str, user_id: &str) -> (r: Result<String, AppError>)
        requires
            old(self).wf(),
            old(self).skills_view().dom().contains(skill_id@) ==> old(self).skills_view()[skill_id@].downloads < u64::MAX,
        ensures
            final(self).wf(),
            r is Ok <==> old(self).skills_view().dom().contains(skill_id@) && old(self).skills_view()[skill_id@].is_published,
            r is Ok ==> final(self).skills_view()[skill_id@].downloads == old(self).skills_view()[skill_id@].downloads + 1,
            r is Err ==> final(self).skills_view() == old(self).skills_view() && final(self).downloads_view() == old(self).downloads_view(),
    {
        self.download_skill(skill_id, user_id)
    }
}

/// The ids other than `id`, in order.
fn retain_other(ids: &Vec<String>, id: &str) -> (r: Vec<String>)
    ensures
        string_views(r@) == string_views(ids@).filter(crate::postings::ne(id@)),
{
    let ghost v = string_views(ids@);
    let mut out: Vec<String> = Vec::new();
    let mut i: usize = 0;
    proof {
        reveal(Seq::filter);
        assert(v.take(0).filter(crate::postings::ne(id@)) =~= Seq::<Seq<char>>::empty());
        assert(string_views(out@) =~= Seq::<Seq<char>>::empty());
    }
    while i < ids.len()
        invariant
            i <= ids@.len(),
            v == string_views(ids@),
            string_views(out@) == v.take(i as int).filter(crate::postings::ne(id@)),
        decreases ids.len() - i,
    {
        let ghost before = string_views(out@);
        proof {
            assert(v.take(i + 1) =~= v.take(i as int).push(v[i as int]));
            v.take(i as int).lemma_filter_push(v[i as int], crate::postings::ne(id@));
        }
        if !str_eq(ids[i].as_str(), id) {
            out.push(ids[i].clone());
            assert(string_views(out@) =~= before.push(v[i as int]));
        }
        i = i + 1;
    }
    assert(v.take(v.len() as int) =~= v);
    out
}

/// The sum and number of the ratings of some reviews.
fn rating_of(items: &Vec<SkillReview>) -> (r: (u128, u64))
    ensures
        r.0 == ratings_sum(review_views(items@)),
        r.1 == items@.len(),
{
    let ghost v = review_views(items@);
    let mut total: u128 = 0;
    let mut i: usize = 0;
    assert(v.take(0) =~= Seq::<ReviewView>::empty());
    while i < items.len()
        invariant
            i <= items@.len(),
            v == review_views(items@),
            total == ratings_sum(v.take(i as int)),
            total <= 255 * i,
        decreases items.len() - i,
    {
        proof {
            assert(v.take(i + 1).drop_last() =~= v.take(i as int));
            assert(v.take(i + 1).last() == items@[i as int]@);
        }
        total = total + items[i].rating as u128;
        i = i + 1;
    }
    assert(v.take(v.len() as int) =~= v);
    (total, items.len() as u64)
}

/// A prefix of the skills has no more downloads than all of them.
pub proof fn lemma_downloads_prefix(es: Seq<(Seq<char>, SkillView)>, i: int)
    requires
        0 <= i <= es.len(),
    ensures
        downloads_total(es.take(i)) <= downloads_total(es),
    decreases es.len() - i,
{
    if i < es.len() {
        lemma_downloads_prefix(es, i + 1);
        assert(es.take(i + 1).drop_last() =~= es.take(i));
    } else {
        assert(es.take(i) =~= es);
    }
}

/// A prefix of the review lists holds no more reviews than all of them.
pub proof fn lemma_reviews_prefix(es: Seq<(Seq<char>, (Seq<char>, Seq<ReviewView>))>, i: int)
    requires
        0 <= i <= es.len(),
    ensures
        reviews_total(es.take(i)) <= reviews_total(es),
    decreases es.len() - i,
{
    if i < es.len() {
        lemma_reviews_prefix(es, i + 1);
        assert(es.take(i + 1).drop_last() =~= es.take(i));
    } else {
        assert(es.take(i) =~= es);
    }
}

/// A listing filtered only by a search text shows exactly the published skills whose
/// lower-cased name, lower-cased description or one of whose lower-cased tags contains
/// the lower-cased search text. In particular a published skill whose description
/// mentions the text, in any case, is shown.
pub proof fn law_search_matches_name_description_or_tag(q: Seq<char>, v: SkillView)
    ensures
        listed(seq![("search"@, q)])(v) <==> v.is_published && (
            seq_contains(lowercase(v.name), lowercase(q))
            || seq_contains(lowercase(v.description), lowercase(q))
            || exists|k: int| 0 <= k < v.tags.len() && seq_contains(lowercase(#[trigger] v.tags[k]), lowercase(q))),
        v.is_published && seq_contains(lowercase(v.description), lowercase(q)) ==> listed(seq![("search"@, q)])(v),
        search_matches(None, v),
{
    let f = seq![("search"@, q)];
    reveal_strlit("search");
    reveal_strlit("category");
    reveal_strlit("author");
    reveal_strlit("tag");
    assert(f.drop_last() =~= Seq::<(Seq<char>, Seq<char>)>::empty());
    assert("search"@ != "category"@ && "search"@ != "author"@ && "search"@ != "tag"@) by {
        assert("search"@.len() != "category"@.len());
        assert("search"@[0] != "author"@[0]);
        assert("search"@.len() != "tag"@.len());
    }
    assert(f.last() == ("search"@, q));
    assert(filter_value(f.drop_last(), "category"@) is None);
    assert(filter_value(f.drop_last(), "author"@) is None);
    assert(filter_value(f.drop_last(), "tag"@) is None);
    assert(filter_value(f, "category"@) is None);
    assert(filter_value(f, "author"@) is None);
    assert(filter_value(f, "tag"@) is None);
    assert(filter_value(f, "search"@) == Some(q));
}

} // verus!
