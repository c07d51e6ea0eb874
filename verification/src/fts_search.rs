//! Full-text search over documents: an inverted word index kept in step with the
//! documents, scored search with filters, extractive summaries, key points, sentiment
//! and topics, and a history of searches.

use vstd::prelude::*;
use crate::audit::{field_passes, filter_value, lookup_filter, opt_view, pair_views};
use crate::clock::{new_uuid, now_timestamp, MAX_TIMESTAMP};
use crate::error::AppError;
use crate::keyed::{
    count_where, has_key, lemma_count_where, lemma_map_of_absent, lemma_map_of_empty, lemma_map_of_index,
    lemma_map_of_len, lemma_map_of_push, lemma_map_of_update, map_of, unique_keys, value_pred,
};
use crate::postings::{
    add_all, add_one, filings, law_add_all_filings, law_removed_is_unfiled, law_retain_all_filings, postings, retain_all,
    retain_one, PostingIndex,
};
use crate::sentences::{sentences, split_sentences, trim_str, trim_ws, utf8_byte_len};
use crate::text::{
    chars_of, clone_pairs, clone_strings, concat3, count_occurrences, eq_to, lowercase, occurrences, parse_i64,
    parse_i64_spec, push_str, seq_contains, split_kept, split_text, str_contains, str_eq, str_to_string,
    string_views, strings_contain, tally_entries, to_lowercase, utf8_len,
};

verus! {

/// A searchable document.
#[derive(Debug)]
pub struct SearchDocument {
    pub id: String,
    pub title: String,
    pub content: String,
    pub document_type: String,
    pub tags: Vec<String>,
    pub created_at: i64,
    pub updated_at: i64,
    pub metadata: Vec<(String, String)>,
}

/// The value of a document.
pub struct DocView {
    pub id: Seq<char>,
    pub title: Seq<char>,
    pub content: Seq<char>,
    pub document_type: Seq<char>,
    pub tags: Seq<Seq<char>>,
    pub created_at: i64,
    pub updated_at: i64,
    pub metadata: Seq<(Seq<char>, Seq<char>)>,
}

impl View for SearchDocument {
    type V = DocView;

    open spec fn view(&self) -> DocView {
        DocView {
            id: self.id@,
            title: self.title@,
            content: self.content@,
            document_type: self.document_type@,
            tags: string_views(self.tags@),
            created_at: self.created_at,
            updated_at: self.updated_at,
            metadata: pair_views(self.metadata@),
        }
    }
}

impl Clone for SearchDocument {
    fn clone(&self) -> (r: Self)
        ensures
            r@ == self@,
    {
        SearchDocument {
            id: self.id.clone(),
            title: self.title.clone(),
            content: self.content.clone(),
            document_type: self.document_type.clone(),
            tags: clone_strings(&self.tags),
            created_at: self.created_at,
            updated_at: self.updated_at,
            metadata: clone_pairs(&self.metadata),
        }
    }
}

/// A document found by a search, its score (how many times the query's words are filed
/// for it) and the sentences that mention them.
#[derive(Debug)]
pub struct SearchResult {
    pub document: SearchDocument,
    pub score: u128,
    pub highlights: Vec<String>,
}

/// A summary of a document.
#[derive(Debug)]
pub struct DocumentSummary {
    pub document_id: String,
    pub summary: String,
    pub key_points: Vec<String>,
    pub sentiment: String,
    pub topics: Vec<String>,
    pub generated_at: i64,
}

/// The value of a summary.
pub struct SummaryView {
    pub document_id: Seq<char>,
    pub summary: Seq<char>,
    pub key_points: Seq<Seq<char>>,
    pub sentiment: Seq<char>,
    pub topics: Seq<Seq<char>>,
    pub generated_at: i64,
}

impl View for DocumentSummary {
    type V = SummaryView;

    open spec fn view(&self) -> SummaryView {
        SummaryView {
            document_id: self.document_id@,
            summary: self.summary@,
            key_points: string_views(self.key_points@),
            sentiment: self.sentiment@,
            topics: string_views(self.topics@),
            generated_at: self.generated_at,
        }
    }
}

impl Clone for DocumentSummary {
    fn clone(&self) -> (r: Self)
        ensures
            r@ == self@,
    {
        DocumentSummary {
            document_id: self.document_id.clone(),
            summary: self.summary.clone(),
            key_points: clone_strings(&self.key_points),
            sentiment: self.sentiment.clone(),
            topics: clone_strings(&self.topics),
            generated_at: self.generated_at,
        }
    }
}

/// A search that was made.
#[derive(Debug)]
pub struct SearchRecord {
    pub id: String,
    pub query: String,
    pub results_count: usize,
    pub timestamp: i64,
    pub filters: Vec<(String, String)>,
}

/// The value of a search record.
pub struct RecordView {
    pub id: Seq<char>,
    pub query: Seq<char>,
    pub results_count: usize,
    pub timestamp: i64,
    pub filters: Seq<(Seq<char>, Seq<char>)>,
}

impl View for SearchRecord {
    type V = RecordView;

    open spec fn view(&self) -> RecordView {
        RecordView {
            id: self.id@,
            query: self.query@,
            results_count: self.results_count,
            timestamp: self.timestamp,
            filters: pair_views(self.filters@),
        }
    }
}

impl Clone for SearchRecord {
    fn clone(&self) -> (r: Self)
        ensures
            r@ == self@,
    {
        SearchRecord {
            id: self.id.clone(),
            query: self.query.clone(),
            results_count: self.results_count,
            timestamp: self.timestamp,
            filters: clone_pairs(&self.filters),
        }
    }
}

/// How searches and summaries are made.
#[derive(Debug, Clone, Copy)]
pub struct FtsConfig {
    pub max_results: usize,
    pub enable_summarization: bool,
    pub enable_highlights: bool,
    pub summary_max_length: usize,
    pub min_search_length: usize,
}

impl Default for FtsConfig {
    fn default() -> (r: Self)
        ensures
            r.max_results == 50,
            r.enable_summarization,
            r.enable_highlights,
            r.summary_max_length == 200,
            r.min_search_length == 2,
    {
        FtsConfig {
            max_results: 50,
            enable_summarization: true,
            enable_highlights: true,
            summary_max_length: 200,
            min_search_length: 2,
        }
    }
}

/// The documents by id and the word, tag and type indexes over them.
pub struct SearchIndex {
    documents: Vec<SearchDocument>,
    fts_index: PostingIndex,
    tag_index: PostingIndex,
    type_index: PostingIndex,
}

/// Counts over the engine.
#[derive(Debug)]
pub struct FtsStats {
    pub total_documents: usize,
    pub total_summaries: usize,
    pub total_searches: usize,
    pub index_size: usize,
    pub document_types: Vec<(String, usize)>,
}

/// The words of a text that the index files: the lower-cased text split at whitespace
/// and ASCII punctuation, keeping the pieces of at least `min` UTF-8 bytes.
pub open spec fn tokens(t: Seq<char>, min: usize) -> Seq<Seq<char>> {
    split_kept(lowercase(t), true, min as nat)
}

/// The text of a document that is indexed: its title, a space, its content.
pub open spec fn doc_text(d: DocView) -> Seq<char> {
    d.title + " "@ + d.content
}

/// The message of a missing document.
pub open spec fn document_not_found(id: Seq<char>) -> Seq<char> {
    "Document "@ + id + " not found"@
}

/// The message of a missing summary.
pub open spec fn summary_not_found(id: Seq<char>) -> Seq<char> {
    "Summary for document "@ + id + " not found"@
}

/// The value of a search result.
pub struct ResultView {
    pub document: DocView,
    pub score: u128,
    pub highlights: Seq<Seq<char>>,
}

impl View for SearchResult {
    type V = ResultView;

    open spec fn view(&self) -> ResultView {
        ResultView { document: self.document@, score: self.score, highlights: string_views(self.highlights@) }
    }
}

/// How many times the query's words file `d`: for each query word (a repeated word
/// counts again), the number of times `d` is filed under it.
pub open spec fn score(fts: Map<Seq<char>, Seq<Seq<char>>>, q: Seq<Seq<char>>, d: Seq<char>) -> nat
    decreases q.len(),
{
    if q.len() == 0 {
        0
    } else {
        score(fts, q.drop_last(), d) + postings(fts, q.last()).filter(eq_to(d)).len()
    }
}

/// A tag filter passes the documents that carry the tag.
pub open spec fn tag_passes(f: Option<Seq<char>>, tags: Seq<Seq<char>>) -> bool {
    match f {
        Some(t) => tags.contains(t),
        None => true,
    }
}

/// A `date_from` filter that reads as an `i64` passes the documents created at or after
/// it; one that does not read as a number passes all.
pub open spec fn date_passes(f: Option<Seq<char>>, created: i64) -> bool {
    match f {
        Some(text) => match parse_i64_spec(text) {
            Some(ts) => created >= ts,
            None => true,
        },
        None => true,
    }
}

/// Whether a document passes the `document_type`, `tag` and `date_from` filters.
pub open spec fn search_passes(f: Seq<(Seq<char>, Seq<char>)>, d: DocView) -> bool {
    &&& field_passes(filter_value(f, "document_type"@), d.document_type)
    &&& tag_passes(filter_value(f, "tag"@), d.tags)
    &&& date_passes(filter_value(f, "date_from"@), d.created_at)
}

/// The documents a search finds: filed at least once under a query word, and passing
/// the filters.
pub open spec fn is_hit(fts: Map<Seq<char>, Seq<Seq<char>>>, q: Seq<Seq<char>>, f: Seq<(Seq<char>, Seq<char>)>) -> spec_fn(DocView) -> bool {
    |d: DocView| score(fts, q, d.id) > 0 && search_passes(f, d)
}

/// The filter pairs of an optional filter list (none when there is no list).
pub open spec fn filter_pairs(filters: Option<Vec<(String, String)>>) -> Seq<(Seq<char>, Seq<char>)> {
    match filters {
        Some(f) => pair_views(f@),
        None => Seq::empty(),
    }
}

/// Sentences whose lower-cased text contains one of the words.
pub open spec fn mentions_any(q: Seq<Seq<char>>) -> spec_fn(Seq<char>) -> bool {
    |s: Seq<char>| exists|k: int| 0 <= k < q.len() && seq_contains(lowercase(s), #[trigger] q[k])
}

/// At most the first three of some texts.
pub open spec fn first_three(m: Seq<Seq<char>>) -> Seq<Seq<char>> {
    if m.len() < 3 {
        m
    } else {
        m.take(3)
    }
}

/// Texts without leading and trailing whitespace.
pub open spec fn trimmed_all(m: Seq<Seq<char>>) -> Seq<Seq<char>> {
    m.map_values(|s: Seq<char>| trim_ws(s))
}

/// The highlights of a text: its first three sentences that mention a query word,
/// trimmed.
pub open spec fn highlights_of(content: Seq<char>, q: Seq<Seq<char>>) -> Seq<Seq<char>> {
    trimmed_all(first_three(sentences(content).filter(mentions_any(q))))
}

/// A result shows a stored document that the search finds, with its score and (when
/// highlights are on) its highlights.
pub open spec fn result_ok(
    r: ResultView,
    docs: Map<Seq<char>, DocView>,
    fts: Map<Seq<char>, Seq<Seq<char>>>,
    q: Seq<Seq<char>>,
    f: Seq<(Seq<char>, Seq<char>)>,
    highlights: bool,
) -> bool {
    &&& docs.dom().contains(r.document.id)
    &&& docs[r.document.id] == r.document
    &&& is_hit(fts, q, f)(r.document)
    &&& r.score == score(fts, q, r.document.id)
    &&& r.highlights == if highlights { highlights_of(r.document.content, q) } else { Seq::empty() }
}

/// Some entry before position `n` has key `id`.
pub open spec fn id_among(es: Seq<(Seq<char>, DocView)>, n: int, id: Seq<char>) -> bool {
    exists|j: int| 0 <= j < n && #[trigger] es[j].0 == id
}

/// What a search returns: documents it finds, each once, best score first, all of them
/// unless `max` cut the list, and then none left out that scored higher than the last.
pub open spec fn results_fit(
    rs: Seq<ResultView>,
    docs: Map<Seq<char>, DocView>,
    fts: Map<Seq<char>, Seq<Seq<char>>>,
    q: Seq<Seq<char>>,
    f: Seq<(Seq<char>, Seq<char>)>,
    highlights: bool,
    max: usize,
) -> bool {
    &&& forall|i: int| 0 <= i < rs.len() ==> result_ok(#[trigger] rs[i], docs, fts, q, f, highlights)
    &&& forall|i: int, j: int| 0 <= i < j < rs.len() ==> #[trigger] rs[i].document.id != #[trigger] rs[j].document.id
    &&& forall|i: int, j: int| 0 <= i < j < rs.len() ==> #[trigger] rs[i].score >= #[trigger] rs[j].score
    &&& forall|d: Seq<char>| #[trigger] docs.dom().contains(d) && is_hit(fts, q, f)(docs[d]) ==>
        (exists|i: int| 0 <= i < rs.len() && #[trigger] rs[i].document.id == d)
        || (rs.len() == max && (max == 0 || score(fts, q, d) <= rs[rs.len() - 1].score))
}

/// The summary built from sentences: each trimmed sentence is appended (after `". "`
/// when the summary is not empty) while the summary's bytes, the sentence's bytes and
/// one more fit in `max`; the first that does not fit ends it.
pub open spec fn summary_acc(sents: Seq<Seq<char>>, max: nat, acc: Seq<char>) -> Seq<char>
    decreases sents.len(),
{
    if sents.len() == 0 {
        acc
    } else {
        let t = trim_ws(sents[0]);
        if utf8_len(acc) + utf8_len(t) + 1 > max {
            acc
        } else {
            summary_acc(sents.drop_first(), max, if acc.len() == 0 { t } else { acc + ". "@ + t })
        }
    }
}

/// The extractive summary of a text: its sentences gathered within `max` bytes, with
/// `"..."` appended when it is shorter than the text and does not end with `.`.
pub open spec fn summary_text(content: Seq<char>, max: nat) -> Seq<char> {
    let s = summary_acc(sentences(content), max, Seq::empty());
    if utf8_len(s) < utf8_len(content) && !(s.len() > 0 && s.last() == '.') {
        s + "..."@
    } else {
        s
    }
}

/// Trimmed sentences longer than 20 bytes.
pub open spec fn long_point() -> spec_fn(Seq<char>) -> bool {
    |t: Seq<char>| utf8_len(t) > 20
}

/// The key points of a text: of its first `max` sentences, the trimmed ones longer than
/// 20 bytes.
pub open spec fn key_points_of(content: Seq<char>, max: nat) -> Seq<Seq<char>> {
    let s = sentences(content);
    trimmed_all(s.take(if max < s.len() { max as int } else { s.len() as int })).filter(long_point())
}

/// Words a text contains.
pub open spec fn contained_in(t: Seq<char>) -> spec_fn(Seq<char>) -> bool {
    |w: Seq<char>| seq_contains(t, w)
}

/// The words that count for a positive sentiment.
pub open spec fn positive_words() -> Seq<Seq<char>> {
    seq!["good"@, "great"@, "excellent"@, "positive"@, "beneficial"@, "successful"@, "improved"@]
}

/// The words that count for a negative sentiment.
pub open spec fn negative_words() -> Seq<Seq<char>> {
    seq!["bad"@, "poor"@, "negative"@, "failed"@, "error"@, "problem"@, "issue"@]
}

/// The topics recognised in a text, in this order.
pub open spec fn common_topics() -> Seq<Seq<char>> {
    seq![
        "technology"@, "science"@, "business"@, "health"@, "education"@,
        "programming"@, "ai"@, "machine learning"@, "data"@, "security"@,
    ]
}

/// The sentiment of a text: which of the positive and negative word lists has more
/// words that the lower-cased text contains.
pub open spec fn sentiment_of(content: Seq<char>) -> Seq<char> {
    let lc = lowercase(content);
    let p = positive_words().filter(contained_in(lc)).len();
    let n = negative_words().filter(contained_in(lc)).len();
    if p > n {
        "positive"@
    } else if n > p {
        "negative"@
    } else {
        "neutral"@
    }
}

/// The topics the lower-cased text contains.
pub open spec fn topics_of(content: Seq<char>) -> Seq<Seq<char>> {
    common_topics().filter(contained_in(lowercase(content)))
}

/// A list filter passes the documents of the type and with the tag given.
pub open spec fn list_passes(f: Seq<(Seq<char>, Seq<char>)>) -> spec_fn(DocView) -> bool {
    |d: DocView| field_passes(filter_value(f, "document_type"@), d.document_type) && tag_passes(filter_value(f, "tag"@), d.tags)
}

/// Documents of type `t`.
pub open spec fn of_type(t: Seq<char>) -> spec_fn(DocView) -> bool {
    |d: DocView| d.document_type == t
}

/// The documents gathered from the first `n` stored ones: each passes the filter and is
/// stored, once, newest first, and every passing one of them is there.
pub open spec fn listed_so_far(
    out: Seq<DocView>,
    es: Seq<(Seq<char>, DocView)>,
    n: int,
    docs: Map<Seq<char>, DocView>,
    p: spec_fn(DocView) -> bool,
) -> bool {
    &&& forall|a: int| 0 <= a < out.len() ==> docs.dom().contains((#[trigger] out[a]).id) && docs[out[a].id] == out[a] && p(out[a])
    &&& forall|a: int| 0 <= a < out.len() ==> id_among(es, n, (#[trigger] out[a]).id)
    &&& forall|a: int, b: int| 0 <= a < b < out.len() ==> #[trigger] out[a].id != #[trigger] out[b].id
    &&& forall|a: int, b: int| 0 <= a < b < out.len() ==> #[trigger] out[a].created_at >= #[trigger] out[b].created_at
    &&& forall|j: int| 0 <= j < n && p(#[trigger] es[j].1) ==> exists|a: int| 0 <= a < out.len() && #[trigger] out[a].id == es[j].0
}

/// The search engine.
pub struct FtsSearchEngine {
    index: SearchIndex,
    summaries: Vec<DocumentSummary>,
    search_history: Vec<SearchRecord>,
    config: FtsConfig,
}

/// The words the index files from an already lower-cased text: its non-empty pieces
/// between white space and ASCII punctuation whose UTF-8 encoding has at least `min`
/// bytes.
pub fn words_of_lowered(lower: &str, min: usize) -> (r: Vec<String>)
    ensures
        string_views(r@) == split_kept(lower@, true, min as nat),
{
    let cs = chars_of(lower);
    split_text(&cs, true, min)
}

impl FtsSearchEngine {
    pub closed spec fn doc_entries(&self) -> Seq<(Seq<char>, DocView)> {
        self.index.documents@.map_values(|d: SearchDocument| (d.id@, d@))
    }

    pub closed spec fn summary_entries(&self) -> Seq<(Seq<char>, SummaryView)> {
        self.summaries@.map_values(|s: DocumentSummary| (s.document_id@, s@))
    }

    /// The documents, by id.
    pub closed spec fn docs_view(&self) -> Map<Seq<char>, DocView> {
        map_of(self.doc_entries())
    }

    /// The ids filed under each word.
    pub closed spec fn fts_view(&self) -> Map<Seq<char>, Seq<Seq<char>>> {
        self.index.fts_index.view_map()
    }

    /// The ids filed under each tag.
    pub closed spec fn tags_view(&self) -> Map<Seq<char>, Seq<Seq<char>>> {
        self.index.tag_index.view_map()
    }

    /// The ids filed under each document type.
    pub closed spec fn types_view(&self) -> Map<Seq<char>, Seq<Seq<char>>> {
        self.index.type_index.view_map()
    }

    /// The summaries, by document id.
    pub closed spec fn summaries_view(&self) -> Map<Seq<char>, SummaryView> {
        map_of(self.summary_entries())
    }

    /// The searches made, oldest first.
    pub closed spec fn history_view(&self) -> Seq<RecordView> {
        self.search_history@.map_values(|r: SearchRecord| r@)
    }

    /// The configuration.
    pub closed spec fn config_view(&self) -> FtsConfig {
        self.config
    }

    /// Ids and summaries are held once each, and the indexes are well formed.
    pub closed spec fn wf(&self) -> bool {
        &&& unique_keys(self.doc_entries())
        &&& unique_keys(self.summary_entries())
        &&& self.index.fts_index.wf()
        &&& self.index.tag_index.wf()
        &&& self.index.type_index.wf()
    }

    /// The word index is exactly the index of the stored texts: each stored document is
    /// filed under each word as often as the word occurs in its title and content, and
    /// no other id is filed. It holds of a new engine and is kept by every change made
    /// through the engine, except adding a document under an id already stored, which
    /// files the words again without unfiling the old ones.
    pub open spec fn index_exact(&self) -> bool {
        indexed_exactly(self.docs_view(), self.fts_view(), self.config_view().min_search_length)
    }

    /// The state that searches and summaries leave alone.
    pub open spec fn same_index(&self, other: &Self) -> bool {
        &&& self.docs_view() == other.docs_view()
        &&& self.fts_view() == other.fts_view()
        &&& self.tags_view() == other.tags_view()
        &&& self.types_view() == other.types_view()
        &&& self.config_view() == other.config_view()
    }

    /// An engine with no documents, summaries or searches.
    pub fn new(config: FtsConfig) -> (r: Self)
        ensures
            r.wf(),
            r.docs_view() == Map::<Seq<char>, DocView>::empty(),
            r.fts_view() == Map::<Seq<char>, Seq<Seq<char>>>::empty(),
            r.tags_view() == Map::<Seq<char>, Seq<Seq<char>>>::empty(),
            r.types_view() == Map::<Seq<char>, Seq<Seq<char>>>::empty(),
            r.summaries_view() == Map::<Seq<char>, SummaryView>::empty(),
            r.history_view() == Seq::<RecordView>::empty(),
            r.config_view() == config,
            r.index_exact(),
    {
        let r = FtsSearchEngine {
            index: SearchIndex {
                documents: Vec::new(),
                fts_index: PostingIndex::new(),
                tag_index: PostingIndex::new(),
                type_index: PostingIndex::new(),
            },
            summaries: Vec::new(),
            search_history: Vec::new(),
            config,
        };
        proof {
            lemma_map_of_empty(r.doc_entries());
            lemma_map_of_empty(r.summary_entries());
            law_empty_indexed_exactly(config.min_search_length);
            assert(r.history_view() =~= Seq::<RecordView>::empty());
        }
        r
    }

    /// The words of `text` that the index files.
    pub fn tokenize(&self, text: &str) -> (r: Vec<String>)
        ensures
            string_views(r@) == tokens(text@, self.config_view().min_search_length),
    {
        let lower = to_lowercase(text);
        words_of_lowered(lower.as_str(), self.config.min_search_length)
    }

    fn indexed_words(&self, d: &SearchDocument) -> (r: Vec<String>)
        ensures
            string_views(r@) == tokens(doc_text(d@), self.config_view().min_search_length),
    {
        let mut text = d.title.clone();
        push_str(&mut text, " ");
        push_str(&mut text, d.content.as_str());
        self.tokenize(text.as_str())
    }

    fn position(&self, id: &str) -> (r: Option<usize>)
        requires
            self.wf(),
        ensures
            match r {
                Some(i) => i < self.index.documents@.len() && self.index.documents@[i as int].id@ == id@
                    && self.docs_view().dom().contains(id@)
                    && self.docs_view()[id@] == self.index.documents@[i as int]@,
                None => !self.docs_view().dom().contains(id@),
            },
    {
        let mut i: usize = 0;
        while i < self.index.documents.len()
            invariant
                i <= self.index.documents@.len(),
                self.wf(),
                forall|j: int| 0 <= j < i ==> #[trigger] self.index.documents@[j].id@ != id@,
            decreases self.index.documents.len() - i,
        {
            if str_eq(self.index.documents[i].id.as_str(), id) {
                proof {
                    lemma_map_of_index(self.doc_entries(), i as int);
                }
                return Some(i);
            }
            i = i + 1;
        }
        proof {
            assert forall|j: int| 0 <= j < self.doc_entries().len() implies #[trigger] self.doc_entries()[j].0 != id@ by {
                assert(self.doc_entries()[j].0 == self.index.documents@[j].id@);
            }
            lemma_map_of_absent(self.doc_entries(), id@);
        }
        None
    }

    /// Stores `d` under its id (replacing a document with that id).
    fn put_document(&mut self, d: SearchDocument)
        requires
            old(self).wf(),
        ensures
            final(self).wf(),
            final(self).docs_view() == old(self).docs_view().insert(d.id@, d@),
            final(self).index.fts_index == old(self).index.fts_index,
            final(self).index.tag_index == old(self).index.tag_index,
            final(self).index.type_index == old(self).index.type_index,
            final(self).summaries == old(self).summaries,
            final(self).search_history == old(self).search_history,
            final(self).config == old(self).config,
    {
        let ghost es = self.doc_entries();
        let ghost dv = d@;
        let ghost key = d.id@;
        match self.position(d.id.as_str()) {
            Some(i) => {
                self.index.documents.set(i, d);
                proof {
                    assert(self.doc_entries() =~= es.update(i as int, (es[i as int].0, dv)));
                    lemma_map_of_update(es, i as int, dv);
                }
            },
            None => {
                self.index.documents.push(d);
                proof {
                    assert(self.doc_entries() =~= es.push((key, dv)));
                    assert(!has_key(es, key));
                    lemma_map_of_push(es, key, dv);
                }
            },
        }
    }

    /// Adds a document: its words, tags and type are filed under its id, and it is
    /// stored under its id (replacing one with the same id); returns the id.
    pub fn add_document(&mut self, document: SearchDocument) -> (r: Result<String, AppError>)
        requires
            old(self).wf(),
        ensures
            final(self).wf(),
            r == Ok::<String, AppError>(document.id),
            final(self).docs_view() == old(self).docs_view().insert(document.id@, document@),
            final(self).fts_view() == add_all(old(self).fts_view(), tokens(doc_text(document@), old(self).config_view().min_search_length), document.id@),
            final(self).tags_view() == add_all(old(self).tags_view(), document@.tags, document.id@),
            final(self).types_view() == add_one(old(self).types_view(), document@.document_type, document.id@),
            final(self).summaries_view() == old(self).summaries_view(),
            final(self).history_view() == old(self).history_view(),
            final(self).config_view() == old(self).config_view(),
            old(self).index_exact() && !old(self).docs_view().dom().contains(document.id@) ==> final(self).index_exact(),
            final(self).docs_view() == after_change(old(self).docs_view(), DocChange::Add(document@)),
    {
        let ghost dv = document@;
        proof {
            if old(self).index_exact() && !old(self).docs_view().dom().contains(dv.id) {
                law_add_keeps_index_exact(old(self).docs_view(), old(self).fts_view(), old(self).config_view().min_search_length, dv);
            }
        }
        let id = document.id.clone();
        let words = self.indexed_words(&document);
        self.index.fts_index.push_all(&words, &id);
        self.index.tag_index.push_all(&document.tags, &id);
        self.index.type_index.push(&document.document_type, &id);
        let ghost before = *self;
        self.put_document(document);
        proof {
            assert(self.summary_entries() == before.summary_entries());
            assert(self.history_view() == before.history_view());
        }
        assert(self.summary_entries() == old(self).summary_entries());
        Ok(id)
    }

    /// Replaces a stored document: the words of the old text are unfiled, those of the
    /// new text filed, and the document stored; tags and type stay filed as they were.
    /// `NotFound` when no document has its id.
    pub fn update_document(&mut self, document: SearchDocument) -> (r: Result<(), AppError>)
        requires
            old(self).wf(),
        ensures
            final(self).wf(),
            r is Ok <==> old(self).docs_view().dom().contains(document.id@),
            match r {
                Ok(_) => {
                    let min = old(self).config_view().min_search_length;
                    let old_doc = old(self).docs_view()[document.id@];
                    &&& final(self).docs_view() == old(self).docs_view().insert(document.id@, document@)
                    &&& final(self).fts_view() == add_all(
                        retain_all(old(self).fts_view(), tokens(doc_text(old_doc), min), document.id@, true),
                        tokens(doc_text(document@), min),
                        document.id@,
                    )
                },
                Err(e) => e is NotFound && e.message() == document_not_found(document.id@)
                    && final(self).docs_view() == old(self).docs_view()
                    && final(self).fts_view() == old(self).fts_view(),
            },
            final(self).tags_view() == old(self).tags_view(),
            final(self).types_view() == old(self).types_view(),
            final(self).summaries_view() == old(self).summaries_view(),
            final(self).history_view() == old(self).history_view(),
            final(self).config_view() == old(self).config_view(),
            old(self).index_exact() ==> final(self).index_exact(),
            final(self).docs_view() == after_change(old(self).docs_view(), DocChange::Update(document@)),
    {
        let ghost dv = document@;
        proof {
            if old(self).index_exact() && old(self).docs_view().dom().contains(dv.id) {
                law_update_keeps_index_exact(old(self).docs_view(), old(self).fts_view(), old(self).config_view().min_search_length, dv);
            }
        }
        let i = match self.position(document.id.as_str()) {
            Some(i) => i,
            None => return Err(AppError::NotFound(concat3("Document ", document.id.as_str(), " not found"))),
        };
        let old_words = self.indexed_words(&self.index.documents[i]);
        let id = document.id.clone();
        self.index.fts_index.retain_all(&old_words, id.as_str(), true);
        let words = self.indexed_words(&document);
        self.index.fts_index.push_all(&words, &id);
        self.put_document(document);
        assert(self.summary_entries() == old(self).summary_entries());
        Ok(())
    }

    /// Removes a document and unfiles it from the word index (dropping words left with
    /// no ids) and from the tag and type indexes (keeping their emptied entries). Always
    /// `Ok`, whether or not there was such a document.
    pub fn delete_document(&mut self, document_id: &str) -> (r: Result<(), AppError>)
        requires
            old(self).wf(),
        ensures
            final(self).wf(),
            r is Ok,
            !old(self).docs_view().dom().contains(document_id@) ==> final(self).same_index(old(self)),
            old(self).docs_view().dom().contains(document_id@) ==> {
                let min = old(self).config_view().min_search_length;
                let d = old(self).docs_view()[document_id@];
                &&& final(self).docs_view() == old(self).docs_view().remove(document_id@)
                &&& final(self).fts_view() == retain_all(old(self).fts_view(), tokens(doc_text(d), min), document_id@, true)
                &&& final(self).tags_view() == retain_all(old(self).tags_view(), d.tags, document_id@, false)
                &&& final(self).types_view() == retain_one(old(self).types_view(), d.document_type, document_id@, false)
                &&& final(self).config_view() == old(self).config_view()
            },
            final(self).summaries_view() == old(self).summaries_view(),
            final(self).history_view() == old(self).history_view(),
            old(self).index_exact() ==> final(self).index_exact(),
            final(self).docs_view() == after_change(old(self).docs_view(), DocChange::Delete(document_id@)),
    {
        proof {
            if !old(self).docs_view().dom().contains(document_id@) {
                assert(old(self).docs_view().remove(document_id@) =~= old(self).docs_view());
            }
            if old(self).index_exact() && old(self).docs_view().dom().contains(document_id@) {
                law_delete_keeps_index_exact(old(self).docs_view(), old(self).fts_view(), old(self).config_view().min_search_length, document_id@);
            }
        }
        let i = match self.position(document_id) {
            Some(i) => i,
            None => return Ok(()),
        };
        let ghost es = self.doc_entries();
        let doc = self.index.documents.remove(i);
        proof {
            assert(self.doc_entries() =~= es.remove(i as int));
            crate::keyed::lemma_map_of_remove(es, i as int);
        }
        let words = self.indexed_words(&doc);
        self.index.fts_index.retain_all(&words, document_id, true);
        self.index.tag_index.retain_all(&doc.tags, document_id, false);
        self.index.type_index.retain(doc.document_type.as_str(), document_id, false);
        assert(self.summary_entries() == old(self).summary_entries());
        Ok(())
    }

    /// The document `document_id`; `NotFound` when there is none.
    pub fn get_document(&self, document_id: &str) -> (r: Result<SearchDocument, AppError>)
        requires
            self.wf(),
        ensures
            r is Ok <==> self.docs_view().dom().contains(document_id@),
            match r {
                Ok(d) => d@ == self.docs_view()[document_id@],
                Err(e) => e is NotFound && e.message() == document_not_found(document_id@),
            },
    {
        match self.position(document_id) {
            Some(i) => Ok(self.index.documents[i].clone()),
            None => Err(AppError::NotFound(concat3("Document ", document_id, " not found"))),
        }
    }
    /// The highlights of `content` for the query words: its first three sentences that
    /// mention one of them (compared lower-cased), trimmed.
    pub fn extract_highlights(&self, content: &str, query_words: &Vec<String>) -> (r: Vec<String>)
        ensures
            string_views(r@) == highlights_of(content@, string_views(query_words@)),
    {
        let sents = split_sentences(content);
        let ghost sv = string_views(sents@);
        let ghost q = string_views(query_words@);
        let ghost m = mentions_any(q);
        let mut hl: Vec<String> = Vec::new();
        let mut i: usize = 0;
        proof {
            reveal(Seq::filter);
            assert(sv.take(0).filter(m) =~= Seq::<Seq<char>>::empty());
            assert(string_views(hl@) =~= trimmed_all(first_three(Seq::<Seq<char>>::empty())));
        }
        while i < sents.len()
            invariant
                i <= sents@.len(),
                sv == string_views(sents@),
                sv == sentences(content@),
                q == string_views(query_words@),
                m == mentions_any(q),
                string_views(hl@) == trimmed_all(first_three(sv.take(i as int).filter(m))),
                hl@.len() == first_three(sv.take(i as int).filter(m)).len(),
            decreases sents.len() - i,
        {
            let ghost pre = sv.take(i as int).filter(m);
            let ghost x = sv[i as int];
            proof {
                assert(sv.take(i + 1) =~= sv.take(i as int).push(x));
                sv.take(i as int).lemma_filter_push(x, m);
            }
            if hl.len() < 3 {
                let lower = to_lowercase(sents[i].as_str());
                let any = mentions_word(lower.as_str(), query_words);
                if any {
                    let t = trim_str(sents[i].as_str());
                    let ghost before = hl@;
                    hl.push(t);
                    proof {
                        assert(m(x));
                        assert(first_three(pre.push(x)) =~= pre.push(x));
                        assert(string_views(hl@) =~= string_views(before).push(trim_ws(x)));
                        assert(trimmed_all(pre.push(x)) =~= trimmed_all(pre).push(trim_ws(x)));
                    }
                } else {
                    proof {
                        assert(!m(x));
                    }
                }
            } else {
                proof {
                    if m(x) {
                        assert(first_three(pre.push(x)) =~= first_three(pre));
                    }
                }
            }
            i = i + 1;
        }
        assert(sv.take(sents@.len() as int) =~= sv);
        hl
    }

    fn score_of(&self, q: &Vec<String>, id: &str) -> (r: u128)
        requires
            self.wf(),
        ensures
            r == score(self.fts_view(), string_views(q@), id@),
    {
        let ghost qv = string_views(q@);
        let mut acc: u128 = 0;
        let mut k: usize = 0;
        assert(qv.take(0) =~= Seq::<Seq<char>>::empty());
        while k < q.len()
            invariant
                k <= q@.len(),
                self.wf(),
                qv == string_views(q@),
                acc == score(self.fts_view(), qv.take(k as int), id@),
                acc <= k * 0x1_0000_0000_0000_0000,
            decreases q.len() - k,
        {
            let c = self.index.fts_index.count(q[k].as_str(), id);
            proof {
                assert(qv.take(k + 1).drop_last() =~= qv.take(k as int));
                assert(qv.take(k + 1).last() == q@[k as int]@);
                assert(c < 0x1_0000_0000_0000_0000);
            }
            acc = acc + c as u128;
            k = k + 1;
        }
        assert(qv.take(q@.len() as int) =~= qv);
        acc
    }

    /// Searches the documents for the words of `query`, best score first, at most
    /// `max_results` of them, and records the search. A query shorter (in UTF-8 bytes)
    /// than the minimum search length finds nothing and is not recorded. The filter keys
    /// read are `document_type`, `tag` and `date_from`; a key given twice counts with
    /// its last value.
    pub fn search(&mut self, query: &str, filters: Option<Vec<(String, String)>>) -> (r: Vec<SearchResult>)
        requires
            old(self).wf(),
        ensures
            final(self).wf(),
            final(self).same_index(old(self)),
            final(self).summaries_view() == old(self).summaries_view(),
            utf8_len(query@) < old(self).config_view().min_search_length ==> r@.len() == 0
                && final(self).history_view() == old(self).history_view(),
            utf8_len(query@) >= old(self).config_view().min_search_length ==> {
                let cfg = old(self).config_view();
                let q = tokens(query@, cfg.min_search_length);
                let f = filter_pairs(filters);
                let n = count_where(old(self).docs_view(), is_hit(old(self).fts_view(), q, f));
                let rec = final(self).history_view().last();
                &&& final(self).history_view().len() == old(self).history_view().len() + 1
                &&& final(self).history_view().drop_last() == old(self).history_view()
                &&& rec.query == query@
                &&& rec.results_count == n
                &&& rec.filters == f
                &&& 0 <= rec.timestamp < MAX_TIMESTAMP
                &&& r@.len() == if n < cfg.max_results { n } else { cfg.max_results as nat }
                &&& results_fit(r@.map_values(|x: SearchResult| x@), old(self).docs_view(), old(self).fts_view(), q, f, cfg.enable_highlights, cfg.max_results)
            },
    {
        let qlen = utf8_byte_len(query);
        if qlen < self.config.min_search_length as u128 {
            return Vec::new();
        }
        let q = self.tokenize(query);
        let ghost fp = filter_pairs(filters);
        let pairs = match filters {
            Some(f) => f,
            None => Vec::new(),
        };
        assert(pair_views(pairs@) =~= fp);
        let dt = lookup_filter(&pairs, "document_type");
        let tag = lookup_filter(&pairs, "tag");
        let date_text = lookup_filter(&pairs, "date_from");
        let date_from = match &date_text {
            Some(t) => parse_i64(t.as_str()),
            None => None,
        };
        let ghost qv = string_views(q@);
        let ghost fv = pair_views(pairs@);
        let ghost h = is_hit(self.fts_view(), qv, fv);
        let ghost es = self.doc_entries();
        let ghost docs = self.docs_view();
        let ghost fts = self.fts_view();
        let hl_on = self.config.enable_highlights;
        let mut out: Vec<SearchResult> = Vec::new();
        let mut i: usize = 0;
        proof {
            reveal(Seq::filter);
            assert(es.take(0).filter(value_pred(h)) =~= Seq::<(Seq<char>, DocView)>::empty());
            assert(result_views(out@) =~= Seq::<ResultView>::empty());
        }
        while i < self.index.documents.len()
            invariant
                i <= self.index.documents@.len(),
                self.wf(),
                es == self.doc_entries(),
                docs == self.docs_view(),
                fts == self.fts_view(),
                qv == string_views(q@),
                fv == pair_views(pairs@),
                h == is_hit(fts, qv, fv),
                hl_on == self.config_view().enable_highlights,
                opt_view(dt) == filter_value(fv, "document_type"@),
                opt_view(tag) == filter_value(fv, "tag"@),
                opt_view(date_text) == filter_value(fv, "date_from"@),
                date_from == match opt_view(date_text) { Some(t) => parse_i64_spec(t), None => None },
                out@.len() == es.take(i as int).filter(value_pred(h)).len(),
                found_so_far(result_views(out@), es, i as int, docs, fts, qv, fv, hl_on),
            decreases self.index.documents.len() - i,
        {
            let d = &self.index.documents[i];
            let ghost x = es[i as int];
            proof {
                assert(x == (d.id@, d@));
                assert(es.take(i + 1) =~= es.take(i as int).push(x));
                es.take(i as int).lemma_filter_push(x, value_pred(h));
                lemma_map_of_index(es, i as int);
            }
            let s = self.score_of(&q, d.id.as_str());
            let type_ok = match &dt {
                Some(v) => str_eq(d.document_type.as_str(), v.as_str()),
                None => true,
            };
            let tag_ok = match &tag {
                Some(t) => strings_contain(&d.tags, t.as_str()),
                None => true,
            };
            let date_ok = match date_from {
                Some(ts) => d.created_at >= ts,
                None => true,
            };
            if s > 0 && type_ok && tag_ok && date_ok {
                let highlights = if hl_on {
                    self.extract_highlights(d.content.as_str(), &q)
                } else {
                    Vec::new()
                };
                let res = SearchResult { document: d.clone(), score: s, highlights };
                proof {
                    assert(h(d@));
                    assert(result_ok(res@, docs, fts, qv, fv, hl_on)) by {
                        if !hl_on {
                            assert(res@.highlights =~= Seq::<Seq<char>>::empty());
                        }
                    }
                }
                let p = insert_position(&out, s);
                let ghost before = result_views(out@);
                let ghost rv = res@;
                out.insert(p, res);
                proof {
                    assert(result_views(out@) =~= before.insert(p as int, rv));
                    lemma_found_insert(before, p as int, rv, es, i as int, docs, fts, qv, fv, hl_on);
                }
            } else {
                proof {
                    assert(!h(d@));
                    lemma_found_skip(result_views(out@), es, i as int, docs, fts, qv, fv, hl_on);
                }
            }
            i = i + 1;
        }
        proof {
            assert(es.take(es.len() as int) =~= es);
            lemma_count_where(es, h);
        }
        let count = out.len();
        let ghost full = result_views(out@);
        out.truncate(self.config.max_results);
        proof {
            let rs = out@.map_values(|x: SearchResult| x@);
            assert(rs =~= result_views(out@));
            let max = self.config.max_results;
            assert forall|dd: Seq<char>| #[trigger] docs.dom().contains(dd) && h(docs[dd]) implies
                (exists|a: int| 0 <= a < rs.len() && #[trigger] rs[a].document.id == dd)
                || (rs.len() == max && (max == 0 || score(fts, qv, dd) <= rs[rs.len() - 1].score)) by {
                let j = choose|j: int| 0 <= j < es.len() && es[j].0 == dd;
                lemma_map_of_index(es, j);
                assert(h(es[j].1));
                let a = choose|a: int| 0 <= a < full.len() && #[trigger] full[a].document.id == es[j].0;
                if a < rs.len() {
                    assert(rs[a] == full[a]);
                } else {
                    assert(result_ok(full[a], docs, fts, qv, fv, hl_on));
                    if max > 0 {
                        assert(rs[rs.len() - 1] == full[max - 1]);
                        assert(full[max - 1].score >= full[a].score);
                    }
                }
            }
            assert forall|a: int| 0 <= a < rs.len() implies result_ok(#[trigger] rs[a], docs, fts, qv, fv, hl_on) by {
                assert(rs[a] == full[a]);
            }
            assert forall|a: int, b: int| 0 <= a < b < rs.len() implies #[trigger] rs[a].document.id != #[trigger] rs[b].document.id by {
                assert(rs[a] == full[a]);
                assert(rs[b] == full[b]);
            }
            assert forall|a: int, b: int| 0 <= a < b < rs.len() implies #[trigger] rs[a].score >= #[trigger] rs[b].score by {
                assert(rs[a] == full[a]);
                assert(rs[b] == full[b]);
            }
        }
        let record = SearchRecord {
            id: new_uuid(),
            query: str_to_string(query),
            results_count: count,
            timestamp: now_timestamp(),
            filters: pairs,
        };
        let ghost rv = record@;
        let ghost hist = self.history_view();
        self.search_history.push(record);
        proof {
            assert(self.history_view() =~= hist.push(rv));
            assert(self.history_view().drop_last() =~= hist);
            assert(self.summary_entries() == old(self).summary_entries());
            assert(out@.map_values(|x: SearchResult| x@) =~= result_views(out@));
        }
        out
    }
    /// The extractive summary of `content` within `max_length` bytes.
    pub fn extractive_summary(&self, content: &str, max_length: usize) -> (r: String)
        ensures
            r@ == summary_text(content@, max_length as nat),
    {
        let sents = split_sentences(content);
        let ghost sv = string_views(sents@);
        let mut acc = String::new();
        let mut acc_bytes: u128 = 0;
        let mut stopped = false;
        let mut i: usize = 0;
        proof {
            assert(sv.skip(0) =~= sv);
            assert(acc@ =~= Seq::<char>::empty());
        }
        while i < sents.len() && !stopped
            invariant
                i <= sents@.len(),
                sv == string_views(sents@),
                acc_bytes == utf8_len(acc@),
                acc_bytes <= 4 * (usize::MAX as int),
                !stopped ==> summary_acc(sv, max_length as nat, Seq::empty()) == summary_acc(sv.skip(i as int), max_length as nat, acc@),
                stopped ==> summary_acc(sv, max_length as nat, Seq::empty()) == acc@,
            decreases sents.len() - i + if stopped { 0int } else { 1int },
        {
            let t = trim_str(sents[i].as_str());
            let tb = utf8_byte_len(t.as_str());
            proof {
                let rest = sv.skip(i as int);
                assert(rest[0] == sv[i as int]);
                assert(rest.drop_first() =~= sv.skip(i + 1));
            }
            if acc_bytes + tb + 1 > max_length as u128 {
                stopped = true;
            } else {
                if acc.as_str().is_empty() {
                    acc = t;
                } else {
                    push_str(&mut acc, ". ");
                    push_str(&mut acc, t.as_str());
                }
                acc_bytes = utf8_byte_len(acc.as_str());
                i = i + 1;
            }
        }
        proof {
            if !stopped {
                assert(sv.skip(i as int) =~= Seq::<Seq<char>>::empty());
            }
        }
        let content_bytes = utf8_byte_len(content);
        let cs = chars_of(acc.as_str());
        let ends_dot = cs.len() > 0 && cs[cs.len() - 1] == '.';
        if acc_bytes < content_bytes && !ends_dot {
            push_str(&mut acc, "...");
        }
        acc
    }

    /// The key points of `content`: of its first `max_points` sentences, the trimmed
    /// ones longer than 20 bytes.
    pub fn extract_key_points(&self, content: &str, max_points: usize) -> (r: Vec<String>)
        ensures
            string_views(r@) == key_points_of(content@, max_points as nat),
    {
        let sents = split_sentences(content);
        let ghost sv = string_views(sents@);
        let n = if max_points < sents.len() { max_points } else { sents.len() };
        let ghost tr = trimmed_all(sv.take(n as int));
        let mut out: Vec<String> = Vec::new();
        let mut i: usize = 0;
        proof {
            reveal(Seq::filter);
            assert(tr.take(0).filter(long_point()) =~= Seq::<Seq<char>>::empty());
        }
        while i < n
            invariant
                i <= n,
                n <= sents@.len(),
                sv == string_views(sents@),
                tr == trimmed_all(sv.take(n as int)),
                string_views(out@) == tr.take(i as int).filter(long_point()),
            decreases n - i,
        {
            let t = trim_str(sents[i].as_str());
            let tb = utf8_byte_len(t.as_str());
            proof {
                assert(tr[i as int] == trim_ws(sv[i as int]));
                assert(tr.take(i + 1) =~= tr.take(i as int).push(tr[i as int]));
                tr.take(i as int).lemma_filter_push(tr[i as int], long_point());
            }
            if tb > 20 {
                let ghost before = string_views(out@);
                out.push(t);
                proof {
                    assert(string_views(out@) =~= before.push(tr[i as int]));
                }
            }
            i = i + 1;
        }
        proof {
            assert(tr.take(n as int) =~= tr);
        }
        out
    }

    /// The sentiment of `content`: `positive`, `negative` or `neutral`.
    pub fn analyze_document_sentiment(&self, content: &str) -> (r: String)
        ensures
            r@ == sentiment_of(content@),
    {
        let lower = to_lowercase(content);
        let pos_words: [&str; 7] = ["good", "great", "excellent", "positive", "beneficial", "successful", "improved"];
        let neg_words: [&str; 7] = ["bad", "poor", "negative", "failed", "error", "problem", "issue"];
        let p = count_contained(lower.as_str(), &pos_words);
        let n = count_contained(lower.as_str(), &neg_words);
        proof {
            assert(pos_words@.map_values(|w: &str| w@) =~= positive_words());
            assert(neg_words@.map_values(|w: &str| w@) =~= negative_words());
        }
        if p > n {
            str_to_string("positive")
        } else if n > p {
            str_to_string("negative")
        } else {
            str_to_string("neutral")
        }
    }

    /// The topics that `content` mentions, in the order of the topic list.
    pub fn extract_topics(&self, content: &str) -> (r: Vec<String>)
        ensures
            string_views(r@) == topics_of(content@),
    {
        let lower = to_lowercase(content);
        let topics: [&str; 10] = [
            "technology", "science", "business", "health", "education",
            "programming", "ai", "machine learning", "data", "security",
        ];
        let r = contained_words(lower.as_str(), &topics);
        proof {
            assert(topics@.map_values(|w: &str| w@) =~= common_topics());
        }
        r
    }

    /// Summarises the document `document_id` (summary, key points, sentiment, topics)
    /// and keeps the summary under its id, replacing an earlier one; `NotFound` when
    /// there is no such document.
    pub fn generate_summary(&mut self, document_id: &str) -> (r: Result<DocumentSummary, AppError>)
        requires
            old(self).wf(),
        ensures
            final(self).wf(),
            final(self).same_index(old(self)),
            final(self).history_view() == old(self).history_view(),
            r is Ok <==> old(self).docs_view().dom().contains(document_id@),
            match r {
                Ok(sm) => {
                    let c = old(self).docs_view()[document_id@].content;
                    &&& sm@.document_id == document_id@
                    &&& sm@.summary == summary_text(c, old(self).config_view().summary_max_length as nat)
                    &&& sm@.key_points == key_points_of(c, 5)
                    &&& sm@.sentiment == sentiment_of(c)
                    &&& sm@.topics == topics_of(c)
                    &&& 0 <= sm@.generated_at < MAX_TIMESTAMP
                    &&& final(self).summaries_view() == old(self).summaries_view().insert(document_id@, sm@)
                },
                Err(e) => e is NotFound && e.message() == document_not_found(document_id@)
                    && final(self).summaries_view() == old(self).summaries_view(),
            },
    {
        let i = match self.position(document_id) {
            Some(i) => i,
            None => return Err(AppError::NotFound(concat3("Document ", document_id, " not found"))),
        };
        let content = self.index.documents[i].content.as_str();
        let summary = self.extractive_summary(content, self.config.summary_max_length);
        let key_points = self.extract_key_points(content, 5);
        let sentiment = self.analyze_document_sentiment(content);
        let topics = self.extract_topics(content);
        let sm = DocumentSummary {
            document_id: str_to_string(document_id),
            summary,
            key_points,
            sentiment,
            topics,
            generated_at: now_timestamp(),
        };
        let out = sm.clone();
        self.put_summary(sm);
        Ok(out)
    }

    fn put_summary(&mut self, sm: DocumentSummary)
        requires
            old(self).wf(),
        ensures
            final(self).wf(),
            final(self).same_index(old(self)),
            final(self).history_view() == old(self).history_view(),
            final(self).summaries_view() == old(self).summaries_view().insert(sm.document_id@, sm@),
    {
        let ghost es = self.summary_entries();
        let ghost sv = sm@;
        let ghost key = sm.document_id@;
        match self.summary_position(sm.document_id.as_str()) {
            Some(i) => {
                proof {
                    assert(es[i as int].0 == key);
                }
                self.summaries.set(i, sm);
                proof {
                    assert(self.summary_entries() =~= es.update(i as int, (es[i as int].0, sv)));
                    lemma_map_of_update(es, i as int, sv);
                }
            },
            None => {
                self.summaries.push(sm);
                proof {
                    assert(self.summary_entries() =~= es.push((key, sv)));
                    assert(!has_key(es, key)) by {
                        if has_key(es, key) {
                            let a = choose|a: int| 0 <= a < es.len() && es[a].0 == key;
                            assert(self.summaries@[a].document_id@ == es[a].0);
                        }
                    }
                    lemma_map_of_push(es, key, sv);
                }
            },
        }
    }

    fn summary_position(&self, document_id: &str) -> (r: Option<usize>)
        requires
            self.wf(),
        ensures
            match r {
                Some(i) => i < self.summaries@.len() && self.summaries@[i as int].document_id@ == document_id@
                    && self.summaries_view().dom().contains(document_id@)
                    && self.summaries_view()[document_id@] == self.summaries@[i as int]@,
                None => !self.summaries_view().dom().contains(document_id@)
                    && forall|j: int| 0 <= j < self.summaries@.len() ==> #[trigger] self.summaries@[j].document_id@ != document_id@,
            },
    {
        let mut i: usize = 0;
        while i < self.summaries.len()
            invariant
                i <= self.summaries@.len(),
                self.wf(),
                forall|j: int| 0 <= j < i ==> #[trigger] self.summaries@[j].document_id@ != document_id@,
            decreases self.summaries.len() - i,
        {
            if str_eq(self.summaries[i].document_id.as_str(), document_id) {
                proof {
                    lemma_map_of_index(self.summary_entries(), i as int);
                }
                return Some(i);
            }
            i = i + 1;
        }
        proof {
            assert forall|j: int| 0 <= j < self.summary_entries().len() implies #[trigger] self.summary_entries()[j].0 != document_id@ by {
                assert(self.summary_entries()[j].0 == self.summaries@[j].document_id@);
            }
            lemma_map_of_absent(self.summary_entries(), document_id@);
        }
        None
    }

    /// The summary kept for `document_id`; `NotFound` when there is none.
    pub fn get_summary(&self, document_id: &str) -> (r: Result<DocumentSummary, AppError>)
        requires
            self.wf(),
        ensures
            r is Ok <==> self.summaries_view().dom().contains(document_id@),
            match r {
                Ok(sm) => sm@ == self.summaries_view()[document_id@],
                Err(e) => e is NotFound && e.message() == summary_not_found(document_id@),
            },
    {
        match self.summary_position(document_id) {
            Some(i) => Ok(self.summaries[i].clone()),
            None => Err(AppError::NotFound(concat3("Summary for document ", document_id, " not found"))),
        }
    }

    /// The stored documents that pass the filters (all of them when there are none),
    /// newest first. The filter keys read are `document_type` and `tag`.
    pub fn list_documents(&self, filters: Option<Vec<(String, String)>>) -> (r: Vec<SearchDocument>)
        requires
            self.wf(),
        ensures
            ({
                let p = list_passes(filter_pairs(filters));
                let rs = r@.map_values(|d: SearchDocument| d@);
                &&& r@.len() == count_where(self.docs_view(), p)
                &&& forall|a: int| 0 <= a < rs.len() ==> self.docs_view().dom().contains((#[trigger] rs[a]).id)
                    && self.docs_view()[rs[a].id] == rs[a] && p(rs[a])
                &&& forall|a: int, b: int| 0 <= a < b < rs.len() ==> #[trigger] rs[a].id != #[trigger] rs[b].id
                &&& forall|a: int, b: int| 0 <= a < b < rs.len() ==> #[trigger] rs[a].created_at >= #[trigger] rs[b].created_at
                &&& forall|d: Seq<char>| #[trigger] self.docs_view().dom().contains(d) && p(self.docs_view()[d]) ==>
                    exists|a: int| 0 <= a < rs.len() && #[trigger] rs[a].id == d
            }),
    {
        let ghost fp = filter_pairs(filters);
        let pairs = match filters {
            Some(f) => f,
            None => Vec::new(),
        };
        assert(pair_views(pairs@) =~= fp);
        let dt = lookup_filter(&pairs, "document_type");
        let tag = lookup_filter(&pairs, "tag");
        let ghost p = list_passes(fp);
        let ghost es = self.doc_entries();
        let ghost docs = self.docs_view();
        let mut out: Vec<SearchDocument> = Vec::new();
        let mut i: usize = 0;
        proof {
            reveal(Seq::filter);
            assert(es.take(0).filter(value_pred(p)) =~= Seq::<(Seq<char>, DocView)>::empty());
            assert(doc_views(out@) =~= Seq::<DocView>::empty());
        }
        while i < self.index.documents.len()
            invariant
                i <= self.index.documents@.len(),
                self.wf(),
                es == self.doc_entries(),
                docs == self.docs_view(),
                p == list_passes(fp),
                opt_view(dt) == filter_value(fp, "document_type"@),
                opt_view(tag) == filter_value(fp, "tag"@),
                out@.len() == es.take(i as int).filter(value_pred(p)).len(),
                listed_so_far(doc_views(out@), es, i as int, docs, p),
            decreases self.index.documents.len() - i,
        {
            let d = &self.index.documents[i];
            let ghost x = es[i as int];
            proof {
                assert(x == (d.id@, d@));
                assert(es.take(i + 1) =~= es.take(i as int).push(x));
                es.take(i as int).lemma_filter_push(x, value_pred(p));
                lemma_map_of_index(es, i as int);
            }
            let type_ok = match &dt {
                Some(v) => str_eq(d.document_type.as_str(), v.as_str()),
                None => true,
            };
            let tag_ok = match &tag {
                Some(t) => strings_contain(&d.tags, t.as_str()),
                None => true,
            };
            if type_ok && tag_ok {
                let c = d.clone();
                let pos = doc_insert_position(&out, d.created_at);
                let ghost before = doc_views(out@);
                let ghost cv = c@;
                out.insert(pos, c);
                proof {
                    assert(doc_views(out@) =~= before.insert(pos as int, cv));
                    lemma_listed_insert(before, pos as int, cv, es, i as int, docs, p);
                }
            } else {
                proof {
                    lemma_listed_skip(doc_views(out@), es, i as int, docs, p);
                }
            }
            i = i + 1;
        }
        proof {
            assert(es.take(es.len() as int) =~= es);
            lemma_count_where(es, p);
            assert(out@.map_values(|d: SearchDocument| d@) =~= doc_views(out@));
            assert forall|dd: Seq<char>| #[trigger] docs.dom().contains(dd) && p(docs[dd]) implies
                exists|a: int| 0 <= a < doc_views(out@).len() && #[trigger] doc_views(out@)[a].id == dd by {
                let j = choose|j: int| 0 <= j < es.len() && es[j].0 == dd;
                lemma_map_of_index(es, j);
                assert(p(es[j].1));
            }
        }
        out
    }

    /// The last `limit` searches, oldest first.
    pub fn get_search_history(&self, limit: usize) -> (r: Vec<SearchRecord>)
        ensures
            ({
                let h = self.history_view();
                let start = if limit < h.len() { h.len() - limit } else { 0 };
                r@.map_values(|x: SearchRecord| x@) == h.subrange(start, h.len() as int)
            }),
    {
        let n = self.search_history.len();
        let start = n - if limit < n { limit } else { n };
        let mut out: Vec<SearchRecord> = Vec::new();
        let mut i: usize = start;
        while i < n
            invariant
                start <= i <= n,
                n == self.search_history@.len(),
                out@.map_values(|x: SearchRecord| x@) == self.history_view().subrange(start as int, i as int),
            decreases n - i,
        {
            let ghost before = out@;
            let x = self.search_history[i].clone();
            out.push(x);
            proof {
                assert(out@.map_values(|x: SearchRecord| x@) =~= before.map_values(|x: SearchRecord| x@).push(x@));
                assert(self.history_view().subrange(start as int, i + 1) =~= self.history_view().subrange(start as int, i as int).push(self.history_view()[i as int]));
            }
            i = i + 1;
        }
        out
    }

    /// Counts of documents, summaries, searches and indexed words, and how many
    /// documents there are of each type.
    pub fn get_stats(&self) -> (r: FtsStats)
        requires
            self.wf(),
        ensures
            r.total_documents == self.docs_view().dom().len(),
            r.total_summaries == self.summaries_view().dom().len(),
            r.total_searches == self.history_view().len(),
            r.index_size == self.fts_view().dom().len(),
            unique_keys(tally_entries(r.document_types@)),
            forall|t: Seq<char>| #[trigger] map_of(tally_entries(r.document_types@)).dom().contains(t)
                <==> count_where(self.docs_view(), of_type(t)) > 0,
            forall|t: Seq<char>| #[trigger] map_of(tally_entries(r.document_types@)).dom().contains(t)
                ==> map_of(tally_entries(r.document_types@))[t] == count_where(self.docs_view(), of_type(t)),
    {
        let mut types: Vec<String> = Vec::new();
        let mut i: usize = 0;
        let ghost es = self.doc_entries();
        while i < self.index.documents.len()
            invariant
                i <= self.index.documents@.len(),
                es == self.doc_entries(),
                string_views(types@) == types_of(es.take(i as int)),
            decreases self.index.documents.len() - i,
        {
            let ghost before = string_views(types@);
            types.push(self.index.documents[i].document_type.clone());
            proof {
                assert(es.take(i + 1) =~= es.take(i as int).push(es[i as int]));
                assert(string_views(types@) =~= before.push(es[i as int].1.document_type));
                assert(types_of(es.take(i + 1)) =~= types_of(es.take(i as int)).push(es[i as int].1.document_type));
            }
            i = i + 1;
        }
        proof {
            assert(es.take(es.len() as int) =~= es);
            lemma_map_of_len(es);
            lemma_map_of_len(self.summary_entries());
        }
        let counts = count_occurrences(&types);
        proof {
            let m = map_of(tally_entries(counts@));
            assert forall|t: Seq<char>| #[trigger] m.dom().contains(t) <==> count_where(self.docs_view(), of_type(t)) > 0 by {
                lemma_types_count(es, t);
                lemma_count_where(es, of_type(t));
                crate::text::lemma_filter_absent_converse(types_of(es), t);
            }
            assert forall|t: Seq<char>| #[trigger] m.dom().contains(t) implies m[t] == count_where(self.docs_view(), of_type(t)) by {
                lemma_types_count(es, t);
                lemma_count_where(es, of_type(t));
            }
        }
        FtsStats {
            total_documents: self.index.documents.len(),
            total_summaries: self.summaries.len(),
            total_searches: self.search_history.len(),
            index_size: self.index.fts_index.key_count(),
            document_types: counts,
        }
    }
}

/// The types of the documents of some entries, in order.
pub open spec fn types_of(es: Seq<(Seq<char>, DocView)>) -> Seq<Seq<char>> {
    es.map_values(|e: (Seq<char>, DocView)| e.1.document_type)
}

/// Counting a type among the types is counting the entries of that type.
pub proof fn lemma_types_count(es: Seq<(Seq<char>, DocView)>, t: Seq<char>)
    ensures
        types_of(es).filter(eq_to(t)).len() == es.filter(value_pred(of_type(t))).len(),
    decreases es.len(),
{
    if es.len() == 0 {
        assert(types_of(es).filter(eq_to(t)) =~= Seq::<Seq<char>>::empty()) by {
            reveal(Seq::filter);
        }
        assert(es.filter(value_pred(of_type(t))) =~= Seq::<(Seq<char>, DocView)>::empty()) by {
            reveal(Seq::filter);
        }
    } else {
        let init = es.drop_last();
        let x = es.last();
        assert(es =~= init.push(x));
        assert(types_of(es) =~= types_of(init).push(x.1.document_type));
        lemma_types_count(init, t);
        types_of(init).lemma_filter_push(x.1.document_type, eq_to(t));
        init.lemma_filter_push(x, value_pred(of_type(t)));
    }
}

/// The views of some documents.
pub open spec fn doc_views(v: Seq<SearchDocument>) -> Seq<DocView> {
    v.map_values(|d: SearchDocument| d@)
}

/// A document that does not pass leaves the gathered list as it was.
pub proof fn lemma_listed_skip(
    out: Seq<DocView>,
    es: Seq<(Seq<char>, DocView)>,
    n: int,
    docs: Map<Seq<char>, DocView>,
    p: spec_fn(DocView) -> bool,
)
    requires
        0 <= n < es.len(),
        listed_so_far(out, es, n, docs, p),
        !p(es[n].1),
    ensures
        listed_so_far(out, es, n + 1, docs, p),
{
    assert forall|a: int| 0 <= a < out.len() implies id_among(es, n + 1, (#[trigger] out[a]).id) by {
        assert(id_among(es, n, out[a].id));
    }
}

/// Inserting a passing document where its creation time belongs keeps the gathered
/// list in order.
pub proof fn lemma_listed_insert(
    out: Seq<DocView>,
    pos: int,
    dv: DocView,
    es: Seq<(Seq<char>, DocView)>,
    n: int,
    docs: Map<Seq<char>, DocView>,
    p: spec_fn(DocView) -> bool,
)
    requires
        0 <= n < es.len(),
        unique_keys(es),
        0 <= pos <= out.len(),
        listed_so_far(out, es, n, docs, p),
        dv == es[n].1,
        dv.id == es[n].0,
        docs.dom().contains(dv.id),
        docs[dv.id] == dv,
        p(dv),
        forall|k: int| 0 <= k < pos ==> #[trigger] out[k].created_at >= dv.created_at,
        forall|k: int| pos <= k < out.len() ==> #[trigger] out[k].created_at < dv.created_at,
    ensures
        listed_so_far(out.insert(pos, dv), es, n + 1, docs, p),
{
    let o2 = out.insert(pos, dv);
    assert forall|a: int| 0 <= a < o2.len() implies docs.dom().contains((#[trigger] o2[a]).id) && docs[o2[a].id] == o2[a] && p(o2[a]) by {
        if a < pos {
            assert(o2[a] == out[a]);
        } else if a > pos {
            assert(o2[a] == out[a - 1]);
        }
    }
    assert forall|a: int| 0 <= a < o2.len() implies id_among(es, n + 1, (#[trigger] o2[a]).id) by {
        if a < pos {
            assert(o2[a] == out[a]);
            assert(id_among(es, n, out[a].id));
        } else if a > pos {
            assert(o2[a] == out[a - 1]);
            assert(id_among(es, n, out[a - 1].id));
        } else {
            assert(es[n].0 == o2[a].id);
        }
    }
    assert forall|a: int, b: int| 0 <= a < b < o2.len() implies #[trigger] o2[a].id != #[trigger] o2[b].id by {
        if a != pos && b != pos {
            let a0 = if a < pos { a } else { a - 1 };
            let b0 = if b < pos { b } else { b - 1 };
            assert(o2[a] == out[a0]);
            assert(o2[b] == out[b0]);
        } else {
            let o = if a == pos { b } else { a };
            let o0 = if o < pos { o } else { o - 1 };
            assert(o2[o] == out[o0]);
            assert(id_among(es, n, out[o0].id));
            let j = choose|j: int| 0 <= j < n && #[trigger] es[j].0 == out[o0].id;
            assert(es[j].0 != es[n].0);
        }
    }
    assert forall|a: int, b: int| 0 <= a < b < o2.len() implies #[trigger] o2[a].created_at >= #[trigger] o2[b].created_at by {
        let a0 = if a < pos { a } else { a - 1 };
        let b0 = if b < pos { b } else { b - 1 };
        if a != pos {
            assert(o2[a] == out[a0]);
        }
        if b != pos {
            assert(o2[b] == out[b0]);
        }
    }
    assert forall|j: int| 0 <= j < n + 1 && p(#[trigger] es[j].1) implies exists|a: int| 0 <= a < o2.len() && #[trigger] o2[a].id == es[j].0 by {
        if j < n {
            let a = choose|a: int| 0 <= a < out.len() && #[trigger] out[a].id == es[j].0;
            if a < pos {
                assert(o2[a] == out[a]);
            } else {
                assert(o2[a + 1] == out[a]);
            }
        } else {
            assert(o2[pos].id == es[j].0);
        }
    }
}

/// The first position whose document was created before `t` in a list sorted newest
/// first.
fn doc_insert_position(out: &Vec<SearchDocument>, t: i64) -> (p: usize)
    requires
        forall|a: int, b: int| 0 <= a < b < out@.len() ==> #[trigger] doc_views(out@)[a].created_at >= #[trigger] doc_views(out@)[b].created_at,
    ensures
        p <= out@.len(),
        forall|k: int| 0 <= k < p ==> #[trigger] doc_views(out@)[k].created_at >= t,
        forall|k: int| p <= k < out@.len() ==> #[trigger] doc_views(out@)[k].created_at < t,
{
    let mut p: usize = 0;
    while p < out.len() && out[p].created_at >= t
        invariant
            p <= out@.len(),
            forall|k: int| 0 <= k < p ==> #[trigger] doc_views(out@)[k].created_at >= t,
        decreases out.len() - p,
    {
        assert(doc_views(out@)[p as int] == out@[p as int]@);
        p = p + 1;
    }
    proof {
        assert forall|k: int| p <= k < out@.len() implies #[trigger] doc_views(out@)[k].created_at < t by {
            assert(doc_views(out@)[p as int] == out@[p as int]@);
            if k > p {
                assert(doc_views(out@)[p as int].created_at >= doc_views(out@)[k].created_at);
            }
        }
    }
    p
}

/// How many of the words the text contains.
fn count_contained(t: &str, words: &[&str]) -> (n: usize)
    ensures
        n == words@.map_values(|w: &str| w@).filter(contained_in(t@)).len(),
{
    let ghost ws = words@.map_values(|w: &str| w@);
    let mut n: usize = 0;
    let mut i: usize = 0;
    proof {
        reveal(Seq::filter);
        assert(ws.take(0).filter(contained_in(t@)) =~= Seq::<Seq<char>>::empty());
    }
    while i < words.len()
        invariant
            i <= words@.len(),
            ws == words@.map_values(|w: &str| w@),
            n == ws.take(i as int).filter(contained_in(t@)).len(),
            n <= i,
        decreases words.len() - i,
    {
        proof {
            assert(ws.take(i + 1) =~= ws.take(i as int).push(ws[i as int]));
            ws.take(i as int).lemma_filter_push(ws[i as int], contained_in(t@));
        }
        if str_contains(t, words[i]) {
            n = n + 1;
        }
        i = i + 1;
    }
    assert(ws.take(words@.len() as int) =~= ws);
    n
}

/// The words the text contains, in order.
fn contained_words(t: &str, words: &[&str]) -> (r: Vec<String>)
    ensures
        string_views(r@) == words@.map_values(|w: &str| w@).filter(contained_in(t@)),
{
    let ghost ws = words@.map_values(|w: &str| w@);
    let mut out: Vec<String> = Vec::new();
    let mut i: usize = 0;
    proof {
        reveal(Seq::filter);
        assert(ws.take(0).filter(contained_in(t@)) =~= Seq::<Seq<char>>::empty());
    }
    while i < words.len()
        invariant
            i <= words@.len(),
            ws == words@.map_values(|w: &str| w@),
            string_views(out@) == ws.take(i as int).filter(contained_in(t@)),
        decreases words.len() - i,
    {
        proof {
            assert(ws.take(i + 1) =~= ws.take(i as int).push(ws[i as int]));
            ws.take(i as int).lemma_filter_push(ws[i as int], contained_in(t@));
        }
        if str_contains(t, words[i]) {
            let ghost before = string_views(out@);
            out.push(str_to_string(words[i]));
            proof {
                assert(string_views(out@) =~= before.push(ws[i as int]));
            }
        }
        i = i + 1;
    }
    assert(ws.take(words@.len() as int) =~= ws);
    out
}


/// The views of some results.
pub open spec fn result_views(v: Seq<SearchResult>) -> Seq<ResultView> {
    v.map_values(|x: SearchResult| x@)
}

/// What the results gathered from the first `n` stored documents satisfy: each shows a
/// found document among those `n`, once, best score first, and every found one of them
/// is there.
pub open spec fn found_so_far(
    out: Seq<ResultView>,
    es: Seq<(Seq<char>, DocView)>,
    n: int,
    docs: Map<Seq<char>, DocView>,
    fts: Map<Seq<char>, Seq<Seq<char>>>,
    qv: Seq<Seq<char>>,
    fv: Seq<(Seq<char>, Seq<char>)>,
    hl: bool,
) -> bool {
    &&& forall|a: int| 0 <= a < out.len() ==> result_ok(#[trigger] out[a], docs, fts, qv, fv, hl)
    &&& forall|a: int| 0 <= a < out.len() ==> id_among(es, n, (#[trigger] out[a]).document.id)
    &&& forall|a: int, b: int| 0 <= a < b < out.len() ==> #[trigger] out[a].document.id != #[trigger] out[b].document.id
    &&& forall|a: int, b: int| 0 <= a < b < out.len() ==> #[trigger] out[a].score >= #[trigger] out[b].score
    &&& forall|j: int| 0 <= j < n && is_hit(fts, qv, fv)(#[trigger] es[j].1) ==>
        exists|a: int| 0 <= a < out.len() && #[trigger] out[a].document.id == es[j].0
}

/// A document that is not found leaves the gathered results as they were.
pub proof fn lemma_found_skip(
    out: Seq<ResultView>,
    es: Seq<(Seq<char>, DocView)>,
    n: int,
    docs: Map<Seq<char>, DocView>,
    fts: Map<Seq<char>, Seq<Seq<char>>>,
    qv: Seq<Seq<char>>,
    fv: Seq<(Seq<char>, Seq<char>)>,
    hl: bool,
)
    requires
        0 <= n < es.len(),
        found_so_far(out, es, n, docs, fts, qv, fv, hl),
        !is_hit(fts, qv, fv)(es[n].1),
    ensures
        found_so_far(out, es, n + 1, docs, fts, qv, fv, hl),
{
    assert forall|a: int| 0 <= a < out.len() implies id_among(es, n + 1, (#[trigger] out[a]).document.id) by {
        assert(id_among(es, n, out[a].document.id));
    }
}

/// Inserting the result of a found document where its score belongs keeps the gathered
/// results in order.
pub proof fn lemma_found_insert(
    out: Seq<ResultView>,
    p: int,
    rv: ResultView,
    es: Seq<(Seq<char>, DocView)>,
    n: int,
    docs: Map<Seq<char>, DocView>,
    fts: Map<Seq<char>, Seq<Seq<char>>>,
    qv: Seq<Seq<char>>,
    fv: Seq<(Seq<char>, Seq<char>)>,
    hl: bool,
)
    requires
        0 <= n < es.len(),
        unique_keys(es),
        0 <= p <= out.len(),
        found_so_far(out, es, n, docs, fts, qv, fv, hl),
        rv.document.id == es[n].0,
        result_ok(rv, docs, fts, qv, fv, hl),
        forall|k: int| 0 <= k < p ==> #[trigger] out[k].score >= rv.score,
        forall|k: int| p <= k < out.len() ==> #[trigger] out[k].score < rv.score,
    ensures
        found_so_far(out.insert(p, rv), es, n + 1, docs, fts, qv, fv, hl),
{
    let o2 = out.insert(p, rv);
    assert forall|a: int| 0 <= a < o2.len() implies result_ok(#[trigger] o2[a], docs, fts, qv, fv, hl) by {
        if a < p {
            assert(o2[a] == out[a]);
        } else if a > p {
            assert(o2[a] == out[a - 1]);
        }
    }
    assert forall|a: int| 0 <= a < o2.len() implies id_among(es, n + 1, (#[trigger] o2[a]).document.id) by {
        if a < p {
            assert(o2[a] == out[a]);
            assert(id_among(es, n, out[a].document.id));
        } else if a > p {
            assert(o2[a] == out[a - 1]);
            assert(id_among(es, n, out[a - 1].document.id));
        } else {
            assert(es[n].0 == o2[a].document.id);
        }
    }
    assert forall|a: int, b: int| 0 <= a < b < o2.len() implies #[trigger] o2[a].document.id != #[trigger] o2[b].document.id by {
        if a != p && b != p {
            let a0 = if a < p { a } else { a - 1 };
            let b0 = if b < p { b } else { b - 1 };
            assert(o2[a] == out[a0]);
            assert(o2[b] == out[b0]);
        } else {
            let o = if a == p { b } else { a };
            let o0 = if o < p { o } else { o - 1 };
            assert(o2[o] == out[o0]);
            assert(id_among(es, n, out[o0].document.id));
            let j = choose|j: int| 0 <= j < n && #[trigger] es[j].0 == out[o0].document.id;
            assert(es[j].0 != es[n].0);
        }
    }
    assert forall|a: int, b: int| 0 <= a < b < o2.len() implies #[trigger] o2[a].score >= #[trigger] o2[b].score by {
        let a0 = if a < p { a } else { a - 1 };
        let b0 = if b < p { b } else { b - 1 };
        if a != p {
            assert(o2[a] == out[a0]);
        }
        if b != p {
            assert(o2[b] == out[b0]);
        }
    }
    assert forall|j: int| 0 <= j < n + 1 && is_hit(fts, qv, fv)(#[trigger] es[j].1) implies exists|a: int| 0 <= a < o2.len() && #[trigger] o2[a].document.id == es[j].0 by {
        if j < n {
            let a = choose|a: int| 0 <= a < out.len() && #[trigger] out[a].document.id == es[j].0;
            if a < p {
                assert(o2[a] == out[a]);
            } else {
                assert(o2[a + 1] == out[a]);
            }
        } else {
            assert(o2[p].document.id == es[j].0);
        }
    }
}

/// The first position whose score is below `s` in a list sorted best first.
fn insert_position(out: &Vec<SearchResult>, s: u128) -> (p: usize)
    requires
        forall|a: int, b: int| 0 <= a < b < out@.len() ==> #[trigger] result_views(out@)[a].score >= #[trigger] result_views(out@)[b].score,
    ensures
        p <= out@.len(),
        forall|k: int| 0 <= k < p ==> #[trigger] result_views(out@)[k].score >= s,
        forall|k: int| p <= k < out@.len() ==> #[trigger] result_views(out@)[k].score < s,
{
    let mut p: usize = 0;
    while p < out.len() && out[p].score >= s
        invariant
            p <= out@.len(),
            forall|k: int| 0 <= k < p ==> #[trigger] result_views(out@)[k].score >= s,
        decreases out.len() - p,
    {
        assert(result_views(out@)[p as int] == out@[p as int]@);
        p = p + 1;
    }
    proof {
        assert forall|k: int| p <= k < out@.len() implies #[trigger] result_views(out@)[k].score < s by {
            assert(result_views(out@)[p as int] == out@[p as int]@);
            if k > p {
                assert(result_views(out@)[p as int].score >= result_views(out@)[k].score);
            }
        }
    }
    p
}

/// Whether the lower-cased text contains one of the words.
fn mentions_word(lower: &str, words: &Vec<String>) -> (r: bool)
    ensures
        r == exists|k: int| 0 <= k < words@.len() && seq_contains(lower@, #[trigger] string_views(words@)[k]),
{
    let mut k: usize = 0;
    while k < words.len()
        invariant
            k <= words@.len(),
            forall|j: int| 0 <= j < k ==> !seq_contains(lower@, #[trigger] string_views(words@)[j]),
        decreases words.len() - k,
    {
        assert(string_views(words@)[k as int] == words@[k as int]@);
        if str_contains(lower, words[k].as_str()) {
            return true;
        }
        k = k + 1;
    }
    false
}

/// A document is found by each word of its text once it is added: its score for a
/// one-word query of such a word is positive.
pub proof fn law_added_document_found(fts: Map<Seq<char>, Seq<Seq<char>>>, words: Seq<Seq<char>>, id: Seq<char>, w: Seq<char>)
    requires
        words.contains(w),
    ensures
        score(add_all(fts, words, id), seq![w], id) > 0,
{
    crate::postings::law_added_is_filed(fts, words, id, w);
    let l = postings(add_all(fts, words, id), w);
    let i = choose|i: int| 0 <= i < l.len() && l[i] == id;
    l.lemma_filter_contains(eq_to(id), i);
    assert(seq![w].drop_last() =~= Seq::<Seq<char>>::empty());
    assert(l.filter(eq_to(id)).len() > 0);
}

/// Once a document's words are unfiled (as deleting or replacing it does), a one-word
/// query of such a word gives it no score.
pub proof fn law_removed_document_unscored(fts: Map<Seq<char>, Seq<Seq<char>>>, words: Seq<Seq<char>>, id: Seq<char>, w: Seq<char>)
    requires
        words.contains(w),
    ensures
        score(retain_all(fts, words, id, true), seq![w], id) == 0,
{
    crate::postings::law_removed_is_unfiled(fts, words, id, true, w);
    let l = postings(retain_all(fts, words, id, true), w);
    assert(seq![w].drop_last() =~= Seq::<Seq<char>>::empty());
    assert(!l.contains(id));
    crate::text::lemma_filter_absent(l, id);
    let m = retain_all(fts, words, id, true);
    assert(seq![w].last() == w);
    assert(score(m, seq![w].drop_last(), id) == 0);
    assert(score(m, seq![w], id) == score(m, seq![w].drop_last(), id) + postings(m, w).filter(eq_to(id)).len());
}

/// A search result never shows a document that is not stored: every result is a stored
/// document, so after a deletion the deleted id is in no result.
pub proof fn law_results_are_stored(
    rs: Seq<ResultView>,
    docs: Map<Seq<char>, DocView>,
    fts: Map<Seq<char>, Seq<Seq<char>>>,
    q: Seq<Seq<char>>,
    f: Seq<(Seq<char>, Seq<char>)>,
    highlights: bool,
    max: usize,
    id: Seq<char>,
)
    requires
        results_fit(rs, docs.remove(id), fts, q, f, highlights, max),
    ensures
        forall|i: int| 0 <= i < rs.len() ==> #[trigger] rs[i].document.id != id,
{
    assert forall|i: int| 0 <= i < rs.len() implies #[trigger] rs[i].document.id != id by {
        assert(result_ok(rs[i], docs.remove(id), fts, q, f, highlights));
    }
}

/// How many times `w` occurs among `words`.
pub open spec fn word_count(words: Seq<Seq<char>>, w: Seq<char>) -> nat {
    words.filter(eq_to(w)).len()
}

/// The word index files each stored document (each stored under its own id) under each
/// word exactly as often as the word occurs among the document's words, and files no id
/// that is not stored.
pub open spec fn indexed_exactly(docs: Map<Seq<char>, DocView>, fts: Map<Seq<char>, Seq<Seq<char>>>, min: usize) -> bool {
    &&& forall|k: Seq<char>| #[trigger] docs.dom().contains(k) ==> docs[k].id == k
    &&& forall|w: Seq<char>, id: Seq<char>| #[trigger] filings(fts, w, id) == if docs.dom().contains(id) {
        word_count(tokens(doc_text(docs[id]), min), w)
    } else {
        0
    }
}

/// The score of a document whose words are `words` for the query words `q`: for each
/// query word (a repeated word counts again), how many times it occurs among them.
pub open spec fn words_score(words: Seq<Seq<char>>, q: Seq<Seq<char>>) -> nat
    decreases q.len(),
{
    if q.len() == 0 {
        0
    } else {
        words_score(words, q.drop_last()) + word_count(words, q.last())
    }
}

/// An empty engine indexes its (no) documents exactly.
pub proof fn law_empty_indexed_exactly(min: usize)
    ensures
        indexed_exactly(Map::<Seq<char>, DocView>::empty(), Map::<Seq<char>, Seq<Seq<char>>>::empty(), min),
{
    assert forall|w: Seq<char>, id: Seq<char>| #[trigger] filings(Map::<Seq<char>, Seq<Seq<char>>>::empty(), w, id) == 0 by {
        assert(Seq::<Seq<char>>::empty().filter(eq_to(id)).len() == 0) by {
            reveal(Seq::filter);
        }
    }
}

/// Adding a document under an id not stored yet (as `add_document` does) keeps the word
/// index exact.
pub proof fn law_add_keeps_index_exact(
    docs: Map<Seq<char>, DocView>,
    fts: Map<Seq<char>, Seq<Seq<char>>>,
    min: usize,
    d: DocView,
)
    requires
        indexed_exactly(docs, fts, min),
        !docs.dom().contains(d.id),
    ensures
        indexed_exactly(docs.insert(d.id, d), add_all(fts, tokens(doc_text(d), min), d.id), min),
{
    let ws = tokens(doc_text(d), min);
    let docs2 = docs.insert(d.id, d);
    assert forall|w: Seq<char>, id: Seq<char>| #[trigger] filings(add_all(fts, ws, d.id), w, id) == if docs2.dom().contains(id) {
        word_count(tokens(doc_text(docs2[id]), min), w)
    } else {
        0
    } by {
        law_add_all_filings(fts, ws, d.id, w, id);
        assert(filings(fts, w, id) == if docs.dom().contains(id) { word_count(tokens(doc_text(docs[id]), min), w) } else { 0 });
    }
}

/// Deleting a stored document and unfiling its words (as `delete_document` does) keeps
/// the word index exact.
pub proof fn law_delete_keeps_index_exact(
    docs: Map<Seq<char>, DocView>,
    fts: Map<Seq<char>, Seq<Seq<char>>>,
    min: usize,
    id: Seq<char>,
)
    requires
        indexed_exactly(docs, fts, min),
        docs.dom().contains(id),
    ensures
        indexed_exactly(docs.remove(id), retain_all(fts, tokens(doc_text(docs[id]), min), id, true), min),
{
    let ws = tokens(doc_text(docs[id]), min);
    let docs2 = docs.remove(id);
    let fts2 = retain_all(fts, ws, id, true);
    assert forall|w: Seq<char>, other: Seq<char>| #[trigger] filings(fts2, w, other) == if docs2.dom().contains(other) {
        word_count(tokens(doc_text(docs2[other]), min), w)
    } else {
        0
    } by {
        assert(filings(fts, w, other) == if docs.dom().contains(other) { word_count(tokens(doc_text(docs[other]), min), w) } else { 0 });
        if other != id || !ws.contains(w) {
            law_retain_all_filings(fts, ws, id, true, w, other);
            if other == id {
                crate::text::lemma_filter_absent(ws, w);
            }
        } else {
            law_removed_is_unfiled(fts, ws, id, true, w);
            crate::text::lemma_filter_absent(postings(fts2, w), id);
        }
    }
}

/// Updating a stored document (as `update_document` does: its old words unfiled, its new
/// words filed) keeps the word index exact.
pub proof fn law_update_keeps_index_exact(
    docs: Map<Seq<char>, DocView>,
    fts: Map<Seq<char>, Seq<Seq<char>>>,
    min: usize,
    d: DocView,
)
    requires
        indexed_exactly(docs, fts, min),
        docs.dom().contains(d.id),
    ensures
        indexed_exactly(
            docs.insert(d.id, d),
            add_all(retain_all(fts, tokens(doc_text(docs[d.id]), min), d.id, true), tokens(doc_text(d), min), d.id),
            min,
        ),
{
    law_delete_keeps_index_exact(docs, fts, min, d.id);
    law_add_keeps_index_exact(docs.remove(d.id), retain_all(fts, tokens(doc_text(docs[d.id]), min), d.id, true), min, d);
    assert(docs.remove(d.id).insert(d.id, d) =~= docs.insert(d.id, d));
}

/// When the word index is exact, a stored document's search score is the number of
/// times the query's words occur among the words of its title and content: for each
/// query word (a repeated word counts again), its count there.
pub proof fn law_score_counts_words(
    docs: Map<Seq<char>, DocView>,
    fts: Map<Seq<char>, Seq<Seq<char>>>,
    min: usize,
    q: Seq<Seq<char>>,
    id: Seq<char>,
)
    requires
        indexed_exactly(docs, fts, min),
        docs.dom().contains(id),
    ensures
        score(fts, q, id) == words_score(tokens(doc_text(docs[id]), min), q),
    decreases q.len(),
{
    if q.len() > 0 {
        law_score_counts_words(docs, fts, min, q.drop_last(), id);
        assert(filings(fts, q.last(), id) == word_count(tokens(doc_text(docs[id]), min), q.last()));
    }
}

/// When the word index is exact, a search's results are scored by the stored texts: a
/// stored document is found exactly when some query word occurs in its title or content
/// and it passes the filters; each result's score is the number of times the query's
/// words occur there; and a found document left out of a full list scores no higher
/// than the last result.
pub proof fn law_search_scores_count_words(
    rs: Seq<ResultView>,
    docs: Map<Seq<char>, DocView>,
    fts: Map<Seq<char>, Seq<Seq<char>>>,
    q: Seq<Seq<char>>,
    f: Seq<(Seq<char>, Seq<char>)>,
    highlights: bool,
    max: usize,
    min: usize,
)
    requires
        results_fit(rs, docs, fts, q, f, highlights, max),
        indexed_exactly(docs, fts, min),
    ensures
        forall|i: int| 0 <= i < rs.len() ==> #[trigger] rs[i].score == words_score(tokens(doc_text(rs[i].document), min), q),
        forall|d: Seq<char>| #[trigger] docs.dom().contains(d) ==> (is_hit(fts, q, f)(docs[d]) <==>
            words_score(tokens(doc_text(docs[d]), min), q) > 0 && search_passes(f, docs[d])),
        forall|d: Seq<char>| #[trigger] docs.dom().contains(d) && is_hit(fts, q, f)(docs[d])
            && !(exists|i: int| 0 <= i < rs.len() && #[trigger] rs[i].document.id == d) ==>
            rs.len() == max && (max == 0 || words_score(tokens(doc_text(docs[d]), min), q) <= rs[rs.len() - 1].score),
{
    assert forall|i: int| 0 <= i < rs.len() implies #[trigger] rs[i].score == words_score(tokens(doc_text(rs[i].document), min), q) by {
        assert(result_ok(rs[i], docs, fts, q, f, highlights));
        law_score_counts_words(docs, fts, min, q, rs[i].document.id);
    }
    assert forall|d: Seq<char>| #[trigger] docs.dom().contains(d) implies (is_hit(fts, q, f)(docs[d]) <==>
        words_score(tokens(doc_text(docs[d]), min), q) > 0 && search_passes(f, docs[d])) by {
        law_score_counts_words(docs, fts, min, q, d);
    }
    assert forall|d: Seq<char>| #[trigger] docs.dom().contains(d) && is_hit(fts, q, f)(docs[d])
        && !(exists|i: int| 0 <= i < rs.len() && #[trigger] rs[i].document.id == d) implies
        rs.len() == max && (max == 0 || words_score(tokens(doc_text(docs[d]), min), q) <= rs[rs.len() - 1].score) by {
        law_score_counts_words(docs, fts, min, q, d);
    }
}

/// A change the engine makes to its stored documents: adding one, updating one, or
/// deleting the one with an id.
pub enum DocChange {
    Add(DocView),
    Update(DocView),
    Delete(Seq<char>),
}

/// The stored documents after a change: an added document is stored under its id; an
/// updated one replaces the stored one with its id, when there is one; a deleted id is
/// no longer stored.
pub open spec fn after_change(m: Map<Seq<char>, DocView>, c: DocChange) -> Map<Seq<char>, DocView> {
    match c {
        DocChange::Add(d) => m.insert(d.id, d),
        DocChange::Update(d) => if m.dom().contains(d.id) { m.insert(d.id, d) } else { m },
        DocChange::Delete(id) => m.remove(id),
    }
}

/// The stored documents after a history of changes, in order.
pub open spec fn after_changes(m: Map<Seq<char>, DocView>, cs: Seq<DocChange>) -> Map<Seq<char>, DocView>
    decreases cs.len(),
{
    if cs.len() == 0 {
        m
    } else {
        after_change(after_changes(m, cs.drop_last()), cs.last())
    }
}

/// The document a history of changes leaves under `id`, starting from `m`: that of the
/// latest add with that id, or of the latest update with that id that found a document
/// to replace, unless a delete of `id` came after it.
pub open spec fn latest_document(m: Map<Seq<char>, DocView>, cs: Seq<DocChange>, id: Seq<char>) -> Option<DocView>
    decreases cs.len(),
{
    if cs.len() == 0 {
        if m.dom().contains(id) { Some(m[id]) } else { None }
    } else {
        let before = latest_document(m, cs.drop_last(), id);
        match cs.last() {
            DocChange::Add(d) => if d.id == id { Some(d) } else { before },
            DocChange::Update(d) => if d.id == id && before is Some { Some(d) } else { before },
            DocChange::Delete(x) => if x == id { None } else { before },
        }
    }
}

/// What a read of the documents gives after a history of adds, updates and deletes:
/// the document of the latest add or successful update of that id, unless a delete of it
/// came after; else nothing (a read then fails with `NotFound`).
pub proof fn law_document_history(m: Map<Seq<char>, DocView>, cs: Seq<DocChange>, id: Seq<char>)
    ensures
        after_changes(m, cs).dom().contains(id) <==> latest_document(m, cs, id) is Some,
        after_changes(m, cs).dom().contains(id) ==> latest_document(m, cs, id) == Some(after_changes(m, cs)[id]),
    decreases cs.len(),
{
    if cs.len() > 0 {
        law_document_history(m, cs.drop_last(), id);
    }
}

/// The stored summaries after storing `ss` in order, each under its document's id.
pub open spec fn after_summaries(m: Map<Seq<char>, SummaryView>, ss: Seq<SummaryView>) -> Map<Seq<char>, SummaryView>
    decreases ss.len(),
{
    if ss.len() == 0 {
        m
    } else {
        after_summaries(m, ss.drop_last()).insert(ss.last().document_id, ss.last())
    }
}

/// The latest summary of document `id` among `ss`, else the one in `m`.
pub open spec fn latest_summary(m: Map<Seq<char>, SummaryView>, ss: Seq<SummaryView>, id: Seq<char>) -> Option<SummaryView>
    decreases ss.len(),
{
    if ss.len() == 0 {
        if m.dom().contains(id) { Some(m[id]) } else { None }
    } else if ss.last().document_id == id {
        Some(ss.last())
    } else {
        latest_summary(m, ss.drop_last(), id)
    }
}

/// What a read of a summary gives after a history of successful summary generations:
/// the latest summary generated for that document; else nothing (a read then fails
/// with `NotFound`), whether or not the document is stored.
pub proof fn law_summary_history(m: Map<Seq<char>, SummaryView>, ss: Seq<SummaryView>, id: Seq<char>)
    ensures
        after_summaries(m, ss).dom().contains(id) <==> latest_summary(m, ss, id) is Some,
        after_summaries(m, ss).dom().contains(id) ==> latest_summary(m, ss, id) == Some(after_summaries(m, ss)[id]),
    decreases ss.len(),
{
    if ss.len() > 0 {
        law_summary_history(m, ss.drop_last(), id);
    }
}

/// How many of the words `ws` a lower-cased text contains.
pub open spec fn words_found(ws: Seq<Seq<char>>, lower: Seq<char>) -> nat
    decreases ws.len(),
{
    if ws.len() == 0 {
        0
    } else {
        words_found(ws.drop_last(), lower) + if seq_contains(lower, ws.last()) { 1nat } else { 0nat }
    }
}

proof fn lemma_words_found(ws: Seq<Seq<char>>, lower: Seq<char>)
    ensures
        ws.filter(contained_in(lower)).len() == words_found(ws, lower),
    decreases ws.len(),
{
    reveal(Seq::filter);
    if ws.len() > 0 {
        lemma_words_found(ws.drop_last(), lower);
        ws.drop_last().filter(contained_in(lower)).lemma_filter_len_push(contained_in(lower), ws.last());
        assert(ws.filter(contained_in(lower)).len() == ws.drop_last().filter(contained_in(lower)).len()
            + if contained_in(lower)(ws.last()) { 1int } else { 0int });
    }
}

proof fn lemma_words_found_positive(ws: Seq<Seq<char>>, lower: Seq<char>, i: int)
    requires
        0 <= i < ws.len(),
        seq_contains(lower, ws[i]),
    ensures
        words_found(ws, lower) > 0,
    decreases ws.len(),
{
    if i < ws.len() - 1 {
        lemma_words_found_positive(ws.drop_last(), lower, i);
    }
}

proof fn lemma_words_found_zero(ws: Seq<Seq<char>>, lower: Seq<char>)
    requires
        forall|i: int| 0 <= i < ws.len() ==> !seq_contains(lower, #[trigger] ws[i]),
    ensures
        words_found(ws, lower) == 0,
    decreases ws.len(),
{
    if ws.len() > 0 {
        lemma_words_found_zero(ws.drop_last(), lower);
    }
}

/// A text's sentiment follows the count of the sentiment words its lower-cased form
/// contains: `positive` when it contains more of good, great, excellent, positive,
/// beneficial, successful and improved than of bad, poor, negative, failed, error,
/// problem and issue; `negative` when it contains more of the latter; `neutral` when as
/// many. In particular a text that contains a positive word and no negative one is
/// `positive`, and one that contains a negative word and no positive one is `negative`.
pub proof fn law_sentiment_follows_word_counts(content: Seq<char>)
    ensures
        ({
            let lc = lowercase(content);
            let p = words_found(positive_words(), lc);
            let n = words_found(negative_words(), lc);
            &&& p > n ==> sentiment_of(content) == "positive"@
            &&& n > p ==> sentiment_of(content) == "negative"@
            &&& p == n ==> sentiment_of(content) == "neutral"@
        }),
        (exists|i: int| 0 <= i < positive_words().len() && seq_contains(lowercase(content), #[trigger] positive_words()[i]))
            && (forall|j: int| 0 <= j < negative_words().len() ==> !seq_contains(lowercase(content), #[trigger] negative_words()[j]))
            ==> sentiment_of(content) == "positive"@,
        (exists|i: int| 0 <= i < negative_words().len() && seq_contains(lowercase(content), #[trigger] negative_words()[i]))
            && (forall|j: int| 0 <= j < positive_words().len() ==> !seq_contains(lowercase(content), #[trigger] positive_words()[j]))
            ==> sentiment_of(content) == "negative"@,
{
    let lc = lowercase(content);
    lemma_words_found(positive_words(), lc);
    lemma_words_found(negative_words(), lc);
    if (exists|i: int| 0 <= i < positive_words().len() && seq_contains(lc, #[trigger] positive_words()[i]))
        && (forall|j: int| 0 <= j < negative_words().len() ==> !seq_contains(lc, #[trigger] negative_words()[j])) {
        let i = choose|i: int| 0 <= i < positive_words().len() && seq_contains(lc, #[trigger] positive_words()[i]);
        lemma_words_found_positive(positive_words(), lc, i);
        lemma_words_found_zero(negative_words(), lc);
    }
    if (exists|i: int| 0 <= i < negative_words().len() && seq_contains(lc, #[trigger] negative_words()[i]))
        && (forall|j: int| 0 <= j < positive_words().len() ==> !seq_contains(lc, #[trigger] positive_words()[j])) {
        let i = choose|i: int| 0 <= i < negative_words().len() && seq_contains(lc, #[trigger] negative_words()[i]);
        lemma_words_found_positive(negative_words(), lc, i);
        lemma_words_found_zero(positive_words(), lc);
    }
}

} // verus!
