//! Hacker News: the items the API returns, the order in which item ids are
//! visited, and the choice of the job postings that are kept.

use vstd::prelude::*;
use crate::text::{
    ascii_lower_char, ascii_lowercase, ascii_upper_char, ascii_uppercase, contains,
    contains_text, lowercase, to_lowercase,
};
use crate::LeadForgeError;
use crate::retry::FetchOutcome;

verus! {

/// The ids listed by the `/jobstories` endpoint.
#[derive(Debug, Clone, PartialEq, Eq)]
pub struct HackerNewsJobStories(pub Vec<u64>);

/// The latest item id, as the `/maxitem` endpoint gives it.
#[derive(Debug, Clone, PartialEq, Eq)]
pub struct HackerNewsMaxItemId(pub u64);

/// A Hacker News item: a job posting, or anything else.
#[derive(Debug, Clone, PartialEq, Eq)]
pub enum HackerNewsItem {
    /// A job posting.
    Job(HackerNewsJob),
    /// Any non-job item.
    Other,
}

/// A Hacker News job posting; every field but the id may be missing.
#[derive(Debug, Clone, PartialEq, Eq)]
pub struct HackerNewsJob {
    pub id: u64,
    pub by: Option<String>,
    pub score: Option<u64>,
    pub time: Option<u64>,
    pub title: Option<String>,
    pub url: Option<String>,
    pub text: Option<String>,
}

/// The text of an optional string.
pub open spec fn opt_text(s: Option<&str>) -> Option<Seq<char>> {
    match s {
        Some(t) => Some(t@),
        None => None,
    }
}

/// Whether a posting titled `title` passes the keyword filter: with no
/// keyword every posting passes; with one, a posting passes when it has a
/// title whose lower-cased text contains the lower-cased keyword.
pub open spec fn title_matches(title: Option<Seq<char>>, keyword: Option<Seq<char>>) -> bool {
    match keyword {
        None => true,
        Some(k) => match title {
            None => false,
            Some(t) => contains_text(lowercase(t), lowercase(k)),
        },
    }
}

/// The filter, spelled out: no keyword passes every title; a keyword fails a
/// missing title; and a title passes a keyword exactly when the lower-cased
/// keyword occurs at some position of the lower-cased title, from the first
/// to the last position where it fits (so a keyword that ends the title is
/// found).
pub proof fn lemma_title_matches_rule(title: Option<Seq<char>>, keyword: Option<Seq<char>>)
    ensures
        keyword is None ==> title_matches(title, keyword),
        keyword is Some && title is None ==> !title_matches(title, keyword),
        ({
            match (title, keyword) {
                (Some(t), Some(k)) => title_matches(title, keyword) == exists|i: int|
                    0 <= i && i + lowercase(k).len() <= lowercase(t).len()
                        && #[trigger] lowercase(t).subrange(i, i + lowercase(k).len())
                        == lowercase(k),
                _ => true,
            }
        }),
{
    if let (Some(t), Some(k)) = (title, keyword) {
        crate::text::lemma_contains_text_positions(lowercase(t), lowercase(k));
    }
}

/// Case-insensitive matching: two titles that lower-case to the same text
/// pass or fail every keyword alike.
pub proof fn lemma_filter_case_insensitive(a: Seq<char>, b: Seq<char>, keyword: Option<Seq<char>>)
    requires
        lowercase(a) == lowercase(b),
    ensures
        title_matches(Some(a), keyword) == title_matches(Some(b), keyword),
{
}

/// Case-insensitive keywords: two keywords that lower-case to the same text
/// pass or fail every title alike.
pub proof fn lemma_keyword_case_insensitive(title: Option<Seq<char>>, a: Seq<char>, b: Seq<char>)
    requires
        lowercase(a) == lowercase(b),
    ensures
        title_matches(title, Some(a)) == title_matches(title, Some(b)),
{
}

/// Lowering after raising or lowering the ASCII letters of a text gives the
/// text's own ASCII lowering.
proof fn lemma_ascii_case_forms(s: Seq<char>)
    ensures
        ascii_lowercase(ascii_uppercase(s)) == ascii_lowercase(s),
        ascii_lowercase(ascii_lowercase(s)) == ascii_lowercase(s),
{
    assert forall|i: int| 0 <= i < s.len() implies ascii_lower_char(ascii_upper_char(s[i]))
        == ascii_lower_char(s[i]) && ascii_lower_char(ascii_lower_char(s[i])) == ascii_lower_char(
        s[i],
    ) by {
        let c = s[i];
        if 'a' <= c <= 'z' {
            assert(ascii_upper_char(c) as u32 == c as u32 - 32);
        } else if 'A' <= c <= 'Z' {
            assert(ascii_lower_char(c) as u32 == c as u32 + 32);
        }
    }
    assert(ascii_lowercase(ascii_uppercase(s)) =~= ascii_lowercase(s));
    assert(ascii_lowercase(ascii_lowercase(s)) =~= ascii_lowercase(s));
}

/// ASCII case is ignored by the filter wherever `str::to_lowercase` lowers
/// the texts involved by their ASCII letters (its contract states this of
/// every ASCII text that it is called on): the upper-case and the lower-case
/// forms of a title pass every keyword as the title does.
pub proof fn lemma_filter_ascii_title_case(title: Seq<char>, keyword: Option<Seq<char>>)
    requires
        lowercase(title) == ascii_lowercase(title),
        lowercase(ascii_uppercase(title)) == ascii_lowercase(ascii_uppercase(title)),
        lowercase(ascii_lowercase(title)) == ascii_lowercase(ascii_lowercase(title)),
    ensures
        title_matches(Some(ascii_uppercase(title)), keyword) == title_matches(Some(title), keyword),
        title_matches(Some(ascii_lowercase(title)), keyword) == title_matches(Some(title), keyword),
{
    lemma_ascii_case_forms(title);
}

/// ASCII case is ignored in the keyword wherever `str::to_lowercase` lowers
/// the texts involved by their ASCII letters (its contract states this of
/// every ASCII text that it is called on): the upper-case and the lower-case
/// forms of a keyword pass every title as the keyword does.
pub proof fn lemma_filter_ascii_keyword_case(title: Option<Seq<char>>, keyword: Seq<char>)
    requires
        lowercase(keyword) == ascii_lowercase(keyword),
        lowercase(ascii_uppercase(keyword)) == ascii_lowercase(ascii_uppercase(keyword)),
        lowercase(ascii_lowercase(keyword)) == ascii_lowercase(ascii_lowercase(keyword)),
    ensures
        title_matches(title, Some(ascii_uppercase(keyword))) == title_matches(title, Some(keyword)),
        title_matches(title, Some(ascii_lowercase(keyword))) == title_matches(title, Some(keyword)),
{
    lemma_ascii_case_forms(keyword);
}

/// Filters job titles based on an optional keyword: no keyword passes every
/// title, a missing title fails a keyword, and otherwise the lower-cased
/// title must contain the lower-cased keyword (a case-insensitive match).
pub fn filter(title: Option<&str>, keyword: Option<&str>) -> (r: bool)
    ensures
        r == title_matches(opt_text(title), opt_text(keyword)),
        keyword is None ==> r,
        keyword is Some && title is None ==> !r,
        ({
            match (title, keyword) {
                (Some(t), Some(k)) => r == exists|i: int|
                    0 <= i && i + lowercase(k@).len() <= lowercase(t@).len()
                        && #[trigger] lowercase(t@).subrange(i, i + lowercase(k@).len())
                        == lowercase(k@),
                _ => true,
            }
        }),
{
    match keyword {
        None => true,
        Some(k) => match title {
            None => false,
            Some(t) => {
                let lowered_title = to_lowercase(t);
                let lowered_keyword = to_lowercase(k);
                proof {
                    crate::text::lemma_contains_text_positions(lowercase(t@), lowercase(k@));
                }
                contains(lowered_title.as_str(), lowered_keyword.as_str())
            },
        },
    }
}

/// `s` is in non-increasing order: newest (largest) ids first.
pub open spec fn is_newest_first(s: Seq<u64>) -> bool {
    forall|i: int, j: int| 0 <= i <= j < s.len() ==> s[i] >= s[j]
}

/// The ids of `s`, newest first: the same ids, as many times each, in
/// non-increasing order (what `sort` followed by `rev` gives).
pub fn newest_first(s: &Vec<u64>) -> (r: Vec<u64>)
    ensures
        is_newest_first(r@),
        r@.to_multiset() == s@.to_multiset(),
        forall|i: int, j: int| 0 <= i < j < r@.len() ==> r@[i] >= r@[j],
        r@.len() == s@.len(),
{
    let mut out: Vec<u64> = Vec::new();
    let n = s.len();
    assert(s@.take(0) =~= Seq::<u64>::empty());
    for i in 0..n
        invariant
            n == s@.len(),
            is_newest_first(out@),
            out@.to_multiset() == s@.take(i as int).to_multiset(),
            out@.len() == i,
    {
        let x = s[i];
        let mut k: usize = 0;
        while k < out.len() && out[k] >= x
            invariant
                k <= out@.len(),
                forall|j: int| 0 <= j < k ==> out@[j] >= x,
            decreases out@.len() - k,
        {
            k = k + 1;
        }
        let ghost before = out@;
        out.insert(k, x);
        assert(s@.take(i + 1) =~= s@.take(i as int).push(x));
        proof {
            vstd::seq_lib::to_multiset_insert(before, k as int, x);
            vstd::seq_lib::to_multiset_build(s@.take(i as int), x);
        }
        assert(out@.to_multiset() == before.to_multiset().insert(x));
        assert(s@.take(i + 1).to_multiset() == s@.take(i as int).to_multiset().insert(x));
        assert forall|a: int, b: int| 0 <= a <= b < out@.len() implies out@[a] >= out@[b] by {
            if a < k && b == k {
            } else if a < k && b > k {
                assert(out@[b] == before[b - 1]);
            } else if a == k && b > k {
                assert(out@[b] == before[b - 1]);
                assert(k < before.len() && before[k as int] < x);
            } else if a > k {
                assert(out@[a] == before[a - 1]);
                assert(out@[b] == before[b - 1]);
            }
        }
    }
    assert(s@.take(n as int) =~= s@);
    out
}

/// `n - 1, n - 2, ..., 1, 0`.
pub open spec fn countdown(n: u64) -> Seq<u64> {
    Seq::new(n as nat, |i: int| (n - 1 - i) as u64)
}

/// The id below which every item is scanned: the oldest job story, or the
/// latest item id when there is no job story.
pub open spec fn scan_start(stories_desc: Seq<u64>, max_item_id: u64) -> u64 {
    if stories_desc.len() == 0 { max_item_id } else { stories_desc.last() }
}

/// The order in which item ids are visited, given the job stories newest
/// first: the job stories, then every id below `scan_start`, newest first.
pub open spec fn id_order(stories_desc: Seq<u64>, max_item_id: u64) -> Seq<u64> {
    stories_desc + countdown(scan_start(stories_desc, max_item_id))
}

/// The item ids still to visit, newest first.
pub struct IdPlan {
    stories: Vec<u64>,
    pos: usize,
    below: u64,
}

impl View for IdPlan {
    type V = Seq<u64>;

    closed spec fn view(&self) -> Seq<u64> {
        self.stories@.skip(self.pos as int) + countdown(self.below)
    }
}

impl IdPlan {
    #[verifier::type_invariant]
    spec fn inv(self) -> bool {
        self.pos <= self.stories@.len()
    }

    /// Plans the visit: the job stories newest first, then every id below
    /// the oldest of them (below the latest item id when there is none).
    pub fn new(job_stories: HackerNewsJobStories, max_item_id: HackerNewsMaxItemId) -> (p: IdPlan)
        ensures
            exists|d: Seq<u64>|
                #![trigger id_order(d, max_item_id.0)]
                is_newest_first(d) && d.to_multiset() == job_stories.0@.to_multiset() && p@
                    == id_order(d, max_item_id.0),
    {
        let stories = newest_first(&job_stories.0);
        let below = if stories.len() == 0 {
            max_item_id.0
        } else {
            stories[stories.len() - 1]
        };
        let p = IdPlan { stories, pos: 0, below };
        assert(p.stories@.skip(0) =~= p.stories@);
        assert(p@ == id_order(p.stories@, max_item_id.0));
        p
    }

    /// The next id to visit, if any is left.
    pub fn next_id(&mut self) -> (r: Option<u64>)
        ensures
            old(self)@.len() > 0 ==> r == Some(old(self)@[0]) && final(self)@ == old(self)@.drop_first(),
            old(self)@.len() == 0 ==> r is None && final(self)@ == old(self)@,
    {
        proof {
            use_type_invariant(&*self);
        }
        let ghost before = self@;
        if self.pos < self.stories.len() {
            let id = self.stories[self.pos];
            self.pos = self.pos + 1;
            assert(self@ =~= before.drop_first());
            Some(id)
        } else if self.below > 0 {
            self.below = self.below - 1;
            assert(self@ =~= before.drop_first());
            Some(self.below)
        } else {
            assert(before =~= Seq::<u64>::empty());
            None
        }
    }
}

/// Newest first: the ids are visited in non-increasing order.
pub proof fn lemma_id_order_newest_first(stories_desc: Seq<u64>, max_item_id: u64)
    requires
        is_newest_first(stories_desc),
    ensures
        is_newest_first(id_order(stories_desc, max_item_id)),
{
    let o = id_order(stories_desc, max_item_id);
    let n = stories_desc.len();
    assert forall|i: int, j: int| 0 <= i <= j < o.len() implies o[i] >= o[j] by {
        if i < n && j >= n {
            assert(stories_desc[i] >= stories_desc[n - 1]);
        }
    }
}

/// Coverage: an id is visited exactly when it is a job story or lies
/// below the scan start.
pub proof fn lemma_id_order_covers(stories_desc: Seq<u64>, max_item_id: u64, id: u64)
    ensures
        id_order(stories_desc, max_item_id).contains(id) <==> (stories_desc.contains(id) || id
            < scan_start(stories_desc, max_item_id)),
{
    let o = id_order(stories_desc, max_item_id);
    let start = scan_start(stories_desc, max_item_id);
    let n = stories_desc.len();
    if stories_desc.contains(id) {
        let k = choose|k: int| 0 <= k < n && stories_desc[k] == id;
        assert(o[k] == id);
    } else if id < start {
        assert(o[n + (start - 1 - id)] == id);
    }
    if o.contains(id) {
        let k = choose|k: int| 0 <= k < o.len() && o[k] == id;
        if k < n {
            assert(stories_desc.contains(id));
        }
    }
}

/// Each id below the scan start is visited once only.
pub proof fn lemma_countdown_distinct(n: u64)
    ensures
        forall|i: int, j: int|
            0 <= i < j < n ==> #[trigger] countdown(n)[i] != #[trigger] countdown(n)[j],
{
}

/// The title of a posting, as text.
pub open spec fn title_text(job: HackerNewsJob) -> Option<Seq<char>> {
    match job.title {
        Some(t) => Some(t@),
        None => None,
    }
}

/// The text of an optional keyword.
pub open spec fn keyword_of(keyword: Option<String>) -> Option<Seq<char>> {
    match keyword {
        Some(k) => Some(k@),
        None => None,
    }
}

/// The posting that a fetched item adds to the kept ones, if any: a job
/// posting whose title passes the filter.
pub open spec fn accepted(keyword: Option<Seq<char>>, item: FetchOutcome) -> Option<HackerNewsJob> {
    match item {
        Ok(HackerNewsItem::Job(job)) => if title_matches(title_text(job), keyword) {
            Some(job)
        } else {
            None
        },
        _ => None,
    }
}

/// The job postings among `items` that pass the filter, in order.
pub open spec fn matching_jobs(keyword: Option<Seq<char>>, items: Seq<FetchOutcome>) -> Seq<
    HackerNewsJob,
>
    decreases items.len(),
{
    if items.len() == 0 {
        Seq::empty()
    } else {
        let before = matching_jobs(keyword, items.drop_last());
        match accepted(keyword, items.last()) {
            Some(job) => before.push(job),
            None => before,
        }
    }
}

/// What a run gives when `items` arrive in turn at a collector of at most
/// `limit` postings: each item is offered while fewer than `limit` are kept;
/// the first failed item offered ends the run with its error, and otherwise
/// the run gives the postings kept.
pub open spec fn collect_run(limit: nat, keyword: Option<Seq<char>>, items: Seq<FetchOutcome>) -> Result<
    Seq<HackerNewsJob>,
    LeadForgeError,
>
    decreases items.len(),
{
    if items.len() == 0 {
        Ok(Seq::empty())
    } else {
        match collect_run(limit, keyword, items.drop_last()) {
            Err(e) => Err(e),
            Ok(before) => if before.len() >= limit {
                Ok(before)
            } else {
                match items.last() {
                    Err(e) => Err(e),
                    Ok(_) => match accepted(keyword, items.last()) {
                        Some(job) => Ok(before.push(job)),
                        None => Ok(before),
                    },
                }
            },
        }
    }
}

/// What a whole run keeps when no fetch fails: the first `limit` matching
/// postings in order of arrival, or all of them when fewer match.
pub proof fn lemma_collect_run_keeps_first_matches(
    limit: nat,
    keyword: Option<Seq<char>>,
    items: Seq<FetchOutcome>,
)
    requires
        forall|i: int| 0 <= i < items.len() ==> (#[trigger] items[i]) is Ok,
    ensures
        ({
            let m = matching_jobs(keyword, items);
            collect_run(limit, keyword, items) == Ok::<Seq<HackerNewsJob>, LeadForgeError>(
                m.take(if m.len() < limit { m.len() as int } else { limit as int }),
            )
        }),
    decreases items.len(),
{
    if items.len() > 0 {
        let rest = items.drop_last();
        assert forall|i: int| 0 <= i < rest.len() implies (#[trigger] rest[i]) is Ok by {
            assert(rest[i] == items[i]);
        }
        assert(items[items.len() - 1] is Ok);
        assert(items.last() is Ok);
        lemma_collect_run_keeps_first_matches(limit, keyword, rest);
        let m = matching_jobs(keyword, rest);
        let m2 = matching_jobs(keyword, items);
        if m.len() >= limit {
            assert(m2.take(limit as int) =~= m.take(limit as int));
        } else {
            assert(m.take(m.len() as int) =~= m);
            assert(m2.take(m2.len() as int) =~= m2);
        }
    } else {
        assert(matching_jobs(keyword, items).take(0) =~= Seq::<HackerNewsJob>::empty());
    }
}

/// A failed item ends the run with its error: once an item whose fetch
/// failed is offered (fewer than `limit` postings kept so far), the run
/// gives that error, whatever arrives after it.
pub proof fn lemma_failure_ends_run(
    limit: nat,
    keyword: Option<Seq<char>>,
    items: Seq<FetchOutcome>,
    error: LeadForgeError,
    later: Seq<FetchOutcome>,
)
    requires
        collect_run(limit, keyword, items) matches Ok(kept) && kept.len() < limit,
    ensures
        collect_run(limit, keyword, items.push(Err(error)) + later) == Err::<
            Seq<HackerNewsJob>,
            LeadForgeError,
        >(error),
    decreases later.len(),
{
    let failed = items.push(Err::<HackerNewsItem, LeadForgeError>(error));
    if later.len() == 0 {
        assert(failed + later =~= failed);
        assert(failed.drop_last() =~= items);
    } else {
        lemma_failure_ends_run(limit, keyword, items, error, later.drop_last());
        assert((failed + later).drop_last() =~= failed + later.drop_last());
    }
}

/// Keywords that pass the same titles give the same run.
pub proof fn lemma_collect_run_same_filter(
    limit: nat,
    a: Option<Seq<char>>,
    b: Option<Seq<char>>,
    items: Seq<FetchOutcome>,
)
    requires
        forall|t: Option<Seq<char>>| #[trigger] title_matches(t, a) == title_matches(t, b),
    ensures
        collect_run(limit, a, items) == collect_run(limit, b, items),
    decreases items.len(),
{
    if items.len() > 0 {
        lemma_collect_run_same_filter(limit, a, b, items.drop_last());
        if let Ok(HackerNewsItem::Job(job)) = items.last() {
            assert(title_matches(title_text(job), a) == title_matches(title_text(job), b));
        }
    }
}

/// A keyword and any keyword that lower-cases to the same text give the
/// same run: case-insensitive filtering over whole runs.
pub proof fn lemma_collect_run_keyword_case(
    limit: nat,
    a: Seq<char>,
    b: Seq<char>,
    items: Seq<FetchOutcome>,
)
    requires
        lowercase(a) == lowercase(b),
    ensures
        collect_run(limit, Some(a), items) == collect_run(limit, Some(b), items),
{
    lemma_collect_run_same_filter(limit, Some(a), Some(b), items);
}

/// One offer extends a run: while fewer than `limit` postings are kept, the
/// run over one more item is what `offer` makes of it (a failure ends the
/// run with its error); once `limit` are kept, further items change nothing.
pub proof fn lemma_collect_run_step(
    limit: nat,
    keyword: Option<Seq<char>>,
    items: Seq<FetchOutcome>,
    item: FetchOutcome,
)
    ensures
        collect_run(limit, keyword, items.push(item)) == match collect_run(limit, keyword, items) {
            Err(e) => Err(e),
            Ok(before) => if before.len() >= limit {
                Ok(before)
            } else {
                match item {
                    Err(e) => Err(e),
                    Ok(_) => match accepted(keyword, item) {
                        Some(job) => Ok(before.push(job)),
                        None => Ok(before),
                    },
                }
            },
        },
{
    assert(items.push(item).drop_last() =~= items);
}

/// What became of one fetched item.
#[derive(Debug, Clone, PartialEq, Eq)]
pub enum Offer {
    /// A job posting that passed the filter; it was kept.
    Kept,
    /// Not a job posting, or a posting that failed the filter.
    Skipped,
    /// The fetch failed: the run ends, with this error.
    Failed(LeadForgeError),
}

/// Collects the job postings that pass the keyword filter, in the order in
/// which they arrive, up to a limit.
pub struct JobCollector {
    limit: usize,
    keyword: Option<String>,
    jobs: Vec<HackerNewsJob>,
}

impl JobCollector {
    #[verifier::type_invariant]
    spec fn inv(self) -> bool {
        &&& self.jobs@.len() <= self.limit
        &&& forall|i: int|
            0 <= i < self.jobs@.len() ==> #[trigger] title_matches(
                title_text(self.jobs@[i]),
                self.keyword_text(),
            )
    }

    /// The most postings to collect.
    pub closed spec fn limit(&self) -> nat {
        self.limit as nat
    }

    /// The keyword, as given, if one was given.
    pub closed spec fn keyword_text(&self) -> Option<Seq<char>> {
        match self.keyword {
            Some(k) => Some(k@),
            None => None,
        }
    }

    /// The postings kept so far, in order of arrival.
    pub closed spec fn jobs(&self) -> Seq<HackerNewsJob> {
        self.jobs@
    }

    /// An empty collection of at most `limit` postings, filtered by
    /// `keyword` (matched case-insensitively).
    pub fn new(limit: usize, keyword: Option<String>) -> (c: JobCollector)
        ensures
            c.limit() == limit,
            c.keyword_text() == keyword_of(keyword),
            c.jobs() == Seq::<HackerNewsJob>::empty(),
    {
        JobCollector { limit, keyword, jobs: Vec::new() }
    }

    /// The limit is reached: no more postings are wanted.
    pub fn is_done(&self) -> (r: bool)
        ensures
            r == (self.jobs().len() >= self.limit()),
    {
        self.jobs.len() >= self.limit
    }

    /// Takes in one fetched item: a job posting that passes the filter is
    /// kept; anything else is not; a failed fetch ends the run, and its error
    /// is handed back as the run's outcome (see `collect_run`).
    pub fn offer(&mut self, item: FetchOutcome) -> (o: Offer)
        requires
            old(self).jobs().len() < old(self).limit(),
        ensures
            final(self).limit() == old(self).limit(),
            final(self).keyword_text() == old(self).keyword_text(),
            final(self).jobs() == match accepted(old(self).keyword_text(), item) {
                Some(job) => old(self).jobs().push(job),
                None => old(self).jobs(),
            },
            match item {
                Ok(HackerNewsItem::Job(job)) => if title_matches(
                    title_text(job),
                    old(self).keyword_text(),
                ) {
                    o is Kept && final(self).jobs() == old(self).jobs().push(job)
                } else {
                    o is Skipped && final(self).jobs() == old(self).jobs()
                },
                Ok(HackerNewsItem::Other) => o is Skipped && final(self).jobs() == old(self).jobs(),
                Err(e) => o == Offer::Failed(e) && final(self).jobs() == old(self).jobs(),
            },
    {
        proof {
            use_type_invariant(&*self);
        }
        match item {
            Ok(HackerNewsItem::Job(job)) => {
                let title: Option<&str> = match &job.title {
                    Some(t) => Some(t.as_str()),
                    None => None,
                };
                let keyword: Option<&str> = match &self.keyword {
                    Some(k) => Some(k.as_str()),
                    None => None,
                };
                if filter(title, keyword) {
                    let mut jobs: Vec<HackerNewsJob> = Vec::new();
                    std::mem::swap(&mut jobs, &mut self.jobs);
                    jobs.push(job);
                    self.jobs = jobs;
                    Offer::Kept
                } else {
                    Offer::Skipped
                }
            },
            Ok(HackerNewsItem::Other) => Offer::Skipped,
            Err(e) => Offer::Failed(e),
        }
    }

    /// The postings kept: at most `limit` of them, each passing the filter.
    pub fn into_jobs(self) -> (r: Vec<HackerNewsJob>)
        ensures
            r@ == self.jobs(),
            r@.len() <= self.limit(),
            forall|i: int|
                0 <= i < r@.len() ==> #[trigger] title_matches(
                    title_text(r@[i]),
                    self.keyword_text(),
                ),
    {
        proof {
            use_type_invariant(&self);
        }
        self.jobs
    }
}

} // verus!
