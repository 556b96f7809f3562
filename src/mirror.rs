use crate::cache::{join_path, joined_path, page_file, page_path, sanitized, to_save_file_name};
use crate::distribute::{
    all_entries, chunk_wiki_with_even_page_distribution, chunks_view, greedy, largest_category,
    lemma_total_nonneg, lemma_total_split, sorted_by_name, sum_of_totals, total_pages,
    CategoryEntry,
};
use crate::error::{error_message, WikiError};
use crate::formats::{format_page, rendered, Document, PageFormat};
use crate::text::{join_strings, joined, views};
use vstd::prelude::*;

verus! {

/// A page that could not be mirrored, and why.
#[derive(Debug)]
pub struct FetchFailure {
    pub page: String,
    pub error: WikiError,
}

/// What a worker asks its runner to do next.
#[derive(Debug)]
pub enum WorkerAction {
    /// Create this directory; an existing one is no error.
    CreateDir(String),
    /// Tell whether this file exists.
    CheckExists(String),
    /// Fetch the page with this exact title.
    Fetch(String),
    /// Write this content to this file.
    Write { path: String, content: String },
    /// Nothing is left to do.
    Finish,
}

/// What came of the last action.
#[derive(Debug)]
pub enum WorkerEvent {
    DirCreated(Result<(), WikiError>),
    ExistsChecked(bool),
    Fetched(Result<Document, WikiError>),
    Written(Result<(), WikiError>),
}

/// Where a worker stands with its current category or page.
#[derive(Debug)]
pub enum Stage {
    /// The category's directory is to be created.
    MakeDir,
    /// The page's file is to be looked for.
    Check,
    /// The page is to be fetched.
    Fetch,
    /// The rendered page is to be written.
    Write(String),
    /// Every page of the chunk has been dealt with.
    Done,
    /// A directory could not be created; the chunk was given up.
    Failed(WikiError),
}

/// Mirrors one chunk: for each category its directory, then for each page
/// its file, fetched, rendered and written unless it exists already.
#[derive(Debug)]
pub struct MirrorWorker {
    pub chunk: Vec<CategoryEntry>,
    pub location: String,
    pub format: PageFormat,
    pub show_urls: bool,
    pub override_existing_files: bool,
    pub category: usize,
    pub page: usize,
    pub stage: Stage,
    pub failures: Vec<FetchFailure>,
    pub succeeded: usize,
}

/// What a worker did with its chunk.
#[derive(Debug)]
pub struct WorkerReport {
    /// Pages fetched (those whose file existed already are not counted).
    pub attempted: usize,
    pub succeeded: usize,
    pub failures: Vec<FetchFailure>,
    /// The error that made the worker give the rest of its chunk up, if any.
    pub aborted: Option<WikiError>,
}

/// The directory of category `c` of the worker's chunk.
pub open spec fn category_dir(w: MirrorWorker, c: int) -> Seq<char> {
    joined_path(w.location@, sanitized(w.chunk@[c].0@))
}

/// The title of page `p` of category `c`.
pub open spec fn page_title(w: MirrorWorker, c: int, p: int) -> String {
    w.chunk@[c].1@[p]
}

/// The file of page `p` of category `c`.
pub open spec fn page_target(w: MirrorWorker, c: int, p: int) -> Seq<char> {
    page_file(page_title(w, c, p)@, w.format, category_dir(w, c))
}

/// `w` has moved on to page `p` of category `c`: to that page when there is
/// one, else to the next category's directory, else to the end.
pub open spec fn positioned(w: MirrorWorker, c: int, p: int) -> bool {
    if p < w.chunk@[c].1@.len() {
        &&& w.category == c
        &&& w.page == p
        &&& w.stage == if w.override_existing_files {
            Stage::Fetch
        } else {
            Stage::Check
        }
    } else if c + 1 < w.chunk@.len() {
        &&& w.category == c + 1
        &&& w.page == 0
        &&& w.stage == Stage::MakeDir
    } else {
        &&& w.category == c
        &&& w.page == p
        &&& w.stage == Stage::Done
    }
}

/// Same chunk and settings.
pub open spec fn same_setup(a: MirrorWorker, b: MirrorWorker) -> bool {
    &&& a.chunk == b.chunk
    &&& a.location == b.location
    &&& a.format == b.format
    &&& a.show_urls == b.show_urls
    &&& a.override_existing_files == b.override_existing_files
}

/// How an event moves a worker from `o` to `f`.
pub open spec fn stepped(o: MirrorWorker, event: WorkerEvent, f: MirrorWorker) -> bool {
    let (c, p) = (o.category as int, o.page as int);
    let moved_on = positioned(f, c, p + 1);
    same_setup(o, f) && match (o.stage, event) {
        (Stage::MakeDir, WorkerEvent::DirCreated(Ok(_))) => {
            &&& positioned(f, c, 0)
            &&& f.failures == o.failures
            &&& f.succeeded == o.succeeded
        },
        (Stage::MakeDir, WorkerEvent::DirCreated(Err(e))) => {
            &&& f.stage == Stage::Failed(e)
            &&& f.failures == o.failures
            &&& f.succeeded == o.succeeded
        },
        (Stage::Check, WorkerEvent::ExistsChecked(true)) => {
            &&& moved_on
            &&& f.failures == o.failures
            &&& f.succeeded == o.succeeded
        },
        (Stage::Check, WorkerEvent::ExistsChecked(false)) => {
            &&& f.category == o.category
            &&& f.page == o.page
            &&& f.stage == Stage::Fetch
            &&& f.failures == o.failures
            &&& f.succeeded == o.succeeded
        },
        (Stage::Fetch, WorkerEvent::Fetched(Ok(doc))) => {
            &&& f.category == o.category
            &&& f.page == o.page
            &&& f.stage is Write
            &&& f.stage->Write_0@ == rendered(o.format, doc, page_title(o, c, p)@, o.show_urls)
            &&& f.failures == o.failures
            &&& f.succeeded == o.succeeded
        },
        (Stage::Fetch, WorkerEvent::Fetched(Err(e))) => {
            &&& moved_on
            &&& f.failures@ == o.failures@.push(FetchFailure { page: page_title(o, c, p), error: e })
            &&& f.succeeded == o.succeeded
        },
        (Stage::Write(_), WorkerEvent::Written(Ok(_))) => {
            &&& moved_on
            &&& f.failures == o.failures
            &&& f.succeeded == o.succeeded + 1
        },
        (Stage::Write(_), WorkerEvent::Written(Err(e))) => {
            &&& moved_on
            &&& f.failures@ == o.failures@.push(FetchFailure { page: page_title(o, c, p), error: e })
            &&& f.succeeded == o.succeeded
        },
        (stage, _) => {
            &&& f.category == o.category
            &&& f.page == o.page
            &&& f.stage == stage
            &&& f.failures == o.failures
            &&& f.succeeded == o.succeeded
        },
    }
}

/// The action that goes with a worker's stage.
pub open spec fn action_of(w: MirrorWorker, a: WorkerAction) -> bool {
    let (c, p) = (w.category as int, w.page as int);
    match w.stage {
        Stage::MakeDir => a is CreateDir && a->CreateDir_0@ == category_dir(w, c),
        Stage::Check => a is CheckExists && a->CheckExists_0@ == page_target(w, c, p),
        Stage::Fetch => a is Fetch && a->Fetch_0@ == page_title(w, c, p)@,
        Stage::Write(content) => a is Write && a->path@ == page_target(w, c, p) && a->content@
            == content@,
        _ => a is Finish,
    }
}

/// Pages before page `p` of category `c` are no more than all pages.
proof fn lemma_prefix_bound(s: Seq<CategoryEntry>, c: int, p: int)
    requires
        0 <= c < s.len(),
        0 <= p <= s[c].1@.len(),
    ensures
        total_pages(s.take(c)) + p <= total_pages(s),
        total_pages(s.take(c)) >= 0,
{
    assert(s.take(c + 1).drop_last() =~= s.take(c));
    assert(s =~= s.take(c + 1) + s.skip(c + 1));
    lemma_total_split(s.take(c + 1), s.skip(c + 1));
    lemma_total_nonneg(s.skip(c + 1));
    lemma_total_nonneg(s.take(c));
}

proof fn lemma_page_bound(s: Seq<CategoryEntry>, c: int, p: int)
    requires
        0 <= c < s.len(),
        0 <= p < s[c].1@.len(),
    ensures
        total_pages(s.take(c)) + p + 1 <= total_pages(s),
        total_pages(s.take(c)) >= 0,
{
    lemma_prefix_bound(s, c, p + 1);
}

impl MirrorWorker {
    /// Pages of the chunk whose outcome is known bound the counts, and the
    /// position is inside the chunk.
    pub open spec fn wf(&self) -> bool {
        &&& total_pages(self.chunk@) <= usize::MAX
        &&& self.chunk@.len() > 0 ==> self.category < self.chunk@.len()
        &&& self.chunk@.len() > 0 ==> self.page <= self.chunk@[self.category as int].1@.len()
        &&& self.chunk@.len() == 0 ==> self.stage == Stage::Done && self.category == 0
            && self.page == 0
        &&& (self.stage is Check || self.stage is Fetch || self.stage is Write)
            ==> self.page < self.chunk@[self.category as int].1@.len()
        &&& self.stage is MakeDir ==> self.page == 0
        &&& self.failures@.len() + self.succeeded <= total_pages(
            self.chunk@.take(self.category as int),
        ) + self.page
    }

    /// A worker at the start of its chunk.
    pub fn new(
        chunk: Vec<CategoryEntry>,
        location: String,
        format: PageFormat,
        show_urls: bool,
        override_existing_files: bool,
    ) -> (w: MirrorWorker)
        requires
            total_pages(chunk@) <= usize::MAX,
        ensures
            w.wf(),
            w.chunk == chunk,
            w.location == location,
            w.format == format,
            w.show_urls == show_urls,
            w.override_existing_files == override_existing_files,
            w.category == 0,
            w.page == 0,
            w.stage == if chunk@.len() == 0 {
                Stage::Done
            } else {
                Stage::MakeDir
            },
            w.failures@.len() == 0,
            w.succeeded == 0,
    {
        let stage = if chunk.len() == 0 {
            Stage::Done
        } else {
            Stage::MakeDir
        };
        let w = MirrorWorker {
            chunk,
            location,
            format,
            show_urls,
            override_existing_files,
            category: 0,
            page: 0,
            stage,
            failures: Vec::new(),
            succeeded: 0,
        };
        proof {
            lemma_total_nonneg(w.chunk@.take(0));
        }
        w
    }

    /// The directory of the current category.
    fn current_dir(&self) -> (r: String)
        requires
            self.category < self.chunk@.len(),
        ensures
            r@ == category_dir(*self, self.category as int),
    {
        let name = to_save_file_name(self.chunk[self.category].0.as_str());
        join_path(self.location.as_str(), name.as_str())
    }

    /// The next action to perform.
    pub fn action(&self) -> (a: WorkerAction)
        requires
            self.wf(),
        ensures
            action_of(*self, a),
    {
        match &self.stage {
            Stage::MakeDir => WorkerAction::CreateDir(self.current_dir()),
            Stage::Check => {
                let dir = self.current_dir();
                let title = &self.chunk[self.category].1[self.page];
                WorkerAction::CheckExists(page_path(title.as_str(), &self.format, dir.as_str()))
            },
            Stage::Fetch => WorkerAction::Fetch(self.chunk[self.category].1[self.page].clone()),
            Stage::Write(content) => {
                let dir = self.current_dir();
                let title = &self.chunk[self.category].1[self.page];
                WorkerAction::Write {
                    path: page_path(title.as_str(), &self.format, dir.as_str()),
                    content: content.clone(),
                }
            },
            _ => WorkerAction::Finish,
        }
    }

    /// Moves to page `p` of category `c`, or past it.
    fn move_to(&mut self, c: usize, p: usize)
        requires
            c < old(self).chunk@.len(),
            p <= old(self).chunk@[c as int].1@.len(),
            total_pages(old(self).chunk@) <= usize::MAX,
            old(self).failures@.len() + old(self).succeeded <= total_pages(old(self).chunk@.take(c as int)) + p,
        ensures
            positioned(*final(self), c as int, p as int),
            same_setup(*old(self), *final(self)),
            final(self).failures == old(self).failures,
            final(self).succeeded == old(self).succeeded,
            final(self).wf(),
    {
        let ghost s = self.chunk@;
        proof {
            assert(s.take(c + 1).drop_last() =~= s.take(c as int));
            assert(s =~= s.take(c + 1) + s.skip(c + 1));
            lemma_total_split(s.take(c + 1), s.skip(c + 1));
            lemma_total_nonneg(s.skip(c + 1));
        }
        if p < self.chunk[c].1.len() {
            self.category = c;
            self.page = p;
            self.stage = if self.override_existing_files {
                Stage::Fetch
            } else {
                Stage::Check
            };
        } else if c < self.chunk.len() - 1 {
            self.category = c + 1;
            self.page = 0;
            self.stage = Stage::MakeDir;
        } else {
            self.category = c;
            self.page = p;
            self.stage = Stage::Done;
        }
    }

    /// Takes in what came of the last action.
    pub fn step(&mut self, event: WorkerEvent)
        requires
            old(self).wf(),
        ensures
            final(self).wf(),
            stepped(*old(self), event, *final(self)),
    {
        let c = self.category;
        let p = self.page;
        let ghost o = *self;
        proof {
            if o.stage is Check || o.stage is Fetch || o.stage is Write {
                lemma_page_bound(o.chunk@, c as int, p as int);
            }
        }
        let mut stage = Stage::Done;
        core::mem::swap(&mut stage, &mut self.stage);
        match (stage, event) {
            (Stage::MakeDir, WorkerEvent::DirCreated(Ok(_))) => {
                self.move_to(c, 0);
            },
            (Stage::MakeDir, WorkerEvent::DirCreated(Err(e))) => {
                self.stage = Stage::Failed(e);
            },
            (Stage::Check, WorkerEvent::ExistsChecked(true)) => {
                self.move_to(c, p + 1);
            },
            (Stage::Check, WorkerEvent::ExistsChecked(false)) => {
                self.stage = Stage::Fetch;
            },
            (Stage::Fetch, WorkerEvent::Fetched(Ok(doc))) => {
                let content = format_page(
                    &self.format,
                    &doc,
                    self.chunk[c].1[p].as_str(),
                    self.show_urls,
                );
                self.stage = Stage::Write(content);
            },
            (Stage::Fetch, WorkerEvent::Fetched(Err(e))) => {
                let page = self.chunk[c].1[p].clone();
                self.failures.push(FetchFailure { page, error: e });
                self.move_to(c, p + 1);
            },
            (Stage::Write(_), WorkerEvent::Written(Ok(_))) => {
                self.succeeded = self.succeeded + 1;
                self.move_to(c, p + 1);
            },
            (Stage::Write(_), WorkerEvent::Written(Err(e))) => {
                let page = self.chunk[c].1[p].clone();
                self.failures.push(FetchFailure { page, error: e });
                self.move_to(c, p + 1);
            },
            (stage, _) => {
                self.stage = stage;
            },
        }
    }

    /// The worker's report once its chunk is done or given up: what was
    /// recorded so far, and the error that made it give up, if any.
    pub fn finish(self) -> (r: WorkerReport)
        requires
            self.wf(),
            self.stage is Done || self.stage is Failed,
        ensures
            r.failures == self.failures,
            r.succeeded == self.succeeded,
            r.attempted == self.failures@.len() + self.succeeded,
            r.aborted == match self.stage {
                Stage::Failed(e) => Some(e),
                _ => None::<WikiError>,
            },
    {
        proof {
            let s = self.chunk@;
            if s.len() > 0 {
                lemma_prefix_bound(s, self.category as int, self.page as int);
            } else {
                assert(s.take(self.category as int) =~= s);
            }
        }
        let attempted = self.failures.len() + self.succeeded;
        let aborted = match self.stage {
            Stage::Failed(e) => Some(e),
            _ => None,
        };
        WorkerReport { attempted, succeeded: self.succeeded, failures: self.failures, aborted }
    }
}

/// What a mirror run did over all its workers.
#[derive(Debug)]
pub struct MirrorReport {
    pub attempted: usize,
    pub succeeded: usize,
    pub failed: usize,
    /// The pages that failed, worker by worker, in each worker's order.
    pub failures: Vec<FetchFailure>,
    /// The errors of the workers that gave their chunk up or crashed.
    pub crashed: Vec<WikiError>,
}

/// Pages attempted over the workers that finished.
pub open spec fn sum_attempted(s: Seq<Result<WorkerReport, WikiError>>) -> int
    decreases s.len(),
{
    if s.len() == 0 {
        0
    } else {
        sum_attempted(s.drop_last()) + match s.last() {
            Ok(r) => r.attempted as int,
            Err(_) => 0,
        }
    }
}

/// Pages written over the workers that finished.
pub open spec fn sum_succeeded(s: Seq<Result<WorkerReport, WikiError>>) -> int
    decreases s.len(),
{
    if s.len() == 0 {
        0
    } else {
        sum_succeeded(s.drop_last()) + match s.last() {
            Ok(r) => r.succeeded as int,
            Err(_) => 0,
        }
    }
}

/// The failures of the workers that finished, one worker after the other.
pub open spec fn all_failures(s: Seq<Result<WorkerReport, WikiError>>) -> Seq<FetchFailure>
    decreases s.len(),
{
    if s.len() == 0 {
        Seq::empty()
    } else {
        all_failures(s.drop_last()) + match s.last() {
            Ok(r) => r.failures@,
            Err(_) => Seq::empty(),
        }
    }
}

/// The errors of the workers that gave up or crashed, in order.
pub open spec fn crashes(s: Seq<Result<WorkerReport, WikiError>>) -> Seq<WikiError>
    decreases s.len(),
{
    if s.len() == 0 {
        Seq::empty()
    } else {
        crashes(s.drop_last()) + match s.last() {
            Ok(r) => match r.aborted {
                Some(e) => seq![e],
                None => Seq::empty(),
            },
            Err(e) => seq![e],
        }
    }
}

proof fn lemma_sums_prefix(s: Seq<Result<WorkerReport, WikiError>>, i: int)
    requires
        0 <= i <= s.len(),
    ensures
        0 <= sum_attempted(s.take(i)) <= sum_attempted(s),
        0 <= sum_succeeded(s.take(i)) <= sum_succeeded(s),
    decreases s.len(),
{
    if i == s.len() {
        assert(s.take(i) =~= s);
        if s.len() > 0 {
            lemma_sums_prefix(s.drop_last(), i - 1);
            assert(s.drop_last().take(i - 1) =~= s.drop_last());
        }
    } else {
        lemma_sums_prefix(s.drop_last(), i);
        assert(s.drop_last().take(i) =~= s.take(i));
        lemma_sums_prefix(s.drop_last(), s.len() - 1);
        assert(s.drop_last().take(s.len() - 1) =~= s.drop_last());
    }
}

/// Gathers the workers' outcomes into one report.
pub fn merge_reports(outcomes: Vec<Result<WorkerReport, WikiError>>) -> (r: MirrorReport)
    requires
        sum_attempted(outcomes@) <= usize::MAX,
        sum_succeeded(outcomes@) <= usize::MAX,
    ensures
        r.attempted == sum_attempted(outcomes@),
        r.succeeded == sum_succeeded(outcomes@),
        r.failures@ == all_failures(outcomes@),
        r.failed == r.failures@.len(),
        r.crashed@ == crashes(outcomes@),
{
    let ghost s = outcomes@;
    let mut rest = outcomes;
    let mut attempted: usize = 0;
    let mut succeeded: usize = 0;
    let mut failures: Vec<FetchFailure> = Vec::new();
    let mut crashed: Vec<WikiError> = Vec::new();
    let mut done: usize = 0;
    let outcome_count = rest.len();
    while rest.len() > 0
        invariant
            done <= s.len(),
            s.len() == outcome_count,
            rest@ == s.skip(done as int),
            sum_attempted(s) <= usize::MAX,
            sum_succeeded(s) <= usize::MAX,
            attempted == sum_attempted(s.take(done as int)),
            succeeded == sum_succeeded(s.take(done as int)),
            failures@ == all_failures(s.take(done as int)),
            crashed@ == crashes(s.take(done as int)),
        decreases rest.len(),
    {
        let outcome = rest.remove(0);
        proof {
            assert(outcome == s[done as int]);
            assert(s.take(done + 1).drop_last() =~= s.take(done as int));
            lemma_sums_prefix(s, done + 1);
        }
        match outcome {
            Ok(mut report) => {
                attempted = attempted + report.attempted;
                succeeded = succeeded + report.succeeded;
                failures.append(&mut report.failures);
                match report.aborted {
                    Some(e) => {
                        crashed.push(e);
                        assert(crashed@ =~= crashes(s.take(done as int)) + seq![e]);
                    },
                    None => {
                        assert(crashed@ =~= crashes(s.take(done as int)) + Seq::<WikiError>::empty());
                    },
                }
            },
            Err(e) => {
                crashed.push(e);
                assert(crashed@ =~= crashes(s.take(done as int)) + seq![e]);
            },
        }
        assert(rest@ =~= s.skip(done + 1));
        done = done + 1;
    }
    proof {
        assert(s.take(s.len() as int) =~= s);
    }
    let failed = failures.len();
    MirrorReport { attempted, succeeded, failed, failures, crashed }
}

/// The log entry of one failure.
pub open spec fn failure_entry(f: FetchFailure) -> Seq<char> {
    "failed to fetch page '"@ + f.page@ + "'\nREASON: "@ + error_message(f.error)
}

/// The failure log: one entry per failure, separated by blank lines.
pub fn failure_log(failures: &Vec<FetchFailure>) -> (r: String)
    ensures
        r@ == joined(failures@.map_values(|f: FetchFailure| failure_entry(f)), "\n\n"@),
{
    let mut entries: Vec<String> = Vec::new();
    let mut i: usize = 0;
    while i < failures.len()
        invariant
            i <= failures@.len(),
            views(entries@) == failures@.take(i as int).map_values(
                |f: FetchFailure| failure_entry(f),
            ),
        decreases failures@.len() - i,
    {
        let mut e = String::from_str("failed to fetch page '");
        e.append(failures[i].page.as_str());
        e.append("'\nREASON: ");
        e.append(failures[i].error.message().as_str());
        assert(e@ =~= failure_entry(failures@[i as int]));
        let ghost before = entries@;
        entries.push(e);
        assert(views(entries@) =~= views(before).push(failure_entry(failures@[i as int])));
        assert(failures@.take(i + 1) =~= failures@.take(i as int).push(failures@[i as int]));
        assert(views(entries@) =~= failures@.take(i + 1).map_values(
            |f: FetchFailure| failure_entry(f),
        ));
        i = i + 1;
    }
    assert(failures@.take(failures@.len() as int) =~= failures@);
    join_strings(&entries, "\n\n")
}

/// The categories that hold at least one page, in order.
pub open spec fn non_empty(s: Seq<CategoryEntry>) -> Seq<CategoryEntry> {
    s.filter(|e: CategoryEntry| e.1@.len() > 0)
}

proof fn lemma_non_empty_total(s: Seq<CategoryEntry>)
    ensures
        total_pages(non_empty(s)) == total_pages(s),
        largest_category(non_empty(s)) <= largest_category(s),
    decreases s.len(),
{
    reveal(Seq::filter);
    if s.len() > 0 {
        lemma_non_empty_total(s.drop_last());
        lemma_total_nonneg(s.drop_last());
        let f = non_empty(s.drop_last());
        if s.last().1@.len() > 0 {
            assert(non_empty(s) == f.push(s.last()));
            assert(f.push(s.last()).drop_last() =~= f);
        } else {
            assert(non_empty(s) == f);
        }
    }
}

/// The number of workers: the one asked for, else one per physical core,
/// and never fewer than one.
pub fn worker_count(requested: Option<usize>, physical_cores: usize) -> (r: usize)
    ensures
        r == match requested {
            Some(n) => if n >= 1 { n } else { 1 },
            None => if physical_cores >= 1 { physical_cores } else { 1 },
        },
{
    let n = match requested {
        Some(n) => n,
        None => physical_cores,
    };
    if n >= 1 {
        n
    } else {
        1
    }
}

/// Drops the empty categories and splits the rest into `worker_count`
/// chunks of close page totals.
pub fn plan_mirror(wiki_tree: Vec<CategoryEntry>, worker_count: usize) -> (chunks: Vec<
    Vec<CategoryEntry>,
>)
    requires
        worker_count >= 1,
    ensures
        chunks@.len() == worker_count,
        exists|s: Seq<CategoryEntry>|
            s.to_multiset() == non_empty(wiki_tree@).to_multiset() && sorted_by_name(s)
                && chunks_view(chunks@) == greedy(s, worker_count as nat),
        all_entries(chunks_view(chunks@)) == non_empty(wiki_tree@).to_multiset(),
        sum_of_totals(chunks_view(chunks@)) == total_pages(wiki_tree@),
        forall|i: int, j: int|
            0 <= i < worker_count && 0 <= j < worker_count ==> total_pages(
                #[trigger] chunks@[i]@,
            ) <= total_pages(#[trigger] chunks@[j]@) + largest_category(wiki_tree@),
{
    let ghost input = wiki_tree@;
    let mut kept: Vec<CategoryEntry> = Vec::new();
    let mut rest = wiki_tree;
    let mut done: usize = 0;
    let category_count = rest.len();
    while rest.len() > 0
        invariant
            done <= input.len(),
            input.len() == category_count,
            rest@ == input.skip(done as int),
            kept@ == non_empty(input.take(done as int)),
        decreases rest.len(),
    {
        let entry = rest.remove(0);
        proof {
            reveal(Seq::filter);
            assert(entry == input[done as int]);
            assert(input.take(done + 1).drop_last() =~= input.take(done as int));
        }
        if entry.1.len() > 0 {
            kept.push(entry);
        }
        assert(rest@ =~= input.skip(done + 1));
        done = done + 1;
    }
    proof {
        assert(input.take(input.len() as int) =~= input);
        lemma_non_empty_total(input);
    }
    chunk_wiki_with_even_page_distribution(kept, worker_count)
}

} // verus!
