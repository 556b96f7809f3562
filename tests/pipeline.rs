use std::collections::HashSet;

use archwiki_rs::cache::{page_cache_exists, page_path, CACHE_TTL_SECS};
use archwiki_rs::distribute::chunk_wiki_with_even_page_distribution;
use archwiki_rs::error::WikiError;
use archwiki_rs::formats::{Document, HtmlNode, PageFormat};
use archwiki_rs::mirror::{
    failure_log, merge_reports, plan_mirror, worker_count, FetchFailure, MirrorWorker,
    WorkerAction, WorkerEvent, WorkerReport,
};
use archwiki_rs::tree::flip_page_tree;

fn entry(cat: &str, pages: &[&str]) -> (String, Vec<String>) {
    (cat.to_owned(), pages.iter().map(|p| (*p).to_owned()).collect())
}

fn doc(body: &str) -> Document {
    Document {
        html: format!("<p>{body}</p>"),
        root: HtmlNode::Element {
            name: "html".to_owned(),
            href: None,
            children: vec![HtmlNode::Text(body.to_owned())],
        },
    }
}

/// Runs a worker against an in-memory set of files; `fails` picks the
/// titles whose fetch fails.
fn run_worker(
    worker: &mut MirrorWorker,
    files: &mut HashSet<String>,
    fails: &dyn Fn(&str) -> bool,
    fetched: &mut Vec<String>,
) {
    loop {
        let event = match worker.action() {
            WorkerAction::Finish => break,
            WorkerAction::CreateDir(_) => WorkerEvent::DirCreated(Ok(())),
            WorkerAction::CheckExists(path) => WorkerEvent::ExistsChecked(files.contains(&path)),
            WorkerAction::Fetch(title) => {
                fetched.push(title.clone());
                if fails(&title) {
                    WorkerEvent::Fetched(Err(WikiError::Network(format!("no {title}"))))
                } else {
                    WorkerEvent::Fetched(Ok(doc(&title)))
                }
            }
            WorkerAction::Write { path, content: _ } => {
                files.insert(path);
                WorkerEvent::Written(Ok(()))
            }
        };
        worker.step(event);
    }
}

fn total(chunk: &[(String, Vec<String>)]) -> usize {
    chunk.iter().map(|(_, p)| p.len()).sum()
}

#[test]
fn chunks_partition_the_categories() {
    let tree = vec![
        entry("d", &["1", "2", "3", "4"]),
        entry("a", &["5"]),
        entry("c", &["6", "7"]),
        entry("b", &["8", "9", "10"]),
    ];
    let chunks = chunk_wiki_with_even_page_distribution(tree, 2);
    assert_eq!(chunks.len(), 2);
    let mut names: Vec<String> =
        chunks.iter().flat_map(|c| c.iter().map(|(n, _)| n.clone())).collect();
    names.sort();
    assert_eq!(names, vec!["a", "b", "c", "d"]);
    assert_eq!(chunks.iter().map(|c| total(c)).sum::<usize>(), 10);
    // name order a(1), b(3), c(2), d(4): a->0, b->1, c->0, d->0
    let first: Vec<&str> = chunks[0].iter().map(|(n, _)| n.as_str()).collect();
    let second: Vec<&str> = chunks[1].iter().map(|(n, _)| n.as_str()).collect();
    assert_eq!(first, vec!["a", "c", "d"]);
    assert_eq!(second, vec!["b"]);
}

#[test]
fn chunk_totals_stay_within_largest_category() {
    let tree = vec![
        entry("x", &["1"; 7]),
        entry("y", &["1"; 3]),
        entry("z", &["1"; 3]),
        entry("w", &["1"; 1]),
        entry("v", &["1"; 5]),
    ];
    let chunks = chunk_wiki_with_even_page_distribution(tree, 3);
    let totals: Vec<usize> = chunks.iter().map(|c| total(c)).collect();
    let max = *totals.iter().max().unwrap();
    let min = *totals.iter().min().unwrap();
    assert!(max - min <= 7);
    assert_eq!(totals.iter().sum::<usize>(), 19);
}

#[test]
fn more_chunks_than_categories_leaves_some_empty() {
    let chunks = chunk_wiki_with_even_page_distribution(vec![entry("a", &["p"])], 3);
    assert_eq!(chunks.len(), 3);
    assert_eq!(chunks[0].len(), 1);
    assert!(chunks[1].is_empty() && chunks[2].is_empty());
    let mut worker = MirrorWorker::new(
        chunks.into_iter().nth(1).unwrap(),
        "root".to_owned(),
        PageFormat::PlainText,
        false,
        false,
    );
    assert!(matches!(worker.action(), WorkerAction::Finish));
    let mut files = HashSet::new();
    run_worker(&mut worker, &mut files, &|_| false, &mut vec![]);
    let report = worker.finish();
    assert_eq!(report.attempted, 0);
}

#[test]
fn uncategorized_pages_fill_buckets_of_500() {
    let pages: Vec<(String, Vec<String>)> =
        (0..1200).map(|i| (format!("page {i:04}"), vec![])).collect();
    let tree = flip_page_tree(pages);
    assert_eq!(tree.len(), 3);
    let size = |name: &str| tree.iter().find(|(n, _)| n == name).map(|(_, p)| p.len());
    assert_eq!(size("Uncategorized #1"), Some(500));
    assert_eq!(size("Uncategorized #2"), Some(500));
    assert_eq!(size("Uncategorized #3"), Some(200));
    let mut all: Vec<String> = tree.iter().flat_map(|(_, p)| p.clone()).collect();
    assert_eq!(all.len(), 1200);
    all.sort();
    all.dedup();
    assert_eq!(all.len(), 1200);
    let first = &tree.iter().find(|(n, _)| n == "Uncategorized #1").unwrap().1;
    assert_eq!(first[0], "page 0000");
    assert_eq!(first[499], "page 0499");
}

#[test]
fn categorized_pages_are_inverted() {
    let pages = vec![
        entry("Vim", &["Editors", "Terminal"]),
        entry("Emacs", &["Editors"]),
        entry("Lone", &[]),
    ];
    let tree = flip_page_tree(pages);
    let get = |name: &str| tree.iter().find(|(n, _)| n == name).map(|(_, p)| p.clone());
    assert_eq!(get("Editors"), Some(vec!["Vim".to_owned(), "Emacs".to_owned()]));
    assert_eq!(get("Terminal"), Some(vec!["Vim".to_owned()]));
    assert_eq!(get("Uncategorized #1"), Some(vec!["Lone".to_owned()]));
    assert_eq!(tree.len(), 3);
    assert!(flip_page_tree(vec![]).is_empty());
}

#[test]
fn cache_ttl_boundary() {
    let hour = 3600;
    let day = 24 * hour;
    let fresh_age = 13 * day + 23 * hour;
    let stale_age = 14 * day + hour;
    assert!(page_cache_exists(true, false, Ok(fresh_age)).unwrap());
    assert!(!page_cache_exists(true, false, Ok(stale_age)).unwrap());
    assert!(page_cache_exists(true, true, Ok(stale_age)).unwrap());
    assert!(!page_cache_exists(false, true, Ok(0)).unwrap());
    assert!(!page_cache_exists(true, false, Ok(CACHE_TTL_SECS)).unwrap());
    assert!(page_cache_exists(true, false, Ok(CACHE_TTL_SECS - 1)).unwrap());
    assert!(page_cache_exists(true, false, Err(WikiError::SystemTime("x".to_owned()))).is_err());
    assert!(page_cache_exists(true, true, Err(WikiError::SystemTime("x".to_owned()))).unwrap());
}

#[test]
fn page_paths_are_sanitized_with_extension() {
    assert_eq!(page_path("Vim", &PageFormat::Markdown, "root/Editors"), "root/Editors/Vim.md");
    assert_eq!(page_path("Vim", &PageFormat::Html, "root/"), "root/Vim.html");
    assert_eq!(page_path("Vim", &PageFormat::PlainText, "root"), "root/Vim");
    assert_eq!(page_path("a/b:c", &PageFormat::PlainText, "d"), "d/abc");
    assert_eq!(page_path("Python 3.x", &PageFormat::Markdown, ""), "Python 3.x.md");
}

#[test]
fn failed_fetch_is_isolated() {
    let chunk = vec![entry("Cat", &["One", "Two", "Three"])];
    let mut worker =
        MirrorWorker::new(chunk, "root".to_owned(), PageFormat::PlainText, false, false);
    let mut files = HashSet::new();
    let mut fetched = vec![];
    run_worker(&mut worker, &mut files, &|t| t == "Two", &mut fetched);
    assert_eq!(fetched, vec!["One", "Two", "Three"]);
    let report = worker.finish();
    assert_eq!(report.attempted, 3);
    assert_eq!(report.succeeded, 2);
    assert_eq!(report.failures.len(), 1);
    assert_eq!(report.failures[0].page, "Two");
    assert!(files.contains("root/Cat/One"));
    assert!(files.contains("root/Cat/Three"));
    assert!(!files.contains("root/Cat/Two"));
}

#[test]
fn existing_files_are_skipped_unless_overridden() {
    let mut files: HashSet<String> = ["root/Cat/One.html".to_owned()].into_iter().collect();
    let mut fetched = vec![];
    let mut worker = MirrorWorker::new(
        vec![entry("Cat", &["One", "Two"])],
        "root".to_owned(),
        PageFormat::Html,
        false,
        false,
    );
    run_worker(&mut worker, &mut files, &|_| false, &mut fetched);
    assert_eq!(fetched, vec!["Two"]);
    let report = worker.finish();
    assert_eq!((report.attempted, report.succeeded), (1, 1));

    let mut fetched = vec![];
    let mut worker = MirrorWorker::new(
        vec![entry("Cat", &["One", "Two"])],
        "root".to_owned(),
        PageFormat::Html,
        false,
        true,
    );
    run_worker(&mut worker, &mut files, &|_| false, &mut fetched);
    assert_eq!(fetched, vec!["One", "Two"]);
}

#[test]
fn rendered_content_is_written() {
    let mut worker = MirrorWorker::new(
        vec![entry("Cat", &["Page"])],
        "root".to_owned(),
        PageFormat::Html,
        false,
        true,
    );
    worker.step(WorkerEvent::DirCreated(Ok(())));
    match worker.action() {
        WorkerAction::Fetch(title) => assert_eq!(title, "Page"),
        other => panic!("unexpected {other:?}"),
    }
    worker.step(WorkerEvent::Fetched(Ok(doc("body text"))));
    match worker.action() {
        WorkerAction::Write { path, content } => {
            assert_eq!(path, "root/Cat/Page.html");
            assert_eq!(content, "<h1>Page</h1>\n<p>body text</p>");
        }
        other => panic!("unexpected {other:?}"),
    }
}

#[test]
fn directory_failure_gives_the_chunk_up() {
    let mut worker = MirrorWorker::new(
        vec![entry("Cat", &["Page"]), entry("Dog", &["Other"])],
        "root".to_owned(),
        PageFormat::Html,
        false,
        true,
    );
    worker.step(WorkerEvent::DirCreated(Ok(())));
    worker.step(WorkerEvent::Fetched(Err(WikiError::Network("down".to_owned()))));
    assert!(matches!(worker.action(), WorkerAction::CreateDir(_)));
    worker.step(WorkerEvent::DirCreated(Err(WikiError::IO("denied".to_owned()))));
    assert!(matches!(worker.action(), WorkerAction::Finish));
    let report = worker.finish();
    assert_eq!(report.attempted, 1);
    assert_eq!(report.failures.len(), 1);
    assert_eq!(report.failures[0].page, "Page");
    match &report.aborted {
        Some(WikiError::IO(m)) => assert_eq!(m, "denied"),
        other => panic!("unexpected {other:?}"),
    }
    let merged = merge_reports(vec![Ok(report)]);
    assert_eq!((merged.attempted, merged.failed, merged.crashed.len()), (1, 1, 1));
}

#[test]
fn end_to_end_mirror() {
    let tree = vec![
        entry("Editors", &["Vim", "Emacs"]),
        entry("UncategorizedBucket #1", &["RandomPage"]),
    ];
    let chunks = plan_mirror(tree, worker_count(Some(2), 8));
    assert_eq!(chunks.len(), 2);
    let mut files = HashSet::new();
    let mut outcomes = vec![];
    for chunk in chunks {
        let mut worker =
            MirrorWorker::new(chunk, "root".to_owned(), PageFormat::Markdown, false, false);
        run_worker(&mut worker, &mut files, &|_| false, &mut vec![]);
        outcomes.push(Ok(worker.finish()));
    }
    let report = merge_reports(outcomes);
    assert_eq!((report.attempted, report.succeeded, report.failed), (3, 3, 0));
    assert!(report.crashed.is_empty());
    assert!(files.contains("root/Editors/Vim.md"));
    assert!(files.contains("root/Editors/Emacs.md"));
    assert!(files.contains("root/UncategorizedBucket #1/RandomPage.md"));
    assert_eq!(files.len(), 3);
}

#[test]
fn reports_merge_and_log() {
    let a = WorkerReport {
        attempted: 2,
        succeeded: 1,
        failures: vec![FetchFailure {
            page: "A".to_owned(),
            error: WikiError::NoPageFound("gone".to_owned()),
        }],
        aborted: None,
    };
    let b = WorkerReport { attempted: 4, succeeded: 4, failures: vec![], aborted: None };
    let report = merge_reports(vec![Ok(a), Err(WikiError::IO("x".to_owned())), Ok(b)]);
    assert_eq!((report.attempted, report.succeeded, report.failed), (6, 5, 1));
    assert_eq!(report.crashed.len(), 1);
    assert_eq!(failure_log(&report.failures), "failed to fetch page 'A'\nREASON: gone");
    let two = vec![
        FetchFailure { page: "A".to_owned(), error: WikiError::NoPageFound("x".to_owned()) },
        FetchFailure { page: "B".to_owned(), error: WikiError::NoPageFound("y".to_owned()) },
    ];
    assert_eq!(
        failure_log(&two),
        "failed to fetch page 'A'\nREASON: x\n\nfailed to fetch page 'B'\nREASON: y"
    );
}

#[test]
fn worker_count_has_a_floor_of_one() {
    assert_eq!(worker_count(None, 4), 4);
    assert_eq!(worker_count(Some(0), 4), 1);
    assert_eq!(worker_count(None, 0), 1);
}

#[test]
fn plan_drops_empty_categories() {
    let chunks = plan_mirror(vec![entry("a", &[]), entry("b", &["x"])], 1);
    assert_eq!(chunks[0].len(), 1);
    assert_eq!(chunks[0][0].0, "b");
}
