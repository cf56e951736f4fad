use leadforge::hn::{newest_first, IdPlan, JobCollector, Offer};
use leadforge::{
    Command, Config, HackerNewsItem, HackerNewsJob, HackerNewsJobStories, HackerNewsMaxItemId,
    LeadForgeCommand, LeadForgeError, NetworkFailure,
};
use std::time::Duration;

fn drain(mut plan: IdPlan) -> Vec<u64> {
    let mut out = Vec::new();
    while let Some(id) = plan.next_id() {
        out.push(id);
    }
    assert_eq!(plan.next_id(), None);
    out
}

fn job(id: u64, title: Option<&str>) -> HackerNewsJob {
    HackerNewsJob {
        id,
        by: Some("yeldarb".to_string()),
        score: Some(1),
        time: Some(1772646584),
        title: title.map(|t| t.to_string()),
        url: None,
        text: None,
    }
}

#[test]
fn ids_stories_then_older_items() {
    let plan = IdPlan::new(HackerNewsJobStories(vec![5, 3, 9]), HackerNewsMaxItemId(100));
    assert_eq!(drain(plan), vec![9, 5, 3, 2, 1, 0]);
}

#[test]
fn ids_without_stories_scan_below_max_item() {
    let plan = IdPlan::new(HackerNewsJobStories(vec![]), HackerNewsMaxItemId(3));
    assert_eq!(drain(plan), vec![2, 1, 0]);
    let plan = IdPlan::new(HackerNewsJobStories(vec![]), HackerNewsMaxItemId(0));
    assert_eq!(drain(plan), Vec::<u64>::new());
}

#[test]
fn ids_keep_duplicate_stories() {
    let plan = IdPlan::new(HackerNewsJobStories(vec![4, 2, 4]), HackerNewsMaxItemId(7));
    assert_eq!(drain(plan), vec![4, 4, 2, 1, 0]);
}

#[test]
fn ids_are_newest_first() {
    let stories = vec![47251163, 47250001, 47249000, 47251000];
    let mut plan = IdPlan::new(HackerNewsJobStories(stories), HackerNewsMaxItemId(47260000));
    let mut last = u64::MAX;
    for _ in 0..10_000 {
        let id = plan.next_id().unwrap();
        assert!(id <= last);
        last = id;
    }
    assert_eq!(last, 47249000 - (10_000 - 4));
}

#[test]
fn sorting_newest_first() {
    assert_eq!(newest_first(&vec![3, 1, 2, 3]), vec![3, 3, 2, 1]);
    assert_eq!(newest_first(&vec![]), Vec::<u64>::new());
    assert_eq!(newest_first(&vec![u64::MAX, 0]), vec![u64::MAX, 0]);
}

#[test]
fn collector_keeps_matching_jobs_in_order() {
    let mut c = JobCollector::new(2, Some("RUST".to_string()));
    assert!(!c.is_done());
    assert_eq!(c.offer(Ok(HackerNewsItem::Job(job(1, Some("Rust Engineer"))))), Offer::Kept);
    assert_eq!(c.offer(Ok(HackerNewsItem::Other)), Offer::Skipped);
    assert_eq!(c.offer(Ok(HackerNewsItem::Job(job(2, Some("Go Engineer"))))), Offer::Skipped);
    assert_eq!(c.offer(Ok(HackerNewsItem::Job(job(3, None)))), Offer::Skipped);
    assert!(!c.is_done());
    assert_eq!(c.offer(Ok(HackerNewsItem::Job(job(4, Some("rustacean"))))), Offer::Kept);
    assert!(c.is_done());
    let jobs = c.into_jobs();
    assert_eq!(jobs.iter().map(|j| j.id).collect::<Vec<_>>(), vec![1, 4]);
}

#[test]
fn collector_keyword_case_does_not_matter() {
    let items = [
        Some("Rust Engineer"),
        Some("Go Engineer"),
        None,
        Some("RUSTACEAN"),
        Some("trusty"),
    ];
    let mut runs = Vec::new();
    for k in ["rust", "RUST", "Rust"] {
        let mut c = JobCollector::new(2, Some(k.to_string()));
        for (i, t) in items.iter().enumerate() {
            if c.is_done() {
                break;
            }
            c.offer(Ok(HackerNewsItem::Job(job(i as u64, *t))));
        }
        runs.push(c.into_jobs().iter().map(|j| j.id).collect::<Vec<_>>());
    }
    assert_eq!(runs[0], vec![0, 3]);
    assert_eq!(runs[1], runs[0]);
    assert_eq!(runs[2], runs[0]);
}

#[test]
fn collector_keeps_first_matches_up_to_limit() {
    let mut c = JobCollector::new(3, Some("dev".to_string()));
    let titles = ["Dev 1", "ops", "DEV 2", "dev 3", "dev 4"];
    for (i, t) in titles.iter().enumerate() {
        if c.is_done() {
            break;
        }
        c.offer(Ok(HackerNewsItem::Job(job(i as u64, Some(t)))));
    }
    assert_eq!(c.into_jobs().iter().map(|j| j.id).collect::<Vec<_>>(), vec![0, 2, 3]);
}

#[test]
fn collector_without_keyword_keeps_every_job() {
    let mut c = JobCollector::new(5, None);
    assert_eq!(c.offer(Ok(HackerNewsItem::Job(job(1, None)))), Offer::Kept);
    assert_eq!(c.offer(Ok(HackerNewsItem::Job(job(2, Some("x"))))), Offer::Kept);
    assert_eq!(c.into_jobs().len(), 2);
}

#[test]
fn collector_hands_back_failures() {
    let mut c = JobCollector::new(1, None);
    let e = LeadForgeError::NetworkError(NetworkFailure {
        timeout: true,
        connect: false,
        request: false,
        status: None,
        message: "timed out".to_string(),
    });
    assert_eq!(c.offer(Err(e.clone())), Offer::Failed(e));
    assert!(!c.is_done());
    assert!(c.into_jobs().is_empty());
}

#[test]
fn collector_with_zero_limit_is_done_at_once() {
    let c = JobCollector::new(0, Some("rust".to_string()));
    assert!(c.is_done());
    assert!(c.into_jobs().is_empty());
}

#[test]
fn command_conversion_moves_options() {
    let config = Config {
        command: Command::HackerNews {
            limit: 20,
            max_concurrency: 50,
            max_retries: 3,
            timeout: Duration::from_secs(10),
            keyword: Some("rust".to_string()),
        },
    };
    let expected = LeadForgeCommand::HackerNews {
        limit: 20,
        max_concurrency: 50,
        max_retries: 3,
        timeout: Duration::from_secs(10),
        keyword: Some("rust".to_string()),
    };
    let converted: LeadForgeCommand = config.command.into();
    assert_eq!(converted, expected);
}
