use starboard_bot::feed::{new_entries, next_mark, plan_poll, sweep, FeedEntry, FeedSnapshot, PollPlan};

fn entry(id: &str, updated: Option<i64>) -> FeedEntry {
    FeedEntry {
        id: id.to_string(),
        title: None,
        authors: vec![],
        body: None,
        link: None,
        updated,
    }
}

fn feed(updated: Option<i64>, times: &[Option<i64>]) -> FeedSnapshot {
    FeedSnapshot {
        id: "feed".to_string(),
        title: None,
        updated,
        entries: times.iter().enumerate().map(|(i, t)| entry(&i.to_string(), *t)).collect(),
    }
}

#[test]
fn first_poll_is_silent() {
    let f = feed(Some(500), &[Some(100), Some(200), Some(300), Some(400), Some(500)]);
    let plan = plan_poll(None, &f);
    assert_eq!(plan, PollPlan::Baseline(500));
    assert_eq!(next_mark(None, &plan), Some(500));
}

#[test]
fn new_entry_detection() {
    let t = 1_000;
    let f = feed(Some(t + 1), &[Some(t + 1), Some(t - 1)]);
    let plan = plan_poll(Some(t), &f);
    assert_eq!(plan, PollPlan::Emit(t + 1, vec![0]));
    assert_eq!(next_mark(Some(t), &plan), Some(t + 1));
}

#[test]
fn entry_at_watermark_is_not_new() {
    let f = feed(Some(20), &[Some(10), None, Some(11), Some(20)]);
    assert_eq!(plan_poll(Some(10), &f), PollPlan::Emit(20, vec![2, 3]));
    assert_eq!(new_entries(&f.entries, 10), vec![2, 3]);
    assert_eq!(new_entries(&Vec::new(), 10), Vec::<usize>::new());
}

#[test]
fn unchanged_feed_short_circuits() {
    let f = feed(Some(50), &[Some(60)]);
    let plan = plan_poll(Some(50), &f);
    assert_eq!(plan, PollPlan::Unchanged(50));
    assert_eq!(next_mark(Some(50), &plan), Some(50));
}

#[test]
fn feed_without_time_is_skipped() {
    let f = feed(None, &[Some(60)]);
    let plan = plan_poll(Some(50), &f);
    assert_eq!(plan, PollPlan::MissingUpdated);
    assert_eq!(next_mark(Some(50), &plan), Some(50));
    assert_eq!(next_mark(None, &plan), None);
}

#[test]
fn failed_feed_does_not_stop_the_sweep() {
    let mut marks = vec![Some(10), Some(10), None];
    let fetched = vec![None, Some(feed(Some(30), &[Some(5), Some(30)])), Some(feed(Some(7), &[Some(7)]))];
    let plans = sweep(&mut marks, &fetched);
    assert_eq!(plans, vec![PollPlan::FetchFailed, PollPlan::Emit(30, vec![1]), PollPlan::Baseline(7)]);
    assert_eq!(marks, vec![Some(10), Some(30), Some(7)]);
}

#[test]
fn watermark_round_trip() {
    let mut marks = vec![None];
    for t in [5, 5, 9, 12] {
        let fetched = vec![Some(feed(Some(t), &[Some(t)]))];
        sweep(&mut marks, &fetched);
        assert_eq!(marks[0], Some(t));
    }
}
