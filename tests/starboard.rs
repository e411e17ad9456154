use starboard_bot::starboard::{
    max_count, top_reaction, Admission, Decision, Emoji, Reaction, ReactionEvent, Synchronizer,
};

fn unicode(name: &str, count: u64) -> Reaction {
    Reaction { emoji: Emoji::Unicode { name: name.to_string() }, count }
}

fn event(message_id: u64, guild_id: Option<u64>) -> ReactionEvent {
    ReactionEvent { message_id, channel_id: 10, guild_id }
}

#[test]
fn max_count_is_largest_not_sum() {
    let rs = vec![unicode("a", 2), unicode("b", 5), unicode("c", 3)];
    assert_eq!(max_count(&rs), 5);
    assert_eq!(max_count(&Vec::new()), 0);
}

#[test]
fn top_reaction_takes_first_maximum() {
    let rs = vec![unicode("a", 2), unicode("b", 5), unicode("c", 5)];
    assert_eq!(top_reaction(&rs), 1);
    assert_eq!(top_reaction(&vec![unicode("a", 0)]), 0);
}

#[test]
fn threshold_boundary() {
    let sync = Synchronizer::new(3, None);
    let e = event(1, Some(7));
    assert_eq!(sync.decide(&e, &vec![unicode("a", 2), unicode("b", 1)]), Decision::BelowThreshold);
    assert_eq!(sync.decide(&e, &vec![unicode("a", 3), unicode("b", 1)]), Decision::Create);
}

#[test]
fn repeated_events_still_update() {
    let mut sync = Synchronizer::new(3, None);
    let e = event(1, None);
    assert_eq!(sync.record(1, 99), None);
    for _ in 0..3 {
        assert_eq!(sync.decide(&e, &vec![unicode("a", 4)]), Decision::Update(99));
    }
    // below the threshold again: still an update
    assert_eq!(sync.decide(&e, &vec![unicode("a", 1)]), Decision::Update(99));
}

#[test]
fn guild_scope_filters_events() {
    let mut sync = Synchronizer::new(1, Some(7));
    assert_eq!(sync.begin(&event(1, Some(8))), Admission::Ignored);
    assert_eq!(sync.begin(&event(1, None)), Admission::Ignored);
    assert_eq!(sync.decide(&event(1, Some(8)), &vec![unicode("a", 9)]), Decision::Ignored);
    assert_eq!(sync.begin(&event(1, Some(7))), Admission::Entered);
}

#[test]
fn one_key_is_held_by_one_unit() {
    let mut sync = Synchronizer::new(1, None);
    assert_eq!(sync.begin(&event(1, None)), Admission::Entered);
    assert_eq!(sync.begin(&event(1, None)), Admission::Busy);
    assert_eq!(sync.begin(&event(2, None)), Admission::Entered);
    sync.finish(1);
    assert_eq!(sync.begin(&event(1, None)), Admission::Entered);
}

#[test]
fn record_never_reassigns() {
    let mut sync = Synchronizer::new(1, None);
    assert_eq!(sync.lookup(5), None);
    assert_eq!(sync.record(5, 100), None);
    assert_eq!(sync.record(5, 200), Some(100));
    assert_eq!(sync.lookup(5), Some(100));
}

#[test]
fn concurrent_events_create_one_post() {
    // Five events on one message, each seeing the threshold reached; units of
    // work are serialized by the key, so one creates and four update.
    let mut sync = Synchronizer::new(3, None);
    let e = event(42, None);
    let mut creates = 0;
    let mut updates = 0;
    let mut next_post = 1000;
    let mut pending = 5;
    while pending > 0 {
        // two units race for the key: only one enters
        assert_eq!(sync.begin(&e), Admission::Entered);
        assert_eq!(sync.begin(&e), Admission::Busy);
        match sync.decide(&e, &vec![unicode("a", 3 + pending)]) {
            Decision::Create => {
                creates += 1;
                assert_eq!(sync.record(42, next_post), None);
                next_post += 1;
            }
            Decision::Update(post) => {
                assert_eq!(post, 1000);
                updates += 1;
            }
            other => panic!("unexpected decision {:?}", other),
        }
        sync.finish(42);
        pending -= 1;
    }
    assert_eq!(creates, 1);
    assert_eq!(updates, 4);
}

#[test]
fn losing_create_falls_back_to_update() {
    // Two units that both decided to create: the second record finds the
    // winner's entry and gets its post id back.
    let mut sync = Synchronizer::new(1, None);
    let e = event(3, None);
    assert_eq!(sync.decide(&e, &vec![unicode("a", 1)]), Decision::Create);
    assert_eq!(sync.decide(&e, &vec![unicode("a", 1)]), Decision::Create);
    assert_eq!(sync.record(3, 11), None);
    assert_eq!(sync.record(3, 12), Some(11));
    assert_eq!(sync.decide(&e, &vec![unicode("a", 1)]), Decision::Update(11));
}
