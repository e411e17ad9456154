use vstd::prelude::*;
use std::collections::HashMap;
use std::collections::HashSet;

verus! {

broadcast use vstd::std_specs::hash::group_hash_axioms;

/// The emoji of a reaction.
#[derive(Debug, Clone, PartialEq, Eq)]
pub enum Emoji {
    /// A standard emoji, by its text.
    Unicode { name: String },
    /// A server's own emoji, by its id and, where known, its name.
    Custom { id: u64, name: Option<String> },
}

/// One emoji on a message and how many members reacted with it.
#[derive(Debug, Clone, PartialEq, Eq)]
pub struct Reaction {
    pub emoji: Emoji,
    pub count: u64,
}

/// A reaction-added notification: which message was reacted to, and where.
#[derive(Debug, Clone, Copy, PartialEq, Eq, Structural)]
pub struct ReactionEvent {
    pub message_id: u64,
    pub channel_id: u64,
    pub guild_id: Option<u64>,
}

/// What the synchronizer does for one event, once it holds the message's key.
#[derive(Debug, Clone, Copy, PartialEq, Eq, Structural)]
pub enum Decision {
    /// The event comes from a guild that is not tracked.
    Ignored,
    /// An aggregate post exists: update the post with this id.
    Update(u64),
    /// No aggregate post exists and the count is under the threshold.
    BelowThreshold,
    /// No aggregate post exists and the threshold is reached: create one.
    Create,
}

/// Whether `key` may be entered, as `Synchronizer::begin` answers.
#[derive(Debug, Clone, Copy, PartialEq, Eq, Structural)]
pub enum Admission {
    /// The event comes from a guild that is not tracked.
    Ignored,
    /// Another unit of work holds the message's key: try again later.
    Busy,
    /// The caller now holds the message's key, until it calls `finish`.
    Entered,
}

/// The counts of a reaction snapshot, in order.
pub open spec fn counts_of(rs: Seq<Reaction>) -> Seq<u64> {
    rs.map_values(|r: Reaction| r.count)
}

/// The largest count of a snapshot (not the sum), zero when it is empty.
pub open spec fn max_of(counts: Seq<u64>) -> u64
    decreases counts.len(),
{
    if counts.len() == 0 {
        0
    } else {
        let rest = max_of(counts.drop_last());
        if counts.last() > rest {
            counts.last()
        } else {
            rest
        }
    }
}

/// `max_of` bounds every count, and is one of them when there is one.
pub proof fn lemma_max_of(counts: Seq<u64>)
    ensures
        forall|j: int| 0 <= j < counts.len() ==> counts[j] <= max_of(counts),
        counts.len() > 0 ==> exists|j: int| 0 <= j < counts.len() && counts[j] == max_of(counts),
    decreases counts.len(),
{
    if counts.len() > 0 {
        let rest = counts.drop_last();
        lemma_max_of(rest);
        assert forall|j: int| 0 <= j < counts.len() implies counts[j] <= max_of(counts) by {
            if j < counts.len() - 1 {
                assert(counts[j] == rest[j]);
            }
        }
        if counts.last() <= max_of(rest) && rest.len() > 0 {
            let j = choose|j: int| 0 <= j < rest.len() && rest[j] == max_of(rest);
            assert(counts[j] == rest[j]);
        }
    }
}

/// Whether an event from `guild` is handled when only `scope` is tracked.
pub open spec fn in_scope(scope: Option<u64>, guild: Option<u64>) -> bool {
    match scope {
        None => true,
        Some(g) => guild == Some(g),
    }
}

/// Whether an event from `guild` is handled when only `scope` is tracked.
pub fn guild_is_followed(scope: Option<u64>, guild: Option<u64>) -> (r: bool)
    ensures
        r == in_scope(scope, guild),
{
    match scope {
        None => true,
        Some(g) => match guild {
            Some(h) => g == h,
            None => false,
        },
    }
}

/// The ledger's entry for `key`, if any.
pub open spec fn entry_of(ledger: Map<u64, u64>, key: u64) -> Option<u64> {
    if ledger.contains_key(key) {
        Some(ledger[key])
    } else {
        None
    }
}

/// The decision for a tracked message, from its ledger entry and its current
/// largest count: an existing entry is always updated, whatever the count.
pub open spec fn decision_of(entry: Option<u64>, max_count: u64, threshold: u64) -> Decision {
    match entry {
        Some(post) => Decision::Update(post),
        None => if max_count < threshold {
            Decision::BelowThreshold
        } else {
            Decision::Create
        },
    }
}

/// The largest count among `reactions`, zero when there are none.
pub fn max_count(reactions: &Vec<Reaction>) -> (r: u64)
    ensures
        r == max_of(counts_of(reactions@)),
{
    let mut best: u64 = 0;
    let mut i: usize = 0;
    while i < reactions.len()
        invariant
            i <= reactions@.len(),
            best == max_of(counts_of(reactions@).subrange(0, i as int)),
        decreases reactions@.len() - i,
    {
        let ghost cs = counts_of(reactions@);
        assert(cs.subrange(0, i as int + 1).drop_last() =~= cs.subrange(0, i as int));
        if reactions[i].count > best {
            best = reactions[i].count;
        }
        i = i + 1;
    }
    assert(counts_of(reactions@).subrange(0, i as int) =~= counts_of(reactions@));
    best
}

/// Whether `i` is the first position of the largest count.
pub open spec fn is_first_max(counts: Seq<u64>, i: int) -> bool {
    &&& 0 <= i < counts.len()
    &&& counts[i] == max_of(counts)
    &&& forall|j: int| 0 <= j < i ==> counts[j] < counts[i]
}

/// The first position of the largest count: the reaction an aggregate post shows.
pub open spec fn first_max(counts: Seq<u64>) -> int {
    choose|i: int| is_first_max(counts, i)
}

/// Only one position is the first of the largest count.
pub proof fn lemma_first_max_unique(counts: Seq<u64>, i: int)
    requires
        is_first_max(counts, i),
    ensures
        first_max(counts) == i,
{
    let k = first_max(counts);
    assert(is_first_max(counts, k));
    if k < i {
        assert(counts[k] < counts[i]);
    } else if i < k {
        assert(counts[i] < counts[k]);
    }
}

/// The position of the first reaction whose count is the largest: the one that
/// an aggregate post shows.
pub fn top_reaction(reactions: &Vec<Reaction>) -> (r: usize)
    requires
        reactions@.len() > 0,
    ensures
        r < reactions@.len(),
        reactions@[r as int].count == max_of(counts_of(reactions@)),
        forall|j: int| 0 <= j < r ==> reactions@[j].count < reactions@[r as int].count,
        r == first_max(counts_of(reactions@)),
{
    let mut best: usize = 0;
    let mut i: usize = 1;
    proof {
        let cs = counts_of(reactions@);
        assert(cs.subrange(0, 1).drop_last() =~= Seq::<u64>::empty());
        assert(cs.subrange(0, 1).last() == reactions@[0].count);
        assert(max_of(Seq::<u64>::empty()) == 0);
        assert(max_of(cs.subrange(0, 1)) == reactions@[0].count);
    }
    while i < reactions.len()
        invariant
            1 <= i <= reactions@.len(),
            best < i,
            reactions@[best as int].count == max_of(counts_of(reactions@).subrange(0, i as int)),
            forall|j: int| 0 <= j < best ==> reactions@[j].count < reactions@[best as int].count,
        decreases reactions@.len() - i,
    {
        let ghost cs = counts_of(reactions@);
        assert(cs.subrange(0, i as int + 1).drop_last() =~= cs.subrange(0, i as int));
        proof {
            lemma_max_of(cs.subrange(0, i as int));
        }
        if reactions[i].count > reactions[best].count {
            proof {
                assert forall|j: int| 0 <= j < i implies reactions@[j].count < reactions@[i as int].count by {
                    assert(cs.subrange(0, i as int)[j] == reactions@[j].count);
                }
            }
            best = i;
        }
        i = i + 1;
    }
    assert(counts_of(reactions@).subrange(0, i as int) =~= counts_of(reactions@));
    proof {
        let cs = counts_of(reactions@);
        assert forall|j: int| 0 <= j < best implies cs[j] < cs[best as int] by {
            assert(reactions@[j].count < reactions@[best as int].count);
        }
        lemma_first_max_unique(cs, best as int);
    }
    best
}

/// What a synchronizer holds: its configuration, the ledger of aggregate posts
/// (source message id to aggregate post id), and the keys of the messages that a
/// unit of work is handling right now.
pub struct SyncState {
    pub threshold: u64,
    pub scope: Option<u64>,
    pub ledger: Map<u64, u64>,
    pub busy: Set<u64>,
}

/// The starboard synchronizer: decides, for each reaction event, whether to
/// create an aggregate post, update the existing one, or do nothing. Units of
/// work for one message are serialized by `begin` and `finish`, and the ledger
/// only ever gains entries through the insert-if-absent `record`.
pub struct Synchronizer {
    threshold: u64,
    scope: Option<u64>,
    ledger: HashMap<u64, u64>,
    busy: HashSet<u64>,
}

impl View for Synchronizer {
    type V = SyncState;

    closed spec fn view(&self) -> SyncState {
        SyncState {
            threshold: self.threshold,
            scope: self.scope,
            ledger: self.ledger@,
            busy: self.busy@,
        }
    }
}

impl Synchronizer {
    /// A synchronizer with an empty ledger that creates a post once a message
    /// has `threshold` reactions of one emoji, and that only tracks the guild
    /// `scope` when one is given.
    pub fn new(threshold: u32, scope: Option<u64>) -> (r: Synchronizer)
        ensures
            r@.threshold == threshold as u64,
            r@.scope == scope,
            r@.ledger == Map::<u64, u64>::empty(),
            r@.busy == Set::<u64>::empty(),
    {
        Synchronizer {
            threshold: threshold as u64,
            scope,
            ledger: HashMap::new(),
            busy: HashSet::new(),
        }
    }

    /// The aggregate post recorded for `message_id`, if any.
    pub fn lookup(&self, message_id: u64) -> (r: Option<u64>)
        ensures
            r == entry_of(self@.ledger, message_id),
    {
        match self.ledger.get(&message_id) {
            Some(post) => Some(*post),
            None => None,
        }
    }

    /// Admits a unit of work for `event`. Out of scope, it is ignored. While
    /// another unit holds the message's key the answer is `Busy`; otherwise the
    /// caller now holds the key.
    pub fn begin(&mut self, event: &ReactionEvent) -> (r: Admission)
        ensures
            final(self)@.threshold == old(self)@.threshold,
            final(self)@.scope == old(self)@.scope,
            final(self)@.ledger == old(self)@.ledger,
            !in_scope(old(self)@.scope, event.guild_id) ==> r == Admission::Ignored
                && final(self)@.busy == old(self)@.busy,
            in_scope(old(self)@.scope, event.guild_id) && old(self)@.busy.contains(event.message_id)
                ==> r == Admission::Busy && final(self)@.busy == old(self)@.busy,
            in_scope(old(self)@.scope, event.guild_id) && !old(self)@.busy.contains(
                event.message_id,
            ) ==> r == Admission::Entered && final(self)@.busy == old(self)@.busy.insert(
                event.message_id,
            ),
    {
        let followed = guild_is_followed(self.scope, event.guild_id);
        if !followed {
            return Admission::Ignored;
        }
        if self.busy.contains(&event.message_id) {
            Admission::Busy
        } else {
            self.busy.insert(event.message_id);
            Admission::Entered
        }
    }

    /// Decides what to do for `event`, from the ledger and the message's current
    /// reactions (fetched after the key was entered, not taken from the event).
    pub fn decide(&self, event: &ReactionEvent, reactions: &Vec<Reaction>) -> (r: Decision)
        ensures
            !in_scope(self@.scope, event.guild_id) ==> r == Decision::Ignored,
            in_scope(self@.scope, event.guild_id) ==> r == decision_of(
                entry_of(self@.ledger, event.message_id),
                max_of(counts_of(reactions@)),
                self@.threshold,
            ),
    {
        let followed = guild_is_followed(self.scope, event.guild_id);
        if !followed {
            return Decision::Ignored;
        }
        match self.lookup(event.message_id) {
            Some(post) => Decision::Update(post),
            None => {
                if max_count(reactions) < self.threshold {
                    Decision::BelowThreshold
                } else {
                    Decision::Create
                }
            },
        }
    }

    /// Records that `post_id` is the aggregate post of `message_id`, unless an
    /// entry exists already: then the ledger is unchanged and the entry that is
    /// there is returned, and the caller updates that post instead.
    pub fn record(&mut self, message_id: u64, post_id: u64) -> (r: Option<u64>)
        ensures
            final(self)@.threshold == old(self)@.threshold,
            final(self)@.scope == old(self)@.scope,
            final(self)@.busy == old(self)@.busy,
            r == entry_of(old(self)@.ledger, message_id),
            final(self)@.ledger == record_of(old(self)@.ledger, message_id, post_id),
    {
        match self.ledger.get(&message_id) {
            Some(existing) => Some(*existing),
            None => {
                self.ledger.insert(message_id, post_id);
                None
            },
        }
    }

    /// Releases the key of `message_id` at the end of its unit of work.
    pub fn finish(&mut self, message_id: u64)
        ensures
            final(self)@.threshold == old(self)@.threshold,
            final(self)@.scope == old(self)@.scope,
            final(self)@.ledger == old(self)@.ledger,
            final(self)@.busy == old(self)@.busy.remove(message_id),
    {
        self.busy.remove(&message_id);
    }
}

/// The ledger after an insert-if-absent of `post` for `key`: an entry, once
/// there, is never reassigned.
pub open spec fn record_of(ledger: Map<u64, u64>, key: u64, post: u64) -> Map<u64, u64> {
    if ledger.contains_key(key) {
        ledger
    } else {
        ledger.insert(key, post)
    }
}

/// The decisions for a series of events on message `key`, handled one after
/// the other, each with the largest count `counts[i]` seen when it was handled;
/// a create gets the aggregate post id `posts[i]` from the outbound channel,
/// which is then recorded.
pub open spec fn run(ledger: Map<u64, u64>, key: u64, threshold: u64, counts: Seq<u64>, posts: Seq<u64>) -> Seq<Decision>
    decreases counts.len(),
{
    if counts.len() == 0 || posts.len() == 0 {
        Seq::empty()
    } else {
        let d = decision_of(entry_of(ledger, key), counts[0], threshold);
        let next = if d == Decision::Create {
            record_of(ledger, key, posts[0])
        } else {
            ledger
        };
        seq![d] + run(next, key, threshold, counts.drop_first(), posts.drop_first())
    }
}

/// How many of `ds` are creates.
pub open spec fn creates(ds: Seq<Decision>) -> nat
    decreases ds.len(),
{
    if ds.len() == 0 {
        0
    } else {
        (if ds[0] == Decision::Create { 1nat } else { 0nat }) + creates(ds.drop_first())
    }
}

/// Once the ledger holds an entry for `key`, every later event on it updates
/// that same post, whatever its count.
pub proof fn lemma_entry_means_update(ledger: Map<u64, u64>, key: u64, threshold: u64, counts: Seq<u64>, posts: Seq<u64>)
    requires
        ledger.contains_key(key),
        counts.len() == posts.len(),
    ensures
        run(ledger, key, threshold, counts, posts).len() == counts.len(),
        forall|i: int| 0 <= i < counts.len() ==> #[trigger] run(ledger, key, threshold, counts, posts)[i]
            == Decision::Update(ledger[key]),
        creates(run(ledger, key, threshold, counts, posts)) == 0,
    decreases counts.len(),
{
    if counts.len() > 0 {
        let rest = run(ledger, key, threshold, counts.drop_first(), posts.drop_first());
        lemma_entry_means_update(ledger, key, threshold, counts.drop_first(), posts.drop_first());
        let ds = run(ledger, key, threshold, counts, posts);
        assert(ds == seq![Decision::Update(ledger[key])] + rest);
        assert(ds.drop_first() =~= rest);
        assert forall|i: int| 0 <= i < counts.len() implies #[trigger] ds[i] == Decision::Update(ledger[key]) by {
            if i > 0 {
                assert(ds[i] == rest[i - 1]);
            }
        }
    }
}

/// Events on one source message, handled one at a time (as `begin` and `finish`
/// ensure), create at most one aggregate post; every event after the create
/// updates it. When each of them sees the threshold reached and no post existed
/// before, exactly one creates and all the others update the created post.
pub proof fn lemma_at_most_one_create(ledger: Map<u64, u64>, key: u64, threshold: u64, counts: Seq<u64>, posts: Seq<u64>)
    requires
        counts.len() == posts.len(),
    ensures
        run(ledger, key, threshold, counts, posts).len() == counts.len(),
        creates(run(ledger, key, threshold, counts, posts)) <= 1,
        !ledger.contains_key(key) && counts.len() > 0 && (forall|i: int| 0 <= i < counts.len() ==> counts[i] >= threshold)
            ==> {
            &&& run(ledger, key, threshold, counts, posts)[0] == Decision::Create
            &&& creates(run(ledger, key, threshold, counts, posts)) == 1
            &&& forall|i: int| 1 <= i < counts.len() ==> #[trigger] run(ledger, key, threshold, counts, posts)[i]
                == Decision::Update(posts[0])
        },
    decreases counts.len(),
{
    if counts.len() > 0 {
        let ds = run(ledger, key, threshold, counts, posts);
        let d = decision_of(entry_of(ledger, key), counts[0], threshold);
        if d == Decision::Create {
            let next = record_of(ledger, key, posts[0]);
            lemma_entry_means_update(next, key, threshold, counts.drop_first(), posts.drop_first());
            let rest = run(next, key, threshold, counts.drop_first(), posts.drop_first());
            assert(ds.drop_first() =~= rest);
            assert forall|i: int| 1 <= i < counts.len() implies #[trigger] ds[i] == Decision::Update(posts[0]) by {
                assert(ds[i] == rest[i - 1]);
            }
        } else {
            lemma_at_most_one_create(ledger, key, threshold, counts.drop_first(), posts.drop_first());
            let rest = run(ledger, key, threshold, counts.drop_first(), posts.drop_first());
            assert(ds.drop_first() =~= rest);
            if ledger.contains_key(key) {
                lemma_entry_means_update(ledger, key, threshold, counts.drop_first(), posts.drop_first());
            }
        }
    }
}

/// With an entry in the ledger, an event whose count has not changed still
/// updates the post: the update path compares no state.
pub proof fn lemma_update_repeats(entry: u64, max_count: u64, threshold: u64)
    ensures
        decision_of(Some(entry), max_count, threshold) == Decision::Update(entry),
{
}

/// At the threshold a message's first aggregate post is created; one below it,
/// nothing is done.
pub proof fn lemma_threshold_boundary(max_count: u64, threshold: u64)
    ensures
        max_count >= threshold ==> decision_of(None, max_count, threshold) == Decision::Create,
        max_count < threshold ==> decision_of(None, max_count, threshold) == Decision::BelowThreshold,
{
}

} // verus!
