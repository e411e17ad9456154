use vstd::prelude::*;

verus! {

/// One entry of a fetched feed. Times are epoch milliseconds.
#[derive(Debug, Clone, PartialEq, Eq)]
pub struct FeedEntry {
    pub id: String,
    pub title: Option<String>,
    pub authors: Vec<String>,
    pub body: Option<String>,
    pub link: Option<String>,
    pub updated: Option<i64>,
}

/// A fetched and parsed feed: its id, title, its own "updated" time (epoch
/// milliseconds), and its entries in the feed's order.
#[derive(Debug, Clone, PartialEq, Eq)]
pub struct FeedSnapshot {
    pub id: String,
    pub title: Option<String>,
    pub updated: Option<i64>,
    pub entries: Vec<FeedEntry>,
}

/// What one poll of one feed does.
#[derive(Debug, Clone, PartialEq, Eq)]
pub enum PollPlan {
    /// The feed could not be fetched or parsed: nothing is written or posted.
    FetchFailed,
    /// The feed has no "updated" time: nothing is written or posted.
    MissingUpdated,
    /// First poll of the feed: the watermark is set to this time, nothing posted.
    Baseline(i64),
    /// The feed has not changed since the last poll: the watermark is written
    /// again with this time, nothing posted.
    Unchanged(i64),
    /// The watermark is set to this time and the entries at these positions,
    /// in this order, are posted.
    Emit(i64, Vec<usize>),
}

/// The mathematical value of a `PollPlan`.
pub enum PlanView {
    FetchFailed,
    MissingUpdated,
    Baseline(i64),
    Unchanged(i64),
    Emit(i64, Seq<usize>),
}

impl View for PollPlan {
    type V = PlanView;

    open spec fn view(&self) -> PlanView {
        match self {
            PollPlan::FetchFailed => PlanView::FetchFailed,
            PollPlan::MissingUpdated => PlanView::MissingUpdated,
            PollPlan::Baseline(m) => PlanView::Baseline(*m),
            PollPlan::Unchanged(m) => PlanView::Unchanged(*m),
            PollPlan::Emit(m, ps) => PlanView::Emit(*m, ps@),
        }
    }
}

/// The "updated" times of `entries`, in order.
pub open spec fn times_of(entries: Seq<FeedEntry>) -> Seq<Option<i64>> {
    entries.map_values(|e: FeedEntry| e.updated)
}

/// The positions, in order, of the entries updated strictly after `mark`; an
/// entry without a time is never new.
pub open spec fn new_positions(times: Seq<Option<i64>>, mark: i64) -> Seq<usize>
    decreases times.len(),
{
    if times.len() == 0 {
        Seq::empty()
    } else {
        let rest = new_positions(times.drop_last(), mark);
        match times.last() {
            Some(t) => if t > mark {
                rest.push((times.len() - 1) as usize)
            } else {
                rest
            },
            None => rest,
        }
    }
}

/// The plan for a feed whose watermark was `previous` (none on first
/// encounter), that reports `updated`, with entries updated at `times`.
pub open spec fn plan_of(previous: Option<i64>, updated: Option<i64>, times: Seq<Option<i64>>) -> PlanView {
    match updated {
        None => PlanView::MissingUpdated,
        Some(u) => match previous {
            None => PlanView::Baseline(u),
            Some(p) => if p == u {
                PlanView::Unchanged(u)
            } else {
                PlanView::Emit(u, new_positions(times, p))
            },
        },
    }
}

/// The plan for one feed of a sweep, whose fetch gave `fetched`.
pub open spec fn plan_for(previous: Option<i64>, fetched: Option<FeedSnapshot>) -> PlanView {
    match fetched {
        None => PlanView::FetchFailed,
        Some(f) => plan_of(previous, f.updated, times_of(f.entries@)),
    }
}

/// The watermark after `plan` was carried out on a feed whose watermark was
/// `previous`: the feed's own time whenever it has one, written even when
/// nothing is new.
pub open spec fn mark_after(previous: Option<i64>, plan: PlanView) -> Option<i64> {
    match plan {
        PlanView::FetchFailed => previous,
        PlanView::MissingUpdated => previous,
        PlanView::Baseline(m) => Some(m),
        PlanView::Unchanged(m) => Some(m),
        PlanView::Emit(m, _) => Some(m),
    }
}

/// The positions of the entries updated strictly after `mark`.
pub fn new_entries(entries: &Vec<FeedEntry>, mark: i64) -> (r: Vec<usize>)
    ensures
        r@ == new_positions(times_of(entries@), mark),
{
    let mut r: Vec<usize> = Vec::new();
    let mut i: usize = 0;
    while i < entries.len()
        invariant
            i <= entries@.len(),
            r@ == new_positions(times_of(entries@).subrange(0, i as int), mark),
        decreases entries@.len() - i,
    {
        let ghost ts = times_of(entries@);
        assert(ts.subrange(0, i as int + 1).drop_last() =~= ts.subrange(0, i as int));
        match entries[i].updated {
            Some(t) => {
                if t > mark {
                    r.push(i);
                }
            },
            None => {},
        }
        i = i + 1;
    }
    assert(times_of(entries@).subrange(0, i as int) =~= times_of(entries@));
    r
}

/// Plans one poll of `feed`, whose stored watermark is `previous` (none when
/// the feed was never polled).
pub fn plan_poll(previous: Option<i64>, feed: &FeedSnapshot) -> (r: PollPlan)
    ensures
        r@ == plan_of(previous, feed.updated, times_of(feed.entries@)),
{
    match feed.updated {
        None => PollPlan::MissingUpdated,
        Some(u) => match previous {
            None => PollPlan::Baseline(u),
            Some(p) => {
                if p == u {
                    PollPlan::Unchanged(u)
                } else {
                    PollPlan::Emit(u, new_entries(&feed.entries, p))
                }
            },
        },
    }
}

/// The watermark to store after `plan`, where `previous` was stored before.
pub fn next_mark(previous: Option<i64>, plan: &PollPlan) -> (r: Option<i64>)
    ensures
        r == mark_after(previous, plan@),
{
    match plan {
        PollPlan::FetchFailed => previous,
        PollPlan::MissingUpdated => previous,
        PollPlan::Baseline(m) => Some(*m),
        PollPlan::Unchanged(m) => Some(*m),
        PollPlan::Emit(m, _) => Some(*m),
    }
}

/// One sweep over all configured feeds: `marks[i]` is the watermark of feed
/// `i` and `fetched[i]` its fetch, none where that failed. Each feed is planned
/// on its own, and its watermark is advanced as its plan says.
pub fn sweep(marks: &mut Vec<Option<i64>>, fetched: &Vec<Option<FeedSnapshot>>) -> (r: Vec<PollPlan>)
    requires
        old(marks)@.len() == fetched@.len(),
    ensures
        r@.len() == fetched@.len(),
        final(marks)@.len() == fetched@.len(),
        forall|i: int| 0 <= i < fetched@.len() ==> #[trigger] r@[i]@ == plan_for(old(marks)@[i], fetched@[i]),
        forall|i: int| 0 <= i < fetched@.len() ==> #[trigger] final(marks)@[i] == mark_after(
            old(marks)@[i],
            r@[i]@,
        ),
{
    let ghost before = marks@;
    let mut r: Vec<PollPlan> = Vec::new();
    let mut i: usize = 0;
    while i < fetched.len()
        invariant
            i <= fetched@.len(),
            marks@.len() == fetched@.len(),
            before.len() == fetched@.len(),
            r@.len() == i,
            forall|j: int| 0 <= j < i ==> #[trigger] r@[j]@ == plan_for(before[j], fetched@[j]),
            forall|j: int| 0 <= j < i ==> #[trigger] marks@[j] == mark_after(before[j], r@[j]@),
            forall|j: int| i <= j < fetched@.len() ==> #[trigger] marks@[j] == before[j],
        decreases fetched@.len() - i,
    {
        let previous = marks[i];
        let plan = match &fetched[i] {
            None => PollPlan::FetchFailed,
            Some(feed) => plan_poll(previous, feed),
        };
        let mark = next_mark(previous, &plan);
        marks.set(i, mark);
        r.push(plan);
        i = i + 1;
    }
    r
}

/// The plans of a whole sweep, feed by feed.
pub open spec fn sweep_plans(marks: Seq<Option<i64>>, fetched: Seq<Option<FeedSnapshot>>) -> Seq<PlanView> {
    Seq::new(fetched.len(), |i: int| plan_for(marks[i], fetched[i]))
}

/// A feed is planned on its own: whatever the other feeds of a sweep gave (a
/// failed fetch among them), a healthy feed's plan, and so the entries posted
/// for it, are those of its own watermark and snapshot; a failed feed posts
/// nothing and keeps its watermark.
pub proof fn lemma_feed_isolation(
    marks: Seq<Option<i64>>,
    fetched: Seq<Option<FeedSnapshot>>,
    other: Seq<Option<FeedSnapshot>>,
    b: int,
)
    requires
        marks.len() == fetched.len(),
        other.len() == fetched.len(),
        0 <= b < fetched.len(),
        other[b] == fetched[b],
    ensures
        sweep_plans(marks, fetched)[b] == sweep_plans(marks, other)[b],
        fetched[b] is Some ==> sweep_plans(marks, fetched)[b] == plan_of(
            marks[b],
            fetched[b]->0.updated,
            times_of(fetched[b]->0.entries@),
        ),
        forall|a: int| 0 <= a < fetched.len() && fetched[a] is None ==> {
            &&& #[trigger] sweep_plans(marks, fetched)[a] == PlanView::FetchFailed
            &&& mark_after(marks[a], sweep_plans(marks, fetched)[a]) == marks[a]
        },
{
}

/// The first poll of a feed that reports a time sets the watermark to that
/// time and posts nothing, however many entries it holds.
pub proof fn lemma_first_poll_silent(updated: i64, times: Seq<Option<i64>>)
    ensures
        plan_of(None, Some(updated), times) == PlanView::Baseline(updated),
        mark_after(None, plan_of(None, Some(updated), times)) == Some(updated),
{
}

/// The watermarks left by a series of polls of one feed that report the times
/// `updates`, starting from `mark`.
pub open spec fn marks_after(mark: Option<i64>, updates: Seq<i64>, times: Seq<Option<i64>>) -> Seq<Option<i64>>
    decreases updates.len(),
{
    if updates.len() == 0 {
        Seq::empty()
    } else {
        let next = mark_after(mark, plan_of(mark, Some(updates[0]), times));
        seq![next] + marks_after(next, updates.drop_first(), times)
    }
}

/// The watermark written by each poll is the one read back by the next: after
/// poll `k` it is the time that poll reported, and when the reported times do
/// not decrease, neither do the watermarks.
pub proof fn lemma_round_trip(mark: Option<i64>, updates: Seq<i64>, times: Seq<Option<i64>>)
    ensures
        marks_after(mark, updates, times).len() == updates.len(),
        forall|k: int| 0 <= k < updates.len() ==> #[trigger] marks_after(mark, updates, times)[k] == Some(
            updates[k],
        ),
        (forall|k: int| 0 <= k < updates.len() - 1 ==> #[trigger] updates[k] <= updates[k + 1])
            ==> forall|k: int|
            #![trigger marks_after(mark, updates, times)[k]]
            0 <= k < updates.len() - 1 ==> marks_after(mark, updates, times)[k]->0 <= marks_after(
                mark,
                updates,
                times,
            )[k + 1]->0,
    decreases updates.len(),
{
    if updates.len() > 0 {
        let next = mark_after(mark, plan_of(mark, Some(updates[0]), times));
        lemma_round_trip(next, updates.drop_first(), times);
        let ms = marks_after(mark, updates, times);
        let rest = marks_after(next, updates.drop_first(), times);
        assert(ms.drop_first() =~= rest);
        assert forall|k: int| 0 <= k < updates.len() implies #[trigger] ms[k] == Some(updates[k]) by {
            if k > 0 {
                assert(ms[k] == rest[k - 1]);
                assert(updates.drop_first()[k - 1] == updates[k]);
            }
        }
    }
}

} // verus!
