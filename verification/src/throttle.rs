//! The limit on upstream requests: a bounded queue in front of a sliding window.
//!
//! A caller joins the queue, asks for a slot until it gets one, and leaves the queue. Times are
//! nanoseconds of one clock that never runs backwards.
use std::collections::VecDeque;
use vstd::prelude::*;

use crate::error::{too_many_requests_view, ErrorView, GoogleError};

verus! {

pub const GOOGLE_CACHE_TTL_SECS: u64 = 300;

pub const GOOGLE_CACHE_TTL_MAX_SECS: u64 = 1200;

pub const GOOGLE_RATE_LIMIT: usize = 300;

pub const GOOGLE_RATE_WINDOW_SECS: u64 = 60;

pub const GOOGLE_MAX_QUEUED_REQUESTS: usize = 64;

/// The time that has passed since an earlier time; nothing where it lies ahead.
pub open spec fn elapsed(now: u128, since: u128) -> int {
    if now >= since {
        now - since
    } else {
        0
    }
}

/// The recent requests without those at the front that the window has left behind.
pub open spec fn slid(recent: Seq<u128>, window: u128, now: u128) -> Seq<u128>
    decreases recent.len(),
{
    if recent.len() > 0 && elapsed(now, recent[0]) >= window {
        slid(recent.skip(1), window, now)
    } else {
        recent
    }
}

/// Whether a request at `now` gets a slot.
pub open spec fn is_granted(recent: Seq<u128>, limit: nat, window: u128, now: u128) -> bool {
    slid(recent, window, now).len() < limit
}

/// The recent requests after a request at `now`.
pub open spec fn recent_after(recent: Seq<u128>, limit: nat, window: u128, now: u128) -> Seq<
    u128,
> {
    let left = slid(recent, window, now);
    if left.len() < limit {
        left.push(now)
    } else {
        left
    }
}

/// How much longer payloads are cached, by the number of queued requests.
pub open spec fn ttl_multiplier(queued: nat) -> nat {
    if queued >= 48 {
        4
    } else if queued >= 24 {
        3
    } else if queued >= 8 {
        2
    } else {
        1
    }
}

/// How long a payload is cached while `queued` requests are waiting.
pub open spec fn pressured_ttl(base: nat, max: nat, queued: nat) -> nat {
    let ttl = base * ttl_multiplier(queued);
    if ttl < max {
        ttl
    } else {
        max
    }
}

/// The message of a refusal by a full queue.
pub open spec fn queue_full() -> ErrorView {
    too_many_requests_view("Too many Google requests queued"@)
}

/// What a request for a slot comes to.
pub enum Acquire {
    /// The slot is granted.
    Granted,
    /// The request asks again after a time.
    Wait { nanos: u128 },
    /// The queue is full.
    Refused { error: GoogleError },
}

/// The limit on upstream requests.
pub struct GoogleThrottle {
    limit: usize,
    window_nanos: u128,
    max_queued: usize,
    cache_ttl: u64,
    cache_ttl_max: u64,
    queued: usize,
    recent: VecDeque<u128>,
}

impl GoogleThrottle {
    pub closed spec fn wf(self) -> bool {
        &&& self.queued <= self.max_queued
        &&& self.recent@.len() <= self.limit
    }

    /// How many requests a window may hold.
    pub closed spec fn limit(self) -> nat {
        self.limit as nat
    }

    pub closed spec fn window(self) -> u128 {
        self.window_nanos
    }

    /// How many requests the queue may hold.
    pub closed spec fn max_queued(self) -> nat {
        self.max_queued as nat
    }

    /// How long payloads are cached while the queue is short.
    pub closed spec fn cache_ttl(self) -> nat {
        self.cache_ttl as nat
    }

    /// How long payloads are cached at most.
    pub closed spec fn cache_ttl_max(self) -> nat {
        self.cache_ttl_max as nat
    }

    /// How many requests are in the queue.
    pub closed spec fn queued(self) -> nat {
        self.queued as nat
    }

    /// The requests that the window may still hold, in the order in which they came.
    pub closed spec fn recent(self) -> Seq<u128> {
        self.recent@
    }

    /// Whether two throttles differ at most in their queue and their recent requests.
    pub open spec fn same_settings(self, other: Self) -> bool {
        &&& self.limit() == other.limit()
        &&& self.window() == other.window()
        &&& self.max_queued() == other.max_queued()
        &&& self.cache_ttl() == other.cache_ttl()
        &&& self.cache_ttl_max() == other.cache_ttl_max()
    }

    /// What a request at `now` comes to while `queued` requests, itself among them, are in the
    /// queue.
    pub open spec fn stepped(self, after: Self, now: u128, step: Acquire, queued: nat) -> bool {
        &&& after.recent() == recent_after(self.recent(), self.limit(), self.window(), now)
        &&& if is_granted(self.recent(), self.limit(), self.window(), now) {
            &&& step is Granted
            &&& after.queued() == queued - 1
        } else {
            &&& step matches Acquire::Wait { nanos } && nanos == self.window() - elapsed(
                now,
                after.recent()[0],
            )
            &&& after.queued() == queued
        }
    }

    /// A throttle with an empty queue and the default times to live.
    pub fn new(limit: usize, window_nanos: u128, max_queued: usize) -> (throttle: Self)
        ensures
            throttle.wf(),
            throttle.limit() == limit,
            throttle.window() == window_nanos,
            throttle.max_queued() == max_queued,
            throttle.cache_ttl() == GOOGLE_CACHE_TTL_SECS,
            throttle.cache_ttl_max() == GOOGLE_CACHE_TTL_MAX_SECS,
            throttle.queued() == 0,
            throttle.recent() == Seq::<u128>::empty(),
    {
        GoogleThrottle {
            limit,
            window_nanos,
            max_queued,
            cache_ttl: GOOGLE_CACHE_TTL_SECS,
            cache_ttl_max: GOOGLE_CACHE_TTL_MAX_SECS,
            queued: 0,
            recent: VecDeque::new(),
        }
    }

    /// The same throttle with other times to live.
    pub fn with_cache_ttl(self, cache_ttl: u64, cache_ttl_max: u64) -> (throttle: Self)
        requires
            self.wf(),
        ensures
            throttle.wf(),
            throttle.limit() == self.limit(),
            throttle.window() == self.window(),
            throttle.max_queued() == self.max_queued(),
            throttle.cache_ttl() == cache_ttl,
            throttle.cache_ttl_max() == cache_ttl_max,
            throttle.queued() == self.queued(),
            throttle.recent() == self.recent(),
    {
        GoogleThrottle {
            limit: self.limit,
            window_nanos: self.window_nanos,
            max_queued: self.max_queued,
            cache_ttl,
            cache_ttl_max,
            queued: self.queued,
            recent: self.recent,
        }
    }

    /// Whether the window has room for any request at all.
    pub fn has_room(&self) -> (room: bool)
        ensures
            room == (self.limit() > 0),
    {
        self.limit > 0
    }

    /// Joins the queue; refused where the queue is full.
    pub fn enqueue(&mut self) -> (admitted: Result<(), GoogleError>)
        requires
            old(self).wf(),
        ensures
            final(self).wf(),
            final(self).same_settings(*old(self)),
            final(self).recent() == old(self).recent(),
            match admitted {
                Ok(()) => old(self).queued() < old(self).max_queued() && final(self).queued()
                    == old(self).queued() + 1,
                Err(error) => old(self).queued() == old(self).max_queued() && final(self).queued()
                    == old(self).queued() && error@ == queue_full(),
            },
    {
        if self.queued >= self.max_queued {
            Err(GoogleError::too_many_requests("Too many Google requests queued".to_owned()))
        } else {
            self.queued = self.queued + 1;
            Ok(())
        }
    }

    /// Asks for a slot at `now`: `None` where it is granted, else the time to wait before
    /// asking again.
    pub fn take_slot(&mut self, now: u128) -> (wait: Option<u128>)
        requires
            old(self).wf(),
            old(self).limit() > 0,
        ensures
            final(self).wf(),
            final(self).same_settings(*old(self)),
            final(self).queued() == old(self).queued(),
            final(self).recent() == recent_after(
                old(self).recent(),
                old(self).limit(),
                old(self).window(),
                now,
            ),
            match wait {
                None => is_granted(old(self).recent(), old(self).limit(), old(self).window(), now),
                Some(wait) => {
                    &&& !is_granted(
                        old(self).recent(),
                        old(self).limit(),
                        old(self).window(),
                        now,
                    )
                    &&& wait == old(self).window() - elapsed(now, final(self).recent()[0])
                },
            },
    {
        let window = self.window_nanos;
        while self.recent.len() > 0 && now.saturating_sub(self.recent[0]) >= window
            invariant
                window == self.window_nanos,
                self.wf(),
                self.same_settings(*old(self)),
                self.queued == old(self).queued,
                slid(old(self).recent@, window, now) == slid(self.recent@, window, now),
            decreases self.recent@.len(),
        {
            let ghost before = self.recent@;
            let _ = self.recent.pop_front();
            assert(self.recent@ == before.skip(1));
        }
        if self.recent.len() < self.limit {
            self.recent.push_back(now);
            None
        } else {
            Some(window - now.saturating_sub(self.recent[0]))
        }
    }

    /// Leaves the queue.
    pub fn leave(&mut self)
        requires
            old(self).wf(),
            old(self).queued() > 0,
        ensures
            final(self).wf(),
            final(self).same_settings(*old(self)),
            final(self).recent() == old(self).recent(),
            final(self).queued() == old(self).queued() - 1,
    {
        self.queued = self.queued - 1;
    }

    /// Joins the queue at `now` and asks for a slot. Who is granted one has left the queue, who
    /// has to wait stays in it.
    pub fn acquire(&mut self, now: u128) -> (step: Acquire)
        requires
            old(self).wf(),
            old(self).limit() > 0,
        ensures
            final(self).wf(),
            final(self).same_settings(*old(self)),
            old(self).queued() == old(self).max_queued() ==> {
                &&& step matches Acquire::Refused { error } && error@ == queue_full()
                &&& final(self).queued() == old(self).queued()
                &&& final(self).recent() == old(self).recent()
            },
            old(self).queued() < old(self).max_queued() ==> old(self).stepped(
                *final(self),
                now,
                step,
                old(self).queued() + 1,
            ),
    {
        match self.enqueue() {
            Err(error) => Acquire::Refused { error },
            Ok(()) => self.acquire_again(now),
        }
    }

    /// Asks for a slot once more at `now`, from a place in the queue.
    pub fn acquire_again(&mut self, now: u128) -> (step: Acquire)
        requires
            old(self).wf(),
            old(self).limit() > 0,
            old(self).queued() > 0,
        ensures
            final(self).wf(),
            final(self).same_settings(*old(self)),
            old(self).stepped(*final(self), now, step, old(self).queued()),
    {
        match self.take_slot(now) {
            None => {
                self.leave();
                Acquire::Granted
            },
            Some(nanos) => Acquire::Wait { nanos },
        }
    }

    /// How long a payload that is fetched now is cached.
    pub fn cache_ttl_secs(&self) -> (ttl: u64)
        ensures
            ttl == pressured_ttl(self.cache_ttl(), self.cache_ttl_max(), self.queued()),
    {
        let multiplier: u128 = if self.queued >= 48 {
            4
        } else if self.queued >= 24 {
            3
        } else if self.queued >= 8 {
            2
        } else {
            1
        };
        let ttl: u128 = self.cache_ttl as u128 * multiplier;
        if ttl < self.cache_ttl_max as u128 {
            ttl as u64
        } else {
            self.cache_ttl_max
        }
    }
}

/// The queue never holds more requests than it may, nor the window more than the limit.
pub proof fn the_queue_is_bounded(throttle: GoogleThrottle)
    requires
        throttle.wf(),
    ensures
        throttle.queued() <= throttle.max_queued(),
        throttle.recent().len() <= throttle.limit(),
{
}

/// The recent requests after a sequence of requests that starts with an empty window.
pub open spec fn recent_of(requests: Seq<u128>, limit: nat, window: u128) -> Seq<u128>
    decreases requests.len(),
{
    if requests.len() == 0 {
        Seq::empty()
    } else {
        recent_after(
            recent_of(requests.drop_last(), limit, window),
            limit,
            window,
            requests.last(),
        )
    }
}

/// The requests of a sequence that get a slot.
pub open spec fn grants_of(requests: Seq<u128>, limit: nat, window: u128) -> Seq<u128>
    decreases requests.len(),
{
    if requests.len() == 0 {
        Seq::empty()
    } else {
        let before = grants_of(requests.drop_last(), limit, window);
        if is_granted(
            recent_of(requests.drop_last(), limit, window),
            limit,
            window,
            requests.last(),
        ) {
            before.push(requests.last())
        } else {
            before
        }
    }
}

/// Whether times never run backwards.
pub open spec fn ascends(times: Seq<u128>) -> bool {
    forall|i: int, j: int| 0 <= i <= j < times.len() ==> times[i] <= times[j]
}

proof fn lemma_slid(recent: Seq<u128>, window: u128, now: u128)
    requires
        forall|i: int| 0 <= i < recent.len() ==> #[trigger] recent[i] <= now,
    ensures
        slid(recent, window, now).len() <= recent.len(),
        slid(recent, window, now) == recent.skip(recent.len() - slid(recent, window, now).len()),
        forall|i: int|
            0 <= i < recent.len() - slid(recent, window, now).len() ==> now - #[trigger] recent[i]
                >= window,
    decreases recent.len(),
{
    if recent.len() > 0 && elapsed(now, recent[0]) >= window {
        let rest = recent.skip(1);
        lemma_slid(rest, window, now);
        let left = slid(rest, window, now);
        assert(rest.skip(rest.len() - left.len()) == recent.skip(recent.len() - left.len()));
        assert forall|i: int| 0 <= i < recent.len() - left.len() implies now - #[trigger] recent[i]
            >= window by {
            if i > 0 {
                assert(rest[i - 1] == recent[i]);
            }
        }
    } else {
        assert(recent.skip(0) == recent);
    }
}

/// What a sequence of requests leaves behind: the recent requests end the granted ones, and
/// each granted request that is no longer recent is a window or more in the past.
proof fn lemma_window(requests: Seq<u128>, limit: nat, window: u128)
    requires
        ascends(requests),
    ensures
        ({
            let recent = recent_of(requests, limit, window);
            let grants = grants_of(requests, limit, window);
            &&& recent.len() <= limit
            &&& recent.len() <= grants.len()
            &&& recent == grants.skip(grants.len() - recent.len())
            &&& ascends(grants)
            &&& forall|i: int|
                0 <= i < grants.len() ==> requests.len() > 0 && #[trigger] grants[i]
                    <= requests.last()
            &&& forall|i: int|
                0 <= i < grants.len() - recent.len() ==> requests.last() - #[trigger] grants[i]
                    >= window
            &&& forall|i: int, j: int|
                0 <= i && i + limit <= j < grants.len() ==> #[trigger] grants[j]
                    - #[trigger] grants[i] >= window
        }),
    decreases requests.len(),
{
    if requests.len() > 0 {
        let earlier = requests.drop_last();
        let now = requests.last();
        lemma_window(earlier, limit, window);
        let recent = recent_of(earlier, limit, window);
        let grants = grants_of(earlier, limit, window);
        assert forall|i: int| 0 <= i < recent.len() implies #[trigger] recent[i] <= now by {
            assert(recent[i] == grants[grants.len() - recent.len() + i]);
        }
        lemma_slid(recent, window, now);
        let left = slid(recent, window, now);
        let kept = recent_of(requests, limit, window);
        let granted = grants_of(requests, limit, window);
        assert forall|i: int| 0 <= i < grants.len() - left.len() implies now - #[trigger] grants[i]
            >= window by {
            if i >= grants.len() - recent.len() {
                assert(grants[i] == recent[i - (grants.len() - recent.len())]);
            }
        }
        assert(left == grants.skip(grants.len() - left.len()));
        if left.len() < limit {
            assert(kept == granted.skip(granted.len() - kept.len()));
            assert forall|i: int, j: int| 0 <= i && i + limit <= j < granted.len() implies (
            #[trigger] granted[j]) - #[trigger] granted[i] >= window by {
                if j == grants.len() {
                    assert(granted[i] == grants[i]);
                }
            }
        }
    }
}

/// No window holds more than `limit` granted requests: of any `limit + 1` of them in a row, the
/// last comes a window or more after the first.
pub proof fn rate_is_limited(requests: Seq<u128>, limit: nat, window: u128, first: int)
    requires
        forall|i: int, j: int| 0 <= i <= j < requests.len() ==> requests[i] <= requests[j],
        0 <= first,
        first + limit < grants_of(requests, limit, window).len(),
    ensures
        grants_of(requests, limit, window)[first + limit as int] - grants_of(
            requests,
            limit,
            window,
        )[first] >= window,
{
    lemma_window(requests, limit, window);
}

/// Who waits as long as told is granted the slot, if nobody else asks in between.
pub proof fn waiting_is_rewarded(
    requests: Seq<u128>,
    limit: nat,
    window: u128,
    now: u128,
    later: u128,
)
    requires
        limit > 0,
        ascends(requests.push(now)),
        !is_granted(recent_of(requests, limit, window), limit, window, now),
        ({
            let left = recent_after(recent_of(requests, limit, window), limit, window, now);
            later >= now + (window - elapsed(now, left[0]))
        }),
    ensures
        is_granted(
            recent_after(recent_of(requests, limit, window), limit, window, now),
            limit,
            window,
            later,
        ),
{
    let asked = requests.push(now);
    assert(asked.drop_last() == requests);
    lemma_window(asked, limit, window);
    let left = recent_of(asked, limit, window);
    let grants = grants_of(asked, limit, window);
    assert(left[0] == grants[grants.len() - left.len()]);
    assert forall|i: int| 0 <= i < left.len() implies #[trigger] left[i] <= later by {
        assert(left[i] == grants[grants.len() - left.len() + i]);
        assert(left[i] <= now);
        lemma_elapsed_below_window(recent_of(requests, limit, window), window, now);
    }
    lemma_slid(left, window, later);
    lemma_slid(left.skip(1), window, later);
}

/// What stays after the window has slid is younger than the window.
proof fn lemma_elapsed_below_window(recent: Seq<u128>, window: u128, now: u128)
    ensures
        slid(recent, window, now).len() > 0 ==> elapsed(now, slid(recent, window, now)[0])
            < window,
    decreases recent.len(),
{
    if recent.len() > 0 && elapsed(now, recent[0]) >= window {
        lemma_elapsed_below_window(recent.skip(1), window, now);
    }
}

/// Payloads are cached for no longer than the maximum, and for no shorter time under more
/// pressure; an empty queue gives the base time.
pub proof fn ttl_grows_with_pressure(base: nat, max: nat, queued: nat, more: nat)
    requires
        queued <= more,
    ensures
        pressured_ttl(base, max, queued) <= pressured_ttl(base, max, more) <= max,
        base <= max ==> pressured_ttl(base, max, 0) == base,
{
    assert(base * ttl_multiplier(queued) <= base * ttl_multiplier(more)) by (nonlinear_arith)
        requires
            ttl_multiplier(queued) <= ttl_multiplier(more),
    ;
}

/// A sequence of which just the items from `from` on are chosen is cut down to those.
proof fn lemma_filter_tail(items: Seq<u128>, from: int, chosen: spec_fn(u128) -> bool)
    requires
        0 <= from <= items.len(),
        forall|i: int| 0 <= i < from ==> !chosen(#[trigger] items[i]),
        forall|i: int| from <= i < items.len() ==> chosen(#[trigger] items[i]),
    ensures
        items.filter(chosen) == items.skip(from),
    decreases items.len(),
{
    reveal(Seq::filter);
    if items.len() > 0 {
        let fewer = items.drop_last();
        if from < items.len() {
            assert forall|i: int| from <= i < fewer.len() implies chosen(#[trigger] fewer[i]) by {
                assert(fewer[i] == items[i]);
            }
            assert forall|i: int| 0 <= i < from implies !chosen(#[trigger] fewer[i]) by {
                assert(fewer[i] == items[i]);
            }
            lemma_filter_tail(fewer, from, chosen);
            assert(chosen(items[items.len() - 1]));
            assert(fewer.skip(from).push(items.last()) == items.skip(from));
        } else {
            assert forall|i: int| 0 <= i < fewer.len() implies !chosen(#[trigger] fewer[i]) by {
                assert(fewer[i] == items[i]);
            }
            lemma_filter_tail(fewer, from - 1, chosen);
            assert(!chosen(items[items.len() - 1]));
            assert(fewer.skip(from - 1) == Seq::<u128>::empty());
            assert(items.skip(from) == Seq::<u128>::empty());
        }
    } else {
        assert(items.skip(from) == Seq::<u128>::empty());
    }
}

/// What the window still holds at `now` are the granted requests that lie less than a window
/// back.
proof fn lemma_window_holds_grants(requests: Seq<u128>, limit: nat, window: u128, now: u128)
    requires
        ascends(requests.push(now)),
    ensures
        ({
            let grants = grants_of(requests, limit, window);
            let left = slid(recent_of(requests, limit, window), window, now);
            &&& ascends(grants)
            &&& left.len() <= grants.len()
            &&& left == grants.skip(grants.len() - left.len())
            &&& forall|i: int|
                0 <= i < grants.len() - left.len() ==> now - #[trigger] grants[i] >= window
            &&& forall|i: int|
                grants.len() - left.len() <= i < grants.len() ==> now - #[trigger] grants[i]
                    < window
        }),
{
    let asked = requests.push(now);
    assert(ascends(requests)) by {
        assert forall|i: int, j: int| 0 <= i <= j < requests.len() implies requests[i]
            <= requests[j] by {
            assert(asked[i] == requests[i] && asked[j] == requests[j]);
        }
    }
    lemma_window(requests, limit, window);
    let grants = grants_of(requests, limit, window);
    let recent = recent_of(requests, limit, window);
    if requests.len() > 0 {
        assert(asked[requests.len() - 1] <= asked[requests.len() as int]);
        assert(requests.last() <= now);
    }
    assert forall|i: int| 0 <= i < recent.len() implies #[trigger] recent[i] <= now by {
        assert(recent[i] == grants[grants.len() - recent.len() + i]);
    }
    lemma_slid(recent, window, now);
    lemma_elapsed_below_window(recent, window, now);
    let left = slid(recent, window, now);
    assert(left == grants.skip(grants.len() - left.len()));
    assert forall|i: int| 0 <= i < grants.len() - left.len() implies now - #[trigger] grants[i]
        >= window by {
        if i >= grants.len() - recent.len() {
            assert(grants[i] == recent[i - (grants.len() - recent.len())]);
        }
    }
    assert forall|i: int| grants.len() - left.len() <= i < grants.len() implies now
        - #[trigger] grants[i] < window by {
        let first = grants.len() - left.len();
        assert(grants[first] == left[0]);
        assert(grants[first] <= grants[i]);
    }
}

/// A request is granted just where fewer than `limit` of the granted requests lie less than a
/// window back; then it is one of them, and else nothing changes.
pub proof fn a_window_with_room_admits(requests: Seq<u128>, limit: nat, window: u128, now: u128)
    requires
        forall|i: int, j: int| 0 <= i <= j < requests.len() ==> requests[i] <= requests[j],
        forall|i: int| 0 <= i < requests.len() ==> #[trigger] requests[i] <= now,
    ensures
        ({
            let grants = grants_of(requests, limit, window);
            let held = grants.filter(|granted: u128| now - granted < window).len();
            &&& is_granted(recent_of(requests, limit, window), limit, window, now) <==> held < limit
            &&& grants_of(requests.push(now), limit, window) == if held < limit {
                grants.push(now)
            } else {
                grants
            }
        }),
        grants_of(Seq::<u128>::empty(), limit, window) == Seq::<u128>::empty(),
        recent_of(Seq::<u128>::empty(), limit, window) == Seq::<u128>::empty(),
        recent_of(requests.push(now), limit, window) == recent_after(
            recent_of(requests, limit, window),
            limit,
            window,
            now,
        ),
{
    let grants = grants_of(requests, limit, window);
    let left = slid(recent_of(requests, limit, window), window, now);
    assert(ascends(requests.push(now)));
    lemma_window_holds_grants(requests, limit, window, now);
    lemma_filter_tail(
        grants,
        grants.len() - left.len(),
        |granted: u128| now - granted < window,
    );
    assert(requests.push(now).drop_last() == requests);
}

/// A request is granted where there are fewer than `limit` granted requests in all, or the one
/// that lies `limit` back in their row is a window or more ago; and nowhere else.
pub proof fn a_slot_is_free_a_window_after_its_grant(
    requests: Seq<u128>,
    limit: nat,
    window: u128,
    now: u128,
)
    requires
        forall|i: int, j: int| 0 <= i <= j < requests.len() ==> requests[i] <= requests[j],
        forall|i: int| 0 <= i < requests.len() ==> #[trigger] requests[i] <= now,
    ensures
        ({
            let grants = grants_of(requests, limit, window);
            is_granted(recent_of(requests, limit, window), limit, window, now) <==> limit > 0 && (
            grants.len() < limit || now - grants[grants.len() - limit] >= window)
        }),
{
    assert(ascends(requests.push(now)));
    lemma_window_holds_grants(requests, limit, window, now);
}

/// Nobody waits longer than needed: before the time that a refused request is told to wait has
/// passed, no slot is free.
pub proof fn nobody_waits_longer_than_needed(
    recent: Seq<u128>,
    limit: nat,
    window: u128,
    now: u128,
    earlier: u128,
)
    requires
        limit > 0,
        forall|i: int| 0 <= i < recent.len() ==> #[trigger] recent[i] <= now,
        !is_granted(recent, limit, window, now),
        now <= earlier < now + (window - elapsed(now, recent_after(recent, limit, window, now)[0])),
    ensures
        !is_granted(recent_after(recent, limit, window, now), limit, window, earlier),
        elapsed(now, recent_after(recent, limit, window, now)[0]) == now - recent_after(
            recent,
            limit,
            window,
            now,
        )[0],
{
    lemma_slid(recent, window, now);
    let left = slid(recent, window, now);
    assert(left[0] == recent[recent.len() - left.len()]);
}

/// Time that has passed is the difference of two times, and never less than nothing.
pub proof fn elapsed_time_is_a_difference(now: u128, since: u128)
    ensures
        now >= since ==> elapsed(now, since) == now - since,
        now < since ==> elapsed(now, since) == 0,
{
}

/// A step of a request either grants it a slot and takes it out of the queue, or leaves it there
/// with the time until the oldest request of the window is a window old.
pub proof fn steps_grant_or_wait(
    before: GoogleThrottle,
    after: GoogleThrottle,
    now: u128,
    step: Acquire,
    queued: nat,
)
    requires
        before.stepped(after, now, step, queued),
    ensures
        after.recent() == recent_after(before.recent(), before.limit(), before.window(), now),
        is_granted(before.recent(), before.limit(), before.window(), now) ==> step is Granted
            && after.queued() == queued - 1,
        !is_granted(before.recent(), before.limit(), before.window(), now) ==> after.queued()
            == queued && (step matches Acquire::Wait { nanos } && nanos == before.window()
            - elapsed(now, after.recent()[0])),
{
}

/// Throttles of the same settings agree in each of them.
pub proof fn same_settings_are_equal(one: GoogleThrottle, other: GoogleThrottle)
    requires
        one.same_settings(other),
    ensures
        one.limit() == other.limit(),
        one.window() == other.window(),
        one.max_queued() == other.max_queued(),
        one.cache_ttl() == other.cache_ttl(),
        one.cache_ttl_max() == other.cache_ttl_max(),
{
}

/// A payload is cached for the base time below 8 queued requests, for twice that time from 8 on,
/// three times from 24 on and four times from 48 on, and never for more than the maximum.
pub proof fn ttl_has_four_steps(base: nat, max: nat, queued: nat)
    ensures
        pressured_ttl(base, max, queued) <= max,
        ({
            let factor: nat = if queued < 8 {
                1
            } else if queued < 24 {
                2
            } else if queued < 48 {
                3
            } else {
                4
            };
            pressured_ttl(base, max, queued) == if base * factor <= max {
                base * factor
            } else {
                max
            }
        }),
{
}

/// A full queue refuses with status 429.
pub proof fn a_full_queue_is_too_many_requests()
    ensures
        queue_full() == (ErrorView { message: "Too many Google requests queued"@, status: 429 }),
{
}

} // verus!
