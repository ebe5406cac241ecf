//! Requests per minute and token.

use std::collections::{HashMap, VecDeque};

use vstd::prelude::*;
use vstd::std_specs::hash::*;

use crate::clock::MonoClock;
use crate::text::{decimal, decimal_digits, join3};

verus! {

broadcast use vstd::std_specs::hash::group_hash_axioms;

/// A minute, in nanoseconds.
pub const MINUTE: u128 = 60_000_000_000;

/// What is left of the recorded times when those older than a minute have been
/// dropped from the front.
pub open spec fn recent(times: Seq<u128>, now: u128) -> Seq<u128>
    decreases times.len(),
{
    if times.len() > 0 && times[0] + MINUTE < now {
        recent(times.drop_first(), now)
    } else {
        times
    }
}

/// The error of a refused request.
pub open spec fn limit_text(per_minute: u32) -> Seq<char> {
    "rate limit exceeded: "@ + decimal_digits(per_minute as nat) + "/min"@
}

/// Whether a request is admitted that finds these times recorded.
pub open spec fn admits(per_minute: u32, times: Seq<u128>, now: u128) -> bool {
    per_minute == 0 || recent(times, now).len() < per_minute
}

/// The times recorded after a request that came at `now` and, where it is
/// admitted, is recorded under `stamp`.
pub open spec fn recorded_after(per_minute: u32, times: Seq<u128>, now: u128, stamp: u128) -> Seq<
    u128,
> {
    if per_minute == 0 {
        times
    } else if admits(per_minute, times, now) {
        recent(times, now).push(stamp)
    } else {
        recent(times, now)
    }
}

/// Limits each token to a number of requests per minute; zero means no limit.
pub struct RateLimiter {
    per_minute: u32,
    clock: MonoClock,
    state: HashMap<i64, VecDeque<u128>>,
}

impl RateLimiter {
    /// The limit.
    pub closed spec fn limit(&self) -> u32 {
        self.per_minute
    }

    /// The last reading of the limiter's clock.
    pub closed spec fn reading(&self) -> u128 {
        self.clock.reading()
    }

    /// The times recorded for a token, oldest first.
    pub closed spec fn times(&self, token_id: i64) -> Seq<u128> {
        if self.state@.contains_key(token_id) {
            self.state@[token_id]@
        } else {
            Seq::empty()
        }
    }

    /// No more times are recorded than the limit allows.
    pub closed spec fn wf(&self) -> bool {
        forall|t: i64| #[trigger] self.state@.contains_key(t) ==> self.state@[t]@.len()
            <= self.per_minute
    }

    pub fn new(per_minute: u32) -> (r: Self)
        ensures
            r.wf(),
            r.limit() == per_minute,
            r.reading() == 0,
            forall|t: i64| #[trigger] r.times(t) == Seq::<u128>::empty(),
    {
        RateLimiter { per_minute, clock: MonoClock::new(), state: HashMap::new() }
    }

    /// Admits a request of the token now, and records it, unless the limit has
    /// been reached within the last minute. The requests of a run come in order: each
    /// one at or after the time under which the one before was recorded.
    pub fn check_and_record(&mut self, token_id: i64) -> (r: Result<(), String>)
        requires
            old(self).wf(),
        ensures
            final(self).wf(),
            final(self).limit() == old(self).limit(),
            exists|now: u128, stamp: u128|
                {
                    &&& old(self).reading() <= now <= stamp == final(self).reading()
                    &&& r is Ok <==> #[trigger] admits(old(self).limit(), old(self).times(token_id), now)
                    &&& final(self).times(token_id) == #[trigger] recorded_after(
                        old(self).limit(),
                        old(self).times(token_id),
                        now,
                        stamp,
                    )
                },
            old(self).limit() == 0 ==> r is Ok,
            old(self).times(token_id).len() < old(self).limit() ==> r is Ok,
            r matches Err(m) ==> m@ == limit_text(old(self).limit()),
            forall|t: i64| t != token_id ==> #[trigger] final(self).times(t) == old(self).times(t),
    {
        let now = self.clock.read();
        let stamp = self.clock.read();
        proof {
            assert forall|t: i64| #[trigger] self.times(t) == old(self).times(t) by {}
            lemma_recent_is_suffix(self.times(token_id), now);
        }
        self.check_and_record_at(token_id, now, stamp)
    }

    /// The same for a request that comes at `now` and, where it is admitted, is
    /// recorded under `stamp`.
    pub fn check_and_record_at(&mut self, token_id: i64, now: u128, stamp: u128) -> (r: Result<
        (),
        String,
    >)
        requires
            old(self).wf(),
        ensures
            final(self).wf(),
            final(self).limit() == old(self).limit(),
            final(self).reading() == old(self).reading(),
            r is Ok <==> admits(old(self).limit(), old(self).times(token_id), now),
            r matches Err(m) ==> m@ == limit_text(old(self).limit()),
            final(self).times(token_id) == recorded_after(
                old(self).limit(),
                old(self).times(token_id),
                now,
                stamp,
            ),
            forall|t: i64| t != token_id ==> #[trigger] final(self).times(t) == old(self).times(t),
    {
        if self.per_minute == 0 {
            return Ok(());
        }
        let mut entry: VecDeque<u128> = match self.state.remove(&token_id) {
            Some(e) => e,
            None => VecDeque::new(),
        };
        let ghost before = entry@;
        assert(before =~= old(self).times(token_id));
        while entry.len() > 0 && now >= MINUTE && entry[0] < now - MINUTE
            invariant
                recent(entry@, now) == recent(before, now),
                entry@.len() <= before.len(),
            decreases entry@.len(),
        {
            let ghost e0 = entry@;
            let _ = entry.pop_front();
            assert(entry@ =~= e0.drop_first());
        }
        assert(entry@ == recent(before, now));
        let full = entry.len() as u32 >= self.per_minute;
        if full {
            self.state.insert(token_id, entry);
            return Err(
                join3("rate limit exceeded: ", decimal(self.per_minute as u128).as_str(), "/min"),
            );
        }
        entry.push_back(stamp);
        self.state.insert(token_id, entry);
        Ok(())
    }
}

proof fn lemma_recent_is_suffix(times: Seq<u128>, now: u128)
    ensures
        recent(times, now).len() <= times.len(),
        recent(times, now) == times.skip(times.len() - recent(times, now).len()),
        forall|i: int|
            0 <= i < times.len() - recent(times, now).len() ==> #[trigger] times[i] + MINUTE < now,
        recent(times, now).len() > 0 ==> recent(times, now)[0] + MINUTE >= now,
    decreases times.len(),
{
    if times.len() > 0 && times[0] + MINUTE < now {
        let rest = times.drop_first();
        lemma_recent_is_suffix(rest, now);
        assert(recent(times, now) =~= times.skip(times.len() - recent(times, now).len()));
        assert forall|i: int| 0 <= i < times.len() - recent(times, now).len() implies
            #[trigger] times[i] + MINUTE < now by {
            if i > 0 {
                assert(rest[i - 1] == times[i]);
            }
        }
    } else {
        assert(times =~= times.skip(0));
    }
}

/// One request: when it came, and the time it is recorded under if admitted.
pub struct RequestTimes {
    pub now: u128,
    pub stamp: u128,
}

/// Whether the requests come one after the other.
pub open spec fn in_order(requests: Seq<RequestTimes>) -> bool {
    &&& forall|i: int| 0 <= i < requests.len() ==> (#[trigger] requests[i]).now
        <= requests[i].stamp
    &&& forall|i: int, j: int|
        0 <= i < j < requests.len() ==> (#[trigger] requests[i]).stamp <= (
        #[trigger] requests[j]).now
}

/// The times recorded for a token after a run of its requests.
pub open spec fn times_after(per_minute: u32, requests: Seq<RequestTimes>) -> Seq<u128>
    decreases requests.len(),
{
    if requests.len() == 0 {
        Seq::empty()
    } else {
        recorded_after(
            per_minute,
            times_after(per_minute, requests.drop_last()),
            requests.last().now,
            requests.last().stamp,
        )
    }
}

/// The times of all admitted requests of a run, oldest first.
pub open spec fn admitted(per_minute: u32, requests: Seq<RequestTimes>) -> Seq<u128>
    decreases requests.len(),
{
    if requests.len() == 0 {
        Seq::empty()
    } else {
        let before = admitted(per_minute, requests.drop_last());
        if admits(
            per_minute,
            times_after(per_minute, requests.drop_last()),
            requests.last().now,
        ) {
            before.push(requests.last().stamp)
        } else {
            before
        }
    }
}

/// What the limiter keeps of a run: the end of the admitted requests, where all
/// that it dropped lies more than a minute back.
proof fn lemma_run(per_minute: u32, requests: Seq<RequestTimes>)
    requires
        per_minute > 0,
        in_order(requests),
    ensures
        ({
            let kept = times_after(per_minute, requests);
            let all = admitted(per_minute, requests);
            let cut = all.len() - kept.len();
            &&& kept.len() <= per_minute
            &&& cut >= 0
            &&& kept == all.skip(cut)
            &&& forall|i: int|
                0 <= i < cut ==> #[trigger] all[i] + MINUTE < requests.last().now
            &&& forall|i: int| 0 <= i < all.len() ==> #[trigger] all[i] <= requests.last().stamp
            &&& forall|i: int, j: int| 0 <= i <= j < all.len() ==> all[i] <= all[j]
            &&& forall|i: int|
                0 <= i < all.len() - per_minute ==> #[trigger] all[i] + MINUTE < all[i + per_minute]
        }),
    decreases requests.len(),
{
    if requests.len() > 0 {
        let prev = requests.drop_last();
        let r = requests.last();
        assert(in_order(prev)) by {
            assert forall|i: int| 0 <= i < prev.len() implies (#[trigger] prev[i]).now
                <= prev[i].stamp by {
                assert(requests[i] == prev[i]);
            }
            assert forall|i: int, j: int| 0 <= i < j < prev.len() implies (
            #[trigger] prev[i]).stamp <= (#[trigger] prev[j]).now by {
                assert(requests[i] == prev[i] && requests[j] == prev[j]);
            }
        }
        lemma_run(per_minute, prev);
        let kept0 = times_after(per_minute, prev);
        let all0 = admitted(per_minute, prev);
        lemma_recent_is_suffix(kept0, r.now);
        let left = recent(kept0, r.now);
        let kept = times_after(per_minute, requests);
        let all = admitted(per_minute, requests);
        let cut0 = all0.len() - kept0.len();
        let cut = all.len() - kept.len();
        assert(cut == all0.len() - left.len());
        assert(left =~= all0.skip(cut));
        assert(requests[requests.len() - 1] == r);
        if prev.len() > 0 {
            assert(requests[prev.len() - 1] == prev.last());
            assert(prev.last().stamp <= r.now);
        } else {
            assert(all0.len() == 0);
        }
        assert forall|i: int| 0 <= i < cut implies #[trigger] all[i] + MINUTE < r.now by {
            assert(all[i] == all0[i]);
            if i >= cut0 {
                assert(kept0[i - cut0] == all0[i]);
            } else {
                assert(prev.len() > 0);
                assert(prev.last().now <= prev.last().stamp);
            }
        }
        if admits(per_minute, kept0, r.now) {
            assert(kept =~= all.skip(cut));
            assert forall|i: int| 0 <= i < all.len() - per_minute implies #[trigger] all[i] + MINUTE
                < all[i + per_minute] by {
                if i + per_minute < all0.len() {
                    assert(all0[i] + MINUTE < all0[i + per_minute]);
                } else {
                    assert(i < cut);
                }
            }
        }
    }
}

/// However a token's requests come, of those admitted the one that lies as many
/// places later as the limit says comes more than a minute later: no stretch of
/// a minute holds more admitted requests than the limit.
pub proof fn law_rate_is_bounded(per_minute: u32, requests: Seq<RequestTimes>)
    requires
        per_minute > 0,
        in_order(requests),
    ensures
        ({
            let all = admitted(per_minute, requests);
            forall|i: int|
                0 <= i < all.len() - per_minute ==> #[trigger] all[i] + MINUTE < all[i + per_minute]
        }),
{
    lemma_run(per_minute, requests);
}

/// A request is refused only when as many requests as the limit says were
/// admitted within the minute before it.
pub proof fn law_refusal_is_due(per_minute: u32, requests: Seq<RequestTimes>, now: u128)
    requires
        in_order(requests),
        requests.len() > 0 ==> requests.last().stamp <= now,
        !admits(per_minute, times_after(per_minute, requests), now),
    ensures
        ({
            let all = admitted(per_minute, requests);
            &&& per_minute > 0
            &&& all.len() >= per_minute
            &&& forall|i: int|
                all.len() - per_minute <= i < all.len() ==> #[trigger] all[i] + MINUTE >= now
        }),
{
    lemma_run(per_minute, requests);
    let kept = times_after(per_minute, requests);
    let all = admitted(per_minute, requests);
    lemma_recent_is_suffix(kept, now);
    let left = recent(kept, now);
    assert(left.len() == per_minute);
    assert(left =~= kept);
    let cut = all.len() - kept.len();
    assert forall|i: int| all.len() - per_minute <= i < all.len() implies #[trigger] all[i] + MINUTE
        >= now by {
        assert(kept[i - cut] == all[i]);
        assert(kept[0] == all[cut]);
        assert(all[cut] <= all[i]);
    }
}

/// Without a limit every request is admitted.
pub proof fn law_zero_means_no_limit(times: Seq<u128>, now: u128)
    ensures
        admits(0, times, now),
{
}

/// The refusal of a request names the limit.
pub proof fn law_refusal_names_the_limit(per_minute: u32)
    ensures
        limit_text(per_minute) == "rate limit exceeded: "@ + decimal_digits(per_minute as nat)
            + "/min"@,
        MINUTE == 60_000_000_000,
{
}

/// A request that is admitted is put down under its stamp, after the times that are still
/// within a minute; one that is refused is not. Only times that lie more than a minute
/// back are dropped.
pub proof fn law_admitted_requests_are_put_down(
    per_minute: u32,
    times: Seq<u128>,
    now: u128,
    stamp: u128,
)
    requires
        per_minute > 0,
        forall|i: int, j: int| 0 <= i <= j < times.len() ==> times[i] <= times[j],
    ensures
        ({
            let after = recorded_after(per_minute, times, now, stamp);
            let kept = recent(times, now);
            &&& admits(per_minute, times, now) <==> kept.len() < per_minute
            &&& admits(per_minute, times, now) ==> after == kept.push(stamp)
            &&& !admits(per_minute, times, now) ==> after == kept
            &&& forall|i: int|
                0 <= i < kept.len() ==> #[trigger] kept[i] + 60_000_000_000 >= now
            &&& forall|i: int|
                0 <= i < times.len() - kept.len() ==> #[trigger] times[i] + 60_000_000_000 < now
            &&& kept == times.skip(times.len() - kept.len())
        }),
{
    lemma_recent_is_suffix(times, now);
    let kept = recent(times, now);
    let cut = times.len() - kept.len();
    assert forall|i: int| 0 <= i < kept.len() implies #[trigger] kept[i] + 60_000_000_000
        >= now by {
        assert(kept[0] == times[cut]);
        assert(kept[i] == times[cut + i]);
    }
}

} // verus!
