//! Circuit breakers: stop calling something that keeps failing, and try
//! again once a cool-down has passed.
use vstd::prelude::*;
use crate::text::{chars_eq, chars_of, string_from};

verus! {

#[verifier::external_type_specification]
#[verifier::external_body]
pub struct ExInstant(std::time::Instant);

/// The current instant.
///
/// Trusted: wraps `std::time::Instant::now`; nothing is stated of the value.
#[verifier::external_body]
fn instant_now() -> std::time::Instant {
    std::time::Instant::now()
}

/// A duration of whole seconds.
///
/// Trusted: wraps `std::time::Duration::from_secs`; the value is only ever
/// compared against elapsed time, so nothing is stated of it.
#[verifier::external_body]
fn duration_from_secs(seconds: u64) -> std::time::Duration {
    std::time::Duration::from_secs(seconds)
}

/// Whether more than `limit` has passed since `since`.
///
/// Trusted: wraps `Instant::elapsed` compared with `>`; the answer depends
/// on the clock, so nothing is stated of it.
#[verifier::external_body]
fn elapsed_exceeds(since: &std::time::Instant, limit: &std::time::Duration) -> bool {
    since.elapsed() > *limit
}

/// The state of a breaker.
#[derive(Debug, Clone, Copy, PartialEq, Eq, Structural)]
pub enum CircuitState {
    Closed,
    Open,
    HalfOpen,
}

/// What a breaker holds, leaving out its clock readings: its state, the
/// failure count, whether it has seen a failure, its threshold and its
/// cool-down in seconds.
pub struct BreakerView {
    pub state: CircuitState,
    pub failures: u32,
    pub has_failed: bool,
    pub threshold: u32,
    pub reset_seconds: u64,
}

/// A breaker that is not closed has recorded a failure: it opens only on
/// one, and turns half-open only from open.
pub open spec fn opened_on_failure(b: BreakerView) -> bool {
    b.state != CircuitState::Closed ==> b.has_failed
}

/// A breaker that opens after `threshold` failures without a success and
/// may be tried again once `reset_duration` has passed since the last
/// failure.
pub struct CircuitBreaker {
    state: CircuitState,
    failures: u32,
    last_fail: Option<std::time::Instant>,
    threshold: u32,
    reset_seconds: u64,
    reset_duration: std::time::Duration,
}

impl View for CircuitBreaker {
    type V = BreakerView;

    closed spec fn view(&self) -> BreakerView {
        BreakerView {
            state: self.state,
            failures: self.failures,
            has_failed: self.last_fail is Some,
            threshold: self.threshold,
            reset_seconds: self.reset_seconds,
        }
    }
}

impl CircuitBreaker {
    /// A breaker leaves the closed state only on a failure.
    #[verifier::type_invariant]
    spec fn opened_only_on_failure(&self) -> bool {
        self.state != CircuitState::Closed ==> self.last_fail is Some
    }
}

/// A fresh breaker: closed, no failures.
pub open spec fn fresh_breaker(threshold: u32, reset_seconds: u64) -> BreakerView {
    BreakerView { state: CircuitState::Closed, failures: 0, has_failed: false, threshold, reset_seconds }
}

/// A breaker after one more failure: the count goes up; the breaker opens
/// once the count reaches the threshold and otherwise keeps its state.
pub open spec fn after_failure(b: BreakerView) -> BreakerView {
    let failures = (b.failures + 1) as u32;
    BreakerView {
        state: if failures >= b.threshold {
            CircuitState::Open
        } else {
            b.state
        },
        failures,
        has_failed: true,
        ..b
    }
}

/// A breaker after a success: closed, count reset.
pub open spec fn after_success(b: BreakerView) -> BreakerView {
    BreakerView { state: CircuitState::Closed, failures: 0, ..b }
}

/// The answer of `is_open` and the breaker after it, given whether the
/// cool-down has passed: an open breaker whose cool-down has passed since
/// a failure turns half-open and answers no; an open breaker otherwise
/// answers yes; a breaker that is not open answers no and is unchanged.
pub open spec fn after_open_check(b: BreakerView, expired: bool) -> (bool, BreakerView) {
    match b.state {
        CircuitState::Open => if b.has_failed && expired {
            (false, BreakerView { state: CircuitState::HalfOpen, ..b })
        } else {
            (true, b)
        },
        _ => (false, b),
    }
}

impl CircuitBreaker {
    /// A closed breaker with the given threshold and cool-down.
    pub fn new(threshold: u32, reset_seconds: u64) -> (r: CircuitBreaker)
        ensures
            r@ == fresh_breaker(threshold, reset_seconds),
    {
        CircuitBreaker {
            state: CircuitState::Closed,
            failures: 0,
            last_fail: None,
            threshold,
            reset_seconds,
            reset_duration: duration_from_secs(reset_seconds),
        }
    }

    /// `is_open`, given whether the cool-down since the last failure has
    /// passed.
    pub fn check_open(&mut self, expired: bool) -> (r: bool)
        ensures
            (r, final(self)@) == after_open_check(old(self)@, expired),
            opened_on_failure(old(self)@),
            opened_on_failure(final(self)@),
            r == (old(self)@.state == CircuitState::Open && !expired),
    {
        proof {
            use_type_invariant(&*self);
        }
        match self.state {
            CircuitState::Open => {
                if self.last_fail.is_some() && expired {
                    self.state = CircuitState::HalfOpen;
                    return false;
                }
                true
            },
            _ => false,
        }
    }

    /// Whether the cool-down has passed since the last failure (never, when
    /// there was none). It reads the clock, so nothing more is stated.
    pub fn cool_down_passed(&self) -> (r: bool)
        ensures
            !self@.has_failed ==> !r,
    {
        proof {
            use_type_invariant(self);
        }
        match &self.last_fail {
            Some(last) => elapsed_exceeds(last, &self.reset_duration),
            None => false,
        }
    }

    /// Whether calls are currently refused. An open breaker whose cool-down
    /// has passed since the last failure turns half-open and lets a call
    /// through.
    pub fn is_open(&mut self) -> (r: bool)
        ensures
            exists|expired: bool| (r, final(self)@) == after_open_check(old(self)@, expired),
            opened_on_failure(old(self)@),
            opened_on_failure(final(self)@),
    {
        let expired = self.cool_down_passed();
        self.check_open(expired)
    }

    /// Records a success: the breaker closes and its count resets.
    pub fn record_success(&mut self)
        ensures
            final(self)@ == after_success(old(self)@),
            opened_on_failure(final(self)@),
    {
        proof {
            use_type_invariant(&*self);
        }
        self.failures = 0;
        self.state = CircuitState::Closed;
    }

    /// Records a failure now.
    pub fn record_failure(&mut self)
        requires
            old(self)@.failures < u32::MAX,
        ensures
            final(self)@ == after_failure(old(self)@),
            opened_on_failure(final(self)@),
    {
        proof {
            use_type_invariant(&*self);
        }
        self.failures = self.failures + 1;
        self.last_fail = Some(instant_now());
        if self.failures >= self.threshold {
            self.state = CircuitState::Open;
        }
    }

    /// The number of failures since the last success.
    pub fn failure_count(&self) -> (r: u32)
        ensures
            r == self@.failures,
    {
        self.failures
    }

    /// Whether the breaker is closed.
    pub fn is_closed(&self) -> (r: bool)
        ensures
            r == (self@.state == CircuitState::Closed),
    {
        match self.state {
            CircuitState::Closed => true,
            _ => false,
        }
    }
}

/// A fresh breaker after `k` failures.
pub open spec fn failed_times(threshold: u32, reset_seconds: u64, k: nat) -> BreakerView
    decreases k,
{
    if k == 0 {
        fresh_breaker(threshold, reset_seconds)
    } else {
        after_failure(failed_times(threshold, reset_seconds, (k - 1) as nat))
    }
}

/// A fresh breaker opens exactly when its failures reach the threshold (at
/// the first failure for a threshold of 0), and counts every failure.
pub proof fn law_breaker_opens_at_threshold(threshold: u32, reset_seconds: u64, k: nat)
    requires
        k < u32::MAX,
    ensures
        failed_times(threshold, reset_seconds, k).failures == k,
        failed_times(threshold, reset_seconds, k).threshold == threshold,
        failed_times(threshold, reset_seconds, k).reset_seconds == reset_seconds,
        failed_times(threshold, reset_seconds, k).state == (if k >= 1 && k >= threshold {
            CircuitState::Open
        } else {
            CircuitState::Closed
        }),
        failed_times(threshold, reset_seconds, k).has_failed == (k >= 1),
    decreases k,
{
    if k > 0 {
        law_breaker_opens_at_threshold(threshold, reset_seconds, (k - 1) as nat);
        let prev = failed_times(threshold, reset_seconds, (k - 1) as nat);
        let f = (prev.failures + 1) as u32;
        assert(f == k);
        assert(failed_times(threshold, reset_seconds, k) == after_failure(prev));
        if f >= threshold {
            assert(after_failure(prev).state == CircuitState::Open);
        } else {
            assert(after_failure(prev).state == prev.state);
        }
    }
}

/// After `k` failures of a fresh breaker, the open check refuses calls
/// exactly when the count has reached the threshold, as long as the
/// cool-down since the last failure has not passed; once it has passed, an
/// open breaker lets one call through and turns half-open.
pub proof fn law_failures_refuse_calls(threshold: u32, reset_seconds: u64, k: nat)
    requires
        k < u32::MAX,
    ensures
        after_open_check(failed_times(threshold, reset_seconds, k), false).0 == (k >= 1 && k >= threshold),
        after_open_check(failed_times(threshold, reset_seconds, k), false).1 == failed_times(threshold, reset_seconds, k),
        k >= 1 && k >= threshold ==> after_open_check(failed_times(threshold, reset_seconds, k), true) == (
            false,
            BreakerView { state: CircuitState::HalfOpen, ..failed_times(threshold, reset_seconds, k) },
        ),
{
    law_breaker_opens_at_threshold(threshold, reset_seconds, k);
}

/// The open check of a breaker that has recorded a failure whenever it is
/// not closed: it refuses exactly when the breaker is open and the
/// cool-down has not passed; an open breaker whose cool-down has passed
/// turns half-open; otherwise nothing changes. The failure count never
/// changes, and the breaker still has recorded a failure whenever it is not
/// closed.
pub proof fn law_open_check(b: BreakerView, expired: bool)
    requires
        opened_on_failure(b),
    ensures
        after_open_check(b, expired).0 == (b.state == CircuitState::Open && !expired),
        b.state == CircuitState::Open && expired ==> after_open_check(b, expired).1 == (BreakerView {
            state: CircuitState::HalfOpen,
            ..b
        }),
        !(b.state == CircuitState::Open && expired) ==> after_open_check(b, expired).1 == b,
        after_open_check(b, expired).1.failures == b.failures,
        opened_on_failure(after_open_check(b, expired).1),
{
}

/// After a success the breaker is closed with no failures, whatever came
/// before.
pub proof fn law_success_resets(b: BreakerView)
    ensures
        after_success(b).state == CircuitState::Closed,
        after_success(b).failures == 0,
        after_open_check(after_success(b), true).0 == false,
{
}

/// Breakers kept by name, each name once; a name asked for the first time
/// gets a fresh breaker with threshold 3 and a 30-second cool-down.
pub struct CircuitBreakerPool {
    breakers: Vec<(String, CircuitBreaker)>,
}

/// The names of the pool's breakers, in the order they were first asked for.
pub open spec fn pool_keys(b: Seq<(String, CircuitBreaker)>) -> Seq<Seq<char>> {
    b.map_values(|e: (String, CircuitBreaker)| e.0@)
}

/// The breakers of the pool, by position.
pub open spec fn pool_breakers(b: Seq<(String, CircuitBreaker)>) -> Seq<BreakerView> {
    b.map_values(|e: (String, CircuitBreaker)| e.1@)
}

/// No name occurs twice in `keys`.
pub open spec fn unique_keys(keys: Seq<Seq<char>>) -> bool {
    forall|i: int, j: int| 0 <= i < j < keys.len() ==> keys[i] != keys[j]
}

/// The last position of `key` in `keys`, or -1.
pub open spec fn key_pos(keys: Seq<Seq<char>>, key: Seq<char>) -> int
    decreases keys.len(),
{
    if keys.len() == 0 {
        -1
    } else if keys.last() == key {
        keys.len() - 1
    } else {
        key_pos(keys.drop_last(), key)
    }
}

pub proof fn lemma_key_pos(keys: Seq<Seq<char>>, key: Seq<char>)
    ensures
        -1 <= key_pos(keys, key) < keys.len(),
        key_pos(keys, key) >= 0 ==> keys[key_pos(keys, key)] == key,
        key_pos(keys, key) == -1 <==> !keys.contains(key),
        unique_keys(keys) ==> forall|i: int| 0 <= i < keys.len() && keys[i] == key ==> key_pos(keys, key) == i,
    decreases keys.len(),
{
    if keys.len() > 0 {
        lemma_key_pos(keys.drop_last(), key);
        if keys.contains(key) && keys.last() != key {
            let i = choose|i: int| 0 <= i < keys.len() && keys[i] == key;
            assert(keys.drop_last()[i] == key);
        }
        if key_pos(keys, key) == -1 {
            assert forall|i: int| 0 <= i < keys.len() implies keys[i] != key by {
                if i < keys.len() - 1 {
                    assert(keys.drop_last()[i] == keys[i]);
                }
            }
        }
        if unique_keys(keys) {
            assert(unique_keys(keys.drop_last()));
        }
    }
}

impl CircuitBreakerPool {
    /// Well-formed: no name occurs twice.
    pub closed spec fn wf(&self) -> bool {
        unique_keys(pool_keys(self.breakers@))
    }

    /// The names of the breakers, in the order they were first asked for.
    pub closed spec fn keys(&self) -> Seq<Seq<char>> {
        pool_keys(self.breakers@)
    }

    /// The breakers, in the same order as `keys`.
    pub closed spec fn states(&self) -> Seq<BreakerView> {
        pool_breakers(self.breakers@)
    }

    /// The breaker named `key`: its state when the pool has one, else the
    /// fresh breaker it would get.
    pub open spec fn breaker(&self, key: Seq<char>) -> BreakerView {
        let i = key_pos(self.keys(), key);
        if i >= 0 {
            self.states()[i]
        } else {
            fresh_breaker(3, 30)
        }
    }

    /// An empty pool.
    pub fn new() -> (r: CircuitBreakerPool)
        ensures
            r.wf(),
            r.keys().len() == 0,
            r.states().len() == 0,
            forall|key: Seq<char>| #[trigger] r.breaker(key) == fresh_breaker(3, 30),
    {
        let r = CircuitBreakerPool { breakers: Vec::new() };
        assert(r.keys() =~= Seq::<Seq<char>>::empty());
        assert(r.states() =~= Seq::<BreakerView>::empty());
        r
    }

    /// The position of the breaker named `key`, adding a fresh one when
    /// there is none.
    fn position(&mut self, key: &str) -> (i: usize)
        requires
            old(self).wf(),
        ensures
            final(self).wf(),
            old(self).keys().contains(key@) ==> final(self).keys() == old(self).keys()
                && final(self).states() == old(self).states() && i < old(self).keys().len()
                && old(self).keys()[i as int] == key@,
            !old(self).keys().contains(key@) ==> final(self).keys() == old(self).keys().push(key@)
                && final(self).states() == old(self).states().push(fresh_breaker(3, 30)) && i
                == old(self).keys().len(),
    {
        let kv = chars_of(key);
        let mut j: usize = 0;
        while j < self.breakers.len()
            invariant
                j <= self.breakers.len(),
                kv@ == key@,
                unique_keys(pool_keys(self.breakers@)),
                forall|k: int| 0 <= k < j ==> pool_keys(self.breakers@)[k] != key@,
            decreases self.breakers.len() - j,
        {
            let name = chars_of(self.breakers[j].0.as_str());
            if chars_eq(&name, &kv) {
                assert(pool_keys(self.breakers@)[j as int] == key@);
                return j;
            }
            j = j + 1;
        }
        let ghost k0 = pool_keys(self.breakers@);
        let ghost s0 = pool_breakers(self.breakers@);
        let b = CircuitBreaker::new(3, 30);
        let entry = (string_from(key), b);
        assert(!k0.contains(key@));
        assert(unique_keys(k0.push(key@)));
        self.breakers.push(entry);
        assert(pool_keys(self.breakers@) =~= k0.push(key@));
        assert(pool_breakers(self.breakers@) =~= s0.push(fresh_breaker(3, 30)));
        j
    }

    /// The breaker named `key`, added fresh (threshold 3, 30-second
    /// cool-down) when there is none yet. The other breakers stay as they
    /// are.
    pub fn get(&mut self, key: &str) -> (r: &mut CircuitBreaker)
        requires
            old(self).wf(),
        ensures
            final(self).wf(),
            r@ == old(self).breaker(key@),
            opened_on_failure(r@),
            final(self).breaker(key@) == final(r)@,
            forall|other: Seq<char>|
                other != key@ ==> #[trigger] final(self).breaker(other) == old(self).breaker(other),
            old(self).keys().contains(key@) ==> final(self).keys() == old(self).keys(),
            !old(self).keys().contains(key@) ==> final(self).keys() == old(self).keys().push(key@),
    {
        proof {
            lemma_key_pos(self.keys(), key@);
        }
        let ghost old_keys = self.keys();
        let ghost old_states = self.states();
        let i = self.position(key);
        proof {
            lemma_key_pos(self.keys(), key@);
        }
        assert(self.keys().len() == self.breakers@.len());
        let ghost keys1 = self.keys();
        let ghost st = self.states();
        assert(key_pos(keys1, key@) == i);
        assert(st[i as int] == self.breakers@[i as int].1@);
        assert forall|other: Seq<char>| other != key@ implies #[trigger] key_pos(keys1, other) == key_pos(
            old_keys,
            other,
        ) && (key_pos(keys1, other) >= 0 ==> st[key_pos(keys1, other)] == old_states[key_pos(
            old_keys,
            other,
        )]) by {
            lemma_key_pos(keys1, other);
            lemma_key_pos(old_keys, other);
            if key_pos(old_keys, other) >= 0 {
                assert(keys1[key_pos(old_keys, other)] == other);
            }
        }
        let ghost bv = self.breakers@;
        let entry = &mut self.breakers[i];
        let r = &mut entry.1;
        proof {
            use_type_invariant(&*r);
        }
        let ghost nv = bv.update(i as int, (bv[i as int].0, *final(r)));
        assert(pool_keys(nv) =~= keys1);
        assert(pool_breakers(nv) =~= st.update(i as int, final(r)@));
        assert(st.update(i as int, final(r)@)[i as int] == final(r)@);
        assert forall|other: Seq<char>| other != key@ && key_pos(keys1, other) >= 0 implies #[trigger] st.update(
            i as int,
            final(r)@,
        )[key_pos(keys1, other)] == st[key_pos(keys1, other)] by {
            lemma_key_pos(keys1, other);
        }
        r
    }
}

} // verus!
