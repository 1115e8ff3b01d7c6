use vstd::prelude::*;

verus! {

/// The deadline reached by waiting `duration` from `now`, saturating at the
/// clock's end.
pub open spec fn spec_deadline(now: u64, duration: u64) -> u64 {
    if duration > u64::MAX - now {
        u64::MAX
    } else {
        (now + duration) as u64
    }
}

/// The tokens of the scheduled entries that have expired by `now`, in stored
/// order.
pub open spec fn spec_expired(s: Seq<(u64, u64)>, now: u64) -> Seq<u64>
    decreases s.len(),
{
    if s.len() == 0 {
        Seq::empty()
    } else {
        let rest = spec_expired(s.drop_last(), now);
        if s.last().1 <= now {
            rest.push(s.last().0)
        } else {
            rest
        }
    }
}

/// The scheduled entries still outstanding at `now`, in stored order.
pub open spec fn spec_live(s: Seq<(u64, u64)>, now: u64) -> Seq<(u64, u64)>
    decreases s.len(),
{
    if s.len() == 0 {
        Seq::empty()
    } else {
        let rest = spec_live(s.drop_last(), now);
        if s.last().1 > now {
            rest.push(s.last())
        } else {
            rest
        }
    }
}

/// Every live entry carries a token below the bound if every entry does.
proof fn lemma_live_tokens_bounded(s: Seq<(u64, u64)>, now: u64, bound: u64)
    requires
        forall|i: int| 0 <= i < s.len() ==> (#[trigger] s[i]).0 < bound,
    ensures
        forall|i: int|
            0 <= i < spec_live(s, now).len() ==> (#[trigger] spec_live(s, now)[i]).0 < bound,
    decreases s.len(),
{
    if s.len() > 0 {
        assert(forall|i: int|
            0 <= i < s.drop_last().len() ==> (#[trigger] s.drop_last()[i]).0 < bound);
        lemma_live_tokens_bounded(s.drop_last(), now, bound);
        let rest = spec_live(s.drop_last(), now);
        assert(s.last() == s[s.len() - 1]);
        assert forall|i: int|
            0 <= i < spec_live(s, now).len() implies (#[trigger] spec_live(s, now)[i]).0
            < bound by {
            if s.last().1 > now {
                assert(spec_live(s, now) == rest.push(s.last()));
                if i < rest.len() {
                    assert(spec_live(s, now)[i] == rest[i]);
                }
            } else {
                assert(spec_live(s, now) == rest);
            }
        }
    }
}

/// The timer collaborator, as state: every wait is a stored token with a
/// deadline; tokens are handed out from a monotonic 64-bit counter; the
/// embedding layer advances the clock and collects the expired tokens.
#[derive(Debug, PartialEq, Eq)]
pub struct Timer {
    /// The next token to hand out.
    pub next_token: u64,
    /// The current time, in seconds, as the embedding layer advanced it.
    pub now: u64,
    /// Outstanding waits: token and deadline.
    pub schedules: Vec<(u64, u64)>,
}

impl Timer {
    /// Every outstanding token was handed out before `next_token`.
    pub open spec fn wf(&self) -> bool {
        forall|i: int|
            0 <= i < self.schedules@.len() ==> (#[trigger] self.schedules@[i]).0 < self.next_token
    }

    pub fn new() -> (r: Timer)
        ensures
            r.wf(),
            r.next_token == 0,
            r.now == 0,
            r.schedules@ == Seq::<(u64, u64)>::empty(),
    {
        let schedules: Vec<(u64, u64)> = Vec::new();
        proof {
            assert(schedules@ =~= Seq::<(u64, u64)>::empty());
        }
        Timer { next_token: 0, now: 0, schedules }
    }

    /// Schedule a wait of `duration` seconds; the returned token names it.
    pub fn schedule(&mut self, duration: u64) -> (token: u64)
        requires
            old(self).wf(),
            old(self).next_token < u64::MAX,
        ensures
            final(self).wf(),
            token == old(self).next_token,
            final(self).next_token == old(self).next_token + 1,
            final(self).now == old(self).now,
            final(self).schedules@ == old(self).schedules@.push(
                (token, spec_deadline(old(self).now, duration)),
            ),
    {
        let token = self.next_token;
        let deadline: u64 = if duration > u64::MAX - self.now {
            u64::MAX
        } else {
            self.now + duration
        };
        self.schedules.push((token, deadline));
        self.next_token = self.next_token + 1;
        token
    }

    /// Advance the clock by `duration` seconds.
    pub fn elapse(&mut self, duration: u64)
        requires
            old(self).wf(),
        ensures
            final(self).wf(),
            final(self).now == spec_deadline(old(self).now, duration),
            final(self).next_token == old(self).next_token,
            final(self).schedules@ == old(self).schedules@,
    {
        self.now = if duration > u64::MAX - self.now {
            u64::MAX
        } else {
            self.now + duration
        };
    }

    /// Collect and drop the tokens whose deadline has passed.
    pub fn get_timed_out_tokens(&mut self) -> (r: Vec<u64>)
        requires
            old(self).wf(),
        ensures
            final(self).wf(),
            final(self).next_token == old(self).next_token,
            final(self).now == old(self).now,
            r@ == spec_expired(old(self).schedules@, old(self).now),
            final(self).schedules@ == spec_live(old(self).schedules@, old(self).now),
    {
        let n = self.schedules.len();
        let mut expired: Vec<u64> = Vec::new();
        let mut live: Vec<(u64, u64)> = Vec::new();
        let mut i: usize = 0;
        while i < n
            invariant
                n == self.schedules@.len(),
                i <= n,
                self == old(self),
                expired@ == spec_expired(self.schedules@.subrange(0, i as int), self.now),
                live@ == spec_live(self.schedules@.subrange(0, i as int), self.now),
            decreases n - i,
        {
            let ghost prefix = self.schedules@.subrange(0, i as int);
            let ghost prefix1 = self.schedules@.subrange(0, i + 1 as int);
            proof {
                assert(prefix1.drop_last() =~= prefix);
                assert(prefix1.last() == self.schedules@[i as int]);
            }
            let entry = self.schedules[i];
            if entry.1 <= self.now {
                expired.push(entry.0);
            } else {
                live.push(entry);
            }
            i += 1;
        }
        proof {
            assert(self.schedules@.subrange(0, n as int) =~= self.schedules@);
            lemma_live_tokens_bounded(self.schedules@, self.now, self.next_token);
        }
        self.schedules = live;
        expired
    }
}

} // verus!
