//! Flow control towards AxonServer.
//!
//! A stream from AxonServer to a client is paced by permits: the server may
//! send one message per permit.  The client first grants two batches of
//! permits, counts one permit off for each message it has handled, and grants
//! a further batch as soon as the outstanding permits fall to one batch.
use vstd::prelude::*;

verus! {

/// The number of permits in a batch.
pub const PERMITS_BATCH_SIZE: i64 = 3;

/// The permits that the server may still use.
pub struct PermitCounter {
    batch: i64,
    permits: i64,
    /// All permits granted so far.
    granted: Ghost<int>,
    /// All messages handled so far.
    handled: Ghost<int>,
}

impl PermitCounter {
    /// Between one and two batches are outstanding, and they are exactly the
    /// permits granted that no handled message has used.
    pub closed spec fn wf(self) -> bool {
        &&& self.batch == PERMITS_BATCH_SIZE
        &&& self.batch < self.permits <= 2 * self.batch
        &&& self.permits == self.granted@ - self.handled@
        &&& self.handled@ >= 0
        &&& self.granted@ == 2 * PERMITS_BATCH_SIZE + PERMITS_BATCH_SIZE * (self.handled@ / 3)
    }

    /// The number of outstanding permits.
    pub closed spec fn outstanding(self) -> int {
        self.permits as int
    }

    /// The number of permits granted so far.
    pub closed spec fn total_granted(self) -> int {
        self.granted@
    }

    /// The number of messages handled so far.
    pub closed spec fn total_handled(self) -> int {
        self.handled@
    }

    /// Starts a stream: returns the counter and the number of permits to grant
    /// first, which is two batches.
    pub fn new() -> (r: (PermitCounter, i64))
        ensures
            r.0.wf(),
            r.1 == 2 * PERMITS_BATCH_SIZE,
            r.0.outstanding() == r.1,
            r.0.total_granted() == r.1,
            r.0.total_handled() == 0,
    {
        let initial = PERMITS_BATCH_SIZE * 2;
        (
            PermitCounter {
                batch: PERMITS_BATCH_SIZE,
                permits: initial,
                granted: Ghost(initial as int),
                handled: Ghost(0),
            },
            initial,
        )
    }

    /// The number of outstanding permits.
    pub fn permits(&self) -> (n: i64)
        ensures
            n == self.outstanding(),
    {
        self.permits
    }

    /// Counts off the permit used by a handled message.  Returns the number of
    /// permits to grant now, if the outstanding permits have fallen to one
    /// batch, and counts them as outstanding again.
    pub fn message_handled(&mut self) -> (grant: Option<i64>)
        requires
            old(self).wf(),
        ensures
            final(self).wf(),
            final(self).total_handled() == old(self).total_handled() + 1,
            grant is Some <==> final(self).total_handled() % 3 == 0,
            old(self).outstanding() - 1 <= PERMITS_BATCH_SIZE ==> grant == Some(
                PERMITS_BATCH_SIZE,
            ),
            old(self).outstanding() - 1 > PERMITS_BATCH_SIZE ==> grant is None,
            final(self).total_granted() == old(self).total_granted() + match grant {
                Some(n) => n as int,
                None => 0,
            },
            final(self).outstanding() == old(self).outstanding() - 1 + match grant {
                Some(n) => n as int,
                None => 0,
            },
    {
        proof {
            let h = self.handled@;
            assert(h / 3 * 3 + h % 3 == h);
            assert((h + 1) % 3 == 0 ==> (h + 1) / 3 == h / 3 + 1 && h % 3 == 2);
            assert((h + 1) % 3 != 0 ==> (h + 1) / 3 == h / 3 && h % 3 != 2);
        }
        self.permits = self.permits - 1;
        self.handled = Ghost(self.handled@ + 1);
        if self.permits <= self.batch {
            self.permits = self.permits + self.batch;
            self.granted = Ghost(self.granted@ + self.batch);
            Some(self.batch)
        } else {
            None
        }
    }
}

/// Handling messages never lets the outstanding permits fall to one batch or
/// rise above two batches, and whatever was granted was either used by a
/// handled message or is still outstanding.
pub proof fn lemma_permits_stay_between_one_and_two_batches(c: PermitCounter)
    requires
        c.wf(),
    ensures
        PERMITS_BATCH_SIZE < c.outstanding() <= 2 * PERMITS_BATCH_SIZE,
        c.total_granted() == c.total_handled() + c.outstanding(),
{
}

/// After `k` handled messages, two batches plus one batch for every third
/// message have been granted, and two batches less `k % 3` permits are
/// outstanding.
pub proof fn lemma_granted_after_handled(c: PermitCounter)
    requires
        c.wf(),
    ensures
        c.total_granted() == 2 * PERMITS_BATCH_SIZE + PERMITS_BATCH_SIZE * (c.total_handled() / 3),
        c.outstanding() == 2 * PERMITS_BATCH_SIZE - c.total_handled() % 3,
{
    assert(c.total_handled() / 3 * 3 + c.total_handled() % 3 == c.total_handled());
}

} // verus!
