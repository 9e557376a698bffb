use crate::entity::copy_bytes;
use vstd::prelude::*;

verus! {

/// The in-memory model of one durable outbound queue together with a
/// read cursor over it.  A record counts as handled only once the
/// cursor has advanced past it; everything at or after the cursor is
/// still owed to the consumer.
pub struct OutQueue {
    pub records: Vec<Vec<u8>>,
    pub cursor: usize,
}

impl OutQueue {
    /// The serialized records, in production order.
    pub open spec fn recs(self) -> Seq<Seq<u8>> {
        self.records@.map_values(|v: Vec<u8>| v@)
    }

    pub open spec fn wf(self) -> bool {
        self.cursor <= self.records@.len()
    }

    pub fn new() -> (r: OutQueue)
        ensures
            r.recs() == Seq::<Seq<u8>>::empty(),
            r.cursor == 0,
            r.wf(),
    {
        let r = OutQueue { records: Vec::new(), cursor: 0 };
        proof {
            assert(r.recs() =~= Seq::<Seq<u8>>::empty());
        }
        r
    }

    /// Appends one serialized record.
    pub fn push(&mut self, rec: &[u8])
        ensures
            final(self).recs() == old(self).recs().push(rec@),
            final(self).cursor == old(self).cursor,
            old(self).wf() ==> final(self).wf(),
    {
        self.records.push(copy_bytes(rec));
        proof {
            assert(final(self).recs() =~= old(self).recs().push(rec@));
        }
    }

    /// How many records the cursor has not yet passed.
    pub fn pending(&self) -> (r: usize)
        requires
            self.wf(),
        ensures
            r == self.recs().len() - self.cursor,
    {
        self.records.len() - self.cursor
    }

    /// The record under the cursor, if one is pending.
    pub fn peek(&self) -> (r: Option<&Vec<u8>>)
        requires
            self.wf(),
        ensures
            match r {
                Some(v) => self.cursor < self.recs().len() && v@ == self.recs()[
                    self.cursor as int
                ],
                None => self.cursor == self.recs().len(),
            },
    {
        if self.cursor < self.records.len() {
            Some(&self.records[self.cursor])
        } else {
            None
        }
    }

    /// Advances the cursor past the record just handled.
    pub fn commit(&mut self)
        requires
            old(self).wf(),
            old(self).cursor < old(self).recs().len(),
        ensures
            final(self).recs() == old(self).recs(),
            final(self).cursor == old(self).cursor + 1,
            final(self).wf(),
    {
        let n = self.records.len();
        assert(self.cursor < n);
        self.cursor = self.cursor + 1;
    }
}

/// The undelivered batch size the engine trusts for one tick, from the
/// queue's produced/consumed counters and the segment identifiers.  A
/// queue that has rolled into a new segment since last observed forces
/// a batch of one, so that segment metadata is re-synchronized before
/// the counters are trusted again.
pub open spec fn spec_batch_size(
    count_pushed: u32,
    count_popped: u32,
    consumer_part: u32,
    queue_part: u32,
) -> u32 {
    if count_pushed == count_popped {
        if queue_part > consumer_part {
            1u32
        } else {
            0u32
        }
    } else {
        if queue_part != consumer_part {
            1u32
        } else {
            (count_pushed - count_popped) as u32
        }
    }
}

pub fn compute_batch_size(
    count_pushed: u32,
    count_popped: u32,
    consumer_part: u32,
    queue_part: u32,
) -> (r: u32)
    requires
        count_popped <= count_pushed,
    ensures
        r == spec_batch_size(count_pushed, count_popped, consumer_part, queue_part),
{
    let delta = count_pushed - count_popped;
    if delta == 0 {
        if queue_part > consumer_part {
            1
        } else {
            0
        }
    } else {
        if queue_part != consumer_part {
            1
        } else {
            delta
        }
    }
}

} // verus!

