//! Ordered delivery: values produced concurrently leave in the order in
//! which their permits were admitted, whatever order they complete in.
//!
//! A [`WrapSender`] hands out numbered permits. A value sent with a permit
//! is held until every permit admitted before it has sent; then it is
//! released together with every later value that was waiting on it. The
//! driver forwards what `send` releases to the consumer's channel.

use vstd::prelude::*;

verus! {

/// The consumer has gone: no more permits are admitted.
#[derive(Debug, Copy, Clone, PartialEq, Eq, Structural)]
pub struct SendError;

/// A reserved place in an ordered stream.
#[derive(Debug)]
pub struct OrderPermit {
    seq: usize,
}

/// The ordering state of one output stream.
pub struct WrapSender<T> {
    /// Permits admitted so far; the next permit gets this number.
    admitted: usize,
    /// Values released so far; the next value out is this permit's.
    cursor: usize,
    /// Slot `i` holds the value sent with permit `cursor + i`, if any.
    pending: Vec<Option<T>>,
    /// The consumer is gone.
    closed: bool,
    /// Every value sent, by permit number.
    sent: Ghost<Map<int, T>>,
    /// Every value released, in release order.
    delivered: Ghost<Seq<T>>,
}

/// The ordering guarantee, over the number of permits admitted, the values
/// sent by permit number, and the values released in release order: the
/// values out are those of permits `0, 1, 2, ...` in turn, only admitted
/// permits have sent, and the stream stops only at a permit that has not
/// sent yet.
pub open spec fn in_order<T>(admitted: int, sent: Map<int, T>, delivered: Seq<T>) -> bool {
    &&& delivered.len() <= admitted
    &&& forall|i: int| 0 <= i < delivered.len() ==> #[trigger] sent.contains_key(i)
    &&& forall|i: int| 0 <= i < delivered.len() ==> #[trigger] delivered[i] == sent[i]
    &&& forall|i: int| #[trigger] sent.contains_key(i) ==> 0 <= i < admitted
    &&& delivered.len() < admitted ==> !sent.contains_key(delivered.len() as int)
}

/// Slot `i` of `pending` holds exactly the value sent with permit
/// `cursor + i`, if that permit has sent.
spec fn slots_match<T>(pending: Seq<Option<T>>, cursor: int, sent: Map<int, T>) -> bool {
    forall|i: int| #![trigger pending[i]]
        0 <= i < pending.len() ==> (pending[i] is Some <==> sent.contains_key(cursor + i)) && (
        pending[i] is Some ==> pending[i]->0 == sent[cursor + i])
}

/// Every released value is the one sent with the permit of its place.
spec fn prefix_sent<T>(delivered: Seq<T>, sent: Map<int, T>) -> bool {
    &&& forall|i: int| 0 <= i < delivered.len() ==> #[trigger] sent.contains_key(i)
    &&& forall|i: int| 0 <= i < delivered.len() ==> #[trigger] delivered[i] == sent[i]
}

proof fn lemma_prefix_insert<T>(delivered: Seq<T>, sent: Map<int, T>, k: int, v: T)
    requires
        prefix_sent(delivered, sent),
        k >= delivered.len(),
    ensures
        prefix_sent(delivered, sent.insert(k, v)),
{
    assert forall|i: int| 0 <= i < delivered.len() implies #[trigger] sent.insert(
        k,
        v,
    ).contains_key(i) by {
        assert(sent.contains_key(i));
    }
    assert forall|i: int| 0 <= i < delivered.len() implies #[trigger] delivered[i] == sent.insert(
        k,
        v,
    )[i] by {
        assert(sent.contains_key(i));
        assert(i != k);
    }
}

proof fn lemma_prefix_push<T>(delivered: Seq<T>, sent: Map<int, T>, v: T)
    requires
        prefix_sent(delivered, sent),
        sent.contains_key(delivered.len() as int),
        sent[delivered.len() as int] == v,
    ensures
        prefix_sent(delivered.push(v), sent),
{
    assert forall|i: int| 0 <= i < delivered.push(v).len() implies #[trigger] delivered.push(v)[i]
        == sent[i] by {
        if i < delivered.len() {
            assert(delivered.push(v)[i] == delivered[i]);
        }
    }
}

impl OrderPermit {
    pub closed spec fn spec_seq(self) -> int {
        self.seq as int
    }

    /// The permit's place in the stream.
    pub fn seq(&self) -> (r: usize)
        ensures
            r == self.spec_seq(),
    {
        self.seq
    }
}

impl<T> WrapSender<T> {
    /// Number of permits admitted.
    pub closed spec fn admitted(self) -> int {
        self.admitted as int
    }

    /// The values sent so far, by permit number.
    pub closed spec fn sent(self) -> Map<int, T> {
        self.sent@
    }

    /// The values released so far, in the order they were released.
    pub closed spec fn delivered(self) -> Seq<T> {
        self.delivered@
    }

    /// Whether the consumer is gone.
    pub closed spec fn is_closed(self) -> bool {
        self.closed
    }

    /// The ordering guarantee holds of this sender (see [`in_order`]).
    pub open spec fn in_order(self) -> bool {
        in_order(self.admitted(), self.sent(), self.delivered())
    }

    /// Whether permit `seq` has been admitted and has not sent yet.
    pub open spec fn outstanding(self, seq: int) -> bool {
        0 <= seq < self.admitted() && !self.sent().contains_key(seq)
    }

    pub closed spec fn wf(self) -> bool {
        &&& self.cursor <= self.admitted
        &&& self.pending@.len() == self.admitted - self.cursor
        &&& self.delivered@.len() == self.cursor
        &&& slots_match(self.pending@, self.cursor as int, self.sent@)
        &&& self.in_order()
    }

    /// Once every admitted permit has sent, whatever order the sends came
    /// in, the consumer has received every value, and the value in place
    /// `i` is the one sent with permit `i`.
    pub proof fn lemma_all_sent_delivered_in_order(self)
        requires
            self.wf(),
            forall|i: int| 0 <= i < self.admitted() ==> #[trigger] self.sent().contains_key(i),
        ensures
            self.delivered().len() == self.admitted(),
            forall|i: int|
                0 <= i < self.admitted() ==> #[trigger] self.delivered()[i] == self.sent()[i],
    {
        if self.delivered().len() < self.admitted() {
            assert(self.sent().contains_key(self.delivered().len() as int));
        }
    }

    /// A sender with no permits, for a consumer that is listening.
    pub fn wrap() -> (r: Self)
        ensures
            r.wf(),
            r.admitted() == 0,
            r.sent() == Map::<int, T>::empty(),
            r.delivered() == Seq::<T>::empty(),
            !r.is_closed(),
    {
        WrapSender {
            admitted: 0,
            cursor: 0,
            pending: Vec::new(),
            closed: false,
            sent: Ghost(Map::empty()),
            delivered: Ghost(Seq::empty()),
        }
    }

    /// The number the next permit will get.
    pub fn next_seq(&self) -> (r: usize)
        requires
            self.wf(),
        ensures
            r == self.admitted(),
    {
        self.admitted
    }

    /// Whether the consumer is gone.
    pub fn closed(&self) -> (r: bool)
        ensures
            r == self.is_closed(),
    {
        self.closed
    }

    /// Whether permit `seq` has been admitted and has not sent yet.
    pub fn is_outstanding(&self, seq: usize) -> (r: bool)
        requires
            self.wf(),
        ensures
            r == self.outstanding(seq as int),
    {
        proof {
            if seq < self.cursor {
                assert(self.delivered@[seq as int] == self.sent@[seq as int]);
            } else if seq < self.admitted {
                assert(self.pending@[seq - self.cursor] is Some <==> self.sent@.contains_key(
                    seq as int,
                ));
            }
        }
        if seq >= self.admitted || seq < self.cursor {
            false
        } else {
            self.pending[seq - self.cursor].is_none()
        }
    }

    /// Records that the consumer is gone. Permits are refused from now on
    /// and values sent later are dropped.
    pub fn close(&mut self)
        requires
            old(self).wf(),
        ensures
            final(self).wf(),
            final(self).is_closed(),
            final(self).admitted() == old(self).admitted(),
            final(self).sent() == old(self).sent(),
            final(self).delivered() == old(self).delivered(),
    {
        self.closed = true;
    }

    /// Admits the next permit, or fails when the consumer is gone.
    pub fn permit_owned(&mut self) -> (r: Result<OrderPermit, SendError>)
        requires
            old(self).wf(),
            old(self).admitted() < usize::MAX,
        ensures
            final(self).wf(),
            final(self).is_closed() == old(self).is_closed(),
            final(self).sent() == old(self).sent(),
            final(self).delivered() == old(self).delivered(),
            old(self).is_closed() ==> r is Err && final(self).admitted() == old(self).admitted(),
            !old(self).is_closed() ==> r is Ok && r->Ok_0.spec_seq() == old(self).admitted()
                && final(self).admitted() == old(self).admitted() + 1,
    {
        if self.closed {
            return Err(SendError);
        }
        let seq = self.admitted;
        let ghost before = *self;
        self.pending.push(None);
        self.admitted = self.admitted + 1;
        proof {
            assert forall|i: int| #![trigger self.pending@[i]]
                0 <= i < self.pending@.len() implies (self.pending@[i] is Some
                <==> self.sent@.contains_key(self.cursor + i)) && (self.pending@[i] is Some
                ==> self.pending@[i]->0 == self.sent@[self.cursor + i]) by {
                if i < before.pending@.len() {
                    assert(self.pending@[i] == before.pending@[i]);
                } else {
                    assert(!self.sent@.contains_key(before.admitted as int));
                }
            }
            assert(!self.sent@.contains_key(before.admitted as int));
        }
        Ok(OrderPermit { seq })
    }
}

impl OrderPermit {
    /// Sends `val` in this permit's place. Returns the values released to
    /// the consumer, in order: empty unless this permit's turn had come,
    /// else its own value followed by every directly following value that
    /// was already waiting. After the consumer has gone, nothing changes
    /// and the value is dropped.
    pub fn send<T>(self, sender: &mut WrapSender<T>, val: T) -> (out: Vec<T>)
        requires
            old(sender).wf(),
            old(sender).outstanding(self.spec_seq()),
        ensures
            final(sender).wf(),
            final(sender).admitted() == old(sender).admitted(),
            final(sender).is_closed() == old(sender).is_closed(),
            old(sender).is_closed() ==> out@.len() == 0 && final(sender).sent() == old(sender).sent()
                && final(sender).delivered() == old(sender).delivered(),
            !old(sender).is_closed() ==> {
                &&& final(sender).sent() == old(sender).sent().insert(self.spec_seq(), val)
                &&& final(sender).delivered() == old(sender).delivered() + out@
                &&& (out@.len() > 0 <==> self.spec_seq() == old(sender).delivered().len())
            },
            final(sender).in_order(),
    {
        if sender.closed {
            return Vec::new();
        }
        let ghost old_sender = *sender;
        proof {
            if (self.seq as int) < sender.cursor {
                assert(old_sender.delivered@[self.seq as int] == old_sender.sent@[self.seq as int]);
            }
            assert(self.seq >= sender.cursor);
        }
        let idx = self.seq - sender.cursor;
        sender.pending.set(idx, Some(val));
        proof {
            sender.sent@ = sender.sent@.insert(self.seq as int, val);
        }
        assert(sender.sent@ == old_sender.sent@.insert(self.seq as int, val));
        proof {
            assert forall|i: int| #![trigger sender.pending@[i]]
                0 <= i < sender.pending@.len() implies (sender.pending@[i] is Some
                <==> sender.sent@.contains_key(sender.cursor + i)) && (sender.pending@[i] is Some
                ==> sender.pending@[i]->0 == sender.sent@[sender.cursor + i]) by {
                if i != idx {
                    assert(sender.pending@[i] == old_sender.pending@[i]);
                }
            }
            assert(prefix_sent(old_sender.delivered@, old_sender.sent@));
            lemma_prefix_insert(old_sender.delivered@, old_sender.sent@, self.seq as int, val);
        }
        let mut out: Vec<T> = Vec::new();
        while sender.pending.len() > 0 && sender.pending[0].is_some()
            invariant
                old_sender.wf(),
                old_sender.outstanding(self.seq as int),
                sender.admitted == old_sender.admitted,
                sender.closed == old_sender.closed,
                old_sender.cursor <= sender.cursor <= sender.admitted,
                sender.pending@.len() == sender.admitted - sender.cursor,
                sender.delivered@.len() == sender.cursor,
                out@.len() == sender.cursor - old_sender.cursor,
                sender.cursor > old_sender.cursor ==> self.seq == old_sender.cursor,
                sender.sent@ == old_sender.sent@.insert(self.seq as int, val),
                sender.delivered@ == old_sender.delivered@ + out@,
                slots_match(sender.pending@, sender.cursor as int, sender.sent@),
                prefix_sent(sender.delivered@, sender.sent@),
            decreases sender.pending@.len(),
        {
            let ghost before = sender.pending@;
            let ghost before_delivered = sender.delivered@;
            let ghost c = sender.cursor as int;
            let slot = sender.pending.remove(0);
            if let Some(v) = slot {
                proof {
                    assert(before[0] is Some);
                    assert(v == sender.sent@[c]);
                    assert(c == old_sender.cursor ==> sender.sent@.contains_key(c) && !old_sender.sent@.contains_key(c));
                    lemma_prefix_push(sender.delivered@, sender.sent@, v);
                    sender.delivered@ = sender.delivered@.push(v);
                }
                out.push(v);
                sender.cursor = sender.cursor + 1;
                proof {
                    assert(sender.delivered@ =~= old_sender.delivered@ + out@);
                    assert forall|i: int| #![trigger sender.pending@[i]]
                        0 <= i < sender.pending@.len() implies (sender.pending@[i] is Some
                        <==> sender.sent@.contains_key(sender.cursor + i)) && (sender.pending@[i] is Some
                        ==> sender.pending@[i]->0 == sender.sent@[sender.cursor + i]) by {
                        assert(sender.pending@[i] == before[i + 1]);
                    }
                }
            }
        }
        proof {
            assert forall|i: int| #[trigger] sender.sent@.contains_key(i) implies 0 <= i
                < sender.admitted by {
                if i != self.seq {
                    assert(old_sender.sent@.contains_key(i));
                }
            }
            if sender.cursor < sender.admitted {
                assert(sender.pending@[0] is None);
            }
            if self.seq == old_sender.cursor && sender.cursor == old_sender.cursor {
                assert(sender.pending@[0] is Some);
            }
        }
        out
    }
}

} // verus!
