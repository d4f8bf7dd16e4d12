//! The queue of bytes from the keyboard: a ring buffer that keeps one slot
//! free to tell full from empty.

use vstd::prelude::*;

verus! {

pub const INPUT_BUF_SIZE: usize = 1024;

pub const KEY_F1: u8 = 0xF1;
pub const KEY_F2: u8 = 0xF2;
pub const KEY_F3: u8 = 0xF3;
pub const KEY_ESC: u8 = 0x1B;

/// A ring buffer of `INPUT_BUF_SIZE` slots; it holds at most one byte less.
pub struct InputQueue {
    buf: Vec<u8>,
    head: usize,
    tail: usize,
}

impl InputQueue {
    pub closed spec fn wf(&self) -> bool {
        &&& self.buf@.len() == INPUT_BUF_SIZE
        &&& self.head < INPUT_BUF_SIZE
        &&& self.tail < INPUT_BUF_SIZE
    }

    /// How many bytes wait.
    pub closed spec fn count(&self) -> int {
        (self.head - self.tail + INPUT_BUF_SIZE) % (INPUT_BUF_SIZE as int)
    }

    /// The waiting bytes, oldest first.
    pub closed spec fn view(&self) -> Seq<u8> {
        Seq::new(
            self.count() as nat,
            |i: int| self.buf@[(self.tail + i) % (INPUT_BUF_SIZE as int)],
        )
    }

    /// An empty queue.
    pub fn new() -> (r: Self)
        ensures
            r.wf(),
            r.view() == Seq::<u8>::empty(),
    {
        let buf = vec![0u8; INPUT_BUF_SIZE];
        let r = InputQueue { buf, head: 0, tail: 0 };
        assert(r.view() =~= Seq::<u8>::empty());
        r
    }

    /// Adds a byte at the back; false, and nothing changed, when the queue
    /// is full.
    #[verifier::rlimit(40)]
    pub fn enqueue(&mut self, byte: u8) -> (r: bool)
        requires
            old(self).wf(),
        ensures
            final(self).wf(),
            r == (old(self).view().len() < INPUT_BUF_SIZE - 1),
            r ==> final(self).view() == old(self).view().push(byte),
            !r ==> final(self).view() == old(self).view(),
    {
        let head = self.head;
        let tail = self.tail;
        let next = (head + 1) % INPUT_BUF_SIZE;
        if next == tail {
            return false;
        }
        let ghost before = self.view();
        self.buf.set(head, byte);
        self.head = next;
        assert(self.view() =~= before.push(byte)) by {
            assert forall|i: int| 0 <= i < before.len() implies #[trigger] self.view()[i] == before[i] by {
                assert((self.tail + i) % (INPUT_BUF_SIZE as int) != head as int);
            }
            assert(self.view()[before.len() as int] == byte) by {
                assert((self.tail + before.len()) % (INPUT_BUF_SIZE as int) == head as int);
            }
        }
        true
    }

    /// Takes the byte at the front, if any.
    pub fn dequeue(&mut self) -> (r: Option<u8>)
        requires
            old(self).wf(),
        ensures
            final(self).wf(),
            old(self).view().len() == 0 ==> r is None && final(self).view() == old(self).view(),
            old(self).view().len() > 0 ==> r == Some(old(self).view()[0]) && final(self).view()
                == old(self).view().drop_first(),
    {
        let tail = self.tail;
        let head = self.head;
        if tail == head {
            return None;
        }
        let ghost before = self.view();
        let byte = self.buf[tail];
        let next = (tail + 1) % INPUT_BUF_SIZE;
        self.tail = next;
        assert(self.view() =~= before.drop_first()) by {
            assert forall|i: int| 0 <= i < before.len() - 1 implies #[trigger] self.view()[i] == before[i + 1] by {
                assert((next + i) % (INPUT_BUF_SIZE as int) == (tail + (i + 1)) % (INPUT_BUF_SIZE as int));
            }
        }
        Some(byte)
    }
}

/// The queue is first in, first out. With `waiting` the queue's bytes
/// (its view), enqueueing `byte` and then dequeueing gives the oldest
/// waiting byte and keeps `byte` last; on an empty queue it gives `byte`
/// back and leaves the queue empty.
pub proof fn lemma_fifo(waiting: Seq<u8>, byte: u8)
    ensures
        waiting.len() > 0 ==> waiting.push(byte)[0] == waiting[0] && waiting.push(byte).drop_first()
            == waiting.drop_first().push(byte),
        waiting.len() == 0 ==> waiting.push(byte)[0] == byte && waiting.push(byte).drop_first() == waiting,
{
    assert(waiting.len() > 0 ==> waiting.push(byte).drop_first() =~= waiting.drop_first().push(byte));
    assert(waiting.len() == 0 ==> waiting.push(byte).drop_first() =~= waiting);
}

/// One call on the queue, for stating what a run of calls does.
pub enum QueueOp {
    /// `enqueue` of a byte.
    Put(u8),
    /// `dequeue`.
    Take,
}

/// A run of calls from the waiting bytes `q`, as `enqueue` and `dequeue`
/// state them over the view: the bytes still waiting at the end, the bytes
/// the queue accepted, and the bytes taken out, each in order.
pub open spec fn run(q: Seq<u8>, ops: Seq<QueueOp>) -> (Seq<u8>, Seq<u8>, Seq<u8>)
    decreases ops.len(),
{
    if ops.len() == 0 {
        (q, Seq::empty(), Seq::empty())
    } else {
        let rest = ops.drop_first();
        match ops[0] {
            QueueOp::Put(b) => if q.len() < INPUT_BUF_SIZE - 1 {
                let r = run(q.push(b), rest);
                (r.0, seq![b] + r.1, r.2)
            } else {
                run(q, rest)
            },
            QueueOp::Take => if q.len() > 0 {
                let r = run(q.drop_first(), rest);
                (r.0, r.1, seq![q[0]] + r.2)
            } else {
                run(q, rest)
            },
        }
    }
}

/// First in, first out over any run of calls: the bytes taken out, then
/// those still waiting, are the bytes that were waiting followed by the
/// bytes accepted, in the order they were accepted. A read that waits
/// (trying `dequeue` until a byte comes) thus gets the oldest byte that
/// was waiting, or, on an empty queue, the first byte accepted after it
/// began.
pub proof fn lemma_fifo_run(q: Seq<u8>, ops: Seq<QueueOp>)
    ensures
        run(q, ops).2 + run(q, ops).0 == q + run(q, ops).1,
    decreases ops.len(),
{
    if ops.len() > 0 {
        let rest = ops.drop_first();
        match ops[0] {
            QueueOp::Put(b) => {
                if q.len() < INPUT_BUF_SIZE - 1 {
                    lemma_fifo_run(q.push(b), rest);
                    let r = run(q.push(b), rest);
                    assert(q + (seq![b] + r.1) =~= q.push(b) + r.1);
                } else {
                    lemma_fifo_run(q, rest);
                }
            },
            QueueOp::Take => {
                if q.len() > 0 {
                    lemma_fifo_run(q.drop_first(), rest);
                    let r = run(q.drop_first(), rest);
                    assert((seq![q[0]] + r.2) + r.0 =~= seq![q[0]] + (r.2 + r.0));
                    assert(seq![q[0]] + (q.drop_first() + r.1) =~= q + r.1);
                } else {
                    lemma_fifo_run(q, rest);
                }
            },
        }
    }
}

/// One more call after a run, as `run` takes it: the bytes waiting, the
/// bytes accepted and the bytes taken out, each updated.
pub open spec fn run_step(r: (Seq<u8>, Seq<u8>, Seq<u8>), op: QueueOp) -> (Seq<u8>, Seq<u8>, Seq<u8>) {
    match op {
        QueueOp::Put(b) => if r.0.len() < INPUT_BUF_SIZE - 1 {
            (r.0.push(b), r.1.push(b), r.2)
        } else {
            r
        },
        QueueOp::Take => if r.0.len() > 0 {
            (r.0.drop_first(), r.1, r.2.push(r.0[0]))
        } else {
            r
        },
    }
}

/// A run with one more call at its end is the run followed by that call.
pub proof fn lemma_run_push(q: Seq<u8>, ops: Seq<QueueOp>, op: QueueOp)
    ensures
        run(q, ops.push(op)) == run_step(run(q, ops), op),
    decreases ops.len(),
{
    let all = ops.push(op);
    let e = Seq::<u8>::empty();
    if ops.len() == 0 {
        assert(all.drop_first() =~= Seq::<QueueOp>::empty());
        assert(all[0] == op);
        assert(run(q, ops) == (q, e, e));
        match op {
            QueueOp::Put(b) => {
                if q.len() < INPUT_BUF_SIZE - 1 {
                    assert(run(q.push(b), all.drop_first()) == (q.push(b), e, e));
                    assert(seq![b] + e =~= e.push(b));
                } else {
                    assert(run(q, all.drop_first()) == (q, e, e));
                }
            },
            QueueOp::Take => {
                if q.len() > 0 {
                    assert(run(q.drop_first(), all.drop_first()) == (q.drop_first(), e, e));
                    assert(seq![q[0]] + e =~= e.push(q[0]));
                } else {
                    assert(run(q, all.drop_first()) == (q, e, e));
                }
            },
        }
    } else {
        let rest = ops.drop_first();
        assert(all[0] == ops[0]);
        assert(all.drop_first() =~= rest.push(op));
        match ops[0] {
            QueueOp::Put(b) => {
                if q.len() < INPUT_BUF_SIZE - 1 {
                    lemma_run_push(q.push(b), rest, op);
                    let r = run(q.push(b), rest);
                    let r2 = run(q.push(b), rest.push(op));
                    assert(run(q, ops) == (r.0, seq![b] + r.1, r.2));
                    assert(run(q, all) == (r2.0, seq![b] + r2.1, r2.2));
                    match op {
                        QueueOp::Put(c) => {
                            assert((seq![b] + r.1).push(c) =~= seq![b] + r.1.push(c));
                        },
                        QueueOp::Take => {},
                    }
                } else {
                    lemma_run_push(q, rest, op);
                    assert(run(q, ops) == run(q, rest));
                    assert(run(q, all) == run(q, rest.push(op)));
                }
            },
            QueueOp::Take => {
                if q.len() > 0 {
                    lemma_run_push(q.drop_first(), rest, op);
                    let r = run(q.drop_first(), rest);
                    let r2 = run(q.drop_first(), rest.push(op));
                    assert(run(q, ops) == (r.0, r.1, seq![q[0]] + r.2));
                    assert(run(q, all) == (r2.0, r2.1, seq![q[0]] + r2.2));
                    match op {
                        QueueOp::Take => {
                            if r.0.len() > 0 {
                                assert((seq![q[0]] + r.2).push(r.0[0]) =~= seq![q[0]] + r.2.push(r.0[0]));
                            }
                        },
                        QueueOp::Put(c) => {},
                    }
                } else {
                    lemma_run_push(q, rest, op);
                    assert(run(q, ops) == run(q, rest));
                    assert(run(q, all) == run(q, rest.push(op)));
                }
            },
        }
    }
}

/// A read that waits for a byte: the reader is the only one to take bytes,
/// each of its tries failed while it waited (`ops`: keys that arrived, and
/// failed tries), and it tries once more when a byte waits. That try gets
/// the oldest of the bytes that were waiting when the read began and those
/// accepted since: the first waiting byte, or on an empty queue the first
/// byte accepted; the queue then holds the rest, in order.
pub proof fn lemma_wait_for_byte(q: Seq<u8>, ops: Seq<QueueOp>)
    requires
        run(q, ops).2.len() == 0,
        run(q, ops).0.len() > 0,
    ensures
        ({
            let before = run(q, ops);
            let after = run(q, ops.push(QueueOp::Take));
            &&& after.2 == seq![(q + before.1)[0]]
            &&& after.0 == (q + before.1).drop_first()
            &&& q.len() > 0 ==> after.2[0] == q[0]
            &&& q.len() == 0 ==> after.2[0] == before.1[0]
        }),
{
    lemma_fifo_run(q, ops);
    lemma_run_push(q, ops, QueueOp::Take);
    let before = run(q, ops);
    assert(Seq::<u8>::empty() + before.0 =~= before.0);
    assert(before.0 == q + before.1);
    assert(Seq::<u8>::empty().push(before.0[0]) =~= seq![before.0[0]]);
}

} // verus!
