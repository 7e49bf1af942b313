use vstd::prelude::*;
use crate::error::BridgeError;

verus! {

/// The lifecycle of one client instance, held under the same lock as the
/// gateway client. Every entry point asks it before touching the
/// client; once closed, it stays closed.
pub struct Lifecycle {
    closed: bool,
}

/// An operation on the shared client, in the order in which the lock served it.
#[derive(Clone, Copy, Debug, PartialEq, Eq, Structural)]
pub enum Op {
    Send,
    Subscribe,
    Close,
}

/// What an entry point may do, given whether the client is closed and whether
/// the caller is a thread that already runs asynchronous work.
pub open spec fn admission(closed: bool, on_worker: bool) -> Result<(), BridgeError> {
    if closed {
        Err(BridgeError::Closed)
    } else if on_worker {
        Err(BridgeError::NestedBlocking)
    } else {
        Ok(())
    }
}

/// One operation served by the lock: the next closed flag and its outcome.
pub open spec fn serve_one(closed: bool, op: Op) -> (bool, Result<(), BridgeError>) {
    match op {
        Op::Close => if closed {
            (true, Err(BridgeError::Closed))
        } else {
            (true, Ok(()))
        },
        _ => (closed, admission(closed, false)),
    }
}

/// The outcomes of a sequence of operations served one at a time from a lifecycle
/// whose closed flag is `closed`.
pub open spec fn serve(closed: bool, ops: Seq<Op>) -> Seq<Result<(), BridgeError>>
    decreases ops.len(),
{
    if ops.len() == 0 {
        Seq::empty()
    } else {
        let (next, r) = serve_one(closed, ops[0]);
        seq![r].add(serve(next, ops.drop_first()))
    }
}

/// Whether a close operation stands among the first `n` operations.
pub open spec fn closed_before(ops: Seq<Op>, n: int) -> bool {
    exists|j: int| 0 <= j < n && ops[j] == Op::Close
}

proof fn lemma_serve_from(closed: bool, ops: Seq<Op>)
    ensures
        serve(closed, ops).len() == ops.len(),
        forall|i: int|
            0 <= i < ops.len() ==> #[trigger] serve(closed, ops)[i] == (if ops[i] == Op::Close {
                if closed || closed_before(ops, i) {
                    Err(BridgeError::Closed)
                } else {
                    Ok::<(), BridgeError>(())
                }
            } else {
                admission(closed || closed_before(ops, i), false)
            }),
    decreases ops.len(),
{
    if ops.len() > 0 {
        let (next, r) = serve_one(closed, ops[0]);
        let rest = ops.drop_first();
        lemma_serve_from(next, rest);
        assert forall|i: int| 1 <= i < ops.len() implies (next || closed_before(rest, i - 1)) == (
        closed || closed_before(ops, i)) by {
            if closed_before(rest, i - 1) {
                let j = choose|j: int| 0 <= j < i - 1 && rest[j] == Op::Close;
                assert(ops[j + 1] == Op::Close);
            }
            if closed_before(ops, i) && !next {
                let j = choose|j: int| 0 <= j < i && ops[j] == Op::Close;
                assert(j != 0);
                assert(rest[j - 1] == Op::Close);
            }
        }
        assert forall|i: int| 0 <= i < ops.len() implies #[trigger] serve(closed, ops)[i] == (if ops[i]
            == Op::Close {
            if closed || closed_before(ops, i) {
                Err(BridgeError::Closed)
            } else {
                Ok::<(), BridgeError>(())
            }
        } else {
            admission(closed || closed_before(ops, i), false)
        }) by {
            if i == 0 {
                assert(!closed_before(ops, 0));
            } else {
                assert(serve(closed, ops)[i] == serve(next, rest)[i - 1]);
                assert(rest[i - 1] == ops[i]);
            }
        }
    }
}

/// Operations that reach the shared client while a close is in flight are
/// served one at a time by its lock, and none is lost: each gets an outcome.
/// A send or subscription succeeds exactly when no close was served before
/// it, and fails with `Closed` otherwise; of several closes only the first
/// succeeds.
pub proof fn lemma_operations_signalled(ops: Seq<Op>)
    ensures
        serve(false, ops).len() == ops.len(),
        forall|i: int|
            0 <= i < ops.len() && ops[i] != Op::Close ==> (#[trigger] serve(false, ops)[i] == if closed_before(ops, i) {
                Err(BridgeError::Closed)
            } else {
                Ok::<(), BridgeError>(())
            }),
        forall|i: int|
            0 <= i < ops.len() && ops[i] == Op::Close ==> ((#[trigger] serve(false, ops)[i]) is Ok
                <==> !closed_before(ops, i)),
{
    lemma_serve_from(false, ops);
}

impl Lifecycle {
    pub closed spec fn is_closed(&self) -> bool {
        self.closed
    }

    /// A lifecycle for a freshly connected client.
    pub fn new() -> (r: Lifecycle)
        ensures
            !r.is_closed(),
    {
        Lifecycle { closed: false }
    }

    /// Whether the client has been closed.
    pub fn closed(&self) -> (r: bool)
        ensures
            r == self.is_closed(),
    {
        self.closed
    }

    /// Decides whether a send, a subscription setup or a close may proceed.
    /// After a close every operation fails with `Closed`; a blocking call from
    /// a runtime worker fails with `NestedBlocking`.
    pub fn check(&self, on_worker: bool) -> (r: Result<(), BridgeError>)
        ensures
            r == admission(self.is_closed(), on_worker),
    {
        if self.closed {
            Err(BridgeError::Closed)
        } else if on_worker {
            Err(BridgeError::NestedBlocking)
        } else {
            Ok(())
        }
    }

    /// Decides a close. The first close succeeds and the caller then closes
    /// the gateway connection; a second close fails with `Closed`. Either way
    /// the client counts as closed afterwards.
    pub fn close(&mut self) -> (r: Result<(), BridgeError>)
        ensures
            final(self).is_closed(),
            r == (if old(self).is_closed() {
                Err(BridgeError::Closed)
            } else {
                Ok::<(), BridgeError>(())
            }),
            (final(self).is_closed(), r) == serve_one(old(self).is_closed(), Op::Close),
    {
        if self.closed {
            Err(BridgeError::Closed)
        } else {
            self.closed = true;
            Ok(())
        }
    }
}

} // verus!
