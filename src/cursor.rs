use vstd::prelude::*;
use crate::error::BridgeError;

verus! {

/// Whether a call of `next` on a cursor may wait for the stream: never once
/// the stream has ended, nor from a runtime worker, where blocking would
/// deadlock. A cursor does not own the client: a close reaches it as the end
/// of its stream, after whatever items the stream still yields.
pub open spec fn may_fetch(ended: bool, on_worker: bool) -> Result<(), BridgeError> {
    if ended {
        Err(BridgeError::EndOfStream)
    } else if on_worker {
        Err(BridgeError::NestedBlocking)
    } else {
        Ok(())
    }
}

/// What a call of `next` returns once the stream has answered (`None`: the
/// stream is over, whether the gateway ended it or a close cut it), and
/// whether the cursor has ended afterwards.
pub open spec fn on_fetched_spec<T>(fetched: Option<T>) -> (bool, Result<T, BridgeError>) {
    match fetched {
        Some(x) => (false, Ok(x)),
        None => (true, Err(BridgeError::EndOfStream)),
    }
}

/// The results of `calls` calls of `next` from the main thread on a cursor
/// whose stream still holds `xs` and then ends, by the gateway or by a close.
pub open spec fn pull_run<T>(ended: bool, xs: Seq<T>, calls: nat) -> Seq<Result<T, BridgeError>>
    decreases calls,
{
    if calls == 0 {
        Seq::empty()
    } else {
        match may_fetch(ended, false) {
            Err(e) => seq![Err(e)].add(pull_run(ended, xs, (calls - 1) as nat)),
            Ok(_) => if xs.len() > 0 {
                let (e, r) = on_fetched_spec(Some(xs[0]));
                seq![r].add(pull_run(e, xs.drop_first(), (calls - 1) as nat))
            } else {
                let (e, r) = on_fetched_spec(None::<T>);
                seq![r].add(pull_run(e, xs, (calls - 1) as nat))
            },
        }
    }
}

proof fn lemma_pull_after_end<T>(xs: Seq<T>, calls: nat)
    ensures
        pull_run(true, xs, calls).len() == calls,
        forall|k: int| 0 <= k < calls ==> #[trigger] pull_run(true, xs, calls)[k] == Err::<T, BridgeError>(BridgeError::EndOfStream),
    decreases calls,
{
    if calls > 0 {
        lemma_pull_after_end(xs, (calls - 1) as nat);
        assert forall|k: int| 0 <= k < calls implies #[trigger] pull_run(true, xs, calls)[k] == Err::<T, BridgeError>(BridgeError::EndOfStream) by {
            if k > 0 {
                assert(pull_run(true, xs, calls)[k] == pull_run(true, xs, (calls - 1) as nat)[k - 1]);
            }
        }
    }
}

/// A cursor whose stream carries `xs` and then ends returns, call after call,
/// each item of `xs` in order; every later call returns `EndOfStream`. This
/// holds as well when a close ended the stream: the items it still held are
/// returned, then `EndOfStream`, never `Closed`.
pub proof fn lemma_pull_in_order<T>(xs: Seq<T>, extra: nat)
    ensures
        pull_run(false, xs, xs.len() + 1 + extra).len() == xs.len() + 1 + extra,
        forall|k: int| 0 <= k < xs.len() ==> #[trigger] pull_run(false, xs, xs.len() + 1 + extra)[k] == Ok::<T, BridgeError>(xs[k]),
        forall|k: int|
            xs.len() <= k < xs.len() + 1 + extra ==> #[trigger] pull_run(false, xs, xs.len() + 1 + extra)[k]
                == Err::<T, BridgeError>(BridgeError::EndOfStream),
    decreases xs.len(),
{
    let n = xs.len() + 1 + extra;
    if xs.len() == 0 {
        lemma_pull_after_end(xs, (n - 1) as nat);
        assert forall|k: int| 0 <= k < n implies #[trigger] pull_run(false, xs, n)[k] == Err::<T, BridgeError>(BridgeError::EndOfStream) by {
            if k > 0 {
                assert(pull_run(false, xs, n)[k] == pull_run(true, xs, (n - 1) as nat)[k - 1]);
            }
        }
    } else {
        let rest = xs.drop_first();
        lemma_pull_in_order(rest, extra);
        assert((n - 1) as nat == rest.len() + 1 + extra);
        assert forall|k: int| 1 <= k < n implies #[trigger] pull_run(false, xs, n)[k] == pull_run(false, rest, (n - 1) as nat)[k - 1] by {}
        assert forall|k: int| 0 <= k < xs.len() implies #[trigger] pull_run(false, xs, n)[k] == Ok::<T, BridgeError>(xs[k]) by {
            if k > 0 {
                assert(pull_run(false, xs, n)[k] == pull_run(false, rest, (n - 1) as nat)[k - 1]);
                assert(rest[k - 1] == xs[k]);
            }
        }
        assert forall|k: int| xs.len() <= k < n implies #[trigger] pull_run(false, xs, n)[k] == Err::<T, BridgeError>(BridgeError::EndOfStream) by {
            assert(pull_run(false, xs, n)[k] == pull_run(false, rest, (n - 1) as nat)[k - 1]);
        }
    }
}

/// The state of a pull cursor: whether its stream has ended cleanly.
pub struct Cursor {
    ended: bool,
}

impl Cursor {
    pub closed spec fn is_ended(&self) -> bool {
        self.ended
    }

    /// A cursor over a subscription that was just set up.
    pub fn new() -> (r: Cursor)
        ensures
            !r.is_ended(),
    {
        Cursor { ended: false }
    }

    /// Whether the stream has ended cleanly.
    pub fn ended(&self) -> (r: bool)
        ensures
            r == self.is_ended(),
    {
        self.ended
    }

    /// Decides whether a call of `next` waits for the stream. On `Err` the
    /// call returns that error at once.
    pub fn prepare(&self, on_worker: bool) -> (r: Result<(), BridgeError>)
        ensures
            r == may_fetch(self.is_ended(), on_worker),
    {
        if self.ended {
            Err(BridgeError::EndOfStream)
        } else if on_worker {
            Err(BridgeError::NestedBlocking)
        } else {
            Ok(())
        }
    }

    /// Turns what the stream answered into the result of `next`.
    pub fn on_fetched<T>(&mut self, fetched: Option<T>) -> (r: Result<T, BridgeError>)
        requires
            !old(self).is_ended(),
        ensures
            (final(self).is_ended(), r) == on_fetched_spec(fetched),
    {
        match fetched {
            Some(x) => Ok(x),
            None => {
                self.ended = true;
                Err(BridgeError::EndOfStream)
            },
        }
    }
}

} // verus!
