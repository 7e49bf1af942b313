use vstd::prelude::*;

verus! {

/// Why a callback pump stopped.
#[derive(Clone, Copy, Debug, PartialEq, Eq, Structural)]
pub enum StopReason {
    /// The gateway ended the subscription's stream.
    StreamEnded,
    /// The client was closed.
    ClientClosed,
    /// The host callback failed on an item.
    CallbackFailed,
}

/// Where a callback pump stands.
#[derive(Clone, Copy, Debug, PartialEq, Eq, Structural)]
pub enum PumpState {
    /// Waiting for the next stream item; the host lock is not held.
    Awaiting,
    /// The host callback is running on one item.
    Delivering,
    /// Finished; the callback is never invoked again.
    Stopped(StopReason),
}

/// What the pump task observed: the stream's next item (`None` at its end),
/// or whether the callback invocation succeeded.
pub enum PumpInput<T> {
    Stream(Option<T>),
    Callback(bool),
}

/// What the pump task does after a stream event.
#[derive(Debug)]
pub enum PumpAction<T> {
    /// Take the host lock, invoke the callback with this item, release the lock.
    Invoke(T),
    /// End the task and drop the callback.
    Stop(StopReason),
}

/// One step of a pump in state `s`, given an input and whether the client was
/// closed when it came: the next state and the item handed to the callback, if any.
pub open spec fn pump_step<T>(s: PumpState, input: PumpInput<T>, closed: bool) -> (PumpState, Option<T>) {
    match s {
        PumpState::Stopped(_) => (s, None),
        _ => if closed {
            (PumpState::Stopped(StopReason::ClientClosed), None)
        } else {
            match input {
                PumpInput::Stream(next) => if s == PumpState::Awaiting {
                    match next {
                        Some(x) => (PumpState::Delivering, Some(x)),
                        None => (PumpState::Stopped(StopReason::StreamEnded), None),
                    }
                } else {
                    (s, None)
                },
                PumpInput::Callback(ok) => if s == PumpState::Delivering {
                    if ok {
                        (PumpState::Awaiting, None)
                    } else {
                        (PumpState::Stopped(StopReason::CallbackFailed), None)
                    }
                } else {
                    (s, None)
                },
            }
        },
    }
}

pub open spec fn option_seq<T>(o: Option<T>) -> Seq<T> {
    match o {
        Some(x) => seq![x],
        None => Seq::empty(),
    }
}

/// A pump run from state `s` over a sequence of inputs, each with the closed
/// flag seen at that moment: the final state and the items handed to the
/// callback, in order.
pub open spec fn pump_run<T>(s: PumpState, inputs: Seq<(PumpInput<T>, bool)>) -> (PumpState, Seq<T>)
    decreases inputs.len(),
{
    if inputs.len() == 0 {
        (s, Seq::empty())
    } else {
        let (next, out) = pump_step(s, inputs[0].0, inputs[0].1);
        let (last, rest) = pump_run(next, inputs.drop_first());
        (last, option_seq(out).add(rest))
    }
}

/// The inputs of a pump that receives each of `xs` from an open client and
/// whose callback succeeds on each.
pub open spec fn deliveries<T>(xs: Seq<T>) -> Seq<(PumpInput<T>, bool)>
    decreases xs.len(),
{
    if xs.len() == 0 {
        Seq::empty()
    } else {
        seq![(PumpInput::Stream(Some(xs[0])), false), (PumpInput::Callback(true), false)].add(
            deliveries(xs.drop_first()),
        )
    }
}

proof fn lemma_run_append<T>(s: PumpState, a: Seq<(PumpInput<T>, bool)>, b: Seq<(PumpInput<T>, bool)>)
    ensures
        pump_run(s, a.add(b)) == (pump_run(pump_run(s, a).0, b).0, pump_run(s, a).1.add(
            pump_run(pump_run(s, a).0, b).1,
        )),
    decreases a.len(),
{
    if a.len() == 0 {
        assert(a.add(b) =~= b);
        assert(Seq::<T>::empty().add(pump_run(s, b).1) =~= pump_run(s, b).1);
    } else {
        let (next, out) = pump_step(s, a[0].0, a[0].1);
        assert(a.add(b)[0] == a[0]);
        assert(a.add(b).drop_first() =~= a.drop_first().add(b));
        lemma_run_append(next, a.drop_first(), b);
        let mid = pump_run(next, a.drop_first());
        let tail = pump_run(mid.0, b);
        assert(option_seq(out).add(mid.1.add(tail.1)) =~= option_seq(out).add(mid.1).add(tail.1));
    }
}

proof fn lemma_stopped_stays<T>(why: StopReason, inputs: Seq<(PumpInput<T>, bool)>)
    ensures
        pump_run(PumpState::Stopped(why), inputs) == (PumpState::Stopped(why), Seq::<T>::empty()),
    decreases inputs.len(),
{
    if inputs.len() > 0 {
        lemma_stopped_stays(why, inputs.drop_first());
        assert(Seq::<T>::empty().add(Seq::<T>::empty()) =~= Seq::<T>::empty());
    }
}

proof fn lemma_deliveries<T>(xs: Seq<T>)
    ensures
        pump_run(PumpState::Awaiting, deliveries(xs)) == (PumpState::Awaiting, xs),
    decreases xs.len(),
{
    if xs.len() > 0 {
        let head: Seq<(PumpInput<T>, bool)> = seq![(PumpInput::Stream(Some(xs[0])), false), (PumpInput::Callback(true), false)];
        lemma_deliveries(xs.drop_first());
        lemma_run_append(PumpState::Awaiting, head, deliveries(xs.drop_first()));
        assert(head.drop_first().drop_first() =~= Seq::<(PumpInput<T>, bool)>::empty());
        assert(pump_run(PumpState::Awaiting, head.drop_first().drop_first()) == (PumpState::Awaiting, Seq::<T>::empty()));
        assert(pump_run(PumpState::Delivering, head.drop_first()).1 =~= Seq::<T>::empty());
        assert(pump_run(PumpState::Awaiting, head) == (PumpState::Awaiting, seq![xs[0]]));
        assert(seq![xs[0]].add(xs.drop_first()) =~= xs);
    }
}

/// A pump fed the items of one subscription's stream, with a callback that
/// succeeds on each, invokes the callback exactly once per item, in the order
/// of publication and with nothing else, and stops when the stream ends.
pub proof fn lemma_pump_delivers_in_order<T>(xs: Seq<T>)
    ensures
        pump_run(PumpState::Awaiting, deliveries(xs).push((PumpInput::Stream(None), false)))
            == (PumpState::Stopped(StopReason::StreamEnded), xs),
{
    let end: Seq<(PumpInput<T>, bool)> = seq![(PumpInput::Stream(None), false)];
    assert(deliveries(xs).push((PumpInput::Stream(None), false)) =~= deliveries(xs).add(end));
    lemma_deliveries(xs);
    lemma_run_append(PumpState::Awaiting, deliveries(xs), end);
    assert(end.drop_first() =~= Seq::<(PumpInput<T>, bool)>::empty());
    assert(pump_run(PumpState::Stopped(StopReason::StreamEnded), end.drop_first()).1 =~= Seq::<T>::empty());
    assert(pump_run(PumpState::Awaiting, end) == (PumpState::Stopped(StopReason::StreamEnded), Seq::<T>::empty()));
    assert(xs.add(Seq::<T>::empty()) =~= xs);
}

/// Once the client is closed, a pump never invokes its callback again,
/// whatever it is then fed, and it stops at the first input it observes.
pub proof fn lemma_pump_silent_after_close<T>(s: PumpState, inputs: Seq<(PumpInput<T>, bool)>)
    requires
        forall|i: int| 0 <= i < inputs.len() ==> (#[trigger] inputs[i]).1,
    ensures
        pump_run(s, inputs).1 == Seq::<T>::empty(),
        inputs.len() > 0 ==> pump_step(s, inputs[0].0, inputs[0].1).0 is Stopped,
        inputs.len() > 0 ==> pump_run(s, inputs).0 is Stopped,
{
    if inputs.len() > 0 {
        let next = pump_step(s, inputs[0].0, inputs[0].1).0;
        let why = match next {
            PumpState::Stopped(w) => w,
            _ => StopReason::ClientClosed,
        };
        assert(next == PumpState::Stopped(why));
        lemma_stopped_stays(why, inputs.drop_first());
        assert(Seq::<T>::empty().add(Seq::<T>::empty()) =~= Seq::<T>::empty());
    }
}

/// A callback that fails on an item stops its own pump right there: the
/// items before it were each delivered once, nothing after it is, whatever
/// follows on that stream. Another subscription's pump, which shares no
/// state with it, still delivers each of its own items in order.
pub proof fn lemma_callback_failure_contained<T>(
    xs: Seq<T>,
    failed: T,
    later: Seq<(PumpInput<T>, bool)>,
    ys: Seq<T>,
)
    ensures
        pump_run(
            PumpState::Awaiting,
            deliveries(xs).add(
                seq![(PumpInput::Stream(Some(failed)), false), (PumpInput::Callback(false), false)],
            ).add(later),
        ) == (PumpState::Stopped(StopReason::CallbackFailed), xs.push(failed)),
        pump_run(PumpState::Awaiting, deliveries(ys).push((PumpInput::Stream(None), false)))
            == (PumpState::Stopped(StopReason::StreamEnded), ys),
{
    let fail: Seq<(PumpInput<T>, bool)> = seq![(PumpInput::Stream(Some(failed)), false), (PumpInput::Callback(false), false)];
    lemma_deliveries(xs);
    lemma_run_append(PumpState::Awaiting, deliveries(xs), fail);
    assert(fail.drop_first().drop_first() =~= Seq::<(PumpInput<T>, bool)>::empty());
    assert(fail.drop_first()[0] == (PumpInput::<T>::Callback(false), false));
    assert(pump_run(PumpState::Stopped(StopReason::CallbackFailed), fail.drop_first().drop_first()).1 =~= Seq::<T>::empty());
    assert(pump_run(PumpState::Delivering, fail.drop_first()).1 =~= Seq::<T>::empty());
    assert(pump_run(PumpState::Delivering, fail.drop_first()).0 == PumpState::Stopped(StopReason::CallbackFailed));
    assert(pump_run(PumpState::Awaiting, fail) == (PumpState::Stopped(StopReason::CallbackFailed), seq![failed]));
    lemma_run_append(PumpState::Awaiting, deliveries(xs).add(fail), later);
    lemma_stopped_stays(StopReason::CallbackFailed, later);
    assert(xs.add(seq![failed]).add(Seq::<T>::empty()) =~= xs.push(failed));
    lemma_pump_delivers_in_order(ys);
}

/// A task that drains one subscription's stream into a host callback.
pub struct Pump {
    state: PumpState,
}

impl Pump {
    pub closed spec fn view(&self) -> PumpState {
        self.state
    }

    /// A pump for a subscription that was just set up.
    pub fn new() -> (r: Pump)
        ensures
            r@ == PumpState::Awaiting,
    {
        Pump { state: PumpState::Awaiting }
    }

    /// The pump's state.
    pub fn state(&self) -> (r: PumpState)
        ensures
            r == self@,
    {
        self.state
    }

    /// Decides what to do with the stream's next item (`None`: the stream
    /// ended), given whether the client has been closed. Called only while
    /// no callback invocation is in progress.
    pub fn on_stream<T>(&mut self, next: Option<T>, closed: bool) -> (r: PumpAction<T>)
        requires
            old(self)@ != PumpState::Delivering,
        ensures
            ({
                let (s, out) = pump_step(old(self)@, PumpInput::Stream(next), closed);
                &&& final(self)@ == s
                &&& match r {
                    PumpAction::Invoke(x) => out == Some(x) && s == PumpState::Delivering,
                    PumpAction::Stop(why) => out is None && s == PumpState::Stopped(why),
                }
            }),
    {
        match self.state {
            PumpState::Stopped(why) => PumpAction::Stop(why),
            _ => {
                if closed {
                    self.state = PumpState::Stopped(StopReason::ClientClosed);
                    PumpAction::Stop(StopReason::ClientClosed)
                } else {
                    match next {
                        Some(x) => {
                            self.state = PumpState::Delivering;
                            PumpAction::Invoke(x)
                        },
                        None => {
                            self.state = PumpState::Stopped(StopReason::StreamEnded);
                            PumpAction::Stop(StopReason::StreamEnded)
                        },
                    }
                }
            },
        }
    }

    /// Records how the callback invocation ended, given whether the client
    /// has been closed meanwhile. `None`: await the next item; otherwise the
    /// task stops for the reason given. Called only after `on_stream`
    /// returned `Invoke`.
    pub fn on_callback(&mut self, ok: bool, closed: bool) -> (r: Option<StopReason>)
        requires
            old(self)@ == PumpState::Delivering,
        ensures
            final(self)@ == pump_step::<()>(old(self)@, PumpInput::Callback(ok), closed).0,
            match r {
                None => final(self)@ == PumpState::Awaiting,
                Some(why) => final(self)@ == PumpState::Stopped(why),
            },
    {
        if closed {
            self.state = PumpState::Stopped(StopReason::ClientClosed);
            Some(StopReason::ClientClosed)
        } else if ok {
            self.state = PumpState::Awaiting;
            None
        } else {
            self.state = PumpState::Stopped(StopReason::CallbackFailed);
            Some(StopReason::CallbackFailed)
        }
    }
}

} // verus!
