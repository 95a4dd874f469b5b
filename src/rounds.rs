use vstd::prelude::*;

use crate::engine::{AdcAction, AdcView, Callback, Dispatch, dispatch_of};

verus! {

/// The state after one completion interrupt per sample of `xs`, in order.
pub open spec fn run<H>(v: AdcView<H>, xs: Seq<i16>) -> AdcView<H>
    decreases xs.len(),
{
    if xs.len() == 0 {
        v
    } else {
        run(v, xs.drop_last()).fired(xs.last())
    }
}

/// The (channel, sample) pairs handed to callbacks by those interrupts, in order.
pub open spec fn deliveries<H>(v: AdcView<H>, xs: Seq<i16>) -> Seq<(nat, i16)>
    decreases xs.len(),
{
    if xs.len() == 0 {
        Seq::empty()
    } else {
        let before = deliveries(v, xs.drop_last());
        match run(v, xs.drop_last()).fire_delivery(xs.last()) {
            Some(p) => before.push(p),
            None => before,
        }
    }
}

/// A completion interrupt keeps the engine well formed.
pub proof fn lemma_fired_wf<H>(v: AdcView<H>, sample: i16)
    requires
        v.wf(),
    ensures
        v.fired(sample).wf(),
        v.fired(sample).channels == v.channels,
        v.fired(sample).callback == v.callback,
{
}

/// Any run of completion interrupts keeps the engine well formed, with its
/// channel table and callback unchanged.
pub proof fn lemma_run_wf<H>(v: AdcView<H>, xs: Seq<i16>)
    requires
        v.wf(),
    ensures
        run(v, xs).wf(),
        run(v, xs).channels == v.channels,
        run(v, xs).callback == v.callback,
    decreases xs.len(),
{
    if xs.len() > 0 {
        lemma_run_wf(v, xs.drop_last());
        lemma_fired_wf(run(v, xs.drop_last()), xs.last());
    }
}

/// With a single channel, every completion interrupt of a sequence that was
/// not cancelled leaves the engine in `Repeat` and asks the peripheral to
/// repeat; a cancelled one stays finished. So however many interrupts come,
/// the sequence reaches `Finish` only through `cancel_read`.
pub proof fn law_single_channel_repeats<H>(v: AdcView<H>, xs: Seq<i16>)
    requires
        v.wf(),
        v.count() == 1,
    ensures
        v.state != AdcAction::Finish ==> v.fire_action() == AdcAction::Repeat,
        v.state == AdcAction::Finish ==> v.fire_action() == AdcAction::Finish,
        v.state != AdcAction::Finish && xs.len() > 0 ==> run(v, xs).state == AdcAction::Repeat,
        v.state == AdcAction::Finish ==> run(v, xs).state == AdcAction::Finish,
        v.state != AdcAction::Finish ==> run(v, xs).state != AdcAction::Finish,
    decreases xs.len(),
{
    if xs.len() > 0 {
        law_single_channel_repeats(v, xs.drop_last());
        lemma_run_wf(v, xs.drop_last());
    }
}

/// One step of a round over `n > 1` channels: after `k < n` interrupts from
/// channel 0, the engine stands at channel `k` and has delivered the pairs
/// `(i, xs[i])` for `i < k`.
proof fn lemma_round_prefix<H>(v: AdcView<H>, xs: Seq<i16>, k: nat)
    requires
        v.wf(),
        v.count() > 1,
        v.index == 0,
        v.state == AdcAction::Continue,
        k < v.count(),
        k <= xs.len(),
    ensures
        run(v, xs.take(k as int)).index == k,
        run(v, xs.take(k as int)).state == AdcAction::Continue,
        deliveries(v, xs.take(k as int)) == Seq::new(k, |i: int| (i as nat, xs[i])),
    decreases k,
{
    if k == 0 {
        assert(xs.take(0) =~= Seq::<i16>::empty());
        assert(deliveries(v, xs.take(0)) =~= Seq::new(0, |i: int| (i as nat, xs[i])));
    } else {
        let prev = (k - 1) as nat;
        lemma_round_prefix(v, xs, prev);
        let ys = xs.take(k as int);
        assert(ys.drop_last() =~= xs.take(prev as int));
        lemma_run_wf(v, xs.take(prev as int));
        assert(deliveries(v, ys) =~= Seq::new(k, |i: int| (i as nat, xs[i])));
    }
}

/// A full round over `n > 1` channels, started at channel 0 in `Continue`,
/// takes `n + 1` completion interrupts: the first `n - 1` move from channel
/// to channel, the `n`-th samples the last channel once more in `Repeat`,
/// and the last one wraps to channel 0. The round visits the channels
/// `0..n` in order, ends at channel 0 in `Continue`, and hands exactly `n`
/// pairs to the callback, one per channel with its own index: channel
/// `i < n - 1` with the `i`-th sample, the last channel with the sample of
/// the flushing interrupt.
pub proof fn law_full_round<H>(v: AdcView<H>, xs: Seq<i16>)
    requires
        v.wf(),
        v.count() > 1,
        v.index == 0,
        v.state == AdcAction::Continue,
        xs.len() == v.count() + 1,
    ensures
        forall|k: nat| k < v.count() ==> #[trigger] run(v, xs.take(k as int)).index == k,
        run(v, xs.take(v.count() as int)).index == v.count() - 1,
        run(v, xs.take(v.count() as int)).state == AdcAction::Repeat,
        run(v, xs).index == 0,
        run(v, xs).state == AdcAction::Continue,
        deliveries(v, xs).len() == v.count(),
        deliveries(v, xs) == Seq::new(v.count(), |i: int|
            if i < v.count() - 1 { (i as nat, xs[i]) } else { (i as nat, xs[v.count() as int]) }),
{
    let n = v.count();
    assert forall|k: nat| k < n implies #[trigger] run(v, xs.take(k as int)).index == k by {
        lemma_round_prefix(v, xs, k);
    }
    let last = (n - 1) as nat;
    lemma_round_prefix(v, xs, last);
    lemma_run_wf(v, xs.take(last as int));
    let ys = xs.take(n as int);
    assert(ys.drop_last() =~= xs.take(last as int));
    lemma_run_wf(v, ys);
    assert(xs.drop_last() =~= ys);
    assert(deliveries(v, ys) =~= deliveries(v, xs.take(last as int)));
    assert(deliveries(v, xs) =~= Seq::new(n, |i: int|
        if i < n - 1 { (i as nat, xs[i]) } else { (i as nat, xs[n as int]) }));
}

/// Cancelling is idempotent: a second `cancel_read` leaves the state a
/// first one produced.
pub proof fn law_cancel_idempotent<H>(v: AdcView<H>)
    ensures
        v.cancelled().cancelled() == v.cancelled(),
        v.cancelled().state == AdcAction::Finish,
{
}

/// A finished sequence stays finished through any number of completion
/// interrupts, answers each with `Finish`, and delivers nothing.
pub proof fn law_finished_is_silent<H>(v: AdcView<H>, xs: Seq<i16>)
    requires
        v.wf(),
        v.state == AdcAction::Finish,
    ensures
        run(v, xs).state == AdcAction::Finish,
        run(v, xs).fire_action() == AdcAction::Finish,
        deliveries(v, xs).len() == 0,
        forall|x: i16| dispatch_of(run(v, xs).callback, #[trigger] run(v, xs).fire_delivery(x)) == Dispatch::<H>::Nothing,
    decreases xs.len(),
{
    if xs.len() > 0 {
        law_finished_is_silent(v, xs.drop_last());
    }
}

/// After a rejected submission no callback is ever invoked: completion
/// interrupts deliver nothing and the deferred work has no callback to call.
pub proof fn law_failed_submission_is_silent<H>(v: AdcView<H>, xs: Seq<i16>)
    requires
        v.wf(),
    ensures
        deliveries(v.failed(), xs).len() == 0,
        run(v.failed(), xs).callback matches Callback::Unarmed,
{
    law_finished_is_silent(v.failed(), xs);
    lemma_run_wf(v.failed(), xs);
}

/// When a completion interrupt schedules the deferred work, that work
/// reports the very pair the interrupt captured: the previous index of the
/// new state is the delivered channel, and its sample the captured one.
pub proof fn law_deferred_reports_completed<H>(v: AdcView<H>, sample: i16)
    requires
        v.wf(),
        v.fire_delivery(sample) is Some,
    ensures
        v.fired(sample).previous_index() == v.fire_delivery(sample)->Some_0.0,
        v.fired(sample).samples[v.fired(sample).previous_index() as int] == v.fire_delivery(sample)->Some_0.1,
{
}

} // verus!
