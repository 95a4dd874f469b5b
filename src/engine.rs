use vstd::prelude::*;

use crate::channel::{init_channels, request_for, sequence_for, table_usable, AdcError, ChannelSpec, SequenceRequest};

verus! {

/// What the completion interrupt tells the peripheral to do next.
#[derive(Clone, Copy, Debug, PartialEq, Eq, Structural)]
pub enum AdcAction {
    /// Go on with the sequence.
    Continue,
    /// Sample the same channel once more.
    Repeat,
    /// Stop the sequence.
    Finish,
}

/// The callback armed for a sequence: none, one that runs in deferred work,
/// or one that runs straight from the completion interrupt.
#[derive(Clone, Copy, Debug)]
pub enum Callback<H> {
    Unarmed,
    Normal(H),
    Interrupt(H),
}

/// A callback to invoke with a channel index and its sample.
#[derive(Clone, Copy, Debug)]
pub struct Notice<H> {
    pub handler: H,
    pub index: usize,
    pub value: i16,
}

/// What the interrupt side hands on after a completion.
#[derive(Clone, Copy, Debug)]
pub enum Dispatch<H> {
    /// Nothing to deliver.
    Nothing,
    /// Invoke the interrupt-context callback right away.
    Invoke(Notice<H>),
    /// Schedule the deferred work handler.
    Defer,
}

/// The result of one completion interrupt.
#[derive(Clone, Copy, Debug)]
pub struct Firing<H> {
    pub action: AdcAction,
    pub dispatch: Dispatch<H>,
}

/// The result of one run of the deferred work handler.
#[derive(Clone, Copy, Debug)]
pub struct Deferred<H> {
    /// The conversion to submit again, when the table holds several channels.
    pub resubmit: Option<SequenceRequest>,
    /// The normal callback to invoke, with the channel that just completed.
    pub notice: Option<Notice<H>>,
}

/// The abstract state of an acquisition engine.
pub struct AdcView<H> {
    pub channels: Seq<ChannelSpec>,
    pub interval_us: u32,
    pub index: nat,
    pub samples: Seq<i16>,
    pub callback: Callback<H>,
    pub state: AdcAction,
}

impl<H> AdcView<H> {
    pub open spec fn count(self) -> nat {
        self.channels.len()
    }

    /// At least one channel, one sample slot per channel, the current index in
    /// range, and every channel addressable by the channel mask.
    pub open spec fn wf(self) -> bool {
        &&& self.count() >= 1
        &&& self.samples.len() == self.count()
        &&& self.index < self.count()
        &&& forall|j: int| 0 <= j < self.count() ==> (#[trigger] self.channels[j]).wf()
    }

    /// The channel whose sample the deferred work reports: the one before the
    /// current index, wrapping to the last channel.
    pub open spec fn previous_index(self) -> nat {
        if self.index == 0 {
            (self.count() - 1) as nat
        } else {
            (self.index - 1) as nat
        }
    }

    /// The state after a completion interrupt that captured `sample`.
    pub open spec fn fired(self, sample: i16) -> AdcView<H> {
        let s = AdcView { samples: self.samples.update(self.index as int, sample), ..self };
        if self.state == AdcAction::Finish {
            s
        } else if self.count() == 1 {
            AdcView { state: AdcAction::Repeat, ..s }
        } else if self.index + 1 < self.count() {
            AdcView { state: AdcAction::Continue, index: self.index + 1, ..s }
        } else if self.state != AdcAction::Repeat {
            AdcView { state: AdcAction::Repeat, ..s }
        } else {
            AdcView { state: AdcAction::Continue, index: 0, ..s }
        }
    }

    /// The action returned to the peripheral by a completion interrupt.
    pub open spec fn fire_action(self) -> AdcAction {
        if self.state == AdcAction::Finish {
            AdcAction::Finish
        } else if self.count() == 1 {
            AdcAction::Repeat
        } else if self.index + 1 < self.count() {
            AdcAction::Continue
        } else if self.state != AdcAction::Repeat {
            AdcAction::Repeat
        } else {
            AdcAction::Continue
        }
    }

    /// The (channel, sample) pair that a completion interrupt capturing
    /// `sample` hands to a callback, if any.
    pub open spec fn fire_delivery(self, sample: i16) -> Option<(nat, i16)> {
        if self.state == AdcAction::Finish {
            None
        } else if self.count() == 1 {
            Some((0nat, sample))
        } else if self.index + 1 < self.count() {
            Some((self.index, sample))
        } else if self.state != AdcAction::Repeat {
            None
        } else {
            Some(((self.count() - 1) as nat, sample))
        }
    }

    /// The state after `cancel_read`.
    pub open spec fn cancelled(self) -> AdcView<H> {
        AdcView { state: AdcAction::Finish, ..self }
    }

    /// The state after a rejected submission.
    pub open spec fn failed(self) -> AdcView<H> {
        AdcView { state: AdcAction::Finish, callback: Callback::Unarmed, ..self }
    }

    /// The state after arming a sequence with `callback`.
    pub open spec fn armed(self, interval_us: u32, callback: Callback<H>) -> AdcView<H> {
        AdcView { interval_us, index: 0, callback, state: AdcAction::Continue, ..self }
    }
}

/// The callback slot that `read_async` arms for `handler`.
pub open spec fn normal_slot<H>(handler: Option<H>) -> Callback<H> {
    match handler {
        Some(h) => Callback::Normal(h),
        None => Callback::Unarmed,
    }
}

/// The callback slot that `read_async_isr` arms for `handler`.
pub open spec fn interrupt_slot<H>(handler: Option<H>) -> Callback<H> {
    match handler {
        Some(h) => Callback::Interrupt(h),
        None => Callback::Unarmed,
    }
}

/// How a firing's delivery is handed on, given the armed callback.
pub open spec fn dispatch_of<H>(callback: Callback<H>, delivery: Option<(nat, i16)>) -> Dispatch<H> {
    match delivery {
        None => Dispatch::Nothing,
        Some(p) => match callback {
            Callback::Interrupt(h) => Dispatch::Invoke(Notice { handler: h, index: p.0 as usize, value: p.1 }),
            _ => Dispatch::Defer,
        },
    }
}

/// An asynchronous multi-channel ADC acquisition engine.
///
/// It owns the channel table, the per-channel samples and the sequence state.
/// The completion interrupt calls `hard_isr`, the deferred work calls
/// `soft_isr`; both return what the caller has to do next.
pub struct Adc<H> {
    channels: Vec<ChannelSpec>,
    interval_us: u32,
    channel_index: usize,
    samples: Vec<i16>,
    callback: Callback<H>,
    state: AdcAction,
}

impl<H> View for Adc<H> {
    type V = AdcView<H>;

    closed spec fn view(&self) -> AdcView<H> {
        AdcView {
            channels: self.channels@,
            interval_us: self.interval_us,
            index: self.channel_index as nat,
            samples: self.samples@,
            callback: self.callback,
            state: self.state,
        }
    }
}

impl<H: Copy> Adc<H> {
    pub open spec fn wf(&self) -> bool {
        self@.wf()
    }

    /// Builds an engine over `channels`, given the status that configuring
    /// each channel reported; no sequence is armed.
    pub fn new(channels: Vec<ChannelSpec>, setup_status: &Vec<i32>) -> (r: Result<Self, AdcError>)
        ensures
            r is Ok <==> table_usable(channels@, setup_status@),
            r is Err ==> r->Err_0 == AdcError::ConfigurationError,
            r matches Ok(adc) ==> {
                &&& adc.wf()
                &&& adc@.channels == channels@
                &&& adc@.samples == Seq::new(channels@.len(), |i: int| 0i16)
                &&& adc@.index == 0
                &&& adc@.interval_us == 0
                &&& adc@.callback matches Callback::Unarmed
                &&& adc@.state == AdcAction::Continue
            },
    {
        match init_channels(&channels, setup_status) {
            Err(e) => Err(e),
            Ok(()) => {
                let count = channels.len();
                let samples: Vec<i16> = vec![0i16; count];
                let adc = Adc {
                    channels,
                    interval_us: 0,
                    channel_index: 0,
                    samples,
                    callback: Callback::Unarmed,
                    state: AdcAction::Continue,
                };
                assert(adc@.samples =~= Seq::new(adc@.channels.len(), |i: int| 0i16));
                Ok(adc)
            },
        }
    }

    /// Completion interrupt: stores `sample` for the current channel, moves
    /// the sequence on, and says what to tell the peripheral and whom to
    /// notify. It never blocks and never allocates.
    pub fn hard_isr(&mut self, sample: i16) -> (r: Firing<H>)
        requires
            old(self).wf(),
        ensures
            final(self).wf(),
            final(self)@ == old(self)@.fired(sample),
            r.action == old(self)@.fire_action(),
            r.dispatch == dispatch_of(old(self)@.callback, old(self)@.fire_delivery(sample)),
    {
        let idx = self.channel_index;
        // Defensive: stop the sequence rather than index past the samples.
        if idx >= self.samples.len() {
            return Firing { action: AdcAction::Finish, dispatch: Dispatch::Nothing };
        }
        self.samples.set(idx, sample);
        if self.state == AdcAction::Finish {
            return Firing { action: AdcAction::Finish, dispatch: Dispatch::Nothing };
        }
        let count = self.channels.len();
        let delivered: usize;
        if count == 1 {
            self.state = AdcAction::Repeat;
            delivered = 0;
        } else if idx + 1 < count {
            self.channel_index = idx + 1;
            self.state = AdcAction::Continue;
            delivered = idx;
        } else if self.state != AdcAction::Repeat {
            self.state = AdcAction::Repeat;
            return Firing { action: AdcAction::Repeat, dispatch: Dispatch::Nothing };
        } else {
            self.channel_index = 0;
            self.state = AdcAction::Continue;
            delivered = count - 1;
        }
        let dispatch = match self.callback {
            Callback::Interrupt(h) => Dispatch::Invoke(Notice { handler: h, index: delivered, value: sample }),
            _ => Dispatch::Defer,
        };
        Firing { action: self.state, dispatch }
    }

    /// Arms a sequence from channel 0 whose results go to `handler` in
    /// deferred work; returns the conversion to submit to the peripheral.
    pub fn read_async(&mut self, interval_us: u32, handler: Option<H>) -> (r: SequenceRequest)
        requires
            old(self).wf(),
        ensures
            final(self).wf(),
            final(self)@ == old(self)@.armed(interval_us, normal_slot(handler)),
            r == request_for(old(self)@.channels[0], 0, interval_us),
    {
        let callback = match handler {
            Some(h) => Callback::Normal(h),
            None => Callback::Unarmed,
        };
        self.arm(interval_us, callback)
    }

    /// Arms a sequence from channel 0 whose results go to `handler` straight
    /// from the completion interrupt; returns the conversion to submit. The
    /// handler must not block, allocate or take long.
    pub fn read_async_isr(&mut self, interval_us: u32, handler: Option<H>) -> (r: SequenceRequest)
        requires
            old(self).wf(),
        ensures
            final(self).wf(),
            final(self)@ == old(self)@.armed(interval_us, interrupt_slot(handler)),
            r == request_for(old(self)@.channels[0], 0, interval_us),
    {
        let callback = match handler {
            Some(h) => Callback::Interrupt(h),
            None => Callback::Unarmed,
        };
        self.arm(interval_us, callback)
    }

    fn arm(&mut self, interval_us: u32, callback: Callback<H>) -> (r: SequenceRequest)
        requires
            old(self).wf(),
        ensures
            final(self).wf(),
            final(self)@ == old(self)@.armed(interval_us, callback),
            r == request_for(old(self)@.channels[0], 0, interval_us),
    {
        self.interval_us = interval_us;
        self.channel_index = 0;
        self.callback = callback;
        self.state = AdcAction::Continue;
        assert(self@.channels[0].wf());
        sequence_for(self.channels[0], 0, interval_us)
    }

    /// Takes the status with which the peripheral answered a submitted
    /// conversion. A non-zero status is fatal: the sequence is finished and
    /// its callback disarmed, so that nothing is delivered any more.
    pub fn complete_submission(&mut self, status: i32) -> (r: Result<(), AdcError>)
        requires
            old(self).wf(),
        ensures
            final(self).wf(),
            status == 0 ==> r is Ok && final(self)@ == old(self)@,
            status != 0 ==> r == Err::<(), AdcError>(AdcError::SubmissionError)
                && final(self)@ == old(self)@.failed(),
    {
        if status != 0 {
            self.state = AdcAction::Finish;
            self.callback = Callback::Unarmed;
            return Err(AdcError::SubmissionError);
        }
        Ok(())
    }

    /// Asks the sequence to stop; the next completion interrupt sees it.
    pub fn cancel_read(&mut self)
        requires
            old(self).wf(),
        ensures
            final(self).wf(),
            final(self)@ == old(self)@.cancelled(),
    {
        self.state = AdcAction::Finish;
    }

    /// Deferred work: re-arms the peripheral for the current channel when the
    /// table holds several, and reports the channel that just completed to
    /// the normal callback.
    pub fn soft_isr(&self) -> (r: Deferred<H>)
        requires
            self.wf(),
        ensures
            r.resubmit == (if self@.count() > 1 {
                Some(request_for(self@.channels[self@.index as int], self@.index as usize, self@.interval_us))
            } else {
                None::<SequenceRequest>
            }),
            r.notice == (match self@.callback {
                Callback::Normal(h) => Some(Notice {
                    handler: h,
                    index: self@.previous_index() as usize,
                    value: self@.samples[self@.previous_index() as int],
                }),
                _ => None::<Notice<H>>,
            }),
    {
        let count = self.channels.len();
        let idx = self.channel_index;
        let resubmit = if count > 1 {
            assert(self@.channels[idx as int].wf());
            Some(sequence_for(self.channels[idx], idx, self.interval_us))
        } else {
            None
        };
        let notice = match self.callback {
            Callback::Normal(h) => {
                let prev = if idx == 0 { count - 1 } else { idx - 1 };
                Some(Notice { handler: h, index: prev, value: self.samples[prev] })
            },
            _ => None,
        };
        Deferred { resubmit, notice }
    }

    /// The configuration of channel `index`.
    pub fn get_channel(&self, index: usize) -> (r: Result<ChannelSpec, AdcError>)
        requires
            self.wf(),
        ensures
            index >= self@.count() ==> r == Err::<ChannelSpec, AdcError>(AdcError::OutOfRange),
            index < self@.count() ==> r == Ok::<ChannelSpec, AdcError>(self@.channels[index as int]),
    {
        if index >= self.channels.len() {
            return Err(AdcError::OutOfRange);
        }
        Ok(self.channels[index])
    }

    /// The last sample captured for channel `idx`.
    pub fn get_value(&self, idx: usize) -> (r: Result<i32, AdcError>)
        requires
            self.wf(),
        ensures
            idx >= self@.count() ==> r == Err::<i32, AdcError>(AdcError::OutOfRange),
            idx < self@.count() ==> r == Ok::<i32, AdcError>(self@.samples[idx as int] as i32),
    {
        if idx >= self.samples.len() {
            return Err(AdcError::OutOfRange);
        }
        Ok(self.samples[idx] as i32)
    }

    /// The last sample of channel `idx` in millivolts: `to_millivolts`
    /// applies the peripheral's raw-to-millivolt transform for the channel's
    /// configuration to the raw sample.
    pub fn get_voltage<F: Fn(ChannelSpec, i32) -> i32>(&self, idx: usize, to_millivolts: F) -> (r: Result<i32, AdcError>)
        requires
            self.wf(),
            forall|c: ChannelSpec, v: i32| to_millivolts.requires((c, v)),
        ensures
            idx >= self@.count() ==> r == Err::<i32, AdcError>(AdcError::OutOfRange),
            idx < self@.count() ==> (r matches Ok(mv)
                && to_millivolts.ensures((self@.channels[idx as int], self@.samples[idx as int] as i32), mv)),
    {
        if idx >= self.samples.len() {
            return Err(AdcError::OutOfRange);
        }
        let mv = to_millivolts(self.channels[idx], self.samples[idx] as i32);
        Ok(mv)
    }
}

} // verus!
