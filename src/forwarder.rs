use vstd::prelude::*;

use crate::sample::Sample;

verus! {

/// What the forwarder does with what the channel gave it.
pub enum ForwardStep {
    /// Write this batch to the sink.
    Write(Vec<Sample>),
    /// The channel is closed and drained: stop, successfully.
    Finish,
}

/// How one write ended for the batch it carried.
#[derive(Clone, Copy, Debug, PartialEq, Eq, Structural)]
pub enum WriteVerdict {
    Delivered,
    /// The sink refused the batch; it is logged and not tried again.
    Dropped,
}

/// The forwarder's bookkeeping as plain values.
pub ghost struct ForwarderModel {
    pub received: nat,
    pub delivered: nat,
    pub dropped: nat,
    pub awaiting_write: bool,
    pub finished: bool,
}

impl ForwarderModel {
    pub open spec fn inv(self) -> bool {
        self.delivered + self.dropped + (if self.awaiting_write {
            1nat
        } else {
            0nat
        }) == self.received
    }

    /// Ready to take the next item from the channel.
    pub open spec fn ready(self) -> bool {
        !self.awaiting_write && !self.finished
    }

    pub open spec fn after_receive(self, has_batch: bool) -> ForwarderModel {
        if has_batch {
            ForwarderModel { received: self.received + 1, awaiting_write: true, ..self }
        } else {
            ForwarderModel { finished: true, ..self }
        }
    }

    pub open spec fn after_write(self, ok: bool) -> ForwarderModel {
        if ok {
            ForwarderModel { delivered: self.delivered + 1, awaiting_write: false, ..self }
        } else {
            ForwarderModel { dropped: self.dropped + 1, awaiting_write: false, ..self }
        }
    }
}

/// Best-effort delivery: a refused batch is counted as dropped and the
/// forwarder goes straight back to the channel for the next one.
pub proof fn lemma_failure_keeps_forwarding(m: ForwarderModel)
    requires
        m.inv(),
        m.ready(),
    ensures
        m.after_receive(true).after_write(false).ready(),
        m.after_receive(true).after_write(false).inv(),
        m.after_receive(true).after_write(false).dropped == m.dropped + 1,
        m.after_receive(true).after_write(false).after_receive(true).awaiting_write,
        m.after_receive(true).after_write(false).after_receive(true).received == m.received + 2,
{
}

/// The forwarder after it has received one batch for each entry of `oks`
/// and written it, the write ending as that entry says.
pub open spec fn after_writes(m: ForwarderModel, oks: Seq<bool>) -> ForwarderModel
    decreases oks.len(),
{
    if oks.len() == 0 {
        m
    } else {
        after_writes(m, oks.drop_last()).after_receive(true).after_write(oks.last())
    }
}

/// How many entries of `oks` are `ok`.
pub open spec fn count_results(oks: Seq<bool>, ok: bool) -> nat
    decreases oks.len(),
{
    if oks.len() == 0 {
        0
    } else {
        count_results(oks.drop_last(), ok) + if oks.last() == ok {
            1nat
        } else {
            0nat
        }
    }
}

/// A run of writes, whatever each of them gives: every batch received gets
/// exactly one write, a refused write never stops the batches after it, each
/// refused batch is counted once as dropped and never written again, the
/// others are counted as delivered, and when the channel then closes the
/// forwarder finishes.
pub proof fn lemma_forwarding_run(m: ForwarderModel, oks: Seq<bool>)
    requires
        m.inv(),
        m.ready(),
    ensures
        after_writes(m, oks).inv(),
        after_writes(m, oks).ready(),
        after_writes(m, oks).received == m.received + oks.len(),
        after_writes(m, oks).delivered == m.delivered + count_results(oks, true),
        after_writes(m, oks).dropped == m.dropped + count_results(oks, false),
        after_writes(m, oks).after_receive(false).finished,
        after_writes(m, oks).after_receive(false).received == m.received + oks.len(),
    decreases oks.len(),
{
    if oks.len() > 0 {
        lemma_forwarding_run(m, oks.drop_last());
    }
}

/// The forwarder of one run: drains the channel, writes each batch once, and
/// keeps count of what was delivered and what was dropped.
pub struct Forwarder {
    received: u64,
    delivered: u64,
    dropped: u64,
    awaiting_write: bool,
    finished: bool,
}

impl View for Forwarder {
    type V = ForwarderModel;

    closed spec fn view(&self) -> ForwarderModel {
        ForwarderModel {
            received: self.received as nat,
            delivered: self.delivered as nat,
            dropped: self.dropped as nat,
            awaiting_write: self.awaiting_write,
            finished: self.finished,
        }
    }
}

impl Forwarder {
    pub fn new() -> (r: Forwarder)
        ensures
            r@ == (ForwarderModel {
                received: 0,
                delivered: 0,
                dropped: 0,
                awaiting_write: false,
                finished: false,
            }),
    {
        Forwarder { received: 0, delivered: 0, dropped: 0, awaiting_write: false, finished: false }
    }

    /// Decides on what `receive` gave: a batch is to be written; the end of
    /// the channel finishes the forwarder.
    pub fn on_receive(&mut self, batch: Option<Vec<Sample>>) -> (r: ForwardStep)
        requires
            old(self)@.inv(),
            old(self)@.ready(),
            old(self)@.received < u64::MAX,
        ensures
            final(self)@ == old(self)@.after_receive(batch is Some),
            final(self)@.inv(),
            match (batch, r) {
                (Some(b), ForwardStep::Write(w)) => w@ == b@,
                (None, ForwardStep::Finish) => true,
                _ => false,
            },
    {
        match batch {
            Some(b) => {
                self.received = self.received + 1;
                self.awaiting_write = true;
                ForwardStep::Write(b)
            },
            None => {
                self.finished = true;
                ForwardStep::Finish
            },
        }
    }

    /// Records how the write of the current batch ended. Either way the
    /// forwarder is ready for the next batch.
    pub fn on_write_result(&mut self, ok: bool) -> (r: WriteVerdict)
        requires
            old(self)@.inv(),
            old(self)@.awaiting_write,
        ensures
            final(self)@ == old(self)@.after_write(ok),
            final(self)@.inv(),
            final(self)@.ready() == !old(self)@.finished,
            r == (if ok {
                WriteVerdict::Delivered
            } else {
                WriteVerdict::Dropped
            }),
    {
        self.awaiting_write = false;
        if ok {
            self.delivered = self.delivered + 1;
            WriteVerdict::Delivered
        } else {
            self.dropped = self.dropped + 1;
            WriteVerdict::Dropped
        }
    }

    pub fn is_ready(&self) -> (r: bool)
        ensures
            r == self@.ready(),
    {
        !self.awaiting_write && !self.finished
    }

    pub fn received(&self) -> (r: u64)
        ensures
            r == self@.received,
    {
        self.received
    }

    pub fn delivered(&self) -> (r: u64)
        ensures
            r == self@.delivered,
    {
        self.delivered
    }

    pub fn dropped(&self) -> (r: u64)
        ensures
            r == self@.dropped,
    {
        self.dropped
    }
}

} // verus!
