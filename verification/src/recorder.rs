//! The recorder agent: it listens to the scheduler's signal stream and keeps
//! the signals selected by its rules, acknowledging each task chain.
//!
//! What the recorder keeps is decided here and is verified; turning the kept
//! signals into bytes on disk is the transport's business outside the
//! library.

use vstd::prelude::*;

use crate::agent::NodeAddress;
use crate::error::Error;
use crate::ids::AgentId;
use crate::signals::{Signal, SignalKind};
use crate::timestamp::{system_now_nanos, Clock};
use core::time::Duration;

verus! {

/// A recorder's connection to the scheduler: the observed signal stream and
/// a sink for acknowledgements. Nothing is promised of the transport itself.
pub trait ConnectRecorder {
    /// Wait up to `timeout` for a signal: a signal, `None` on timeout, or a
    /// transport error.
    fn receive(&mut self, timeout: Duration) -> (r: Result<Option<Signal>, Error>)
        ensures
            r matches Err(e) ==> (e matches Error::Channel(_) || e matches Error::Io(_) || e
                matches Error::Timeout(_, _)),
    ;

    /// Acknowledge to the scheduler; an error is a transport error.
    fn send_to_scheduler(&mut self, signal: &Signal) -> (r: Result<(), Error>)
        ensures
            r matches Err(e) ==> (e matches Error::Channel(_) || e matches Error::Io(_) || e
                matches Error::Timeout(_, _)),
    ;
}

/// Which signals a recorder keeps, by their variant.
#[derive(Debug)]
pub struct RecordingRules {
    /// The variants to keep.
    pub kinds: Vec<SignalKind>,
}

impl RecordingRules {
    /// Whether signals of this variant are kept.
    pub open spec fn spec_records(self, kind: SignalKind) -> bool {
        self.kinds@.contains(kind)
    }

    /// Whether signals of this variant are kept.
    pub fn records(&self, kind: SignalKind) -> (b: bool)
        ensures
            b == self.spec_records(kind),
    {
        let mut i: usize = 0;
        while i < self.kinds.len()
            invariant
                i <= self.kinds@.len(),
                forall|j: int| 0 <= j < i ==> self.kinds@[j] != kind,
            decreases self.kinds@.len() - i,
        {
            if self.kinds[i] == kind {
                return true;
            }
            i += 1;
        }
        false
    }
}

/// Configuration of a recorder.
pub struct RecorderConfig {
    /// ID of the recorder.
    pub id: AgentId,
    /// File to which the transport writes the recorded signals.
    pub record_file: &'static str,
    /// Rules about which signals to record.
    pub rules: RecordingRules,
    /// Timeout for receiving calls on the connector.
    pub receive_timeout: Duration,
    /// Address on which the scheduler listens for sender connections.
    pub bind_address_senders: NodeAddress,
    /// Address on which the scheduler listens for receiver connections.
    pub bind_address_receivers: NodeAddress,
}

/// A recorder agent over its connection to the scheduler.
pub struct Recorder<C: ConnectRecorder> {
    /// ID of the recorder.
    pub id: AgentId,
    /// File to which the transport writes the recorded signals.
    pub record_file: &'static str,
    /// Rules about which signals to record.
    pub rules: RecordingRules,
    /// Timeout for receiving calls on the connector.
    pub receive_timeout: Duration,
    /// Connection to the scheduler.
    pub connector: C,
    /// The signals kept so far, in arrival order.
    pub entries: Vec<Signal>,
    /// The recorder's clock, aligned by the startup synchronisation signal.
    pub clock: Clock,
}

impl<C: ConnectRecorder> Recorder<C> {
    /// Create a new instance over an already connected transport.
    pub fn new(config: RecorderConfig, connector: C) -> (recorder: Recorder<C>)
        ensures
            recorder.id == config.id,
            recorder.record_file == config.record_file,
            recorder.rules == config.rules,
            recorder.receive_timeout == config.receive_timeout,
            recorder.entries@ == Seq::<Signal>::empty(),
    {
        let RecorderConfig {
            id,
            record_file,
            rules,
            receive_timeout,
            bind_address_senders: _,
            bind_address_receivers: _,
        } = config;
        Recorder {
            id,
            record_file,
            rules,
            receive_timeout,
            connector,
            entries: Vec::new(),
            clock: Clock::new_unsynchronised(),
        }
    }

    /// Observe one signal: keep it exactly when the rules select its
    /// variant, and produce the readiness acknowledgement exactly when it
    /// ends a task chain.
    pub fn observe(&mut self, signal: Signal) -> (ack: Option<Signal>)
        ensures
            final(self).entries@ == if old(self).rules.spec_records(signal.spec_kind()) {
                old(self).entries@.push(signal)
            } else {
                old(self).entries@
            },
            final(self).rules == old(self).rules,
            final(self).id == old(self).id,
            (ack is Some) <==> (signal matches Signal::TaskChainEnd(_)),
            ack matches Some(a) ==> (a matches Signal::RecorderReady(p) && p.0 == old(self).id),
    {
        if self.rules.records(signal.kind()) {
            self.entries.push(signal);
        }
        match signal {
            Signal::TaskChainEnd(_) => {
                Some(Signal::RecorderReady((self.id, self.clock.now())))
            },
            _ => None,
        }
    }

    /// Run the recorder: observe up to `max_signals` signals (a timeout
    /// consumes one too, so the loop is bounded), aligning the clock on
    /// `StartupSync` and acknowledging every task-chain end. The kept
    /// entries only grow, and every signal appended during the run is of a
    /// variant the rules select. Ends with the transport error when the
    /// channel closes, and with `Ok` when the bound is reached.
    pub fn run(&mut self, max_signals: u64) -> (r: Result<(), Error>)
        ensures
            r matches Err(e) ==> (e matches Error::Channel(_) || e matches Error::Io(_) || e
                matches Error::Timeout(_, _)),
            final(self).rules == old(self).rules,
            final(self).id == old(self).id,
            final(self).entries@.len() >= old(self).entries@.len(),
            final(self).entries@.take(old(self).entries@.len() as int) == old(self).entries@,
            forall|i: int| old(self).entries@.len() <= i < final(self).entries@.len()
                ==> final(self).rules.spec_records(
                (#[trigger] final(self).entries@[i]).spec_kind()),
    {
        let mut fuel = max_signals;
        while fuel > 0
            invariant
                self.rules == old(self).rules,
                self.id == old(self).id,
                self.entries@.len() >= old(self).entries@.len(),
                self.entries@.take(old(self).entries@.len() as int) == old(self).entries@,
                forall|i: int| old(self).entries@.len() <= i < self.entries@.len()
                    ==> self.rules.spec_records((#[trigger] self.entries@[i]).spec_kind()),
            decreases fuel,
        {
            fuel = fuel - 1;
            let received = self.connector.receive(self.receive_timeout);
            match received {
                Ok(None) => {},
                Ok(Some(signal)) => {
                    match signal {
                        Signal::StartupSync(sync_info) => {
                            let local = system_now_nanos();
                            self.clock = Clock::new(sync_info, local);
                        },
                        other => {
                            let ghost prev_entries = self.entries@;
                            let ack = self.observe(other);
                            proof {
                                assert(self.entries@.take(old(self).entries@.len() as int)
                                    =~= old(self).entries@);
                            }
                            match ack {
                                Some(ready) => {
                                    let sent = self.connector.send_to_scheduler(&ready);
                                    match sent {
                                        Ok(()) => {},
                                        Err(e) => {
                                            return Err(e);
                                        },
                                    }
                                },
                                None => {},
                            }
                        },
                    }
                },
                Err(e) => {
                    return Err(e);
                },
            }
        }
        Ok(())
    }
}

} // verus!
