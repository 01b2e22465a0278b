//! The per-worker consumer: it decodes the records of one channel, counts
//! them, filters them and renders those that the filter admits.
//!
//! A consumer owns its counters; they are never shared between workers.

use std::collections::HashMap;
use vstd::prelude::*;
use crate::event::{holds_event, record_event, NetworkEvent};
use crate::filter::Filter;
use crate::mode::{format_event_with_mode, rendering, Rendered};
use crate::render::DisplayMode;

verus! {

/// Counters of one worker.
#[derive(Debug, Clone)]
pub struct PerWorkerStats {
    /// Events decoded.
    pub total: u64,
    /// Events that the filter admitted.
    pub filtered: u64,
    /// Events that the filter admitted, by protocol number.
    pub per_protocol: HashMap<u8, u64>,
}

/// How events are rendered.
#[derive(Debug, Clone, Copy)]
pub struct RenderOptions {
    /// The display mode.
    pub mode: DisplayMode,
    /// Number of payload bytes to show in the hex and text modes.
    pub payload_bytes: usize,
    /// Show all of the captured payload, whatever `payload_bytes` says.
    pub payload_full: bool,
    /// Rows to a page of a hex dump; 0 for no pagination.
    pub page_lines: usize,
}

/// What became of one record.
#[derive(Debug, Clone)]
pub enum Outcome {
    /// The record holds no event; nothing was counted.
    Malformed,
    /// The event was counted, and the filter did not admit it.
    Dropped(NetworkEvent),
    /// The event was counted and admitted; it is to be written out as
    /// rendered.
    Shown(NetworkEvent, Rendered),
}

/// The consumer of one channel.
#[derive(Debug, Clone)]
pub struct Consumer {
    pub filter: Filter,
    pub options: RenderOptions,
    pub stats: PerWorkerStats,
}

/// The count that a map of counters holds for a protocol: 0 where it holds
/// none.
pub open spec fn count_in(counters: Map<u8, u64>, protocol: u8) -> nat {
    if counters.contains_key(protocol) {
        counters[protocol] as nat
    } else {
        0
    }
}

impl PerWorkerStats {
    /// Number of admitted events counted for a protocol.
    pub open spec fn count(&self, protocol: u8) -> nat {
        count_in(self.per_protocol@, protocol)
    }

    /// No counter exceeds the one above it: each protocol counter is at
    /// most the number of admitted events, which is at most the total.
    pub open spec fn wf(&self) -> bool {
        &&& self.filtered <= self.total
        &&& forall|protocol: u8| #[trigger]
            count_in(self.per_protocol@, protocol) <= self.filtered
    }

    /// The counters of `self` are those of `before` after one more event
    /// of the given protocol, admitted or not.
    pub open spec fn counts_one_more(
        &self,
        before: PerWorkerStats,
        protocol: u8,
        admitted: bool,
    ) -> bool {
        &&& self.total == before.total + 1
        &&& if admitted {
            &&& self.filtered == before.filtered + 1
            &&& self.per_protocol@ == before.per_protocol@.insert(
                protocol,
                (before.count(protocol) + 1) as u64,
            )
        } else {
            &&& self.filtered == before.filtered
            &&& self.per_protocol@ == before.per_protocol@
        }
    }

    /// Counters at zero.
    pub fn new() -> (stats: PerWorkerStats)
        ensures
            stats.wf(),
            stats.total == 0,
            stats.filtered == 0,
            stats.per_protocol@ == Map::<u8, u64>::empty(),
    {
        PerWorkerStats { total: 0, filtered: 0, per_protocol: HashMap::new() }
    }

    /// Counts one event of the given protocol.
    pub fn count_event(&mut self, protocol: u8, admitted: bool)
        requires
            old(self).wf(),
            old(self).total < u64::MAX,
        ensures
            final(self).wf(),
            final(self).counts_one_more(*old(self), protocol, admitted),
    {
        broadcast use vstd::std_specs::hash::group_hash_axioms;

        self.total = self.total + 1;
        if admitted {
            let ghost before = self.per_protocol@;
            assert(count_in(before, protocol) <= self.filtered);
            let count = match self.per_protocol.get(&protocol) {
                Some(n) => *n,
                None => 0,
            };
            self.filtered = self.filtered + 1;
            self.per_protocol.insert(protocol, count + 1);
            proof {
                assert forall|p: u8| #[trigger]
                    count_in(self.per_protocol@, p) <= self.filtered by {
                    assert(count_in(before, p) <= old(self).filtered);
                }
            }
        }
    }
}

impl Consumer {
    /// A consumer with its counters at zero.
    pub fn new(filter: Filter, options: RenderOptions) -> (consumer: Consumer)
        ensures
            consumer.filter == filter,
            consumer.options == options,
            consumer.stats.wf(),
            consumer.stats.total == 0,
            consumer.stats.filtered == 0,
            consumer.stats.per_protocol@ == Map::<u8, u64>::empty(),
    {
        Consumer { filter, options, stats: PerWorkerStats::new() }
    }

    /// Takes one record off the channel.
    ///
    /// A record that holds no event is skipped. Any other record is decoded
    /// field by field and counted; if the filter admits the event, it is
    /// counted as admitted, for its protocol too, and rendered as the
    /// options say, with `timestamp` for the JSON mode. The filter and the
    /// options stay as they are.
    pub fn consume(&mut self, record: &[u8], timestamp: i64) -> (outcome: Outcome)
        requires
            old(self).stats.wf(),
            old(self).stats.total < u64::MAX,
        ensures
            final(self).filter == old(self).filter,
            final(self).options == old(self).options,
            final(self).stats.wf(),
            match outcome {
                Outcome::Malformed => {
                    &&& !holds_event(record@)
                    &&& final(self).stats.total == old(self).stats.total
                    &&& final(self).stats.filtered == old(self).stats.filtered
                    &&& final(self).stats.per_protocol@ == old(self).stats.per_protocol@
                },
                Outcome::Dropped(event) => {
                    &&& holds_event(record@)
                    &&& event.is_record(record@)
                    &&& event.wf()
                    &&& !old(self).filter.admits(record_event(record@))
                    &&& final(self).stats.counts_one_more(
                        old(self).stats,
                        record_event(record@).protocol,
                        false,
                    )
                },
                Outcome::Shown(event, rendered) => {
                    &&& holds_event(record@)
                    &&& event.is_record(record@)
                    &&& event.wf()
                    &&& old(self).filter.admits(record_event(record@))
                    &&& final(self).stats.counts_one_more(
                        old(self).stats,
                        record_event(record@).protocol,
                        true,
                    )
                    &&& rendered@ == rendering(
                        record_event(record@),
                        old(self).options.mode,
                        old(self).options.payload_bytes as nat,
                        old(self).options.payload_full,
                        old(self).options.page_lines as nat,
                        timestamp,
                    )
                },
            },
    {
        let event = match NetworkEvent::from_record(record) {
            Some(event) => event,
            None => {
                return Outcome::Malformed;
            },
        };
        let admitted = self.filter.matches(&event);
        self.stats.count_event(event.protocol, admitted);
        if admitted {
            let rendered = format_event_with_mode(
                &event,
                self.options.mode,
                self.options.payload_bytes,
                self.options.payload_full,
                self.options.page_lines,
                timestamp,
            );
            Outcome::Shown(event, rendered)
        } else {
            Outcome::Dropped(event)
        }
    }
}

} // verus!
