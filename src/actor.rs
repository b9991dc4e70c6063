//! The statistics actor: the periodic differentiator over driver accumulators
//! and the handling of its commands. The actor's loop, its timer and its
//! reply channels are driven from outside; every decision is taken here.

use vstd::prelude::*;
use crate::hub::{entry_from, MessageKey};
use crate::stats::{
    calculate_driver_stats, calculate_stats, derived, DriverStats, DriverStatsInfo,
    DriverStatsInfoInner, DriverStatsInner,
};

verus! {

/// The sample recorded under `name` in `s`, looking from index `i` on.
pub open spec fn sample_from(s: Seq<(String, DriverStatsInfo)>, name: Seq<char>, i: int) -> Option<DriverStatsInfo>
    decreases s.len() - i,
{
    if i < 0 || i >= s.len() {
        None
    } else if s[i].0@ == name {
        Some(s[i].1)
    } else {
        sample_from(s, name, i + 1)
    }
}

pub open spec fn sample_of(s: Seq<(String, DriverStatsInfo)>, name: Seq<char>) -> Option<DriverStatsInfo> {
    sample_from(s, name, 0)
}

/// Both directions of one driver derived from its previous and current sample.
pub open spec fn derived_stats(last: Option<DriverStatsInfo>, current: DriverStatsInfo, start_time: u64) -> DriverStats {
    DriverStats {
        input: derived(match last { Some(l) => l.input, None => None }, current.input, start_time),
        output: derived(match last { Some(l) => l.output, None => None }, current.output, start_time),
    }
}

/// What one sampling step publishes: for each driver of the current sample,
/// its statistics against its own previous sample.
pub open spec fn sampled(
    last: Seq<(String, DriverStatsInfo)>,
    current: Seq<(String, DriverStatsInfo)>,
    start_time: u64,
    out: Seq<(String, DriverStats)>,
) -> bool {
    &&& out.len() == current.len()
    &&& forall|i: int| 0 <= i < current.len() ==> {
        &&& (#[trigger] out[i]).0@ == current[i].0@
        &&& out[i].1 == derived_stats(sample_of(last, current[i].0@), current[i].1, start_time)
    }
}

/// What one sampling step publishes for the message streams: for each
/// stream of the current sample, its statistics against its own previous
/// sample.
pub open spec fn sampled_messages(
    last: Seq<(MessageKey, DriverStatsInfoInner)>,
    current: Seq<(MessageKey, DriverStatsInfoInner)>,
    start_time: u64,
    out: Seq<(MessageKey, DriverStatsInner)>,
) -> bool {
    &&& out.len() == current.len()
    &&& forall|i: int| 0 <= i < current.len() ==> {
        &&& (#[trigger] out[i]).0 == current[i].0
        &&& Some(out[i].1) == derived(entry_from(last, current[i].0, 0), Some(current[i].1), start_time)
    }
}

pub open spec fn total_messages(d: Option<DriverStatsInner>) -> nat {
    match d {
        Some(x) => x.total_messages as nat,
        None => 0,
    }
}

/// A request to the statistics actor.
#[derive(Clone, Copy, Debug, PartialEq, Eq)]
pub enum StatsCommand {
    /// Sample every `period_us` microseconds from now on.
    SetPeriod { period_us: u64 },
    /// Forget every sample and count averages from now on. Whoever runs the
    /// actor also resets the accumulators of every driver.
    Reset,
    /// The statistics of the last sampling step, per driver.
    GetDriversStats,
    /// The statistics of the last sampling step, over all drivers.
    GetHubStats,
    /// The statistics of the last sampling step, per message stream.
    GetHubMessagesStats,
}

/// The one reply to each command.
#[derive(Debug)]
pub enum StatsReply {
    PeriodSet,
    ResetDone,
    DriversStats(Vec<(String, DriverStats)>),
    HubStats(DriverStats),
    HubMessagesStats(Vec<(MessageKey, DriverStatsInner)>),
}

pub open spec fn answers(c: StatsCommand, r: StatsReply) -> bool {
    match c {
        StatsCommand::SetPeriod { .. } => r is PeriodSet,
        StatsCommand::Reset => r is ResetDone,
        StatsCommand::GetDriversStats => r is DriversStats,
        StatsCommand::GetHubStats => r is HubStats,
        StatsCommand::GetHubMessagesStats => r is HubMessagesStats,
    }
}

pub struct StatsActor {
    start_time: u64,
    update_period_us: u64,
    last_raw: Vec<(String, DriverStatsInfo)>,
    driver_stats: Vec<(String, DriverStats)>,
    last_hub: Option<DriverStatsInfo>,
    hub_stats: DriverStats,
    last_messages: Vec<(MessageKey, DriverStatsInfoInner)>,
    messages_stats: Vec<(MessageKey, DriverStatsInner)>,
}

impl StatsActor {
    pub closed spec fn start(self) -> u64 {
        self.start_time
    }

    pub closed spec fn period(self) -> u64 {
        self.update_period_us
    }

    /// The accumulators seen at the last sampling step.
    pub closed spec fn last(self) -> Seq<(String, DriverStatsInfo)> {
        self.last_raw@
    }

    /// The statistics published by the last sampling step.
    pub closed spec fn published(self) -> Seq<(String, DriverStats)> {
        self.driver_stats@
    }

    /// The hub totals seen at the last sampling step.
    pub closed spec fn last_hub_sample(self) -> Option<DriverStatsInfo> {
        self.last_hub
    }

    /// The hub statistics published by the last sampling step.
    pub closed spec fn published_hub(self) -> DriverStats {
        self.hub_stats
    }

    /// The message stream counters seen at the last sampling step.
    pub closed spec fn last_messages(self) -> Seq<(MessageKey, DriverStatsInfoInner)> {
        self.last_messages@
    }

    /// The message stream statistics published by the last sampling step.
    pub closed spec fn published_messages(self) -> Seq<(MessageKey, DriverStatsInner)> {
        self.messages_stats@
    }

    /// Both actors hold the same samples and published statistics.
    pub open spec fn same_samples(self, other: Self) -> bool {
        &&& self.start() == other.start()
        &&& self.last() == other.last()
        &&& self.published() == other.published()
        &&& self.last_hub_sample() == other.last_hub_sample()
        &&& self.published_hub() == other.published_hub()
        &&& self.last_messages() == other.last_messages()
        &&& self.published_messages() == other.published_messages()
    }

    /// Nothing sampled and nothing published.
    pub open spec fn is_cleared(self) -> bool {
        &&& self.last().len() == 0
        &&& self.published().len() == 0
        &&& self.last_hub_sample() is None
        &&& self.published_hub() == (DriverStats { input: None, output: None })
        &&& self.last_messages().len() == 0
        &&& self.published_messages().len() == 0
    }

    /// An actor that samples every `update_period_us` microseconds and counts
    /// averages from `now`.
    pub fn new(update_period_us: u64, now: u64) -> (r: Self)
        ensures
            r.start() == now,
            r.period() == update_period_us,
            r.is_cleared(),
    {
        StatsActor {
            start_time: now,
            update_period_us,
            last_raw: Vec::new(),
            driver_stats: Vec::new(),
            last_hub: None,
            hub_stats: DriverStats { input: None, output: None },
            last_messages: Vec::new(),
            messages_stats: Vec::new(),
        }
    }

    pub fn update_period(&self) -> (r: u64)
        ensures
            r == self.period(),
    {
        self.update_period_us
    }

    /// A copy of the statistics published by the last sampling step.
    pub fn drivers_stats(&self) -> (r: Vec<(String, DriverStats)>)
        ensures
            r@ == self.published(),
    {
        let mut out: Vec<(String, DriverStats)> = Vec::new();
        let mut i: usize = 0;
        while i < self.driver_stats.len()
            invariant
                i <= self.driver_stats@.len(),
                out@ == self.driver_stats@.subrange(0, i as int),
            decreases self.driver_stats@.len() - i,
        {
            let name = self.driver_stats[i].0.clone();
            out.push((name, self.driver_stats[i].1));
            i = i + 1;
            proof {
                assert(out@ =~= self.driver_stats@.subrange(0, i as int));
            }
        }
        proof {
            assert(out@ =~= self.driver_stats@);
        }
        out
    }

    pub fn set_period(&mut self, period_us: u64)
        ensures
            final(self).period() == period_us,
            final(self).same_samples(*old(self)),
    {
        self.update_period_us = period_us;
    }

    /// Forgets every sample and every published statistic, and counts
    /// averages from `now`.
    pub fn reset(&mut self, now: u64)
        ensures
            final(self).start() == now,
            final(self).period() == old(self).period(),
            final(self).is_cleared(),
    {
        self.start_time = now;
        self.last_raw = Vec::new();
        self.driver_stats = Vec::new();
        self.last_hub = None;
        self.hub_stats = DriverStats { input: None, output: None };
        self.last_messages = Vec::new();
        self.messages_stats = Vec::new();
    }

    /// The hub statistics published by the last sampling step.
    pub fn hub_stats(&self) -> (r: DriverStats)
        ensures
            r == self.published_hub(),
    {
        self.hub_stats
    }

    /// A copy of the message stream statistics published by the last
    /// sampling step.
    pub fn messages_stats(&self) -> (r: Vec<(MessageKey, DriverStatsInner)>)
        ensures
            r@ == self.published_messages(),
    {
        let mut out: Vec<(MessageKey, DriverStatsInner)> = Vec::new();
        let mut i: usize = 0;
        while i < self.messages_stats.len()
            invariant
                i <= self.messages_stats@.len(),
                out@ == self.messages_stats@.subrange(0, i as int),
            decreases self.messages_stats@.len() - i,
        {
            out.push(self.messages_stats[i]);
            i = i + 1;
            proof {
                assert(out@ =~= self.messages_stats@.subrange(0, i as int));
            }
        }
        proof {
            assert(out@ =~= self.messages_stats@);
        }
        out
    }

    /// One sampling step of the hub totals: derives their statistics against
    /// the previous totals and keeps `current` for the next step.
    pub fn update_hub_stats(&mut self, current: DriverStatsInfo)
        ensures
            final(self).published_hub() == derived_stats(old(self).last_hub_sample(), current, old(self).start()),
            final(self).last_hub_sample() == Some(current),
            final(self).start() == old(self).start(),
            final(self).period() == old(self).period(),
            final(self).last() == old(self).last(),
            final(self).published() == old(self).published(),
            final(self).last_messages() == old(self).last_messages(),
            final(self).published_messages() == old(self).published_messages(),
    {
        self.hub_stats = calculate_stats(self.last_hub, current, self.start_time);
        self.last_hub = Some(current);
    }

    fn find_last_message(&self, key: MessageKey) -> (r: Option<DriverStatsInfoInner>)
        ensures
            r == entry_from(self.last_messages(), key, 0),
    {
        let mut i: usize = 0;
        while i < self.last_messages.len()
            invariant
                i <= self.last_messages@.len(),
                entry_from(self.last_messages@, key, 0) == entry_from(self.last_messages@, key, i as int),
            decreases self.last_messages@.len() - i,
        {
            let k = self.last_messages[i].0;
            if k.system_id == key.system_id && k.component_id == key.component_id
                && k.message_id == key.message_id {
                return Some(self.last_messages[i].1);
            }
            i = i + 1;
        }
        None
    }

    /// One sampling step of the message streams: derives the statistics of
    /// every stream in `current` against its previous sample, publishes them,
    /// and keeps `current` for the next step.
    pub fn update_messages_stats(&mut self, current: Vec<(MessageKey, DriverStatsInfoInner)>)
        ensures
            sampled_messages(old(self).last_messages(), current@, old(self).start(), final(self).published_messages()),
            final(self).last_messages() == current@,
            final(self).start() == old(self).start(),
            final(self).period() == old(self).period(),
            final(self).last() == old(self).last(),
            final(self).published() == old(self).published(),
    {
        let mut out: Vec<(MessageKey, DriverStatsInner)> = Vec::new();
        let mut i: usize = 0;
        while i < current.len()
            invariant
                i <= current@.len(),
                out@.len() == i,
                forall|k: int| 0 <= k < i ==> {
                    &&& (#[trigger] out@[k]).0 == current@[k].0
                    &&& Some(out@[k].1) == derived(
                        entry_from(self.last_messages(), current@[k].0, 0),
                        Some(current@[k].1),
                        self.start(),
                    )
                },
            decreases current@.len() - i,
        {
            let key = current[i].0;
            let last = self.find_last_message(key);
            match calculate_driver_stats(last, Some(current[i].1), self.start_time) {
                Some(stats) => out.push((key, stats)),
                None => {},
            }
            i = i + 1;
        }
        self.messages_stats = out;
        self.last_messages = current;
    }

    fn find_last(&self, name: &String) -> (r: Option<DriverStatsInfo>)
        ensures
            r == sample_of(self.last(), name@),
    {
        let mut i: usize = 0;
        while i < self.last_raw.len()
            invariant
                i <= self.last_raw@.len(),
                sample_of(self.last_raw@, name@) == sample_from(self.last_raw@, name@, i as int),
            decreases self.last_raw@.len() - i,
        {
            if self.last_raw[i].0 == *name {
                return Some(self.last_raw[i].1);
            }
            i = i + 1;
        }
        None
    }

    /// One sampling step: derives the statistics of every driver in `current`
    /// against its previous sample, publishes them, and keeps `current` as the
    /// previous sample of the next step.
    pub fn update_driver_stats(&mut self, current: Vec<(String, DriverStatsInfo)>)
        ensures
            sampled(old(self).last(), current@, old(self).start(), final(self).published()),
            final(self).last() == current@,
            final(self).start() == old(self).start(),
            final(self).period() == old(self).period(),
            final(self).last_hub_sample() == old(self).last_hub_sample(),
            final(self).published_hub() == old(self).published_hub(),
            final(self).last_messages() == old(self).last_messages(),
            final(self).published_messages() == old(self).published_messages(),
    {
        let mut out: Vec<(String, DriverStats)> = Vec::new();
        let mut i: usize = 0;
        while i < current.len()
            invariant
                i <= current@.len(),
                out@.len() == i,
                forall|k: int| 0 <= k < i ==> {
                    &&& (#[trigger] out@[k]).0@ == current@[k].0@
                    &&& out@[k].1 == derived_stats(
                        sample_of(self.last(), current@[k].0@),
                        current@[k].1,
                        self.start(),
                    )
                },
            decreases current@.len() - i,
        {
            let last = self.find_last(&current[i].0);
            let stats = calculate_stats(last, current[i].1, self.start_time);
            let name = current[i].0.clone();
            out.push((name, stats));
            i = i + 1;
        }
        self.driver_stats = out;
        self.last_raw = current;
    }

    /// Handles one command and returns its reply: exactly one, of the kind the
    /// command asks for.
    pub fn handle_command(&mut self, command: StatsCommand, now: u64) -> (r: StatsReply)
        ensures
            answers(command, r),
            match command {
                StatsCommand::SetPeriod { period_us } => {
                    &&& final(self).period() == period_us
                    &&& final(self).same_samples(*old(self))
                },
                StatsCommand::Reset => {
                    &&& final(self).start() == now
                    &&& final(self).period() == old(self).period()
                    &&& final(self).is_cleared()
                },
                StatsCommand::GetDriversStats => {
                    &&& *final(self) == *old(self)
                    &&& r matches StatsReply::DriversStats(v) && v@ == old(self).published()
                },
                StatsCommand::GetHubStats => {
                    &&& *final(self) == *old(self)
                    &&& r matches StatsReply::HubStats(v) && v == old(self).published_hub()
                },
                StatsCommand::GetHubMessagesStats => {
                    &&& *final(self) == *old(self)
                    &&& r matches StatsReply::HubMessagesStats(v) && v@ == old(self).published_messages()
                },
            },
    {
        match command {
            StatsCommand::SetPeriod { period_us } => {
                self.set_period(period_us);
                StatsReply::PeriodSet
            },
            StatsCommand::Reset => {
                self.reset(now);
                StatsReply::ResetDone
            },
            StatsCommand::GetDriversStats => StatsReply::DriversStats(self.drivers_stats()),
            StatsCommand::GetHubStats => StatsReply::HubStats(self.hub_stats()),
            StatsCommand::GetHubMessagesStats => StatsReply::HubMessagesStats(self.messages_stats()),
        }
    }
}

/// Once the accumulators of every driver have been reset, the next sampling
/// step reports no message in any direction, whatever was sampled before.
pub proof fn lemma_reset_zeroes_totals(
    last: Seq<(String, DriverStatsInfo)>,
    current: Seq<(String, DriverStatsInfo)>,
    start_time: u64,
    out: Seq<(String, DriverStats)>,
)
    requires
        forall|i: int| 0 <= i < current.len() ==> (#[trigger] current[i]).1.input.is_none()
            && current[i].1.output.is_none(),
        sampled(last, current, start_time, out),
    ensures
        forall|i: int| 0 <= i < out.len() ==> total_messages((#[trigger] out[i]).1.input) == 0
            && total_messages(out[i].1.output) == 0,
{
    assert forall|i: int| 0 <= i < out.len() implies total_messages((#[trigger] out[i]).1.input) == 0
        && total_messages(out[i].1.output) == 0 by {
        assert(current[i].1.input.is_none());
    }
}

} // verus!
