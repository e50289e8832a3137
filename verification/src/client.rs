//! The client's bookkeeping: which connection attempt to start or to collect
//! next, and the report that sums up a run.

use crate::addr::{normalize_addr, normalized, AddrError};
use crate::args::ClientArgs;
use crate::latency::{merge_all, Latency, Summary};
use crate::pacer::{lemma_first_millisecond_never_waits, pacing, Pacer};
use vstd::prelude::*;

verus! {

/// The port that a target without one is given.
pub open spec fn default_port() -> Seq<char> {
    seq!['1', '1', '1', '1', '1']
}

/// Brings the target of a client run to its canonical form, with the default
/// port 11111 where it names none. A malformed target is refused, and the
/// configuration stays as it was.
pub fn normalize_target(args: &mut ClientArgs) -> (r: Result<(), AddrError>)
    ensures
        final(args).conns == old(args).conns,
        final(args).cps == old(args).cps,
        final(args).print_latency == old(args).print_latency,
        match normalized(old(args).target@, default_port()) {
            Some(s) => r is Ok && final(args).target@ == s,
            None => r == Err::<(), AddrError>(AddrError::TooManyColons) && final(args).target@
                == old(args).target@,
        },
{
    proof {
        reveal_strlit("11111");
        assert("11111"@ =~= default_port());
    }
    normalize_addr(&mut args.target, "11111")
}

/// What the client does next while it sets up its connections.
#[derive(Debug, Clone, Copy, PartialEq, Eq, Structural)]
pub enum ConnectStep {
    /// Start the next connection attempt at once.
    Connect,
    /// Sleep for so many milliseconds, then start the next attempt.
    SleepThenConnect { millis: u64 },
    /// Wait for the oldest attempt in flight and keep its connection.
    Retire,
    /// Every connection is established.
    Done,
}

/// The mathematical value of a connection plan.
pub struct ConnectModel {
    /// Attempts to start per second.
    pub rate: u64,
    /// Connections wanted.
    pub conns: u32,
    /// Attempts started.
    pub issued: u32,
    /// Attempts collected, each an established connection.
    pub established: u32,
}

impl ConnectModel {
    /// A plan on which nothing has happened yet.
    pub open spec fn start(conns: u32, cps: u32) -> ConnectModel {
        ConnectModel { rate: cps as u64, conns, issued: 0, established: 0 }
    }

    /// No more is collected than was started, and no more started than wanted.
    pub open spec fn wf(self) -> bool {
        self.established <= self.issued <= self.conns
    }

    /// Attempts started and not yet collected.
    pub open spec fn in_flight(self) -> int {
        self.issued - self.established
    }

    /// Steps still to take before the plan is done.
    pub open spec fn remaining_steps(self) -> int {
        2 * self.conns - self.issued - self.established
    }

    /// The next step, where `wait` is the pacer's answer for the next
    /// attempt.
    ///
    /// While attempts are left to start: on "proceed" the next one is
    /// started; on "wait" the oldest attempt in flight is collected instead
    /// of sleeping, and only where none is in flight the client sleeps. Once
    /// all are started, those in flight are collected, oldest first.
    pub open spec fn decide(self, wait: Option<u64>) -> ConnectStep {
        if self.issued < self.conns {
            match wait {
                Some(millis) => if self.in_flight() > 0 {
                    ConnectStep::Retire
                } else {
                    ConnectStep::SleepThenConnect { millis }
                },
                None => ConnectStep::Connect,
            }
        } else if self.in_flight() > 0 {
            ConnectStep::Retire
        } else {
            ConnectStep::Done
        }
    }

    /// The plan after `step` was taken.
    pub open spec fn apply(self, step: ConnectStep) -> ConnectModel {
        match step {
            ConnectStep::Connect | ConnectStep::SleepThenConnect { .. } => ConnectModel {
                issued: (self.issued + 1) as u32,
                ..self
            },
            ConnectStep::Retire => ConnectModel {
                established: (self.established + 1) as u32,
                ..self
            },
            ConnectStep::Done => self,
        }
    }
}

/// The plan by which a client sets up its connections at a paced rate.
pub struct ConnectPlan {
    pacer: Pacer,
    conns: u32,
    issued: u32,
    established: u32,
}

impl View for ConnectPlan {
    type V = ConnectModel;

    closed spec fn view(&self) -> ConnectModel {
        ConnectModel {
            rate: self.pacer.rate(),
            conns: self.conns,
            issued: self.issued,
            established: self.established,
        }
    }
}

impl ConnectPlan {
    /// A plan for `conns` connections at `cps` attempts per second, whose
    /// schedule starts now.
    pub fn new(conns: u32, cps: u32) -> (r: ConnectPlan)
        ensures
            r@ == ConnectModel::start(conns, cps),
            r@.wf(),
    {
        ConnectPlan { pacer: Pacer::new(cps as u64), conns, issued: 0, established: 0 }
    }

    /// Attempts started.
    pub fn issued(&self) -> (r: u32)
        ensures
            r == self@.issued,
    {
        self.issued
    }

    /// Connections established.
    pub fn established(&self) -> (r: u32)
        ensures
            r == self@.established,
    {
        self.established
    }

    /// Decides the next step from the pacer's answer `wait` for the next
    /// attempt, and books it as taken.
    pub fn step_with(&mut self, wait: Option<u64>) -> (r: ConnectStep)
        requires
            old(self)@.wf(),
        ensures
            r == old(self)@.decide(wait),
            final(self)@ == old(self)@.apply(r),
            final(self)@.wf(),
    {
        if self.issued < self.conns {
            match wait {
                Some(millis) => {
                    if self.issued > self.established {
                        self.established = self.established + 1;
                        ConnectStep::Retire
                    } else {
                        self.issued = self.issued + 1;
                        ConnectStep::SleepThenConnect { millis }
                    }
                },
                None => {
                    self.issued = self.issued + 1;
                    ConnectStep::Connect
                },
            }
        } else if self.issued > self.established {
            self.established = self.established + 1;
            ConnectStep::Retire
        } else {
            ConnectStep::Done
        }
    }

    /// Decides the next step at the time of the call, and books it as taken.
    /// The pacer is consulted only while attempts are left to start.
    pub fn step(&mut self) -> (r: ConnectStep)
        requires
            old(self)@.wf(),
        ensures
            old(self)@.issued < old(self)@.conns ==> exists|elapsed_ms: int|
                0 <= elapsed_ms && r == old(self)@.decide(
                    #[trigger] pacing(old(self)@.rate, old(self)@.issued as u64, elapsed_ms),
                ),
            old(self)@.issued >= old(self)@.conns ==> r == old(self)@.decide(None),
            final(self)@ == old(self)@.apply(r),
            final(self)@.wf(),
    {
        if self.issued < self.conns {
            let wait = self.pacer.get_sleep_duration(self.issued as u64);
            proof {
                let elapsed_ms = choose|e: int|
                    0 <= e && wait == #[trigger] pacing(
                        self.pacer.rate(),
                        self.issued as u64,
                        e,
                    );
                assert(0 <= elapsed_ms && old(self)@.decide(wait) == old(self)@.decide(
                    pacing(old(self)@.rate, old(self)@.issued as u64, elapsed_ms),
                ));
            }
            self.step_with(wait)
        } else {
            self.step_with(None)
        }
    }
}

/// Every step keeps the plan well formed and, but for the last, brings it
/// one step nearer to its end; an attempt is collected only where one is in
/// flight, the client sleeps only where none is, and the plan is done
/// exactly when all the connections wanted are established.
pub proof fn lemma_connect_progress(m: ConnectModel, wait: Option<u64>)
    requires
        m.wf(),
    ensures
        m.apply(m.decide(wait)).wf(),
        m.decide(wait) != ConnectStep::Done ==> m.apply(m.decide(wait)).remaining_steps()
            == m.remaining_steps() - 1,
        m.decide(wait) == ConnectStep::Retire ==> m.in_flight() > 0,
        m.decide(wait) matches ConnectStep::SleepThenConnect { millis } ==> m.in_flight() == 0
            && wait == Some(millis),
        m.decide(wait) == ConnectStep::Done <==> m.established == m.conns,
        0 <= m.in_flight() <= m.conns,
{
}

/// Where the rate is at least a thousand times the number of connections,
/// every attempt is due at once: whatever time has passed, the next step
/// while attempts are left is to connect, never to sleep.
pub proof fn lemma_fast_rate_never_sleeps(m: ConnectModel, elapsed_ms: int)
    requires
        m.wf(),
        1000 * m.conns <= m.rate,
        m.issued < m.conns,
        0 <= elapsed_ms,
    ensures
        m.decide(pacing(m.rate, m.issued as u64, elapsed_ms)) == ConnectStep::Connect,
{
    lemma_first_millisecond_never_waits(m.rate, m.issued as u64, elapsed_ms);
}

/// The figures that a client run reports.
#[derive(Debug, Clone, Copy, PartialEq, Eq, Structural)]
pub struct Report {
    pub num: i64,
    pub min: i64,
    pub max: i64,
    pub average: i64,
}

/// Whether `base` can take in `items` one after the other without its sum or
/// count leaving 64 signed bits.
pub open spec fn mergeable(base: Summary, items: Seq<Summary>) -> bool {
    forall|k: int| 0 <= k <= items.len() ==> (#[trigger] merge_all(base, items.take(k))).fits()
}

/// Whether the figures of `total` can be reported.
pub open spec fn reportable(total: Summary) -> bool {
    total.fits() && i64::MIN <= total.average() <= i64::MAX
}

/// The report of an aggregate.
pub open spec fn report_of(total: Summary) -> Report {
    Report {
        num: total.count as i64,
        min: total.min,
        max: total.max,
        average: total.average() as i64,
    }
}

/// The report of a run from the aggregates of its connections, merged in the
/// order given. `None` where a sum, a count or the average is not
/// representable in 64 signed bits.
pub fn summarize(reports: &Vec<Latency>) -> (r: Option<Report>)
    requires
        forall|k: int| 0 <= k < reports@.len() ==> (#[trigger] reports@[k]).wf(),
    ensures
        r == if mergeable(Summary::empty(), reports@.map_values(|l: Latency| l@)) && reportable(
            merge_all(Summary::empty(), reports@.map_values(|l: Latency| l@)),
        ) {
            Some(report_of(merge_all(Summary::empty(), reports@.map_values(|l: Latency| l@))))
        } else {
            None
        },
{
    let ghost items = reports@.map_values(|l: Latency| l@);
    let mut total = Latency::new();
    let mut i: usize = 0;
    while i < reports.len()
        invariant
            i <= reports.len(),
            items == reports@.map_values(|l: Latency| l@),
            total.wf(),
            total@ == merge_all(Summary::empty(), items.take(i as int)),
            forall|k: int| 0 <= k < reports@.len() ==> (#[trigger] reports@[k]).wf(),
            forall|k: int|
                0 <= k <= i ==> (#[trigger] merge_all(Summary::empty(), items.take(k))).fits(),
        decreases reports.len() - i,
    {
        let other = &reports[i];
        proof {
            assert(items.take(i + 1).drop_last() =~= items.take(i as int));
            assert(items.take(i + 1).last() == other@);
        }
        let sum_fits = total.sum().checked_add(other.sum()).is_some();
        let num_fits = total.num().checked_add(other.num()).is_some();
        if !(sum_fits && num_fits) {
            assert(!merge_all(Summary::empty(), items.take(i + 1)).fits());
            return None;
        }
        total.merge(other);
        i = i + 1;
    }
    proof {
        assert(items.take(i as int) =~= items);
    }
    match total.checked_average() {
        Some(average) => Some(
            Report { num: total.num(), min: total.min(), max: total.max(), average },
        ),
        None => None,
    }
}

} // verus!
