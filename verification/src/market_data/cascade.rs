//! The cascade scheduler: one recurring job per refresh procedure, aligned
//! to a grid of the clock, and never two invocations of one procedure at
//! the same time.

use crate::text::join3;
use vstd::hash_map::StringHashMap;
use vstd::prelude::*;
use vstd::string::*;

verus! {

/// Seconds between two firings of a cascade.
pub const CASCADE_INTERVAL_SECONDS: u64 = 5;

/// The schedule of one procedure.
#[derive(Debug, Clone, Copy, PartialEq, Eq, Structural)]
pub struct CascadeTask {
    pub interval_seconds: u64,
    /// An invocation of the procedure was started and has not ended.
    pub in_flight: bool,
}

/// The schedules, by the name of their procedure.
pub struct CascadeScheduler {
    pub intervals: StringHashMap<CascadeTask>,
}

/// What happens to a scheduler.
pub enum CascadeEvent {
    /// A procedure was scheduled, or scheduled anew.
    Scheduled { procedure: Seq<char>, interval_seconds: u64 },
    /// The timer of a procedure fired.
    TimerFired { procedure: Seq<char> },
    /// The invocation of a procedure ended, well or badly.
    Finished { procedure: Seq<char> },
}

/// The interval at which a timer fires when `interval_seconds` is asked
/// for: no timer fires every 0 seconds, so 0 is taken as 1.
pub open spec fn timer_interval(interval_seconds: u64) -> u64 {
    if interval_seconds == 0 {
        1
    } else {
        interval_seconds
    }
}

/// The schedules after `procedure` is scheduled: a schedule under the same
/// name is replaced, and an invocation in flight stays in flight. The
/// schedule holds the interval at which its timer fires.
pub open spec fn scheduled(
    tasks: Map<Seq<char>, CascadeTask>,
    procedure: Seq<char>,
    interval_seconds: u64,
) -> Map<Seq<char>, CascadeTask> {
    tasks.insert(
        procedure,
        CascadeTask {
            interval_seconds: timer_interval(interval_seconds),
            in_flight: tasks.contains_key(procedure) && tasks[procedure].in_flight,
        },
    )
}

/// Whether a firing of the timer of `procedure` starts an invocation: the
/// procedure is scheduled and none of its invocations is in flight.
pub open spec fn starts(tasks: Map<Seq<char>, CascadeTask>, procedure: Seq<char>) -> bool {
    tasks.contains_key(procedure) && !tasks[procedure].in_flight
}

/// The schedules after the timer of `procedure` fired.
pub open spec fn fired(tasks: Map<Seq<char>, CascadeTask>, procedure: Seq<char>) -> Map<
    Seq<char>,
    CascadeTask,
> {
    if starts(tasks, procedure) {
        tasks.insert(
            procedure,
            CascadeTask { interval_seconds: tasks[procedure].interval_seconds, in_flight: true },
        )
    } else {
        tasks
    }
}

/// The schedules after an invocation of `procedure` ended.
pub open spec fn finished(tasks: Map<Seq<char>, CascadeTask>, procedure: Seq<char>) -> Map<
    Seq<char>,
    CascadeTask,
> {
    if tasks.contains_key(procedure) {
        tasks.insert(
            procedure,
            CascadeTask { interval_seconds: tasks[procedure].interval_seconds, in_flight: false },
        )
    } else {
        tasks
    }
}

/// The schedules after one event.
pub open spec fn after_event(tasks: Map<Seq<char>, CascadeTask>, event: CascadeEvent) -> Map<
    Seq<char>,
    CascadeTask,
> {
    match event {
        CascadeEvent::Scheduled { procedure, interval_seconds } => scheduled(
            tasks,
            procedure,
            interval_seconds,
        ),
        CascadeEvent::TimerFired { procedure } => fired(tasks, procedure),
        CascadeEvent::Finished { procedure } => finished(tasks, procedure),
    }
}

/// The schedules after a run of events.
pub open spec fn after_events(tasks: Map<Seq<char>, CascadeTask>, events: Seq<CascadeEvent>)
    -> Map<Seq<char>, CascadeTask>
    decreases events.len(),
{
    if events.len() == 0 {
        tasks
    } else {
        after_event(after_events(tasks, events.drop_last()), events.last())
    }
}

/// Whether the event at `at` starts an invocation of `procedure`.
pub open spec fn starts_at(
    tasks: Map<Seq<char>, CascadeTask>,
    events: Seq<CascadeEvent>,
    at: int,
    procedure: Seq<char>,
) -> bool {
    &&& 0 <= at < events.len()
    &&& events[at] == (CascadeEvent::TimerFired { procedure })
    &&& starts(after_events(tasks, events.take(at)), procedure)
}

/// The statement that invokes a procedure.
pub open spec fn call_sql(procedure: Seq<char>) -> Seq<char> {
    "CALL "@ + procedure + "()"@
}

/// Seconds to wait at second `current_second` of the minute so that the
/// first firing falls on a second that leaves 1 when divided by 5: the
/// only delay from 1 to 5 that does so.
pub fn initial_delay_seconds(current_second: u32) -> (delay: u32)
    ensures
        1 <= delay <= 5,
        (current_second + delay) % 5 == 1,
{
    let rest = current_second % 5;
    if rest == 0 {
        1
    } else {
        6 - rest
    }
}

impl CascadeScheduler {
    /// The schedules, by the name of their procedure.
    pub open spec fn view(&self) -> Map<Seq<char>, CascadeTask> {
        self.intervals@
    }

    /// A scheduler without schedules.
    pub fn new() -> (s: Self)
        ensures
            s@ == Map::<Seq<char>, CascadeTask>::empty(),
    {
        CascadeScheduler { intervals: StringHashMap::new() }
    }

    /// Schedules a procedure. Says whether a schedule of the same name was
    /// there, which this one replaces: its timer is to be cancelled. An
    /// interval of 0 is scheduled as 1 second.
    pub fn schedule_cascade(&mut self, procedure_name: String, interval_seconds: u64) -> (replaced:
        bool)
        ensures
            final(self)@ == scheduled(old(self)@, procedure_name@, interval_seconds),
            replaced == old(self)@.contains_key(procedure_name@),
    {
        let (replaced, in_flight) = match self.intervals.get(procedure_name.as_str()) {
            Some(task) => (true, task.in_flight),
            None => (false, false),
        };
        let interval_seconds = if interval_seconds == 0 {
            1
        } else {
            interval_seconds
        };
        self.intervals.insert(procedure_name, CascadeTask { interval_seconds, in_flight });
        replaced
    }

    /// The timer of a procedure was cancelled, as the timer of a schedule
    /// is when another takes its place. An invocation that the timer had
    /// started ends with it, so the procedure is no longer in flight and
    /// the next firing can start one.
    pub fn timer_cancelled(&mut self, procedure: &str)
        ensures
            final(self)@ == finished(old(self)@, procedure@),
    {
        self.invocation_finished(procedure);
    }

    /// The interval at which the timer of a procedure fires; `None` for a
    /// procedure that is not scheduled.
    pub fn interval_seconds(&self, procedure: &str) -> (r: Option<u64>)
        ensures
            match r {
                Some(seconds) => self@.contains_key(procedure@) && seconds
                    == self@[procedure@].interval_seconds,
                None => !self@.contains_key(procedure@),
            },
    {
        match self.intervals.get(procedure) {
            Some(task) => Some(task.interval_seconds),
            None => None,
        }
    }

    /// The timer of a procedure fired. Gives the statement to run if an
    /// invocation starts; `None` while the last one is still in flight, and
    /// for a procedure that is not scheduled.
    pub fn timer_fired(&mut self, procedure: &str) -> (call: Option<String>)
        ensures
            final(self)@ == fired(old(self)@, procedure@),
            call is Some <==> starts(old(self)@, procedure@),
            call matches Some(sql) ==> sql@ == call_sql(procedure@),
    {
        let interval_seconds = match self.intervals.get(procedure) {
            Some(task) => {
                if task.in_flight {
                    return None;
                }
                task.interval_seconds
            },
            None => {
                return None;
            },
        };
        self.intervals.insert(
            String::from_str(procedure),
            CascadeTask { interval_seconds, in_flight: true },
        );
        Some(join3("CALL ", procedure, "()"))
    }

    /// The invocation of a procedure ended.
    pub fn invocation_finished(&mut self, procedure: &str)
        ensures
            final(self)@ == finished(old(self)@, procedure@),
    {
        let interval_seconds = match self.intervals.get(procedure) {
            Some(task) => task.interval_seconds,
            None => {
                return;
            },
        };
        self.intervals.insert(
            String::from_str(procedure),
            CascadeTask { interval_seconds, in_flight: false },
        );
    }
}

/// An invocation that was started stays in flight until it ends.
proof fn lemma_in_flight_until_finished(
    tasks: Map<Seq<char>, CascadeTask>,
    events: Seq<CascadeEvent>,
    procedure: Seq<char>,
    started: int,
    until: int,
)
    requires
        starts_at(tasks, events, started, procedure),
        started < until <= events.len(),
        forall|k: int|
            started < k < until ==> #[trigger] events[k] != (CascadeEvent::Finished { procedure }),
    ensures
        after_events(tasks, events.take(until)).contains_key(procedure),
        after_events(tasks, events.take(until))[procedure].in_flight,
    decreases until - started,
{
    let before = events.take(until - 1);
    assert(events.take(until).drop_last() =~= before);
    assert(events.take(until).last() == events[until - 1]);
    if until - 1 == started {
    } else {
        lemma_in_flight_until_finished(tasks, events, procedure, started, until - 1);
        assert(events[until - 1] != (CascadeEvent::Finished { procedure }));
    }
}

/// Between two invocations of one procedure the first has ended: whatever
/// the events, if two firings of the timer both start an invocation of
/// `procedure`, the end of an invocation of it lies between them.
pub proof fn lemma_no_concurrent_invocations(
    tasks: Map<Seq<char>, CascadeTask>,
    events: Seq<CascadeEvent>,
    procedure: Seq<char>,
    first: int,
    second: int,
)
    requires
        first < second,
        starts_at(tasks, events, first, procedure),
        starts_at(tasks, events, second, procedure),
    ensures
        exists|k: int|
            first < k < second && #[trigger] events[k] == (CascadeEvent::Finished { procedure }),
{
    if forall|k: int|
        first < k < second ==> #[trigger] events[k] != (CascadeEvent::Finished { procedure }) {
        lemma_in_flight_until_finished(tasks, events, procedure, first, second);
    }
}

} // verus!
