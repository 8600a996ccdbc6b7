//! A minimal time-of-flight recipe: relative times since the last T-zero.

use vstd::prelude::*;
use crate::event::{Event, EventFlags, EventTime, EventType};

verus! {

/// Gives every event without a relative time its time since the last
/// T-zero event.
#[derive(Debug, Clone, Copy, PartialEq, Eq, Structural)]
pub struct TofStd {
    pub last_t0: EventTime,
}

impl TofStd {
    pub fn new() -> (r: TofStd)
        ensures
            r.last_t0 == EventTime(0),
    {
        TofStd { last_t0: EventTime::zero() }
    }

    /// One event: a T-zero is remembered; any other event without a
    /// relative time gets `time - last_t0` (`None` where that overflows).
    pub open spec fn step(last_t0: EventTime, ev: Event) -> Option<(EventTime, Event)> {
        if ev.evtype is Tzero {
            Some((ev.time, ev))
        } else if ev.flags.has_rel_time() {
            Some((last_t0, ev))
        } else if i64::MIN <= ev.time.0 - last_t0.0 <= i64::MAX {
            Some((
                last_t0,
                Event {
                    rel_time: EventTime((ev.time.0 - last_t0.0) as i64),
                    flags: EventFlags::spec_from_members(true, ev.flags.is_fake()),
                    ..ev
                },
            ))
        } else {
            None
        }
    }

    pub open spec fn run(last_t0: EventTime, evs: Seq<Event>) -> Option<(EventTime, Seq<Event>)>
        decreases evs.len(),
    {
        if evs.len() == 0 {
            Some((last_t0, seq![]))
        } else {
            match Self::run(last_t0, evs.drop_last()) {
                None => None,
                Some((t, out)) => match Self::step(t, evs.last()) {
                    None => None,
                    Some((t2, e)) => Some((t2, out.push(e))),
                },
            }
        }
    }

    /// Processes a batch, or gives back `None` and changes nothing where
    /// some relative time would overflow.
    pub fn process_checked(&mut self, events: Vec<Event>) -> (r: Option<Vec<Event>>)
        ensures
            match Self::run(old(self).last_t0, events@) {
                Some((t, out)) => r matches Some(v) && v@ == out && final(self).last_t0 == t,
                None => r is None && *final(self) == *old(self),
            },
    {
        let mut t0 = self.last_t0;
        let mut out: Vec<Event> = Vec::new();
        let mut i: usize = 0;
        while i < events.len()
            invariant
                i <= events@.len(),
                Self::run(self.last_t0, events@.subrange(0, i as int)) == Some((t0, out@)),
            decreases events@.len() - i,
        {
            proof {
                assert(events@.subrange(0, i + 1).drop_last() =~= events@.subrange(0, i as int));
            }
            let ev = events[i];
            if let EventType::Tzero = ev.evtype {
                t0 = ev.time;
                out.push(ev);
            } else if ev.flags.contains(EventFlags::HasRelTime) {
                out.push(ev);
            } else {
                match ev.time.0.checked_sub(t0.0) {
                    Some(rel) => {
                        out.push(ev.with_rel_time(EventTime(rel)));
                    },
                    None => {
                        proof {
                            lemma_run_none_extends(self.last_t0, events@, i as int + 1);
                        }
                        return None;
                    },
                }
            }
            i = i + 1;
        }
        proof {
            assert(events@.subrange(0, events@.len() as int) =~= events@);
        }
        self.last_t0 = t0;
        Some(out)
    }
}

proof fn lemma_run_none_extends(t: EventTime, evs: Seq<Event>, k: int)
    requires
        0 <= k <= evs.len(),
        TofStd::run(t, evs.subrange(0, k)) is None,
    ensures
        TofStd::run(t, evs) is None,
    decreases evs.len() - k,
{
    if k < evs.len() {
        assert(evs.subrange(0, k + 1).drop_last() =~= evs.subrange(0, k));
        lemma_run_none_extends(t, evs, k + 1);
    } else {
        assert(evs.subrange(0, k) =~= evs);
    }
}

} // verus!
