//! A synthetic input for pipeline tests: one neutron event for every cell
//! of an `nx` by `ny` histogram, handed out once per run.

use vstd::prelude::*;
use crate::event::{Event, EventHisto, EventType, spec_new_event};

verus! {

/// Size of the grid of cells that the test input covers.
#[derive(Debug, Clone, Copy, PartialEq, Eq, Structural)]
pub struct TestInputConfig {
    pub nx: u16,
    pub ny: u16,
}

/// The event of cell (x, y).
pub open spec fn cell_event(x: int, y: int) -> Event {
    Event { histo: EventHisto { x: x as u16, y: y as u16, t: 0, i: 0 }, ..spec_new_event(EventType::Neutron) }
}

/// One neutron event per cell, row by row: the `k`-th is cell
/// (k mod nx, k / nx).
pub open spec fn template(nx: int, ny: int) -> Seq<Event> {
    Seq::new((nx * ny) as nat, |k: int| cell_event(k % nx, k / nx))
}

/// The events of one run.
pub fn template_events(config: TestInputConfig) -> (v: Vec<Event>)
    ensures
        v@ == template(config.nx as int, config.ny as int),
{
    let nx = config.nx;
    let ny = config.ny;
    let mut v: Vec<Event> = Vec::new();
    let mut y: u16 = 0;
    while y < ny
        invariant
            y <= ny,
            nx == config.nx,
            ny == config.ny,
            v@ == Seq::new((nx * y) as nat, |k: int| cell_event(k % (nx as int), k / (nx as int))),
        decreases ny - y,
    {
        let mut x: u16 = 0;
        while x < nx
            invariant
                x <= nx,
                y < ny,
                nx == config.nx,
                ny == config.ny,
                v@ == Seq::new((nx * y + x) as nat, |k: int| cell_event(k % (nx as int), k / (nx as int))),
            decreases nx - x,
        {
            let mut ev = Event::new(EventType::Neutron);
            ev.histo = EventHisto { x, y, t: 0, i: 0 };
            let ghost before = v@;
            v.push(ev);
            proof {
                let k = nx * y + x;
                assert(k % (nx as int) == x && k / (nx as int) == y) by (nonlinear_arith)
                    requires
                        k == nx * y + x,
                        0 <= x < nx,
                        0 <= y,
                ;
                assert(v@ =~= Seq::new((k + 1) as nat, |k: int| cell_event(k % (nx as int), k / (nx as int))));
            }
            x = x + 1;
        }
        proof {
            assert(nx * y + nx == nx * (y + 1)) by (nonlinear_arith);
        }
        y = y + 1;
    }
    v
}

/// The test input: its events of a run, and what is left to hand out.
pub struct TestSource {
    pub template: Vec<Event>,
    pub remaining: Option<Vec<Event>>,
}

impl TestSource {
    pub fn new(config: TestInputConfig) -> (s: TestSource)
        ensures
            s.template@ == template(config.nx as int, config.ny as int),
            s.remaining is None,
    {
        TestSource { template: template_events(config), remaining: None }
    }

    /// A run starts (or the input is reset): all events are there again.
    pub fn restart(&mut self)
        ensures
            final(self).template@ == old(self).template@,
            final(self).remaining matches Some(r) && r@ == old(self).template@,
    {
        self.remaining = Some(self.template.clone());
    }

    /// All remaining events at once, or `None` once they have been taken.
    pub fn read_events(&mut self) -> (r: Option<Vec<Event>>)
        ensures
            r == old(self).remaining,
            final(self).remaining is None,
            final(self).template@ == old(self).template@,
    {
        self.remaining.take()
    }
}

} // verus!
