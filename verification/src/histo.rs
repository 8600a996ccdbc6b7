//! A plain two-dimensional counting histogram.

use vstd::prelude::*;

verus! {

/// `nx` by `ny` bins of counts, `x` fastest.
pub struct Histogram {
    data: Vec<u32>,
    nx: usize,
    ny: usize,
}

impl Histogram {
    /// The bins match the dimensions: `nx * ny` of them.
    pub open spec fn wf(self) -> bool {
        self.spec_data().len() == self.spec_dims().0 * self.spec_dims().1
    }

    pub closed spec fn spec_data(self) -> Seq<u32> {
        self.data@
    }

    pub closed spec fn spec_dims(self) -> (usize, usize) {
        (self.nx, self.ny)
    }

    /// An empty histogram.
    pub fn new(nx: usize, ny: usize) -> (h: Histogram)
        requires
            nx * ny <= usize::MAX,
        ensures
            h.wf(),
            h.spec_dims() == (nx, ny),
            h.spec_data() == Seq::new((nx * ny) as nat, |i: int| 0u32),
    {
        let n = nx * ny;
        let mut data: Vec<u32> = Vec::new();
        let mut i: usize = 0;
        while i < n
            invariant
                i <= n,
                data@ == Seq::new(i as nat, |k: int| 0u32),
            decreases n - i,
        {
            data.push(0);
            i = i + 1;
            assert(data@ =~= Seq::new(i as nat, |k: int| 0u32));
        }
        Histogram { data, nx, ny }
    }

    /// Counts one entry in bin `(x, y)`; outside the histogram nothing
    /// changes.
    pub fn add(&mut self, x: usize, y: usize)
        requires
            old(self).wf(),
            x < old(self).spec_dims().0 && y < old(self).spec_dims().1 ==> old(self).spec_data()[(y
                * old(self).spec_dims().0 + x) as int] < u32::MAX,
        ensures
            final(self).wf(),
            final(self).spec_dims() == old(self).spec_dims(),
            final(self).spec_data() == if x < old(self).spec_dims().0 && y < old(self).spec_dims().1 {
                let i = y * old(self).spec_dims().0 + x;
                old(self).spec_data().update(i, (old(self).spec_data()[i] + 1) as u32)
            } else {
                old(self).spec_data()
            },
    {
        let len = self.data.len();
        if x < self.nx && y < self.ny {
            assert(self.nx * self.ny == len);
            proof {
                assert(y * self.nx + x < self.nx * self.ny) by (nonlinear_arith)
                    requires
                        x < self.nx,
                        y < self.ny,
                ;
                assert(0 <= y * self.nx) by (nonlinear_arith)
                    requires
                        0 <= y,
                        0 <= self.nx,
                ;
            }
            let i = y * self.nx + x;
            let c = self.data[i];
            self.data.set(i, c + 1);
        }
    }

    /// The count in bin `(x, y)`.
    pub fn get(&self, x: usize, y: usize) -> (c: u32)
        requires
            self.wf(),
            x < self.spec_dims().0,
            y < self.spec_dims().1,
        ensures
            c == self.spec_data()[(y * self.spec_dims().0 + x) as int],
    {
        let len = self.data.len();
        assert(self.nx * self.ny == len);
        proof {
            assert(y * self.nx + x < self.nx * self.ny) by (nonlinear_arith)
                requires
                    x < self.nx,
                    y < self.ny,
            ;
            assert(0 <= y * self.nx) by (nonlinear_arith)
                requires
                    0 <= y,
                    0 <= self.nx,
            ;
        }
        self.data[y * self.nx + x]
    }
}

} // verus!
