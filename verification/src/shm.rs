//! The shared-memory histogram segment: its header with the run counters,
//! and the bin layout that follows it.
//!
//! The segment itself is mapped by the program; the library keeps the
//! header's values and the bins, and decides every update.

use vstd::prelude::*;
use crate::text::push_char;
use crate::config::HistoConfig;
use crate::event::{EventHisto, EventTime};
use vstd::string::StringSliceAdditionalSpecFns;

verus! {

/// Maximum number of histogram bins (`nx * ny * nt`) that can be allocated
/// in shared memory (4 GB of `u32` bins).
pub const MAX_HISTO_SIZE: usize = 1073741824;

/// Size of the header in bytes; the bins start right after it.
pub const SHM_HEADER_SIZE: usize = 224;

/// Number of `Monitor {num}` counter slots in the header; a `num` outside
/// this range is ignored.
pub const MONITOR_COUNTERS: usize = 5;

/// `global_state` bit set once the segment is initialized.
pub const INITIALIZED_BIT: u32 = 1;

/// `global_state` bit set while a run is active.
pub const RUNNING_BIT: u32 = 2;

/// "UMAMI" and a two-digit layout version, which a reader compares to
/// detect a layout mismatch.
pub fn shm_magic() -> (m: [u8; 8])
    ensures
        m@ == seq![0x55u8, 0x4Du8, 0x41u8, 0x4Du8, 0x49u8, 0x30u8, 0x31u8, 0x20u8],
{
    let m: [u8; 8] = [0x55, 0x4D, 0x41, 0x4D, 0x49, 0x30, 0x31, 0x20];
    assert(m@ =~= seq![0x55u8, 0x4Du8, 0x41u8, 0x4Du8, 0x49u8, 0x30u8, 0x31u8, 0x20u8]);
    m
}

/// Why a histogram segment cannot be created or read.
#[derive(Debug, Clone, Copy, PartialEq, Eq, Structural)]
pub enum ShmError {
    /// The requested number of bins is zero.
    ZeroSize,
    /// The requested number of bins exceeds `MAX_HISTO_SIZE`.
    TooLarge,
    /// The segment is smaller than its header.
    TooSmall,
    /// The segment's magic does not match this layout version.
    BadMagic,
}

/// `a * b * c` if it fits in `usize`.
fn mul3(a: usize, b: usize, c: usize) -> (r: Option<usize>)
    ensures
        match r {
            Some(v) => v == a * b * c,
            None => a * b * c > usize::MAX,
        },
{
    match a.checked_mul(b) {
        Some(ab) => match ab.checked_mul(c) {
            Some(abc) => Some(abc),
            None => None,
        },
        None => {
            if c == 0 {
                Some(0)
            } else {
                assert(a * b * c >= a * b) by (nonlinear_arith)
                    requires
                        c >= 1,
                        a * b >= 0,
                ;
                None
            }
        },
    }
}

/// Number of bins a segment for `config` holds, or why it cannot be made.
pub fn histo_bins(config: &HistoConfig) -> (r: Result<usize, ShmError>)
    ensures
        match r {
            Ok(n) => n == config.nx * config.ny * config.max_nt && 0 < n <= MAX_HISTO_SIZE,
            Err(e) => {
                ||| (e == ShmError::ZeroSize && config.nx * config.ny * config.max_nt == 0)
                ||| (e == ShmError::TooLarge && config.nx * config.ny * config.max_nt
                    > MAX_HISTO_SIZE)
            },
        },
{
    match mul3(config.nx, config.ny, config.max_nt) {
        Some(0) => Err(ShmError::ZeroSize),
        Some(n) => if n > MAX_HISTO_SIZE {
            Err(ShmError::TooLarge)
        } else {
            Ok(n)
        },
        None => Err(ShmError::TooLarge),
    }
}

/// Offset of bin `(x, y, t)` in a histogram of `nx` by `ny` by `nt` bins,
/// laid out with `x` fastest and `t` slowest.
pub open spec fn bin_offset(nx: int, ny: int, x: int, y: int, t: int) -> int {
    t * nx * ny + y * nx + x
}

/// The header of the shared-memory segment.
#[derive(Debug, Clone, Copy)]
pub struct ShmInterface {
    pub magic: [u8; 8],
    pub run_id: [u8; 128],
    pub global_state: u32,
    pub nx: u16,
    pub ny: u16,
    pub nt: u16,
    pub ni: u16,
    pub run_start: u32,
    pub total_events: u64,
    pub total_neutrons: u64,
    pub lifetime_ns: i64,
    pub tzero_count: u64,
    pub monitor_counts: [u64; 5],
}

/// The stored run id: the first 127 bytes of `bytes`, zero-padded to 128.
pub open spec fn stored_run_id(bytes: Seq<u8>) -> Seq<u8> {
    let len = if bytes.len() < 127 {
        bytes.len() as int
    } else {
        127
    };
    Seq::new(128, |i: int| if i < len { bytes[i] } else { 0u8 })
}

impl ShmInterface {
    /// The header of a freshly created segment for `config`: the magic,
    /// the dimensions (truncated to 16 bits) and everything else zero.
    pub fn new(config: &HistoConfig) -> (h: ShmInterface)
        ensures
            is_fresh_header(h, *config),
    {
        let h = ShmInterface {
            magic: shm_magic(),
            run_id: [0u8; 128],
            global_state: 0,
            nx: #[verifier::truncate] (config.nx as u16),
            ny: #[verifier::truncate] (config.ny as u16),
            nt: #[verifier::truncate] (config.max_nt as u16),
            ni: #[verifier::truncate] (config.max_ni as u16),
            run_start: 0,
            total_events: 0,
            total_neutrons: 0,
            lifetime_ns: 0,
            tzero_count: 0,
            monitor_counts: [0u64; 5],
        };
        assert(h.run_id@ =~= Seq::new(128, |i: int| 0u8));
        assert(h.monitor_counts@ =~= seq![0u64, 0, 0, 0, 0]);
        h
    }

    /// Stores `run_id` (its first 127 bytes, zero-terminated).
    pub fn set_run_id(&mut self, run_id: &str)
        ensures
            final(self).run_id@ == stored_run_id(run_id.spec_bytes()),
            *final(self) == (ShmInterface { run_id: final(self).run_id, ..*old(self) }),
    {
        let bytes = run_id.as_bytes();
        let len = if bytes.len() < 127 {
            bytes.len()
        } else {
            127
        };
        let mut i: usize = 0;
        while i < 128
            invariant
                i <= 128,
                len <= bytes@.len(),
                len == (if bytes@.len() < 127 { bytes@.len() as int } else { 127 }),
                bytes@ == run_id.spec_bytes(),
                forall|j: int| 0 <= j < i ==> self.run_id@[j] == stored_run_id(bytes@)[j],
                *self == (ShmInterface { run_id: self.run_id, ..*old(self) }),
            decreases 128 - i,
        {
            if i < len {
                self.run_id[i] = bytes[i];
            } else {
                self.run_id[i] = 0;
            }
            i = i + 1;
        }
        assert(self.run_id@ =~= stored_run_id(run_id.spec_bytes()));
    }

    pub fn set_run_start(&mut self, unix_secs: u32)
        ensures
            *final(self) == (ShmInterface { run_start: unix_secs, ..*old(self) }),
    {
        self.run_start = unix_secs;
    }

    pub fn set_initialized(&mut self)
        ensures
            *final(self) == (ShmInterface { global_state: old(self).global_state | INITIALIZED_BIT, ..*old(self) }),
    {
        self.global_state = self.global_state | INITIALIZED_BIT;
    }

    pub fn set_running(&mut self, running: bool)
        ensures
            *final(self) == (ShmInterface {
                global_state: if running {
                    old(self).global_state | RUNNING_BIT
                } else {
                    old(self).global_state & !RUNNING_BIT
                },
                ..*old(self)
            }),
    {
        if running {
            self.global_state = self.global_state | RUNNING_BIT;
        } else {
            self.global_state = self.global_state & !RUNNING_BIT;
        }
    }

    pub fn add_events(&mut self, n: usize)
        requires
            old(self).total_events + n <= u64::MAX,
        ensures
            *final(self) == (ShmInterface { total_events: (old(self).total_events + n) as u64, ..*old(self) }),
    {
        self.total_events = self.total_events + n as u64;
    }

    pub fn add_tzero(&mut self)
        requires
            old(self).tzero_count < u64::MAX,
        ensures
            *final(self) == (ShmInterface { tzero_count: (old(self).tzero_count + 1) as u64, ..*old(self) }),
    {
        self.tzero_count = self.tzero_count + 1;
    }

    /// Counts one monitor event of monitor `num`; a `num` without a counter
    /// slot is ignored.
    pub fn add_monitor(&mut self, num: u8)
        requires
            (num as int) < MONITOR_COUNTERS ==> old(self).monitor_counts@[num as int] < u64::MAX,
        ensures
            *final(self) == (ShmInterface { monitor_counts: final(self).monitor_counts, ..*old(self) }),
            final(self).monitor_counts@ == if (num as int) < MONITOR_COUNTERS {
                old(self).monitor_counts@.update(
                    num as int,
                    (old(self).monitor_counts@[num as int] + 1) as u64,
                )
            } else {
                old(self).monitor_counts@
            },
    {
        let i = num as usize;
        if i < MONITOR_COUNTERS {
            let c = self.monitor_counts[i];
            self.monitor_counts[i] = c + 1;
        }
    }

    pub fn set_lifetime(&mut self, ns: EventTime)
        ensures
            *final(self) == (ShmInterface { lifetime_ns: ns.0, ..*old(self) }),
    {
        self.lifetime_ns = ns.0;
    }

    /// Zeroes the event, neutron, lifetime, t-zero and monitor counters.
    pub fn clear_counters(&mut self)
        ensures
            *final(self) == (ShmInterface {
                total_events: 0,
                total_neutrons: 0,
                lifetime_ns: 0,
                tzero_count: 0,
                monitor_counts: final(self).monitor_counts,
                ..*old(self)
            }),
            final(self).monitor_counts@ == seq![0u64, 0, 0, 0, 0],
    {
        self.total_events = 0;
        self.total_neutrons = 0;
        self.lifetime_ns = 0;
        self.tzero_count = 0;
        self.monitor_counts = [0u64; 5];
        assert(self.monitor_counts@ =~= seq![0u64, 0, 0, 0, 0]);
    }
}

pub open spec fn shm_magic_spec() -> Seq<u8> {
    seq![0x55u8, 0x4Du8, 0x41u8, 0x4Du8, 0x49u8, 0x30u8, 0x31u8, 0x20u8]
}

/// A histogram segment: the header and `nx * ny * nt` bins.
pub struct ShmBox {
    pub header: ShmInterface,
    /// The bins, `x` fastest and `t` slowest.
    pub bins: Vec<u32>,
}

impl ShmBox {
    /// The bins match the header's dimensions.
    pub open spec fn consistent(self) -> bool {
        self.bins.len() == self.header.nx as int * self.header.ny as int * self.header.nt as int
    }

    pub open spec fn spec_bins(self) -> Seq<u32> {
        self.bins@
    }

    /// A new segment for `config`, or why it cannot be made.
    pub fn create(config: &HistoConfig) -> (r: Result<ShmBox, ShmError>)
        ensures
            match r {
                Ok(b) => config.nx * config.ny * config.max_nt > 0 && config.nx * config.ny
                    * config.max_nt <= MAX_HISTO_SIZE && is_fresh_header(b.header, *config)
                    && b.consistent() && b.spec_bins() == Seq::new(
                    (b.header.nx * b.header.ny * b.header.nt) as nat,
                    |i: int| 0u32,
                ),
                Err(e) => histo_bins_spec_err(config, e),
            },
    {
        match histo_bins(config) {
            Err(e) => Err(e),
            Ok(_) => {
                let header = ShmInterface::new(config);
                proof {
                    lemma_truncated_product(config.nx, config.ny, config.max_nt);
                }
                let size = dims_product(header.nx, header.ny, header.nt) as usize;
                let mut bins: Vec<u32> = Vec::new();
                let mut i: usize = 0;
                while i < size
                    invariant
                        i <= size,
                        bins@ == Seq::new(i as nat, |j: int| 0u32),
                    decreases size - i,
                {
                    bins.push(0);
                    i = i + 1;
                    assert(bins@ =~= Seq::new(i as nat, |j: int| 0u32));
                }
                Ok(ShmBox { header, bins })
            },
        }
    }

    /// Bins of the first `nt` time slices.
    pub fn histo_size(&self, nt: u16) -> (n: usize)
        requires
            self.header.nx * self.header.ny * nt <= usize::MAX,
        ensures
            n == self.header.nx * self.header.ny * nt,
    {
        dims_product(self.header.nx, self.header.ny, nt) as usize
    }

    /// Zeroes all bins.
    pub fn clear_histo(&mut self)
        ensures
            final(self).header == old(self).header,
            final(self).spec_bins() == Seq::new(old(self).spec_bins().len(), |i: int| 0u32),
    {
        let n = self.bins.len();
        let mut bins: Vec<u32> = Vec::new();
        let mut i: usize = 0;
        while i < n
            invariant
                i <= n,
                bins@ == Seq::new(i as nat, |j: int| 0u32),
            decreases n - i,
        {
            bins.push(0);
            i = i + 1;
            assert(bins@ =~= Seq::new(i as nat, |j: int| 0u32));
        }
        self.bins = bins;
    }

    /// Counts a neutron in bin `(h.x, h.y, h.t)` if it lies inside the
    /// histogram; outside, nothing changes.
    pub fn add_histo(&mut self, h: EventHisto)
        requires
            old(self).consistent(),
            old(self).header.total_neutrons < u64::MAX,
            h.x < old(self).header.nx && h.y < old(self).header.ny && h.t < old(self).header.nt ==> old(self).spec_bins()[bin_offset(
                old(self).header.nx as int,
                old(self).header.ny as int,
                h.x as int,
                h.y as int,
                h.t as int,
            )] < u32::MAX,
        ensures
            if h.x < old(self).header.nx && h.y < old(self).header.ny && h.t < old(self).header.nt {
                let off = bin_offset(old(self).header.nx as int, old(self).header.ny as int, h.x as int, h.y as int, h.t as int);
                &&& final(self).consistent()
                &&& final(self).spec_bins() == old(self).spec_bins().update(off, (old(self).spec_bins()[off] + 1) as u32)
                &&& final(self).header == (ShmInterface {
                    total_neutrons: (old(self).header.total_neutrons + 1) as u64,
                    ..old(self).header
                })
            } else {
                &&& final(self).spec_bins() == old(self).spec_bins()
                &&& final(self).header == old(self).header
            },
    {
        if h.x < self.header.nx && h.y < self.header.ny && h.t < self.header.nt {
            let nx = self.header.nx as usize;
            let ny = self.header.ny as usize;
            let nt = self.header.nt as usize;
            proof {
                lemma_offset_in_range(nx as int, ny as int, nt as int, h.x as int, h.y as int, h.t as int);
            }
            let off = (h.t as usize * ny + h.y as usize) * nx + h.x as usize;
            let mut bins: Vec<u32> = Vec::new();
            std::mem::swap(&mut bins, &mut self.bins);
            let c = bins[off];
            assert(c == old(self).spec_bins()[off as int]);
            bins.set(off, c + 1);
            self.bins = bins;
            self.header.total_neutrons = self.header.total_neutrons + 1;
        }
    }

    /// The histogram as text: for each of the first `min(nt, max_nt)` time
    /// slices (`max_nt` taken modulo 2^16), one line per `y` with a space
    /// before each count, and a blank line after each slice.
    pub fn histo_text(&self, max_nt: usize) -> (s: String)
        requires
            self.consistent(),
        ensures
            s@ == histo_text_upto(
                self.bins@,
                self.header.nx as int,
                self.header.ny as int,
                if self.header.nt < (#[verifier::truncate] (max_nt as u16)) { self.header.nt as int } else { (#[verifier::truncate] (max_nt as u16)) as int },
            ),
    {
        let cap: u16 = #[verifier::truncate] (max_nt as u16);
        let nt: u16 = if self.header.nt < cap { self.header.nt } else { cap };
        let nx = self.header.nx as usize;
        let ny = self.header.ny as usize;
        let ghost b = self.bins@;
        let mut out = String::new();
        let mut t: usize = 0;
        while t < nt as usize
            invariant
                nx == self.header.nx,
                ny == self.header.ny,
                nt <= self.header.nt,
                b == self.bins@,
                self.bins.len() == nx * ny * self.header.nt,
                t <= nt,
                out@ == histo_text_upto(b, nx as int, ny as int, t as int),
            decreases nt - t,
        {
            let mut y: usize = 0;
            while y < ny
                invariant
                    t < nt,
                    nx == self.header.nx,
                    ny == self.header.ny,
                    nt <= self.header.nt,
                    b == self.bins@,
                    self.bins.len() == nx * ny * self.header.nt,
                    y <= ny,
                    out@ == histo_text_upto(b, nx as int, ny as int, t as int) + slice_text_upto(b, nx as int, ny as int, t as int, y as int),
                decreases ny - y,
            {
                let mut x: usize = 0;
                while x < nx
                    invariant
                        t < nt,
                        y < ny,
                        nx == self.header.nx,
                        ny == self.header.ny,
                        nt <= self.header.nt,
                        b == self.bins@,
                        self.bins.len() == nx * ny * self.header.nt,
                        x <= nx,
                        out@ == histo_text_upto(b, nx as int, ny as int, t as int) + slice_text_upto(b, nx as int, ny as int, t as int, y as int)
                            + row_text_upto(b, nx as int, ny as int, t as int, y as int, x as int),
                    decreases nx - x,
                {
                    proof {
                        lemma_offset_in_range(nx as int, ny as int, self.header.nt as int, x as int, y as int, t as int);
                    }
                    let off = (t * ny + y) * nx + x;
                    assert(off == bin_offset(nx as int, ny as int, x as int, y as int, t as int)) by (nonlinear_arith)
                        requires
                            off == (t * ny + y) * nx + x,
                    ;
                    push_char(&mut out, ' ');
                    append_u32(&mut out, self.bins[off]);
                    x = x + 1;
                    proof {
                        assert(out@ =~= histo_text_upto(b, nx as int, ny as int, t as int) + slice_text_upto(b, nx as int, ny as int, t as int, y as int)
                            + row_text_upto(b, nx as int, ny as int, t as int, y as int, x as int));
                    }
                }
                push_char(&mut out, '\n');
                y = y + 1;
                proof {
                    assert(out@ =~= histo_text_upto(b, nx as int, ny as int, t as int) + slice_text_upto(b, nx as int, ny as int, t as int, y as int));
                }
            }
            push_char(&mut out, '\n');
            push_char(&mut out, '\n');
            t = t + 1;
            proof {
                assert(out@ =~= histo_text_upto(b, nx as int, ny as int, t as int));
            }
        }
        out
    }
}

/// Row `y` of time slice `t` up to column `k`: a space and the count of
/// each bin.
pub open spec fn row_text_upto(b: Seq<u32>, nx: int, ny: int, t: int, y: int, k: int) -> Seq<char>
    decreases k,
{
    if k <= 0 {
        seq![]
    } else {
        row_text_upto(b, nx, ny, t, y, k - 1) + seq![' '] + decimal(b[bin_offset(nx, ny, k - 1, y, t)] as nat)
    }
}

/// The first `k` rows of time slice `t`, each ended by a line break.
pub open spec fn slice_text_upto(b: Seq<u32>, nx: int, ny: int, t: int, k: int) -> Seq<char>
    decreases k,
{
    if k <= 0 {
        seq![]
    } else {
        slice_text_upto(b, nx, ny, t, k - 1) + row_text_upto(b, nx, ny, t, k - 1, nx) + seq!['\n']
    }
}

/// The first `k` time slices, each followed by a blank line.
pub open spec fn histo_text_upto(b: Seq<u32>, nx: int, ny: int, k: int) -> Seq<char>
    decreases k,
{
    if k <= 0 {
        seq![]
    } else {
        histo_text_upto(b, nx, ny, k - 1) + slice_text_upto(b, nx, ny, k - 1, ny) + seq!['\n', '\n']
    }
}

/// The header of a freshly created segment for `config`: the magic, the
/// dimensions (truncated to 16 bits) and everything else zero.
pub open spec fn is_fresh_header(h: ShmInterface, config: HistoConfig) -> bool {
    &&& h.magic@ == shm_magic_spec()
    &&& h.run_id@ == Seq::new(128, |i: int| 0u8)
    &&& h.global_state == 0
    &&& h.nx == config.nx as u16
    &&& h.ny == config.ny as u16
    &&& h.nt == config.max_nt as u16
    &&& h.ni == config.max_ni as u16
    &&& h.run_start == 0
    &&& h.total_events == 0
    &&& h.total_neutrons == 0
    &&& h.lifetime_ns == 0
    &&& h.tzero_count == 0
    &&& h.monitor_counts@ == seq![0u64, 0, 0, 0, 0]
}

pub open spec fn histo_bins_spec_err(config: &HistoConfig, e: ShmError) -> bool {
    ||| (e == ShmError::ZeroSize && config.nx * config.ny * config.max_nt == 0)
    ||| (e == ShmError::TooLarge && config.nx * config.ny * config.max_nt > MAX_HISTO_SIZE)
}

pub(crate) proof fn lemma_offset_in_range(nx: int, ny: int, nt: int, x: int, y: int, t: int)
    requires
        0 <= x < nx,
        0 <= y < ny,
        0 <= t < nt,
    ensures
        0 <= t * ny <= t * ny + y < nt * ny,
        0 <= (t * ny + y) * nx <= (t * ny + y) * nx + x < nx * ny * nt,
        (t * ny + y) * nx + x == bin_offset(nx, ny, x, y, t),
        nt * ny <= nx * ny * nt,
{
    assert(nt * ny <= nx * ny * nt) by (nonlinear_arith)
        requires
            1 <= nx,
            0 <= ny,
            0 <= nt,
    ;
    assert(t * ny + y < nt * ny) by (nonlinear_arith)
        requires
            0 <= y < ny,
            0 <= t < nt,
    ;
    assert(0 <= t * ny) by (nonlinear_arith)
        requires
            0 <= t,
            0 <= ny,
    ;
    assert((t * ny + y) * nx + x < nx * ny * nt) by (nonlinear_arith)
        requires
            0 <= t * ny + y < nt * ny,
            0 <= x < nx,
    ;
    assert(0 <= (t * ny + y) * nx) by (nonlinear_arith)
        requires
            0 <= t * ny + y,
            0 <= nx,
    ;
    assert((t * ny + y) * nx + x == t * nx * ny + y * nx + x) by (nonlinear_arith);
}

/// `nx * ny * nt`, which always fits in 64 bits.
fn dims_product(nx: u16, ny: u16, nt: u16) -> (r: u64)
    ensures
        r == nx * ny * nt,
{
    let a = nx as u64;
    let b = ny as u64;
    let c = nt as u64;
    assert(a * b <= 0xFFFF * 0xFFFF) by (nonlinear_arith)
        requires
            a <= 0xFFFF,
            b <= 0xFFFF,
    ;
    assert(a * b * c <= 0xFFFF * 0xFFFF * 0xFFFF) by (nonlinear_arith)
        requires
            a * b <= 0xFFFF * 0xFFFF,
            a * b >= 0,
            c <= 0xFFFF,
    ;
    a * b * c
}

/// Truncating each factor to 16 bits does not grow their product.
proof fn lemma_truncated_product(a: usize, b: usize, c: usize)
    ensures
        (a as u16) as int * (b as u16) as int * (c as u16) as int <= a * b * c,
{
    assert((#[verifier::truncate] (a as u16)) as usize <= a) by (bit_vector);
    assert((#[verifier::truncate] (b as u16)) as usize <= b) by (bit_vector);
    assert((#[verifier::truncate] (c as u16)) as usize <= c) by (bit_vector);
    let x = (a as u16) as int;
    let y = (b as u16) as int;
    let z = (c as u16) as int;
    assert(x * y * z <= a * b * c) by (nonlinear_arith)
        requires
            0 <= x <= a,
            0 <= y <= b,
            0 <= z <= c,
    ;
}

/// Decimal digits of `n`, most significant first.
pub open spec fn decimal(n: nat) -> Seq<char>
    decreases n,
{
    if n < 10 {
        seq![(('0' as nat) + n) as char]
    } else {
        decimal(n / 10).push((('0' as nat) + n % 10) as char)
    }
}

/// Appends the decimal digits of `n` to `out`.
pub fn append_u32(out: &mut String, n: u32)
    ensures
        final(out)@ == old(out)@ + decimal(n as nat),
{
    let mut digits: Vec<char> = Vec::new();
    let mut m = n;
    let ghost mut rest: Seq<char> = seq![];
    loop
        invariant_except_break
            m <= n,
            decimal(n as nat) == decimal(m as nat) + rest,
            digits@ == rest.reverse(),
        ensures
            decimal(n as nat) == rest,
            digits@ == rest.reverse(),
        decreases m,
    {
        let d = m % 10;
        let c = digit_char(d);
        if m < 10 {
            proof {
                assert(decimal(m as nat) == seq![c]);
                rest = seq![c] + rest;
            }
            digits.push(c);
            proof {
                assert(digits@ =~= rest.reverse());
            }
            break;
        }
        proof {
            assert(decimal(m as nat) == decimal((m / 10) as nat).push(c));
            assert(decimal(n as nat) =~= decimal((m / 10) as nat) + (seq![c] + rest));
            rest = seq![c] + rest;
        }
        digits.push(c);
        proof {
            assert(digits@ =~= rest.reverse());
        }
        m = m / 10;
    }
    let mut k = digits.len();
    while k > 0
        invariant
            k <= digits@.len(),
            digits@ == rest.reverse(),
            decimal(n as nat) == rest,
            out@ == old(out)@ + rest.subrange(0, (rest.len() - k) as int),
        decreases k,
    {
        k = k - 1;
        let c = digits[k];
        let ghost before = out@;
        push_char(out, c);
        proof {
            assert(rest.subrange(0, (rest.len() - k) as int) =~= rest.subrange(0, (rest.len() - k - 1) as int).push(rest[(rest.len() - k - 1) as int]));
        }
    }
    assert(rest.subrange(0, rest.len() as int) =~= rest);
}

fn digit_char(d: u32) -> (c: char)
    requires
        d < 10,
    ensures
        c == (('0' as nat) + d) as char,
{
    if d == 0 { '0' } else if d == 1 { '1' } else if d == 2 { '2' } else if d == 3 { '3' }
    else if d == 4 { '4' } else if d == 5 { '5' } else if d == 6 { '6' } else if d == 7 { '7' }
    else if d == 8 { '8' } else { '9' }
}

/// Index of the first zero byte of `s` at or after `i`, or the length.
pub open spec fn nul_end(s: Seq<u8>, i: int) -> int
    decreases s.len() - i,
{
    if i < 0 || i >= s.len() || s[i] == 0 {
        i
    } else {
        nul_end(s, i + 1)
    }
}

/// The bytes up to the first NUL of a stored run id are the bytes given,
/// where they number at most 127 and hold no NUL.
proof fn lemma_stored_prefix(bytes: Seq<u8>, i: int)
    requires
        bytes.len() <= 127,
        !bytes.contains(0u8),
        0 <= i <= bytes.len(),
    ensures
        nul_end(stored_run_id(bytes), i) == bytes.len(),
    decreases bytes.len() - i,
{
    let st = stored_run_id(bytes);
    if i < bytes.len() {
        assert(st[i] == bytes[i]);
        lemma_stored_prefix(bytes, i + 1);
    } else {
        assert(st[i] == 0u8);
    }
}

/// A run id is read back as it was written: the text of a run id whose
/// encoding is at most 127 bytes and holds no NUL is, after it is stored
/// in the header, found again in the bytes up to the first NUL, and these
/// decode to the same text.
pub proof fn law_run_id_roundtrip(run_id: Seq<char>)
    requires
        vstd::utf8::encode_utf8(run_id).len() <= 127,
        !vstd::utf8::encode_utf8(run_id).contains(0u8),
    ensures
        ({
            let stored = stored_run_id(vstd::utf8::encode_utf8(run_id));
            let read = stored.subrange(0, nul_end(stored, 0));
            &&& read == vstd::utf8::encode_utf8(run_id)
            &&& vstd::utf8::valid_utf8(read)
            &&& vstd::utf8::decode_utf8(read) == run_id
        }),
{
    let bytes = vstd::utf8::encode_utf8(run_id);
    let stored = stored_run_id(bytes);
    lemma_stored_prefix(bytes, 0);
    assert(stored.subrange(0, bytes.len() as int) =~= bytes);
    vstd::utf8::encode_utf8_valid_utf8(run_id);
    vstd::utf8::encode_utf8_decode_utf8(run_id);
}

proof fn lemma_nul_end(s: Seq<u8>, i: int)
    requires
        0 <= i <= s.len(),
    ensures
        i <= nul_end(s, i) <= s.len(),
    decreases s.len() - i,
{
    if i < s.len() && s[i] != 0 {
        lemma_nul_end(s, i + 1);
    }
}

/// The name of a shared memory segment that is removed again when the
/// holder is done with it.
#[derive(Debug)]
pub struct ShmGuard(String);

impl ShmGuard {
    pub closed spec fn spec_name(&self) -> Seq<char> {
        self.0@
    }

    /// Guards a segment whose name was decided elsewhere.
    pub fn for_name(name: String) -> (g: ShmGuard)
        ensures
            g.spec_name() == name@,
    {
        ShmGuard(name)
    }

    pub fn name(&self) -> (n: &str)
        ensures
            n@ == self.spec_name(),
    {
        self.0.as_str()
    }
}

/// A read-only view of a histogram segment: its header and bins.
pub struct ShmReader {
    header: ShmInterface,
    bins: Vec<u32>,
}

impl ShmReader {
    pub closed spec fn spec_header(self) -> ShmInterface {
        self.header
    }

    /// A reader for a segment whose header and bins were read; refused
    /// where the magic does not match this layout version.
    pub fn from_parts(header: ShmInterface, bins: Vec<u32>) -> (r: Result<ShmReader, ShmError>)
        ensures
            match r {
                Ok(rd) => rd.spec_header() == header && rd.histo_data_spec() == bins@
                    && header.magic@ == shm_magic_spec(),
                Err(e) => e == ShmError::BadMagic && header.magic@ != shm_magic_spec(),
            },
    {
        let m = shm_magic();
        let mut i: usize = 0;
        while i < 8
            invariant
                i <= 8,
                m@ == shm_magic_spec(),
                forall|j: int| 0 <= j < i ==> header.magic@[j] == m@[j],
            decreases 8 - i,
        {
            if header.magic[i] != m[i] {
                return Err(ShmError::BadMagic);
            }
            i = i + 1;
        }
        assert(header.magic@ =~= shm_magic_spec());
        Ok(ShmReader { header, bins })
    }

    pub closed spec fn histo_data_spec(self) -> Seq<u32> {
        self.bins@
    }

    /// The run id: the stored bytes up to the first zero.
    pub fn run_id_bytes(&self) -> (v: Vec<u8>)
        ensures
            v@ == self.spec_header().run_id@.subrange(0, nul_end(self.spec_header().run_id@, 0)),
    {
        let mut v: Vec<u8> = Vec::new();
        let mut i: usize = 0;
        proof {
            lemma_nul_end(self.header.run_id@, 0);
        }
        while i < 128 && self.header.run_id[i] != 0
            invariant
                i <= 128,
                self.header.run_id@.len() == 128,
                v@ == self.header.run_id@.subrange(0, i as int),
                nul_end(self.header.run_id@, 0) == nul_end(self.header.run_id@, i as int),
            decreases 128 - i,
        {
            v.push(self.header.run_id[i]);
            i = i + 1;
            assert(v@ =~= self.header.run_id@.subrange(0, i as int));
        }
        v
    }

    /// The run id as text; bytes that are not UTF-8 read as U+FFFD.
    pub fn run_id(&self) -> (s: String)
        ensures
            s@ == utf8_lossy_text(
                self.spec_header().run_id@.subrange(0, nul_end(self.spec_header().run_id@, 0)),
            ),
            vstd::utf8::valid_utf8(self.spec_header().run_id@.subrange(0, nul_end(self.spec_header().run_id@, 0)))
                ==> s@ == vstd::utf8::decode_utf8(
                self.spec_header().run_id@.subrange(0, nul_end(self.spec_header().run_id@, 0)),
            ),
    {
        let bytes = self.run_id_bytes();
        utf8_lossy(&bytes)
    }

    pub fn running(&self) -> (r: bool)
        ensures
            r == (self.spec_header().global_state & RUNNING_BIT != 0),
    {
        self.header.global_state & RUNNING_BIT != 0
    }

    pub fn nx(&self) -> (v: u16)
        ensures
            v == self.spec_header().nx,
    {
        self.header.nx
    }

    pub fn ny(&self) -> (v: u16)
        ensures
            v == self.spec_header().ny,
    {
        self.header.ny
    }

    pub fn nt(&self) -> (v: u16)
        ensures
            v == self.spec_header().nt,
    {
        self.header.nt
    }

    pub fn ni(&self) -> (v: u16)
        ensures
            v == self.spec_header().ni,
    {
        self.header.ni
    }

    pub fn run_start(&self) -> (v: u32)
        ensures
            v == self.spec_header().run_start,
    {
        self.header.run_start
    }

    pub fn total_events(&self) -> (v: u64)
        ensures
            v == self.spec_header().total_events,
    {
        self.header.total_events
    }

    pub fn total_neutrons(&self) -> (v: u64)
        ensures
            v == self.spec_header().total_neutrons,
    {
        self.header.total_neutrons
    }

    pub fn lifetime_ns(&self) -> (v: i64)
        ensures
            v == self.spec_header().lifetime_ns,
    {
        self.header.lifetime_ns
    }

    pub fn tzero_count(&self) -> (v: u64)
        ensures
            v == self.spec_header().tzero_count,
    {
        self.header.tzero_count
    }

    pub fn monitor_counts(&self) -> (v: [u64; 5])
        ensures
            v == self.spec_header().monitor_counts,
    {
        self.header.monitor_counts
    }

    /// The bins, as a flat `nx * ny * nt` array.
    pub fn histo_data(&self) -> (v: &Vec<u32>)
        ensures
            v@ == self.histo_data_spec(),
    {
        &self.bins
    }
}

/// What `String::from_utf8_lossy` makes of some bytes.
pub uninterp spec fn utf8_lossy_text(bytes: Seq<u8>) -> Seq<char>;

/// `String::from_utf8_lossy` from std: the text of `bytes`, with each
/// invalid sequence replaced by U+FFFD. Stated: the result is a function
/// of the bytes, valid UTF-8 comes back as the text it encodes, and ASCII
/// bytes come back as the same characters. Which characters stand for the
/// invalid sequences is left unsaid.
#[verifier::external_body]
fn utf8_lossy(bytes: &Vec<u8>) -> (s: String)
    ensures
        s@ == utf8_lossy_text(bytes@),
        vstd::utf8::valid_utf8(bytes@) ==> s@ == vstd::utf8::decode_utf8(bytes@),
        (forall|i: int| 0 <= i < bytes@.len() ==> bytes@[i] < 128) ==> s@ == bytes@.map_values(
            |b: u8| b as char,
        ),
{
    String::from_utf8_lossy(bytes).into_owned()
}

} // verus!
