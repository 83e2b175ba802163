//! The ledger of the bounded heap.
//!
//! One fixed region serves every allocation of the process. The blocks are
//! carved out by an inner allocator that works on raw memory; this ledger
//! stands in front of it, decides whether a block it offers may be handed
//! out, and keeps the count of live bytes and its peak. A request that the
//! region cannot hold is refused and leaves the ledger untouched.

use vstd::prelude::*;

verus! {

/// The one contiguous extent of memory that serves all allocations.
#[derive(Clone, Copy, Debug, PartialEq, Eq, Structural)]
pub struct HeapRegion {
    /// Address of the first byte.
    pub start: usize,
    /// Number of bytes.
    pub size: usize,
}

impl HeapRegion {
    /// Whether the block of `size` bytes at `address` lies inside the region
    /// and is aligned to `align`.
    pub open spec fn holds(self, address: usize, size: usize, align: usize) -> bool {
        &&& align > 0
        &&& address % align == 0
        &&& self.start <= address
        &&& address + size <= self.start + self.size
    }
}

/// What is known of a request that was refused.
#[derive(Clone, Copy, Debug, PartialEq, Eq, Structural)]
pub struct OomReport {
    /// The bytes asked for.
    pub size: usize,
    /// The alignment asked for.
    pub align: usize,
    /// The bytes that were free at that moment.
    pub free: usize,
    /// The size of the region.
    pub total: usize,
}

/// The figures of the ledger at one moment.
#[derive(Clone, Copy, Debug, PartialEq, Eq, Structural)]
pub struct MemoryUsage {
    pub used: usize,
    pub free: usize,
    pub peak: usize,
}

/// The ledger as a mathematical value.
pub struct LedgerView {
    pub region: HeapRegion,
    /// Bytes in live blocks.
    pub used: nat,
    /// The highest that `used` has stood.
    pub peak: nat,
}

impl LedgerView {
    /// The states a ledger can be in: live bytes never exceed the region.
    pub open spec fn wf(self) -> bool {
        &&& self.region.start + self.region.size <= usize::MAX
        &&& self.used <= self.peak <= self.region.size
    }

    /// The bytes of the region that are in no live block.
    pub open spec fn free(self) -> nat {
        (self.region.size - self.used) as nat
    }

    /// Whether a request for `size` bytes aligned to `align`, for which the
    /// inner allocator offered `inner`, is granted: a block was offered, it
    /// lies inside the region and is aligned, and the region has that many
    /// bytes left.
    pub open spec fn grants(self, size: usize, align: usize, inner: Option<usize>) -> bool {
        &&& inner is Some
        &&& self.region.holds(inner->Some_0, size, align)
        &&& self.used + size <= self.region.size
    }

    /// The ledger after a request: a granted one adds its bytes and lifts
    /// the peak if need be, a refused one changes nothing.
    pub open spec fn after_alloc(self, size: usize, align: usize, inner: Option<usize>)
        -> LedgerView {
        if self.grants(size, align, inner) {
            LedgerView {
                used: self.used + size as nat,
                peak: if self.used + size > self.peak {
                    self.used + size as nat
                } else {
                    self.peak
                },
                ..self
            }
        } else {
            self
        }
    }

    /// The ledger after a block of `size` bytes was given back.
    pub open spec fn after_dealloc(self, size: usize) -> LedgerView
        recommends
            size <= self.used,
    {
        LedgerView { used: (self.used - size) as nat, ..self }
    }

    /// What is reported of a refused request.
    pub open spec fn report(self, size: usize, align: usize) -> OomReport {
        OomReport { size, align, free: self.free() as usize, total: self.region.size }
    }
}

/// The ledger in front of the inner allocator.
#[derive(Debug)]
pub struct TrackingAllocator {
    region: HeapRegion,
    allocated: usize,
    peak: usize,
}

impl View for TrackingAllocator {
    type V = LedgerView;

    closed spec fn view(&self) -> LedgerView {
        LedgerView { region: self.region, used: self.allocated as nat, peak: self.peak as nat }
    }
}

impl TrackingAllocator {
    #[verifier::type_invariant]
    spec fn inv(self) -> bool {
        self@.wf()
    }

    /// The ledger of a region in which nothing is allocated yet. A region
    /// that runs past the end of the address space is none.
    pub fn new(region: HeapRegion) -> (ledger: Option<TrackingAllocator>)
        ensures
            region.start + region.size <= usize::MAX <==> ledger is Some,
            ledger matches Some(l) ==> l@ == (LedgerView { region, used: 0, peak: 0 }) && l@.wf(),
    {
        if region.size <= usize::MAX - region.start {
            Some(TrackingAllocator { region, allocated: 0, peak: 0 })
        } else {
            None
        }
    }

    /// Bytes in live blocks.
    pub fn used(&self) -> (used: usize)
        ensures
            used == self@.used,
            self@.wf(),
    {
        proof {
            use_type_invariant(self);
        }
        self.allocated
    }

    /// Settles a request for `size` bytes aligned to `align`, for which the
    /// inner allocator offered the block at address `inner`, or none.
    ///
    /// The block is handed out if the inner allocator offered one, it lies
    /// inside the region with the alignment asked for, and the region has
    /// `size` bytes left. Then the live bytes grow by `size`, and the peak
    /// follows them. In every other case the request is refused: the ledger
    /// stays exactly as it was, and the report carries what was asked for
    /// and how many bytes were free. A block that was offered and refused
    /// goes back to the inner allocator.
    pub fn allocate(&mut self, size: usize, align: usize, inner: Option<usize>) -> (granted: Result<
        usize,
        OomReport,
    >)
        ensures
            old(self)@.wf(),
            final(self)@.wf(),
            final(self)@ == old(self)@.after_alloc(size, align, inner),
            match granted {
                Ok(address) => old(self)@.grants(size, align, inner) && inner == Some(address),
                Err(report) => !old(self)@.grants(size, align, inner) && report == old(self)@.report(size, align) && *final(self) == *old(self),
            },
    {
        proof {
            use_type_invariant(&*self);
        }
        let free: usize = self.region.size - self.allocated;
        let refused = OomReport { size, align, free, total: self.region.size };
        match inner {
            Some(address) => {
                if align > 0 && address % align == 0 && self.region.start <= address && size
                    <= free && address - self.region.start <= self.region.size - size {
                    let current: usize = self.allocated + size;
                    let peak: usize = if current > self.peak {
                        current
                    } else {
                        self.peak
                    };
                    *self = TrackingAllocator { region: self.region, allocated: current, peak };
                    Ok(address)
                } else {
                    Err(refused)
                }
            },
            None => Err(refused),
        }
    }

    /// Takes a block of `size` bytes back.
    ///
    /// The block is one that `allocate` handed out with that size and that has
    /// not been given back since, so the live bytes hold at least `size`.
    pub fn dealloc(&mut self, size: usize)
        requires
            size <= old(self)@.used,
        ensures
            final(self)@.wf(),
            final(self)@ == old(self)@.after_dealloc(size),
    {
        proof {
            use_type_invariant(&*self);
        }
        *self = TrackingAllocator {
            region: self.region,
            allocated: self.allocated - size,
            peak: self.peak,
        };
    }

    /// The figures to log at a stage of the startup: live bytes, free bytes
    /// and the peak.
    pub fn log_memory_usage(&self) -> (usage: MemoryUsage)
        ensures
            self@.wf(),
            usage.used == self@.used,
            usage.free == self@.free(),
            usage.peak == self@.peak,
    {
        proof {
            use_type_invariant(self);
        }
        MemoryUsage {
            used: self.allocated,
            free: self.region.size - self.allocated,
            peak: self.peak,
        }
    }
}

/// The accounting of the heap is safe: a request that would lift the live
/// bytes over the size of the region is refused and changes nothing; a
/// granted request adds exactly its size; no request leads out of the states
/// in which the live bytes fit the region.
pub proof fn lemma_alloc_accounting(
    ledger: LedgerView,
    size: usize,
    align: usize,
    inner: Option<usize>,
)
    requires
        ledger.wf(),
    ensures
        ledger.after_alloc(size, align, inner).wf(),
        ledger.used + size > ledger.region.size ==> !ledger.grants(size, align, inner)
            && ledger.after_alloc(size, align, inner) == ledger,
        ledger.grants(size, align, inner) ==> ledger.after_alloc(size, align, inner).used
            - ledger.used == size,
        ledger.after_alloc(size, align, inner).peak >= ledger.peak,
        ledger.after_alloc(size, align, inner).region == ledger.region,
{
}

/// Giving a block back takes exactly its size off the live bytes, and
/// leaves the peak and the region alone.
pub proof fn lemma_dealloc_accounting(ledger: LedgerView, size: usize)
    requires
        ledger.wf(),
        size <= ledger.used,
    ensures
        ledger.after_dealloc(size).wf(),
        ledger.after_dealloc(size).used == ledger.used - size,
        ledger.after_dealloc(size).peak == ledger.peak,
        ledger.after_dealloc(size).free() == ledger.free() + size,
{
}

/// A block that is granted and given back leaves the live bytes where they
/// were.
pub proof fn lemma_alloc_then_dealloc(
    ledger: LedgerView,
    size: usize,
    align: usize,
    inner: Option<usize>,
)
    requires
        ledger.wf(),
        ledger.grants(size, align, inner),
    ensures
        ledger.after_alloc(size, align, inner).after_dealloc(size).used == ledger.used,
        ledger.after_alloc(size, align, inner).after_dealloc(size).region == ledger.region,
{
}

/// One call on the ledger.
pub enum Request {
    /// A request for `size` bytes aligned to `align`, for which the inner
    /// allocator offered `inner`.
    Allocate { size: usize, align: usize, inner: Option<usize> },
    /// The return of a block of `size` bytes.
    Release { size: usize },
}

impl LedgerView {
    /// The ledger after one call.
    pub open spec fn after(self, request: Request) -> LedgerView {
        match request {
            Request::Allocate { size, align, inner } => self.after_alloc(size, align, inner),
            Request::Release { size } => self.after_dealloc(size),
        }
    }

    /// The ledger after these calls, in order.
    pub open spec fn after_all(self, requests: Seq<Request>) -> LedgerView
        decreases requests.len(),
    {
        if requests.len() == 0 {
            self
        } else {
            self.after_all(requests.drop_last()).after(requests.last())
        }
    }

    /// Whether every return among these calls gives back no more than is
    /// live at that moment, as returns of blocks handed out before do.
    pub open spec fn returns_are_live(self, requests: Seq<Request>) -> bool {
        forall|i: int|
            0 <= i < requests.len() ==> (#[trigger] requests[i] matches Request::Release { size }
                ==> size <= self.after_all(requests.subrange(0, i)).used)
    }
}

/// Whatever is asked of the ledger, in whatever order: the live bytes never
/// pass the size of the region, the peak never falls and is never below the
/// live bytes, and the region stays the one the ledger was made for.
pub proof fn lemma_ledger_never_overruns(ledger: LedgerView, requests: Seq<Request>)
    requires
        ledger.wf(),
        ledger.returns_are_live(requests),
    ensures
        ledger.after_all(requests).wf(),
        ledger.after_all(requests).used <= ledger.region.size,
        ledger.after_all(requests).peak >= ledger.peak,
        ledger.after_all(requests).region == ledger.region,
    decreases requests.len(),
{
    if requests.len() > 0 {
        let before = requests.drop_last();
        assert forall|i: int| 0 <= i < before.len() implies (#[trigger] before[i] matches Request::Release {
            size,
        } ==> size <= ledger.after_all(before.subrange(0, i)).used) by {
            assert(before[i] == requests[i]);
            assert(before.subrange(0, i) =~= requests.subrange(0, i));
        }
        lemma_ledger_never_overruns(ledger, before);
        assert(requests.subrange(0, requests.len() - 1) =~= before);
        assert(requests[requests.len() - 1] == requests.last());
    }
}

} // verus!
