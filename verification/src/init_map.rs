//! The IOMMU initialisation plan of the PMP driver.
//!
//! A table of entries describes which physical register ranges the firmware
//! needs mapped. A `Dva` entry moves the device-virtual cursor; each `Range`
//! entry of nonzero size is mapped at the cursor, at physical address
//! `PHYS_BASE + addr`, after which the cursor moves past the range rounded up
//! to `DVA_GRANULE`. Every `Range` entry also adds a 16-byte record to the
//! maps table handed to the firmware: the mapping's device-virtual address
//! and size, little-endian, or sixteen zero bytes for an empty range.
use vstd::prelude::*;
use vstd::bytes::{
    lemma_auto_spec_u64_to_from_le_bytes, spec_u64_from_le_bytes, spec_u64_to_le_bytes,
    spec_u64_to_le_bytes_to_open, u64_to_le_bytes,
};
use crate::error::PmpError;

verus! {

/// Offset added to every physical address of the table.
pub const PHYS_BASE: u64 = 0x2_0000_0000;

/// Granule to which the device-virtual cursor advances.
pub const DVA_GRANULE: u64 = 0x4000;

/// Length of one record of the maps table.
pub const MAP_RECORD_LEN: usize = 16;

/// One entry of the initialisation table.
#[derive(Clone, Copy, Debug, PartialEq, Eq, Structural)]
pub enum InitEntry {
    /// A physical range of `size` bytes at `PHYS_BASE + addr`.
    Range { addr: u64, size: u64 },
    /// Moves the device-virtual cursor to `addr`.
    Dva { addr: u64 },
}

/// One IOMMU mapping that the driver must establish.
#[derive(Clone, Copy, Debug, PartialEq, Eq, Structural)]
pub struct IommuMapping {
    /// Device-virtual address of the mapping.
    pub dva: u64,
    /// Physical address of the mapping.
    pub paddr: u64,
    /// Length of the mapping in bytes.
    pub size: u64,
}

/// The mappings to establish, in order, and the maps table for the firmware.
pub struct InitPlan {
    pub mappings: Vec<IommuMapping>,
    pub maps: Vec<u8>,
}

/// `size` rounded up to a multiple of `DVA_GRANULE`.
pub open spec fn round_up_granule(size: u64) -> int {
    if size % 0x4000 == 0 {
        size as int
    } else {
        size + (0x4000 - size % 0x4000)
    }
}

/// The record of an empty range.
pub open spec fn zero_record() -> Seq<u8> {
    Seq::new(16, |i: int| 0u8)
}

/// The record of a mapping at `dva` of `size` bytes.
pub open spec fn map_record(dva: u64, size: u64) -> Seq<u8> {
    spec_u64_to_le_bytes(dva) + spec_u64_to_le_bytes(size)
}

/// The planner's state after a prefix of the table: the cursor, the mappings
/// so far and the maps table so far.
pub type PlanState = (u64, Seq<IommuMapping>, Seq<u8>);

/// One step of the plan; `None` where a computation leaves the 64-bit range.
pub open spec fn spec_plan_step(s: PlanState, e: InitEntry) -> Option<PlanState> {
    match e {
        InitEntry::Dva { addr } => Some((addr, s.1, s.2)),
        InitEntry::Range { addr, size } => {
            if addr + PHYS_BASE > u64::MAX {
                None
            } else if size == 0 {
                Some((s.0, s.1, s.2 + zero_record()))
            } else if s.0 + round_up_granule(size) > u64::MAX {
                None
            } else {
                Some((
                    (s.0 + round_up_granule(size)) as u64,
                    s.1.push(IommuMapping { dva: s.0, paddr: (addr + PHYS_BASE) as u64, size }),
                    s.2 + map_record(s.0, size),
                ))
            }
        },
    }
}

/// The planner's state after the first `n` entries of `table`.
pub open spec fn spec_plan_prefix(table: Seq<InitEntry>, n: nat) -> Option<PlanState>
    decreases n,
{
    if n == 0 {
        Some((0u64, Seq::empty(), Seq::empty()))
    } else {
        match spec_plan_prefix(table, (n - 1) as nat) {
            Some(s) => spec_plan_step(s, table[n - 1]),
            None => None,
        }
    }
}

/// The plan of the whole table.
pub open spec fn spec_plan(table: Seq<InitEntry>) -> Option<PlanState> {
    spec_plan_prefix(table, table.len())
}

/// Once a prefix of the table overflows, every longer prefix does too.
proof fn lemma_overflow_persists(table: Seq<InitEntry>, n: nat, m: nat)
    requires
        n <= m,
        spec_plan_prefix(table, n) is None,
    ensures
        spec_plan_prefix(table, m) is None,
    decreases m - n,
{
    if n < m {
        lemma_overflow_persists(table, n, (m - 1) as nat);
    }
}

/// The number of `Range` entries among the first `n` entries of `table`.
pub open spec fn range_count(table: Seq<InitEntry>, n: nat) -> nat
    decreases n,
{
    if n == 0 {
        0
    } else {
        range_count(table, (n - 1) as nat) + (if table[n - 1] is Range { 1nat } else { 0nat })
    }
}

/// The `(addr, size)` of the `Range` entries of nonzero size among the first
/// `n` entries of `table`, in order.
pub open spec fn nonempty_ranges(table: Seq<InitEntry>, n: nat) -> Seq<(u64, u64)>
    decreases n,
{
    if n == 0 {
        Seq::empty()
    } else {
        let r = nonempty_ranges(table, (n - 1) as nat);
        match table[n - 1] {
            InitEntry::Range { addr, size } => if size != 0 { r.push((addr, size)) } else { r },
            InitEntry::Dva { .. } => r,
        }
    }
}

/// Every `Dva` entry of `table` is a multiple of `DVA_GRANULE`.
pub open spec fn dva_entries_aligned(table: Seq<InitEntry>) -> bool {
    forall|i: int| 0 <= i < table.len() ==> (#[trigger] table[i] matches InitEntry::Dva { addr } ==> addr % 0x4000 == 0)
}

/// An entry whose addresses and size stay below 4 GiB, with `Dva` addresses
/// on the granule.
pub open spec fn entry_bounded(e: InitEntry) -> bool {
    match e {
        InitEntry::Dva { addr } => addr < 0x1_0000_0000 && addr % 0x4000 == 0,
        InitEntry::Range { addr, size } => addr < 0x1_0000_0000 && size < 0x1_0000_0000,
    }
}

/// A table of fewer than 65536 bounded entries.
pub open spec fn table_bounded(table: Seq<InitEntry>) -> bool {
    &&& table.len() < 0x10000
    &&& forall|i: int| 0 <= i < table.len() ==> entry_bounded(#[trigger] table[i])
}

proof fn lemma_plan_prefix_shape(table: Seq<InitEntry>, n: nat)
    requires
        n <= table.len(),
        spec_plan_prefix(table, n) is Some,
    ensures
        ({
            let s = spec_plan_prefix(table, n).unwrap();
            &&& s.2.len() == 16 * range_count(table, n)
            &&& s.1.len() == nonempty_ranges(table, n).len()
            &&& forall|j: int| 0 <= j < s.1.len() ==> {
                &&& (#[trigger] s.1[j]).paddr == nonempty_ranges(table, n)[j].0 + PHYS_BASE
                &&& s.1[j].size == nonempty_ranges(table, n)[j].1
                &&& s.1[j].size != 0
            }
        }),
    decreases n,
{
    lemma_auto_spec_u64_to_from_le_bytes();
    if n > 0 {
        let m = (n - 1) as nat;
        if spec_plan_prefix(table, m) is None {
            lemma_overflow_persists(table, m, n);
        }
        lemma_plan_prefix_shape(table, m);
        let s = spec_plan_prefix(table, m).unwrap();
        let t = spec_plan_prefix(table, n).unwrap();
        let rm = nonempty_ranges(table, m);
        let rn = nonempty_ranges(table, n);
        match table[n - 1] {
            InitEntry::Dva { addr } => {
                assert(t.1 == s.1);
            },
            InitEntry::Range { addr, size } => {
                if size == 0 {
                    assert(t.2.len() == s.2.len() + 16);
                } else {
                    assert(t.2.len() == s.2.len() + 16);
                    assert forall|j: int| 0 <= j < t.1.len() implies {
                        &&& (#[trigger] t.1[j]).paddr == rn[j].0 + PHYS_BASE
                        &&& t.1[j].size == rn[j].1
                        &&& t.1[j].size != 0
                    } by {
                        if j < s.1.len() {
                            assert(t.1[j] == s.1[j]);
                            assert(rn[j] == rm[j]);
                        }
                    }
                }
            },
        }
    }
}

/// The plan's outcome: one 16-byte record per `Range` entry, and one mapping
/// per `Range` entry of nonzero size, in table order, at physical address
/// `PHYS_BASE + addr` and of the entry's size.
pub proof fn lemma_plan_shape(table: Seq<InitEntry>)
    requires
        spec_plan(table) is Some,
    ensures
        ({
            let s = spec_plan(table).unwrap();
            let ranges = nonempty_ranges(table, table.len());
            &&& s.2.len() == MAP_RECORD_LEN * range_count(table, table.len())
            &&& s.1.len() == ranges.len()
            &&& forall|j: int| 0 <= j < s.1.len() ==> {
                &&& (#[trigger] s.1[j]).paddr == ranges[j].0 + PHYS_BASE
                &&& s.1[j].size == ranges[j].1
            }
        }),
{
    lemma_plan_prefix_shape(table, table.len());
}

proof fn lemma_plan_prefix_aligned(table: Seq<InitEntry>, n: nat)
    requires
        n <= table.len(),
        dva_entries_aligned(table),
        spec_plan_prefix(table, n) is Some,
    ensures
        spec_plan_prefix(table, n).unwrap().0 % 0x4000 == 0,
        forall|j: int| 0 <= j < spec_plan_prefix(table, n).unwrap().1.len()
            ==> (#[trigger] spec_plan_prefix(table, n).unwrap().1[j]).dva % 0x4000 == 0,
    decreases n,
{
    if n > 0 {
        let m = (n - 1) as nat;
        if spec_plan_prefix(table, m) is None {
            lemma_overflow_persists(table, m, n);
        }
        lemma_plan_prefix_aligned(table, m);
        let s = spec_plan_prefix(table, m).unwrap();
        let t = spec_plan_prefix(table, n).unwrap();
        let e = table[n - 1];
        assert(e matches InitEntry::Dva { addr } ==> addr % 0x4000 == 0);
        match e {
            InitEntry::Dva { addr } => {},
            InitEntry::Range { addr, size } => {
                if size != 0 {
                    assert(round_up_granule(size) % 0x4000 == 0);
                    assert forall|j: int| 0 <= j < t.1.len() implies (#[trigger] t.1[j]).dva % 0x4000 == 0 by {
                        if j < s.1.len() {
                            assert(t.1[j] == s.1[j]);
                        }
                    }
                }
            },
        }
    }
}

/// When every `Dva` entry lies on the granule, so does every mapping's
/// device-virtual address.
pub proof fn lemma_plan_aligned(table: Seq<InitEntry>)
    requires
        dva_entries_aligned(table),
        spec_plan(table) is Some,
    ensures
        forall|j: int| 0 <= j < spec_plan(table).unwrap().1.len()
            ==> (#[trigger] spec_plan(table).unwrap().1[j]).dva % DVA_GRANULE == 0,
{
    lemma_plan_prefix_aligned(table, table.len());
}

/// The number of `Dva` entries among the first `n` entries of `table`.
pub open spec fn dva_count(table: Seq<InitEntry>, n: nat) -> nat
    decreases n,
{
    if n == 0 {
        0
    } else {
        dva_count(table, (n - 1) as nat) + (if table[n - 1] is Dva { 1nat } else { 0nat })
    }
}

/// For each mapping made from the first `n` entries of `table`, the number
/// of `Dva` entries before it: mappings with the same number share a segment.
pub open spec fn mapping_segments(table: Seq<InitEntry>, n: nat) -> Seq<nat>
    decreases n,
{
    if n == 0 {
        Seq::empty()
    } else {
        let r = mapping_segments(table, (n - 1) as nat);
        match table[n - 1] {
            InitEntry::Range { addr, size } => if size != 0 {
                r.push(dva_count(table, (n - 1) as nat))
            } else {
                r
            },
            InitEntry::Dva { .. } => r,
        }
    }
}

proof fn lemma_plan_prefix_disjoint(table: Seq<InitEntry>, n: nat)
    requires
        n <= table.len(),
        spec_plan_prefix(table, n) is Some,
    ensures
        ({
            let s = spec_plan_prefix(table, n).unwrap();
            let segs = mapping_segments(table, n);
            &&& s.1.len() == segs.len()
            &&& forall|j: int| 0 <= j < segs.len() ==> #[trigger] segs[j] <= dva_count(table, n)
            &&& forall|j: int| 0 <= j < segs.len() && segs[j] == dva_count(table, n)
                ==> (#[trigger] s.1[j]).dva + s.1[j].size <= s.0
            &&& forall|j: int, k: int| 0 <= j < k < segs.len() && #[trigger] segs[j] == #[trigger] segs[k]
                ==> s.1[j].dva + s.1[j].size <= s.1[k].dva
        }),
    decreases n,
{
    if n > 0 {
        let m = (n - 1) as nat;
        if spec_plan_prefix(table, m) is None {
            lemma_overflow_persists(table, m, n);
        }
        lemma_plan_prefix_disjoint(table, m);
        let s = spec_plan_prefix(table, m).unwrap();
        let t = spec_plan_prefix(table, n).unwrap();
        let sm = mapping_segments(table, m);
        let sn = mapping_segments(table, n);
        match table[n - 1] {
            InitEntry::Dva { addr } => {
                assert(sn == sm);
            },
            InitEntry::Range { addr, size } => {
                if size == 0 {
                    assert(sn == sm);
                } else {
                    assert(round_up_granule(size) >= size);
                    assert forall|j: int| 0 <= j < sn.len() implies #[trigger] sn[j] <= dva_count(table, n) by {
                        if j < sm.len() {
                            assert(sn[j] == sm[j]);
                        }
                    }
                    assert forall|j: int| 0 <= j < sn.len() && sn[j] == dva_count(table, n)
                        implies (#[trigger] t.1[j]).dva + t.1[j].size <= t.0 by {
                        if j < sm.len() {
                            assert(sn[j] == sm[j]);
                            assert(t.1[j] == s.1[j]);
                        }
                    }
                    assert forall|j: int, k: int| 0 <= j < k < sn.len() && #[trigger] sn[j] == #[trigger] sn[k]
                        implies t.1[j].dva + t.1[j].size <= t.1[k].dva by {
                        assert(sn[j] == sm[j]);
                        assert(t.1[j] == s.1[j]);
                        if k < sm.len() {
                            assert(sn[k] == sm[k]);
                            assert(t.1[k] == s.1[k]);
                        }
                    }
                }
            },
        }
    }
}

/// Mappings between the same two `Dva` entries do not overlap: each one ends
/// at or before the device-virtual address of every later one of its segment.
pub proof fn lemma_plan_segments_disjoint(table: Seq<InitEntry>)
    requires
        spec_plan(table) is Some,
    ensures
        ({
            let s = spec_plan(table).unwrap();
            let segs = mapping_segments(table, table.len());
            &&& s.1.len() == segs.len()
            &&& forall|j: int, k: int| 0 <= j < k < segs.len() && #[trigger] segs[j] == #[trigger] segs[k]
                ==> s.1[j].dva + s.1[j].size <= s.1[k].dva
        }),
{
    lemma_plan_prefix_disjoint(table, table.len());
}

/// The device-virtual address and the size that record `i` of a maps table
/// holds, each read as a little-endian 64-bit number.
pub open spec fn record_fields(maps: Seq<u8>, i: int) -> (u64, u64) {
    (
        spec_u64_from_le_bytes(maps.subrange(16 * i, 16 * i + 8)),
        spec_u64_from_le_bytes(maps.subrange(16 * i + 8, 16 * i + 16)),
    )
}

/// Counts over a prefix only grow with the prefix.
proof fn lemma_counts_monotone(table: Seq<InitEntry>, a: nat, b: nat)
    requires
        a <= b <= table.len(),
    ensures
        range_count(table, a) <= range_count(table, b),
        nonempty_ranges(table, a).len() <= nonempty_ranges(table, b).len(),
    decreases b - a,
{
    if a < b {
        lemma_counts_monotone(table, a, (b - 1) as nat);
    }
}

#[verifier::spinoff_prover]
#[verifier::rlimit(50)]
proof fn lemma_plan_prefix_records(table: Seq<InitEntry>, n: nat)
    requires
        n <= table.len(),
        spec_plan_prefix(table, n) is Some,
    ensures
        ({
            let s = spec_plan_prefix(table, n).unwrap();
            forall|e: int| 0 <= e < n ==> match #[trigger] table[e] {
                InitEntry::Range { addr, size } => {
                    let i = range_count(table, e as nat) as int;
                    let j = nonempty_ranges(table, e as nat).len() as int;
                    if size == 0 {
                        s.2.subrange(16 * i, 16 * i + 16) == Seq::new(16, |b: int| 0u8)
                    } else {
                        &&& record_fields(s.2, i) == (s.1[j].dva, size)
                        &&& s.1[j].paddr == addr + PHYS_BASE
                        &&& s.1[j].size == size
                    }
                },
                InitEntry::Dva { .. } => true,
            }
        }),
    decreases n,
{
    lemma_auto_spec_u64_to_from_le_bytes();
    if n > 0 {
        let m = (n - 1) as nat;
        if spec_plan_prefix(table, m) is None {
            lemma_overflow_persists(table, m, n);
        }
        lemma_plan_prefix_records(table, m);
        lemma_plan_prefix_shape(table, m);
        let s = spec_plan_prefix(table, m).unwrap();
        let t = spec_plan_prefix(table, n).unwrap();
        let i_new = range_count(table, m) as int;
        let j_new = nonempty_ranges(table, m).len() as int;
        assert forall|e: int| 0 <= e < n implies match #[trigger] table[e] {
            InitEntry::Range { addr, size } => {
                let i = range_count(table, e as nat) as int;
                let j = nonempty_ranges(table, e as nat).len() as int;
                if size == 0 {
                    t.2.subrange(16 * i, 16 * i + 16) == Seq::new(16, |b: int| 0u8)
                } else {
                    &&& record_fields(t.2, i) == (t.1[j].dva, size)
                    &&& t.1[j].paddr == addr + PHYS_BASE
                    &&& t.1[j].size == size
                }
            },
            InitEntry::Dva { .. } => true,
        } by {
            if e < m {
                lemma_counts_monotone(table, (e + 1) as nat, m);
                let i = range_count(table, e as nat) as int;
                let j = nonempty_ranges(table, e as nat).len() as int;
                match table[e] {
                    InitEntry::Range { addr, size } => {
                        assert(range_count(table, (e + 1) as nat) == i + 1);
                        assert(t.2.subrange(0, s.2.len() as int) == s.2);
                        assert(t.2.subrange(16 * i, 16 * i + 16) =~= s.2.subrange(16 * i, 16 * i + 16));
                        assert(t.2.subrange(16 * i, 16 * i + 8) =~= s.2.subrange(16 * i, 16 * i + 8));
                        assert(t.2.subrange(16 * i + 8, 16 * i + 16) =~= s.2.subrange(16 * i + 8, 16 * i + 16));
                        if size != 0 {
                            assert(nonempty_ranges(table, (e + 1) as nat).len() == j + 1);
                            assert(t.1[j] == s.1[j]);
                        }
                    },
                    InitEntry::Dva { .. } => {},
                }
            } else {
                match table[e] {
                    InitEntry::Range { addr, size } => {
                        if size == 0 {
                            assert(t.2.subrange(16 * i_new, 16 * i_new + 16) =~= Seq::new(16, |b: int| 0u8));
                        } else {
                            assert(t.2.subrange(16 * i_new, 16 * i_new + 8) =~= spec_u64_to_le_bytes(s.0));
                            assert(t.2.subrange(16 * i_new + 8, 16 * i_new + 16) =~= spec_u64_to_le_bytes(size));
                            assert(t.1[j_new] == IommuMapping { dva: s.0, paddr: (addr + PHYS_BASE) as u64, size });
                        }
                    },
                    InitEntry::Dva { .. } => {},
                }
            }
        }
    }
}

/// Each record of the maps table belongs to its `Range` entry: the record of
/// an empty range is sixteen zero bytes, and the record of a nonempty one
/// reads back as the device-virtual address of that range's mapping and the
/// range's own size, the mapping being at `PHYS_BASE + addr` with that size.
/// Records and mappings are numbered by the ranges before the entry.
pub proof fn lemma_plan_records(table: Seq<InitEntry>)
    requires
        spec_plan(table) is Some,
    ensures
        ({
            let s = spec_plan(table).unwrap();
            forall|e: int| 0 <= e < table.len() ==> match #[trigger] table[e] {
                InitEntry::Range { addr, size } => {
                    let i = range_count(table, e as nat) as int;
                    let j = nonempty_ranges(table, e as nat).len() as int;
                    if size == 0 {
                        s.2.subrange(16 * i, 16 * i + 16) == Seq::new(16, |b: int| 0u8)
                    } else {
                        &&& record_fields(s.2, i) == (s.1[j].dva, size)
                        &&& s.1[j].paddr == addr + PHYS_BASE
                        &&& s.1[j].size == size
                    }
                },
                InitEntry::Dva { .. } => true,
            }
        }),
{
    lemma_plan_prefix_records(table, table.len());
}

/// The address of the last `Dva` entry among the first `n` entries of
/// `table`, or 0 when there is none.
pub open spec fn dva_base(table: Seq<InitEntry>, n: nat) -> u64
    decreases n,
{
    if n == 0 {
        0
    } else {
        match table[n - 1] {
            InitEntry::Dva { addr } => addr,
            InitEntry::Range { .. } => dva_base(table, (n - 1) as nat),
        }
    }
}

proof fn lemma_segments_len(table: Seq<InitEntry>, n: nat)
    requires
        n <= table.len(),
    ensures
        mapping_segments(table, n).len() == nonempty_ranges(table, n).len(),
    decreases n,
{
    if n > 0 {
        lemma_segments_len(table, (n - 1) as nat);
    }
}

/// A step between the device-virtual addresses of two consecutive mappings:
/// the first one's size rounded up to the next multiple of `DVA_GRANULE`.
pub open spec fn is_granule_step(size: u64, step: int) -> bool {
    step % 0x4000 == 0 && size <= step < size + 0x4000
}

#[verifier::spinoff_prover]
#[verifier::rlimit(50)]
proof fn lemma_plan_prefix_cursor(table: Seq<InitEntry>, n: nat)
    requires
        n <= table.len(),
        spec_plan_prefix(table, n) is Some,
    ensures
        ({
            let s = spec_plan_prefix(table, n).unwrap();
            let segs = mapping_segments(table, n);
            &&& if s.1.len() > 0 && segs[s.1.len() - 1] == dva_count(table, n) {
                s.0 == s.1[s.1.len() - 1].dva + round_up_granule(s.1[s.1.len() - 1].size)
            } else {
                s.0 == dva_base(table, n)
            }
            &&& forall|e: int| 0 <= e < n ==> match #[trigger] table[e] {
                InitEntry::Range { addr, size } => size != 0 ==> {
                    let j = nonempty_ranges(table, e as nat).len() as int;
                    if j > 0 && mapping_segments(table, e as nat)[j - 1] == dva_count(table, e as nat) {
                        is_granule_step(s.1[j - 1].size, s.1[j].dva - s.1[j - 1].dva)
                    } else {
                        s.1[j].dva == dva_base(table, e as nat)
                    }
                },
                InitEntry::Dva { .. } => true,
            }
        }),
    decreases n,
{
    lemma_plan_prefix_disjoint(table, n);
    lemma_plan_prefix_shape(table, n);
    if n > 0 {
        let m = (n - 1) as nat;
        if spec_plan_prefix(table, m) is None {
            lemma_overflow_persists(table, m, n);
        }
        lemma_plan_prefix_cursor(table, m);
        lemma_plan_prefix_disjoint(table, m);
        lemma_plan_prefix_shape(table, m);
        lemma_segments_len(table, m);
        let s = spec_plan_prefix(table, m).unwrap();
        let t = spec_plan_prefix(table, n).unwrap();
        let sm = mapping_segments(table, m);
        let sn = mapping_segments(table, n);
        match table[m as int] {
            InitEntry::Dva { addr } => {
                assert(sn == sm);
                assert(t.1 == s.1);
                if t.1.len() > 0 {
                    assert(sm[t.1.len() - 1] <= dva_count(table, m));
                }
            },
            InitEntry::Range { addr, size } => {
                if size == 0 {
                    assert(sn == sm);
                    assert(t.1 == s.1);
                } else {
                    let j = s.1.len() as int;
                    assert(t.1[j].dva == s.0);
                    assert(sn[j] == dva_count(table, m));
                    if j > 0 && sm[j - 1] == dva_count(table, m) {
                        assert(t.1[j - 1] == s.1[j - 1]);
                    }
                }
            },
        }
        assert forall|e: int| 0 <= e < n implies match #[trigger] table[e] {
            InitEntry::Range { addr, size } => size != 0 ==> {
                let j = nonempty_ranges(table, e as nat).len() as int;
                if j > 0 && mapping_segments(table, e as nat)[j - 1] == dva_count(table, e as nat) {
                    is_granule_step(t.1[j - 1].size, t.1[j].dva - t.1[j - 1].dva)
                } else {
                    t.1[j].dva == dva_base(table, e as nat)
                }
            },
            InitEntry::Dva { .. } => true,
        } by {
            if e < m {
                lemma_counts_monotone(table, (e + 1) as nat, m);
                match table[e] {
                    InitEntry::Range { addr, size } => {
                        if size != 0 {
                            let j = nonempty_ranges(table, e as nat).len() as int;
                            assert(nonempty_ranges(table, (e + 1) as nat).len() == j + 1);
                            assert(t.1[j] == s.1[j]);
                            if j > 0 {
                                assert(t.1[j - 1] == s.1[j - 1]);
                            }
                        }
                    },
                    InitEntry::Dva { .. } => {},
                }
            } else {
                match table[e] {
                    InitEntry::Range { addr, size } => {
                        if size != 0 {
                            let j = s.1.len() as int;
                            assert(t.1[j].dva == s.0);
                            if j > 0 && sm[j - 1] == dva_count(table, m) {
                                assert(t.1[j - 1] == s.1[j - 1]);
                                assert(is_granule_step(s.1[j - 1].size, round_up_granule(s.1[j - 1].size)));
                            }
                        }
                    },
                    InitEntry::Dva { .. } => {},
                }
            }
        }
    }
}

/// Where each mapping goes: the first mapping after a `Dva` entry (or at the
/// start of the table) lies at that entry's address (or 0), and each further
/// mapping lies exactly its predecessor's size rounded up to `DVA_GRANULE`
/// after its predecessor. Empty ranges in between move nothing.
pub proof fn lemma_plan_cursor(table: Seq<InitEntry>)
    requires
        spec_plan(table) is Some,
    ensures
        ({
            let s = spec_plan(table).unwrap();
            forall|e: int| 0 <= e < table.len() ==> match #[trigger] table[e] {
                InitEntry::Range { addr, size } => size != 0 ==> {
                    let j = nonempty_ranges(table, e as nat).len() as int;
                    if j > 0 && mapping_segments(table, e as nat)[j - 1] == dva_count(table, e as nat) {
                        is_granule_step(s.1[j - 1].size, s.1[j].dva - s.1[j - 1].dva)
                    } else {
                        s.1[j].dva == dva_base(table, e as nat)
                    }
                },
                InitEntry::Dva { .. } => true,
            }
        }),
{
    lemma_plan_prefix_cursor(table, table.len());
}

proof fn lemma_bounded_prefix_plans(table: Seq<InitEntry>, n: nat)
    requires
        table_bounded(table),
        n <= table.len(),
    ensures
        spec_plan_prefix(table, n) is Some,
        spec_plan_prefix(table, n).unwrap().0 <= 0x1_0000_0000 + n * 0x2_0000_0000,
    decreases n,
{
    if n > 0 {
        let m = (n - 1) as nat;
        lemma_bounded_prefix_plans(table, m);
        assert(entry_bounded(table[n - 1]));
    }
}

/// A bounded table plans without overflow.
pub proof fn lemma_bounded_table_plans(table: Seq<InitEntry>)
    requires
        table_bounded(table),
    ensures
        spec_plan(table) is Some,
{
    lemma_bounded_prefix_plans(table, table.len());
}

/// The firmware reads the device-virtual address and the size of a mapping
/// back from its record.
pub proof fn lemma_map_record_decodes(dva: u64, size: u64)
    ensures
        map_record(dva, size).len() == MAP_RECORD_LEN,
        spec_u64_from_le_bytes(map_record(dva, size).subrange(0, 8)) == dva,
        spec_u64_from_le_bytes(map_record(dva, size).subrange(8, 16)) == size,
{
    lemma_auto_spec_u64_to_from_le_bytes();
    let a = spec_u64_to_le_bytes(dva);
    let b = spec_u64_to_le_bytes(size);
    assert(map_record(dva, size).subrange(0, 8) =~= a);
    assert(map_record(dva, size).subrange(8, 16) =~= b);
}

/// Appends the record of an empty range.
fn push_zero_record(maps: &mut Vec<u8>)
    ensures
        final(maps)@ == old(maps)@ + zero_record(),
{
    let ghost start = maps@;
    let mut k: usize = 0;
    while k < MAP_RECORD_LEN
        invariant
            k <= MAP_RECORD_LEN,
            maps@ =~= start + Seq::new(k as nat, |i: int| 0u8),
        decreases MAP_RECORD_LEN - k,
    {
        maps.push(0u8);
        k = k + 1;
    }
    assert(maps@ =~= start + zero_record());
}

/// Computes the IOMMU mappings and the maps table of `table`, or
/// `PmpError::Overflow` where an address computation leaves the 64-bit range.
pub fn plan_init_maps(table: &[InitEntry]) -> (r: Result<InitPlan, PmpError>)
    ensures
        match spec_plan(table@) {
            Some(s) => r matches Ok(p) && p.mappings@ == s.1 && p.maps@ == s.2,
            None => r matches Err(e) && e == PmpError::Overflow,
        },
{
    let mut dva: u64 = 0;
    let mut mappings: Vec<IommuMapping> = Vec::new();
    let mut maps: Vec<u8> = Vec::new();
    let n = table.len();
    let mut i: usize = 0;
    assert(mappings@ =~= Seq::<IommuMapping>::empty());
    assert(maps@ =~= Seq::<u8>::empty());
    while i < n
        invariant
            n == table@.len(),
            i <= n,
            spec_plan_prefix(table@, i as nat) == Some((dva, mappings@, maps@)),
        decreases n - i,
    {
        let ghost s: PlanState = (dva, mappings@, maps@);
        assert(spec_plan_prefix(table@, (i + 1) as nat) == spec_plan_step(s, table@[i as int]));
        match table[i] {
            InitEntry::Dva { addr } => {
                dva = addr;
            },
            InitEntry::Range { addr, size } => {
                if addr > u64::MAX - PHYS_BASE {
                    proof {
                        lemma_overflow_persists(table@, (i + 1) as nat, n as nat);
                    }
                    return Err(PmpError::Overflow);
                }
                let paddr = PHYS_BASE + addr;
                if size == 0 {
                    push_zero_record(&mut maps);
                } else {
                    let rem = size % DVA_GRANULE;
                    let pad: u64 = if rem == 0 { 0 } else { DVA_GRANULE - rem };
                    if size > u64::MAX - pad || dva > u64::MAX - (size + pad) {
                        proof {
                            lemma_overflow_persists(table@, (i + 1) as nat, n as nat);
                        }
                        return Err(PmpError::Overflow);
                    }
                    mappings.push(IommuMapping { dva, paddr, size });
                    let mut dva_bytes = u64_to_le_bytes(dva);
                    maps.append(&mut dva_bytes);
                    let mut size_bytes = u64_to_le_bytes(size);
                    maps.append(&mut size_bytes);
                    assert(maps@ =~= s.2 + map_record(s.0, size));
                    dva = dva + (size + pad);
                }
            },
        }
        i = i + 1;
    }
    Ok(InitPlan { mappings, maps })
}

/// The initialisation table of the t8103 PMP.
pub open spec fn spec_init_table() -> Seq<InitEntry> {
    seq![
        InitEntry::Dva { addr: 0xc0000000 },
        InitEntry::Range { addr: 0x00024000, size: 0x4000 },
        InitEntry::Range { addr: 0x00064000, size: 0x4000 },
        InitEntry::Range { addr: 0x000a4000, size: 0x4000 },
        InitEntry::Range { addr: 0x000e4000, size: 0x4000 },
        InitEntry::Range { addr: 0x00158000, size: 0x4000 },
        InitEntry::Range { addr: 0x00204000, size: 0x4000 },
        InitEntry::Range { addr: 0x00244000, size: 0x4000 },
        InitEntry::Range { addr: 0x00284000, size: 0x4000 },
        InitEntry::Range { addr: 0x002c4000, size: 0x4000 },
        InitEntry::Range { addr: 0x00000000, size: 0x0000 },
        InitEntry::Range { addr: 0x00000000, size: 0x0000 },
        InitEntry::Range { addr: 0x00000000, size: 0x0000 },
        InitEntry::Range { addr: 0x00000000, size: 0x0000 },
        InitEntry::Range { addr: 0x00000000, size: 0x0000 },
        InitEntry::Dva { addr: 0xc1000000 },
        InitEntry::Range { addr: 0x04d10000, size: 0x4000 },
        InitEntry::Dva { addr: 0xc2000000 },
        InitEntry::Range { addr: 0x10058000, size: 0x4000 },
        InitEntry::Range { addr: 0x10158000, size: 0x4000 },
        InitEntry::Range { addr: 0x10258000, size: 0x4000 },
        InitEntry::Range { addr: 0x10358000, size: 0x4000 },
        InitEntry::Range { addr: 0x10e20000, size: 0x60000 },
        InitEntry::Range { addr: 0x10e48000, size: 0x4000 },
        InitEntry::Dva { addr: 0xc3000000 },
        InitEntry::Range { addr: 0x11058000, size: 0x4000 },
        InitEntry::Range { addr: 0x11158000, size: 0x4000 },
        InitEntry::Range { addr: 0x11258000, size: 0x4000 },
        InitEntry::Range { addr: 0x11358000, size: 0x4000 },
        InitEntry::Range { addr: 0x11e20000, size: 0x60000 },
        InitEntry::Range { addr: 0x11e48000, size: 0x4000 },
        InitEntry::Dva { addr: 0xc4000000 },
        InitEntry::Range { addr: 0x3d100000, size: 0x14000 },
        InitEntry::Range { addr: 0x3d128000, size: 0x30000 },
        InitEntry::Range { addr: 0x3d0d8000, size: 0x4000 },
        InitEntry::Dva { addr: 0xc5000000 },
        InitEntry::Range { addr: 0x6b90c000, size: 0x4000 },
        InitEntry::Range { addr: 0x00000000, size: 0x0000 },
        InitEntry::Dva { addr: 0xc0024000 },
        InitEntry::Range { addr: 0x00170000, size: 0x4000 },
        InitEntry::Range { addr: 0x00000000, size: 0x0000 },
        InitEntry::Dva { addr: 0xc6000000 },
        InitEntry::Range { addr: 0x3c100000, size: 0x4000 },
        InitEntry::Dva { addr: 0xc1004000 },
        InitEntry::Range { addr: 0x04e20000, size: 0x4000 },
        InitEntry::Dva { addr: 0xc3074000 },
        InitEntry::Range { addr: 0x11ee0000, size: 0x8000 },
        InitEntry::Range { addr: 0x11ee8000, size: 0x8000 },
        InitEntry::Range { addr: 0x11ef0000, size: 0x8000 },
        InitEntry::Dva { addr: 0xc2074000 },
        InitEntry::Range { addr: 0x10ee0000, size: 0x8000 },
        InitEntry::Dva { addr: 0xc1008000 },
        InitEntry::Range { addr: 0x04d80000, size: 0x8000 },
    ]
}

/// Appends one bounded entry to a bounded table.
fn push_entry(table: &mut Vec<InitEntry>, e: InitEntry)
    requires
        table_bounded(old(table)@),
        old(table)@.len() + 1 < 0x10000,
        entry_bounded(e),
    ensures
        final(table)@ == old(table)@.push(e),
        table_bounded(final(table)@),
{
    table.push(e);
    assert forall|i: int| 0 <= i < table@.len() implies entry_bounded(#[trigger] table@[i]) by {
        if i < table@.len() - 1 {
            assert(table@[i] == old(table)@[i]);
        }
    }
}

/// The initialisation table of the t8103 PMP.
pub fn pmp_init_table() -> (t: Vec<InitEntry>)
    ensures
        t@ == spec_init_table(),
        table_bounded(t@),
{
    let mut t: Vec<InitEntry> = Vec::new();
    push_entry(&mut t, InitEntry::Dva { addr: 0xc0000000 });
    push_entry(&mut t, InitEntry::Range { addr: 0x00024000, size: 0x4000 });
    push_entry(&mut t, InitEntry::Range { addr: 0x00064000, size: 0x4000 });
    push_entry(&mut t, InitEntry::Range { addr: 0x000a4000, size: 0x4000 });
    push_entry(&mut t, InitEntry::Range { addr: 0x000e4000, size: 0x4000 });
    push_entry(&mut t, InitEntry::Range { addr: 0x00158000, size: 0x4000 });
    push_entry(&mut t, InitEntry::Range { addr: 0x00204000, size: 0x4000 });
    push_entry(&mut t, InitEntry::Range { addr: 0x00244000, size: 0x4000 });
    push_entry(&mut t, InitEntry::Range { addr: 0x00284000, size: 0x4000 });
    push_entry(&mut t, InitEntry::Range { addr: 0x002c4000, size: 0x4000 });
    push_entry(&mut t, InitEntry::Range { addr: 0x00000000, size: 0x0000 });
    push_entry(&mut t, InitEntry::Range { addr: 0x00000000, size: 0x0000 });
    push_entry(&mut t, InitEntry::Range { addr: 0x00000000, size: 0x0000 });
    push_entry(&mut t, InitEntry::Range { addr: 0x00000000, size: 0x0000 });
    push_entry(&mut t, InitEntry::Range { addr: 0x00000000, size: 0x0000 });
    push_entry(&mut t, InitEntry::Dva { addr: 0xc1000000 });
    push_entry(&mut t, InitEntry::Range { addr: 0x04d10000, size: 0x4000 });
    push_entry(&mut t, InitEntry::Dva { addr: 0xc2000000 });
    push_entry(&mut t, InitEntry::Range { addr: 0x10058000, size: 0x4000 });
    push_entry(&mut t, InitEntry::Range { addr: 0x10158000, size: 0x4000 });
    push_entry(&mut t, InitEntry::Range { addr: 0x10258000, size: 0x4000 });
    push_entry(&mut t, InitEntry::Range { addr: 0x10358000, size: 0x4000 });
    push_entry(&mut t, InitEntry::Range { addr: 0x10e20000, size: 0x60000 });
    push_entry(&mut t, InitEntry::Range { addr: 0x10e48000, size: 0x4000 });
    push_entry(&mut t, InitEntry::Dva { addr: 0xc3000000 });
    push_entry(&mut t, InitEntry::Range { addr: 0x11058000, size: 0x4000 });
    push_entry(&mut t, InitEntry::Range { addr: 0x11158000, size: 0x4000 });
    push_entry(&mut t, InitEntry::Range { addr: 0x11258000, size: 0x4000 });
    push_entry(&mut t, InitEntry::Range { addr: 0x11358000, size: 0x4000 });
    push_entry(&mut t, InitEntry::Range { addr: 0x11e20000, size: 0x60000 });
    push_entry(&mut t, InitEntry::Range { addr: 0x11e48000, size: 0x4000 });
    push_entry(&mut t, InitEntry::Dva { addr: 0xc4000000 });
    push_entry(&mut t, InitEntry::Range { addr: 0x3d100000, size: 0x14000 });
    push_entry(&mut t, InitEntry::Range { addr: 0x3d128000, size: 0x30000 });
    push_entry(&mut t, InitEntry::Range { addr: 0x3d0d8000, size: 0x4000 });
    push_entry(&mut t, InitEntry::Dva { addr: 0xc5000000 });
    push_entry(&mut t, InitEntry::Range { addr: 0x6b90c000, size: 0x4000 });
    push_entry(&mut t, InitEntry::Range { addr: 0x00000000, size: 0x0000 });
    push_entry(&mut t, InitEntry::Dva { addr: 0xc0024000 });
    push_entry(&mut t, InitEntry::Range { addr: 0x00170000, size: 0x4000 });
    push_entry(&mut t, InitEntry::Range { addr: 0x00000000, size: 0x0000 });
    push_entry(&mut t, InitEntry::Dva { addr: 0xc6000000 });
    push_entry(&mut t, InitEntry::Range { addr: 0x3c100000, size: 0x4000 });
    push_entry(&mut t, InitEntry::Dva { addr: 0xc1004000 });
    push_entry(&mut t, InitEntry::Range { addr: 0x04e20000, size: 0x4000 });
    push_entry(&mut t, InitEntry::Dva { addr: 0xc3074000 });
    push_entry(&mut t, InitEntry::Range { addr: 0x11ee0000, size: 0x8000 });
    push_entry(&mut t, InitEntry::Range { addr: 0x11ee8000, size: 0x8000 });
    push_entry(&mut t, InitEntry::Range { addr: 0x11ef0000, size: 0x8000 });
    push_entry(&mut t, InitEntry::Dva { addr: 0xc2074000 });
    push_entry(&mut t, InitEntry::Range { addr: 0x10ee0000, size: 0x8000 });
    push_entry(&mut t, InitEntry::Dva { addr: 0xc1008000 });
    push_entry(&mut t, InitEntry::Range { addr: 0x04d80000, size: 0x8000 });
    t
}

/// The IOMMU mappings and maps table of the t8103 PMP's initialisation table,
/// which plans without overflow.
pub fn pmp_init_plan() -> (p: InitPlan)
    ensures
        spec_plan(spec_init_table()) matches Some(s) && p.mappings@ == s.1 && p.maps@ == s.2,
{
    let t = pmp_init_table();
    proof {
        lemma_bounded_table_plans(t@);
    }
    match plan_init_maps(t.as_slice()) {
        Ok(p) => p,
        Err(_) => {
            assert(false);
            InitPlan { mappings: Vec::new(), maps: Vec::new() }
        },
    }
}

/// The mappings of the t8103 PMP's initialisation table, in order.
pub open spec fn spec_init_mappings() -> Seq<IommuMapping> {
    seq![
        IommuMapping { dva: 0xc0000000, paddr: 0x200024000, size: 0x4000 },
        IommuMapping { dva: 0xc0004000, paddr: 0x200064000, size: 0x4000 },
        IommuMapping { dva: 0xc0008000, paddr: 0x2000a4000, size: 0x4000 },
        IommuMapping { dva: 0xc000c000, paddr: 0x2000e4000, size: 0x4000 },
        IommuMapping { dva: 0xc0010000, paddr: 0x200158000, size: 0x4000 },
        IommuMapping { dva: 0xc0014000, paddr: 0x200204000, size: 0x4000 },
        IommuMapping { dva: 0xc0018000, paddr: 0x200244000, size: 0x4000 },
        IommuMapping { dva: 0xc001c000, paddr: 0x200284000, size: 0x4000 },
        IommuMapping { dva: 0xc0020000, paddr: 0x2002c4000, size: 0x4000 },
        IommuMapping { dva: 0xc1000000, paddr: 0x204d10000, size: 0x4000 },
        IommuMapping { dva: 0xc2000000, paddr: 0x210058000, size: 0x4000 },
        IommuMapping { dva: 0xc2004000, paddr: 0x210158000, size: 0x4000 },
        IommuMapping { dva: 0xc2008000, paddr: 0x210258000, size: 0x4000 },
        IommuMapping { dva: 0xc200c000, paddr: 0x210358000, size: 0x4000 },
        IommuMapping { dva: 0xc2010000, paddr: 0x210e20000, size: 0x60000 },
        IommuMapping { dva: 0xc2070000, paddr: 0x210e48000, size: 0x4000 },
        IommuMapping { dva: 0xc3000000, paddr: 0x211058000, size: 0x4000 },
        IommuMapping { dva: 0xc3004000, paddr: 0x211158000, size: 0x4000 },
        IommuMapping { dva: 0xc3008000, paddr: 0x211258000, size: 0x4000 },
        IommuMapping { dva: 0xc300c000, paddr: 0x211358000, size: 0x4000 },
        IommuMapping { dva: 0xc3010000, paddr: 0x211e20000, size: 0x60000 },
        IommuMapping { dva: 0xc3070000, paddr: 0x211e48000, size: 0x4000 },
        IommuMapping { dva: 0xc4000000, paddr: 0x23d100000, size: 0x14000 },
        IommuMapping { dva: 0xc4014000, paddr: 0x23d128000, size: 0x30000 },
        IommuMapping { dva: 0xc4044000, paddr: 0x23d0d8000, size: 0x4000 },
        IommuMapping { dva: 0xc5000000, paddr: 0x26b90c000, size: 0x4000 },
        IommuMapping { dva: 0xc0024000, paddr: 0x200170000, size: 0x4000 },
        IommuMapping { dva: 0xc6000000, paddr: 0x23c100000, size: 0x4000 },
        IommuMapping { dva: 0xc1004000, paddr: 0x204e20000, size: 0x4000 },
        IommuMapping { dva: 0xc3074000, paddr: 0x211ee0000, size: 0x8000 },
        IommuMapping { dva: 0xc307c000, paddr: 0x211ee8000, size: 0x8000 },
        IommuMapping { dva: 0xc3084000, paddr: 0x211ef0000, size: 0x8000 },
        IommuMapping { dva: 0xc2074000, paddr: 0x210ee0000, size: 0x8000 },
        IommuMapping { dva: 0xc1008000, paddr: 0x204d80000, size: 0x8000 },
    ]
}

/// The t8103 table plans without overflow, to exactly `spec_init_mappings()`.
pub proof fn lemma_init_plan_mappings()
    ensures
        spec_plan(spec_init_table()) is Some,
        spec_plan(spec_init_table()).unwrap().1 == spec_init_mappings(),
{
    let t = spec_init_table();
    let m0 = Seq::<IommuMapping>::empty();
    assert(spec_plan_prefix(t, 0) == Some((0u64, m0, Seq::<u8>::empty())));
    assert(t[0] == InitEntry::Dva { addr: 0xc0000000 });
    assert(spec_plan_prefix(t, 1) is Some && spec_plan_prefix(t, 1).unwrap().0 == 0xc0000000 && spec_plan_prefix(t, 1).unwrap().1 == m0);
    assert(t[1] == InitEntry::Range { addr: 0x00024000, size: 0x4000 });
    let m1 = m0.push(IommuMapping { dva: 0xc0000000, paddr: 0x200024000, size: 0x4000 });
    assert(spec_plan_prefix(t, 2) is Some && spec_plan_prefix(t, 2).unwrap().0 == 0xc0004000 && spec_plan_prefix(t, 2).unwrap().1 == m1);
    assert(t[2] == InitEntry::Range { addr: 0x00064000, size: 0x4000 });
    let m2 = m1.push(IommuMapping { dva: 0xc0004000, paddr: 0x200064000, size: 0x4000 });
    assert(spec_plan_prefix(t, 3) is Some && spec_plan_prefix(t, 3).unwrap().0 == 0xc0008000 && spec_plan_prefix(t, 3).unwrap().1 == m2);
    assert(t[3] == InitEntry::Range { addr: 0x000a4000, size: 0x4000 });
    let m3 = m2.push(IommuMapping { dva: 0xc0008000, paddr: 0x2000a4000, size: 0x4000 });
    assert(spec_plan_prefix(t, 4) is Some && spec_plan_prefix(t, 4).unwrap().0 == 0xc000c000 && spec_plan_prefix(t, 4).unwrap().1 == m3);
    assert(t[4] == InitEntry::Range { addr: 0x000e4000, size: 0x4000 });
    let m4 = m3.push(IommuMapping { dva: 0xc000c000, paddr: 0x2000e4000, size: 0x4000 });
    assert(spec_plan_prefix(t, 5) is Some && spec_plan_prefix(t, 5).unwrap().0 == 0xc0010000 && spec_plan_prefix(t, 5).unwrap().1 == m4);
    assert(t[5] == InitEntry::Range { addr: 0x00158000, size: 0x4000 });
    let m5 = m4.push(IommuMapping { dva: 0xc0010000, paddr: 0x200158000, size: 0x4000 });
    assert(spec_plan_prefix(t, 6) is Some && spec_plan_prefix(t, 6).unwrap().0 == 0xc0014000 && spec_plan_prefix(t, 6).unwrap().1 == m5);
    assert(t[6] == InitEntry::Range { addr: 0x00204000, size: 0x4000 });
    let m6 = m5.push(IommuMapping { dva: 0xc0014000, paddr: 0x200204000, size: 0x4000 });
    assert(spec_plan_prefix(t, 7) is Some && spec_plan_prefix(t, 7).unwrap().0 == 0xc0018000 && spec_plan_prefix(t, 7).unwrap().1 == m6);
    assert(t[7] == InitEntry::Range { addr: 0x00244000, size: 0x4000 });
    let m7 = m6.push(IommuMapping { dva: 0xc0018000, paddr: 0x200244000, size: 0x4000 });
    assert(spec_plan_prefix(t, 8) is Some && spec_plan_prefix(t, 8).unwrap().0 == 0xc001c000 && spec_plan_prefix(t, 8).unwrap().1 == m7);
    assert(t[8] == InitEntry::Range { addr: 0x00284000, size: 0x4000 });
    let m8 = m7.push(IommuMapping { dva: 0xc001c000, paddr: 0x200284000, size: 0x4000 });
    assert(spec_plan_prefix(t, 9) is Some && spec_plan_prefix(t, 9).unwrap().0 == 0xc0020000 && spec_plan_prefix(t, 9).unwrap().1 == m8);
    assert(t[9] == InitEntry::Range { addr: 0x002c4000, size: 0x4000 });
    let m9 = m8.push(IommuMapping { dva: 0xc0020000, paddr: 0x2002c4000, size: 0x4000 });
    assert(spec_plan_prefix(t, 10) is Some && spec_plan_prefix(t, 10).unwrap().0 == 0xc0024000 && spec_plan_prefix(t, 10).unwrap().1 == m9);
    assert(t[10] == InitEntry::Range { addr: 0x00000000, size: 0x0000 });
    assert(spec_plan_prefix(t, 11) is Some && spec_plan_prefix(t, 11).unwrap().0 == 0xc0024000 && spec_plan_prefix(t, 11).unwrap().1 == m9);
    assert(t[11] == InitEntry::Range { addr: 0x00000000, size: 0x0000 });
    assert(spec_plan_prefix(t, 12) is Some && spec_plan_prefix(t, 12).unwrap().0 == 0xc0024000 && spec_plan_prefix(t, 12).unwrap().1 == m9);
    assert(t[12] == InitEntry::Range { addr: 0x00000000, size: 0x0000 });
    assert(spec_plan_prefix(t, 13) is Some && spec_plan_prefix(t, 13).unwrap().0 == 0xc0024000 && spec_plan_prefix(t, 13).unwrap().1 == m9);
    assert(t[13] == InitEntry::Range { addr: 0x00000000, size: 0x0000 });
    assert(spec_plan_prefix(t, 14) is Some && spec_plan_prefix(t, 14).unwrap().0 == 0xc0024000 && spec_plan_prefix(t, 14).unwrap().1 == m9);
    assert(t[14] == InitEntry::Range { addr: 0x00000000, size: 0x0000 });
    assert(spec_plan_prefix(t, 15) is Some && spec_plan_prefix(t, 15).unwrap().0 == 0xc0024000 && spec_plan_prefix(t, 15).unwrap().1 == m9);
    assert(t[15] == InitEntry::Dva { addr: 0xc1000000 });
    assert(spec_plan_prefix(t, 16) is Some && spec_plan_prefix(t, 16).unwrap().0 == 0xc1000000 && spec_plan_prefix(t, 16).unwrap().1 == m9);
    assert(t[16] == InitEntry::Range { addr: 0x04d10000, size: 0x4000 });
    let m10 = m9.push(IommuMapping { dva: 0xc1000000, paddr: 0x204d10000, size: 0x4000 });
    assert(spec_plan_prefix(t, 17) is Some && spec_plan_prefix(t, 17).unwrap().0 == 0xc1004000 && spec_plan_prefix(t, 17).unwrap().1 == m10);
    assert(t[17] == InitEntry::Dva { addr: 0xc2000000 });
    assert(spec_plan_prefix(t, 18) is Some && spec_plan_prefix(t, 18).unwrap().0 == 0xc2000000 && spec_plan_prefix(t, 18).unwrap().1 == m10);
    assert(t[18] == InitEntry::Range { addr: 0x10058000, size: 0x4000 });
    let m11 = m10.push(IommuMapping { dva: 0xc2000000, paddr: 0x210058000, size: 0x4000 });
    assert(spec_plan_prefix(t, 19) is Some && spec_plan_prefix(t, 19).unwrap().0 == 0xc2004000 && spec_plan_prefix(t, 19).unwrap().1 == m11);
    assert(t[19] == InitEntry::Range { addr: 0x10158000, size: 0x4000 });
    let m12 = m11.push(IommuMapping { dva: 0xc2004000, paddr: 0x210158000, size: 0x4000 });
    assert(spec_plan_prefix(t, 20) is Some && spec_plan_prefix(t, 20).unwrap().0 == 0xc2008000 && spec_plan_prefix(t, 20).unwrap().1 == m12);
    assert(t[20] == InitEntry::Range { addr: 0x10258000, size: 0x4000 });
    let m13 = m12.push(IommuMapping { dva: 0xc2008000, paddr: 0x210258000, size: 0x4000 });
    assert(spec_plan_prefix(t, 21) is Some && spec_plan_prefix(t, 21).unwrap().0 == 0xc200c000 && spec_plan_prefix(t, 21).unwrap().1 == m13);
    assert(t[21] == InitEntry::Range { addr: 0x10358000, size: 0x4000 });
    let m14 = m13.push(IommuMapping { dva: 0xc200c000, paddr: 0x210358000, size: 0x4000 });
    assert(spec_plan_prefix(t, 22) is Some && spec_plan_prefix(t, 22).unwrap().0 == 0xc2010000 && spec_plan_prefix(t, 22).unwrap().1 == m14);
    assert(t[22] == InitEntry::Range { addr: 0x10e20000, size: 0x60000 });
    let m15 = m14.push(IommuMapping { dva: 0xc2010000, paddr: 0x210e20000, size: 0x60000 });
    assert(spec_plan_prefix(t, 23) is Some && spec_plan_prefix(t, 23).unwrap().0 == 0xc2070000 && spec_plan_prefix(t, 23).unwrap().1 == m15);
    assert(t[23] == InitEntry::Range { addr: 0x10e48000, size: 0x4000 });
    let m16 = m15.push(IommuMapping { dva: 0xc2070000, paddr: 0x210e48000, size: 0x4000 });
    assert(spec_plan_prefix(t, 24) is Some && spec_plan_prefix(t, 24).unwrap().0 == 0xc2074000 && spec_plan_prefix(t, 24).unwrap().1 == m16);
    assert(t[24] == InitEntry::Dva { addr: 0xc3000000 });
    assert(spec_plan_prefix(t, 25) is Some && spec_plan_prefix(t, 25).unwrap().0 == 0xc3000000 && spec_plan_prefix(t, 25).unwrap().1 == m16);
    assert(t[25] == InitEntry::Range { addr: 0x11058000, size: 0x4000 });
    let m17 = m16.push(IommuMapping { dva: 0xc3000000, paddr: 0x211058000, size: 0x4000 });
    assert(spec_plan_prefix(t, 26) is Some && spec_plan_prefix(t, 26).unwrap().0 == 0xc3004000 && spec_plan_prefix(t, 26).unwrap().1 == m17);
    assert(t[26] == InitEntry::Range { addr: 0x11158000, size: 0x4000 });
    let m18 = m17.push(IommuMapping { dva: 0xc3004000, paddr: 0x211158000, size: 0x4000 });
    assert(spec_plan_prefix(t, 27) is Some && spec_plan_prefix(t, 27).unwrap().0 == 0xc3008000 && spec_plan_prefix(t, 27).unwrap().1 == m18);
    assert(t[27] == InitEntry::Range { addr: 0x11258000, size: 0x4000 });
    let m19 = m18.push(IommuMapping { dva: 0xc3008000, paddr: 0x211258000, size: 0x4000 });
    assert(spec_plan_prefix(t, 28) is Some && spec_plan_prefix(t, 28).unwrap().0 == 0xc300c000 && spec_plan_prefix(t, 28).unwrap().1 == m19);
    assert(t[28] == InitEntry::Range { addr: 0x11358000, size: 0x4000 });
    let m20 = m19.push(IommuMapping { dva: 0xc300c000, paddr: 0x211358000, size: 0x4000 });
    assert(spec_plan_prefix(t, 29) is Some && spec_plan_prefix(t, 29).unwrap().0 == 0xc3010000 && spec_plan_prefix(t, 29).unwrap().1 == m20);
    assert(t[29] == InitEntry::Range { addr: 0x11e20000, size: 0x60000 });
    let m21 = m20.push(IommuMapping { dva: 0xc3010000, paddr: 0x211e20000, size: 0x60000 });
    assert(spec_plan_prefix(t, 30) is Some && spec_plan_prefix(t, 30).unwrap().0 == 0xc3070000 && spec_plan_prefix(t, 30).unwrap().1 == m21);
    assert(t[30] == InitEntry::Range { addr: 0x11e48000, size: 0x4000 });
    let m22 = m21.push(IommuMapping { dva: 0xc3070000, paddr: 0x211e48000, size: 0x4000 });
    assert(spec_plan_prefix(t, 31) is Some && spec_plan_prefix(t, 31).unwrap().0 == 0xc3074000 && spec_plan_prefix(t, 31).unwrap().1 == m22);
    assert(t[31] == InitEntry::Dva { addr: 0xc4000000 });
    assert(spec_plan_prefix(t, 32) is Some && spec_plan_prefix(t, 32).unwrap().0 == 0xc4000000 && spec_plan_prefix(t, 32).unwrap().1 == m22);
    assert(t[32] == InitEntry::Range { addr: 0x3d100000, size: 0x14000 });
    let m23 = m22.push(IommuMapping { dva: 0xc4000000, paddr: 0x23d100000, size: 0x14000 });
    assert(spec_plan_prefix(t, 33) is Some && spec_plan_prefix(t, 33).unwrap().0 == 0xc4014000 && spec_plan_prefix(t, 33).unwrap().1 == m23);
    assert(t[33] == InitEntry::Range { addr: 0x3d128000, size: 0x30000 });
    let m24 = m23.push(IommuMapping { dva: 0xc4014000, paddr: 0x23d128000, size: 0x30000 });
    assert(spec_plan_prefix(t, 34) is Some && spec_plan_prefix(t, 34).unwrap().0 == 0xc4044000 && spec_plan_prefix(t, 34).unwrap().1 == m24);
    assert(t[34] == InitEntry::Range { addr: 0x3d0d8000, size: 0x4000 });
    let m25 = m24.push(IommuMapping { dva: 0xc4044000, paddr: 0x23d0d8000, size: 0x4000 });
    assert(spec_plan_prefix(t, 35) is Some && spec_plan_prefix(t, 35).unwrap().0 == 0xc4048000 && spec_plan_prefix(t, 35).unwrap().1 == m25);
    assert(t[35] == InitEntry::Dva { addr: 0xc5000000 });
    assert(spec_plan_prefix(t, 36) is Some && spec_plan_prefix(t, 36).unwrap().0 == 0xc5000000 && spec_plan_prefix(t, 36).unwrap().1 == m25);
    assert(t[36] == InitEntry::Range { addr: 0x6b90c000, size: 0x4000 });
    let m26 = m25.push(IommuMapping { dva: 0xc5000000, paddr: 0x26b90c000, size: 0x4000 });
    assert(spec_plan_prefix(t, 37) is Some && spec_plan_prefix(t, 37).unwrap().0 == 0xc5004000 && spec_plan_prefix(t, 37).unwrap().1 == m26);
    assert(t[37] == InitEntry::Range { addr: 0x00000000, size: 0x0000 });
    assert(spec_plan_prefix(t, 38) is Some && spec_plan_prefix(t, 38).unwrap().0 == 0xc5004000 && spec_plan_prefix(t, 38).unwrap().1 == m26);
    assert(t[38] == InitEntry::Dva { addr: 0xc0024000 });
    assert(spec_plan_prefix(t, 39) is Some && spec_plan_prefix(t, 39).unwrap().0 == 0xc0024000 && spec_plan_prefix(t, 39).unwrap().1 == m26);
    assert(t[39] == InitEntry::Range { addr: 0x00170000, size: 0x4000 });
    let m27 = m26.push(IommuMapping { dva: 0xc0024000, paddr: 0x200170000, size: 0x4000 });
    assert(spec_plan_prefix(t, 40) is Some && spec_plan_prefix(t, 40).unwrap().0 == 0xc0028000 && spec_plan_prefix(t, 40).unwrap().1 == m27);
    assert(t[40] == InitEntry::Range { addr: 0x00000000, size: 0x0000 });
    assert(spec_plan_prefix(t, 41) is Some && spec_plan_prefix(t, 41).unwrap().0 == 0xc0028000 && spec_plan_prefix(t, 41).unwrap().1 == m27);
    assert(t[41] == InitEntry::Dva { addr: 0xc6000000 });
    assert(spec_plan_prefix(t, 42) is Some && spec_plan_prefix(t, 42).unwrap().0 == 0xc6000000 && spec_plan_prefix(t, 42).unwrap().1 == m27);
    assert(t[42] == InitEntry::Range { addr: 0x3c100000, size: 0x4000 });
    let m28 = m27.push(IommuMapping { dva: 0xc6000000, paddr: 0x23c100000, size: 0x4000 });
    assert(spec_plan_prefix(t, 43) is Some && spec_plan_prefix(t, 43).unwrap().0 == 0xc6004000 && spec_plan_prefix(t, 43).unwrap().1 == m28);
    assert(t[43] == InitEntry::Dva { addr: 0xc1004000 });
    assert(spec_plan_prefix(t, 44) is Some && spec_plan_prefix(t, 44).unwrap().0 == 0xc1004000 && spec_plan_prefix(t, 44).unwrap().1 == m28);
    assert(t[44] == InitEntry::Range { addr: 0x04e20000, size: 0x4000 });
    let m29 = m28.push(IommuMapping { dva: 0xc1004000, paddr: 0x204e20000, size: 0x4000 });
    assert(spec_plan_prefix(t, 45) is Some && spec_plan_prefix(t, 45).unwrap().0 == 0xc1008000 && spec_plan_prefix(t, 45).unwrap().1 == m29);
    assert(t[45] == InitEntry::Dva { addr: 0xc3074000 });
    assert(spec_plan_prefix(t, 46) is Some && spec_plan_prefix(t, 46).unwrap().0 == 0xc3074000 && spec_plan_prefix(t, 46).unwrap().1 == m29);
    assert(t[46] == InitEntry::Range { addr: 0x11ee0000, size: 0x8000 });
    let m30 = m29.push(IommuMapping { dva: 0xc3074000, paddr: 0x211ee0000, size: 0x8000 });
    assert(spec_plan_prefix(t, 47) is Some && spec_plan_prefix(t, 47).unwrap().0 == 0xc307c000 && spec_plan_prefix(t, 47).unwrap().1 == m30);
    assert(t[47] == InitEntry::Range { addr: 0x11ee8000, size: 0x8000 });
    let m31 = m30.push(IommuMapping { dva: 0xc307c000, paddr: 0x211ee8000, size: 0x8000 });
    assert(spec_plan_prefix(t, 48) is Some && spec_plan_prefix(t, 48).unwrap().0 == 0xc3084000 && spec_plan_prefix(t, 48).unwrap().1 == m31);
    assert(t[48] == InitEntry::Range { addr: 0x11ef0000, size: 0x8000 });
    let m32 = m31.push(IommuMapping { dva: 0xc3084000, paddr: 0x211ef0000, size: 0x8000 });
    assert(spec_plan_prefix(t, 49) is Some && spec_plan_prefix(t, 49).unwrap().0 == 0xc308c000 && spec_plan_prefix(t, 49).unwrap().1 == m32);
    assert(t[49] == InitEntry::Dva { addr: 0xc2074000 });
    assert(spec_plan_prefix(t, 50) is Some && spec_plan_prefix(t, 50).unwrap().0 == 0xc2074000 && spec_plan_prefix(t, 50).unwrap().1 == m32);
    assert(t[50] == InitEntry::Range { addr: 0x10ee0000, size: 0x8000 });
    let m33 = m32.push(IommuMapping { dva: 0xc2074000, paddr: 0x210ee0000, size: 0x8000 });
    assert(spec_plan_prefix(t, 51) is Some && spec_plan_prefix(t, 51).unwrap().0 == 0xc207c000 && spec_plan_prefix(t, 51).unwrap().1 == m33);
    assert(t[51] == InitEntry::Dva { addr: 0xc1008000 });
    assert(spec_plan_prefix(t, 52) is Some && spec_plan_prefix(t, 52).unwrap().0 == 0xc1008000 && spec_plan_prefix(t, 52).unwrap().1 == m33);
    assert(t[52] == InitEntry::Range { addr: 0x04d80000, size: 0x8000 });
    let m34 = m33.push(IommuMapping { dva: 0xc1008000, paddr: 0x204d80000, size: 0x8000 });
    assert(spec_plan_prefix(t, 53) is Some && spec_plan_prefix(t, 53).unwrap().0 == 0xc1010000 && spec_plan_prefix(t, 53).unwrap().1 == m34);
    assert(m34 == spec_init_mappings());
}

/// Two mappings whose device-virtual ranges do not overlap.
pub open spec fn mappings_disjoint(a: IommuMapping, b: IommuMapping) -> bool {
    a.dva + a.size <= b.dva || b.dva + b.size <= a.dva
}

/// Mapping `n` of `s` is disjoint from each of the first `k` mappings.
spec fn disjoint_from_first(s: Seq<IommuMapping>, k: nat, n: int) -> bool
    decreases k,
{
    k == 0 || (mappings_disjoint(s[k - 1], s[n]) && disjoint_from_first(s, (k - 1) as nat, n))
}

/// The first `n` mappings of `s` are pairwise disjoint.
spec fn first_pairwise_disjoint(s: Seq<IommuMapping>, n: nat) -> bool
    decreases n,
{
    n == 0 || (first_pairwise_disjoint(s, (n - 1) as nat) && disjoint_from_first(s, (n - 1) as nat, n - 1))
}

/// The first `n` mappings of `s` lie in `[lo, hi)`.
spec fn first_within(s: Seq<IommuMapping>, n: nat, lo: int, hi: int) -> bool
    decreases n,
{
    n == 0 || (first_within(s, (n - 1) as nat, lo, hi) && lo <= s[n - 1].dva && s[n - 1].dva + s[n - 1].size <= hi)
}

proof fn lemma_disjoint_from_first(s: Seq<IommuMapping>, k: nat, n: int)
    requires
        disjoint_from_first(s, k, n),
    ensures
        forall|j: int| 0 <= j < k ==> mappings_disjoint(#[trigger] s[j], s[n]),
    decreases k,
{
    if k > 0 {
        lemma_disjoint_from_first(s, (k - 1) as nat, n);
    }
}

proof fn lemma_first_pairwise_disjoint(s: Seq<IommuMapping>, n: nat)
    requires
        first_pairwise_disjoint(s, n),
    ensures
        forall|j: int, k: int| 0 <= j < k < n ==> mappings_disjoint(#[trigger] s[j], #[trigger] s[k]),
    decreases n,
{
    if n > 0 {
        lemma_first_pairwise_disjoint(s, (n - 1) as nat);
        lemma_disjoint_from_first(s, (n - 1) as nat, n - 1);
    }
}

proof fn lemma_first_within(s: Seq<IommuMapping>, n: nat, lo: int, hi: int)
    requires
        first_within(s, n, lo, hi),
    ensures
        forall|j: int| 0 <= j < n ==> lo <= (#[trigger] s[j]).dva && s[j].dva + s[j].size <= hi,
    decreases n,
{
    if n > 0 {
        lemma_first_within(s, (n - 1) as nat, lo, hi);
    }
}

/// No two mappings of the t8103 table overlap, and all of them lie in the
/// device-virtual window `[0xc000_0000, 0xc600_4000)`.
pub proof fn lemma_init_plan_disjoint()
    ensures
        spec_plan(spec_init_table()) is Some,
        ({
            let m = spec_plan(spec_init_table()).unwrap().1;
            &&& forall|j: int, k: int| 0 <= j < k < m.len() ==> mappings_disjoint(#[trigger] m[j], #[trigger] m[k])
            &&& forall|j: int| 0 <= j < m.len() ==> 0xc000_0000 <= (#[trigger] m[j]).dva && m[j].dva + m[j].size <= 0xc600_4000
        }),
{
    lemma_init_plan_mappings();
    let m = spec_init_mappings();
    reveal_with_fuel(first_within, 35);
    assert(first_within(m, 34, 0xc000_0000, 0xc600_4000));
    lemma_first_within(m, 34, 0xc000_0000, 0xc600_4000);
    reveal_with_fuel(first_pairwise_disjoint, 35);
    reveal_with_fuel(disjoint_from_first, 35);
    assert(first_pairwise_disjoint(m, 34));
    lemma_first_pairwise_disjoint(m, 34);
}

/// The records of the t8103 PMP's maps table, each as the device-virtual
/// address and size it holds; empty ranges hold `(0, 0)`.
pub open spec fn spec_init_records() -> Seq<(u64, u64)> {
    seq![
        (0xc0000000, 0x4000),
        (0xc0004000, 0x4000),
        (0xc0008000, 0x4000),
        (0xc000c000, 0x4000),
        (0xc0010000, 0x4000),
        (0xc0014000, 0x4000),
        (0xc0018000, 0x4000),
        (0xc001c000, 0x4000),
        (0xc0020000, 0x4000),
        (0x0, 0x0),
        (0x0, 0x0),
        (0x0, 0x0),
        (0x0, 0x0),
        (0x0, 0x0),
        (0xc1000000, 0x4000),
        (0xc2000000, 0x4000),
        (0xc2004000, 0x4000),
        (0xc2008000, 0x4000),
        (0xc200c000, 0x4000),
        (0xc2010000, 0x60000),
        (0xc2070000, 0x4000),
        (0xc3000000, 0x4000),
        (0xc3004000, 0x4000),
        (0xc3008000, 0x4000),
        (0xc300c000, 0x4000),
        (0xc3010000, 0x60000),
        (0xc3070000, 0x4000),
        (0xc4000000, 0x14000),
        (0xc4014000, 0x30000),
        (0xc4044000, 0x4000),
        (0xc5000000, 0x4000),
        (0x0, 0x0),
        (0xc0024000, 0x4000),
        (0x0, 0x0),
        (0xc6000000, 0x4000),
        (0xc1004000, 0x4000),
        (0xc3074000, 0x8000),
        (0xc307c000, 0x8000),
        (0xc3084000, 0x8000),
        (0xc2074000, 0x8000),
        (0xc1008000, 0x8000),
    ]
}

/// A record of sixteen zero bytes reads back as `(0, 0)`.
proof fn lemma_zero_record_fields(maps: Seq<u8>, i: int)
    requires
        0 <= i,
        16 * i + 16 <= maps.len(),
        maps.subrange(16 * i, 16 * i + 16) == Seq::new(16, |b: int| 0u8),
    ensures
        record_fields(maps, i) == (0u64, 0u64),
{
    lemma_auto_spec_u64_to_from_le_bytes();
    spec_u64_to_le_bytes_to_open(0);
    assert(0u64 & 0xff == 0 && (0u64 >> 8u64) & 0xff == 0 && (0u64 >> 16u64) & 0xff == 0
        && (0u64 >> 24u64) & 0xff == 0 && (0u64 >> 32u64) & 0xff == 0 && (0u64 >> 40u64) & 0xff == 0
        && (0u64 >> 48u64) & 0xff == 0 && (0u64 >> 56u64) & 0xff == 0) by (bit_vector);
    let zeros = Seq::new(8, |b: int| 0u8);
    assert(spec_u64_to_le_bytes(0) =~= zeros);
    assert(maps.subrange(16 * i, 16 * i + 8) =~= zeros) by {
        assert forall|b: int| 0 <= b < 8 implies #[trigger] maps.subrange(16 * i, 16 * i + 8)[b] == 0u8 by {
            assert(maps.subrange(16 * i, 16 * i + 16)[b] == 0u8);
        }
    }
    assert(maps.subrange(16 * i + 8, 16 * i + 16) =~= zeros) by {
        assert forall|b: int| 0 <= b < 8 implies #[trigger] maps.subrange(16 * i + 8, 16 * i + 16)[b] == 0u8 by {
            assert(maps.subrange(16 * i, 16 * i + 16)[b + 8] == 0u8);
        }
    }
}

/// The first `n` records of `maps` read back as the first `n` of `expected`.
spec fn first_records_match(maps: Seq<u8>, expected: Seq<(u64, u64)>, n: nat) -> bool
    decreases n,
{
    n == 0 || (first_records_match(maps, expected, (n - 1) as nat) && record_fields(maps, n - 1) == expected[n - 1])
}

proof fn lemma_first_records_match(maps: Seq<u8>, expected: Seq<(u64, u64)>, n: nat)
    requires
        first_records_match(maps, expected, n),
    ensures
        forall|i: int| 0 <= i < n ==> record_fields(maps, i) == #[trigger] expected[i],
    decreases n,
{
    if n > 0 {
        lemma_first_records_match(maps, expected, (n - 1) as nat);
    }
}

/// The maps table of the t8103 PMP: forty-one records, one per `Range`
/// entry, reading back as `spec_init_records()`, in table order.
pub proof fn lemma_init_plan_records()
    ensures
        spec_plan(spec_init_table()) is Some,
        spec_plan(spec_init_table()).unwrap().2.len() == 16 * spec_init_records().len(),
        forall|i: int| 0 <= i < spec_init_records().len()
            ==> record_fields(spec_plan(spec_init_table()).unwrap().2, i) == #[trigger] spec_init_records()[i],
{
    let t = spec_init_table();
    lemma_init_plan_mappings();
    lemma_plan_shape(t);
    lemma_plan_records(t);
    let maps = spec_plan(t).unwrap().2;
    let m = spec_init_mappings();
    let expected = spec_init_records();
    assert(range_count(t, 0) == 0 && nonempty_ranges(t, 0).len() == 0);
    assert(t[0] == InitEntry::Dva { addr: 0xc0000000 });
    assert(range_count(t, 1) == 0 && nonempty_ranges(t, 1).len() == 0);
    assert(t[1] == InitEntry::Range { addr: 0x00024000, size: 0x4000 });
    assert(range_count(t, 2) == 1 && nonempty_ranges(t, 2).len() == 1);
    assert(t[2] == InitEntry::Range { addr: 0x00064000, size: 0x4000 });
    assert(range_count(t, 3) == 2 && nonempty_ranges(t, 3).len() == 2);
    assert(t[3] == InitEntry::Range { addr: 0x000a4000, size: 0x4000 });
    assert(range_count(t, 4) == 3 && nonempty_ranges(t, 4).len() == 3);
    assert(t[4] == InitEntry::Range { addr: 0x000e4000, size: 0x4000 });
    assert(range_count(t, 5) == 4 && nonempty_ranges(t, 5).len() == 4);
    assert(t[5] == InitEntry::Range { addr: 0x00158000, size: 0x4000 });
    assert(range_count(t, 6) == 5 && nonempty_ranges(t, 6).len() == 5);
    assert(t[6] == InitEntry::Range { addr: 0x00204000, size: 0x4000 });
    assert(range_count(t, 7) == 6 && nonempty_ranges(t, 7).len() == 6);
    assert(t[7] == InitEntry::Range { addr: 0x00244000, size: 0x4000 });
    assert(range_count(t, 8) == 7 && nonempty_ranges(t, 8).len() == 7);
    assert(t[8] == InitEntry::Range { addr: 0x00284000, size: 0x4000 });
    assert(range_count(t, 9) == 8 && nonempty_ranges(t, 9).len() == 8);
    assert(t[9] == InitEntry::Range { addr: 0x002c4000, size: 0x4000 });
    assert(range_count(t, 10) == 9 && nonempty_ranges(t, 10).len() == 9);
    assert(t[10] == InitEntry::Range { addr: 0x00000000, size: 0x0000 });
    assert(range_count(t, 11) == 10 && nonempty_ranges(t, 11).len() == 9);
    assert(t[11] == InitEntry::Range { addr: 0x00000000, size: 0x0000 });
    assert(range_count(t, 12) == 11 && nonempty_ranges(t, 12).len() == 9);
    assert(t[12] == InitEntry::Range { addr: 0x00000000, size: 0x0000 });
    assert(range_count(t, 13) == 12 && nonempty_ranges(t, 13).len() == 9);
    assert(t[13] == InitEntry::Range { addr: 0x00000000, size: 0x0000 });
    assert(range_count(t, 14) == 13 && nonempty_ranges(t, 14).len() == 9);
    assert(t[14] == InitEntry::Range { addr: 0x00000000, size: 0x0000 });
    assert(range_count(t, 15) == 14 && nonempty_ranges(t, 15).len() == 9);
    assert(t[15] == InitEntry::Dva { addr: 0xc1000000 });
    assert(range_count(t, 16) == 14 && nonempty_ranges(t, 16).len() == 9);
    assert(t[16] == InitEntry::Range { addr: 0x04d10000, size: 0x4000 });
    assert(range_count(t, 17) == 15 && nonempty_ranges(t, 17).len() == 10);
    assert(t[17] == InitEntry::Dva { addr: 0xc2000000 });
    assert(range_count(t, 18) == 15 && nonempty_ranges(t, 18).len() == 10);
    assert(t[18] == InitEntry::Range { addr: 0x10058000, size: 0x4000 });
    assert(range_count(t, 19) == 16 && nonempty_ranges(t, 19).len() == 11);
    assert(t[19] == InitEntry::Range { addr: 0x10158000, size: 0x4000 });
    assert(range_count(t, 20) == 17 && nonempty_ranges(t, 20).len() == 12);
    assert(t[20] == InitEntry::Range { addr: 0x10258000, size: 0x4000 });
    assert(range_count(t, 21) == 18 && nonempty_ranges(t, 21).len() == 13);
    assert(t[21] == InitEntry::Range { addr: 0x10358000, size: 0x4000 });
    assert(range_count(t, 22) == 19 && nonempty_ranges(t, 22).len() == 14);
    assert(t[22] == InitEntry::Range { addr: 0x10e20000, size: 0x60000 });
    assert(range_count(t, 23) == 20 && nonempty_ranges(t, 23).len() == 15);
    assert(t[23] == InitEntry::Range { addr: 0x10e48000, size: 0x4000 });
    assert(range_count(t, 24) == 21 && nonempty_ranges(t, 24).len() == 16);
    assert(t[24] == InitEntry::Dva { addr: 0xc3000000 });
    assert(range_count(t, 25) == 21 && nonempty_ranges(t, 25).len() == 16);
    assert(t[25] == InitEntry::Range { addr: 0x11058000, size: 0x4000 });
    assert(range_count(t, 26) == 22 && nonempty_ranges(t, 26).len() == 17);
    assert(t[26] == InitEntry::Range { addr: 0x11158000, size: 0x4000 });
    assert(range_count(t, 27) == 23 && nonempty_ranges(t, 27).len() == 18);
    assert(t[27] == InitEntry::Range { addr: 0x11258000, size: 0x4000 });
    assert(range_count(t, 28) == 24 && nonempty_ranges(t, 28).len() == 19);
    assert(t[28] == InitEntry::Range { addr: 0x11358000, size: 0x4000 });
    assert(range_count(t, 29) == 25 && nonempty_ranges(t, 29).len() == 20);
    assert(t[29] == InitEntry::Range { addr: 0x11e20000, size: 0x60000 });
    assert(range_count(t, 30) == 26 && nonempty_ranges(t, 30).len() == 21);
    assert(t[30] == InitEntry::Range { addr: 0x11e48000, size: 0x4000 });
    assert(range_count(t, 31) == 27 && nonempty_ranges(t, 31).len() == 22);
    assert(t[31] == InitEntry::Dva { addr: 0xc4000000 });
    assert(range_count(t, 32) == 27 && nonempty_ranges(t, 32).len() == 22);
    assert(t[32] == InitEntry::Range { addr: 0x3d100000, size: 0x14000 });
    assert(range_count(t, 33) == 28 && nonempty_ranges(t, 33).len() == 23);
    assert(t[33] == InitEntry::Range { addr: 0x3d128000, size: 0x30000 });
    assert(range_count(t, 34) == 29 && nonempty_ranges(t, 34).len() == 24);
    assert(t[34] == InitEntry::Range { addr: 0x3d0d8000, size: 0x4000 });
    assert(range_count(t, 35) == 30 && nonempty_ranges(t, 35).len() == 25);
    assert(t[35] == InitEntry::Dva { addr: 0xc5000000 });
    assert(range_count(t, 36) == 30 && nonempty_ranges(t, 36).len() == 25);
    assert(t[36] == InitEntry::Range { addr: 0x6b90c000, size: 0x4000 });
    assert(range_count(t, 37) == 31 && nonempty_ranges(t, 37).len() == 26);
    assert(t[37] == InitEntry::Range { addr: 0x00000000, size: 0x0000 });
    assert(range_count(t, 38) == 32 && nonempty_ranges(t, 38).len() == 26);
    assert(t[38] == InitEntry::Dva { addr: 0xc0024000 });
    assert(range_count(t, 39) == 32 && nonempty_ranges(t, 39).len() == 26);
    assert(t[39] == InitEntry::Range { addr: 0x00170000, size: 0x4000 });
    assert(range_count(t, 40) == 33 && nonempty_ranges(t, 40).len() == 27);
    assert(t[40] == InitEntry::Range { addr: 0x00000000, size: 0x0000 });
    assert(range_count(t, 41) == 34 && nonempty_ranges(t, 41).len() == 27);
    assert(t[41] == InitEntry::Dva { addr: 0xc6000000 });
    assert(range_count(t, 42) == 34 && nonempty_ranges(t, 42).len() == 27);
    assert(t[42] == InitEntry::Range { addr: 0x3c100000, size: 0x4000 });
    assert(range_count(t, 43) == 35 && nonempty_ranges(t, 43).len() == 28);
    assert(t[43] == InitEntry::Dva { addr: 0xc1004000 });
    assert(range_count(t, 44) == 35 && nonempty_ranges(t, 44).len() == 28);
    assert(t[44] == InitEntry::Range { addr: 0x04e20000, size: 0x4000 });
    assert(range_count(t, 45) == 36 && nonempty_ranges(t, 45).len() == 29);
    assert(t[45] == InitEntry::Dva { addr: 0xc3074000 });
    assert(range_count(t, 46) == 36 && nonempty_ranges(t, 46).len() == 29);
    assert(t[46] == InitEntry::Range { addr: 0x11ee0000, size: 0x8000 });
    assert(range_count(t, 47) == 37 && nonempty_ranges(t, 47).len() == 30);
    assert(t[47] == InitEntry::Range { addr: 0x11ee8000, size: 0x8000 });
    assert(range_count(t, 48) == 38 && nonempty_ranges(t, 48).len() == 31);
    assert(t[48] == InitEntry::Range { addr: 0x11ef0000, size: 0x8000 });
    assert(range_count(t, 49) == 39 && nonempty_ranges(t, 49).len() == 32);
    assert(t[49] == InitEntry::Dva { addr: 0xc2074000 });
    assert(range_count(t, 50) == 39 && nonempty_ranges(t, 50).len() == 32);
    assert(t[50] == InitEntry::Range { addr: 0x10ee0000, size: 0x8000 });
    assert(range_count(t, 51) == 40 && nonempty_ranges(t, 51).len() == 33);
    assert(t[51] == InitEntry::Dva { addr: 0xc1008000 });
    assert(range_count(t, 52) == 40 && nonempty_ranges(t, 52).len() == 33);
    assert(t[52] == InitEntry::Range { addr: 0x04d80000, size: 0x8000 });
    assert(range_count(t, 53) == 41 && nonempty_ranges(t, 53).len() == 34);
    assert(match t[1] { InitEntry::Range { .. } => true, _ => true });
    assert(record_fields(maps, 0) == (m[0].dva, 0x4000u64));
    assert(record_fields(maps, 0) == expected[0]);
    assert(match t[2] { InitEntry::Range { .. } => true, _ => true });
    assert(record_fields(maps, 1) == (m[1].dva, 0x4000u64));
    assert(record_fields(maps, 1) == expected[1]);
    assert(match t[3] { InitEntry::Range { .. } => true, _ => true });
    assert(record_fields(maps, 2) == (m[2].dva, 0x4000u64));
    assert(record_fields(maps, 2) == expected[2]);
    assert(match t[4] { InitEntry::Range { .. } => true, _ => true });
    assert(record_fields(maps, 3) == (m[3].dva, 0x4000u64));
    assert(record_fields(maps, 3) == expected[3]);
    assert(match t[5] { InitEntry::Range { .. } => true, _ => true });
    assert(record_fields(maps, 4) == (m[4].dva, 0x4000u64));
    assert(record_fields(maps, 4) == expected[4]);
    assert(match t[6] { InitEntry::Range { .. } => true, _ => true });
    assert(record_fields(maps, 5) == (m[5].dva, 0x4000u64));
    assert(record_fields(maps, 5) == expected[5]);
    assert(match t[7] { InitEntry::Range { .. } => true, _ => true });
    assert(record_fields(maps, 6) == (m[6].dva, 0x4000u64));
    assert(record_fields(maps, 6) == expected[6]);
    assert(match t[8] { InitEntry::Range { .. } => true, _ => true });
    assert(record_fields(maps, 7) == (m[7].dva, 0x4000u64));
    assert(record_fields(maps, 7) == expected[7]);
    assert(match t[9] { InitEntry::Range { .. } => true, _ => true });
    assert(record_fields(maps, 8) == (m[8].dva, 0x4000u64));
    assert(record_fields(maps, 8) == expected[8]);
    assert(match t[10] { InitEntry::Range { .. } => true, _ => true });
    lemma_zero_record_fields(maps, 9);
    assert(record_fields(maps, 9) == expected[9]);
    assert(match t[11] { InitEntry::Range { .. } => true, _ => true });
    lemma_zero_record_fields(maps, 10);
    assert(record_fields(maps, 10) == expected[10]);
    assert(match t[12] { InitEntry::Range { .. } => true, _ => true });
    lemma_zero_record_fields(maps, 11);
    assert(record_fields(maps, 11) == expected[11]);
    assert(match t[13] { InitEntry::Range { .. } => true, _ => true });
    lemma_zero_record_fields(maps, 12);
    assert(record_fields(maps, 12) == expected[12]);
    assert(match t[14] { InitEntry::Range { .. } => true, _ => true });
    lemma_zero_record_fields(maps, 13);
    assert(record_fields(maps, 13) == expected[13]);
    assert(match t[16] { InitEntry::Range { .. } => true, _ => true });
    assert(record_fields(maps, 14) == (m[9].dva, 0x4000u64));
    assert(record_fields(maps, 14) == expected[14]);
    assert(match t[18] { InitEntry::Range { .. } => true, _ => true });
    assert(record_fields(maps, 15) == (m[10].dva, 0x4000u64));
    assert(record_fields(maps, 15) == expected[15]);
    assert(match t[19] { InitEntry::Range { .. } => true, _ => true });
    assert(record_fields(maps, 16) == (m[11].dva, 0x4000u64));
    assert(record_fields(maps, 16) == expected[16]);
    assert(match t[20] { InitEntry::Range { .. } => true, _ => true });
    assert(record_fields(maps, 17) == (m[12].dva, 0x4000u64));
    assert(record_fields(maps, 17) == expected[17]);
    assert(match t[21] { InitEntry::Range { .. } => true, _ => true });
    assert(record_fields(maps, 18) == (m[13].dva, 0x4000u64));
    assert(record_fields(maps, 18) == expected[18]);
    assert(match t[22] { InitEntry::Range { .. } => true, _ => true });
    assert(record_fields(maps, 19) == (m[14].dva, 0x60000u64));
    assert(record_fields(maps, 19) == expected[19]);
    assert(match t[23] { InitEntry::Range { .. } => true, _ => true });
    assert(record_fields(maps, 20) == (m[15].dva, 0x4000u64));
    assert(record_fields(maps, 20) == expected[20]);
    assert(match t[25] { InitEntry::Range { .. } => true, _ => true });
    assert(record_fields(maps, 21) == (m[16].dva, 0x4000u64));
    assert(record_fields(maps, 21) == expected[21]);
    assert(match t[26] { InitEntry::Range { .. } => true, _ => true });
    assert(record_fields(maps, 22) == (m[17].dva, 0x4000u64));
    assert(record_fields(maps, 22) == expected[22]);
    assert(match t[27] { InitEntry::Range { .. } => true, _ => true });
    assert(record_fields(maps, 23) == (m[18].dva, 0x4000u64));
    assert(record_fields(maps, 23) == expected[23]);
    assert(match t[28] { InitEntry::Range { .. } => true, _ => true });
    assert(record_fields(maps, 24) == (m[19].dva, 0x4000u64));
    assert(record_fields(maps, 24) == expected[24]);
    assert(match t[29] { InitEntry::Range { .. } => true, _ => true });
    assert(record_fields(maps, 25) == (m[20].dva, 0x60000u64));
    assert(record_fields(maps, 25) == expected[25]);
    assert(match t[30] { InitEntry::Range { .. } => true, _ => true });
    assert(record_fields(maps, 26) == (m[21].dva, 0x4000u64));
    assert(record_fields(maps, 26) == expected[26]);
    assert(match t[32] { InitEntry::Range { .. } => true, _ => true });
    assert(record_fields(maps, 27) == (m[22].dva, 0x14000u64));
    assert(record_fields(maps, 27) == expected[27]);
    assert(match t[33] { InitEntry::Range { .. } => true, _ => true });
    assert(record_fields(maps, 28) == (m[23].dva, 0x30000u64));
    assert(record_fields(maps, 28) == expected[28]);
    assert(match t[34] { InitEntry::Range { .. } => true, _ => true });
    assert(record_fields(maps, 29) == (m[24].dva, 0x4000u64));
    assert(record_fields(maps, 29) == expected[29]);
    assert(match t[36] { InitEntry::Range { .. } => true, _ => true });
    assert(record_fields(maps, 30) == (m[25].dva, 0x4000u64));
    assert(record_fields(maps, 30) == expected[30]);
    assert(match t[37] { InitEntry::Range { .. } => true, _ => true });
    lemma_zero_record_fields(maps, 31);
    assert(record_fields(maps, 31) == expected[31]);
    assert(match t[39] { InitEntry::Range { .. } => true, _ => true });
    assert(record_fields(maps, 32) == (m[26].dva, 0x4000u64));
    assert(record_fields(maps, 32) == expected[32]);
    assert(match t[40] { InitEntry::Range { .. } => true, _ => true });
    lemma_zero_record_fields(maps, 33);
    assert(record_fields(maps, 33) == expected[33]);
    assert(match t[42] { InitEntry::Range { .. } => true, _ => true });
    assert(record_fields(maps, 34) == (m[27].dva, 0x4000u64));
    assert(record_fields(maps, 34) == expected[34]);
    assert(match t[44] { InitEntry::Range { .. } => true, _ => true });
    assert(record_fields(maps, 35) == (m[28].dva, 0x4000u64));
    assert(record_fields(maps, 35) == expected[35]);
    assert(match t[46] { InitEntry::Range { .. } => true, _ => true });
    assert(record_fields(maps, 36) == (m[29].dva, 0x8000u64));
    assert(record_fields(maps, 36) == expected[36]);
    assert(match t[47] { InitEntry::Range { .. } => true, _ => true });
    assert(record_fields(maps, 37) == (m[30].dva, 0x8000u64));
    assert(record_fields(maps, 37) == expected[37]);
    assert(match t[48] { InitEntry::Range { .. } => true, _ => true });
    assert(record_fields(maps, 38) == (m[31].dva, 0x8000u64));
    assert(record_fields(maps, 38) == expected[38]);
    assert(match t[50] { InitEntry::Range { .. } => true, _ => true });
    assert(record_fields(maps, 39) == (m[32].dva, 0x8000u64));
    assert(record_fields(maps, 39) == expected[39]);
    assert(match t[52] { InitEntry::Range { .. } => true, _ => true });
    assert(record_fields(maps, 40) == (m[33].dva, 0x8000u64));
    assert(record_fields(maps, 40) == expected[40]);
    reveal_with_fuel(first_records_match, 42);
    assert(first_records_match(maps, expected, 41));
    lemma_first_records_match(maps, expected, 41);
}

} // verus!
