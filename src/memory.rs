//! A snapshot of a process's address space as mapped regions, with the reads
//! that the rest of the library is built on: little-endian integers and
//! pointer chains.

use vstd::prelude::*;

verus! {

/// `256` to the power `k`.
pub open spec fn byte_power(k: nat) -> int
    decreases k,
{
    if k == 0 {
        1
    } else {
        256 * byte_power((k - 1) as nat)
    }
}

/// The little-endian value of the bytes of `s` from index `i` on.
pub open spec fn le_from(s: Seq<u8>, i: int) -> int
    decreases s.len() - i,
{
    if i < 0 || i >= s.len() {
        0
    } else {
        s[i] + 256 * le_from(s, i + 1)
    }
}

/// The little-endian value of a byte sequence.
pub open spec fn le_value(s: Seq<u8>) -> int {
    le_from(s, 0)
}

pub proof fn lemma_le_from_bound(s: Seq<u8>, i: int)
    requires
        0 <= i <= s.len(),
    ensures
        0 <= le_from(s, i) < byte_power((s.len() - i) as nat),
    decreases s.len() - i,
{
    if i < s.len() {
        lemma_le_from_bound(s, i + 1);
    }
}

pub proof fn lemma_byte_power_values()
    ensures
        byte_power(4) == 0x1_0000_0000,
        byte_power(8) == 0x1_0000_0000_0000_0000,
{
    reveal_with_fuel(byte_power, 9);
}

pub proof fn lemma_byte_power_monotone(a: nat, b: nat)
    requires
        a <= b,
    ensures
        1 <= byte_power(a) <= byte_power(b),
    decreases b,
{
    if b > 0 {
        if a < b {
            lemma_byte_power_monotone(a, (b - 1) as nat);
        } else {
            lemma_byte_power_monotone(0, (b - 1) as nat);
        }
    }
}

/// The little-endian integer held in at most eight bytes.
pub fn decode_le(bytes: &[u8]) -> (r: u64)
    requires
        bytes@.len() <= 8,
    ensures
        r as int == le_value(bytes@),
{
    proof {
        lemma_byte_power_monotone(bytes@.len() as nat, 8);
        lemma_byte_power_values();
    }
    let mut v: u64 = 0;
    let mut i: usize = bytes.len();
    while i > 0
        invariant
            i <= bytes@.len() <= 8,
            v as int == le_from(bytes@, i as int),
            byte_power(bytes@.len() as nat) <= 0x1_0000_0000_0000_0000,
        decreases i,
    {
        i = i - 1;
        proof {
            lemma_le_from_bound(bytes@, i as int);
            lemma_byte_power_monotone((bytes@.len() - i) as nat, bytes@.len() as nat);
        }
        v = v * 256 + bytes[i] as u64;
    }
    v
}

/// One mapped range of addresses and the bytes it holds.
#[derive(Clone, Debug, PartialEq, Eq)]
pub struct Region {
    pub base: u64,
    pub bytes: Vec<u8>,
}

/// The byte that `region` holds at address `a`, if `a` lies inside it.
pub open spec fn region_byte(region: Region, a: int) -> Option<u8> {
    if region.base <= a < region.base + region.bytes@.len() {
        Some(region.bytes@[a - region.base])
    } else {
        None
    }
}

/// The byte at address `a` in the first of the regions from index `k` on that maps it.
pub open spec fn byte_in(regions: Seq<Region>, k: int, a: int) -> Option<u8>
    decreases regions.len() - k,
{
    if k < 0 || k >= regions.len() {
        None
    } else {
        match region_byte(regions[k], a) {
            Some(b) => Some(b),
            None => byte_in(regions, k + 1, a),
        }
    }
}

/// The byte at address `a`: the first region that maps it decides.
pub open spec fn byte_at(regions: Seq<Region>, a: int) -> Option<u8> {
    byte_in(regions, 0, a)
}

/// Whether `width` bytes from `addr` on are all mapped, within the 64-bit address space.
pub open spec fn span_mapped(regions: Seq<Region>, addr: int, width: nat) -> bool {
    &&& 0 <= addr
    &&& addr + width <= 0x1_0000_0000_0000_0000
    &&& forall|i: int| 0 <= i < width ==> (#[trigger] byte_at(regions, addr + i)) is Some
}

/// The `width` bytes from `addr` on, where they are mapped.
pub open spec fn span_bytes(regions: Seq<Region>, addr: int, width: nat) -> Seq<u8> {
    Seq::new(
        width,
        |i: int|
            match byte_at(regions, addr + i) {
                Some(b) => b,
                None => 0u8,
            },
    )
}

/// The little-endian integer of `width` bytes at `addr`, or none where a byte is unmapped.
pub open spec fn read_le_at(regions: Seq<Region>, addr: int, width: nat) -> Option<int> {
    if span_mapped(regions, addr, width) {
        Some(le_value(span_bytes(regions, addr, width)))
    } else {
        None
    }
}

/// The value that a pointer chain ends on: from `addr`, each offset but the last
/// is added and a non-null 8-byte pointer read there; the last offset is added
/// and a 4-byte value read. An empty chain, an unmapped read or a null pointer
/// gives none.
pub open spec fn follow_path(regions: Seq<Region>, addr: int, offsets: Seq<u64>) -> Option<int>
    decreases offsets.len(),
{
    if offsets.len() == 0 {
        None
    } else if offsets.len() == 1 {
        read_le_at(regions, addr + offsets[0], 4)
    } else {
        match read_le_at(regions, addr + offsets[0], 8) {
            Some(p) => if p == 0 {
                None
            } else {
                follow_path(regions, p, offsets.drop_first())
            },
            None => None,
        }
    }
}

/// One hop of a chain: the non-null 8-byte pointer stored at `p + offset`.
pub open spec fn next_hop(regions: Seq<Region>, p: int, offset: u64) -> Option<int> {
    match read_le_at(regions, p + offset, 8) {
        Some(q) => if q == 0 {
            None
        } else {
            Some(q)
        },
        None => None,
    }
}

/// The pointer reached after the first `k` hops of a chain from `addr`, taken in order.
pub open spec fn hop(regions: Seq<Region>, addr: int, offsets: Seq<u64>, k: nat) -> Option<int>
    decreases k,
{
    if k == 0 {
        Some(addr)
    } else {
        match hop(regions, addr, offsets, (k - 1) as nat) {
            Some(p) => next_hop(regions, p, offsets[k - 1]),
            None => None,
        }
    }
}

proof fn lemma_hop_shift(regions: Seq<Region>, addr: int, offsets: Seq<u64>, k: nat)
    requires
        k + 1 <= offsets.len(),
    ensures
        hop(regions, addr, offsets, k + 1) == match next_hop(regions, addr, offsets[0]) {
            Some(p) => hop(regions, p, offsets.drop_first(), k),
            None => None,
        },
    decreases k,
{
    assert(hop(regions, addr, offsets, 0) == Some(addr));
    if k > 0 {
        lemma_hop_shift(regions, addr, offsets, (k - 1) as nat);
        assert(offsets.drop_first()[k - 1] == offsets[k as int]);
        match next_hop(regions, addr, offsets[0]) {
            Some(p) => {
                assert(hop(regions, p, offsets.drop_first(), k) == match hop(regions, p, offsets.drop_first(), (k - 1) as nat) {
                    Some(q) => next_hop(regions, q, offsets[k as int]),
                    None => None,
                });
            },
            None => {},
        }
    } else {
        match next_hop(regions, addr, offsets[0]) {
            Some(p) => {
                assert(hop(regions, p, offsets.drop_first(), 0) == Some(p));
            },
            None => {},
        }
    }
}

/// A chain is walked hop by hop in order: its value is the 4-byte read at the
/// last offset from the pointer that the earlier hops reach, and none where any
/// of them reads an unmapped or null pointer.
pub proof fn lemma_path_hops_in_order(regions: Seq<Region>, addr: int, offsets: Seq<u64>)
    requires
        offsets.len() >= 1,
    ensures
        follow_path(regions, addr, offsets) == match hop(regions, addr, offsets, (offsets.len() - 1) as nat) {
            Some(p) => read_le_at(regions, p + offsets[offsets.len() - 1], 4),
            None => None,
        },
    decreases offsets.len(),
{
    if offsets.len() >= 2 {
        lemma_hop_shift(regions, addr, offsets, (offsets.len() - 2) as nat);
        match next_hop(regions, addr, offsets[0]) {
            Some(p) => {
                lemma_path_hops_in_order(regions, p, offsets.drop_first());
            },
            None => {},
        }
    }
}

proof fn lemma_hop_stays_failed(regions: Seq<Region>, addr: int, offsets: Seq<u64>, k: nat, j: nat)
    requires
        k <= j,
        hop(regions, addr, offsets, k) is None,
    ensures
        hop(regions, addr, offsets, j) is None,
    decreases j,
{
    if k < j {
        lemma_hop_stays_failed(regions, addr, offsets, k, (j - 1) as nat);
    }
}

/// Where a hop before the last offset reads an unmapped or null pointer, the
/// chain has no value: nothing is read through that pointer.
pub proof fn lemma_failed_hop_gives_nothing(regions: Seq<Region>, addr: int, offsets: Seq<u64>, k: nat)
    requires
        1 <= k < offsets.len(),
        hop(regions, addr, offsets, (k - 1) as nat) matches Some(p) && next_hop(regions, p, offsets[k - 1]) is None,
    ensures
        follow_path(regions, addr, offsets) is None,
{
    lemma_path_hops_in_order(regions, addr, offsets);
    lemma_hop_stays_failed(regions, addr, offsets, k, (offsets.len() - 1) as nat);
}

/// A set of mapped regions; where two overlap, the earlier one is read.
#[derive(Clone, Debug, PartialEq, Eq)]
pub struct MemoryImage {
    pub regions: Vec<Region>,
}

impl MemoryImage {
    pub open spec fn view(&self) -> Seq<Region> {
        self.regions@
    }

    /// An image of the given regions.
    pub fn new(regions: Vec<Region>) -> (m: Self)
        ensures
            m.view() == regions@,
    {
        MemoryImage { regions }
    }

    /// The byte at `addr`, if mapped.
    pub fn read_byte(&self, addr: u64) -> (r: Option<u8>)
        ensures
            r == byte_at(self.view(), addr as int),
    {
        let mut k: usize = 0;
        while k < self.regions.len()
            invariant
                k <= self.regions@.len(),
                byte_at(self.view(), addr as int) == byte_in(self.view(), k as int, addr as int),
            decreases self.regions@.len() - k,
        {
            let region = &self.regions[k];
            if region.base <= addr && addr - region.base < region.bytes.len() as u64 {
                return Some(region.bytes[(addr - region.base) as usize]);
            }
            k = k + 1;
        }
        None
    }

    /// The `width` bytes from `addr` on, if all are mapped.
    pub fn read_bytes(&self, addr: u64, width: usize) -> (r: Option<Vec<u8>>)
        ensures
            r matches Some(v) ==> span_mapped(self.view(), addr as int, width as nat)
                && v@ == span_bytes(self.view(), addr as int, width as nat),
            r is None ==> !span_mapped(self.view(), addr as int, width as nat),
    {
        if width as u128 + addr as u128 > 0x1_0000_0000_0000_0000u128 {
            return None;
        }
        let mut out: Vec<u8> = Vec::new();
        let mut i: usize = 0;
        while i < width
            invariant
                i <= width,
                addr + width <= 0x1_0000_0000_0000_0000,
                out@.len() == i,
                forall|j: int| 0 <= j < i ==> (#[trigger] byte_at(self.view(), addr + j)) == Some(out@[j]),
            decreases width - i,
        {
            match self.read_byte(addr + i as u64) {
                Some(b) => out.push(b),
                None => {
                    assert(byte_at(self.view(), addr + i) is None);
                    return None;
                },
            }
            i = i + 1;
        }
        assert(out@ =~= span_bytes(self.view(), addr as int, width as nat));
        Some(out)
    }

    /// The little-endian integer of `width` bytes at `addr`, if all are mapped.
    pub fn read_le(&self, addr: u64, width: usize) -> (r: Option<u64>)
        requires
            width <= 8,
        ensures
            r matches Some(v) ==> read_le_at(self.view(), addr as int, width as nat) == Some(v as int),
            r is None ==> read_le_at(self.view(), addr as int, width as nat) is None,
    {
        match self.read_bytes(addr, width) {
            Some(bytes) => Some(decode_le(bytes.as_slice())),
            None => None,
        }
    }

    /// Follows a pointer chain from `base`: each offset but the last is added and
    /// an 8-byte pointer read there, which must not be null; the last offset is
    /// added and the 4-byte value there read.
    pub fn read_pointer_path(&self, base: u64, offsets: &[u64]) -> (r: Option<u32>)
        ensures
            r matches Some(v) ==> follow_path(self.view(), base as int, offsets@) == Some(v as int),
            r is None ==> follow_path(self.view(), base as int, offsets@) is None,
    {
        let n = offsets.len();
        if n == 0 {
            return None;
        }
        let mut addr: u64 = base;
        let mut i: usize = 0;
        assert(offsets@.subrange(0, n as int) =~= offsets@);
        while i + 1 < n
            invariant
                n == offsets@.len(),
                i < n,
                follow_path(self.view(), base as int, offsets@) == follow_path(
                    self.view(),
                    addr as int,
                    offsets@.subrange(i as int, n as int),
                ),
            decreases n - i,
        {
            assert(offsets@.subrange(i as int, n as int).drop_first() =~= offsets@.subrange(i + 1, n as int));
            let at = match addr.checked_add(offsets[i]) {
                Some(a) => a,
                None => return None,
            };
            match self.read_le(at, 8) {
                Some(p) => {
                    if p == 0 {
                        return None;
                    }
                    addr = p;
                },
                None => return None,
            }
            i = i + 1;
        }
        let at = match addr.checked_add(offsets[i]) {
            Some(a) => a,
            None => return None,
        };
        match self.read_le(at, 4) {
            Some(v) => {
                proof {
                    lemma_le_from_bound(span_bytes(self.view(), at as int, 4), 0);
                    lemma_byte_power_values();
                }
                Some(v as u32)
            },
            None => None,
        }
    }
}

} // verus!
