//! Finds the world pointer's address inside the main module: the first match of
//! the world signature is an instruction whose 32-bit displacement, ten bytes in,
//! is relative to the end of that field.

use vstd::prelude::*;
use crate::memory::{MemoryImage, le_value, span_bytes, span_mapped, lemma_le_from_bound, lemma_byte_power_values};
use crate::signature::{first_match, spec_world_signature, world_signature};

verus! {

/// Offset of the displacement field from the start of the match.
pub const FIELD_OFFSET: usize = 0xA;

/// Width in bytes of the displacement field.
pub const FIELD_WIDTH: usize = 4;

/// The signed 32-bit value of four little-endian bytes.
pub open spec fn le_i32(s: Seq<u8>) -> int {
    if le_value(s) < 0x8000_0000 {
        le_value(s)
    } else {
        le_value(s) - 0x1_0000_0000
    }
}

/// The address that a displacement field at `field` refers to: the field's end plus `rel`.
pub open spec fn rip_target(field: int, rel: int) -> int {
    field + FIELD_WIDTH + rel
}

/// The world pointer's address for a module loaded at `module_base` whose bytes are
/// `module`: none where the signature does not occur or the target leaves the
/// 64-bit address space.
pub open spec fn resolved_address(module_base: int, module: Seq<u8>) -> Option<int> {
    match first_match(spec_world_signature(), module) {
        Some(m) => {
            let field = m + FIELD_OFFSET;
            let t = rip_target(module_base + field, le_i32(module.subrange(field, field + FIELD_WIDTH)));
            if 0 <= t < 0x1_0000_0000_0000_0000 {
                Some(t)
            } else {
                None
            }
        },
        None => None,
    }
}

/// Resolves the world pointer's address from the bytes of the main module.
pub fn resolve(module_base: u64, module: &[u8]) -> (r: Option<u64>)
    ensures
        r matches Some(a) ==> resolved_address(module_base as int, module@) == Some(a as int),
        r is None ==> resolved_address(module_base as int, module@) is None,
{
    let sig = world_signature();
    let m = match sig.scan(module) {
        Some(m) => m,
        None => return None,
    };
    proof {
        crate::signature::lemma_first_match_from_is_least(sig.view(), module@, 0);
        assert(spec_world_signature().len() == 15);
        assert(crate::signature::matches_at(sig.view(), module@, m as int));
        assert(m + 15 <= module.len());
    }
    let field = m + FIELD_OFFSET;
    let mut raw: Vec<u8> = Vec::new();
    let mut k: usize = 0;
    while k < FIELD_WIDTH
        invariant
            k <= FIELD_WIDTH,
            field + FIELD_WIDTH <= module.len(),
            raw@ =~= module@.subrange(field as int, field + k),
        decreases FIELD_WIDTH - k,
    {
        raw.push(module[field + k]);
        k = k + 1;
    }
    let value = crate::memory::decode_le(raw.as_slice());
    proof {
        lemma_le_from_bound(raw@, 0);
        lemma_byte_power_values();
    }
    let rel: i128 = if value < 0x8000_0000 {
        value as i128
    } else {
        value as i128 - 0x1_0000_0000
    };
    let target: i128 = module_base as i128 + field as i128 + FIELD_WIDTH as i128 + rel;
    if 0 <= target && target <= u64::MAX as i128 {
        Some(target as u64)
    } else {
        None
    }
}

/// Where the world signature occurs nowhere in the module, no address is
/// resolved, whatever the module's base.
pub proof fn lemma_no_match_never_resolves(module_base: int, module: Seq<u8>)
    requires
        forall|i: int| !crate::signature::matches_at(spec_world_signature(), module, i),
    ensures
        resolved_address(module_base, module) is None,
{
    crate::signature::lemma_first_match_from_is_least(spec_world_signature(), module, 0);
}

impl MemoryImage {
    /// Reads the main module, `module_size` bytes from `module_base`, out of the
    /// image and resolves the world pointer's address in it.
    pub fn resolve_world(&self, module_base: u64, module_size: usize) -> (r: Option<u64>)
        ensures
            !span_mapped(self.view(), module_base as int, module_size as nat) ==> r is None,
            span_mapped(self.view(), module_base as int, module_size as nat) ==> {
                let found = resolved_address(
                    module_base as int,
                    span_bytes(self.view(), module_base as int, module_size as nat),
                );
                &&& r matches Some(a) ==> found == Some(a as int)
                &&& r is None ==> found is None
            },
    {
        match self.read_bytes(module_base, module_size) {
            Some(bytes) => resolve(module_base, bytes.as_slice()),
            None => None,
        }
    }
}

} // verus!
