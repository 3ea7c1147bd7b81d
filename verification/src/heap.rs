//! Self-initializing bump allocator: hands out aligned, strictly advancing
//! addresses and refuses to grow into the safety gap below the stack pointer.

use vstd::prelude::*;
use vstd::arithmetic::div_mod::lemma_fundamental_div_mod;
use vstd::arithmetic::div_mod::lemma_mod_division_less_than_divisor;
use vstd::arithmetic::div_mod::lemma_mod_multiples_basic;

verus! {

/// Minimum gap kept between the top of the heap and the stack pointer.
pub const MEMORY_GAP: usize = 0x1000;

/// Why an allocation was refused. Both conditions are fatal to the caller:
/// the allocator itself commits nothing when it reports either.
#[derive(Clone, Copy, Debug, PartialEq, Eq, Structural)]
pub enum HeapError {
    /// An address computation would wrap around the address space.
    Overflow,
    /// The heap would end within `MEMORY_GAP` bytes of the stack pointer;
    /// the fields carry the addresses for diagnostics.
    StackCollision { heap_pos: usize, stack_pointer: usize },
}

/// Bump-allocator state: the next heap address to use, or 0 while the heap
/// has not been initialized yet.
#[derive(Clone, Copy, Debug, PartialEq, Eq, Structural)]
pub struct HeapState {
    pub heap_pos: usize,
}

/// The alignments the allocator accepts.
pub open spec fn is_power_of_two(n: int) -> bool
    decreases n,
{
    if n <= 0 {
        false
    } else if n == 1 {
        true
    } else {
        n % 2 == 0 && is_power_of_two(n / 2)
    }
}

/// The position an allocation starts from: the sentinel 0 means the heap
/// begins right after the program's static data.
pub open spec fn effective_base(heap_pos: int, end_of_static: int) -> int {
    if heap_pos == 0 {
        end_of_static
    } else {
        heap_pos
    }
}

/// `pos` rounded up to the next multiple of `align`.
pub open spec fn round_up_to_align(pos: int, align: int) -> int
    recommends
        align >= 1,
{
    if pos % align == 0 {
        pos
    } else {
        pos + (align - pos % align)
    }
}

/// One past the highest address an allocation would reserve, safety gap
/// included.
pub open spec fn alloc_limit(heap_pos: int, end_of_static: int, bytes: int, align: int) -> int {
    round_up_to_align(effective_base(heap_pos, end_of_static), align) + bytes + MEMORY_GAP
}

/// Rounding up lands on a multiple of `align`, moves forward, and overshoots
/// by less than one alignment step.
pub proof fn lemma_round_up_to_align(pos: int, align: int)
    requires
        pos >= 0,
        align >= 1,
    ensures
        round_up_to_align(pos, align) % align == 0,
        pos <= round_up_to_align(pos, align) < pos + align,
{
    lemma_mod_division_less_than_divisor(pos, align);
    let r = pos % align;
    if r != 0 {
        lemma_fundamental_div_mod(pos, align);
        assert(round_up_to_align(pos, align) == align * (pos / align) + align);
        assert(align * (pos / align) + align == (pos / align + 1) * align) by (nonlinear_arith);
        lemma_mod_multiples_basic(pos / align + 1, align);
    }
}

/// A power of two is at least one.
pub proof fn lemma_power_of_two_pos(n: int)
    requires
        is_power_of_two(n),
    ensures
        n >= 1,
{
}

impl HeapState {
    /// A fresh heap, not yet initialized; the first allocation will start it
    /// at the end of the static data region.
    pub fn new() -> (r: HeapState)
        ensures
            r.heap_pos == 0,
    {
        HeapState { heap_pos: 0 }
    }

    /// Bump-allocate `bytes` bytes aligned to `align`.
    ///
    /// `end_of_static` is the address just past the program's static data
    /// (used only on the first call, when the state still holds the
    /// sentinel); `stack_pointer` is the current stack pointer. Both are
    /// platform reads performed by the caller. The call succeeds exactly
    /// when the reserved range plus the safety gap fits below the stack
    /// pointer without wrapping; on failure the state is unchanged.
    pub fn sys_alloc_aligned(
        &mut self,
        bytes: usize,
        align: usize,
        end_of_static: usize,
        stack_pointer: usize,
    ) -> (r: Result<usize, HeapError>)
        requires
            is_power_of_two(align as int),
        ensures
            r is Ok <==> alloc_limit(
                old(self).heap_pos as int,
                end_of_static as int,
                bytes as int,
                align as int,
            ) <= usize::MAX && alloc_limit(
                old(self).heap_pos as int,
                end_of_static as int,
                bytes as int,
                align as int,
            ) <= stack_pointer,
            r matches Ok(p) ==> {
                &&& p as int == round_up_to_align(
                    effective_base(old(self).heap_pos as int, end_of_static as int),
                    align as int,
                )
                &&& p as int % (align as int) == 0
                &&& final(self).heap_pos == p + bytes
                &&& final(self).heap_pos >= old(self).heap_pos
            },
            r == Err::<usize, HeapError>(HeapError::Overflow) <==> alloc_limit(
                old(self).heap_pos as int,
                end_of_static as int,
                bytes as int,
                align as int,
            ) > usize::MAX,
            (alloc_limit(
                old(self).heap_pos as int,
                end_of_static as int,
                bytes as int,
                align as int,
            ) <= usize::MAX && alloc_limit(
                old(self).heap_pos as int,
                end_of_static as int,
                bytes as int,
                align as int,
            ) > stack_pointer) <==> r == Err::<usize, HeapError>(
                (HeapError::StackCollision {
                    heap_pos: (alloc_limit(
                        old(self).heap_pos as int,
                        end_of_static as int,
                        bytes as int,
                        align as int,
                    ) - MEMORY_GAP) as usize,
                    stack_pointer,
                }),
            ),
            r is Err ==> *final(self) == *old(self),
    {
        proof {
            lemma_power_of_two_pos(align as int);
        }
        let base: usize = if self.heap_pos == 0 {
            end_of_static
        } else {
            self.heap_pos
        };
        let rem: usize = base % align;
        proof {
            lemma_round_up_to_align(base as int, align as int);
        }
        let aligned: usize;
        if rem != 0 {
            let pad: usize = align - rem;
            if usize::MAX - base < pad {
                return Err(HeapError::Overflow);
            }
            aligned = base + pad;
        } else {
            aligned = base;
        }
        if usize::MAX - aligned < bytes {
            return Err(HeapError::Overflow);
        }
        let new_pos: usize = aligned + bytes;
        if usize::MAX - new_pos < MEMORY_GAP {
            return Err(HeapError::Overflow);
        }
        let limit: usize = new_pos + MEMORY_GAP;
        if limit > stack_pointer {
            return Err(HeapError::StackCollision { heap_pos: new_pos, stack_pointer });
        }
        self.heap_pos = new_pos;
        Ok(aligned)
    }
}

/// Law: two consecutive successful allocations hand out strictly increasing
/// addresses, each aligned to its own request, provided the first allocation
/// asked for at least one byte. (A zero-byte allocation does not advance the
/// cursor, so a repeat of it may return the same address.)
pub proof fn lemma_alloc_addresses_increase(
    heap_pos: int,
    end_of_static: int,
    bytes1: int,
    align1: int,
    align2: int,
)
    requires
        heap_pos >= 0,
        end_of_static >= 0,
        bytes1 >= 1,
        is_power_of_two(align1),
        is_power_of_two(align2),
    ensures
        ({
            let first = round_up_to_align(effective_base(heap_pos, end_of_static), align1);
            let second = round_up_to_align(effective_base(first + bytes1, end_of_static), align2);
            &&& first % align1 == 0
            &&& second % align2 == 0
            &&& second > first
        }),
{
    lemma_power_of_two_pos(align1);
    lemma_power_of_two_pos(align2);
    let base = effective_base(heap_pos, end_of_static);
    lemma_round_up_to_align(base, align1);
    let first = round_up_to_align(base, align1);
    lemma_round_up_to_align(first + bytes1, align2);
}

} // verus!
