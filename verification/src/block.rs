//! A self-aligned region of raw memory, the unit in which the allocator
//! takes memory from the system.

use vstd::prelude::*;
use vstd::arithmetic::power2::is_pow2;

verus! {

/// Why a block could not be acquired.
#[derive(Debug, PartialEq, Eq, Structural, Clone, Copy)]
pub enum BlockError {
    /// The size asked for is not a power of two.
    BadRequest,
    /// The system could not supply the memory.
    OOM,
}

/// `usize::is_power_of_two` of std: true exactly for the powers of two.
pub assume_specification[ usize::is_power_of_two ](n: usize) -> (r: bool)
    ensures
        r == is_pow2(n as int),
;

/// The address of a vector's buffer, from `Vec::as_mut_ptr` of std, the
/// accessor for a buffer that will be written to. The call leaves the
/// vector's contents alone, and std documents that the pointer of a vector
/// is never null. Nothing else is claimed of the number that comes back:
/// where the buffer lies is up to the system allocator.
#[verifier::external_body]
fn buffer_address(v: &mut Vec<u8>) -> (addr: usize)
    ensures
        final(v)@ == old(v)@,
        addr != 0,
{
    v.as_mut_ptr() as usize
}

/// The least multiple of `size` that is not below `addr`.
pub open spec fn align_up(addr: int, size: int) -> int {
    if addr % size == 0 {
        addr
    } else {
        addr + size - addr % size
    }
}

/// `align_up` is a multiple of `size` and lies in `[addr, addr + size)`.
pub proof fn lemma_align_up(addr: int, size: int)
    requires
        size > 0,
    ensures
        align_up(addr, size) % size == 0,
        addr <= align_up(addr, size) < addr + size,
{
    let r = addr % size;
    let a = align_up(addr, size);
    vstd::arithmetic::div_mod::lemma_fundamental_div_mod(addr, size);
    if r != 0 {
        let q = addr / size;
        assert(a == size * (q + 1)) by (nonlinear_arith)
            requires
                a == addr + size - r,
                addr == size * q + r,
        ;
        vstd::arithmetic::div_mod::lemma_mod_multiples_basic(q + 1, size);
        assert((q + 1) * size == size * (q + 1)) by (nonlinear_arith);
    }
}

/// Where a block of `size` bytes starts inside a buffer that begins at
/// `addr`: the first multiple of `size` at or above `addr`, provided the
/// block then ends within the address space.
pub fn aligned_base(addr: usize, size: usize) -> (r: Option<usize>)
    ensures
        r is Some <==> size > 0 && align_up(addr as int, size as int) + size <= usize::MAX,
        r matches Some(base) ==> base == align_up(addr as int, size as int),
{
    if size == 0 {
        return None;
    }
    proof {
        lemma_align_up(addr as int, size as int);
    }
    let rem: usize = addr % size;
    let base: usize = if rem == 0 {
        addr
    } else {
        match addr.checked_add(size - rem) {
            Some(b) => b,
            None => {
                return None;
            },
        }
    };
    match base.checked_add(size) {
        Some(_) => Some(base),
        None => None,
    }
}

/// A power of two below another power of two is at most half of it.
pub proof fn lemma_pow2_below_is_half(n: int, m: int)
    requires
        is_pow2(n),
        is_pow2(m),
        n < m,
    ensures
        2 * n <= m,
    decreases n,
{
    reveal(is_pow2);
    if n > 1 {
        lemma_pow2_below_is_half(n / 2, m / 2);
    }
}

/// A buffer of twice a power of two less one byte has a length that fits
/// into a `usize`.
pub proof fn lemma_pow2_buffer_fits(size: usize)
    requires
        is_pow2(size as int),
    ensures
        size > 0,
        2 * size - 1 <= usize::MAX,
{
    reveal(is_pow2);
    vstd::layout::unsigned_int_max_values();
    let bits = usize::BITS as nat;
    assert(vstd::arithmetic::power2::is_pow2_exists(usize::MAX + 1)) by {
        vstd::arithmetic::power::lemma_pow_positive(2, bits);
        assert(vstd::arithmetic::power2::pow2(bits) == usize::MAX + 1);
        assert(vstd::arithmetic::power::pow(2, bits) == usize::MAX + 1);
    }
    vstd::arithmetic::power2::is_pow2_equiv(usize::MAX + 1);
    lemma_pow2_below_is_half(size as int, usize::MAX + 1);
}

/// The length of the buffer that is asked of the system for a block of
/// `size` bytes: `2 * size - 1` bytes, so that the buffer holds `size` bytes
/// from a multiple of `size` on, wherever it begins. `None` where that
/// length is no `usize`.
pub fn buffer_len(size: usize) -> (len: Option<usize>)
    requires
        size > 0,
    ensures
        len == if 2 * size - 1 <= usize::MAX {
            Some((2 * size - 1) as usize)
        } else {
            None
        },
{
    size.checked_add(size - 1)
}

/// One region of raw memory whose size is a power of two and whose first
/// address is a multiple of its size. The region is cut from a buffer that
/// the block holds; it belongs to the block alone and goes back to the
/// system when the block is dropped.
pub struct Block {
    base: usize,
    size: usize,
    buffer_addr: usize,
    buffer_len: usize,
    store: Vec<u8>,
}

impl Block {
    /// The first address of the region.
    pub closed spec fn base(&self) -> usize {
        self.base
    }

    /// The number of bytes in the region.
    pub closed spec fn size(&self) -> usize {
        self.size
    }

    /// The address at which the buffer behind the region begins.
    pub closed spec fn buffer_addr(&self) -> usize {
        self.buffer_addr
    }

    /// The number of bytes that were asked of the system for the buffer.
    pub closed spec fn buffer_len(&self) -> usize {
        self.buffer_len
    }

    /// The size is a power of two. The buffer does not begin at the null
    /// address and has twice the size less one byte. The region begins at
    /// the first multiple of the size in the buffer, which is not null
    /// either, and ends within the buffer and within the address space.
    pub open spec fn wf(&self) -> bool {
        &&& is_pow2(self.size() as int)
        &&& self.buffer_addr() != 0
        &&& self.buffer_len() == 2 * self.size() - 1
        &&& self.base() == align_up(self.buffer_addr() as int, self.size() as int)
        &&& self.base() != 0
        &&& self.base() % self.size() == 0
        &&& self.buffer_addr() <= self.base()
        &&& self.base() + self.size() <= self.buffer_addr() + self.buffer_len()
        &&& self.base() + self.size() <= usize::MAX
    }

    /// Acquires a block of `size` bytes. A size that is not a power of two
    /// is turned down as a bad request; any other failure means that the
    /// system had no memory to give.
    pub fn new(size: usize) -> (r: Result<Block, BlockError>)
        ensures
            !is_pow2(size as int) ==> r == Err::<Block, BlockError>(BlockError::BadRequest),
            is_pow2(size as int) ==> match r {
                Ok(block) => block.wf() && block.size() == size && block.base() != 0
                    && block.base() % size == 0,
                Err(e) => e == BlockError::OOM,
            },
    {
        if !size.is_power_of_two() {
            return Err(BlockError::BadRequest);
        }
        alloc_block(size)
    }

    /// The first address of the region.
    pub fn as_ptr(&self) -> (addr: usize)
        ensures
            addr == self.base(),
    {
        self.base
    }
}

/// Takes from the system a buffer of `buffer_len(size)` bytes, which has
/// room for `size` bytes from a multiple of `size` on, and places the block
/// in it.
pub fn alloc_block(size: usize) -> (r: Result<Block, BlockError>)
    requires
        is_pow2(size as int),
    ensures
        match r {
            Ok(block) => block.wf() && block.size() == size,
            Err(e) => e == BlockError::OOM,
        },
{
    proof {
        lemma_pow2_buffer_fits(size);
    }
    let len: usize = buffer_len(size).unwrap();
    let mut store: Vec<u8> = Vec::new();
    if store.try_reserve(len).is_err() {
        return Err(BlockError::OOM);
    }
    let addr = buffer_address(&mut store);
    place_block(store, addr, size)
}

/// Places a block of `size` bytes in `store`, a buffer of `buffer_len(size)`
/// bytes that begins at `addr`. The block starts at the first multiple of
/// `size` in the buffer. A buffer at the null address, or one so high in the
/// address space that the block would run past its end, counts as memory
/// that could not be had.
pub fn place_block(store: Vec<u8>, addr: usize, size: usize) -> (r: Result<Block, BlockError>)
    requires
        is_pow2(size as int),
    ensures
        r is Ok <==> addr != 0 && align_up(addr as int, size as int) + size <= usize::MAX,
        r matches Ok(block) ==> block.wf() && block.size() == size && block.buffer_addr() == addr
            && block.base() == align_up(addr as int, size as int),
        r matches Err(e) ==> e == BlockError::OOM,
{
    proof {
        lemma_pow2_buffer_fits(size);
        lemma_align_up(addr as int, size as int);
    }
    if addr == 0 {
        return Err(BlockError::OOM);
    }
    let len: usize = buffer_len(size).unwrap();
    match aligned_base(addr, size) {
        Some(base) => Ok(Block { base, size, buffer_addr: addr, buffer_len: len, store }),
        None => Err(BlockError::OOM),
    }
}

} // verus!
