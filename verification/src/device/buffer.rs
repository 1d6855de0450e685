//! Zeroed byte buffers whose first byte lies at an aligned address.
//!
//! A buffer allocates a little more than it hands out, and starts where the alignment is met.
use crate::allocation::{reserve, Memory};
use crate::formatting::{debug_field, debug_rest, debug_struct};
use crate::types::Error;
use vstd::prelude::*;

verus! {

/// Whether `n` is a power of two.
pub open spec fn is_power_of_two(n: int) -> bool
    decreases n,
{
    n > 0 && (n == 1 || (n % 2 == 0 && is_power_of_two(n / 2)))
}

fn power_of_two(n: usize) -> (r: bool)
    ensures
        r == is_power_of_two(n as int),
{
    let mut m: usize = n;
    while m > 1 && m % 2 == 0
        invariant
            is_power_of_two(m as int) == is_power_of_two(n as int),
        decreases m,
    {
        m = m / 2;
    }
    m == 1
}

/// The distance from `address` to the next multiple of `alignment`.
pub fn aligned_start(address: usize, alignment: usize) -> (r: usize)
    requires
        alignment > 0,
    ensures
        r < alignment,
        (address + r) % alignment as int == 0,
{
    let over = address % alignment;
    proof {
        let a = alignment as int;
        vstd::arithmetic::div_mod::lemma_fundamental_div_mod(address as int, a);
        let q = address as int / a;
        if over == 0 {
            vstd::arithmetic::div_mod::lemma_mod_self_0(a);
            assert((alignment - over) % a == 0);
        } else {
            vstd::arithmetic::div_mod::lemma_small_mod((alignment - over) as nat, alignment as nat);
            assert(address + (a - over) == a * (q + 1)) by (nonlinear_arith)
                requires
                    address == a * q + over,
            ;
            vstd::arithmetic::div_mod::lemma_mod_multiples_basic(q + 1, a);
            assert((q + 1) * a == a * (q + 1)) by (nonlinear_arith);
        }
    }
    (alignment - over) % alignment
}

/// The address of the first byte of `storage`, by `Vec::as_ptr`. Nothing is claimed of it: it is
/// for the allocator to choose.
#[verifier::external_body]
fn first_address(storage: &Vec<u8>) -> usize {
    storage.as_ptr() as usize
}

/// A buffer of fixed length. Its bytes are zero until they are written.
pub struct AlignedBuffer {
    storage: Vec<u8>,
    start: usize,
    length: usize,
    alignment: usize,
}

/// The length and the alignment are written, and not the bytes.
impl std::fmt::Debug for AlignedBuffer {
    fn fmt(&self, f: &mut std::fmt::Formatter<'_>) -> Result<(), std::fmt::Error> {
        let mut entry = debug_struct(f, "AlignedBuffer");
        debug_field(&mut entry, "length", &self.length);
        debug_field(&mut entry, "alignment", &self.alignment);
        debug_rest(&mut entry)
    }
}

/// Why a buffer of this length and alignment is refused before anything is allocated.
pub open spec fn buffer_refusal(length: usize, alignment: usize) -> Option<Error> {
    if length == 0 || !is_power_of_two(alignment as int) {
        Some(Error::InvalidConfig { field: "buffer", reason: "长度须非零，对齐须为二次幂" })
    } else if length + alignment - 1 > usize::MAX {
        Some(Error::CapacityExceeded)
    } else {
        None
    }
}

impl AlignedBuffer {
    /// The buffer lies inside its storage, is not empty, and is aligned to a power of two.
    pub closed spec fn wf(self) -> bool {
        &&& self.start + self.length <= self.storage@.len() <= usize::MAX
        &&& self.length > 0
        &&& is_power_of_two(self.alignment as int)
    }

    /// The bytes of the buffer.
    pub closed spec fn view(self) -> Seq<u8> {
        self.storage@.subrange(self.start as int, self.start + self.length)
    }

    /// The alignment that the buffer was made for.
    pub closed spec fn aligned_to(self) -> nat {
        self.alignment as nat
    }

    /// How many bytes of the storage lie before the buffer. With the storage at an address, this is
    /// what makes the address of the buffer a multiple of its alignment.
    pub closed spec fn offset(self) -> nat {
        self.start as nat
    }

    /// The buffer in `storage` whose first byte is aligned, where the storage lies at `address`.
    pub fn placed(storage: Vec<u8>, address: usize, length: usize, alignment: usize) -> (r:
        AlignedBuffer)
        requires
            length > 0,
            is_power_of_two(alignment as int),
            storage@.len() == length + alignment - 1,
        ensures
            r.wf(),
            r.offset() < alignment,
            (address + r.offset()) % alignment as int == 0,
            r@ == storage@.subrange(r.offset() as int, r.offset() + length),
            r.aligned_to() == alignment,
    {
        assert(storage.len() == storage@.len());
        let start = aligned_start(address, alignment);
        AlignedBuffer { storage, start, length, alignment }
    }

    /// A zeroed buffer of `length` bytes. The allocator decides whether there is room for it.
    pub fn new_zeroed(length: usize, alignment: usize) -> (r: Result<AlignedBuffer, Error>)
        ensures
            match buffer_refusal(length, alignment) {
                Some(reason) => r == Err::<AlignedBuffer, Error>(reason),
                None => r == Err::<AlignedBuffer, Error>(Error::OutOfMemory) || r is Ok,
            },
            r matches Ok(buffer) ==> {
                &&& buffer.wf()
                &&& buffer@ == Seq::new(length as nat, |i: int| 0u8)
                &&& buffer.aligned_to() == alignment
                &&& buffer.offset() < alignment
            },
    {
        Self::new_zeroed_from(length, alignment, Memory::Allocator)
    }

    /// A zeroed buffer of `length` bytes, where `memory` says whether there is room for it. It is
    /// placed by the address that its storage has; what that is, is for the allocator to choose.
    pub fn new_zeroed_from(length: usize, alignment: usize, memory: Memory) -> (r: Result<
        AlignedBuffer,
        Error,
    >)
        ensures
            match buffer_refusal(length, alignment) {
                Some(reason) => r == Err::<AlignedBuffer, Error>(reason),
                None => match memory {
                    Memory::Granted => r is Ok,
                    Memory::Refused => r == Err::<AlignedBuffer, Error>(Error::OutOfMemory),
                    Memory::Allocator => r == Err::<AlignedBuffer, Error>(Error::OutOfMemory)
                        || r is Ok,
                },
            },
            r matches Ok(buffer) ==> {
                &&& buffer.wf()
                &&& buffer@ == Seq::new(length as nat, |i: int| 0u8)
                &&& buffer.aligned_to() == alignment
                &&& buffer.offset() < alignment
            },
    {
        if length == 0 || !power_of_two(alignment) {
            return Err(
                Error::InvalidConfig { field: "buffer", reason: "长度须非零，对齐须为二次幂" },
            );
        }
        let total = match length.checked_add(alignment - 1) {
            Some(total) => total,
            None => {
                return Err(Error::CapacityExceeded);
            },
        };
        let mut storage: Vec<u8> = Vec::new();
        if !reserve(&mut storage, total, memory) {
            return Err(Error::OutOfMemory);
        }
        storage.resize(total, 0);
        let address = first_address(&storage);
        let buffer = Self::placed(storage, address, length, alignment);
        assert(buffer@ =~= Seq::new(length as nat, |i: int| 0u8));
        Ok(buffer)
    }

    pub fn as_slice(&self) -> (r: &[u8])
        requires
            self.wf(),
        ensures
            r@ == self@,
            r@.len() > 0,
    {
        vstd::slice::slice_subrange(self.storage.as_slice(), self.start, self.start + self.length)
    }

    pub fn as_mut_slice(&mut self) -> (r: &mut [u8])
        requires
            old(self).wf(),
        ensures
            r@ == old(self)@,
            final(r)@.len() == r@.len() ==> final(self).wf() && final(self)@ == final(r)@,
            final(self).aligned_to() == old(self).aligned_to(),
            final(self).offset() == old(self).offset(),
    {
        let start = self.start;
        let length = self.length;
        let whole = self.storage.as_mut_slice();
        let (_, rest) = whole.split_at_mut(start);
        let (middle, _) = rest.split_at_mut(length);
        middle
    }

    pub fn alignment(&self) -> (r: usize)
        requires
            self.wf(),
        ensures
            r == self.aligned_to(),
            is_power_of_two(r as int),
    {
        self.alignment
    }

    pub fn len(&self) -> (r: usize)
        requires
            self.wf(),
        ensures
            r == self@.len(),
            r > 0,
    {
        self.length
    }

    pub fn is_empty(&self) -> (r: bool)
        requires
            self.wf(),
        ensures
            r == (self@.len() == 0),
    {
        self.length == 0
    }

    /// Copies `source` over the first bytes of the buffer.
    pub fn fill(&mut self, source: &[u8])
        requires
            old(self).wf(),
            source@.len() <= old(self)@.len(),
        ensures
            final(self).wf(),
            final(self)@ == source@ + old(self)@.skip(source@.len() as int),
            final(self).aligned_to() == old(self).aligned_to(),
            final(self).offset() == old(self).offset(),
    {
        let mut i: usize = 0;
        while i < source.len()
            invariant
                old(self).wf(),
                self.wf(),
                i <= source@.len() <= old(self)@.len(),
                self@ == source@.take(i as int) + old(self)@.skip(i as int),
                self.aligned_to() == old(self).aligned_to(),
                self.start == old(self).start,
                self.length == old(self).length,
            decreases source@.len() - i,
        {
            assert(old(self)@.len() == self.length);
            let at = self.start + i;
            let ghost before = *self;
            self.storage.set(at, source[i]);
            assert(self@ =~= before@.update(i as int, source@[i as int]));
            assert(self@ =~= source@.take(i + 1) + old(self)@.skip(i + 1));
            i += 1;
        }
        assert(source@.take(i as int) =~= source@);
    }
}

/// A buffer that was aligned stays so, wherever its storage lies: writing to it moves it neither in
/// the storage nor to another alignment.
pub proof fn law_alignment_is_kept(before: AlignedBuffer, after: AlignedBuffer, address: usize)
    requires
        after.offset() == before.offset(),
        after.aligned_to() == before.aligned_to(),
        before.aligned_to() > 0,
        (address + before.offset()) % before.aligned_to() as int == 0,
    ensures
        (address + after.offset()) % after.aligned_to() as int == 0,
{
}

/// The powers of two are those and no other number.
pub proof fn law_powers_of_two(k: nat, n: int)
    ensures
        is_power_of_two(vstd::arithmetic::power2::pow2(k) as int),
        is_power_of_two(n) ==> exists|e: nat| n == #[trigger] vstd::arithmetic::power2::pow2(e),
    decreases k, n,
{
    vstd::arithmetic::power2::lemma2_to64();
    vstd::arithmetic::power2::lemma_pow2_pos(k);
    if k > 0 {
        vstd::arithmetic::power2::lemma_pow2_unfold(k);
        law_powers_of_two((k - 1) as nat, n);
    } else {
        if n == 1 {
            assert(n == vstd::arithmetic::power2::pow2(0));
        } else if is_power_of_two(n) {
            law_powers_of_two(0, n / 2);
            let e = choose|e: nat| n / 2 == #[trigger] vstd::arithmetic::power2::pow2(e);
            vstd::arithmetic::power2::lemma_pow2_unfold(e + 1);
            assert(n == vstd::arithmetic::power2::pow2(e + 1));
        }
    }
}

/// A buffer is refused exactly if it is empty, its alignment is no power of two, or it cannot be shifted
/// into place in the memory that there is.
pub proof fn law_refused_for_a_reason(length: usize, alignment: usize)
    ensures
        buffer_refusal(length, alignment) is None <==> length > 0 && is_power_of_two(alignment as int)
            && length + alignment - 1 <= usize::MAX,
        length == 0 || !is_power_of_two(alignment as int) ==> buffer_refusal(length, alignment)->0
            is InvalidConfig,
        length > 0 && is_power_of_two(alignment as int) && length + alignment - 1 > usize::MAX
            ==> buffer_refusal(length, alignment) == Some(Error::CapacityExceeded),
{
}

} // verus!
