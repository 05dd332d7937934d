//! The memory capability that the engine reads and writes through, and its
//! flat-buffer implementation.

use byteorder::{BigEndian, WriteBytesExt};
use crate::cpu::{CodeAdress, StackAddress};
use vstd::prelude::*;

verus! {

/// Number of bytes that the two startup vectors occupy at the bottom of memory.
pub const STARTUP_VECTORS_SIZE: usize = 8;

/// Memory as the simulated CPU sees it. `cycle` is the engine cycle on which
/// the access happens; an implementation that cannot serve an access returns
/// `None`.
///
/// Each access has a relation that says which answers it may give from a
/// state and which states it may leave. An implementation states what it
/// promises by defining the relation; left as it is, the relation admits
/// everything and promises nothing.
pub trait MemoryInterface {
    /// A byte read at `address` on `cycle` may answer `answer` from the state
    /// `self` and leave the state `after`.
    open spec fn reads_u8(&self, cycle: u32, address: u32, after: &Self, answer: Option<u8>) -> bool {
        true
    }

    /// A half-word read at `address` on `cycle` may answer `answer` from the
    /// state `self` and leave the state `after`.
    open spec fn reads_u16(&self, cycle: u32, address: u32, after: &Self, answer: Option<u16>) -> bool {
        true
    }

    /// A write of the byte `value` at `address` on `cycle` may answer
    /// `answer` from the state `self` and leave the state `after`.
    open spec fn writes_u8(
        &self,
        cycle: u32,
        address: u32,
        value: u8,
        after: &Self,
        answer: Option<()>,
    ) -> bool {
        true
    }

    /// A write of the half-word `value` at `address` on `cycle` may answer
    /// `answer` from the state `self` and leave the state `after`.
    open spec fn writes_u16(
        &self,
        cycle: u32,
        address: u32,
        value: u16,
        after: &Self,
        answer: Option<()>,
    ) -> bool {
        true
    }

    /// read u8 value from memory address.
    fn read_u8(&mut self, cycle: u32, address: u32) -> (r: Option<u8>)
        ensures
            old(self).reads_u8(cycle, address, final(self), r),
    ;

    /// read u16 value from memory address.
    fn read_u16(&mut self, cycle: u32, address: u32) -> (r: Option<u16>)
        ensures
            old(self).reads_u16(cycle, address, final(self), r),
    ;

    /// write u8 value to memory address.
    fn write_u8(&mut self, cycle: u32, address: u32, value: u8) -> (r: Option<()>)
        ensures
            old(self).writes_u8(cycle, address, value, final(self), r),
    ;

    /// write u16 value to memory address.
    fn write_u16(&mut self, cycle: u32, address: u32, value: u16) -> (r: Option<()>)
        ensures
            old(self).writes_u16(cycle, address, value, final(self), r),
    ;
}

/// The half-word whose high byte is `hi` and whose low byte is `lo`.
pub open spec fn half_word(hi: u8, lo: u8) -> u16 {
    ((hi as u16) << 8) | (lo as u16)
}

/// High byte of a half-word.
pub open spec fn high_byte(value: u16) -> u8 {
    (value >> 8) as u8
}

/// Low byte of a half-word.
pub open spec fn low_byte(value: u16) -> u8 {
    (value & 0xff) as u8
}

/// The four bytes of a word, most significant first.
pub open spec fn word_bytes(value: u32) -> Seq<u8> {
    seq![
        ((value >> 24) & 0xff) as u8,
        ((value >> 16) & 0xff) as u8,
        ((value >> 8) & 0xff) as u8,
        (value & 0xff) as u8,
    ]
}

/// An access of `width` bytes at `address` lies inside a memory of `len` bytes.
pub open spec fn in_range(len: nat, address: u32, width: nat) -> bool {
    address + width <= len
}

/// The byte at `address`, if there is one.
pub open spec fn byte_at(mem: Seq<u8>, address: u32) -> Option<u8> {
    if in_range(mem.len(), address, 1) {
        Some(mem[address as int])
    } else {
        None
    }
}

/// The big-endian half-word at `address` and `address + 1`, if both bytes exist.
pub open spec fn half_word_at(mem: Seq<u8>, address: u32) -> Option<u16> {
    if in_range(mem.len(), address, 2) {
        Some(half_word(mem[address as int], mem[address + 1]))
    } else {
        None
    }
}

/// The big-endian word at `address` to `address + 3`, if all four bytes exist.
pub open spec fn word_at(mem: Seq<u8>, address: u32) -> Option<u32> {
    if in_range(mem.len(), address, 4) {
        Some(
            ((mem[address as int] as u32) << 24) | ((mem[address + 1] as u32) << 16) | ((mem[address
                + 2] as u32) << 8) | (mem[address + 3] as u32),
        )
    } else {
        None
    }
}

/// Memory after `bytes` have been stored from `address` on. A store that does
/// not fit leaves the memory as it was.
pub open spec fn stored(mem: Seq<u8>, address: u32, bytes: Seq<u8>) -> Seq<u8> {
    if in_range(mem.len(), address, bytes.len()) {
        Seq::new(
            mem.len(),
            |i: int|
                if address <= i < address + bytes.len() {
                    bytes[i - address]
                } else {
                    mem[i]
                },
        )
    } else {
        mem
    }
}

/// The bytes of a half-word in memory order: high byte first.
pub open spec fn half_word_bytes(value: u16) -> Seq<u8> {
    seq![high_byte(value), low_byte(value)]
}

/// The memory that a core is started on: the code address as a big-endian
/// word at address 0, the stack address at address 4, zeroes up to `size`.
pub open spec fn startup_memory(code_address: u32, stack_address: u32, size: usize) -> Seq<u8>
    recommends
        size >= STARTUP_VECTORS_SIZE,
{
    word_bytes(code_address) + word_bytes(stack_address) + Seq::new(
        (size - STARTUP_VECTORS_SIZE) as nat,
        |i: int| 0u8,
    )
}

/// Appends a word to `buf` by `byteorder::WriteBytesExt::write_u32` in
/// big-endian order: the buffer grows by the word's four bytes, most
/// significant first, and keeps what it held. Writing to a `Vec` cannot fail.
#[verifier::external_body]
fn append_word(buf: &mut Vec<u8>, value: u32)
    ensures
        final(buf)@ == old(buf)@ + word_bytes(value),
{
    let _ = buf.write_u32::<BigEndian>(value);
}

/// Builds the memory that a core is started on. A memory too small to hold the
/// two startup vectors is refused.
pub fn startup_image(code_address: CodeAdress, stack_address: StackAddress, memory_size: usize) -> (r:
    Option<Vec<u8>>)
    ensures
        r is Some <==> memory_size >= STARTUP_VECTORS_SIZE,
        r matches Some(image) ==> image@ == startup_memory(
            code_address.0,
            stack_address.0,
            memory_size,
        ),
{
    if memory_size < STARTUP_VECTORS_SIZE {
        return None;
    }
    let mut image: Vec<u8> = Vec::new();
    append_word(&mut image, code_address.0);
    append_word(&mut image, stack_address.0);
    let ghost vectors = image@;
    while image.len() < memory_size
        invariant
            STARTUP_VECTORS_SIZE <= image.len() <= memory_size,
            image@ == vectors + Seq::new((image.len() - STARTUP_VECTORS_SIZE) as nat, |i: int| 0u8),
            vectors.len() == STARTUP_VECTORS_SIZE,
        decreases memory_size - image.len(),
    {
        image.push(0u8);
    }
    Some(image)
}

/// Memory backed by one contiguous byte buffer. Addresses are byte offsets
/// into the buffer; an access that leaves the buffer is reported as a failure
/// and changes nothing.
pub struct Fx68kVecMemoryInterface {
    data: Vec<u8>,
}

impl View for Fx68kVecMemoryInterface {
    type V = Seq<u8>;

    closed spec fn view(&self) -> Seq<u8> {
        self.data@
    }
}

impl Fx68kVecMemoryInterface {
    pub fn new(data: Vec<u8>) -> (r: Fx68kVecMemoryInterface)
        ensures
            r@ == data@,
    {
        Fx68kVecMemoryInterface { data }
    }

    /// Number of bytes in the buffer.
    pub fn len(&self) -> (r: usize)
        ensures
            r == self@.len(),
    {
        self.data.len()
    }

    /// The buffer's bytes.
    pub fn as_bytes(&self) -> (r: &[u8])
        ensures
            r@ == self@,
    {
        self.data.as_slice()
    }

    /// Overwrites the bytes from `address` on with `data`, outside of any
    /// engine cycle. A region that does not fit is refused and nothing is
    /// written.
    pub fn update_memory(&mut self, address: u32, data: &[u8]) -> (r: Option<()>)
        ensures
            r is Some <==> in_range(old(self)@.len(), address, data@.len()),
            final(self)@ == stored(old(self)@, address, data@),
    {
        let start: usize = address as usize;
        let len: usize = self.data.len();
        if start > len || data.len() > len - start {
            return None;
        }
        let mut i: usize = 0;
        while i < data.len()
            invariant
                start == address,
                i <= data@.len(),
                start + data@.len() <= len,
                self.data@.len() == len,
                len == old(self)@.len(),
                self@ == stored(old(self)@, address, data@.subrange(0, i as int)),
            decreases data@.len() - i,
        {
            self.data.set(start + i, data[i]);
            i += 1;
            assert(self@ =~= stored(old(self)@, address, data@.subrange(0, i as int)));
        }
        assert(data@.subrange(0, i as int) =~= data@);
        Some(())
    }
}

impl MemoryInterface for Fx68kVecMemoryInterface {
    /// A read answers with the byte in the buffer, whatever the cycle, and
    /// leaves the buffer as it was.
    open spec fn reads_u8(&self, cycle: u32, address: u32, after: &Self, answer: Option<u8>) -> bool {
        answer == byte_at(self@, address) && after@ == self@
    }

    /// A read answers with the big-endian half-word in the buffer, whatever
    /// the cycle, and leaves the buffer as it was.
    open spec fn reads_u16(&self, cycle: u32, address: u32, after: &Self, answer: Option<u16>) -> bool {
        answer == half_word_at(self@, address) && after@ == self@
    }

    /// A write is served exactly when the byte lies inside the buffer, and
    /// leaves the buffer with the byte stored.
    open spec fn writes_u8(
        &self,
        cycle: u32,
        address: u32,
        value: u8,
        after: &Self,
        answer: Option<()>,
    ) -> bool {
        (answer is Some <==> in_range(self@.len(), address, 1)) && after@ == stored(
            self@,
            address,
            seq![value],
        )
    }

    /// A write is served exactly when both bytes lie inside the buffer, and
    /// leaves the buffer with the half-word stored, high byte first.
    open spec fn writes_u16(
        &self,
        cycle: u32,
        address: u32,
        value: u16,
        after: &Self,
        answer: Option<()>,
    ) -> bool {
        (answer is Some <==> in_range(self@.len(), address, 2)) && after@ == stored(
            self@,
            address,
            half_word_bytes(value),
        )
    }

    fn read_u8(&mut self, _cycle: u32, address: u32) -> (r: Option<u8>)
        ensures
            r == byte_at(old(self)@, address),
            final(self)@ == old(self)@,
    {
        let at: usize = address as usize;
        if at < self.data.len() {
            Some(self.data[at])
        } else {
            None
        }
    }

    fn read_u16(&mut self, _cycle: u32, address: u32) -> (r: Option<u16>)
        ensures
            r == half_word_at(old(self)@, address),
            final(self)@ == old(self)@,
    {
        let at: usize = address as usize;
        if at < self.data.len() && at + 1 < self.data.len() {
            let v0: u16 = self.data[at] as u16;
            let v1: u16 = self.data[at + 1] as u16;
            Some((v0 << 8) | v1)
        } else {
            None
        }
    }

    fn write_u8(&mut self, _cycle: u32, address: u32, value: u8) -> (r: Option<()>)
        ensures
            r is Some <==> in_range(old(self)@.len(), address, 1),
            final(self)@ == stored(old(self)@, address, seq![value]),
    {
        let at: usize = address as usize;
        if at < self.data.len() {
            self.data.set(at, value);
            assert(self@ =~= stored(old(self)@, address, seq![value]));
            Some(())
        } else {
            None
        }
    }

    fn write_u16(&mut self, _cycle: u32, address: u32, value: u16) -> (r: Option<()>)
        ensures
            r is Some <==> in_range(old(self)@.len(), address, 2),
            final(self)@ == stored(old(self)@, address, half_word_bytes(value)),
    {
        let at: usize = address as usize;
        if at < self.data.len() && at + 1 < self.data.len() {
            assert(value >> 8 <= 0xff) by (bit_vector);
            assert(value & 0xff <= 0xff) by (bit_vector);
            self.data.set(at, (value >> 8) as u8);
            self.data.set(at + 1, (value & 0xff) as u8);
            assert(self@ =~= stored(old(self)@, address, half_word_bytes(value)));
            Some(())
        } else {
            None
        }
    }
}

/// A half-word is the one that its two bytes make.
pub proof fn lemma_half_word_of_its_bytes(value: u16)
    ensures
        half_word(high_byte(value), low_byte(value)) == value,
{
    assert((((value >> 8) as u8) as u16) << 8 | (((value & 0xff) as u8) as u16) == value)
        by (bit_vector);
}

/// Round trip: a half-word stored at an address below the buffer's length
/// minus one is the half-word read back from that address.
pub proof fn lemma_half_word_round_trip(mem: Seq<u8>, address: u32, value: u16)
    requires
        address + 1 < mem.len(),
    ensures
        half_word_at(stored(mem, address, half_word_bytes(value)), address) == Some(value),
{
    lemma_half_word_of_its_bytes(value);
}

/// A byte stored inside the buffer is the byte read back from that address.
pub proof fn lemma_byte_round_trip(mem: Seq<u8>, address: u32, value: u8)
    requires
        address < mem.len(),
    ensures
        byte_at(stored(mem, address, seq![value]), address) == Some(value),
{
}

/// A store changes no byte outside the region it covers, nor the length.
pub proof fn lemma_store_keeps_the_rest(mem: Seq<u8>, address: u32, bytes: Seq<u8>, other: u32)
    requires
        other < address || other >= address + bytes.len(),
    ensures
        stored(mem, address, bytes).len() == mem.len(),
        byte_at(stored(mem, address, bytes), other) == byte_at(mem, other),
{
}

/// The startup image holds the code address in the word at address 0 and the
/// stack address in the word at address 4.
pub proof fn lemma_startup_vectors(code_address: u32, stack_address: u32, size: usize)
    requires
        size >= STARTUP_VECTORS_SIZE,
    ensures
        startup_memory(code_address, stack_address, size).len() == size,
        word_at(startup_memory(code_address, stack_address, size), 0) == Some(code_address),
        word_at(startup_memory(code_address, stack_address, size), 4) == Some(stack_address),
        forall|a: u32|
            STARTUP_VECTORS_SIZE <= a < size ==> #[trigger] byte_at(
                startup_memory(code_address, stack_address, size),
                a,
            ) == Some(0u8),
{
    lemma_word_of_its_bytes(code_address);
    lemma_word_of_its_bytes(stack_address);
}

/// A word is the one that its four bytes make.
pub proof fn lemma_word_of_its_bytes(value: u32)
    ensures
        word_bytes(value).len() == 4,
        ((word_bytes(value)[0] as u32) << 24) | ((word_bytes(value)[1] as u32) << 16) | ((
        word_bytes(value)[2] as u32) << 8) | (word_bytes(value)[3] as u32) == value,
{
    assert((((((value >> 24) & 0xff) as u8) as u32) << 24) | (((((value >> 16) & 0xff) as u8) as u32)
        << 16) | (((((value >> 8) & 0xff) as u8) as u32) << 8) | (((value & 0xff) as u8) as u32)
        == value) by (bit_vector);
}

} // verus!
