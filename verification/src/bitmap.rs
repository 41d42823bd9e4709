use vstd::prelude::*;

verus! {

/// Mask of the most significant bit of a byte: bit 0 of every byte is its
/// top bit.
pub const BIT_INDEXER: u8 = 0b1000_0000;

/// Whether bit `j` (0 = most significant) of byte `b` is set.
pub open spec fn byte_bit(b: u8, j: int) -> bool {
    b & (BIT_INDEXER >> (j as u8)) != 0
}

/// The bits of a byte buffer, most significant bit of each byte first.
pub open spec fn bits_of(bytes: Seq<u8>) -> Seq<bool> {
    Seq::new(bytes.len() * 8, |i: int| byte_bit(bytes[i / 8], i % 8))
}

proof fn lemma_set_bit(b: u8, j: u8, k: u8)
    requires
        j < 8,
        k < 8,
    ensures
        (((b & !(BIT_INDEXER >> j)) | (BIT_INDEXER >> j)) & (BIT_INDEXER >> k) != 0) == (if k == j {
            true
        } else {
            b & (BIT_INDEXER >> k) != 0
        }),
        ((b & !(BIT_INDEXER >> j)) & (BIT_INDEXER >> k) != 0) == (if k == j {
            false
        } else {
            b & (BIT_INDEXER >> k) != 0
        }),
{
    assert((((b & !(0x80u8 >> j)) | (0x80u8 >> j)) & (0x80u8 >> k) != 0) == (if k == j {
        true
    } else {
        b & (0x80u8 >> k) != 0
    })) by (bit_vector)
        requires
            j < 8,
            k < 8,
    ;
    assert(((b & !(0x80u8 >> j)) & (0x80u8 >> k) != 0) == (if k == j {
        false
    } else {
        b & (0x80u8 >> k) != 0
    })) by (bit_vector)
        requires
            j < 8,
            k < 8,
    ;
}

proof fn lemma_zero_byte(j: u8)
    requires
        j < 8,
    ensures
        0u8 & (BIT_INDEXER >> j) == 0,
{
    assert(0u8 & (0x80u8 >> j) == 0) by (bit_vector);
}

/// A bitmap over `size` bytes (`size * 8` bits) that sits at physical
/// address `buffer`.
pub struct Bitmap {
    pub size: usize,
    pub buffer: u64,
    pub bytes: Vec<u8>,
}

impl View for Bitmap {
    type V = Seq<bool>;

    open spec fn view(&self) -> Seq<bool> {
        bits_of(self.bytes@)
    }
}

impl Bitmap {
    /// The backing bytes have the declared size and the bit count fits in a
    /// `usize`.
    pub open spec fn wf(&self) -> bool {
        &&& self@.len() == self.size * 8
        &&& self.size * 8 <= usize::MAX
    }

    /// A cleared bitmap of `size` bytes placed at address `buf_ptr`.
    pub fn new(size: usize, buf_ptr: u64) -> (b: Bitmap)
        requires
            size * 8 <= usize::MAX,
        ensures
            b.wf(),
            b.size == size,
            b.buffer == buf_ptr,
            b@.len() == size * 8,
            forall|i: int| 0 <= i < b@.len() ==> !b@[i],
    {
        let mut bytes: Vec<u8> = Vec::new();
        let mut i: usize = 0;
        while i < size
            invariant
                i <= size,
                bytes@.len() == i,
                forall|k: int| 0 <= k < i ==> bytes@[k] == 0,
            decreases size - i,
        {
            bytes.push(0);
            i = i + 1;
        }
        let b = Bitmap { size, buffer: buf_ptr, bytes };
        assert forall|i: int| 0 <= i < b@.len() implies !b@[i] by {
            lemma_zero_byte((i % 8) as u8);
        }
        b
    }

    /// Reads bit `index`; bits past the end of the bitmap read as clear.
    pub fn get(&self, index: u64) -> (v: bool)
        requires
            self.wf(),
        ensures
            v == (index < self@.len() && self@[index as int]),
    {
        if index >= (self.size * 8) as u64 {
            return false;
        }
        assert(self.bytes@.len() == self.size);
        let byte_index = (index / 8) as usize;
        let bit_index: u8 = BIT_INDEXER >> ((index % 8) as u8);
        let byte = self.bytes[byte_index];
        (byte & bit_index) > 0
    }

    /// Writes bit `index`. Returns `false`, and changes nothing, when the index
    /// is past the end of the bitmap.
    pub fn set(&mut self, index: u64, value: bool) -> (ok: bool)
        requires
            old(self).wf(),
        ensures
            final(self).wf(),
            final(self).size == old(self).size,
            final(self).buffer == old(self).buffer,
            ok == (index < old(self)@.len()),
            ok ==> final(self)@ == old(self)@.update(index as int, value),
            !ok ==> final(self)@ == old(self)@,
    {
        if index >= (self.size * 8) as u64 {
            return false;
        }
        assert(self.bytes@.len() == self.size);
        let byte_index = (index / 8) as usize;
        assert(byte_index < self.size);
        let j: u8 = (index % 8) as u8;
        let bit_index: u8 = BIT_INDEXER >> j;
        let old_byte = self.bytes[byte_index];
        let mut byte = old_byte & !bit_index;
        if value {
            byte = byte | bit_index;
        }
        self.bytes.set(byte_index, byte);
        proof {
            let old_bits = bits_of(old(self).bytes@);
            let new_bits = bits_of(self.bytes@);
            assert forall|i: int| 0 <= i < new_bits.len() implies new_bits[i] == old_bits.update(
                index as int,
                value,
            )[i] by {
                if i / 8 == byte_index as int {
                    lemma_set_bit(old_byte, j, (i % 8) as u8);
                }
            }
            assert(new_bits =~= old_bits.update(index as int, value));
        }
        true
    }
}

/// A read gives back what a write wrote: after bit `index` of a bitmap is
/// set to `value`, reading it gives `value`, and every other bit reads as
/// before; past the end nothing is written and every bit reads as before.
pub proof fn law_read_after_write(bits: Seq<bool>, index: u64, value: bool)
    ensures
        ({
            let ok = index < bits.len();
            let after = if ok { bits.update(index as int, value) } else { bits };
            &&& ok ==> after[index as int] == value
            &&& forall|i: int| 0 <= i < bits.len() && i != index ==> #[trigger] after[i] == bits[i]
            &&& after.len() == bits.len()
        }),
{
}

} // verus!
