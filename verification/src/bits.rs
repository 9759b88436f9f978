//! Bit reader over a byte buffer: pulls unsigned integers of arbitrary
//! widths out of a read-only byte sequence, big-endian, most significant
//! bit first across byte boundaries.

use vstd::prelude::*;
use vstd::arithmetic::power2::{
    pow2, lemma_pow2_adds, lemma_pow2_pos, lemma_pow2_strictly_increases, lemma2_to64,
    lemma2_to64_rest,
};
use vstd::slice::slice_to_vec;

use crate::error::Error;

verus! {

/// Bit `i` of the stream: bit 0 is the most significant bit of byte 0.
pub open spec fn bit_at(data: Seq<u8>, i: int) -> bool {
    (data[i / 8] >> ((7 - (i % 8)) as u8)) & 1 == 1
}

/// The unsigned value of the `n` bits starting at bit `start`, read most
/// significant bit first.
pub open spec fn bits_uint(data: Seq<u8>, start: int, n: nat) -> nat
    decreases n,
{
    if n == 0 {
        0
    } else {
        2 * bits_uint(data, start, (n - 1) as nat) + (if bit_at(data, start + n - 1) {
            1nat
        } else {
            0nat
        })
    }
}

/// An `n`-bit value is below `pow2(n)`.
pub proof fn lemma_bits_uint_bound(data: Seq<u8>, start: int, n: nat)
    ensures
        bits_uint(data, start, n) < pow2(n),
    decreases n,
{
    if n == 0 {
        lemma_pow2_pos(0);
        lemma2_to64();
    } else {
        lemma_bits_uint_bound(data, start, (n - 1) as nat);
        lemma_pow2_adds(1, (n - 1) as nat);
        lemma2_to64();
    }
}

/// Reading `k` bits and then `m` bits yields the same bit sequence as
/// reading `k + m` bits at once and splitting the result: the combined
/// value is the first part shifted up by `m` bits plus the second part.
pub proof fn lemma_bits_uint_concat(data: Seq<u8>, start: int, k: nat, m: nat)
    ensures
        bits_uint(data, start, k + m) == bits_uint(data, start, k) * pow2(m) + bits_uint(
            data,
            start + k,
            m,
        ),
    decreases m,
{
    if m == 0 {
        lemma2_to64();
        assert(bits_uint(data, start, k) * 1 == bits_uint(data, start, k));
    } else {
        lemma_bits_uint_concat(data, start, k, (m - 1) as nat);
        lemma_pow2_adds(1, (m - 1) as nat);
        lemma2_to64();
        let b: nat = if bit_at(data, start + k + m - 1) {
            1
        } else {
            0
        };
        assert(bits_uint(data, start, k + m) == 2 * bits_uint(data, start, (k + m - 1) as nat)
            + b);
        assert(2 * (bits_uint(data, start, k) * pow2((m - 1) as nat)) == bits_uint(data, start, k)
            * pow2(m)) by (nonlinear_arith)
            requires
                pow2(m) == 2 * pow2((m - 1) as nat),
        ;
    }
}

/// Pulls unsigned bit fields out of an owned byte buffer, tracking a bit
/// cursor. Bit 0 is the most significant bit of the first byte.
pub struct BufferReader {
    data: Vec<u8>,
    pos: usize,
}

impl BufferReader {
    /// The bytes this reader walks over.
    pub closed spec fn data(&self) -> Seq<u8> {
        self.data@
    }

    /// The bit cursor: how many bits have been consumed so far.
    pub closed spec fn pos(&self) -> int {
        self.pos as int
    }

    /// The cursor never runs past the end, and the buffer is small enough
    /// that its bit count fits the address space.
    pub open spec fn wf(&self) -> bool {
        0 <= self.pos() <= 8 * self.data().len() && 8 * self.data().len() <= usize::MAX
    }

    /// A reader positioned at bit 0 of a copy of `buffer`.
    pub fn new(buffer: &[u8]) -> (r: BufferReader)
        requires
            8 * buffer@.len() <= usize::MAX,
        ensures
            r.wf(),
            r.data() == buffer@,
            r.pos() == 0,
    {
        BufferReader { data: slice_to_vec(buffer), pos: 0 }
    }

    /// How many bits remain between the cursor and the end of the buffer.
    pub fn remaining_bits(&self) -> (n: usize)
        requires
            self.wf(),
        ensures
            n == 8 * self.data().len() - self.pos(),
    {
        8 * self.data.len() - self.pos
    }

    /// Reads the single bit under the cursor and advances past it.
    fn read_bit(&mut self) -> (b: u8)
        requires
            old(self).wf(),
            old(self).pos() < 8 * old(self).data().len(),
        ensures
            final(self).wf(),
            final(self).data() == old(self).data(),
            final(self).pos() == old(self).pos() + 1,
            b == (if bit_at(old(self).data(), old(self).pos()) {
                1u8
            } else {
                0u8
            }),
    {
        let byte = self.data[self.pos / 8];
        let sh = (7 - (self.pos % 8)) as u8;
        let b = (byte >> sh) & 1;
        proof {
            let by = byte;
            let s = sh;
            assert(s < 8 ==> ((by >> s) & 1 == 1) || ((by >> s) & 1 == 0)) by (bit_vector);
        }
        self.pos = self.pos + 1;
        b
    }

    /// Reads an `n`-bit unsigned integer, most significant bit first,
    /// advancing the cursor by `n`. Fails with `BitStreamExhausted`, and
    /// moves nothing, when fewer than `n` bits remain.
    pub fn read_uint(&mut self, n: usize) -> (r: Result<u64, Error>)
        requires
            old(self).wf(),
            n <= 64,
        ensures
            final(self).wf(),
            final(self).data() == old(self).data(),
            old(self).pos() + n <= 8 * old(self).data().len() ==> r == Ok::<u64, Error>(
                bits_uint(old(self).data(), old(self).pos(), n as nat) as u64,
            ) && final(self).pos() == old(self).pos() + n,
            old(self).pos() + n > 8 * old(self).data().len() ==> r == Err::<u64, Error>(
                Error::BitStreamExhausted,
            ) && final(self).pos() == old(self).pos(),
    {
        if n > 8 * self.data.len() - self.pos {
            return Err(Error::BitStreamExhausted);
        }
        let ghost start = self.pos as int;
        let mut acc: u64 = 0;
        let mut i: usize = 0;
        while i < n
            invariant
                self.wf(),
                self.data() == old(self).data(),
                i <= n,
                n <= 64,
                start + n <= 8 * self.data().len(),
                self.pos() == start + i,
                acc == bits_uint(self.data(), start, i as nat),
            decreases n - i,
        {
            proof {
                lemma_bits_uint_bound(self.data(), start, i as nat);
                if (i as nat) < 63 {
                    lemma_pow2_strictly_increases(i as nat, 63);
                }
                lemma2_to64_rest();
            }
            let b = self.read_bit();
            acc = acc * 2 + (b as u64);
            i = i + 1;
        }
        Ok(acc)
    }

    /// Advances the cursor by `n` bits without interpreting them. Fails
    /// with `BitStreamExhausted`, and moves nothing, when fewer than `n`
    /// bits remain.
    pub fn skip(&mut self, n: usize) -> (r: Result<(), Error>)
        requires
            old(self).wf(),
        ensures
            final(self).wf(),
            final(self).data() == old(self).data(),
            old(self).pos() + n <= 8 * old(self).data().len() ==> r == Ok::<(), Error>(())
                && final(self).pos() == old(self).pos() + n,
            old(self).pos() + n > 8 * old(self).data().len() ==> r == Err::<(), Error>(
                Error::BitStreamExhausted,
            ) && final(self).pos() == old(self).pos(),
    {
        if n > 8 * self.data.len() - self.pos {
            return Err(Error::BitStreamExhausted);
        }
        self.pos = self.pos + n;
        Ok(())
    }

    /// Reads `width` bits as a sequence of bytes: one byte per full group
    /// of eight bits, then, when `width` is not a multiple of eight, a
    /// final byte holding the leftover bits in its low end. Fails with
    /// `BitStreamExhausted`, and moves nothing, when fewer than `width`
    /// bits remain.
    pub fn consume(&mut self, width: usize) -> (r: Result<Vec<u8>, Error>)
        requires
            old(self).wf(),
        ensures
            final(self).wf(),
            final(self).data() == old(self).data(),
            old(self).pos() + width > 8 * old(self).data().len() ==> r == Err::<Vec<u8>, Error>(
                Error::BitStreamExhausted,
            ) && final(self).pos() == old(self).pos(),
            old(self).pos() + width <= 8 * old(self).data().len() ==> final(self).pos() == old(
                self,
            ).pos() + width && (r matches Ok(v) && v@.len() == width / 8 + (
            if width % 8 == 0 {
                0int
            } else {
                1int
            }) && (forall|j: int|
                0 <= j < width / 8 ==> v@[j] == bits_uint(
                    old(self).data(),
                    old(self).pos() + 8 * j,
                    8,
                )) && (width % 8 != 0 ==> v@[width as int / 8] == bits_uint(
                old(self).data(),
                old(self).pos() + 8 * (width / 8),
                (width % 8) as nat,
            ))),
    {
        if width > 8 * self.data.len() - self.pos {
            return Err(Error::BitStreamExhausted);
        }
        let ghost start = self.pos as int;
        let chunks = width / 8;
        let mut result: Vec<u8> = Vec::new();
        let mut j: usize = 0;
        while j < chunks
            invariant
                self.wf(),
                self.data() == old(self).data(),
                j <= chunks,
                chunks == width / 8,
                8 * chunks <= width,
                start + width <= 8 * self.data().len(),
                self.pos() == start + 8 * j,
                result@.len() == j,
                forall|i: int| 0 <= i < j ==> result@[i] == bits_uint(self.data(), start + 8 * i, 8),
            decreases chunks - j,
        {
            proof {
                vstd::arithmetic::div_mod::lemma_fundamental_div_mod(width as int, 8);
                lemma_bits_uint_bound(self.data(), start + 8 * (j as int), 8);
                lemma2_to64();
            }
            let b = match self.read_uint(8) {
                Ok(v) => v,
                Err(_) => {
                    proof {
                        assert(false);
                    }
                    0
                },
            };
            result.push(b as u8);
            j = j + 1;
        }
        let rem = width % 8;
        if rem != 0 {
            proof {
                vstd::arithmetic::div_mod::lemma_fundamental_div_mod(width as int, 8);
                lemma_bits_uint_bound(self.data(), start + 8 * (chunks as int), rem as nat);
                if (rem as nat) < 8 {
                    lemma_pow2_strictly_increases(rem as nat, 8);
                }
                lemma2_to64();
            }
            let b = match self.read_uint(rem) {
                Ok(v) => v,
                Err(_) => {
                    proof {
                        assert(false);
                    }
                    0
                },
            };
            result.push(b as u8);
        }
        proof {
            vstd::arithmetic::div_mod::lemma_fundamental_div_mod(width as int, 8);
        }
        Ok(result)
    }

    /// Reads `n_bytes` whole bytes off the cursor, which need not sit on a
    /// byte boundary. Fails with `BitStreamExhausted`, and moves nothing,
    /// when fewer than `8 * n_bytes` bits remain.
    pub fn read_text(&mut self, n_bytes: usize) -> (r: Result<Vec<u8>, Error>)
        requires
            old(self).wf(),
        ensures
            final(self).wf(),
            final(self).data() == old(self).data(),
            old(self).pos() + 8 * n_bytes > 8 * old(self).data().len() ==> r == Err::<
                Vec<u8>,
                Error,
            >(Error::BitStreamExhausted) && final(self).pos() == old(self).pos(),
            old(self).pos() + 8 * n_bytes <= 8 * old(self).data().len() ==> final(self).pos()
                == old(self).pos() + 8 * n_bytes && (r matches Ok(v) && v@.len() == n_bytes && (
            forall|j: int|
                0 <= j < n_bytes ==> v@[j] == bits_uint(
                    old(self).data(),
                    old(self).pos() + 8 * j,
                    8,
                ))),
    {
        let left = 8 * self.data.len() - self.pos;
        if n_bytes > left / 8 {
            proof {
                vstd::arithmetic::div_mod::lemma_fundamental_div_mod(left as int, 8);
            }
            return Err(Error::BitStreamExhausted);
        }
        proof {
            vstd::arithmetic::div_mod::lemma_fundamental_div_mod(left as int, 8);
        }
        self.consume(8 * n_bytes)
    }

    /// Moves the cursor forward to the next byte boundary; a cursor already
    /// on a boundary stays put.
    pub fn align_to_byte(&mut self)
        requires
            old(self).wf(),
        ensures
            final(self).wf(),
            final(self).data() == old(self).data(),
            final(self).pos() == old(self).pos() + ((8 - (old(self).pos() % 8)) % 8),
            final(self).pos() % 8 == 0 || final(self).pos() == 8 * final(self).data().len(),
    {
        let off = self.pos % 8;
        if off != 0 {
            proof {
                let p = self.pos as int;
                let l = self.data@.len() as int;
                vstd::arithmetic::div_mod::lemma_fundamental_div_mod(p, 8);
                assert(8 * (p / 8) + 8 <= 8 * l);
            }
            self.pos = self.pos + (8 - off);
        }
    }
}

} // verus!
