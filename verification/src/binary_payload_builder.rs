//! Writing numbers one after another into a byte buffer.
use vstd::prelude::*;

verus! {

/// `256` to the power of `n`.
pub open spec fn pow256(n: nat) -> nat
    decreases n,
{
    if n == 0 {
        1
    } else {
        256 * pow256((n - 1) as nat)
    }
}

/// The `n` lowest bytes of a number that is not negative, the least significant first.
pub open spec fn le_bytes(v: int, n: nat) -> Seq<u8> {
    Seq::new(n, |i: int| ((v / pow256(i as nat) as int) % 256) as u8)
}

/// The `n` lowest bytes of a number that is not negative, the most significant first.
pub open spec fn be_bytes(v: int, n: nat) -> Seq<u8> {
    le_bytes(v, n).reverse()
}

/// A buffer that is written into: either a borrowed slice, filled from the front in little
/// endian order, or a vector that grows, filled in big endian order.
pub enum BinaryPayloadBuilder<'s> {
    AsSlice(&'s mut [u8], usize),
    AsVec(Vec<u8>),
}

proof fn lemma_pow256_bound(n: nat)
    ensures
        pow256(n) >= 1,
        n <= 1 ==> pow256(n) <= 0x100,
        n <= 2 ==> pow256(n) <= 0x1_0000,
        n <= 3 ==> pow256(n) <= 0x100_0000,
        n <= 4 ==> pow256(n) <= 0x1_0000_0000,
        n <= 5 ==> pow256(n) <= 0x100_0000_0000,
        n <= 6 ==> pow256(n) <= 0x1_0000_0000_0000,
        n <= 7 ==> pow256(n) <= 0x100_0000_0000_0000,
        pow256(n + 1) == 256 * pow256(n),
    decreases n,
{
    if n > 0 {
        lemma_pow256_bound((n - 1) as nat);
    }
}

proof fn lemma_pow256_values()
    ensures
        pow256(1) == 256,
        pow256(2) == 0x1_0000,
        pow256(4) == 0x1_0000_0000,
        pow256(8) == 0x1_0000_0000_0000_0000,
{
    reveal_with_fuel(pow256, 9);
}

impl<'s> BinaryPayloadBuilder<'s> {
    /// The bytes of the buffer.
    pub open spec fn data(self) -> Seq<u8> {
        if self is AsSlice {
            self->AsSlice_0@
        } else {
            self->AsVec_0@
        }
    }

    /// Where the next byte of a slice goes; the length of a vector.
    pub open spec fn offset(self) -> int {
        if self is AsSlice {
            self->AsSlice_1 as int
        } else {
            self->AsVec_0@.len() as int
        }
    }

    /// `old` with `n` more bytes of `v` written: into a slice at the offset in little endian
    /// order, onto a vector in big endian order.
    pub open spec fn written(old: Self, new: Self, v: int, n: nat) -> bool {
        &&& (new is AsSlice <==> old is AsSlice)
        &&& new.offset() == old.offset() + n
        &&& new.data() == (if old is AsSlice {
            old.data().subrange(0, old.offset()) + le_bytes(v, n) + old.data().subrange(
                old.offset() + n,
                old.data().len() as int,
            )
        } else {
            old.data() + be_bytes(v, n)
        })
    }

    /// There is room for `n` more bytes (a vector always has it).
    pub open spec fn has_room(self, n: nat) -> bool {
        self is AsSlice ==> self.offset() + n <= self.data().len()
    }

    pub fn new_as_slice(data: &'s mut [u8]) -> (r: Self)
        ensures
            r is AsSlice,
            r.offset() == 0,
            r.data() == old(data)@,
    {
        Self::AsSlice(data, 0)
    }

    pub fn new_as_vec() -> (r: Self)
        ensures
            r is AsVec,
            r.data() == Seq::<u8>::empty(),
    {
        Self::AsVec(Vec::new())
    }

    /// Writes the `size` lowest bytes of `value`.
    fn write_bytes(&mut self, value: u64, size: usize)
        requires
            1 <= size <= 8,
            old(self).has_room(size as nat),
            value < pow256(size as nat),
        ensures
            Self::written(*old(self), *final(self), value as int, size as nat),
    {
        let ghost bytes = le_bytes(value as int, size as nat);
        match self {
            BinaryPayloadBuilder::AsSlice(data, offset) => {
                let ghost start = *offset;
                let ghost before = data@;
                let len = data.len();
                let mut i: usize = 0;
                let mut p: u64 = 1;
                while i < size
                    invariant
                        1 <= size <= 8,
                        i <= size,
                        i < size ==> p == pow256(i as nat),
                        *offset == start,
                        start + size <= before.len(),
                        len == before.len(),
                        data@.len() == before.len(),
                        bytes == le_bytes(value as int, size as nat),
                        forall|j: int|
                            0 <= j < data@.len() ==> #[trigger] data@[j] == (if start <= j < start + i {
                                bytes[j - start]
                            } else {
                                before[j]
                            }),
                    decreases size - i,
                {
                    proof {
                        lemma_pow256_bound(i as nat);
                    }
                    data[*offset + i] = ((value / p) % 256) as u8;
                    assert(data@[start + i] == bytes[i as int]);
                    i = i + 1;
                    if i < size {
                        p = p * 256;
                    }
                }
                proof {
                    lemma_pow256_bound(i as nat);
                }
                *offset += size;
                assert(data@ =~= before.subrange(0, start as int) + bytes + before.subrange(
                    start + size,
                    before.len() as int,
                ));
            },
            BinaryPayloadBuilder::AsVec(data) => {
                let ghost before = data@;
                let mut i: usize = 0;
                while i < size
                    invariant
                        1 <= size <= 8,
                        i <= size,
                        bytes == le_bytes(value as int, size as nat),
                        data@ == before + bytes.reverse().subrange(0, i as int),
                    decreases size - i,
                {
                    let mut p: u64 = 1;
                    let mut k: usize = 0;
                    while k < size - 1 - i
                        invariant
                            i < size <= 8,
                            k <= size - 1 - i,
                            p == pow256(k as nat),
                            p >= 1,
                        decreases size - 1 - i - k,
                    {
                        proof {
                            lemma_pow256_bound(k as nat);
                        }
                        p = p * 256;
                        k = k + 1;
                    }
                    assert(bytes.reverse()[i as int] == bytes[size - 1 - i]);
                    data.push(((value / p) % 256) as u8);
                    i = i + 1;
                    assert(data@ =~= before + bytes.reverse().subrange(0, i as int));
                }
                assert(bytes.reverse().subrange(0, size as int) =~= bytes.reverse());
            },
        }
    }

    pub fn write_u8(&mut self, value: u8)
        requires
            old(self).has_room(1),
        ensures
            Self::written(*old(self), *final(self), value as int, 1),
    {
        proof {
            lemma_pow256_values();
        }
        self.write_bytes(value as u64, 1);
    }

    /// Writes the byte with the bits of `value`.
    pub fn write_i8(&mut self, value: i8)
        requires
            old(self).has_room(1),
        ensures
            Self::written(*old(self), *final(self), (value as u8) as int, 1),
    {
        proof {
            lemma_pow256_values();
        }
        self.write_bytes((value as u8) as u64, 1);
    }

    pub fn write_u16(&mut self, value: u16)
        requires
            old(self).has_room(2),
        ensures
            Self::written(*old(self), *final(self), value as int, 2),
    {
        proof {
            lemma_pow256_values();
        }
        self.write_bytes(value as u64, 2);
    }

    /// Writes the bytes of the bits of `value`.
    pub fn write_i16(&mut self, value: i16)
        requires
            old(self).has_room(2),
        ensures
            Self::written(*old(self), *final(self), (value as u16) as int, 2),
    {
        proof {
            lemma_pow256_values();
        }
        self.write_bytes((value as u16) as u64, 2);
    }

    pub fn write_u32(&mut self, value: u32)
        requires
            old(self).has_room(4),
        ensures
            Self::written(*old(self), *final(self), value as int, 4),
    {
        proof {
            lemma_pow256_values();
        }
        self.write_bytes(value as u64, 4);
    }

    /// Writes the bytes of the bits of `value`.
    pub fn write_i32(&mut self, value: i32)
        requires
            old(self).has_room(4),
        ensures
            Self::written(*old(self), *final(self), (value as u32) as int, 4),
    {
        proof {
            lemma_pow256_values();
        }
        self.write_bytes((value as u32) as u64, 4);
    }

    pub fn write_u64(&mut self, value: u64)
        requires
            old(self).has_room(8),
        ensures
            Self::written(*old(self), *final(self), value as int, 8),
    {
        proof {
            lemma_pow256_values();
        }
        self.write_bytes(value, 8);
    }

    /// Writes the bytes of the bits of `value`.
    pub fn write_i64(&mut self, value: i64)
        requires
            old(self).has_room(8),
        ensures
            Self::written(*old(self), *final(self), (value as u64) as int, 8),
    {
        proof {
            lemma_pow256_values();
        }
        self.write_bytes(value as u64, 8);
    }
}

} // verus!
