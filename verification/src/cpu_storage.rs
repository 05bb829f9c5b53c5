//! Tensor data in host memory, and its bytes.

use crate::bytes::{
    capacity, le_value, lemma_capacities, lemma_le_bytes_of_value, lemma_le_value_of_bytes,
    lemma_packed_len, lemma_packed_of_words, lemma_packed_word, packed, push_le, read_le,
};
use crate::dtype::DType;
use crate::error::Error;
use vstd::prelude::*;

verus! {

/// Tensor data in host memory. The elements of the floating-point types are
/// held by their bit patterns; the types packed below one byte are held by
/// their bytes.
#[derive(Clone, Debug)]
pub enum CpuStorage {
    U8(Vec<u8>),
    U32(Vec<u32>),
    I16(Vec<i16>),
    I32(Vec<i32>),
    I64(Vec<i64>),
    BF16(Vec<u16>),
    F16(Vec<u16>),
    F32(Vec<u32>),
    F64(Vec<u64>),
    F8E4M3(Vec<u8>),
    F6E2M3(Vec<u8>),
    F6E3M2(Vec<u8>),
    F4(Vec<u8>),
    F8E8M0(Vec<u8>),
}

/// What a [`CpuStorage`] stands for: a dtype, and its elements as numbers or
/// bit patterns.
#[verifier::ext_equal]
pub struct CpuView {
    pub dtype: DType,
    pub elems: Seq<int>,
}

/// Bytes that one entry of a host storage takes.
pub open spec fn entry_bytes(dtype: DType) -> nat {
    match dtype {
        DType::F6E2M3 | DType::F6E3M2 | DType::F4 => 1,
        _ => dtype.spec_size_in_bytes(),
    }
}

/// Whether entries of this dtype are signed numbers.
pub open spec fn is_signed(dtype: DType) -> bool {
    dtype is I16 || dtype is I32 || dtype is I64
}

/// The bit pattern of an entry, as an unsigned number.
pub open spec fn pattern(dtype: DType, v: int) -> nat {
    if v < 0 {
        (v + capacity(entry_bytes(dtype))) as nat
    } else {
        v as nat
    }
}

/// The entry with the given bit pattern.
pub open spec fn from_pattern(dtype: DType, w: nat) -> int {
    if is_signed(dtype) && 2 * w >= capacity(entry_bytes(dtype)) {
        w - capacity(entry_bytes(dtype))
    } else {
        w as int
    }
}

/// The numbers that an entry of this dtype can be.
pub open spec fn in_range(dtype: DType, v: int) -> bool {
    let c = capacity(entry_bytes(dtype)) as int;
    if is_signed(dtype) {
        -c <= 2 * v < c
    } else {
        0 <= v < c
    }
}

/// Whether a storage of this dtype can be built from bytes.
pub open spec fn readable(dtype: DType) -> bool {
    !(dtype is F6E2M3 || dtype is F6E3M2 || dtype is F4 || dtype is F8E8M0)
}

impl CpuView {
    /// Every element is one that the dtype has.
    pub open spec fn wf(self) -> bool {
        forall|i: int| 0 <= i < self.elems.len() ==> in_range(self.dtype, #[trigger] self.elems[i])
    }

    /// The bit patterns of the elements.
    pub open spec fn patterns(self) -> Seq<nat> {
        self.elems.map_values(|v: int| pattern(self.dtype, v))
    }

    /// The bytes of the elements, one after another, each lowest byte first.
    pub open spec fn bytes(self) -> Seq<u8> {
        packed(self.patterns(), entry_bytes(self.dtype))
    }
}

/// The `len` elements of `dtype` that the byte string `bytes` holds.
pub open spec fn decoded(dtype: DType, len: nat, bytes: Seq<u8>) -> CpuView {
    let width = entry_bytes(dtype);
    CpuView {
        dtype,
        elems: Seq::new(
            len,
            |i: int|
                from_pattern(dtype, le_value(bytes.subrange(i * width, (i + 1) * width))),
        ),
    }
}

impl View for CpuStorage {
    type V = CpuView;

    open spec fn view(&self) -> CpuView {
        match self {
            CpuStorage::U8(v) => CpuView {
                dtype: DType::U8,
                elems: v@.map_values(|x: u8| x as int),
            },
            CpuStorage::U32(v) => CpuView {
                dtype: DType::U32,
                elems: v@.map_values(|x: u32| x as int),
            },
            CpuStorage::I16(v) => CpuView {
                dtype: DType::I16,
                elems: v@.map_values(|x: i16| x as int),
            },
            CpuStorage::I32(v) => CpuView {
                dtype: DType::I32,
                elems: v@.map_values(|x: i32| x as int),
            },
            CpuStorage::I64(v) => CpuView {
                dtype: DType::I64,
                elems: v@.map_values(|x: i64| x as int),
            },
            CpuStorage::BF16(v) => CpuView {
                dtype: DType::BF16,
                elems: v@.map_values(|x: u16| x as int),
            },
            CpuStorage::F16(v) => CpuView {
                dtype: DType::F16,
                elems: v@.map_values(|x: u16| x as int),
            },
            CpuStorage::F32(v) => CpuView {
                dtype: DType::F32,
                elems: v@.map_values(|x: u32| x as int),
            },
            CpuStorage::F64(v) => CpuView {
                dtype: DType::F64,
                elems: v@.map_values(|x: u64| x as int),
            },
            CpuStorage::F8E4M3(v) => CpuView {
                dtype: DType::F8E4M3,
                elems: v@.map_values(|x: u8| x as int),
            },
            CpuStorage::F6E2M3(v) => CpuView {
                dtype: DType::F6E2M3,
                elems: v@.map_values(|x: u8| x as int),
            },
            CpuStorage::F6E3M2(v) => CpuView {
                dtype: DType::F6E3M2,
                elems: v@.map_values(|x: u8| x as int),
            },
            CpuStorage::F4(v) => CpuView {
                dtype: DType::F4,
                elems: v@.map_values(|x: u8| x as int),
            },
            CpuStorage::F8E8M0(v) => CpuView {
                dtype: DType::F8E8M0,
                elems: v@.map_values(|x: u8| x as int),
            },
        }
    }
}

/// The bytes of `v`, 1 to an entry.
fn pack_u8(v: &Vec<u8>) -> (r: Vec<u8>)
    ensures
        r@ == packed(v@.map_values(|x: u8| x as nat), 1),
{
    let ghost all = v@.map_values(|x: u8| x as nat);
    let mut out: Vec<u8> = Vec::new();
    let mut i: usize = 0;
    while i < v.len()
        invariant
            0 <= i <= v@.len(),
            all == v@.map_values(|x: u8| x as nat),
            out@ == packed(all.take(i as int), 1),
        decreases v.len() - i,
    {
        proof {
            lemma_capacities();
            assert(all.take(i + 1).drop_last() =~= all.take(i as int));
        }
        push_le(&mut out, v[i] as u64, 1);
        i = i + 1;
    }
    proof {
        assert(all.take(i as int) =~= all);
    }
    out
}

/// The bytes of `v`, 2 to an entry.
fn pack_u16(v: &Vec<u16>) -> (r: Vec<u8>)
    ensures
        r@ == packed(v@.map_values(|x: u16| x as nat), 2),
{
    let ghost all = v@.map_values(|x: u16| x as nat);
    let mut out: Vec<u8> = Vec::new();
    let mut i: usize = 0;
    while i < v.len()
        invariant
            0 <= i <= v@.len(),
            all == v@.map_values(|x: u16| x as nat),
            out@ == packed(all.take(i as int), 2),
        decreases v.len() - i,
    {
        proof {
            lemma_capacities();
            assert(all.take(i + 1).drop_last() =~= all.take(i as int));
        }
        push_le(&mut out, v[i] as u64, 2);
        i = i + 1;
    }
    proof {
        assert(all.take(i as int) =~= all);
    }
    out
}

/// The bytes of `v`, 4 to an entry.
fn pack_u32(v: &Vec<u32>) -> (r: Vec<u8>)
    ensures
        r@ == packed(v@.map_values(|x: u32| x as nat), 4),
{
    let ghost all = v@.map_values(|x: u32| x as nat);
    let mut out: Vec<u8> = Vec::new();
    let mut i: usize = 0;
    while i < v.len()
        invariant
            0 <= i <= v@.len(),
            all == v@.map_values(|x: u32| x as nat),
            out@ == packed(all.take(i as int), 4),
        decreases v.len() - i,
    {
        proof {
            lemma_capacities();
            assert(all.take(i + 1).drop_last() =~= all.take(i as int));
        }
        push_le(&mut out, v[i] as u64, 4);
        i = i + 1;
    }
    proof {
        assert(all.take(i as int) =~= all);
    }
    out
}

/// The bytes of `v`, 8 to an entry.
fn pack_u64(v: &Vec<u64>) -> (r: Vec<u8>)
    ensures
        r@ == packed(v@.map_values(|x: u64| x as nat), 8),
{
    let ghost all = v@.map_values(|x: u64| x as nat);
    let mut out: Vec<u8> = Vec::new();
    let mut i: usize = 0;
    while i < v.len()
        invariant
            0 <= i <= v@.len(),
            all == v@.map_values(|x: u64| x as nat),
            out@ == packed(all.take(i as int), 8),
        decreases v.len() - i,
    {
        proof {
            lemma_capacities();
            assert(all.take(i + 1).drop_last() =~= all.take(i as int));
        }
        push_le(&mut out, v[i] as u64, 8);
        i = i + 1;
    }
    proof {
        assert(all.take(i as int) =~= all);
    }
    out
}

/// The bytes of `v`, 2 to an entry.
fn pack_i16(v: &Vec<i16>) -> (r: Vec<u8>)
    ensures
        r@ == packed(v@.map_values(|x: i16| pattern(DType::I16, x as int)), 2),
{
    let ghost all = v@.map_values(|x: i16| pattern(DType::I16, x as int));
    let mut out: Vec<u8> = Vec::new();
    let mut i: usize = 0;
    while i < v.len()
        invariant
            0 <= i <= v@.len(),
            all == v@.map_values(|x: i16| pattern(DType::I16, x as int)),
            out@ == packed(all.take(i as int), 2),
        decreases v.len() - i,
    {
        proof {
            lemma_capacities();
            assert(all.take(i + 1).drop_last() =~= all.take(i as int));
        }
        let x: i16 = v[i];
        let word: u64 = if x < 0 {
            (x as i32 + 0x1_0000) as u64
        } else {
            x as u64
        };
        push_le(&mut out, word, 2);
        i = i + 1;
    }
    proof {
        assert(all.take(i as int) =~= all);
    }
    out
}

/// The bytes of `v`, 4 to an entry.
fn pack_i32(v: &Vec<i32>) -> (r: Vec<u8>)
    ensures
        r@ == packed(v@.map_values(|x: i32| pattern(DType::I32, x as int)), 4),
{
    let ghost all = v@.map_values(|x: i32| pattern(DType::I32, x as int));
    let mut out: Vec<u8> = Vec::new();
    let mut i: usize = 0;
    while i < v.len()
        invariant
            0 <= i <= v@.len(),
            all == v@.map_values(|x: i32| pattern(DType::I32, x as int)),
            out@ == packed(all.take(i as int), 4),
        decreases v.len() - i,
    {
        proof {
            lemma_capacities();
            assert(all.take(i + 1).drop_last() =~= all.take(i as int));
        }
        let x: i32 = v[i];
        let word: u64 = if x < 0 {
            (x as i64 + 0x1_0000_0000) as u64
        } else {
            x as u64
        };
        push_le(&mut out, word, 4);
        i = i + 1;
    }
    proof {
        assert(all.take(i as int) =~= all);
    }
    out
}

/// The bytes of `v`, 8 to an entry.
fn pack_i64(v: &Vec<i64>) -> (r: Vec<u8>)
    ensures
        r@ == packed(v@.map_values(|x: i64| pattern(DType::I64, x as int)), 8),
{
    let ghost all = v@.map_values(|x: i64| pattern(DType::I64, x as int));
    let mut out: Vec<u8> = Vec::new();
    let mut i: usize = 0;
    while i < v.len()
        invariant
            0 <= i <= v@.len(),
            all == v@.map_values(|x: i64| pattern(DType::I64, x as int)),
            out@ == packed(all.take(i as int), 8),
        decreases v.len() - i,
    {
        proof {
            lemma_capacities();
            assert(all.take(i + 1).drop_last() =~= all.take(i as int));
        }
        let x: i64 = v[i];
        let word: u64 = if x < 0 {
            (x as i128 + 0x1_0000_0000_0000_0000) as u64
        } else {
            x as u64
        };
        push_le(&mut out, word, 8);
        i = i + 1;
    }
    proof {
        assert(all.take(i as int) =~= all);
    }
    out
}

/// The `len` entries of 1 bytes at the front of `bytes`.
fn unpack_u8(bytes: &[u8], len: usize) -> (r: Vec<u8>)
    requires
        len * 1 <= bytes@.len(),
    ensures
        r@.len() == len,
        forall|j: int|
            0 <= j < len ==> #[trigger] r@[j] == le_value(bytes@.subrange(j * 1, (j + 1) * 1)),
{
    let total: usize = bytes.len();
    let mut out: Vec<u8> = Vec::new();
    let mut i: usize = 0;
    while i < len
        invariant
            0 <= i <= len,
            len * 1 <= total,
            total == bytes@.len(),
            out@.len() == i,
            forall|j: int|
                0 <= j < i ==> #[trigger] out@[j] == le_value(bytes@.subrange(j * 1, (j + 1) * 1)),
        decreases len - i,
    {
        let word: u64 = read_le(bytes, i * 1, 1);
        proof {
            let here = bytes@.subrange(i * 1, i * 1 + 1);
            assert(here =~= bytes@.subrange(i * 1, (i + 1) * 1));
            lemma_le_bytes_of_value(here);
            lemma_capacities();
        }
        out.push(word as u8);
        i = i + 1;
    }
    out
}

/// The `len` entries of 2 bytes at the front of `bytes`.
fn unpack_u16(bytes: &[u8], len: usize) -> (r: Vec<u16>)
    requires
        len * 2 <= bytes@.len(),
    ensures
        r@.len() == len,
        forall|j: int|
            0 <= j < len ==> #[trigger] r@[j] == le_value(bytes@.subrange(j * 2, (j + 1) * 2)),
{
    let total: usize = bytes.len();
    let mut out: Vec<u16> = Vec::new();
    let mut i: usize = 0;
    while i < len
        invariant
            0 <= i <= len,
            len * 2 <= total,
            total == bytes@.len(),
            out@.len() == i,
            forall|j: int|
                0 <= j < i ==> #[trigger] out@[j] == le_value(bytes@.subrange(j * 2, (j + 1) * 2)),
        decreases len - i,
    {
        let word: u64 = read_le(bytes, i * 2, 2);
        proof {
            let here = bytes@.subrange(i * 2, i * 2 + 2);
            assert(here =~= bytes@.subrange(i * 2, (i + 1) * 2));
            lemma_le_bytes_of_value(here);
            lemma_capacities();
        }
        out.push(word as u16);
        i = i + 1;
    }
    out
}

/// The `len` entries of 4 bytes at the front of `bytes`.
fn unpack_u32(bytes: &[u8], len: usize) -> (r: Vec<u32>)
    requires
        len * 4 <= bytes@.len(),
    ensures
        r@.len() == len,
        forall|j: int|
            0 <= j < len ==> #[trigger] r@[j] == le_value(bytes@.subrange(j * 4, (j + 1) * 4)),
{
    let total: usize = bytes.len();
    let mut out: Vec<u32> = Vec::new();
    let mut i: usize = 0;
    while i < len
        invariant
            0 <= i <= len,
            len * 4 <= total,
            total == bytes@.len(),
            out@.len() == i,
            forall|j: int|
                0 <= j < i ==> #[trigger] out@[j] == le_value(bytes@.subrange(j * 4, (j + 1) * 4)),
        decreases len - i,
    {
        let word: u64 = read_le(bytes, i * 4, 4);
        proof {
            let here = bytes@.subrange(i * 4, i * 4 + 4);
            assert(here =~= bytes@.subrange(i * 4, (i + 1) * 4));
            lemma_le_bytes_of_value(here);
            lemma_capacities();
        }
        out.push(word as u32);
        i = i + 1;
    }
    out
}

/// The `len` entries of 8 bytes at the front of `bytes`.
fn unpack_u64(bytes: &[u8], len: usize) -> (r: Vec<u64>)
    requires
        len * 8 <= bytes@.len(),
    ensures
        r@.len() == len,
        forall|j: int|
            0 <= j < len ==> #[trigger] r@[j] == le_value(bytes@.subrange(j * 8, (j + 1) * 8)),
{
    let total: usize = bytes.len();
    let mut out: Vec<u64> = Vec::new();
    let mut i: usize = 0;
    while i < len
        invariant
            0 <= i <= len,
            len * 8 <= total,
            total == bytes@.len(),
            out@.len() == i,
            forall|j: int|
                0 <= j < i ==> #[trigger] out@[j] == le_value(bytes@.subrange(j * 8, (j + 1) * 8)),
        decreases len - i,
    {
        let word: u64 = read_le(bytes, i * 8, 8);
        proof {
            let here = bytes@.subrange(i * 8, i * 8 + 8);
            assert(here =~= bytes@.subrange(i * 8, (i + 1) * 8));
            lemma_le_bytes_of_value(here);
            lemma_capacities();
        }
        out.push(word as u64);
        i = i + 1;
    }
    out
}

/// The `len` entries of 2 bytes at the front of `bytes`.
fn unpack_i16(bytes: &[u8], len: usize) -> (r: Vec<i16>)
    requires
        len * 2 <= bytes@.len(),
    ensures
        r@.len() == len,
        forall|j: int|
            0 <= j < len ==> #[trigger] r@[j] == from_pattern(
                DType::I16,
                le_value(bytes@.subrange(j * 2, (j + 1) * 2)),
            ),
{
    let total: usize = bytes.len();
    let mut out: Vec<i16> = Vec::new();
    let mut i: usize = 0;
    while i < len
        invariant
            0 <= i <= len,
            len * 2 <= total,
            total == bytes@.len(),
            out@.len() == i,
            forall|j: int|
                0 <= j < i ==> #[trigger] out@[j] == from_pattern(
                DType::I16,
                le_value(bytes@.subrange(j * 2, (j + 1) * 2)),
            ),
        decreases len - i,
    {
        let word: u64 = read_le(bytes, i * 2, 2);
        proof {
            let here = bytes@.subrange(i * 2, i * 2 + 2);
            assert(here =~= bytes@.subrange(i * 2, (i + 1) * 2));
            lemma_le_bytes_of_value(here);
            lemma_capacities();
        }
        let x: i16 = if word >= 0x8000 {
            (word as i128 - 0x1_0000) as i16
        } else {
            word as i16
        };
        out.push(x);
        i = i + 1;
    }
    out
}

/// The `len` entries of 4 bytes at the front of `bytes`.
fn unpack_i32(bytes: &[u8], len: usize) -> (r: Vec<i32>)
    requires
        len * 4 <= bytes@.len(),
    ensures
        r@.len() == len,
        forall|j: int|
            0 <= j < len ==> #[trigger] r@[j] == from_pattern(
                DType::I32,
                le_value(bytes@.subrange(j * 4, (j + 1) * 4)),
            ),
{
    let total: usize = bytes.len();
    let mut out: Vec<i32> = Vec::new();
    let mut i: usize = 0;
    while i < len
        invariant
            0 <= i <= len,
            len * 4 <= total,
            total == bytes@.len(),
            out@.len() == i,
            forall|j: int|
                0 <= j < i ==> #[trigger] out@[j] == from_pattern(
                DType::I32,
                le_value(bytes@.subrange(j * 4, (j + 1) * 4)),
            ),
        decreases len - i,
    {
        let word: u64 = read_le(bytes, i * 4, 4);
        proof {
            let here = bytes@.subrange(i * 4, i * 4 + 4);
            assert(here =~= bytes@.subrange(i * 4, (i + 1) * 4));
            lemma_le_bytes_of_value(here);
            lemma_capacities();
        }
        let x: i32 = if word >= 0x8000_0000 {
            (word as i128 - 0x1_0000_0000) as i32
        } else {
            word as i32
        };
        out.push(x);
        i = i + 1;
    }
    out
}

/// The `len` entries of 8 bytes at the front of `bytes`.
fn unpack_i64(bytes: &[u8], len: usize) -> (r: Vec<i64>)
    requires
        len * 8 <= bytes@.len(),
    ensures
        r@.len() == len,
        forall|j: int|
            0 <= j < len ==> #[trigger] r@[j] == from_pattern(
                DType::I64,
                le_value(bytes@.subrange(j * 8, (j + 1) * 8)),
            ),
{
    let total: usize = bytes.len();
    let mut out: Vec<i64> = Vec::new();
    let mut i: usize = 0;
    while i < len
        invariant
            0 <= i <= len,
            len * 8 <= total,
            total == bytes@.len(),
            out@.len() == i,
            forall|j: int|
                0 <= j < i ==> #[trigger] out@[j] == from_pattern(
                DType::I64,
                le_value(bytes@.subrange(j * 8, (j + 1) * 8)),
            ),
        decreases len - i,
    {
        let word: u64 = read_le(bytes, i * 8, 8);
        proof {
            let here = bytes@.subrange(i * 8, i * 8 + 8);
            assert(here =~= bytes@.subrange(i * 8, (i + 1) * 8));
            lemma_le_bytes_of_value(here);
            lemma_capacities();
        }
        let x: i64 = if word >= 0x8000_0000_0000_0000 {
            (word as i128 - 0x1_0000_0000_0000_0000) as i64
        } else {
            word as i64
        };
        out.push(x);
        i = i + 1;
    }
    out
}

/// The bytes of `cpu`, as an upload carries them.
pub fn cpu_storage_bytes(cpu: &CpuStorage) -> (r: Vec<u8>)
    ensures
        r@ == cpu@.bytes(),
{
    match cpu {
        CpuStorage::U8(v) => {
            proof {
                assert(cpu@.patterns() =~= v@.map_values(|x: u8| x as nat));
            }
            pack_u8(v)
        },
        CpuStorage::U32(v) => {
            proof {
                assert(cpu@.patterns() =~= v@.map_values(|x: u32| x as nat));
            }
            pack_u32(v)
        },
        CpuStorage::I16(v) => {
            proof {
                assert(cpu@.patterns() =~= v@.map_values(|x: i16| pattern(DType::I16, x as int)));
            }
            pack_i16(v)
        },
        CpuStorage::I32(v) => {
            proof {
                assert(cpu@.patterns() =~= v@.map_values(|x: i32| pattern(DType::I32, x as int)));
            }
            pack_i32(v)
        },
        CpuStorage::I64(v) => {
            proof {
                assert(cpu@.patterns() =~= v@.map_values(|x: i64| pattern(DType::I64, x as int)));
            }
            pack_i64(v)
        },
        CpuStorage::BF16(v) => {
            proof {
                assert(cpu@.patterns() =~= v@.map_values(|x: u16| x as nat));
            }
            pack_u16(v)
        },
        CpuStorage::F16(v) => {
            proof {
                assert(cpu@.patterns() =~= v@.map_values(|x: u16| x as nat));
            }
            pack_u16(v)
        },
        CpuStorage::F32(v) => {
            proof {
                assert(cpu@.patterns() =~= v@.map_values(|x: u32| x as nat));
            }
            pack_u32(v)
        },
        CpuStorage::F64(v) => {
            proof {
                assert(cpu@.patterns() =~= v@.map_values(|x: u64| x as nat));
            }
            pack_u64(v)
        },
        CpuStorage::F8E4M3(v) => {
            proof {
                assert(cpu@.patterns() =~= v@.map_values(|x: u8| x as nat));
            }
            pack_u8(v)
        },
        CpuStorage::F6E2M3(v) => {
            proof {
                assert(cpu@.patterns() =~= v@.map_values(|x: u8| x as nat));
            }
            pack_u8(v)
        },
        CpuStorage::F6E3M2(v) => {
            proof {
                assert(cpu@.patterns() =~= v@.map_values(|x: u8| x as nat));
            }
            pack_u8(v)
        },
        CpuStorage::F4(v) => {
            proof {
                assert(cpu@.patterns() =~= v@.map_values(|x: u8| x as nat));
            }
            pack_u8(v)
        },
        CpuStorage::F8E8M0(v) => {
            proof {
                assert(cpu@.patterns() =~= v@.map_values(|x: u8| x as nat));
            }
            pack_u8(v)
        },
    }
}

/// The storage of `len` elements of `dtype` at the front of `bytes`.
pub fn cpu_storage_from_bytes(dtype: DType, len: usize, bytes: &[u8]) -> (r: Result<CpuStorage, Error>)
    requires
        readable(dtype) ==> len * dtype.spec_size_in_bytes() <= bytes@.len(),
    ensures
        match r {
            Ok(cpu) => readable(dtype) && cpu@ == decoded(dtype, len as nat, bytes@),
            Err(e) => !readable(dtype) && e == (Error::ReadbackUnsupported { dtype }),
        },
{
    let r: CpuStorage = match dtype {
        DType::U8 => CpuStorage::U8(unpack_u8(bytes, len)),
        DType::U32 => CpuStorage::U32(unpack_u32(bytes, len)),
        DType::I16 => CpuStorage::I16(unpack_i16(bytes, len)),
        DType::I32 => CpuStorage::I32(unpack_i32(bytes, len)),
        DType::I64 => CpuStorage::I64(unpack_i64(bytes, len)),
        DType::BF16 => CpuStorage::BF16(unpack_u16(bytes, len)),
        DType::F16 => CpuStorage::F16(unpack_u16(bytes, len)),
        DType::F32 => CpuStorage::F32(unpack_u32(bytes, len)),
        DType::F64 => CpuStorage::F64(unpack_u64(bytes, len)),
        DType::F8E4M3 => CpuStorage::F8E4M3(unpack_u8(bytes, len)),
        DType::F6E2M3 | DType::F6E3M2 | DType::F4 | DType::F8E8M0 => {
            return Err(Error::ReadbackUnsupported { dtype });
        },
    };
    proof {
        assert(r@.elems =~= decoded(dtype, len as nat, bytes@).elems);
    }
    Ok(r)
}

impl CpuStorage {
    /// The element type.
    pub fn dtype(&self) -> (r: DType)
        ensures
            r == self@.dtype,
    {
        match self {
            CpuStorage::U8(_) => DType::U8,
            CpuStorage::U32(_) => DType::U32,
            CpuStorage::I16(_) => DType::I16,
            CpuStorage::I32(_) => DType::I32,
            CpuStorage::I64(_) => DType::I64,
            CpuStorage::BF16(_) => DType::BF16,
            CpuStorage::F16(_) => DType::F16,
            CpuStorage::F32(_) => DType::F32,
            CpuStorage::F64(_) => DType::F64,
            CpuStorage::F8E4M3(_) => DType::F8E4M3,
            CpuStorage::F6E2M3(_) => DType::F6E2M3,
            CpuStorage::F6E3M2(_) => DType::F6E3M2,
            CpuStorage::F4(_) => DType::F4,
            CpuStorage::F8E8M0(_) => DType::F8E8M0,
        }
    }

    /// The number of entries.
    pub fn len(&self) -> (r: usize)
        ensures
            r == self@.elems.len(),
    {
        match self {
            CpuStorage::U8(v) => v.len(),
            CpuStorage::U32(v) => v.len(),
            CpuStorage::I16(v) => v.len(),
            CpuStorage::I32(v) => v.len(),
            CpuStorage::I64(v) => v.len(),
            CpuStorage::BF16(v) => v.len(),
            CpuStorage::F16(v) => v.len(),
            CpuStorage::F32(v) => v.len(),
            CpuStorage::F64(v) => v.len(),
            CpuStorage::F8E4M3(v) => v.len(),
            CpuStorage::F6E2M3(v) => v.len(),
            CpuStorage::F6E3M2(v) => v.len(),
            CpuStorage::F4(v) => v.len(),
            CpuStorage::F8E8M0(v) => v.len(),
        }
    }
}

/// The entries of a storage are ones that its dtype has.
pub proof fn lemma_storage_in_range(cpu: CpuStorage)
    ensures
        cpu@.wf(),
{
    lemma_capacities();
}

/// An entry is the one that its bit pattern stands for.
pub proof fn lemma_pattern_round_trip(dtype: DType, v: int)
    requires
        in_range(dtype, v),
    ensures
        from_pattern(dtype, pattern(dtype, v)) == v,
        pattern(dtype, v) < capacity(entry_bytes(dtype)),
{
}

/// Reading back the bytes of a storage, whatever padding follows them,
/// gives the storage's own elements.
pub proof fn law_bytes_round_trip(cpu: CpuView, padding: Seq<u8>)
    requires
        cpu.wf(),
    ensures
        decoded(cpu.dtype, cpu.elems.len(), cpu.bytes() + padding) == cpu,
        cpu.bytes().len() == cpu.elems.len() * entry_bytes(cpu.dtype),
{
    let width = entry_bytes(cpu.dtype);
    let whole = cpu.bytes() + padding;
    lemma_packed_len(cpu.patterns(), width);
    assert forall|i: int| 0 <= i < cpu.elems.len() implies #[trigger] decoded(
        cpu.dtype,
        cpu.elems.len(),
        whole,
    ).elems[i] == cpu.elems[i] by {
        lemma_packed_word(cpu.patterns(), width, i);
        assert(whole.subrange(i * width, (i + 1) * width) =~= cpu.bytes().subrange(
            i * width,
            (i + 1) * width,
        ));
        lemma_pattern_round_trip(cpu.dtype, cpu.elems[i]);
        lemma_le_value_of_bytes(cpu.patterns()[i], width);
    }
    assert(decoded(cpu.dtype, cpu.elems.len(), whole) =~= cpu);
}

/// Writing out what was read from a byte string gives the byte string back.
pub proof fn law_decode_round_trip(dtype: DType, len: nat, bytes: Seq<u8>)
    requires
        bytes.len() == len * entry_bytes(dtype),
    ensures
        decoded(dtype, len, bytes).wf(),
        decoded(dtype, len, bytes).bytes() == bytes,
{
    let width = entry_bytes(dtype);
    let cpu = decoded(dtype, len, bytes);
    lemma_capacities();
    assert forall|i: int| 0 <= i < len implies in_range(dtype, #[trigger] cpu.elems[i])
        && cpu.patterns()[i] == le_value(bytes.subrange(i * width, (i + 1) * width)) by {
        assert(0 <= i * width <= (i + 1) * width <= len * width) by (nonlinear_arith)
            requires
                0 <= i < len,
        ;
        assert((i + 1) * width - i * width == width) by (nonlinear_arith);
        lemma_le_bytes_of_value(bytes.subrange(i * width, (i + 1) * width));
    }
    lemma_packed_of_words(bytes, cpu.patterns(), width);
}

} // verus!
