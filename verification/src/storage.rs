//! Tensor storage in GPU buffers: sizes, uploads, read-backs and clones.
//!
//! A storage owns one buffer, which holds `len` elements of `dtype`. The
//! buffer's size is that of the elements rounded up to the alignment of copy
//! commands; the padding is never read.

use crate::cpu_storage::{
    cpu_storage_bytes, cpu_storage_from_bytes, decoded, entry_bytes, law_bytes_round_trip,
    lemma_storage_in_range, readable, CpuStorage, CpuView,
};
use crate::device::WgpuDevice;
use crate::dtype::DType;
use crate::error::{Error, Missing};
use crate::layout::{countable, elem_count, product, Layout};
use vstd::prelude::*;

verus! {

/// Offsets and sizes of copy commands are multiples of this many bytes.
pub const COPY_BUFFER_ALIGNMENT: u64 = 4;

/// What a buffer may be used for.
#[derive(Clone, Copy, Debug, PartialEq, Eq, Structural)]
pub struct BufferUsages {
    pub storage: bool,
    pub uniform: bool,
    pub copy_src: bool,
    pub copy_dst: bool,
    pub map_read: bool,
}

/// Usage of the buffers behind tensors: kernels bind them, and copies read
/// and write them.
pub open spec fn tensor_usage() -> BufferUsages {
    BufferUsages { storage: true, uniform: false, copy_src: true, copy_dst: true, map_read: false }
}

/// Usage of the buffers that read-backs land in.
pub open spec fn staging_usage() -> BufferUsages {
    BufferUsages { storage: false, uniform: false, copy_src: false, copy_dst: true, map_read: true }
}

fn tensor_usage_flags() -> (r: BufferUsages)
    ensures
        r == tensor_usage(),
{
    BufferUsages { storage: true, uniform: false, copy_src: true, copy_dst: true, map_read: false }
}

/// A buffer: how it is created, and those of its bytes that the host knows.
/// A buffer that is mapped when it is created starts with `bytes`; one that a
/// kernel or a copy fills has no bytes here until they are read back.
#[derive(Clone, Debug)]
pub struct Buffer {
    pub label: &'static str,
    pub size: u64,
    pub usage: BufferUsages,
    pub mapped_at_creation: bool,
    pub bytes: Vec<u8>,
}

/// What a [`Buffer`] stands for.
#[verifier::ext_equal]
pub struct BufferView {
    pub label: Seq<char>,
    pub size: nat,
    pub usage: BufferUsages,
    pub mapped_at_creation: bool,
    pub bytes: Seq<u8>,
}

impl View for Buffer {
    type V = BufferView;

    open spec fn view(&self) -> BufferView {
        BufferView {
            label: self.label@,
            size: self.size as nat,
            usage: self.usage,
            mapped_at_creation: self.mapped_at_creation,
            bytes: self.bytes@,
        }
    }
}

/// A copy command between two buffers, in bytes.
#[derive(Clone, Copy, Debug, PartialEq, Eq, Structural)]
pub struct BufferCopy {
    pub src_offset: u64,
    pub dst_offset: u64,
    pub size: u64,
}

/// Tensor elements in a GPU buffer.
#[derive(Clone, Debug)]
pub struct WgpuStorage {
    pub buffer: Buffer,
    /// Number of elements.
    pub len: usize,
    pub dtype: DType,
    pub device: WgpuDevice,
}

/// What a [`WgpuStorage`] stands for.
#[verifier::ext_equal]
pub struct StorageView {
    pub buffer: BufferView,
    pub len: nat,
    pub dtype: DType,
    pub device: WgpuDevice,
}

impl View for WgpuStorage {
    type V = StorageView;

    open spec fn view(&self) -> StorageView {
        StorageView {
            buffer: self.buffer@,
            len: self.len as nat,
            dtype: self.dtype,
            device: self.device,
        }
    }
}

/// `n` rounded up to the copy alignment.
pub open spec fn round_up(n: nat) -> nat {
    ((n + 3) / 4) * 4
}

/// Size of the buffer for a payload of `payload` bytes: aligned, and never
/// empty.
pub open spec fn buffer_size(payload: nat) -> nat {
    round_up(if payload < 4 {
        4
    } else {
        payload
    })
}

/// `payload` followed by the zeros that fill its buffer.
pub open spec fn padded(payload: Seq<u8>) -> Seq<u8> {
    payload + zeros((buffer_size(payload.len()) - payload.len()) as nat)
}

/// `n` zero bytes.
pub open spec fn zeros(n: nat) -> Seq<u8> {
    Seq::new(n, |i: int| 0u8)
}

/// The smallest multiple of the copy alignment that is at least `n`.
pub fn aligned_size(n: u64) -> (r: u64)
    requires
        n <= u64::MAX - 3,
    ensures
        r == round_up(n as nat),
        r % COPY_BUFFER_ALIGNMENT == 0,
        n <= r < n + COPY_BUFFER_ALIGNMENT,
{
    ((n + (COPY_BUFFER_ALIGNMENT - 1)) / COPY_BUFFER_ALIGNMENT) * COPY_BUFFER_ALIGNMENT
}

/// Size of the buffer for a payload of `payload` bytes.
fn payload_buffer_size(payload: u64) -> (r: u64)
    requires
        payload <= u64::MAX - 3,
    ensures
        r == buffer_size(payload as nat),
        r >= payload,
{
    if payload < COPY_BUFFER_ALIGNMENT {
        aligned_size(COPY_BUFFER_ALIGNMENT)
    } else {
        aligned_size(payload)
    }
}

/// A buffer is a multiple of the copy alignment, never empty, holds its
/// payload, and wastes less than one alignment unit on it.
pub proof fn law_buffer_size(payload: nat)
    ensures
        buffer_size(payload) % 4 == 0,
        buffer_size(payload) >= 4,
        buffer_size(payload) >= payload,
        payload >= 4 ==> buffer_size(payload) < payload + 4,
        payload < 4 ==> buffer_size(payload) == 4,
{
}

impl WgpuStorage {
    /// The refusal of an entry point that is not carried out.
    pub fn not_implemented(entry: Missing) -> (r: Result<WgpuStorage, Error>)
        ensures
            r == Err::<WgpuStorage, Error>(Error::NotImplemented { entry }),
    {
        Err(Error::NotImplemented { entry })
    }

    /// A storage for a tensor of the given shape whose elements are all zero
    /// bits.
    pub fn alloc_zeros(device: WgpuDevice, dtype: DType, shape: &[usize]) -> (r: Result<
        WgpuStorage,
        Error,
    >)
        requires
            countable(shape@),
            buffer_size(product(shape@) * dtype.spec_size_in_bytes()) <= usize::MAX,
        ensures
            match r {
                Ok(s) => dtype.spec_size_in_bytes() > 0 && s@ == zeroed(device, dtype, shape@),
                Err(e) => dtype.spec_size_in_bytes() == 0 && e == (Error::AllocSubByte { dtype }),
            },
    {
        let len: usize = elem_count(shape);
        let elem_bytes: usize = dtype.size_in_bytes();
        if elem_bytes == 0 {
            return Err(Error::AllocSubByte { dtype });
        }
        proof {
            law_buffer_size((len * elem_bytes) as nat);
        }
        let raw_size: u64 = (len * elem_bytes) as u64;
        let size: u64 = payload_buffer_size(raw_size);
        let bytes: Vec<u8> = vec![0u8; size as usize];
        let r = WgpuStorage {
            buffer: Buffer {
                label: "wgpu-storage-zeros",
                size,
                usage: tensor_usage_flags(),
                mapped_at_creation: true,
                bytes,
            },
            len,
            dtype,
            device,
        };
        proof {
            assert(r@ =~= zeroed(device, dtype, shape@));
        }
        Ok(r)
    }

    /// A storage that holds the elements of `cpu`.
    pub fn from_cpu_storage(device: WgpuDevice, cpu: &CpuStorage) -> (r: Result<WgpuStorage, Error>)
        requires
            buffer_size(cpu@.bytes().len()) <= usize::MAX,
        ensures
            r is Ok,
            r->Ok_0@ == uploaded(device, cpu@),
    {
        let dtype: DType = cpu.dtype();
        let len: usize = cpu.len();
        let mut bytes: Vec<u8> = cpu_storage_bytes(cpu);
        let raw_size: u64 = bytes.len() as u64;
        proof {
            law_buffer_size(raw_size as nat);
        }
        let size: u64 = payload_buffer_size(raw_size);
        while bytes.len() < size as usize
            invariant
                size == buffer_size(cpu@.bytes().len()),
                size <= usize::MAX,
                cpu@.bytes().len() <= bytes@.len() <= size,
                bytes@ == cpu@.bytes() + zeros((bytes@.len() - cpu@.bytes().len()) as nat),
            decreases size - bytes@.len(),
        {
            let ghost before = bytes@;
            bytes.push(0u8);
            proof {
                let k = (before.len() - cpu@.bytes().len()) as nat;
                assert(zeros(k).push(0u8) =~= zeros(k + 1));
                assert(bytes@ =~= cpu@.bytes() + zeros(k + 1));
            }
        }
        let r = WgpuStorage {
            buffer: Buffer {
                label: "wgpu-storage-upload",
                size,
                usage: tensor_usage_flags(),
                mapped_at_creation: true,
                bytes,
            },
            len,
            dtype,
            device,
        };
        proof {
            assert(r@ =~= uploaded(device, cpu@));
        }
        Ok(r)
    }

    /// A storage over an existing buffer, taken to hold `len` elements of
    /// `dtype`.
    pub fn from_raw_buffer(buffer: Buffer, len: usize, dtype: DType, device: WgpuDevice) -> (r:
        WgpuStorage)
        ensures
            r == (WgpuStorage { buffer, len, dtype, device }),
    {
        WgpuStorage { buffer, len, dtype, device }
    }

    /// The buffer that a read-back copies the storage into: it starts with
    /// the first `size` bytes of the storage's own.
    pub fn staging(&self) -> (r: Result<Buffer, Error>)
        requires
            self.len * self.dtype.spec_size_in_bytes() <= usize::MAX,
            self.len * self.dtype.spec_size_in_bytes() <= u64::MAX - 3,
        ensures
            match r {
                Ok(b) => self.dtype.spec_size_in_bytes() > 0 && b@ == staging_view(self@),
                Err(e) => self.dtype.spec_size_in_bytes() == 0 && e == (Error::ReadbackSubByte {
                    dtype: self.dtype,
                }),
            },
    {
        let elem_bytes: usize = self.dtype.size_in_bytes();
        if elem_bytes == 0 {
            return Err(Error::ReadbackSubByte { dtype: self.dtype });
        }
        let payload: u64 = (self.len * elem_bytes) as u64;
        let r = Buffer {
            label: "wgpu-storage-readback-staging",
            size: payload_buffer_size(payload),
            usage: BufferUsages {
                storage: false,
                uniform: false,
                copy_src: false,
                copy_dst: true,
                map_read: true,
            },
            mapped_at_creation: false,
            bytes: Vec::new(),
        };
        proof {
            assert(r@ =~= staging_view(self@));
        }
        Ok(r)
    }

    /// The elements of the storage, taken from the bytes of its buffer. The
    /// bytes must reach as far as the staging buffer does.
    pub fn read_to_cpu(&self) -> (r: Result<CpuStorage, Error>)
        requires
            self.dtype.spec_size_in_bytes() > 0 ==> buffer_size(
                self.len as nat * self.dtype.spec_size_in_bytes(),
            ) <= self.buffer@.bytes.len(),
        ensures
            match r {
                Ok(cpu) => readable(self.dtype) && cpu@ == decoded(
                    self.dtype,
                    self.len as nat,
                    self.buffer@.bytes,
                ),
                Err(e) => !readable(self.dtype) && e == (if self.dtype.spec_size_in_bytes() == 0 {
                    Error::ReadbackSubByte { dtype: self.dtype }
                } else {
                    Error::ReadbackUnsupported { dtype: self.dtype }
                }),
            },
    {
        let elem_bytes: usize = self.dtype.size_in_bytes();
        if elem_bytes == 0 {
            return Err(Error::ReadbackSubByte { dtype: self.dtype });
        }
        proof {
            law_buffer_size(self.len as nat * self.dtype.spec_size_in_bytes());
        }
        cpu_storage_from_bytes(self.dtype, self.len, self.buffer.bytes.as_slice())
    }

    /// A new storage for the same elements, and the copy that fills it. Only
    /// a contiguous tensor that starts at the storage's start can be cloned.
    pub fn try_clone(&self, layout: &Layout) -> (r: Result<(WgpuStorage, BufferCopy), Error>)
        requires
            layout@.wf(),
            self.len * self.dtype.spec_size_in_bytes() <= usize::MAX,
            self.len * self.dtype.spec_size_in_bytes() <= u64::MAX - 3,
        ensures
            match r {
                Ok((s, copy)) => {
                    &&& layout@.is_contiguous() && layout.start_offset == 0
                    &&& self.dtype.spec_size_in_bytes() > 0
                    &&& s@ == cloned_view(self@)
                    &&& copy.src_offset == 0 && copy.dst_offset == 0
                    &&& copy.size == s@.buffer.size
                },
                Err(e) => e == Error::NotImplemented {
                    entry: if !layout@.is_contiguous() || layout.start_offset != 0 {
                        Missing::TryCloneNonContiguous
                    } else {
                        Missing::TryCloneSubByte
                    },
                } && (layout@.is_contiguous() && layout.start_offset == 0
                    ==> self.dtype.spec_size_in_bytes() == 0),
            },
    {
        if !layout.is_contiguous() || layout.start_offset != 0 {
            return Err(Error::NotImplemented { entry: Missing::TryCloneNonContiguous });
        }
        let elem_bytes: usize = self.dtype.size_in_bytes();
        if elem_bytes == 0 {
            return Err(Error::NotImplemented { entry: Missing::TryCloneSubByte });
        }
        let payload: u64 = (self.len * elem_bytes) as u64;
        let size: u64 = payload_buffer_size(payload);
        let s = WgpuStorage {
            buffer: Buffer {
                label: "wgpu-storage-clone",
                size,
                usage: tensor_usage_flags(),
                mapped_at_creation: false,
                bytes: Vec::new(),
            },
            len: self.len,
            dtype: self.dtype,
            device: self.device,
        };
        proof {
            assert(s@ =~= cloned_view(self@));
        }
        Ok((s, BufferCopy { src_offset: 0, dst_offset: 0, size }))
    }
}

/// The storage that [`WgpuStorage::alloc_zeros`] makes.
pub open spec fn zeroed(device: WgpuDevice, dtype: DType, shape: Seq<usize>) -> StorageView {
    let size = buffer_size(product(shape) * dtype.spec_size_in_bytes());
    StorageView {
        buffer: BufferView {
            label: "wgpu-storage-zeros"@,
            size,
            usage: tensor_usage(),
            mapped_at_creation: true,
            bytes: zeros(size),
        },
        len: product(shape),
        dtype,
        device,
    }
}

/// The storage that [`WgpuStorage::from_cpu_storage`] makes.
pub open spec fn uploaded(device: WgpuDevice, cpu: CpuView) -> StorageView {
    StorageView {
        buffer: BufferView {
            label: "wgpu-storage-upload"@,
            size: buffer_size(cpu.bytes().len()),
            usage: tensor_usage(),
            mapped_at_creation: true,
            bytes: padded(cpu.bytes()),
        },
        len: cpu.elems.len(),
        dtype: cpu.dtype,
        device,
    }
}

/// The buffer that a read-back of `s` lands in.
pub open spec fn staging_view(s: StorageView) -> BufferView {
    BufferView {
        label: "wgpu-storage-readback-staging"@,
        size: buffer_size(s.len * s.dtype.spec_size_in_bytes()),
        usage: staging_usage(),
        mapped_at_creation: false,
        bytes: Seq::empty(),
    }
}

/// The storage that a clone of `s` is copied into.
pub open spec fn cloned_view(s: StorageView) -> StorageView {
    StorageView {
        buffer: BufferView {
            label: "wgpu-storage-clone"@,
            size: buffer_size(s.len * s.dtype.spec_size_in_bytes()),
            usage: tensor_usage(),
            mapped_at_creation: false,
            bytes: Seq::empty(),
        },
        len: s.len,
        dtype: s.dtype,
        device: s.device,
    }
}

/// What is uploaded is what is read back, for every dtype that can be read
/// back at all.
pub proof fn law_upload_read_back(device: WgpuDevice, cpu: CpuStorage)
    ensures
        ({
            let s = uploaded(device, cpu@);
            &&& decoded(s.dtype, s.len, s.buffer.bytes) == cpu@
            &&& s.buffer.bytes.len() == s.buffer.size
            &&& cpu@.dtype.spec_size_in_bytes() > 0 ==> s.buffer.size == staging_view(s).size
        }),
{
    lemma_storage_in_range(cpu);
    let payload = cpu@.bytes();
    law_buffer_size(payload.len());
    law_bytes_round_trip(cpu@, zeros((buffer_size(payload.len()) - payload.len()) as nat));
}

/// A zeroed storage reads back as zeros.
pub proof fn law_zeros_read_back(device: WgpuDevice, dtype: DType, shape: Seq<usize>)
    requires
        dtype.spec_size_in_bytes() > 0,
    ensures
        ({
            let s = zeroed(device, dtype, shape);
            &&& s.buffer.size == staging_view(s).size
            &&& decoded(dtype, s.len, s.buffer.bytes) == (CpuView {
                dtype,
                elems: Seq::new(product(shape), |i: int| 0int),
            })
        }),
{
    let s = zeroed(device, dtype, shape);
    let width = entry_bytes(dtype);
    let got = decoded(dtype, s.len, s.buffer.bytes);
    law_buffer_size(product(shape) * width);
    assert forall|i: int| 0 <= i < s.len implies #[trigger] got.elems[i] == 0 by {
        assert(0 <= i * width <= (i + 1) * width <= s.len * width) by (nonlinear_arith)
            requires
                0 <= i < s.len,
        ;
        let word = s.buffer.bytes.subrange(i * width, (i + 1) * width);
        lemma_zero_value(word);
    }
    assert(got =~= (CpuView { dtype, elems: Seq::new(product(shape), |i: int| 0int) }));
}

proof fn lemma_zero_value(s: Seq<u8>)
    requires
        forall|i: int| 0 <= i < s.len() ==> s[i] == 0,
    ensures
        crate::bytes::le_value(s) == 0,
    decreases s.len(),
{
    if s.len() > 0 {
        lemma_zero_value(s.skip(1));
    }
}

} // verus!
