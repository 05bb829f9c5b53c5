//! Storage of quantized tensors.

use crate::cpu_storage::{decoded, readable, CpuStorage, CpuView};
use crate::device::WgpuDevice;
use crate::dtype::{DType, GgmlDType};
use crate::error::Error;
use crate::layout::{countable, product, Layout};
use crate::ops::dispatch::{out_storage, output_storage};
use crate::quantized::command::{
    bind_two, QBuffer, QCommand, QCommandView, QFunction, QPipeline, Work,
};
use crate::quantized::matmul::{
    extents, fwd_fits, fwd_plan, fwd_refusal, fwd_shape, plan_fwd, Fwd, QuantizedMatmulAlgorithm,
};
use crate::storage::{
    buffer_size, law_buffer_size, law_upload_read_back, padded, tensor_usage, uploaded, zeroed,
    zeros, Buffer, BufferUsages, BufferView, StorageView, WgpuStorage,
};
use vstd::prelude::*;

verus! {

/// Blocks of a quantized tensor in a GPU buffer.
#[derive(Clone, Debug)]
pub struct QWgpuStorage {
    dtype: GgmlDType,
    storage: WgpuStorage,
}

/// What a [`QWgpuStorage`] stands for.
#[verifier::ext_equal]
pub struct QStorageView {
    pub dtype: GgmlDType,
    pub storage: StorageView,
}

impl View for QWgpuStorage {
    type V = QStorageView;

    closed spec fn view(&self) -> QStorageView {
        QStorageView { dtype: self.dtype, storage: self.storage@ }
    }
}

/// A storage created with the bytes `data`, taken as elements of `dtype`.
pub open spec fn from_bytes(device: WgpuDevice, dtype: DType, data: Seq<u8>) -> StorageView {
    StorageView {
        buffer: BufferView {
            label: "wgpu-storage-upload"@,
            size: buffer_size(data.len()),
            usage: tensor_usage(),
            mapped_at_creation: true,
            bytes: padded(data),
        },
        len: data.len() / dtype.spec_size_in_bytes(),
        dtype,
        device,
    }
}

/// A storage created with the bytes `data`, taken as elements of `dtype`.
fn alloc_from_bytes(device: WgpuDevice, dtype: DType, data: &[u8]) -> (r: WgpuStorage)
    requires
        dtype.spec_size_in_bytes() > 0,
        buffer_size(data@.len()) <= usize::MAX,
    ensures
        r@ == from_bytes(device, dtype, data@),
{
    let size: usize = if data.len() < 4 {
        4
    } else {
        (data.len() + 3) / 4 * 4
    };
    let mut bytes: Vec<u8> = Vec::new();
    let mut i: usize = 0;
    proof {
        law_buffer_size(data@.len());
        assert(padded(data@).take(0) =~= Seq::<u8>::empty());
    }
    while i < size
        invariant
            0 <= i <= size,
            size == buffer_size(data@.len()),
            size >= data@.len(),
            bytes@ == padded(data@).take(i as int),
        decreases size - i,
    {
        let b: u8 = if i < data.len() {
            data[i]
        } else {
            0
        };
        bytes.push(b);
        proof {
            assert(padded(data@)[i as int] == b);
            assert(padded(data@).take(i + 1) =~= padded(data@).take(i as int).push(b));
        }
        i = i + 1;
    }
    let r = WgpuStorage {
        buffer: Buffer {
            label: "wgpu-storage-upload",
            size: size as u64,
            usage: BufferUsages {
                storage: true,
                uniform: false,
                copy_src: true,
                copy_dst: true,
                map_read: false,
            },
            mapped_at_creation: true,
            bytes,
        },
        len: data.len() / dtype.size_in_bytes(),
        dtype,
        device,
    };
    proof {
        assert(padded(data@).take(size as int) =~= padded(data@));
        assert(r@ =~= from_bytes(device, dtype, data@));
    }
    r
}

/// How a tensor is unpacked.
#[derive(Clone, Debug)]
pub enum DequantizePlan {
    /// The elements are f32 already: so many words are copied.
    Copy { words: usize },
    /// A kernel unpacks the blocks, one thread per block.
    Run(QCommand),
}

/// What a [`DequantizePlan`] stands for.
pub enum DequantizeView {
    Copy { words: nat },
    Run(QCommandView),
}

impl View for DequantizePlan {
    type V = DequantizeView;

    open spec fn view(&self) -> DequantizeView {
        match self {
            DequantizePlan::Copy { words } => DequantizeView::Copy { words: *words as nat },
            DequantizePlan::Run(c) => DequantizeView::Run(c@),
        }
    }
}

/// How `elem_count` elements are unpacked from a storage of `bytes` bytes.
pub open spec fn dequantize_plan(dtype: GgmlDType, bytes: nat, elem_count: usize)
    -> DequantizeView {
    if dtype is F32 {
        DequantizeView::Copy { words: bytes / 4 }
    } else {
        DequantizeView::Run(
            QCommandView {
                pipeline: QPipeline { dtype, function: QFunction::DequantizeBlockToF32 },
                bindings: seq![QBuffer::Output, QBuffer::Weights],
                consts: Seq::empty(),
                params: seq![elem_count],
                work: Work::Threads64 {
                    length: (elem_count as nat / dtype.spec_block_size()) as usize as u32,
                },
                workload: elem_count as nat,
            },
        )
    }
}

/// Bytes of the elements of a storage.
pub open spec fn payload(s: StorageView) -> nat {
    s.len * s.dtype.spec_size_in_bytes()
}

/// Bytes of the blocks that `elems` elements are packed into.
pub open spec fn packed_len(dtype: GgmlDType, elems: nat) -> nat {
    elems / dtype.spec_block_size() * dtype.spec_type_size()
}

/// Whether `len` bytes are the blocks of `elems` elements.
fn is_packed_len(dtype: GgmlDType, elems: usize, len: usize) -> (r: bool)
    ensures
        r == (len == packed_len(dtype, elems as nat)),
{
    match (elems / dtype.block_size()).checked_mul(dtype.type_size()) {
        Some(n) => n == len,
        None => false,
    }
}

/// Why the elements of a host storage are not packed into `len` bytes, if they
/// are not; the first of several reasons counts.
pub open spec fn packing_refusal(dtype: GgmlDType, src: CpuView, len: nat) -> Option<Error> {
    if !(src.dtype is F32) {
        Some(Error::UnexpectedDType { expected: DType::F32, got: src.dtype })
    } else if len != packed_len(dtype, src.elems.len()) {
        Some(Error::PackedSize { elems: src.elems.len() as usize, got: len as usize })
    } else {
        None
    }
}

/// Why the elements of a storage are not packed into `len` bytes, if they are
/// not: they cannot be read back, or the host does not pack them so.
pub open spec fn repacking_refusal(dtype: GgmlDType, src: StorageView, len: nat) -> Option<Error> {
    if !readable(src.dtype) {
        Some(
            if src.dtype.spec_size_in_bytes() == 0 {
                Error::ReadbackSubByte { dtype: src.dtype }
            } else {
                Error::ReadbackUnsupported { dtype: src.dtype }
            },
        )
    } else {
        packing_refusal(dtype, decoded(src.dtype, src.len, src.buffer.bytes), len)
    }
}

/// A storage after its blocks were replaced by `quantized`.
pub open spec fn repacked(s: QStorageView, quantized: Seq<u8>) -> QStorageView {
    QStorageView { dtype: s.dtype, storage: from_bytes(s.storage.device, DType::U32, quantized) }
}

impl QWgpuStorage {
    /// Blocks of type `dtype` in `storage`.
    pub fn new(dtype: GgmlDType, storage: WgpuStorage) -> (r: Self)
        ensures
            r@ == (QStorageView { dtype, storage: storage@ }),
    {
        QWgpuStorage { dtype, storage }
    }

    /// The buffer that holds the blocks.
    pub fn buffer(&self) -> (r: &Buffer)
        ensures
            r@ == self@.storage.buffer,
    {
        &self.storage.buffer
    }

    /// A storage of zero bytes for `elem_count` elements, held as words; the
    /// bytes behind the last whole word are left out.
    pub fn zeros(device: &WgpuDevice, elem_count: usize, dtype: GgmlDType) -> (r: Result<
        Self,
        Error,
    >)
        requires
            elem_count * dtype.spec_type_size() <= usize::MAX - 3,
        ensures
            r is Ok,
            ({
                let bytes = (elem_count * dtype.spec_type_size()) as nat / dtype.spec_block_size();
                r->Ok_0@ == (QStorageView {
                    dtype,
                    storage: zeroed(*device, DType::U32, seq![(bytes / 4) as usize]),
                })
            }),
    {
        let size: usize = elem_count * dtype.type_size() / dtype.block_size();
        let mut shape: Vec<usize> = Vec::new();
        shape.push(size / 4);
        proof {
            lemma_one_axis(shape@);
            assert(shape@ =~= seq![(size / 4) as usize]);
            let (a, c) = (elem_count * dtype.spec_type_size(), dtype.spec_block_size() as int);
            assert(a / c <= a) by (nonlinear_arith)
                requires
                    a >= 0,
                    c >= 1,
            ;
        }
        match WgpuStorage::alloc_zeros(*device, DType::U32, shape.as_slice()) {
            Ok(storage) => Ok(QWgpuStorage { dtype, storage }),
            Err(e) => Err(e),
        }
    }

    /// The block type.
    pub fn dtype(&self) -> (r: GgmlDType)
        ensures
            r == self@.dtype,
    {
        self.dtype
    }

    /// The device that holds the blocks.
    pub fn device(&self) -> (r: &WgpuDevice)
        ensures
            *r == self@.storage.device,
    {
        &self.storage.device
    }

    /// Bytes of the storage's elements.
    pub fn storage_size_in_bytes(&self) -> (r: usize)
        requires
            payload(self@.storage) <= usize::MAX,
        ensures
            r == payload(self@.storage),
    {
        self.storage.len * self.storage.dtype.size_in_bytes()
    }

    /// A storage for the first `elem_count` elements as f32, and how they are
    /// unpacked into it. Half-precision elements are not unpacked.
    pub fn dequantize(&self, elem_count: usize) -> (r: Result<
        (WgpuStorage, DequantizePlan),
        Error,
    >)
        requires
            payload(self@.storage) <= usize::MAX,
            elem_count * 4 <= u64::MAX - 3,
        ensures
            match r {
                Ok((s, p)) => {
                    &&& !(self@.dtype is F16 || self@.dtype is BF16)
                    &&& s@ == out_storage(
                        "wgpu-dequantize-out"@,
                        elem_count as nat,
                        DType::F32,
                        self@.storage.device,
                    )
                    &&& p@ == dequantize_plan(
                        self@.dtype,
                        payload(self@.storage),
                        elem_count,
                    )
                },
                Err(e) => (self@.dtype is F16 || self@.dtype is BF16) && e == (
                Error::DequantizeUnsupported { dtype: self@.dtype }),
            },
    {
        let dst: WgpuStorage = output_storage(
            "wgpu-dequantize-out",
            elem_count,
            DType::F32,
            self.storage.device,
        );
        match self.dtype {
            GgmlDType::F32 => {
                let words: usize = self.storage_size_in_bytes() / 4;
                Ok((dst, DequantizePlan::Copy { words }))
            },
            GgmlDType::F16 | GgmlDType::BF16 => Err(
                Error::DequantizeUnsupported { dtype: self.dtype },
            ),
            dtype => {
                let mut params: Vec<usize> = Vec::new();
                params.push(elem_count);
                let blocks: usize = elem_count / dtype.block_size();
                let length: u32 = #[verifier::truncate]
                (blocks as u32);
                let c = QCommand {
                    pipeline: QPipeline { dtype, function: QFunction::DequantizeBlockToF32 },
                    bindings: bind_two(QBuffer::Output, QBuffer::Weights),
                    consts: Vec::new(),
                    params,
                    work: Work::Threads64 { length },
                    workload: elem_count,
                };
                proof {
                    let want = dequantize_plan(
                        self@.dtype,
                        payload(self@.storage),
                        elem_count,
                    )->Run_0;
                    assert(c@ =~= want);
                }
                Ok((dst, DequantizePlan::Run(c)))
            },
        }
    }

    /// Replaces the blocks by `quantized`, the blocks that the elements of
    /// `src` were packed into on the host. Only f32 elements are packed, into
    /// as many whole blocks as they fill.
    pub fn quantize_onto(&mut self, src: &CpuStorage, quantized: &[u8]) -> (r: Result<(), Error>)
        requires
            buffer_size(quantized@.len()) <= usize::MAX,
        ensures
            match r {
                Ok(_) => {
                    &&& packing_refusal(old(self)@.dtype, src@, quantized@.len()) is None
                    &&& final(self)@ == repacked(old(self)@, quantized@)
                },
                Err(e) => {
                    &&& packing_refusal(old(self)@.dtype, src@, quantized@.len()) == Some(e)
                    &&& final(self)@ == old(self)@
                },
            },
    {
        let got: DType = src.dtype();
        if got != DType::F32 {
            return Err(Error::UnexpectedDType { expected: DType::F32, got });
        }
        if !is_packed_len(self.dtype, src.len(), quantized.len()) {
            return Err(Error::PackedSize { elems: src.len(), got: quantized.len() });
        }
        self.storage = alloc_from_bytes(self.storage.device, DType::U32, quantized);
        Ok(())
    }

    /// Replaces the blocks by `quantized`, the blocks that the elements of
    /// `src`, read back to the host, were packed into there.
    pub fn quantize(&mut self, src: &WgpuStorage, quantized: &[u8]) -> (r: Result<(), Error>)
        requires
            src.dtype.spec_size_in_bytes() > 0 ==> buffer_size(
                src.len as nat * src.dtype.spec_size_in_bytes(),
            ) <= src.buffer@.bytes.len(),
            buffer_size(quantized@.len()) <= usize::MAX,
        ensures
            match r {
                Ok(_) => {
                    &&& repacking_refusal(old(self)@.dtype, src@, quantized@.len()) is None
                    &&& final(self)@ == repacked(old(self)@, quantized@)
                },
                Err(e) => {
                    &&& repacking_refusal(old(self)@.dtype, src@, quantized@.len()) == Some(e)
                    &&& final(self)@ == old(self)@
                },
            },
    {
        match src.read_to_cpu() {
            Ok(cpu) => self.quantize_onto(&cpu, quantized),
            Err(e) => Err(e),
        }
    }

    /// As [`QWgpuStorage::quantize_onto`], the host having weighed the
    /// elements by their importance when it packed them.
    pub fn quantize_imatrix_onto(&mut self, src: &CpuStorage, quantized: &[u8]) -> (r: Result<
        (),
        Error,
    >)
        requires
            buffer_size(quantized@.len()) <= usize::MAX,
        ensures
            match r {
                Ok(_) => {
                    &&& packing_refusal(old(self)@.dtype, src@, quantized@.len()) is None
                    &&& final(self)@ == repacked(old(self)@, quantized@)
                },
                Err(e) => {
                    &&& packing_refusal(old(self)@.dtype, src@, quantized@.len()) == Some(e)
                    &&& final(self)@ == old(self)@
                },
            },
    {
        self.quantize_onto(src, quantized)
    }

    /// As [`QWgpuStorage::quantize`], the host having weighed the elements by
    /// their importance when it packed them.
    pub fn quantize_imatrix(&mut self, src: &WgpuStorage, quantized: &[u8]) -> (r: Result<
        (),
        Error,
    >)
        requires
            src.dtype.spec_size_in_bytes() > 0 ==> buffer_size(
                src.len as nat * src.dtype.spec_size_in_bytes(),
            ) <= src.buffer@.bytes.len(),
            buffer_size(quantized@.len()) <= usize::MAX,
        ensures
            match r {
                Ok(_) => {
                    &&& repacking_refusal(old(self)@.dtype, src@, quantized@.len()) is None
                    &&& final(self)@ == repacked(old(self)@, quantized@)
                },
                Err(e) => {
                    &&& repacking_refusal(old(self)@.dtype, src@, quantized@.len()) == Some(e)
                    &&& final(self)@ == old(self)@
                },
            },
    {
        self.quantize(src, quantized)
    }

    /// The product of the tensor that `layout` describes in `storage` with
    /// these weights, whose shape is `self_shape`.
    pub fn fwd(
        &self,
        configured: QuantizedMatmulAlgorithm,
        self_shape: &Vec<usize>,
        storage: &WgpuStorage,
        layout: &Layout,
    ) -> (r: Result<Fwd, Error>)
        requires
            layout@.dims.len() == layout@.stride.len(),
            fwd_refusal(self_shape@, layout@.dims) is None ==> self@.dtype.is_block_quantized()
                && fwd_fits(self_shape@, layout@.dims),
        ensures
            match r {
                Ok(f) => {
                    let e = extents(self_shape@, layout@.dims);
                    &&& fwd_refusal(self_shape@, layout@.dims) is None
                    &&& f.output@ == out_storage(
                        "wgpu-quantized-out"@,
                        (e.b * e.m * e.n) as nat,
                        DType::F32,
                        storage.device,
                    )
                    &&& f.shape@ == fwd_shape(self_shape@, layout@.dims)
                    &&& f.plan@ == fwd_plan(
                        configured,
                        self@.dtype,
                        storage.device,
                        self_shape@,
                        layout@,
                    )
                },
                Err(err) => fwd_refusal(self_shape@, layout@.dims) == Some(err),
            },
    {
        plan_fwd(configured, self.dtype, storage.device, self_shape, layout)
    }

    /// The bytes of the blocks, taken from those that the host knows of the
    /// buffer.
    pub fn data(&self) -> (r: Vec<u8>)
        ensures
            r@ == self@.storage.buffer.bytes,
    {
        let mut out: Vec<u8> = Vec::new();
        let mut i: usize = 0;
        while i < self.storage.buffer.bytes.len()
            invariant
                0 <= i <= self.storage.buffer.bytes@.len(),
                out@ == self.storage.buffer.bytes@.take(i as int),
            decreases self.storage.buffer.bytes.len() - i,
        {
            out.push(self.storage.buffer.bytes[i]);
            proof {
                let all = self.storage.buffer.bytes@;
                assert(all.take(i + 1) =~= all.take(i as int).push(all[i as int]));
            }
            i = i + 1;
        }
        proof {
            assert(out@ =~= self.storage.buffer.bytes@);
        }
        out
    }
}

proof fn lemma_one_axis(s: Seq<usize>)
    requires
        s.len() == 1,
    ensures
        product(s) == s[0],
        countable(s),
{
    assert(s.drop_last() =~= Seq::<usize>::empty());
    assert(product(s.drop_last()) == 1);
    assert(product(s) == 1 * (s.last() as nat));
    assert(s.take(1) =~= s);
    assert(s.skip(0) =~= s);
    assert(s.take(0) =~= Seq::<usize>::empty());
    assert(s.skip(1) =~= Seq::<usize>::empty());
}

/// Blocks of type `dtype` from their bytes.
pub fn load_quantized(device: &WgpuDevice, dtype: GgmlDType, data: &[u8]) -> (r: Result<
    QWgpuStorage,
    Error,
>)
    requires
        buffer_size(data@.len()) <= usize::MAX,
    ensures
        r is Ok,
        r->Ok_0@ == (QStorageView { dtype, storage: from_bytes(*device, DType::U8, data@) }),
{
    Ok(QWgpuStorage { dtype, storage: alloc_from_bytes(*device, DType::U8, data) })
}

/// To pack the elements of a tensor on the device and to pack the same elements
/// of the host comes to the same, whatever the packing and whatever the two
/// storages of one block type held before: the elements that are read back are
/// those that were uploaded, both calls succeed or both fail alike, and where
/// they succeed the two hold the same bytes.
pub proof fn law_packing_leaves_same_bytes(
    a: QStorageView,
    b: QStorageView,
    device: WgpuDevice,
    src: CpuStorage,
    pack: spec_fn(CpuView) -> Seq<u8>,
)
    requires
        a.dtype == b.dtype,
        src@.dtype is F32,
    ensures
        ({
            let g = uploaded(device, src@);
            let read = decoded(g.dtype, g.len, g.buffer.bytes);
            &&& read == src@
            &&& repacking_refusal(a.dtype, g, pack(read).len()) == packing_refusal(
                b.dtype,
                src@,
                pack(src@).len(),
            )
            &&& repacked(a, pack(read)).storage.buffer.bytes == repacked(
                b,
                pack(src@),
            ).storage.buffer.bytes
            &&& repacked(b, pack(src@)).dtype == b.dtype
            &&& repacked(b, pack(src@)).storage.device == b.storage.device
        }),
{
    law_upload_read_back(device, src);
}

/// What is loaded is what is read: the first bytes of the storage are the
/// loaded ones.
pub proof fn law_loaded_bytes_kept(device: WgpuDevice, dtype: DType, data: Seq<u8>)
    requires
        dtype.spec_size_in_bytes() > 0,
    ensures
        ({
            let s = from_bytes(device, dtype, data);
            &&& s.buffer.bytes.len() == s.buffer.size
            &&& s.buffer.bytes.take(data.len() as int) == data
        }),
{
    law_buffer_size(data.len());
    assert(padded(data).take(data.len() as int) =~= data);
}

} // verus!
