//! Copies between storages: whole blocks, strided tensors, and rows.
//!
//! A tensor that is one block of adjacent elements is copied by one buffer
//! copy, a strided one by a kernel, and a set of rows by one buffer copy per
//! row, all in one command encoder. Buffer copies start and end at multiples
//! of four bytes; rows of shorter elements that do not are moved by a kernel,
//! a byte at a time.

use crate::dtype::DType;
use crate::error::{Error, Op, Quantity};
use crate::layout::{lemma_contiguous_is_linear, product, Layout, LayoutView};
use crate::ops::dispatch::{
    find_wide_pair, first_wide_pair, is_wide, linear_dispatch, linear_groups, padded4, push_padded,
    Kernel, KernelView, MAX_RANK, Substitution, Template,
};
use crate::storage::{BufferCopy, WgpuStorage};
use vstd::prelude::*;

verus! {

/// What a copy asks of the GPU.
#[derive(Clone, Debug)]
pub enum CopyPlan {
    /// There is nothing to copy.
    Nothing,
    /// One buffer copy; see [`plan_rows`] where it is not aligned.
    Block(BufferCopy),
    /// A kernel, with the source bound behind the uniform and the
    /// destination behind the source.
    Strided(Kernel),
}

/// What a [`CopyPlan`] stands for.
pub enum CopyPlanView {
    Nothing,
    Block(BufferCopy),
    Strided(KernelView),
}

impl View for CopyPlan {
    type V = CopyPlanView;

    open spec fn view(&self) -> CopyPlanView {
        match self {
            CopyPlan::Nothing => CopyPlanView::Nothing,
            CopyPlan::Block(c) => CopyPlanView::Block(*c),
            CopyPlan::Strided(k) => CopyPlanView::Strided(k@),
        }
    }
}

/// Bytes of one element of a dtype that can be copied.
pub fn elem_bytes(dtype: DType) -> (r: Result<u64, Error>)
    ensures
        match r {
            Ok(n) => n == dtype.spec_size_in_bytes() && n > 0,
            Err(e) => dtype.spec_size_in_bytes() == 0 && e == (Error::UnsupportedDType {
                op: Op::Copy,
                dtype,
            }),
        },
{
    let size: usize = dtype.size_in_bytes();
    if size == 0 {
        return Err(Error::UnsupportedDType { op: Op::Copy, dtype });
    }
    Ok(size as u64)
}

/// Why a tensor cannot be copied, if it cannot; the first of several reasons
/// counts.
pub open spec fn copy_refusal(src: DType, dst: DType, dst_offset: usize, l: LayoutView) -> Option<
    Error,
> {
    let op = Op::Copy;
    if src != dst {
        Some(Error::DTypeMismatch { op, lhs: src, rhs: dst })
    } else if product(l.dims) == 0 {
        None
    } else if src.spec_size_in_bytes() == 0 {
        Some(Error::UnsupportedDType { op, dtype: src })
    } else if l.is_single_block() {
        None
    } else if src is F16 {
        Some(Error::F16Unsupported { op })
    } else if !(src is F32 || src is BF16) {
        Some(Error::UnsupportedDType { op, dtype: src })
    } else if l.dims.len() > MAX_RANK {
        Some(Error::RankTooLarge { op, rank: l.dims.len() as usize })
    } else if first_wide_pair(l.dims, l.stride, 0) is Some {
        let (i, second) = first_wide_pair(l.dims, l.stride, 0)->0;
        let axis = i as usize;
        Some(
            if second {
                Error::ExceedsU32 {
                    op,
                    what: Quantity::Stride { axis },
                    value: l.stride[axis as int],
                }
            } else {
                Error::ExceedsU32 { op, what: Quantity::Dim { axis }, value: l.dims[axis as int] }
            },
        )
    } else if l.start_offset > u32::MAX {
        Some(Error::ExceedsU32 { op, what: Quantity::StartOffset, value: l.start_offset })
    } else if dst_offset > u32::MAX {
        Some(Error::ExceedsU32 { op, what: Quantity::DstOffset, value: dst_offset })
    } else if product(l.dims) > u32::MAX {
        Some(
            Error::ExceedsU32 {
                op,
                what: Quantity::ElementCount,
                value: product(l.dims) as usize,
            },
        )
    } else {
        None
    }
}

/// The copy of a tensor of layout `l` to element `dst_offset` on.
pub open spec fn copy_plan(dtype: DType, dst_offset: usize, l: LayoutView) -> CopyPlanView {
    let n = product(l.dims);
    let width = dtype.spec_size_in_bytes();
    if n == 0 {
        CopyPlanView::Nothing
    } else if l.is_single_block() {
        CopyPlanView::Block(
            BufferCopy {
                src_offset: (l.start_offset * width) as u64,
                dst_offset: (dst_offset * width) as u64,
                size: (n * width) as u64,
            },
        )
    } else {
        CopyPlanView::Strided(
            KernelView {
                key: if dtype is BF16 {
                    "ucopy:bf16"@
                } else {
                    "ucopy:f32"@
                },
                template: if dtype is BF16 {
                    Template::CopyBf16
                } else {
                    Template::Copy
                },
                substitutions: if dtype is BF16 {
                    Seq::empty()
                } else {
                    seq![("__SCALAR_T__"@, "f32"@)]
                },
                meta: seq![
                    n as u32,
                    l.dims.len() as u32,
                    l.start_offset as u32,
                    dst_offset as u32,
                ] + padded4(l.dims, 1) + padded4(l.stride, 0),
                groups: linear_groups(n),
            },
        )
    }
}

/// The copy of the tensor that `src_l` describes in `src` to `dst`, from
/// element `dst_offset` on, in row-major order.
pub fn copy_strided_src(
    src: &WgpuStorage,
    dst: &WgpuStorage,
    dst_offset: usize,
    src_l: &Layout,
) -> (r: Result<CopyPlan, Error>)
    requires
        src_l@.wf(),
        product(src_l@.dims) * src.dtype.spec_size_in_bytes() <= u64::MAX,
        src_l.start_offset * src.dtype.spec_size_in_bytes() <= u64::MAX,
        dst_offset * src.dtype.spec_size_in_bytes() <= u64::MAX,
    ensures
        match r {
            Ok(p) => copy_refusal(src.dtype, dst.dtype, dst_offset, src_l@) is None && p@
                == copy_plan(src.dtype, dst_offset, src_l@),
            Err(e) => copy_refusal(src.dtype, dst.dtype, dst_offset, src_l@) == Some(e),
        },
{
    let op: Op = Op::Copy;
    if src.dtype != dst.dtype {
        return Err(Error::DTypeMismatch { op, lhs: src.dtype, rhs: dst.dtype });
    }
    let n: usize = src_l.elem_count();
    if n == 0 {
        return Ok(CopyPlan::Nothing);
    }
    let bytes_per: u64 = match elem_bytes(src.dtype) {
        Ok(b) => b,
        Err(e) => {
            return Err(e);
        },
    };
    if src_l.is_single_block() {
        return Ok(
            CopyPlan::Block(
                BufferCopy {
                    src_offset: src_l.start_offset as u64 * bytes_per,
                    dst_offset: dst_offset as u64 * bytes_per,
                    size: n as u64 * bytes_per,
                },
            ),
        );
    }
    match src.dtype {
        DType::F32 | DType::BF16 => {},
        DType::F16 => {
            return Err(Error::F16Unsupported { op });
        },
        other => {
            return Err(Error::UnsupportedDType { op, dtype: other });
        },
    }
    let rank: usize = src_l.dims.len();
    if rank > MAX_RANK {
        return Err(Error::RankTooLarge { op, rank });
    }
    if let Some((axis, second)) = find_wide_pair(src_l.dims.as_slice(), src_l.stride.as_slice()) {
        if second {
            return Err(
                Error::ExceedsU32 {
                    op,
                    what: Quantity::Stride { axis },
                    value: src_l.stride[axis],
                },
            );
        }
        return Err(
            Error::ExceedsU32 { op, what: Quantity::Dim { axis }, value: src_l.dims[axis] },
        );
    }
    if is_wide(src_l.start_offset) {
        return Err(
            Error::ExceedsU32 { op, what: Quantity::StartOffset, value: src_l.start_offset },
        );
    }
    if is_wide(dst_offset) {
        return Err(Error::ExceedsU32 { op, what: Quantity::DstOffset, value: dst_offset });
    }
    if is_wide(n) {
        return Err(Error::ExceedsU32 { op, what: Quantity::ElementCount, value: n });
    }
    let mut meta: Vec<u32> = Vec::new();
    meta.push(n as u32);
    meta.push(rank as u32);
    meta.push(src_l.start_offset as u32);
    meta.push(dst_offset as u32);
    push_padded(&mut meta, src_l.dims.as_slice(), 1);
    push_padded(&mut meta, src_l.stride.as_slice(), 0);
    let mut substitutions: Vec<Substitution> = Vec::new();
    let native: bool = match src.dtype {
        DType::BF16 => true,
        _ => false,
    };
    if !native {
        substitutions.push(Substitution { marker: "__SCALAR_T__", text: "f32" });
    }
    let key: &'static str = if native {
        "ucopy:bf16"
    } else {
        "ucopy:f32"
    };
    let k = Kernel {
        key: key.to_owned(),
        template: if native {
            Template::CopyBf16
        } else {
            Template::Copy
        },
        substitutions,
        meta,
        groups: linear_dispatch(n as u32),
    };
    proof {
        let want = copy_plan(src.dtype, dst_offset, src_l@)->Strided_0;
        assert(k@.meta =~= want.meta);
        assert(k@.substitutions =~= want.substitutions);
        assert(k@ =~= want);
    }
    Ok(CopyPlan::Strided(k))
}

/// Why rows cannot be copied, if they cannot; the first of several reasons
/// counts.
pub open spec fn copy2d_refusal(src: DType, dst: DType, d1: usize, d2: usize) -> Option<Error> {
    if src != dst {
        Some(Error::DTypeMismatch { op: Op::Copy2d, lhs: src, rhs: dst })
    } else if d1 == 0 || d2 == 0 {
        None
    } else if src.spec_size_in_bytes() == 0 {
        Some(Error::UnsupportedDType { op: Op::Copy, dtype: src })
    } else {
        None
    }
}

/// The copy of row `i`: `d2` elements of `width` bytes, the rows the given
/// strides apart, the first at the given offsets.
pub open spec fn row_copy(
    width: nat,
    d2: usize,
    src_stride1: usize,
    dst_stride1: usize,
    src_offset: usize,
    dst_offset: usize,
    i: int,
) -> BufferCopy {
    BufferCopy {
        src_offset: (src_offset * width + i * (src_stride1 * width)) as u64,
        dst_offset: (dst_offset * width + i * (dst_stride1 * width)) as u64,
        size: (d2 * width) as u64,
    }
}

/// All bytes of the rows have 64-bit addresses.
pub open spec fn rows_addressable(width: nat, d1: usize, d2: usize, stride: usize, offset: usize)
    -> bool {
    &&& d2 * width <= u64::MAX
    &&& stride * width <= u64::MAX
    &&& offset * width + (d1 - 1) * (stride * width) + d2 * width <= u64::MAX
}

/// The commands' bytes have 64-bit addresses.
pub open spec fn all_addressable(copies: Seq<BufferCopy>) -> bool {
    forall|i: int|
        0 <= i < copies.len() ==> {
            &&& (#[trigger] copies[i]).src_offset + copies[i].size <= u64::MAX
            &&& copies[i].dst_offset + copies[i].size <= u64::MAX
        }
}

/// Whether a buffer copy can carry out the command: its offsets and its size
/// are multiples of four.
pub open spec fn is_aligned(c: BufferCopy) -> bool {
    c.src_offset % 4 == 0 && c.dst_offset % 4 == 0 && c.size % 4 == 0
}

/// Bytes that one kernel moves at most.
pub const PIECE_BYTES: u64 = 67108864;

/// Bytes at a multiple of which a binding may start.
pub const BINDING_ALIGNMENT: u64 = 256;

/// A copy in pieces that one kernel each can move, in order.
pub open spec fn pieces_of(c: BufferCopy) -> Seq<BufferCopy>
    decreases c.size,
{
    if c.size <= PIECE_BYTES {
        seq![c]
    } else {
        seq![BufferCopy { size: PIECE_BYTES, ..c }] + pieces_of(
            BufferCopy {
                src_offset: (c.src_offset + PIECE_BYTES) as u64,
                dst_offset: (c.dst_offset + PIECE_BYTES) as u64,
                size: (c.size - PIECE_BYTES) as u64,
            },
        )
    }
}

/// Copies in pieces, in order.
pub open spec fn all_pieces_of(copies: Seq<BufferCopy>) -> Seq<BufferCopy>
    decreases copies.len(),
{
    if copies.len() == 0 {
        Seq::empty()
    } else {
        all_pieces_of(copies.drop_last()) + pieces_of(copies.last())
    }
}

/// Part of a buffer that is bound: `len` bytes from `base` on.
#[derive(Clone, Copy, Debug, PartialEq, Eq, Structural)]
pub struct Window {
    pub base: u64,
    pub len: u64,
}

/// A kernel that moves adjacent bytes. The uniform is bound first, then the
/// window of the source, then that of the destination. The uniform's words are
/// the place of the first byte in the source's window, its place in the
/// destination's, and the number of bytes. There is one thread for each word
/// of the destination's window; it replaces those bytes of its word that are
/// moved.
#[derive(Clone, Debug)]
pub struct ByteMove {
    pub src: Window,
    pub dst: Window,
    pub kernel: Kernel,
}

/// What a [`ByteMove`] stands for.
pub struct ByteMoveView {
    pub src: Window,
    pub dst: Window,
    pub kernel: KernelView,
}

impl View for ByteMove {
    type V = ByteMoveView;

    open spec fn view(&self) -> ByteMoveView {
        ByteMoveView { src: self.src, dst: self.dst, kernel: self.kernel@ }
    }
}

/// The window of `size` bytes at `offset`: it starts where a binding may, and
/// ends with a whole word.
pub open spec fn window_of(offset: u64, size: u64) -> Window {
    let shift = offset % BINDING_ALIGNMENT;
    Window {
        base: (offset - shift) as u64,
        len: ((shift + size + 3) / 4 * 4) as u64,
    }
}

/// The kernel that carries out a copy of at most [`PIECE_BYTES`] bytes.
pub open spec fn byte_move_of(c: BufferCopy) -> ByteMoveView {
    let dst = window_of(c.dst_offset, c.size);
    ByteMoveView {
        src: window_of(c.src_offset, c.size),
        dst,
        kernel: KernelView {
            key: "bcopy"@,
            template: Template::CopyBytes,
            substitutions: Seq::empty(),
            meta: seq![
                (c.src_offset % BINDING_ALIGNMENT) as u32,
                (c.dst_offset % BINDING_ALIGNMENT) as u32,
                c.size as u32,
                0u32,
            ],
            groups: linear_groups((dst.len / 4) as nat),
        },
    }
}

fn window(offset: u64, size: u64) -> (r: Window)
    requires
        size <= PIECE_BYTES,
    ensures
        r == window_of(offset, size),
{
    let shift: u64 = offset % BINDING_ALIGNMENT;
    Window { base: offset - shift, len: (shift + size + 3) / 4 * 4 }
}

fn byte_move(c: &BufferCopy) -> (r: ByteMove)
    requires
        c.size <= PIECE_BYTES,
    ensures
        r@ == byte_move_of(*c),
{
    let src: Window = window(c.src_offset, c.size);
    let dst: Window = window(c.dst_offset, c.size);
    let mut meta: Vec<u32> = Vec::new();
    meta.push((c.src_offset % BINDING_ALIGNMENT) as u32);
    meta.push((c.dst_offset % BINDING_ALIGNMENT) as u32);
    meta.push(c.size as u32);
    meta.push(0);
    let kernel: Kernel = Kernel {
        key: "bcopy".to_owned(),
        template: Template::CopyBytes,
        substitutions: Vec::new(),
        meta,
        groups: linear_dispatch((dst.len / 4) as u32),
    };
    proof {
        let want = byte_move_of(*c).kernel;
        assert(kernel@.meta =~= want.meta);
        assert(kernel@.substitutions =~= want.substitutions);
        assert(kernel@ =~= want);
    }
    ByteMove { src, dst, kernel }
}

/// What moves stand for.
pub open spec fn moves(v: Seq<ByteMove>) -> Seq<ByteMoveView> {
    v.map_values(|m: ByteMove| m@)
}

/// The kernels that carry out copies.
pub open spec fn moves_of(copies: Seq<BufferCopy>) -> Seq<ByteMoveView> {
    all_pieces_of(copies).map_values(|c: BufferCopy| byte_move_of(c))
}

/// Appends the kernels that carry out a copy.
fn push_moves(out: &mut Vec<ByteMove>, c: &BufferCopy)
    requires
        c.src_offset + c.size <= u64::MAX,
        c.dst_offset + c.size <= u64::MAX,
    ensures
        moves(final(out)@) == moves(old(out)@) + pieces_of(*c).map_values(
            |p: BufferCopy| byte_move_of(p),
        ),
{
    let ghost before = moves(out@);
    let f = Ghost(|p: BufferCopy| byte_move_of(p));
    let mut rest: BufferCopy = *c;
    let ghost mut done = Seq::<BufferCopy>::empty();
    proof {
        assert(done + pieces_of(rest) =~= pieces_of(*c));
        assert(moves(out@) =~= before + done.map_values(f@));
    }
    while rest.size > PIECE_BYTES
        invariant
            rest.src_offset + rest.size <= u64::MAX,
            rest.dst_offset + rest.size <= u64::MAX,
            f@ == (|p: BufferCopy| byte_move_of(p)),
            done + pieces_of(rest) == pieces_of(*c),
            moves(out@) == before + done.map_values(f@),
        decreases rest.size,
    {
        let piece: BufferCopy = BufferCopy {
            src_offset: rest.src_offset,
            dst_offset: rest.dst_offset,
            size: PIECE_BYTES,
        };
        let m: ByteMove = byte_move(&piece);
        let ghost so_far = moves(out@);
        out.push(m);
        proof {
            assert(moves(out@) =~= so_far.push(m@));
            assert(done.push(piece).map_values(f@) =~= done.map_values(f@).push(f@(piece)));
            assert(moves(out@) =~= before + done.push(piece).map_values(f@));
        }
        let next: BufferCopy = BufferCopy {
            src_offset: rest.src_offset + PIECE_BYTES,
            dst_offset: rest.dst_offset + PIECE_BYTES,
            size: rest.size - PIECE_BYTES,
        };
        proof {
            assert(pieces_of(rest) == seq![piece] + pieces_of(next));
            assert(done.push(piece) + pieces_of(next) =~= done + (seq![piece] + pieces_of(next)));
            done = done.push(piece);
        }
        rest = next;
    }
    let m: ByteMove = byte_move(&rest);
    let ghost so_far = moves(out@);
    out.push(m);
    proof {
        assert(moves(out@) =~= so_far.push(m@));
        assert(pieces_of(rest) =~= seq![rest]);
        assert(pieces_of(*c).map_values(f@) =~= done.map_values(f@).push(f@(rest)));
        assert(moves(out@) =~= before + pieces_of(*c).map_values(f@));
    }
}

/// How rows are copied.
#[derive(Clone, Debug)]
pub enum RowsPlan {
    /// By buffer copies, in order, in one command encoder.
    Copies(Vec<BufferCopy>),
    /// By kernels that move bytes, one after another.
    Moves(Vec<ByteMove>),
}

/// What a [`RowsPlan`] stands for.
pub enum RowsPlanView {
    Copies(Seq<BufferCopy>),
    Moves(Seq<ByteMoveView>),
}

impl View for RowsPlan {
    type V = RowsPlanView;

    open spec fn view(&self) -> RowsPlanView {
        match self {
            RowsPlan::Copies(v) => RowsPlanView::Copies(v@),
            RowsPlan::Moves(v) => RowsPlanView::Moves(moves(v@)),
        }
    }
}

/// How copies are carried out: as they are where all of them are aligned, and
/// by kernels otherwise.
pub open spec fn rows_plan(copies: Seq<BufferCopy>) -> RowsPlanView {
    if forall|i: int| 0 <= i < copies.len() ==> is_aligned(#[trigger] copies[i]) {
        RowsPlanView::Copies(copies)
    } else {
        RowsPlanView::Moves(moves_of(copies))
    }
}

/// How copies are carried out.
pub fn plan_rows(copies: Vec<BufferCopy>) -> (r: RowsPlan)
    requires
        all_addressable(copies@),
    ensures
        r@ == rows_plan(copies@),
{
    let n: usize = copies.len();
    let mut i: usize = 0;
    while i < n
        invariant
            n == copies@.len(),
            0 <= i <= n,
            all_addressable(copies@),
            forall|j: int| 0 <= j < i ==> is_aligned(#[trigger] copies@[j]),
        decreases n - i,
    {
        let c: BufferCopy = copies[i];
        if c.src_offset % 4 != 0 || c.dst_offset % 4 != 0 || c.size % 4 != 0 {
            assert(!is_aligned(copies@[i as int]));
            return RowsPlan::Moves(move_all(&copies));
        }
        i = i + 1;
    }
    RowsPlan::Copies(copies)
}

/// The kernels that carry out copies.
fn move_all(copies: &Vec<BufferCopy>) -> (r: Vec<ByteMove>)
    requires
        all_addressable(copies@),
    ensures
        moves(r@) == moves_of(copies@),
{
    let mut out: Vec<ByteMove> = Vec::new();
    let n: usize = copies.len();
    let mut i: usize = 0;
    proof {
        assert(copies@.take(0) =~= Seq::<BufferCopy>::empty());
        assert(moves(out@) =~= moves_of(copies@.take(0)));
    }
    while i < n
        invariant
            n == copies@.len(),
            0 <= i <= n,
            all_addressable(copies@),
            moves(out@) == moves_of(copies@.take(i as int)),
        decreases n - i,
    {
        let c: BufferCopy = copies[i];
        push_moves(&mut out, &c);
        proof {
            assert(copies@.take(i + 1).drop_last() =~= copies@.take(i as int));
            assert(moves_of(copies@.take(i + 1)) =~= moves_of(copies@.take(i as int))
                + pieces_of(c).map_values(|p: BufferCopy| byte_move_of(p)));
        }
        i = i + 1;
    }
    proof {
        assert(copies@.take(n as int) =~= copies@);
    }
    out
}

/// The copies of `d1` rows of `d2` adjacent elements; the rows lie
/// `src_stride1` elements apart in the source and `dst_stride1` in the
/// destination. Elements of any dtype that has whole bytes can be copied.
pub fn copy2d(
    src: &WgpuStorage,
    dst: &WgpuStorage,
    d1: usize,
    d2: usize,
    src_stride1: usize,
    dst_stride1: usize,
    src_offset: usize,
    dst_offset: usize,
) -> (r: Result<RowsPlan, Error>)
    requires
        d1 > 0 && d2 > 0 ==> rows_addressable(
            src.dtype.spec_size_in_bytes(),
            d1,
            d2,
            src_stride1,
            src_offset,
        ) && rows_addressable(src.dtype.spec_size_in_bytes(), d1, d2, dst_stride1, dst_offset),
    ensures
        match r {
            Ok(plan) => {
                &&& copy2d_refusal(src.dtype, dst.dtype, d1, d2) is None
                &&& plan@ == rows_plan(
                    row_copies(
                        src.dtype.spec_size_in_bytes(),
                        d1,
                        d2,
                        src_stride1,
                        dst_stride1,
                        src_offset,
                        dst_offset,
                    ),
                )
            },
            Err(e) => copy2d_refusal(src.dtype, dst.dtype, d1, d2) == Some(e),
        },
{
    let mut copies: Vec<BufferCopy> = Vec::new();
    let ghost width = src.dtype.spec_size_in_bytes();
    if src.dtype != dst.dtype {
        return Err(Error::DTypeMismatch { op: Op::Copy2d, lhs: src.dtype, rhs: dst.dtype });
    }
    if d1 == 0 || d2 == 0 {
        proof {
            assert(copies@ =~= row_copies(
                width,
                d1,
                d2,
                src_stride1,
                dst_stride1,
                src_offset,
                dst_offset,
            ));
        }
        return Ok(RowsPlan::Copies(copies));
    }
    let bytes_per: u64 = match elem_bytes(src.dtype) {
        Ok(b) => b,
        Err(e) => {
            return Err(e);
        },
    };
    proof {
        let (n, ss, ds) = (d1 - 1, src_stride1 * width, dst_stride1 * width);
        assert(n * ss >= 0 && n * ds >= 0) by (nonlinear_arith)
            requires
                n >= 0,
                ss >= 0,
                ds >= 0,
        ;
    }
    let row_bytes: u64 = d2 as u64 * bytes_per;
    let src_stride_bytes: u64 = src_stride1 as u64 * bytes_per;
    let dst_stride_bytes: u64 = dst_stride1 as u64 * bytes_per;
    let src_start: u64 = src_offset as u64 * bytes_per;
    let dst_start: u64 = dst_offset as u64 * bytes_per;
    let mut i: usize = 0;
    while i < d1
        invariant
            0 <= i <= d1,
            d2 > 0,
            width == src.dtype.spec_size_in_bytes(),
            rows_addressable(width, d1, d2, src_stride1, src_offset),
            rows_addressable(width, d1, d2, dst_stride1, dst_offset),
            row_bytes == d2 * width,
            src_stride_bytes == src_stride1 * width,
            dst_stride_bytes == dst_stride1 * width,
            src_start == src_offset * width,
            dst_start == dst_offset * width,
            copies@ == row_copies(
                width,
                d1,
                d2,
                src_stride1,
                dst_stride1,
                src_offset,
                dst_offset,
            ).take(i as int),
            all_addressable(copies@),
        decreases d1 - i,
    {
        proof {
            let (k, n, a, b) = (
                i as int,
                d1 - 1,
                src_stride_bytes as int,
                dst_stride_bytes as int,
            );
            assert(0 <= k * a <= n * a && 0 <= k * b <= n * b) by (nonlinear_arith)
                requires
                    0 <= k <= n,
                    a >= 0,
                    b >= 0,
            ;
        }
        copies.push(
            BufferCopy {
                src_offset: src_start + i as u64 * src_stride_bytes,
                dst_offset: dst_start + i as u64 * dst_stride_bytes,
                size: row_bytes,
            },
        );
        proof {
            let all = row_copies(width, d1, d2, src_stride1, dst_stride1, src_offset, dst_offset);
            assert(copies@.last() == all[i as int]);
            assert(all.take(i + 1) =~= all.take(i as int).push(all[i as int]));
        }
        i = i + 1;
    }
    proof {
        let all = row_copies(width, d1, d2, src_stride1, dst_stride1, src_offset, dst_offset);
        assert(all.take(i as int) =~= all);
    }
    Ok(plan_rows(copies))
}

/// The copies of all rows, in order.
pub open spec fn row_copies(
    width: nat,
    d1: usize,
    d2: usize,
    src_stride1: usize,
    dst_stride1: usize,
    src_offset: usize,
    dst_offset: usize,
) -> Seq<BufferCopy> {
    Seq::new(
        if d2 == 0 {
            0
        } else {
            d1 as nat
        },
        |i: int|
            row_copy(width, d2, src_stride1, dst_stride1, src_offset, dst_offset, i),
    )
}

/// The bytes of a destination after one copy command.
pub open spec fn copied(src: Seq<u8>, dst: Seq<u8>, c: BufferCopy) -> Seq<u8> {
    Seq::new(
        dst.len(),
        |p: int|
            if c.dst_offset <= p < c.dst_offset + c.size {
                src[p - c.dst_offset + c.src_offset]
            } else {
                dst[p]
            },
    )
}

/// The bytes of a destination after a list of copy commands.
pub open spec fn all_copied(src: Seq<u8>, dst: Seq<u8>, copies: Seq<BufferCopy>) -> Seq<u8>
    decreases copies.len(),
{
    if copies.len() == 0 {
        dst
    } else {
        copied(src, all_copied(src, dst, copies.drop_last()), copies.last())
    }
}

/// The bytes of a destination after a kernel has moved bytes into it: byte `p`
/// of the destination's window is replaced where it is one of the moved ones.
pub open spec fn moved(src: Seq<u8>, dst: Seq<u8>, m: ByteMoveView) -> Seq<u8> {
    let (from, to, n) = (m.kernel.meta[0], m.kernel.meta[1], m.kernel.meta[2]);
    Seq::new(
        dst.len(),
        |p: int|
            if to <= p - m.dst.base < to + n {
                src[m.src.base + (p - m.dst.base - to + from)]
            } else {
                dst[p]
            },
    )
}

/// The bytes of a destination after kernels have moved bytes, in order.
pub open spec fn all_moved(src: Seq<u8>, dst: Seq<u8>, ms: Seq<ByteMoveView>) -> Seq<u8>
    decreases ms.len(),
{
    if ms.len() == 0 {
        dst
    } else {
        moved(src, all_moved(src, dst, ms.drop_last()), ms.last())
    }
}

/// The bytes of a destination after rows were copied.
pub open spec fn rows_copied(src: Seq<u8>, dst: Seq<u8>, plan: RowsPlanView) -> Seq<u8> {
    match plan {
        RowsPlanView::Copies(v) => all_copied(src, dst, v),
        RowsPlanView::Moves(v) => all_moved(src, dst, v),
    }
}

proof fn lemma_move_is_copy(src: Seq<u8>, dst: Seq<u8>, c: BufferCopy)
    requires
        c.size <= PIECE_BYTES,
    ensures
        moved(src, dst, byte_move_of(c)) == copied(src, dst, c),
{
    let m = byte_move_of(c);
    assert(m.src.base + m.kernel.meta[0] == c.src_offset);
    assert(m.dst.base + m.kernel.meta[1] == c.dst_offset);
    assert(moved(src, dst, m) =~= copied(src, dst, c));
}

proof fn lemma_all_copied_add(
    src: Seq<u8>,
    dst: Seq<u8>,
    a: Seq<BufferCopy>,
    b: Seq<BufferCopy>,
)
    ensures
        all_copied(src, dst, a + b) == all_copied(src, all_copied(src, dst, a), b),
    decreases b.len(),
{
    if b.len() == 0 {
        assert(a + b =~= a);
    } else {
        lemma_all_copied_add(src, dst, a, b.drop_last());
        assert((a + b).drop_last() =~= a + b.drop_last());
    }
}

/// The pieces together copy what the whole does.
proof fn lemma_pieces_copy(src: Seq<u8>, dst: Seq<u8>, c: BufferCopy)
    requires
        c.src_offset + c.size <= u64::MAX,
        c.dst_offset + c.size <= u64::MAX,
    ensures
        all_copied(src, dst, pieces_of(c)) == copied(src, dst, c),
        forall|i: int| 0 <= i < pieces_of(c).len() ==> (#[trigger] pieces_of(c)[i]).size <= PIECE_BYTES,
    decreases c.size,
{
    if c.size <= PIECE_BYTES {
        assert(pieces_of(c).drop_last() =~= Seq::<BufferCopy>::empty());
        assert(all_copied(src, dst, pieces_of(c).drop_last()) == dst);
    } else {
        let first = BufferCopy { size: PIECE_BYTES, ..c };
        let rest = BufferCopy {
            src_offset: (c.src_offset + PIECE_BYTES) as u64,
            dst_offset: (c.dst_offset + PIECE_BYTES) as u64,
            size: (c.size - PIECE_BYTES) as u64,
        };
        let mid = copied(src, dst, first);
        lemma_pieces_copy(src, mid, rest);
        assert(pieces_of(c) == seq![first] + pieces_of(rest));
        lemma_all_copied_add(src, dst, seq![first], pieces_of(rest));
        assert(seq![first].drop_last() =~= Seq::<BufferCopy>::empty());
        assert(all_copied(src, dst, seq![first].drop_last()) == dst);
        assert(all_copied(src, dst, seq![first]) == mid);
        assert(copied(src, mid, rest) =~= copied(src, dst, c));
    }
}

proof fn lemma_all_pieces_copy(src: Seq<u8>, dst: Seq<u8>, copies: Seq<BufferCopy>)
    requires
        all_addressable(copies),
    ensures
        all_copied(src, dst, all_pieces_of(copies)) == all_copied(src, dst, copies),
        forall|i: int|
            0 <= i < all_pieces_of(copies).len() ==> (#[trigger] all_pieces_of(copies)[i]).size
                <= PIECE_BYTES,
    decreases copies.len(),
{
    if copies.len() > 0 {
        let before = copies.drop_last();
        lemma_all_pieces_copy(src, dst, before);
        let mid = all_copied(src, dst, before);
        let c = copies[copies.len() - 1];
        lemma_pieces_copy(src, mid, c);
        lemma_all_copied_add(src, dst, all_pieces_of(before), pieces_of(c));
    }
}

proof fn lemma_all_moves_copy(src: Seq<u8>, dst: Seq<u8>, pieces: Seq<BufferCopy>)
    requires
        forall|i: int| 0 <= i < pieces.len() ==> (#[trigger] pieces[i]).size <= PIECE_BYTES,
    ensures
        all_moved(src, dst, pieces.map_values(|c: BufferCopy| byte_move_of(c))) == all_copied(
            src,
            dst,
            pieces,
        ),
    decreases pieces.len(),
{
    let f = |c: BufferCopy| byte_move_of(c);
    if pieces.len() > 0 {
        let before = pieces.drop_last();
        lemma_all_moves_copy(src, dst, before);
        assert(pieces.map_values(f).drop_last() =~= before.map_values(f));
        lemma_move_is_copy(src, all_copied(src, dst, before), pieces.last());
    }
}

/// However copies are carried out, by copy commands or by kernels, the
/// destination ends up the same.
pub proof fn law_moves_copy(src: Seq<u8>, dst: Seq<u8>, copies: Seq<BufferCopy>)
    requires
        all_addressable(copies),
    ensures
        rows_copied(src, dst, rows_plan(copies)) == all_copied(src, dst, copies),
        rows_copied(src, dst, RowsPlanView::Moves(moves_of(copies))) == all_copied(
            src,
            dst,
            copies,
        ),
{
    lemma_all_pieces_copy(src, dst, copies);
    lemma_all_moves_copy(src, dst, all_pieces_of(copies));
}

/// The window of some bytes starts where a binding may, holds the bytes, ends
/// within the buffer's last word that has one of them, and is no longer than
/// every adapter binds.
pub proof fn law_window_fits(offset: u64, size: u64)
    requires
        0 < size <= PIECE_BYTES,
        offset + size <= u64::MAX - 3,
    ensures
        ({
            let w = window_of(offset, size);
            &&& w.base % BINDING_ALIGNMENT == 0 && w.len % 4 == 0
            &&& w.base <= offset && offset + size <= w.base + w.len
            &&& w.base + w.len <= (offset + size + 3) / 4 * 4
            &&& w.len <= 134217728
        }),
{
}

/// After a block copy, element `dst_offset + i` of the destination has the
/// bytes of element `i` of the tensor, and nothing else has changed.
pub proof fn law_block_copy_moves_elements(
    dtype: DType,
    dst_offset: usize,
    l: LayoutView,
    src: Seq<u8>,
    dst: Seq<u8>,
)
    requires
        l.wf(),
        product(l.dims) > 0,
        l.is_single_block(),
        (l.start_offset + product(l.dims)) * dtype.spec_size_in_bytes() <= src.len() <= u64::MAX,
        (dst_offset + product(l.dims)) * dtype.spec_size_in_bytes() <= dst.len() <= u64::MAX,
    ensures
        ({
            let width = dtype.spec_size_in_bytes();
            let after = copied(src, dst, copy_plan(dtype, dst_offset, l)->Block_0);
            &&& forall|i: nat, k: nat|
                i < product(l.dims) && k < width ==> #[trigger] after[at(dst_offset + i, width, k)]
                    == src[at(l.address(i) as int, width, k)]
            &&& forall|p: int|
                0 <= p < dst.len() && !(dst_offset * width <= p < (dst_offset + product(l.dims))
                    * width) ==> #[trigger] after[p] == dst[p]
        }),
{
    let width = dtype.spec_size_in_bytes();
    let n = product(l.dims);
    let c = copy_plan(dtype, dst_offset, l)->Block_0;
    let after = copied(src, dst, c);
    let (so, d0) = (l.start_offset as int, dst_offset as int);
    assert(so * width + n * width == (so + n) * width && d0 * width + n * width == (d0 + n)
        * width) by (nonlinear_arith);
    assert(0 <= so * width && 0 <= d0 * width && 0 <= n * width) by (nonlinear_arith)
        requires
            so >= 0,
            d0 >= 0,
    ;
    assert forall|i: nat, k: nat| i < n && k < width implies #[trigger] after[at(
        dst_offset + i,
        width,
        k,
    )] == src[at(l.address(i) as int, width, k)] by {
        lemma_contiguous_is_linear(l.dims, l.stride, i);
        assert(0 <= i * width && i * width + k < n * width && (d0 + i) * width == d0 * width + i
            * width && (so + i) * width == so * width + i * width) by (nonlinear_arith)
            requires
                0 <= i < n,
                k < width,
        ;
    }
}

/// Byte `k` of element `i`, elements being `width` bytes.
pub open spec fn at(i: int, width: nat, k: nat) -> int {
    i * width + k
}

/// After the copies of rows that do not overlap in the destination, every row
/// has arrived, and every byte outside the rows is as before.
pub proof fn law_rows_arrive(
    width: nat,
    d1: usize,
    d2: usize,
    src_stride1: usize,
    dst_stride1: usize,
    src_offset: usize,
    dst_offset: usize,
    src: Seq<u8>,
    dst: Seq<u8>,
)
    requires
        d1 > 0 && d2 > 0,
        d1 > 1 ==> d2 <= dst_stride1,
        rows_addressable(width, d1, d2, src_stride1, src_offset),
        rows_addressable(width, d1, d2, dst_stride1, dst_offset),
        dst_offset * width + (d1 - 1) * (dst_stride1 * width) + d2 * width <= dst.len(),
    ensures
        ({
            let after = rows_copied(
                src,
                dst,
                rows_plan(
                    row_copies(width, d1, d2, src_stride1, dst_stride1, src_offset, dst_offset),
                ),
            );
            &&& after.len() == dst.len()
            &&& forall|i: int, b: int|
                0 <= i < d1 && 0 <= b < d2 * width ==> #[trigger] after[row_byte(
                    dst_offset,
                    dst_stride1,
                    width,
                    i,
                    b,
                )] == src[row_byte(src_offset, src_stride1, width, i, b)]
            &&& forall|p: int|
                0 <= p < dst.len() && (forall|i: int, b: int|
                    0 <= i < d1 && 0 <= b < d2 * width ==> p != #[trigger] row_byte(
                        dst_offset,
                        dst_stride1,
                        width,
                        i,
                        b,
                    )) ==> #[trigger] after[p] == dst[p]
        }),
{
    let all = row_copies(width, d1, d2, src_stride1, dst_stride1, src_offset, dst_offset);
    lemma_rows_arrive_up_to(
        width,
        d1,
        d2,
        src_stride1,
        dst_stride1,
        src_offset,
        dst_offset,
        src,
        dst,
        d1 as nat,
    );
    assert(all.take(d1 as int) =~= all);
    assert forall|i: int| 0 <= i < all.len() implies {
        &&& (#[trigger] all[i]).src_offset + all[i].size <= u64::MAX
        &&& all[i].dst_offset + all[i].size <= u64::MAX
    } by {
        let (n, a, b) = (d1 - 1, src_stride1 * width, dst_stride1 * width);
        assert(0 <= i * a <= n * a && 0 <= i * b <= n * b) by (nonlinear_arith)
            requires
                0 <= i <= n,
                a >= 0,
                b >= 0,
        ;
    }
    law_moves_copy(src, dst, all);
}

/// Byte `b` of row `i`.
pub open spec fn row_byte(offset: usize, stride: usize, width: nat, i: int, b: int) -> int {
    offset * width + i * (stride * width) + b
}

proof fn lemma_rows_arrive_up_to(
    width: nat,
    d1: usize,
    d2: usize,
    src_stride1: usize,
    dst_stride1: usize,
    src_offset: usize,
    dst_offset: usize,
    src: Seq<u8>,
    dst: Seq<u8>,
    m: nat,
)
    requires
        m <= d1,
        d1 > 0 && d2 > 0,
        d1 > 1 ==> d2 <= dst_stride1,
        rows_addressable(width, d1, d2, src_stride1, src_offset),
        rows_addressable(width, d1, d2, dst_stride1, dst_offset),
        dst_offset * width + (d1 - 1) * (dst_stride1 * width) + d2 * width <= dst.len(),
    ensures
        ({
            let after = all_copied(
                src,
                dst,
                row_copies(
                    width,
                    d1,
                    d2,
                    src_stride1,
                    dst_stride1,
                    src_offset,
                    dst_offset,
                ).take(m as int),
            );
            &&& after.len() == dst.len()
            &&& forall|i: int, b: int|
                0 <= i < m && 0 <= b < d2 * width ==> #[trigger] after[row_byte(
                    dst_offset,
                    dst_stride1,
                    width,
                    i,
                    b,
                )] == src[row_byte(src_offset, src_stride1, width, i, b)]
            &&& forall|p: int|
                0 <= p < dst.len() && (forall|i: int, b: int|
                    0 <= i < m && 0 <= b < d2 * width ==> p != #[trigger] row_byte(
                        dst_offset,
                        dst_stride1,
                        width,
                        i,
                        b,
                    )) ==> #[trigger] after[p] == dst[p]
        }),
    decreases m,
{
    let all = row_copies(width, d1, d2, src_stride1, dst_stride1, src_offset, dst_offset);
    if m > 0 {
        let h = (m - 1) as nat;
        lemma_rows_arrive_up_to(
            width,
            d1,
            d2,
            src_stride1,
            dst_stride1,
            src_offset,
            dst_offset,
            src,
            dst,
            h,
        );
        let cmds = all.take(m as int);
        assert(cmds.drop_last() =~= all.take(h as int));
        let before = all_copied(src, dst, all.take(h as int));
        let c = all[h as int];
        let after = copied(src, before, c);
        assert(all_copied(src, dst, cmds) == after);
        let (ss, ds, w2) = (src_stride1 * width, dst_stride1 * width, d2 * width);
        let (s0, d0) = (src_offset * width, dst_offset * width);
        let last = d1 - 1;
        assert(0 <= h * ss <= last * ss && 0 <= h * ds <= last * ds && 0 <= w2 && (d1 > 1 ==> w2
            <= ds) && 0 <= ds && 0 <= ss && 0 <= s0 && 0 <= d0) by (nonlinear_arith)
            requires
                0 <= h <= last,
                ss == src_stride1 * width,
                ds == dst_stride1 * width,
                w2 == d2 * width,
                s0 == src_offset * width,
                d0 == dst_offset * width,
                d1 > 1 ==> d2 <= dst_stride1,
        ;
        assert(c.src_offset == s0 + h * ss);
        assert(c.dst_offset == d0 + h * ds);
        assert(c.size == w2);
        assert forall|i: int, b: int| 0 <= i < m && 0 <= b < w2 implies #[trigger] after[row_byte(
            dst_offset,
            dst_stride1,
            width,
            i,
            b,
        )] == src[row_byte(src_offset, src_stride1, width, i, b)] by {
            let p = row_byte(dst_offset, dst_stride1, width, i, b);
            if i < h {
                assert(0 <= i * ds && i * ds + ds <= h * ds) by (nonlinear_arith)
                    requires
                        0 <= i < h,
                        ds >= 0,
                ;
                assert(p < c.dst_offset);
                assert(before[p] == src[row_byte(src_offset, src_stride1, width, i, b)]);
            } else {
                assert(i == h);
            }
        }
        assert forall|p: int|
            0 <= p < dst.len() && (forall|i: int, b: int|
                0 <= i < m && 0 <= b < w2 ==> p != #[trigger] row_byte(
                    dst_offset,
                    dst_stride1,
                    width,
                    i,
                    b,
                )) implies #[trigger] after[p] == dst[p] by {
            if c.dst_offset <= p < c.dst_offset + c.size {
                let b = p - c.dst_offset;
                assert(p == row_byte(dst_offset, dst_stride1, width, h as int, b));
            }
            assert(before[p] == dst[p]);
        }
    } else {
        assert(all.take(0) =~= Seq::<BufferCopy>::empty());
    }
}

} // verus!
