//! One kernel dispatch, and the arithmetic that all dispatches share.

use crate::device::WgpuDevice;
use crate::dtype::DType;
use crate::layout::{lemma_axis_at_most_product, product, strided_offset};
use crate::storage::{
    aligned_size, round_up, tensor_usage, Buffer, BufferUsages, BufferView, StorageView,
    WgpuStorage,
};
use crate::text::{replace, replace_all};
use vstd::prelude::*;

verus! {

/// Most axes that a kernel's uniform has room for.
pub const MAX_RANK: usize = 4;

/// Threads of one workgroup of the element-wise kernels.
pub const WORKGROUP_SIZE: u32 = 64;

/// Workgroups that every adapter accepts along one dimension of a dispatch.
pub const MAX_GROUPS_PER_DIM: u32 = 65535;

/// How an operand reaches the kernel.
#[derive(Clone, Copy, Debug, PartialEq, Eq, Structural)]
pub enum Lift {
    /// Its own buffer is bound.
    AsIs,
    /// A copy of its buffer is bound.
    Clone,
    /// Its elements are first gathered into a contiguous buffer.
    Gather,
    /// Its bf16 elements are first widened into a contiguous f32 buffer.
    Widen,
}

/// Shader templates.
#[derive(Clone, Copy, Debug, PartialEq, Eq, Structural)]
pub enum Template {
    Affine,
    Cast,
    Copy,
    CopyBf16,
    CopyBytes,
    ElementwiseBinary,
    ElementwiseUnary,
    IndexSelect,
    Matmul,
    MatmulF16,
    MatmulBf16,
    Reduce,
    Rope,
    Softmax,
}

/// Workgroups of a dispatch along its three dimensions.
#[derive(Clone, Copy, Debug, PartialEq, Eq, Structural)]
pub struct Groups {
    pub x: u32,
    pub y: u32,
    pub z: u32,
}

/// A marker of a template and the text that takes its place.
#[derive(Clone, Debug)]
pub struct Substitution {
    pub marker: &'static str,
    pub text: &'static str,
}

/// A pipeline, its uniform and its workgroups.
#[derive(Clone, Debug)]
pub struct Kernel {
    /// Key of the pipeline in the device's cache.
    pub key: String,
    /// Template of the pipeline's shader, and what is substituted in it.
    pub template: Template,
    pub substitutions: Vec<Substitution>,
    /// Words of the uniform.
    pub meta: Vec<u32>,
    pub groups: Groups,
}

/// What a [`Kernel`] stands for.
#[verifier::ext_equal]
pub struct KernelView {
    pub key: Seq<char>,
    pub template: Template,
    pub substitutions: Seq<(Seq<char>, Seq<char>)>,
    pub meta: Seq<u32>,
    pub groups: Groups,
}

/// A kernel dispatch. The uniform is bound first, then the operands in the
/// order of the operation's arguments, then the output.
#[derive(Clone, Debug)]
pub struct Dispatch {
    pub kernel: Kernel,
    /// How each operand is bound.
    pub lifts: Vec<Lift>,
    /// The storage that is created for the kernel to write.
    pub output: WgpuStorage,
    /// Dtype of the operation's result; where it is bf16 and the output is
    /// f32, the output is narrowed.
    pub result_dtype: DType,
}

/// What a [`Dispatch`] stands for.
#[verifier::ext_equal]
pub struct DispatchView {
    pub kernel: KernelView,
    pub lifts: Seq<Lift>,
    pub output: StorageView,
    pub result_dtype: DType,
}

/// What an operation that accepts empty tensors asks of the GPU.
#[derive(Clone, Debug)]
pub enum Outcome {
    /// The result has no elements: this is its storage.
    Ready(WgpuStorage),
    /// A kernel writes the result.
    Run(Dispatch),
}

/// What an [`Outcome`] stands for.
pub enum OutcomeView {
    Ready(StorageView),
    Run(DispatchView),
}

impl View for Outcome {
    type V = OutcomeView;

    open spec fn view(&self) -> OutcomeView {
        match self {
            Outcome::Ready(s) => OutcomeView::Ready(s@),
            Outcome::Run(d) => OutcomeView::Run(d@),
        }
    }
}

impl View for Substitution {
    type V = (Seq<char>, Seq<char>);

    open spec fn view(&self) -> (Seq<char>, Seq<char>) {
        (self.marker@, self.text@)
    }
}

impl View for Kernel {
    type V = KernelView;

    open spec fn view(&self) -> KernelView {
        KernelView {
            key: self.key@,
            template: self.template,
            substitutions: self.substitutions@.map_values(|s: Substitution| s@),
            meta: self.meta@,
            groups: self.groups,
        }
    }
}

impl View for Dispatch {
    type V = DispatchView;

    open spec fn view(&self) -> DispatchView {
        DispatchView {
            kernel: self.kernel@,
            lifts: self.lifts@,
            output: self.output@,
            result_dtype: self.result_dtype,
        }
    }
}

/// `template` with the substitutions made one after another.
pub open spec fn rendered(template: Seq<char>, subs: Seq<(Seq<char>, Seq<char>)>) -> Seq<char>
    decreases subs.len(),
{
    if subs.len() == 0 {
        template
    } else {
        replace_all(rendered(template, subs.drop_last()), subs.last().0, subs.last().1)
    }
}

impl Kernel {
    /// The source of the shader: `template` with the substitutions made.
    pub fn render_wgsl(&self, template: &str) -> (r: String)
        requires
            forall|i: int|
                0 <= i < self.substitutions@.len() ==> (
                #[trigger] self.substitutions@[i]).marker@.len() > 0,
        ensures
            r@ == rendered(template@, self@.substitutions),
    {
        let mut out: String = template.to_owned();
        let mut i: usize = 0;
        while i < self.substitutions.len()
            invariant
                0 <= i <= self.substitutions@.len(),
                forall|j: int|
                    0 <= j < self.substitutions@.len() ==> (
                    #[trigger] self.substitutions@[j]).marker@.len() > 0,
                out@ == rendered(template@, self@.substitutions.take(i as int)),
            decreases self.substitutions.len() - i,
        {
            let s: &Substitution = &self.substitutions[i];
            proof {
                assert(self.substitutions@[i as int].marker@.len() > 0);
                assert(self@.substitutions.take(i + 1).drop_last() =~= self@.substitutions.take(
                    i as int,
                ));
            }
            out = replace(out.as_str(), s.marker, s.text);
            i = i + 1;
        }
        proof {
            assert(self@.substitutions.take(i as int) =~= self@.substitutions);
        }
        out
    }
}

/// Ceiling of `a / b`.
pub open spec fn ceil_div(a: nat, b: nat) -> nat {
    ((a + b - 1) as nat) / b
}

/// Ceiling of `a / b`.
pub fn div_ceil(a: u32, b: u32) -> (r: u32)
    requires
        b > 0,
    ensures
        r == ceil_div(a as nat, b as nat),
        r * b >= a,
        r <= a,
        r == 0 <==> a == 0,
{
    let r: u64 = (a as u64 + (b as u64 - 1)) / b as u64;
    proof {
        let (x, y) = (a as int, b as int);
        assert(0 <= (x + y - 1) / y <= x && ((x + y - 1) / y) * y >= x && (((x + y - 1) / y == 0)
            <==> x == 0)) by (nonlinear_arith)
            requires
                0 <= x,
                0 < y,
        ;
    }
    r as u32
}

/// A one-dimensional dispatch of `groups` workgroups, split over two
/// dimensions where it exceeds what one dimension takes.
pub open spec fn split_groups(groups: nat) -> (u32, u32) {
    if groups <= MAX_GROUPS_PER_DIM {
        (if groups == 0 {
            1
        } else {
            groups as u32
        }, 1)
    } else {
        (MAX_GROUPS_PER_DIM, ceil_div(groups, MAX_GROUPS_PER_DIM as nat) as u32)
    }
}

/// Splits a one-dimensional workgroup count. A kernel recovers its linear
/// index as `x + y * groups_x * WORKGROUP_SIZE` and returns early behind the
/// last element.
pub fn split_1d_dispatch(groups: u32) -> (r: (u32, u32))
    ensures
        r == split_groups(groups as nat),
{
    if groups <= MAX_GROUPS_PER_DIM {
        (if groups == 0 {
            1
        } else {
            groups
        }, 1)
    } else {
        (MAX_GROUPS_PER_DIM, div_ceil(groups, MAX_GROUPS_PER_DIM))
    }
}

/// Workgroups of a kernel that has one thread per element.
pub open spec fn linear_groups(n: nat) -> Groups {
    let g = split_groups(ceil_div(n, WORKGROUP_SIZE as nat));
    Groups { x: g.0, y: g.1, z: 1 }
}

/// Workgroups of a kernel that has one thread per element.
pub fn linear_dispatch(n: u32) -> (r: Groups)
    ensures
        r == linear_groups(n as nat),
{
    let g: (u32, u32) = split_1d_dispatch(div_ceil(n, WORKGROUP_SIZE));
    Groups { x: g.0, y: g.1, z: 1 }
}

/// The split dispatch runs every workgroup that was asked for, at least one,
/// and no dimension exceeds what adapters accept.
pub proof fn law_split_covers(groups: u32)
    ensures
        ({
            let (x, y) = split_groups(groups as nat);
            &&& x * y >= groups
            &&& 1 <= x <= MAX_GROUPS_PER_DIM
            &&& 1 <= y <= MAX_GROUPS_PER_DIM + 2
            &&& groups <= MAX_GROUPS_PER_DIM * MAX_GROUPS_PER_DIM ==> y <= MAX_GROUPS_PER_DIM
        }),
{
    let g = groups as nat;
    if g > 65535 {
        let q = (g + 65534) / 65535;
        assert(q * 65535 >= g);
    }
}

/// Every element index of a kernel with one thread per element is reached by
/// exactly one thread of its dispatch, which stays within what adapters
/// accept.
pub proof fn law_every_element_has_a_thread(n: u32, i: nat)
    requires
        i < n,
    ensures
        ({
            let Groups { x: gx, y: gy, z: gz } = linear_groups(n as nat);
            let width = gx * WORKGROUP_SIZE;
            &&& gx <= MAX_GROUPS_PER_DIM && gy <= MAX_GROUPS_PER_DIM && gz == 1
            &&& exists|x: int, y: int|
                #![trigger thread_index(x, y, gx as int)]
                0 <= x < width && 0 <= y < gy && thread_index(x, y, gx as int) == i
            &&& forall|x: int, y: int, u: int, v: int|
                0 <= x < width && 0 <= u < width && 0 <= y && 0 <= v && #[trigger] thread_index(
                    x,
                    y,
                    gx as int,
                ) == i && #[trigger] thread_index(u, v, gx as int) == i ==> x == u && y == v
        }),
{
    let g = ceil_div(n as nat, 64);
    let Groups { x: gx, y: gy, z: _ } = linear_groups(n as nat);
    let width = gx * 64;
    assert(g * 64 >= n && g <= 0x400_0000);
    law_split_covers(g as u32);
    let (x, y) = (i as int % width, i as int / width);
    assert(0 <= x < width && i == y * width + x && 0 <= y < gy) by (nonlinear_arith)
        requires
            width > 0,
            x == i as int % width,
            y == i as int / width,
            i < gx * gy * 64,
            width == gx * 64,
    ;
    assert(thread_index(x, y, gx as int) == i) by (nonlinear_arith)
        requires
            i == y * width + x,
            width == gx * 64,
    ;
    assert forall|x: int, y: int, u: int, v: int|
        0 <= x < width && 0 <= u < width && 0 <= y && 0 <= v && #[trigger] thread_index(
            x,
            y,
            gx as int,
        ) == i && #[trigger] thread_index(u, v, gx as int) == i implies x == u && y == v by {
        assert(x == u && y == v) by (nonlinear_arith)
            requires
                0 <= x < width,
                0 <= u < width,
                0 <= y,
                0 <= v,
                x + y * gx * 64 == u + v * gx * 64,
                width == gx * 64,
        ;
    }
}

/// The linear index that the thread at column `x` of row `y` recovers.
pub open spec fn thread_index(x: int, y: int, groups_x: int) -> int {
    x + y * groups_x * 64
}

/// The storage that a kernel writes `len` elements of `dtype` to.
pub open spec fn out_storage(
    label: Seq<char>,
    len: nat,
    dtype: DType,
    device: WgpuDevice,
) -> StorageView {
    StorageView {
        buffer: BufferView {
            label,
            size: round_up(len * dtype.spec_size_in_bytes()),
            usage: tensor_usage(),
            mapped_at_creation: false,
            bytes: Seq::empty(),
        },
        len,
        dtype,
        device,
    }
}

/// The storage that a kernel writes `len` elements of `dtype` to.
pub fn output_storage(label: &'static str, len: usize, dtype: DType, device: WgpuDevice) -> (r:
    WgpuStorage)
    requires
        len * dtype.spec_size_in_bytes() <= u64::MAX - 3,
    ensures
        r@ == out_storage(label@, len as nat, dtype, device),
{
    let elem_bytes: u64 = dtype.size_in_bytes() as u64;
    let size: u64 = aligned_size(len as u64 * elem_bytes);
    let r = WgpuStorage {
        buffer: Buffer {
            label,
            size,
            usage: BufferUsages {
                storage: true,
                uniform: false,
                copy_src: true,
                copy_dst: true,
                map_read: false,
            },
            mapped_at_creation: false,
            bytes: Vec::new(),
        },
        len,
        dtype,
        device,
    };
    proof {
        assert(r@ =~= out_storage(label@, len as nat, dtype, device));
    }
    r
}

/// The four words that hold `s` in a uniform, `fill` in the unused places.
pub open spec fn padded4(s: Seq<usize>, fill: u32) -> Seq<u32> {
    Seq::new(
        4,
        |i: int|
            if i < s.len() {
                s[i] as u32
            } else {
                fill
            },
    )
}

/// Appends the four words that hold `s`.
pub fn push_padded(meta: &mut Vec<u32>, s: &[usize], fill: u32)
    requires
        s@.len() <= 4,
        forall|i: int| 0 <= i < s@.len() ==> s@[i] <= u32::MAX,
    ensures
        final(meta)@ == old(meta)@ + padded4(s@, fill),
{
    let mut i: usize = 0;
    while i < 4
        invariant
            0 <= i <= 4,
            s@.len() <= 4,
            forall|j: int| 0 <= j < s@.len() ==> s@[j] <= u32::MAX,
            meta@ == old(meta)@ + padded4(s@, fill).take(i as int),
        decreases 4 - i,
    {
        let w: u32 = if i < s.len() {
            s[i] as u32
        } else {
            fill
        };
        let ghost before = meta@;
        meta.push(w);
        proof {
            assert(padded4(s@, fill).take(i + 1) =~= padded4(s@, fill).take(i as int).push(w));
            assert(meta@ =~= old(meta)@ + padded4(s@, fill).take(i + 1));
        }
        i = i + 1;
    }
    proof {
        assert(padded4(s@, fill).take(4) =~= padded4(s@, fill));
    }
}

/// The unused places of a uniform's shape and strides do not move any
/// element: the padded words address the tensor that they were made from.
pub proof fn law_padding_keeps_addresses(dims: Seq<usize>, stride: Seq<usize>, linear: nat)
    requires
        dims.len() == stride.len() <= 4,
        forall|i: int| 0 <= i < dims.len() ==> dims[i] <= u32::MAX && stride[i] <= u32::MAX,
    ensures
        strided_offset(
            padded4(dims, 1).map_values(|w: u32| w as usize),
            padded4(stride, 0).map_values(|w: u32| w as usize),
            linear,
        ) == strided_offset(dims, stride, linear),
{
    let d = padded4(dims, 1).map_values(|w: u32| w as usize);
    let s = padded4(stride, 0).map_values(|w: u32| w as usize);
    lemma_trailing_units(d, s, dims.len() as int, linear);
    assert(d.take(dims.len() as int) =~= dims);
    assert(s.take(dims.len() as int) =~= stride);
}

proof fn lemma_trailing_units(d: Seq<usize>, s: Seq<usize>, n: int, linear: nat)
    requires
        0 <= n <= d.len() == s.len(),
        forall|i: int| n <= i < d.len() ==> d[i] == 1 && s[i] == 0,
    ensures
        strided_offset(d, s, linear) == strided_offset(d.take(n), s.take(n), linear),
    decreases d.len(),
{
    if n == d.len() {
        assert(d.take(n) =~= d);
        assert(s.take(n) =~= s);
    } else {
        lemma_trailing_units(d.drop_last(), s.drop_last(), n, linear);
        assert(d.drop_last().take(n) =~= d.take(n));
        assert(s.drop_last().take(n) =~= s.take(n));
        assert(linear / 1 == linear && linear % 1 == 0);
    }
}

/// The first place from `from` on whose entry exceeds 32 bits.
pub open spec fn first_wide(s: Seq<usize>, from: nat) -> Option<nat>
    decreases s.len() - from,
{
    if from >= s.len() {
        None
    } else if s[from as int] > u32::MAX {
        Some(from)
    } else {
        first_wide(s, from + 1)
    }
}

/// The first place from `from` on at which an entry of `a` or else of `b`
/// exceeds 32 bits, and whether it is `b`'s.
pub open spec fn first_wide_pair(a: Seq<usize>, b: Seq<usize>, from: nat) -> Option<(nat, bool)>
    decreases a.len() - from,
{
    if from >= a.len() {
        None
    } else if a[from as int] > u32::MAX {
        Some((from, false))
    } else if b[from as int] > u32::MAX {
        Some((from, true))
    } else {
        first_wide_pair(a, b, from + 1)
    }
}

/// The first place whose entry exceeds 32 bits.
pub fn find_wide(s: &[usize]) -> (r: Option<usize>)
    ensures
        match r {
            Some(i) => first_wide(s@, 0) == Some(i as nat) && i < s@.len(),
            None => first_wide(s@, 0) is None && forall|i: int|
                0 <= i < s@.len() ==> s@[i] <= u32::MAX,
        },
{
    let mut i: usize = 0;
    while i < s.len()
        invariant
            0 <= i <= s@.len(),
            first_wide(s@, 0) == first_wide(s@, i as nat),
            forall|j: int| 0 <= j < i ==> s@[j] <= u32::MAX,
        decreases s.len() - i,
    {
        if s[i] as u64 > u32::MAX as u64 {
            return Some(i);
        }
        i = i + 1;
    }
    None
}

/// The first place at which an entry of `a` or else of `b` exceeds 32 bits,
/// and whether it is `b`'s.
pub fn find_wide_pair(a: &[usize], b: &[usize]) -> (r: Option<(usize, bool)>)
    requires
        a@.len() == b@.len(),
    ensures
        match r {
            Some((i, second)) => first_wide_pair(a@, b@, 0) == Some((i as nat, second)) && i
                < a@.len(),
            None => first_wide_pair(a@, b@, 0) is None && forall|i: int|
                0 <= i < a@.len() ==> a@[i] <= u32::MAX && b@[i] <= u32::MAX,
        },
{
    let mut i: usize = 0;
    while i < a.len()
        invariant
            0 <= i <= a@.len(),
            a@.len() == b@.len(),
            first_wide_pair(a@, b@, 0) == first_wide_pair(a@, b@, i as nat),
            forall|j: int| 0 <= j < i ==> a@[j] <= u32::MAX && b@[j] <= u32::MAX,
        decreases a.len() - i,
    {
        if a[i] as u64 > u32::MAX as u64 {
            return Some((i, false));
        }
        if b[i] as u64 > u32::MAX as u64 {
            return Some((i, true));
        }
        i = i + 1;
    }
    None
}

/// Whether an entry exceeds 32 bits.
pub fn is_wide(n: usize) -> (r: bool)
    ensures
        r == (n > u32::MAX),
{
    n as u64 > u32::MAX as u64
}

/// In a tensor with between one and `u32::MAX` elements every axis fits 32
/// bits.
pub proof fn lemma_axes_fit(dims: Seq<usize>)
    requires
        0 < product(dims) <= u32::MAX,
    ensures
        forall|i: int| 0 <= i < dims.len() ==> dims[i] <= u32::MAX,
{
    assert forall|i: int| 0 <= i < dims.len() implies dims[i] <= u32::MAX by {
        lemma_axis_at_most_product(dims, i);
    }
}

} // verus!
