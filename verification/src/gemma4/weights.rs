//! Which tensors of a file the weights of a model are: by name, with older
//! names to fall back on, and with tensors that a file may lack.

use crate::dtype::GgmlDType;
use crate::error::Error;
use crate::ops::scalar::same_dims;
use crate::tensor::op::Leaf;
use crate::text::str_eq;
use vstd::prelude::*;

verus! {

/// A tensor of a file.
#[derive(Clone, Debug)]
pub struct TensorInfo {
    pub name: String,
    pub dims: Vec<usize>,
    pub dtype: GgmlDType,
    /// Bytes that it takes up.
    pub bytes: u64,
}

/// What a [`TensorInfo`] stands for.
#[verifier::ext_equal]
pub struct TensorInfoView {
    pub name: Seq<char>,
    pub dims: Seq<usize>,
    pub dtype: GgmlDType,
    pub bytes: u64,
}

impl View for TensorInfo {
    type V = TensorInfoView;

    open spec fn view(&self) -> TensorInfoView {
        TensorInfoView { name: self.name@, dims: self.dims@, dtype: self.dtype, bytes: self.bytes }
    }
}

/// The tensors of a file.
#[derive(Clone, Debug)]
pub struct Directory {
    pub tensors: Vec<TensorInfo>,
}

impl View for Directory {
    type V = Seq<TensorInfoView>;

    open spec fn view(&self) -> Seq<TensorInfoView> {
        self.tensors@.map_values(|t: TensorInfo| t@)
    }
}

/// Where the tensor of the given name stands, if it is there; the first of
/// several counts.
pub open spec fn find(dir: Seq<TensorInfoView>, name: Seq<char>) -> Option<int>
    decreases dir.len(),
{
    if dir.len() == 0 {
        None
    } else {
        match find(dir.drop_last(), name) {
            Some(i) => Some(i),
            None => if dir.last().name == name {
                Some(dir.len() - 1)
            } else {
                None
            },
        }
    }
}

/// The place is that of the tensor of the given name, and there is none where
/// no tensor has it.
pub proof fn law_find(dir: Seq<TensorInfoView>, name: Seq<char>)
    ensures
        match find(dir, name) {
            Some(i) => {
                &&& 0 <= i < dir.len() && dir[i].name == name
                &&& forall|j: int| 0 <= j < i ==> (#[trigger] dir[j]).name != name
            },
            None => forall|j: int| 0 <= j < dir.len() ==> (#[trigger] dir[j]).name != name,
        },
    decreases dir.len(),
{
    if dir.len() > 0 {
        let rest = dir.drop_last();
        law_find(rest, name);
        assert forall|j: int| 0 <= j < rest.len() implies #[trigger] dir[j] == rest[j] by {}
    }
}

impl Directory {
    /// Where the tensor of the given name stands, if it is there.
    pub fn position(&self, name: &str) -> (r: Option<usize>)
        ensures
            match r {
                Some(i) => find(self@, name@) == Some(i as int) && i < self@.len(),
                None => find(self@, name@) is None,
            },
    {
        let n: usize = self.tensors.len();
        let mut i: usize = 0;
        proof {
            assert(self@.take(0) =~= Seq::<TensorInfoView>::empty());
        }
        while i < n
            invariant
                n == self.tensors@.len(),
                0 <= i <= n,
                find(self@.take(i as int), name@) is None,
            decreases n - i,
        {
            proof {
                assert(self@.take(i + 1).drop_last() =~= self@.take(i as int));
                assert(self@.take(i + 1).last() == self.tensors@[i as int]@);
            }
            if str_eq(self.tensors[i].name.as_str(), name) {
                proof {
                    lemma_find_prefix(self@, name@, (i + 1) as nat);
                }
                return Some(i);
            }
            i = i + 1;
        }
        proof {
            assert(self@.take(n as int) =~= self@);
        }
        None
    }
}

proof fn lemma_find_prefix(dir: Seq<TensorInfoView>, name: Seq<char>, k: nat)
    requires
        k <= dir.len(),
        find(dir.take(k as int), name) is Some,
    ensures
        find(dir, name) == find(dir.take(k as int), name),
    decreases dir.len() - k,
{
    if k == dir.len() {
        assert(dir.take(k as int) =~= dir);
    } else {
        assert(dir.take((k + 1) as int).drop_last() =~= dir.take(k as int));
        lemma_find_prefix(dir, name, k + 1);
    }
}

/// A weight that a model asks for: under a name or, where the file has no such
/// tensor, under another one, and with a given shape where that is fixed.
#[derive(Clone, Debug)]
pub struct Request {
    pub leaf: Leaf,
    pub name: String,
    pub fallback: Option<String>,
    pub dims: Option<Vec<usize>>,
}

/// What a [`Request`] stands for.
#[verifier::ext_equal]
pub struct RequestView {
    pub leaf: Leaf,
    pub name: Seq<char>,
    pub fallback: Option<Seq<char>>,
    pub dims: Option<Seq<usize>>,
}

impl View for Request {
    type V = RequestView;

    open spec fn view(&self) -> RequestView {
        RequestView {
            leaf: self.leaf,
            name: self.name@,
            fallback: match self.fallback {
                Some(f) => Some(f@),
                None => None,
            },
            dims: match self.dims {
                Some(d) => Some(d@),
                None => None,
            },
        }
    }
}

/// What requests stand for.
pub open spec fn requests(v: Seq<Request>) -> Seq<RequestView> {
    v.map_values(|r: Request| r@)
}

/// The tensor that a request is met by.
pub open spec fn chosen(dir: Seq<TensorInfoView>, r: RequestView) -> Option<int> {
    match find(dir, r.name) {
        Some(i) => Some(i),
        None => match r.fallback {
            Some(f) => find(dir, f),
            None => None,
        },
    }
}

/// Why a request cannot be met, if it cannot.
pub open spec fn request_refusal(dir: Seq<TensorInfoView>, r: RequestView) -> Option<Error> {
    match chosen(dir, r) {
        None => Some(Error::MissingTensor { leaf: r.leaf }),
        Some(i) => match r.dims {
            Some(d) if d != dir[i].dims => Some(Error::TensorShape { leaf: r.leaf }),
            _ => None,
        },
    }
}

/// Why requests cannot all be met, if they cannot; the first of several
/// reasons counts.
pub open spec fn refusal(dir: Seq<TensorInfoView>, rs: Seq<RequestView>) -> Option<Error>
    decreases rs.len(),
{
    if rs.len() == 0 {
        None
    } else {
        match refusal(dir, rs.drop_last()) {
            Some(e) => Some(e),
            None => request_refusal(dir, rs.last()),
        }
    }
}

/// A weight and the tensor of the file that it is, by its place.
#[derive(Clone, Copy, Debug, PartialEq, Eq, Structural)]
pub struct Binding {
    pub leaf: Leaf,
    pub tensor: usize,
}

/// The tensors that meet the requests.
pub open spec fn bindings(dir: Seq<TensorInfoView>, rs: Seq<RequestView>) -> Seq<Binding> {
    Seq::new(
        rs.len(),
        |i: int| Binding { leaf: rs[i].leaf, tensor: chosen(dir, rs[i])->0 as usize },
    )
}

fn pick(dir: &Directory, r: &Request) -> (t: Option<usize>)
    ensures
        match t {
            Some(i) => chosen(dir@, r@) == Some(i as int) && i < dir@.len(),
            None => chosen(dir@, r@) is None,
        },
{
    match dir.position(r.name.as_str()) {
        Some(i) => Some(i),
        None => match &r.fallback {
            Some(f) => dir.position(f.as_str()),
            None => None,
        },
    }
}

/// Meets a request.
pub fn resolve(dir: &Directory, r: &Request) -> (t: Result<usize, Error>)
    ensures
        match t {
            Ok(i) => request_refusal(dir@, r@) is None && chosen(dir@, r@) == Some(i as int) && i
                < dir@.len(),
            Err(e) => request_refusal(dir@, r@) == Some(e),
        },
{
    match pick(dir, r) {
        None => Err(Error::MissingTensor { leaf: r.leaf }),
        Some(i) => match &r.dims {
            Some(d) => {
                if same_dims(d, &dir.tensors[i].dims) {
                    Ok(i)
                } else {
                    Err(Error::TensorShape { leaf: r.leaf })
                }
            },
            None => Ok(i),
        },
    }
}

proof fn lemma_refusal_prefix(dir: Seq<TensorInfoView>, rs: Seq<RequestView>, k: nat)
    requires
        k <= rs.len(),
        refusal(dir, rs.take(k as int)) is Some,
    ensures
        refusal(dir, rs) == refusal(dir, rs.take(k as int)),
    decreases rs.len() - k,
{
    if k == rs.len() {
        assert(rs.take(k as int) =~= rs);
    } else {
        assert(rs.take((k + 1) as int).drop_last() =~= rs.take(k as int));
        lemma_refusal_prefix(dir, rs, k + 1);
    }
}

/// Requests can all be met exactly where each of them can.
pub proof fn law_refusal(dir: Seq<TensorInfoView>, rs: Seq<RequestView>)
    ensures
        refusal(dir, rs) is None <==> forall|i: int|
            0 <= i < rs.len() ==> request_refusal(dir, #[trigger] rs[i]) is None,
    decreases rs.len(),
{
    if rs.len() > 0 {
        let rest = rs.drop_last();
        law_refusal(dir, rest);
        assert forall|i: int| 0 <= i < rest.len() implies #[trigger] rs[i] == rest[i] by {}
        if refusal(dir, rs) is None {
            assert forall|i: int| 0 <= i < rs.len() implies request_refusal(
                dir,
                #[trigger] rs[i],
            ) is None by {
                if i < rest.len() {
                    assert(rest[i] == rs[i]);
                }
            }
        } else if refusal(dir, rest) is Some {
            let i = choose|i: int|
                0 <= i < rest.len() && request_refusal(dir, #[trigger] rest[i]) is Some;
            assert(rs[i] == rest[i]);
        } else {
            assert(request_refusal(dir, rs[rs.len() - 1]) is Some);
        }
    }
}

/// Meets requests, in order; fails at the first that cannot be met.
pub fn resolve_all(dir: &Directory, rs: &Vec<Request>) -> (r: Result<Vec<Binding>, Error>)
    ensures
        match r {
            Ok(b) => refusal(dir@, requests(rs@)) is None && b@ == bindings(dir@, requests(rs@)),
            Err(e) => refusal(dir@, requests(rs@)) == Some(e),
        },
{
    let ghost all = requests(rs@);
    let n: usize = rs.len();
    let mut out: Vec<Binding> = Vec::new();
    let mut i: usize = 0;
    proof {
        assert(all.take(0) =~= Seq::<RequestView>::empty());
        assert(out@ =~= bindings(dir@, all.take(0)));
    }
    while i < n
        invariant
            n == rs@.len(),
            all == requests(rs@),
            0 <= i <= n,
            refusal(dir@, all.take(i as int)) is None,
            out@ == bindings(dir@, all.take(i as int)),
        decreases n - i,
    {
        proof {
            assert(all.take(i + 1).drop_last() =~= all.take(i as int));
            assert(all.take(i + 1).last() == rs@[i as int]@);
        }
        match resolve(dir, &rs[i]) {
            Ok(t) => {
                out.push(Binding { leaf: rs[i].leaf, tensor: t });
                proof {
                    assert(out@ =~= bindings(dir@, all.take(i + 1)));
                }
            },
            Err(e) => {
                proof {
                    lemma_refusal_prefix(dir@, all, (i + 1) as nat);
                }
                return Err(e);
            },
        }
        i = i + 1;
    }
    proof {
        assert(all.take(n as int) =~= all);
    }
    Ok(out)
}

/// Whether requests can all be met.
pub fn can_resolve(dir: &Directory, rs: &Vec<Request>) -> (r: bool)
    ensures
        r == (refusal(dir@, requests(rs@)) is None),
{
    match resolve_all(dir, rs) {
        Ok(_) => true,
        Err(_) => false,
    }
}

/// The requests, if the condition holds.
pub open spec fn given(condition: bool, rs: Seq<RequestView>) -> Seq<RequestView> {
    if condition {
        rs
    } else {
        Seq::empty()
    }
}

/// Requests of a group that is taken as a whole or not at all.
pub open spec fn whole(dir: Seq<TensorInfoView>, rs: Seq<RequestView>) -> Seq<RequestView> {
    if refusal(dir, rs) is None {
        rs
    } else {
        Seq::empty()
    }
}

/// One of the requests is for the weight.
pub open spec fn asked(rs: Seq<RequestView>, l: Leaf) -> bool {
    exists|i: int| 0 <= i < rs.len() && (#[trigger] rs[i]).leaf == l
}

/// The weight is one of the file's tensors.
pub open spec fn bound(bs: Seq<Binding>, l: Leaf) -> bool {
    exists|i: int| 0 <= i < bs.len() && (#[trigger] bs[i]).leaf == l
}

/// Every weight that is asked for is found, where all requests can be met.
pub proof fn law_asked_is_bound(dir: Seq<TensorInfoView>, rs: Seq<RequestView>, l: Leaf)
    requires
        asked(rs, l),
    ensures
        bound(bindings(dir, rs), l),
{
    let i = choose|i: int| 0 <= i < rs.len() && (#[trigger] rs[i]).leaf == l;
    assert(bindings(dir, rs)[i].leaf == l);
}

/// Requests stay among more requests.
pub proof fn lemma_asked_among(a: Seq<RequestView>, b: Seq<RequestView>, l: Leaf)
    requires
        asked(a, l) || asked(b, l),
    ensures
        asked(a + b, l),
{
    if asked(a, l) {
        let i = choose|i: int| 0 <= i < a.len() && (#[trigger] a[i]).leaf == l;
        assert((a + b)[i].leaf == l);
    } else {
        let i = choose|i: int| 0 <= i < b.len() && (#[trigger] b[i]).leaf == l;
        assert((a + b)[a.len() + i].leaf == l);
    }
}

/// What a pass may read: the token ids, the masks, and the weights that were
/// found.
pub open spec fn readable(bs: Seq<Binding>) -> spec_fn(Leaf) -> bool {
    |l: Leaf| l is TokenIds || l is Mask || bound(bs, l)
}

} // verus!
