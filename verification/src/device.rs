//! The GPU device as the host sees it, and its cache of compiled pipelines.

use crate::error::{Error, Missing};
use crate::text::str_eq;
use vstd::prelude::*;

verus! {

/// Optional features that an adapter may offer.
#[derive(Clone, Copy, Debug, PartialEq, Eq, Structural)]
pub struct AdapterFeatures {
    /// Half-precision arithmetic in shaders.
    pub shader_f16: bool,
    /// Packed 8-bit integer dot products in shaders.
    pub dp4a: bool,
}

/// Handle to an opened device. Two handles are of one device when their ids
/// agree; the features are those that the device was opened with.
#[derive(Clone, Copy, Debug)]
pub struct WgpuDevice {
    pub id: u64,
    pub features: AdapterFeatures,
}

impl PartialEq for WgpuDevice {
    fn eq(&self, other: &Self) -> (r: bool) {
        self.id == other.id
    }
}

impl vstd::std_specs::cmp::PartialEqSpecImpl for WgpuDevice {
    open spec fn obeys_eq_spec() -> bool {
        true
    }

    open spec fn eq_spec(&self, other: &Self) -> bool {
        self.id == other.id
    }
}

impl Eq for WgpuDevice {

}

/// Where a device sits.
#[derive(Clone, Copy, Debug, PartialEq, Eq, Structural)]
pub enum DeviceLocation {
    Cpu,
    Wgpu { gpu_id: usize },
}

impl WgpuDevice {
    /// The device opened as number `id` on an adapter that offers `adapter`.
    /// The device is requested with the half-precision feature exactly where
    /// the adapter offers it, so a missing feature never fails the request.
    pub fn from_adapter(id: u64, adapter: AdapterFeatures) -> (r: Self)
        ensures
            r.id == id,
            r.features == adapter,
    {
        WgpuDevice { id, features: adapter }
    }

    /// Whether shaders may use half precision.
    pub fn supports_shader_f16(&self) -> (r: bool)
        ensures
            r == self.features.shader_f16,
    {
        self.features.shader_f16
    }

    /// Whether shaders may use packed 8-bit dot products.
    pub fn supports_dp4a(&self) -> (r: bool)
        ensures
            r == self.features.dp4a,
    {
        self.features.dp4a
    }

    /// Whether both handles are of one device.
    pub fn same_device(&self, other: &Self) -> (r: bool)
        ensures
            r == (self.id == other.id),
    {
        self.id == other.id
    }

    /// One adapter is used, whatever its place in the system's list.
    pub fn location(&self) -> (r: DeviceLocation)
        ensures
            r == (DeviceLocation::Wgpu { gpu_id: 0 }),
    {
        DeviceLocation::Wgpu { gpu_id: 0 }
    }

    /// Accepted and ignored: there is no generator on the device to seed.
    pub fn set_seed(&self, seed: u64) -> (r: Result<(), Error>)
        ensures
            r == Ok::<(), Error>(()),
    {
        Ok(())
    }

    /// There is no generator on the device to ask.
    pub fn get_current_seed(&self) -> (r: Result<u64, Error>)
        ensures
            r == Err::<u64, Error>(Error::NotImplemented { entry: Missing::GetCurrentSeed }),
    {
        Err(Error::NotImplemented { entry: Missing::GetCurrentSeed })
    }
}

/// Compiled pipelines by key. A pipeline is known by the number that its
/// owner gave it when it was compiled.
pub struct PipelineCache {
    keys: Vec<String>,
    pipelines: Vec<u64>,
}

impl View for PipelineCache {
    type V = Map<Seq<char>, u64>;

    closed spec fn view(&self) -> Map<Seq<char>, u64> {
        Map::new(
            |k: Seq<char>| exists|i: int| self.holds(i, k),
            |k: Seq<char>| self.pipelines@[choose|i: int| self.holds(i, k)],
        )
    }
}

impl PipelineCache {
    spec fn holds(&self, i: int, k: Seq<char>) -> bool {
        0 <= i < self.keys@.len() && self.keys@[i]@ == k
    }

    /// One pipeline per key.
    pub closed spec fn wf(&self) -> bool {
        &&& self.keys@.len() == self.pipelines@.len()
        &&& forall|i: int, j: int|
            0 <= i < self.keys@.len() && 0 <= j < self.keys@.len() && self.keys@[i]@
                == self.keys@[j]@ ==> i == j
    }

    /// The empty cache.
    pub fn new() -> (r: Self)
        ensures
            r.wf(),
            r@ == Map::<Seq<char>, u64>::empty(),
    {
        let r = PipelineCache { keys: Vec::new(), pipelines: Vec::new() };
        proof {
            assert forall|k: Seq<char>| !r@.dom().contains(k) by {
                assert(forall|i: int| !r.holds(i, k));
            }
            assert(r@ =~= Map::<Seq<char>, u64>::empty());
        }
        r
    }

    /// The pipeline cached under `key`.
    pub fn get(&self, key: &str) -> (r: Option<u64>)
        requires
            self.wf(),
        ensures
            match r {
                Some(p) => self@.dom().contains(key@) && self@[key@] == p,
                None => !self@.dom().contains(key@),
            },
    {
        let mut i: usize = 0;
        while i < self.keys.len()
            invariant
                0 <= i <= self.keys@.len(),
                self.wf(),
                forall|j: int| 0 <= j < i ==> self.keys@[j]@ != key@,
            decreases self.keys.len() - i,
        {
            if str_eq(self.keys[i].as_str(), key) {
                proof {
                    assert(self.holds(i as int, key@));
                    let c = choose|c: int| self.holds(c, key@);
                    assert(self.holds(c, key@));
                    assert(c == i);
                }
                return Some(self.pipelines[i]);
            }
            i = i + 1;
        }
        None
    }

    /// The pipeline cached under `key`. Where there is none, `compiled`
    /// becomes it; where another caller was faster, the pipeline that was
    /// cached first stays and `compiled` is dropped.
    pub fn get_or_create_pipeline(&mut self, key: &str, compiled: u64) -> (r: u64)
        requires
            old(self).wf(),
        ensures
            final(self).wf(),
            final(self)@ == offered(old(self)@, key@, compiled),
            r == final(self)@[key@],
    {
        match self.get(key) {
            Some(p) => p,
            None => {
                let ghost before = *self;
                proof {
                    assert forall|i: int| 0 <= i < self.keys@.len() implies self.keys@[i]@
                        != key@ by {
                        if self.keys@[i]@ == key@ {
                            assert(self.holds(i, key@));
                        }
                    }
                }
                self.keys.push(key.to_owned());
                self.pipelines.push(compiled);
                proof {
                    let n = before.keys@.len() as int;
                    assert(self.holds(n, key@));
                    let after = before@.insert(key@, compiled);
                    assert forall|k: Seq<char>| k != key@ implies (#[trigger] self@.dom().contains(
                        k,
                    ) <==> after.dom().contains(k)) && (after.dom().contains(k) ==> self@[k]
                        == after[k]) by {
                        if before@.dom().contains(k) {
                            let i = choose|i: int| before.holds(i, k);
                            assert(before.holds(i, k));
                            assert(self.holds(i, k));
                            let c = choose|c: int| self.holds(c, k);
                            assert(self.holds(c, k));
                            assert(c == i);
                        }
                        if self@.dom().contains(k) {
                            let i = choose|i: int| self.holds(i, k);
                            assert(self.holds(i, k));
                            assert(before.holds(i, k));
                        }
                    }
                    let c = choose|c: int| self.holds(c, key@);
                    assert(self.holds(c, key@));
                    assert(c == n);
                    assert(self@.dom() =~= after.dom());
                    assert(self@ =~= after);
                }
                compiled
            },
        }
    }
}

/// However often and in whatever order pipelines are offered, a key keeps
/// the pipeline that it was first given.
pub proof fn law_first_pipeline_stays(
    cache: Map<Seq<char>, u64>,
    key: Seq<char>,
    first: u64,
    second: u64,
)
    requires
        !cache.dom().contains(key),
    ensures
        offered(offered(cache, key, first), key, second) == offered(cache, key, first),
        offered(cache, key, first)[key] == first,
        forall|other: Seq<char>, p: u64|
            other != key ==> #[trigger] offered(offered(cache, key, first), other, p)[key] == first,
{
}

/// A cache after `compiled` was offered for `key`.
pub open spec fn offered(
    cache: Map<Seq<char>, u64>,
    key: Seq<char>,
    compiled: u64,
) -> Map<Seq<char>, u64> {
    if cache.dom().contains(key) {
        cache
    } else {
        cache.insert(key, compiled)
    }
}

} // verus!
