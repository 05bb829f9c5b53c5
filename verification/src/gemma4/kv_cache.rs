//! Key and value caches that grow by concatenation and, on sliding layers,
//! keep the last positions only; and the keys and values that layers of one
//! step share.

use crate::error::Error;
use crate::gemma4::attention::Kv;
use vstd::prelude::*;

verus! {

/// What one cache holds: the numbers of the cached entries, oldest first.
#[derive(Clone, Debug)]
pub struct KvCache {
    entries: Vec<u64>,
    batch: Option<usize>,
    sliding_window: Option<usize>,
}

/// What a [`KvCache`] stands for.
#[verifier::ext_equal]
pub struct KvCacheView {
    pub entries: Seq<u64>,
    /// Sequences that every entry has, once there was one.
    pub batch: Option<usize>,
    pub sliding_window: Option<usize>,
}

impl View for KvCache {
    type V = KvCacheView;

    closed spec fn view(&self) -> KvCacheView {
        KvCacheView {
            entries: self.entries@,
            batch: self.batch,
            sliding_window: self.sliding_window,
        }
    }
}

/// The last `n` entries of a sequence, or all of them.
pub open spec fn last_of<T>(s: Seq<T>, n: nat) -> Seq<T> {
    if s.len() <= n {
        s
    } else {
        s.skip(s.len() - n)
    }
}

/// What a cache keeps of a sequence.
pub open spec fn kept<T>(s: Seq<T>, window: Option<usize>) -> Seq<T> {
    match window {
        Some(w) => last_of(s, w as nat),
        None => s,
    }
}

/// Whether a cache takes entries of `batch` sequences: all that it holds have
/// as many.
pub open spec fn accepts(c: KvCacheView, batch: usize) -> bool {
    c.batch matches Some(b) ==> b == batch
}

/// A cache after it took in `new`, entries of `batch` sequences.
pub open spec fn cache_after(c: KvCacheView, batch: usize, new: Seq<u64>) -> KvCacheView {
    KvCacheView {
        entries: kept(c.entries + new, c.sliding_window),
        batch: Some(batch),
        sliding_window: c.sliding_window,
    }
}

/// Which of the positions that a cache gives back stay, when it is given more
/// than its window: from `start`, `len` of them.
#[derive(Clone, Copy, Debug, PartialEq, Eq, Structural)]
pub struct Trim {
    pub start: usize,
    pub len: usize,
}

/// The trim of `len` cached positions to a window.
pub open spec fn trim_of(len: nat, window: Option<usize>) -> Option<Trim> {
    match window {
        Some(w) if len > w => Some(Trim { start: (len - w) as usize, len: w }),
        _ => None,
    }
}

/// The trim of `len` cached positions to a window.
pub fn trim(len: usize, window: Option<usize>) -> (r: Option<Trim>)
    ensures
        r == trim_of(len as nat, window),
{
    match window {
        Some(w) => {
            if len > w {
                Some(Trim { start: len - w, len: w })
            } else {
                None
            }
        },
        None => None,
    }
}

impl KvCache {
    /// A cache keeps no more than its window.
    pub closed spec fn wf(&self) -> bool {
        self.sliding_window matches Some(w) ==> self.entries@.len() <= w
    }

    /// An empty cache with the given window, or without one.
    pub fn new(sliding_window: Option<usize>) -> (r: Self)
        ensures
            r.wf(),
            r@ == (KvCacheView { entries: Seq::empty(), batch: None, sliding_window }),
    {
        KvCache { entries: Vec::new(), batch: None, sliding_window }
    }

    /// Number of cached positions.
    pub fn len(&self) -> (r: usize)
        ensures
            r == self@.entries.len(),
    {
        self.entries.len()
    }

    /// Sequences that every cached entry has, once there was one.
    pub fn batch(&self) -> (r: Option<usize>)
        ensures
            r == self@.batch,
    {
        self.batch
    }

    /// The cache's window, if it has one.
    pub fn window(&self) -> (r: Option<usize>)
        ensures
            r == self@.sliding_window,
    {
        self.sliding_window
    }

    /// Adds `new`, entries of `batch` sequences, behind the cached ones, drops
    /// what the window does not keep, and gives back what is cached then.
    pub fn append(&mut self, batch: usize, new: &[u64]) -> (r: Result<Vec<u64>, Error>)
        requires
            old(self).wf(),
            old(self)@.entries.len() + new@.len() <= usize::MAX,
        ensures
            final(self).wf(),
            match r {
                Ok(all) => {
                    &&& accepts(old(self)@, batch)
                    &&& final(self)@ == cache_after(old(self)@, batch, new@)
                    &&& all@ == final(self)@.entries
                },
                Err(e) => {
                    &&& old(self)@.batch matches Some(b)
                    &&& b != batch
                    &&& e == (Error::CachedBatch { cached: b, got: batch })
                    &&& final(self)@ == old(self)@
                },
            },
    {
        if let Some(b) = self.batch {
            if b != batch {
                return Err(Error::CachedBatch { cached: b, got: batch });
            }
        }
        let old_len: usize = self.entries.len();
        let total: usize = old_len + new.len();
        let start: usize = match trim(total, self.sliding_window) {
            Some(t) => t.start,
            None => 0,
        };
        let ghost all = self.entries@ + new@;
        let mut kept_entries: Vec<u64> = Vec::new();
        let mut returned: Vec<u64> = Vec::new();
        let mut i: usize = start;
        proof {
            assert(all.subrange(start as int, start as int) =~= Seq::<u64>::empty());
        }
        while i < total
            invariant
                start <= i <= total,
                total == old_len + new@.len(),
                old_len == self.entries@.len(),
                all == self.entries@ + new@,
                kept_entries@ == all.subrange(start as int, i as int),
                returned@ == kept_entries@,
            decreases total - i,
        {
            let e: u64 = if i < old_len {
                self.entries[i]
            } else {
                new[i - old_len]
            };
            kept_entries.push(e);
            returned.push(e);
            proof {
                assert(all.subrange(start as int, i + 1) =~= all.subrange(
                    start as int,
                    i as int,
                ).push(e));
            }
            i = i + 1;
        }
        self.entries = kept_entries;
        self.batch = Some(batch);
        proof {
            assert(self.entries@ =~= kept(all, self.sliding_window));
        }
        Ok(returned)
    }

    /// Empties the cache.
    pub fn reset(&mut self)
        ensures
            final(self).wf(),
            final(self)@ == (KvCacheView {
                entries: Seq::empty(),
                batch: None,
                sliding_window: old(self)@.sliding_window,
            }),
    {
        self.entries = Vec::new();
        self.batch = None;
    }
}

/// However the positions of a sequence are handed over, all at once or in
/// two steps, the cache ends up with the same ones.
pub proof fn law_append_in_steps<T>(s: Seq<T>, a: Seq<T>, b: Seq<T>, window: Option<usize>)
    ensures
        kept(kept(s + a, window) + b, window) == kept(s + a + b, window),
{
    if let Some(w) = window {
        let whole = s + a + b;
        assert(kept(kept(s + a, window) + b, window) =~= last_of(whole, w as nat));
    } else {
        assert(kept(kept(s + a, window) + b, window) =~= s + a + b);
    }
}

/// What a cache with the given window holds after it was given `parts`, one
/// after another.
pub open spec fn held_after<T>(parts: Seq<Seq<T>>, window: Option<usize>) -> Seq<T>
    decreases parts.len(),
{
    if parts.len() == 0 {
        Seq::empty()
    } else {
        kept(held_after(parts.drop_last(), window) + parts.last(), window)
    }
}

/// The parts one behind another.
pub open spec fn joined<T>(parts: Seq<Seq<T>>) -> Seq<T>
    decreases parts.len(),
{
    if parts.len() == 0 {
        Seq::empty()
    } else {
        joined(parts.drop_last()) + parts.last()
    }
}

/// However often a cache is given something, it holds the last positions of
/// all that it was given, as many as its window has, in order.
pub proof fn law_cache_holds_last_of_all<T>(parts: Seq<Seq<T>>, window: Option<usize>)
    ensures
        held_after(parts, window) == kept(joined(parts), window),
    decreases parts.len(),
{
    if parts.len() == 0 {
        assert(kept(Seq::<T>::empty(), window) =~= Seq::<T>::empty());
    } else {
        law_cache_holds_last_of_all(parts.drop_last(), window);
        let none = Seq::<T>::empty();
        let before = joined(parts.drop_last());
        law_append_in_steps(none, before, parts.last(), window);
        assert(none + before =~= before);
    }
}

/// After any number of appends, the next one gives back the last positions of
/// all that the cache was given, in order, as many as its window has; without a
/// window, all of them.
pub proof fn law_append_gives_last_of_all(
    c: KvCacheView,
    parts: Seq<Seq<u64>>,
    batch: usize,
    new: Seq<u64>,
)
    requires
        c.entries == held_after(parts, c.sliding_window),
    ensures
        ({
            let all = joined(parts) + new;
            let after = cache_after(c, batch, new);
            &&& after.entries == kept(all, c.sliding_window)
            &&& after.entries == held_after(parts.push(new), c.sliding_window)
            &&& c.sliding_window is None ==> after.entries == all
            &&& c.sliding_window matches Some(w) ==> after.entries.len() <= w && after.entries
                == all.skip(all.len() - after.entries.len()) && after.entries.len() == if all.len()
                <= w {
                all.len()
            } else {
                w as nat
            }
        }),
{
    law_cache_holds_last_of_all(parts, c.sliding_window);
    law_cache_holds_last_of_all(parts.push(new), c.sliding_window);
    assert(parts.push(new).drop_last() =~= parts);
    law_cache_holds_suffix(joined(parts) + new, c.sliding_window);
}

/// A cache holds a suffix of everything that it was given, as long as its
/// window allows.
pub proof fn law_cache_holds_suffix<T>(s: Seq<T>, window: Option<usize>)
    ensures
        kept(s, window).len() <= s.len(),
        kept(s, window) == s.skip(s.len() - kept(s, window).len()),
        window matches Some(w) ==> kept(s, window).len() == if s.len() <= w {
            s.len()
        } else {
            w as nat
        },
        window is None ==> kept(s, window) == s,
{
    assert(s.skip(0) =~= s);
}

/// The trim says which part of the concatenation is kept.
pub proof fn law_trim_is_kept<T>(s: Seq<T>, window: Option<usize>)
    requires
        s.len() <= usize::MAX,
    ensures
        match trim_of(s.len(), window) {
            Some(t) => kept(s, window) == s.subrange(t.start as int, t.start + t.len) && t.start
                + t.len == s.len(),
            None => kept(s, window) == s,
        },
{
    if let Some(t) = trim_of(s.len(), window) {
        assert(kept(s, window) =~= s.subrange(t.start as int, t.start + t.len));
    }
}

/// The numbers of `n` layers, in order.
pub fn all_layers(n: usize) -> (r: Vec<usize>)
    ensures
        r@ == Seq::new(n as nat, |i: int| i as usize),
{
    let mut out: Vec<usize> = Vec::new();
    let mut i: usize = 0;
    while i < n
        invariant
            0 <= i <= n,
            out@ == Seq::new(i as nat, |j: int| j as usize),
        decreases n - i,
    {
        out.push(i);
        proof {
            assert(out@ =~= Seq::new((i + 1) as nat, |j: int| j as usize));
        }
        i = i + 1;
    }
    out
}

/// The keys and values of one step: what each layer put there, if it did.
#[derive(Clone, Debug)]
pub struct SharedKvStore {
    slots: Vec<Option<Kv>>,
}

impl View for SharedKvStore {
    type V = Seq<Option<Kv>>;

    closed spec fn view(&self) -> Seq<Option<Kv>> {
        self.slots@
    }
}

impl SharedKvStore {
    /// A store for `layers` layers that nothing was put into.
    pub fn new(layers: usize) -> (r: Self)
        ensures
            r@ == Seq::new(layers as nat, |i: int| None::<Kv>),
    {
        let mut slots: Vec<Option<Kv>> = Vec::new();
        let mut i: usize = 0;
        while i < layers
            invariant
                0 <= i <= layers,
                slots@ == Seq::new(i as nat, |j: int| None::<Kv>),
            decreases layers - i,
        {
            slots.push(None);
            proof {
                assert(slots@ =~= Seq::new((i + 1) as nat, |j: int| None::<Kv>));
            }
            i = i + 1;
        }
        SharedKvStore { slots }
    }

    /// Puts a layer's pair into the store.
    pub fn put(&mut self, layer: usize, pair: Kv)
        requires
            layer < old(self)@.len(),
        ensures
            final(self)@ == old(self)@.update(layer as int, Some(pair)),
    {
        self.slots.set(layer, Some(pair));
    }

    /// The pair that `donor` put into the store, for layer `layer`, which has
    /// none of its own. The donor must have run before in the same step.
    pub fn get(&self, layer: usize, donor: usize) -> (r: Result<Kv, Error>)
        ensures
            match r {
                Ok(p) => donor < self@.len() && self@[donor as int] == Some(p),
                Err(e) => (donor >= self@.len() || self@[donor as int] is None) && e == (
                Error::NoDonor { layer, donor }),
            },
    {
        if donor < self.slots.len() {
            match self.slots[donor] {
                Some(p) => {
                    return Ok(p);
                },
                None => {},
            }
        }
        Err(Error::NoDonor { layer, donor })
    }
}

} // verus!
