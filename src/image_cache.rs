use std::collections::{BTreeMap, BTreeSet};
use std::sync::{Arc, Mutex};

use crossbeam::channel::{Receiver, Sender};
use vstd::prelude::*;

use crate::channel::{
    available_parallelism, bounded, new_mutex, read_locked, send, share, try_recv, try_send,
    write_locked, Polled, MAX_CAPACITY,
};
use crate::decode::{
    decode_image, fits_in_memory, resized_rgba, well_formed, CachedImage, DecodeResult, TargetSize,
};
use crate::pixels::rgba_pixels;
use crate::image_file::ImageFile;

verus! {

/// Above this many entries the cache drops what lies far from the current index.
pub const CACHE_CAPACITY: usize = 50;

/// How far from the current index an entry may lie and still survive eviction.
pub const EVICTION_RADIUS: usize = 25;

/// How long an idle worker sleeps before it looks at the request channel again.
pub const WORKER_BACKOFF_MS: u64 = 100;

/// The position of an image in the ordered image list: the cache's key.
#[derive(Clone, Copy, Debug, PartialEq, Eq, Structural, Hash, PartialOrd, Ord)]
pub struct ImageLookup {
    pub index: usize,
}

/// A request for a worker: decode the image at `path` for `lookup`.
#[derive(Debug)]
pub struct DecodeRequest {
    pub lookup: ImageLookup,
    pub path: String,
}

pub open spec fn distance(a: usize, b: usize) -> nat {
    if a <= b {
        (b - a) as nat
    } else {
        (a - b) as nat
    }
}

/// Whether an entry at `k` survives an eviction around `center`.
pub open spec fn within_radius(center: usize, k: usize) -> bool {
    distance(center, k) <= EVICTION_RADIUS
}

/// The indices that a request at `center` prefetches: `center` itself and the
/// next `workers / 2`, as far as `usize` reaches.
pub open spec fn in_window(center: usize, workers: nat, k: usize) -> bool {
    center <= k && k <= center + workers / 2
}

/// How many indices the window at `center` holds: `workers / 2 + 1`, as far
/// as `usize` reaches.
pub open spec fn window_len(center: usize, workers: nat) -> nat {
    if center + workers / 2 <= usize::MAX {
        workers / 2 + 1
    } else {
        (usize::MAX - center + 1) as nat
    }
}

/// The requests among `offers` that the channel took, in order.
pub open spec fn accepted_of(offers: Seq<(DecodeRequest, bool)>) -> Seq<DecodeRequest>
    decreases offers.len(),
{
    if offers.len() == 0 {
        Seq::empty()
    } else {
        let rest = accepted_of(offers.drop_last());
        if offers.last().1 {
            rest.push(offers.last().0)
        } else {
            rest
        }
    }
}

/// The indices that eviction around `center` keeps.
pub open spec fn near(center: usize) -> Set<usize> {
    Set::new(|k: usize| within_radius(center, k))
}

/// The coordinator of the image cache. It owns the decoded images (the
/// entries), the indices whose decode has been requested and not yet answered
/// (the pending set), and the size that workers scale images to. Workers
/// receive requests and send results through bounded channels; they read the
/// target size through a lock that only the coordinator writes.
pub struct ImageCache {
    size: Arc<Mutex<TargetSize>>,
    current: TargetSize,
    cache: BTreeMap<usize, CachedImage>,
    queued: BTreeSet<usize>,
    pixel_receiver: Receiver<DecodeResult>,
    image_sender: Sender<DecodeRequest>,
    workers: usize,
    issued: Ghost<Seq<DecodeRequest>>,
    offered: Ghost<Seq<(DecodeRequest, bool)>>,
}

/// The worker side of an image cache: where requests come from, where results
/// go, and the lock that holds the target size.
pub struct WorkerPort {
    requests: Receiver<DecodeRequest>,
    results: Sender<DecodeResult>,
    size: Arc<Mutex<TargetSize>>,
}

/// What a worker does next.
pub enum WorkerStep {
    /// Decode this request.
    Decode(DecodeRequest),
    /// Nothing to do: sleep `WORKER_BACKOFF_MS` and look again.
    Wait,
    /// The cache is gone: stop.
    Stop,
}

impl ImageCache {
    /// The decoded images, by index.
    pub closed spec fn entries(self) -> Map<usize, CachedImage> {
        self.cache@
    }

    /// The indices whose decode is requested and not yet answered.
    pub closed spec fn pending(self) -> Set<usize> {
        self.queued@
    }

    /// The size that images are scaled to fit.
    pub closed spec fn target(self) -> TargetSize {
        self.current
    }

    /// The number of workers, which is also the capacity of both channels.
    pub closed spec fn workers(self) -> nat {
        self.workers as nat
    }

    /// Every request sent to the workers so far, in order.
    pub closed spec fn requests(self) -> Seq<DecodeRequest> {
        self.issued@
    }

    /// Every request offered to the request channel so far, in order, each
    /// with whether the channel took it.
    pub closed spec fn offered(self) -> Seq<(DecodeRequest, bool)> {
        self.offered@
    }

    /// Whether a prefetch from this state offers a request for `k`: it lies
    /// in the image list and is neither cached nor pending.
    pub open spec fn is_free(self, files: Seq<ImageFile>, k: usize) -> bool {
        &&& k < files.len()
        &&& !self.entries().contains_key(k)
        &&& !self.pending().contains(k)
    }

    /// The free indices among the first `count` of the window that starts at
    /// `center`, in increasing order.
    pub open spec fn free_window(self, center: usize, files: Seq<ImageFile>, count: nat) -> Seq<
        usize,
    >
        decreases count,
    {
        if count == 0 {
            Seq::empty()
        } else {
            let rest = self.free_window(center, files, (count - 1) as nat);
            let k = center + count - 1;
            if k <= usize::MAX && self.is_free(files, k as usize) {
                rest.push(k as usize)
            } else {
                rest
            }
        }
    }

    /// The indices that a prefetch around `center` offers from this state:
    /// every free index of the window, in increasing order.
    pub open spec fn planned(self, center: usize, files: Seq<ImageFile>) -> Seq<usize> {
        self.free_window(center, files, window_len(center, self.workers()))
    }

    /// The cache's invariant: no index is both cached and pending, and every
    /// entry was scaled for the current target size.
    pub open spec fn wf(self) -> bool {
        &&& self.entries().dom().disjoint(self.pending())
        &&& forall|k: usize| #[trigger]
            self.entries().contains_key(k) ==> self.entries()[k]@.size == self.target()
        &&& 1 <= self.workers() <= MAX_CAPACITY
    }

    /// What taking in one result does: a result for a pending index clears it
    /// from the pending set, and an image decoded for the current target size
    /// is cached. A result for an index that is not pending is ignored.
    pub open spec fn received(self, next: ImageCache, msg: DecodeResult) -> bool {
        let k = msg.spec_lookup().index;
        &&& next.target() == self.target()
        &&& next.workers() == self.workers()
        &&& next.requests() == self.requests()
        &&& next.offered() == self.offered()
        &&& !self.pending().contains(k) ==> next.entries() == self.entries() && next.pending()
            == self.pending()
        &&& self.pending().contains(k) ==> next.pending() == self.pending().remove(k)
            && next.entries() == match msg {
            DecodeResult::Decoded(_, c) => if c@.size == self.target() {
                self.entries().insert(k, c)
            } else {
                self.entries()
            },
            DecodeResult::Failed(_, _) => self.entries(),
        }
    }

    /// What draining any number of results can do: pending indices are
    /// cleared, cached entries stay, and new entries are only for indices that
    /// were pending.
    pub open spec fn drained(self, next: ImageCache) -> bool {
        &&& next.target() == self.target()
        &&& next.workers() == self.workers()
        &&& next.requests() == self.requests()
        &&& next.offered() == self.offered()
        &&& next.pending().subset_of(self.pending())
        &&& forall|k: usize| #[trigger]
            self.entries().contains_key(k) ==> next.entries().contains_key(k)
                && next.entries()[k] == self.entries()[k]
        &&& forall|k: usize| #[trigger]
            next.entries().contains_key(k) ==> self.entries().contains_key(k)
                || self.pending().contains(k)
    }

    /// What an eviction around `center` does: above `CACHE_CAPACITY` entries,
    /// only those within `EVICTION_RADIUS` of `center` stay.
    pub open spec fn evicted(self, next: ImageCache, center: usize) -> bool {
        &&& next.target() == self.target()
        &&& next.workers() == self.workers()
        &&& next.requests() == self.requests()
        &&& next.offered() == self.offered()
        &&& next.pending() == self.pending()
        &&& next.entries() == if self.entries().len() > CACHE_CAPACITY {
            self.entries().restrict(near(center))
        } else {
            self.entries()
        }
    }

    /// Whether a prefetch around `center` may send `req` from this state: its
    /// index lies in the window and in the image list, is neither cached nor
    /// pending, and its path is that image's path.
    pub open spec fn may_request(self, center: usize, files: Seq<ImageFile>, req: DecodeRequest) -> bool {
        let k = req.lookup.index;
        &&& in_window(center, self.workers(), k)
        &&& k < files.len()
        &&& !self.entries().contains_key(k)
        &&& !self.pending().contains(k)
        &&& req.path@ == files[k as int]@
    }

    /// What a prefetch around `center` does: it offers the request channel
    /// one request, with the image's path, for each index of `planned`, in
    /// order; the requests that the channel takes are sent and their indices
    /// marked pending; nothing else changes.
    pub open spec fn prefetched(self, next: ImageCache, center: usize, files: Seq<ImageFile>) -> bool {
        let n = self.requests().len();
        let plan = self.planned(center, files);
        let offers = next.offered().subrange(self.offered().len() as int, next.offered().len() as int);
        &&& self.offered().is_prefix_of(next.offered())
        &&& offers.len() == plan.len()
        &&& forall|j: int|
            0 <= j < plan.len() ==> (#[trigger] offers[j]).0.lookup.index == plan[j]
                && offers[j].0.path@ == files[plan[j] as int]@
        &&& next.requests() == self.requests() + accepted_of(offers)
        &&& forall|k: usize| #[trigger]
            next.pending().contains(k) <==> self.pending().contains(k) || exists|j: int|
                0 <= j < plan.len() && (#[trigger] offers[j]).1 && plan[j] == k
        &&& next.target() == self.target()
        &&& next.workers() == self.workers()
        &&& next.entries() == self.entries()
        &&& self.requests().is_prefix_of(next.requests())
        &&& next.requests().len() <= n + self.workers() / 2 + 1
        &&& forall|j: int|
            n <= j < next.requests().len() ==> self.may_request(center, files, #[trigger] next.requests()[j])
                && next.pending().contains(next.requests()[j].lookup.index)
        &&& forall|i: int, j: int|
            n <= i < j < next.requests().len() ==> #[trigger] next.requests()[i].lookup.index
                != #[trigger] next.requests()[j].lookup.index
        &&& self.pending().subset_of(next.pending())
        &&& forall|k: usize| #[trigger]
            next.pending().contains(k) && !self.pending().contains(k) ==> exists|j: int|
                n <= j < next.requests().len() && #[trigger] next.requests()[j].lookup.index == k
        &&& (forall|k: usize| #[trigger]
            in_window(center, self.workers(), k) ==> self.entries().contains_key(k)
                || self.pending().contains(k)) ==> next.requests() == self.requests()
            && next.pending() == self.pending()
    }

    /// What one call of `get` at `center` does to the cache's state: it
    /// drains results (which ones depends on the workers), evicts exactly as
    /// `evicted` says, and then prefetches exactly as `prefetched` says from
    /// the state that results. In consequence every
    /// entry afterwards was cached, unchanged, before the call or was pending
    /// then; the entry at `center` itself stays; beyond `CACHE_CAPACITY`
    /// entries only those near `center` remain; the pending set grows only
    /// by indices of the window that lie in `files`; and at most
    /// `workers / 2 + 1` requests go out, each for such an index, with its
    /// image's path.
    pub open spec fn fetched(self, next: ImageCache, center: usize, files: Seq<ImageFile>) -> bool {
        &&& exists|drained: ImageCache, evicted: ImageCache|
            #![trigger self.drained(drained), drained.evicted(evicted, center)]
            {
                &&& drained.wf()
                &&& evicted.wf()
                &&& self.drained(drained)
                &&& drained.evicted(evicted, center)
                &&& evicted.prefetched(next, center, files)
            }
        &&& next.target() == self.target()
        &&& next.workers() == self.workers()
        &&& forall|k: usize| #[trigger]
            next.entries().contains_key(k) ==> (self.entries().contains_key(k)
                && next.entries()[k] == self.entries()[k]) || self.pending().contains(k)
        &&& self.entries().contains_key(center) ==> next.entries().contains_key(center)
            && next.entries()[center] == self.entries()[center]
        &&& next.entries().len() <= CACHE_CAPACITY || forall|k: usize| #[trigger]
            next.entries().contains_key(k) ==> within_radius(center, k)
        &&& forall|k: usize| #[trigger]
            next.pending().contains(k) ==> self.pending().contains(k) || (in_window(
                center,
                self.workers(),
                k,
            ) && k < files.len())
        &&& self.requests().is_prefix_of(next.requests())
        &&& next.requests().len() <= self.requests().len() + self.workers() / 2 + 1
        &&& forall|j: int|
            self.requests().len() <= j < next.requests().len() ==> {
                let req = #[trigger] next.requests()[j];
                &&& in_window(center, self.workers(), req.lookup.index)
                &&& req.lookup.index < files.len()
                &&& req.path@ == files[req.lookup.index as int]@
                &&& next.pending().contains(req.lookup.index)
            }
    }

    /// What a change of target size does: when the size differs, it is
    /// stored and every entry is dropped; the pending set stays.
    pub open spec fn resized(self, next: ImageCache, size: TargetSize, changed: bool) -> bool {
        &&& changed == (self.target() != size)
        &&& next.target() == size
        &&& next.entries() == if changed {
            Map::<usize, CachedImage>::empty()
        } else {
            self.entries()
        }
        &&& next.pending() == self.pending()
        &&& next.workers() == self.workers()
        &&& next.requests() == self.requests()
        &&& next.offered() == self.offered()
    }
}

impl ImageCache {
    /// A cache for images scaled to fit `size`, with one worker for each CPU
    /// that this process may use (at most `MAX_CAPACITY`), and the port that
    /// those workers share.
    pub fn new(size: TargetSize) -> (r: (ImageCache, WorkerPort))
        ensures
            r.0.wf(),
            r.0.target() == size,
            r.0.entries() == Map::<usize, CachedImage>::empty(),
            r.0.pending() == Set::<usize>::empty(),
            r.0.requests() == Seq::<DecodeRequest>::empty(),
            r.0.offered() == Seq::<(DecodeRequest, bool)>::empty(),
            1 <= r.0.workers() <= MAX_CAPACITY,
    {
        let cpus = available_parallelism();
        let workers = if cpus > MAX_CAPACITY {
            MAX_CAPACITY
        } else {
            cpus
        };
        ImageCache::with_workers(size, workers)
    }

    /// A cache for images scaled to fit `size`, served by `workers` workers;
    /// both channels hold at most `workers` messages.
    pub fn with_workers(size: TargetSize, workers: usize) -> (r: (ImageCache, WorkerPort))
        requires
            1 <= workers <= MAX_CAPACITY,
        ensures
            r.0.wf(),
            r.0.target() == size,
            r.0.entries() == Map::<usize, CachedImage>::empty(),
            r.0.pending() == Set::<usize>::empty(),
            r.0.requests() == Seq::<DecodeRequest>::empty(),
            r.0.offered() == Seq::<(DecodeRequest, bool)>::empty(),
            r.0.workers() == workers,
    {
        let (image_sender, requests) = bounded(workers);
        let (results, pixel_receiver) = bounded(workers);
        let shared = Arc::new(new_mutex(size));
        let port = WorkerPort { requests, results, size: share(&shared) };
        let cache = ImageCache {
            size: shared,
            current: size,
            cache: BTreeMap::new(),
            queued: BTreeSet::new(),
            pixel_receiver,
            image_sender,
            workers,
            issued: Ghost(Seq::empty()),
            offered: Ghost(Seq::empty()),
        };
        (cache, port)
    }

    /// The number of workers that serve this cache.
    pub fn worker_count(&self) -> (r: usize)
        ensures
            r == self.workers(),
    {
        self.workers
    }

    /// The size that images are scaled to fit.
    pub fn target_size(&self) -> (r: TargetSize)
        ensures
            r == self.target(),
    {
        self.current
    }

    /// Whether a decode of the image at `index` is requested and not yet answered.
    pub fn is_pending(&self, index: usize) -> (r: bool)
        ensures
            r == self.pending().contains(index),
    {
        self.queued.contains(&index)
    }

    /// Whether the image at `index` is cached.
    pub fn is_cached(&self, index: usize) -> (r: bool)
        ensures
            r == self.entries().contains_key(index),
    {
        self.cache.contains_key(&index)
    }

    /// The number of cached images.
    pub fn cached_len(&self) -> (r: usize)
        ensures
            r == self.entries().len(),
    {
        self.cache.len()
    }

    /// The number of pending requests.
    pub fn pending_len(&self) -> (r: usize)
        ensures
            r == self.pending().len(),
    {
        self.queued.len()
    }

    /// Takes in one result from a worker.
    pub fn receive(&mut self, msg: DecodeResult)
        requires
            old(self).wf(),
        ensures
            final(self).wf(),
            old(self).received(*final(self), msg),
    {
        let k = msg.lookup().index;
        if self.queued.contains(&k) {
            self.queued.remove(&k);
            match msg {
                DecodeResult::Decoded(_, img) => {
                    if img.size() == self.current {
                        self.cache.insert(k, img);
                    }
                },
                DecodeResult::Failed(_, _) => {},
            }
        }
    }

    /// Takes in the results that the workers have sent, without blocking. At
    /// most one channel's capacity is taken per call, which covers every result
    /// that was waiting when the call began.
    pub fn update(&mut self)
        requires
            old(self).wf(),
        ensures
            final(self).wf(),
            old(self).drained(*final(self)),
    {
        let ghost start = *self;
        let cap = self.workers;
        let mut taken: usize = 0;
        while taken < cap
            invariant
                self.wf(),
                start.wf(),
                start.drained(*self),
                cap == self.workers,
            decreases cap - taken,
        {
            match try_recv(&self.pixel_receiver) {
                Polled::Message(msg) => {
                    let ghost before = *self;
                    self.receive(msg);
                    proof {
                        lemma_drained_then_received(start, before, *self, msg);
                    }
                    taken = taken + 1;
                },
                Polled::Empty => {
                    taken = cap;
                },
                Polled::Disconnected => {
                    taken = cap;
                },
            }
        }
    }

    /// Sets the size that images are scaled to fit. When it differs from the
    /// current one, workers see the new size from their next decode on, and
    /// every cached image, scaled for the old size, is dropped. Returns
    /// whether the size changed.
    pub fn set_size(&mut self, new_size: TargetSize) -> (changed: bool)
        requires
            old(self).wf(),
        ensures
            final(self).wf(),
            old(self).resized(*final(self), new_size, changed),
    {
        let changed = self.current != new_size;
        if changed {
            write_locked(&self.size, new_size);
            self.cache.clear();
            self.current = new_size;
        }
        changed
    }
}

impl ImageCache {
    /// Above `CACHE_CAPACITY` entries, drops every entry farther than
    /// `EVICTION_RADIUS` from `center`.
    fn evict_far_from(&mut self, center: usize)
        requires
            old(self).wf(),
        ensures
            final(self).wf(),
            old(self).evicted(*final(self), center),
    {
        if self.cache.len() > CACHE_CAPACITY {
            let lo = if center >= EVICTION_RADIUS {
                center - EVICTION_RADIUS
            } else {
                0
            };
            let hi = if center <= usize::MAX - EVICTION_RADIUS {
                center + EVICTION_RADIUS
            } else {
                usize::MAX
            };
            let span = hi - lo;
            let ghost start = *self;
            let mut kept: BTreeMap<usize, CachedImage> = BTreeMap::new();
            let mut d: usize = 0;
            while d <= span
                invariant
                    start.wf(),
                    start.entries().len() > CACHE_CAPACITY,
                    lo + span == hi,
                    span <= 2 * EVICTION_RADIUS,
                    d <= span + 1,
                    self.current == start.current,
                    self.workers == start.workers,
                    self.queued@ == start.queued@,
                    self.issued@ == start.issued@,
                    self.offered@ == start.offered@,
                    kept@ == start.cache@.restrict(Set::new(|k: usize| lo <= k < lo + d)),
                    self.cache@ == start.cache@.remove_keys(Set::new(|k: usize| lo <= k < lo + d)),
                decreases span + 1 - d,
            {
                let k = lo + d;
                let removed = self.cache.remove(&k);
                match removed {
                    Some(v) => {
                        kept.insert(k, v);
                    },
                    None => {},
                }
                d = d + 1;
                assert(kept@ =~= start.cache@.restrict(Set::new(|j: usize| lo <= j < lo + d)));
                assert(self.cache@ =~= start.cache@.remove_keys(
                    Set::new(|j: usize| lo <= j < lo + d),
                ));
            }
            assert(Set::new(|k: usize| lo <= k < lo + d) =~= near(center));
            self.cache = kept;
        }
    }

    /// Asks the workers for the images in the window ahead of `center`: each
    /// index from `center` to `center + workers / 2` that lies in `files` and
    /// is neither cached nor pending is sent as a request and, when the
    /// request channel takes it, marked pending. A request that the channel
    /// refuses, because it is full, leaves its index free for a later call.
    pub fn prefetch(&mut self, center: usize, files: &[ImageFile])
        requires
            old(self).wf(),
        ensures
            final(self).wf(),
            old(self).prefetched(*final(self), center, files@),
    {
        let ghost start = *self;
        let ghost n0 = start.offered().len() as int;
        let half = self.workers / 2;
        let span = if center > usize::MAX - half {
            usize::MAX - center
        } else {
            half
        };
        let mut i: usize = 0;
        while i <= span
            invariant
                start.wf(),
                self.wf(),
                half == start.workers() / 2,
                span <= half,
                center + span <= usize::MAX,
                span < half ==> center + span == usize::MAX,
                span + 1 == window_len(center, start.workers()),
                i <= span + 1,
                n0 == start.offered().len(),
                self.current == start.current,
                self.workers == start.workers,
                self.cache@ == start.cache@,
                start.pending().subset_of(self.pending()),
                start.requests().is_prefix_of(self.requests()),
                self.requests().len() <= start.requests().len() + i,
                forall|j: int|
                    start.requests().len() <= j < self.requests().len() ==> start.may_request(
                        center,
                        files@,
                        #[trigger] self.requests()[j],
                    ) && self.pending().contains(self.requests()[j].lookup.index)
                        && self.requests()[j].lookup.index < center + i,
                forall|a: int, b: int|
                    start.requests().len() <= a < b < self.requests().len()
                        ==> #[trigger] self.requests()[a].lookup.index
                        != #[trigger] self.requests()[b].lookup.index,
                forall|k: usize| #[trigger]
                    self.pending().contains(k) && !start.pending().contains(k) ==> exists|j: int|
                        start.requests().len() <= j < self.requests().len()
                            && #[trigger] self.requests()[j].lookup.index == k,
                start.offered().is_prefix_of(self.offered()),
                self.offered().len() == n0 + start.free_window(center, files@, i as nat).len(),
                forall|j: int|
                    0 <= j < start.free_window(center, files@, i as nat).len() ==> (
                    #[trigger] self.offered()[n0 + j]).0.lookup.index == start.free_window(
                        center,
                        files@,
                        i as nat,
                    )[j] && self.offered()[n0 + j].0.path@ == files@[start.free_window(
                        center,
                        files@,
                        i as nat,
                    )[j] as int]@,
                self.requests() == start.requests() + accepted_of(
                    self.offered().subrange(n0, self.offered().len() as int),
                ),
                forall|k: usize| #[trigger]
                    self.pending().contains(k) <==> start.pending().contains(k) || exists|j: int|
                        0 <= j < start.free_window(center, files@, i as nat).len() && (
                        #[trigger] self.offered()[n0 + j]).1 && start.free_window(
                            center,
                            files@,
                            i as nat,
                        )[j] == k,
            decreases span + 1 - i,
        {
            let k = center + i;
            let ghost plan = start.free_window(center, files@, i as nat);
            proof {
                lemma_free_window_below(start, center, files@, i as nat);
                assert(start.free_window(center, files@, (i + 1) as nat) == if start.is_free(
                    files@,
                    k,
                ) {
                    plan.push(k)
                } else {
                    plan
                });
                if self.pending().contains(k) && !start.pending().contains(k) {
                    let j = choose|j: int|
                        0 <= j < plan.len() && (#[trigger] self.offered()[n0 + j]).1 && plan[j]
                            == k;
                    assert(plan[j] < center + i);
                }
            }
            if !self.cache.contains_key(&k) && !self.queued.contains(&k) && k < files.len() {
                let req = DecodeRequest { lookup: ImageLookup { index: k }, path: files[k].as_path() };
                let ghost sent = req;
                let ghost before_offered = self.offered@;
                let ghost before_pending = self.queued@;
                let accepted = try_send(&self.image_sender, req);
                if accepted {
                    let ghost before = self.issued@;
                    self.queued.insert(k);
                    self.issued = Ghost(self.issued@.push(sent));
                    proof {
                        assert(self.requests()[self.requests().len() - 1] == sent);
                        assert forall|j: int|
                            start.requests().len() <= j < self.requests().len() implies #[trigger] self.requests()[j]
                            == if j < before.len() {
                            before[j]
                        } else {
                            sent
                        } by {}
                        assert forall|kk: usize| #[trigger]
                            self.pending().contains(kk) && !start.pending().contains(kk) implies exists|j: int|
                            start.requests().len() <= j < self.requests().len()
                                && #[trigger] self.requests()[j].lookup.index == kk by {
                            if kk == k {
                                assert(self.requests()[self.requests().len() - 1].lookup.index == kk);
                            } else {
                                let j = choose|j: int|
                                    start.requests().len() <= j < before.len()
                                        && #[trigger] before[j].lookup.index == kk;
                                assert(self.requests()[j].lookup.index == kk);
                            }
                        }
                    }
                }
                let ghost pre = *self;
                self.offered = Ghost(self.offered@.push((sent, accepted)));
                assert(self.pending() == pre.pending() && self.requests() == pre.requests()
                    && self.entries() == pre.entries());
                proof {
                    let old_offers = before_offered.subrange(n0, before_offered.len() as int);
                    let offers = self.offered@.subrange(n0, self.offered@.len() as int);
                    assert(offers.drop_last() =~= old_offers);
                    assert(offers.last() == (sent, accepted));
                    if accepted {
                        assert(self.requests() =~= start.requests() + accepted_of(offers));
                    } else {
                        assert(self.requests() =~= start.requests() + accepted_of(offers));
                    }
                    let plan2 = start.free_window(center, files@, (i + 1) as nat);
                    assert(plan2 == plan.push(k));
                    assert forall|j: int|
                        0 <= j < plan2.len() implies (#[trigger] self.offered()[n0 + j]).0.lookup.index
                        == plan2[j] && self.offered()[n0 + j].0.path@ == files@[plan2[j] as int]@ by {
                        if j < plan.len() {
                            assert(self.offered()[n0 + j] == before_offered[n0 + j]);
                        }
                    }
                    assert forall|kk: usize| #[trigger]
                        self.pending().contains(kk) <==> start.pending().contains(kk) || exists|j: int|
                            0 <= j < plan2.len() && (#[trigger] self.offered()[n0 + j]).1 && plan2[j]
                                == kk by {
                        if kk == k {
                            if accepted {
                                assert(self.offered()[n0 + plan.len()].1 && plan2[plan.len() as int]
                                    == kk);
                            } else {
                                assert(!before_pending.contains(kk));
                                assert(!start.pending().contains(kk));
                                if exists|j: int|
                                    0 <= j < plan2.len() && (#[trigger] self.offered()[n0 + j]).1
                                        && plan2[j] == kk {
                                    let j = choose|j: int|
                                        0 <= j < plan2.len() && (#[trigger] self.offered()[n0
                                            + j]).1 && plan2[j] == kk;
                                    if j < plan.len() {
                                        assert(plan[j] < center + i);
                                    }
                                }
                            }
                        } else {
                            if exists|j: int|
                                0 <= j < plan.len() && (#[trigger] before_offered[n0 + j]).1
                                    && plan[j] == kk {
                                let j = choose|j: int|
                                    0 <= j < plan.len() && (#[trigger] before_offered[n0 + j]).1
                                        && plan[j] == kk;
                                assert(self.offered()[n0 + j] == before_offered[n0 + j]);
                            }
                            if exists|j: int|
                                0 <= j < plan2.len() && (#[trigger] self.offered()[n0 + j]).1
                                    && plan2[j] == kk {
                                let j = choose|j: int|
                                    0 <= j < plan2.len() && (#[trigger] self.offered()[n0 + j]).1
                                        && plan2[j] == kk;
                                assert(j < plan.len());
                                assert(self.offered()[n0 + j] == before_offered[n0 + j]);
                            }
                        }
                    }
                }
            } else {
                proof {
                    let plan2 = start.free_window(center, files@, (i + 1) as nat);
                    assert(plan2 == plan);
                    assert forall|kk: usize| #[trigger]
                        self.pending().contains(kk) <==> start.pending().contains(kk) || exists|j: int|
                            0 <= j < plan2.len() && (#[trigger] self.offered()[n0 + j]).1 && plan2[j]
                                == kk by {}
                }
            }
            i = i + 1;
        }
        proof {
            let plan = start.planned(center, files@);
            let offers = self.offered().subrange(n0, self.offered().len() as int);
            assert forall|j: int| 0 <= j < plan.len() implies (#[trigger] offers[j]).0.lookup.index
                == plan[j] && offers[j].0.path@ == files@[plan[j] as int]@ by {
                assert(offers[j] == self.offered()[n0 + j]);
            }
            assert forall|k: usize| #[trigger]
                self.pending().contains(k) <==> start.pending().contains(k) || exists|j: int|
                    0 <= j < plan.len() && (#[trigger] offers[j]).1 && plan[j] == k by {
                if exists|j: int|
                    0 <= j < plan.len() && (#[trigger] self.offered()[n0 + j]).1 && plan[j] == k {
                    let j = choose|j: int|
                        0 <= j < plan.len() && (#[trigger] self.offered()[n0 + j]).1 && plan[j]
                            == k;
                    assert(offers[j] == self.offered()[n0 + j]);
                }
                if exists|j: int| 0 <= j < plan.len() && (#[trigger] offers[j]).1 && plan[j] == k {
                    let j = choose|j: int|
                        0 <= j < plan.len() && (#[trigger] offers[j]).1 && plan[j] == k;
                    assert(offers[j] == self.offered()[n0 + j]);
                }
            }
            if forall|k: usize| #[trigger]
                in_window(center, start.workers(), k) ==> start.entries().contains_key(k)
                    || start.pending().contains(k) {
                if self.requests().len() > start.requests().len() {
                    let j = start.requests().len() as int;
                    assert(start.may_request(center, files@, self.requests()[j]));
                    assert(in_window(center, start.workers(), self.requests()[j].lookup.index));
                }
                assert(self.requests() =~= start.requests());
                assert forall|k: usize| self.pending().contains(k) implies start.pending().contains(k) by {
                    if !start.pending().contains(k) {
                        let j = choose|j: int|
                            start.requests().len() <= j < self.requests().len()
                                && #[trigger] self.requests()[j].lookup.index == k;
                    }
                }
                assert(self.pending() =~= start.pending());
            }
        }
    }

    /// The image at `lookup`, if it is ready. Each call first takes in the
    /// results that workers have sent, then, above `CACHE_CAPACITY` entries,
    /// evicts those far from `lookup`, then prefetches the window ahead of
    /// `lookup`. It returns `None` while the image is pending, and also for an
    /// index that was never requested, such as one beyond the end of `files`.
    pub fn get(&mut self, lookup: ImageLookup, files: &[ImageFile]) -> (r: Option<&CachedImage>)
        requires
            old(self).wf(),
        ensures
            final(self).wf(),
            old(self).fetched(*final(self), lookup.index, files@),
            r is Some <==> final(self).entries().contains_key(lookup.index),
            r matches Some(e) ==> *e == final(self).entries()[lookup.index] && e@.size
                == final(self).target() && well_formed(e@),
    {
        let ghost a = *self;
        self.update();
        let ghost b = *self;
        self.evict_far_from(lookup.index);
        let ghost c = *self;
        self.prefetch(lookup.index, files);
        proof {
            lemma_get_steps(a, b, c, *self, lookup.index, files@);
        }
        if self.queued.contains(&lookup.index) {
            None
        } else {
            let r = self.cache.get(&lookup.index);
            match r {
                Some(e) => {
                    proof {
                        use_type_invariant(e);
                    }
                },
                None => {},
            }
            r
        }
    }
}

/// What a worker does after a non-blocking look at the request channel.
pub open spec fn step_for(polled: Polled<DecodeRequest>) -> WorkerStep {
    match polled {
        Polled::Message(req) => WorkerStep::Decode(req),
        Polled::Empty => WorkerStep::Wait,
        Polled::Disconnected => WorkerStep::Stop,
    }
}

/// Decides a worker's next step from what it found on the request channel:
/// decode a request that came, wait when there was none, stop when the
/// cache is gone.
pub fn next_step(polled: Polled<DecodeRequest>) -> (step: WorkerStep)
    ensures
        step == step_for(polled),
{
    match polled {
        Polled::Message(req) => WorkerStep::Decode(req),
        Polled::Empty => WorkerStep::Wait,
        Polled::Disconnected => WorkerStep::Stop,
    }
}

impl WorkerPort {
    /// Looks for a request without blocking, and says what to do next:
    /// decode the request, wait when there is none, stop when the cache that
    /// sends requests is gone.
    pub fn poll(&self) -> (step: WorkerStep) {
        next_step(try_recv(&self.requests))
    }

    /// The size that images are to be scaled to fit, as the cache last set it.
    pub fn target_size(&self) -> TargetSize {
        read_locked(&self.size)
    }

    /// Scales an RGBA image of `src_w` by `src_h` pixels to the current
    /// target size, read once under the lock, and tags the outcome with
    /// `lookup`.
    pub fn decode(&self, lookup: ImageLookup, src_w: u32, src_h: u32, src: Vec<u8>) -> (r:
        DecodeResult)
        requires
            src@.len() == 4 * src_w * src_h,
        ensures
            r.spec_lookup() == lookup,
            r matches DecodeResult::Decoded(_, c) ==> well_formed(c@) && fits_in_memory(c@.size)
                && c@.image.width == resized_rgba(src_w, src_h, src@, c@.size.width, c@.size.height).0
                && c@.image.height == resized_rgba(src_w, src_h, src@, c@.size.width, c@.size.height).1
                && c@.image.pixels == rgba_pixels(
                resized_rgba(src_w, src_h, src@, c@.size.width, c@.size.height).2,
            ),
            r matches DecodeResult::Failed(_, e) ==> e is TooLarge,
    {
        let size = self.target_size();
        decode_image(lookup, src_w, src_h, src, size)
    }

    /// Sends a result to the cache, blocking while the result channel is
    /// full. Returns false when the cache is gone.
    pub fn deliver(&self, result: DecodeResult) -> bool {
        send(&self.results, result)
    }
}

impl Clone for WorkerPort {
    /// Another handle on the same channels and lock, for another worker.
    fn clone(&self) -> Self {
        WorkerPort {
            requests: self.requests.clone(),
            results: self.results.clone(),
            size: share(&self.size),
        }
    }
}

/// The free indices of a window prefix lie in that prefix, in increasing order.
proof fn lemma_free_window_below(s: ImageCache, center: usize, files: Seq<ImageFile>, count: nat)
    ensures
        forall|j: int|
            0 <= j < s.free_window(center, files, count).len() ==> center <= #[trigger] s.free_window(
                center,
                files,
                count,
            )[j] < center + count,
    decreases count,
{
    if count > 0 {
        lemma_free_window_below(s, center, files, (count - 1) as nat);
        let rest = s.free_window(center, files, (count - 1) as nat);
        let all = s.free_window(center, files, count);
        assert forall|j: int| 0 <= j < all.len() implies center <= #[trigger] all[j] < center
            + count by {
            if j < rest.len() {
                assert(all[j] == rest[j]);
            }
        }
    }
}

/// The three steps of `get` add up to what `fetched` states.
proof fn lemma_get_steps(
    a: ImageCache,
    b: ImageCache,
    c: ImageCache,
    d: ImageCache,
    center: usize,
    files: Seq<ImageFile>,
)
    requires
        a.wf(),
        b.wf(),
        c.wf(),
        a.drained(b),
        b.evicted(c, center),
        c.prefetched(d, center, files),
    ensures
        a.fetched(d, center, files),
{
    assert(b.wf() && c.wf() && a.drained(b) && b.evicted(c, center) && c.prefetched(d, center, files));
    assert forall|k: usize| #[trigger] d.pending().contains(k) implies a.pending().contains(k) || (
    in_window(center, a.workers(), k) && k < files.len()) by {
        if !c.pending().contains(k) {
            let j = choose|j: int|
                c.requests().len() <= j < d.requests().len() && #[trigger] d.requests()[j].lookup.index
                    == k;
            assert(c.may_request(center, files, d.requests()[j]));
        }
    }
    assert forall|j: int| a.requests().len() <= j < d.requests().len() implies {
        let req = #[trigger] d.requests()[j];
        &&& in_window(center, a.workers(), req.lookup.index)
        &&& req.lookup.index < files.len()
        &&& req.path@ == files[req.lookup.index as int]@
        &&& d.pending().contains(req.lookup.index)
    } by {
        assert(c.may_request(center, files, d.requests()[j]));
    }
}

/// Taking in one more result keeps to what draining may do.
proof fn lemma_drained_then_received(a: ImageCache, b: ImageCache, c: ImageCache, msg: DecodeResult)
    requires
        b.wf(),
        a.drained(b),
        b.received(c, msg),
    ensures
        a.drained(c),
{
    assert forall|k: usize| #[trigger] a.entries().contains_key(k) implies c.entries().contains_key(k)
        && c.entries()[k] == a.entries()[k] by {
        assert(b.entries().contains_key(k));
        assert(!b.pending().contains(k));
    }
}

/// Whether `states` are the states that successive calls of `get`, each
/// at index `center` and with image list `files`, go through.
pub open spec fn gets_at(states: Seq<ImageCache>, center: usize, files: Seq<ImageFile>) -> bool {
    forall|i: int|
        0 <= i < states.len() - 1 ==> #[trigger] states[i].fetched(states[i + 1], center, files)
}

/// Whether `states` are the states that successive calls of `get` go
/// through, the `i`th call at index `centers[i]`, all with image list `files`.
pub open spec fn gets_along(states: Seq<ImageCache>, centers: Seq<usize>, files: Seq<ImageFile>) -> bool {
    &&& centers.len() + 1 == states.len()
    &&& forall|i: int|
        0 <= i < centers.len() ==> #[trigger] states[i].fetched(states[i + 1], centers[i], files)
}

/// Requesting the same index again and again never evicts it: once it is
/// cached, every later call of `get` at that index keeps the same entry.
pub proof fn lemma_repeated_get_keeps_current(
    states: Seq<ImageCache>,
    center: usize,
    files: Seq<ImageFile>,
)
    requires
        states.len() > 0,
        gets_at(states, center, files),
        states[0].entries().contains_key(center),
    ensures
        forall|i: int|
            0 <= i < states.len() ==> #[trigger] states[i].entries().contains_key(center)
                && states[i].entries()[center] == states[0].entries()[center],
    decreases states.len(),
{
    if states.len() > 1 {
        let prefix = states.drop_last();
        assert forall|i: int| 0 <= i < prefix.len() - 1 implies #[trigger] prefix[i].fetched(
            prefix[i + 1],
            center,
            files,
        ) by {
            assert(states[i].fetched(states[i + 1], center, files));
        }
        lemma_repeated_get_keeps_current(prefix, center, files);
        let last = states.len() - 1;
        assert(prefix[last - 1] == states[last - 1]);
        let p = last - 1;
        assert(states[p].fetched(states[p + 1], center, files));
        assert forall|i: int| 0 <= i < states.len() implies #[trigger] states[i].entries().contains_key(
            center,
        ) && states[i].entries()[center] == states[0].entries()[center] by {
            if i < last {
                assert(prefix[i] == states[i]);
            }
        }
    }
}

/// An index beyond the end of the image list is never requested and never
/// cached, however often `get` asks for it, and the pending set only ever
/// grows by indices inside the image list.
pub proof fn lemma_out_of_range_never_ready(
    states: Seq<ImageCache>,
    center: usize,
    files: Seq<ImageFile>,
)
    requires
        states.len() > 0,
        gets_at(states, center, files),
        center >= files.len(),
        !states[0].entries().contains_key(center),
        !states[0].pending().contains(center),
    ensures
        forall|i: int|
            0 <= i < states.len() ==> !#[trigger] states[i].entries().contains_key(center)
                && !states[i].pending().contains(center),
        forall|i: int, k: usize|
            0 <= i < states.len() && #[trigger] states[i].pending().contains(k)
                ==> states[0].pending().contains(k) || k < files.len(),
    decreases states.len(),
{
    if states.len() > 1 {
        let prefix = states.drop_last();
        assert forall|i: int| 0 <= i < prefix.len() - 1 implies #[trigger] prefix[i].fetched(
            prefix[i + 1],
            center,
            files,
        ) by {
            assert(states[i].fetched(states[i + 1], center, files));
        }
        lemma_out_of_range_never_ready(prefix, center, files);
        let last = states.len() - 1;
        assert(prefix[last - 1] == states[last - 1]);
        let p = last - 1;
        assert(states[p].fetched(states[p + 1], center, files));
        assert forall|i: int| 0 <= i < states.len() implies !#[trigger] states[i].entries().contains_key(
            center,
        ) && !states[i].pending().contains(center) by {
            if i < last {
                assert(prefix[i] == states[i]);
            }
        }
        assert forall|i: int, k: usize|
            0 <= i < states.len() && #[trigger] states[i].pending().contains(k) implies states[0].pending().contains(
            k,
        ) || k < files.len() by {
            if i < last {
                assert(prefix[i] == states[i]);
            } else {
                assert(prefix[last - 1].pending().contains(k) ==> states[0].pending().contains(k)
                    || k < files.len());
            }
        }
    }
}

/// Once the decode of a pending index has been taken in at the current
/// target size, the next `get` at that index serves it.
pub proof fn lemma_received_image_is_served(
    a: ImageCache,
    msg: DecodeResult,
    b: ImageCache,
    c: ImageCache,
    files: Seq<ImageFile>,
)
    requires
        a.wf(),
        a.pending().contains(msg.spec_lookup().index),
        msg matches DecodeResult::Decoded(_, img) && img@.size == a.target(),
        a.received(b, msg),
        b.fetched(c, msg.spec_lookup().index, files),
    ensures
        c.entries().contains_key(msg.spec_lookup().index),
{
    let k = msg.spec_lookup().index;
    assert(b.entries().contains_key(k));
}

/// After the target size changes, an image that was cached before the
/// change is served again only once it has been requested anew: whenever a
/// later `get` finds it cached, some call after the change had it pending.
pub proof fn lemma_resize_forgets_cached(
    before: ImageCache,
    size: TargetSize,
    states: Seq<ImageCache>,
    centers: Seq<usize>,
    files: Seq<ImageFile>,
    k: usize,
    n: int,
)
    requires
        before.wf(),
        before.entries().contains_key(k),
        states.len() > 0,
        before.resized(states[0], size, true),
        gets_along(states, centers, files),
        0 <= n < states.len(),
        states[n].entries().contains_key(k),
    ensures
        exists|i: int| 1 <= i < n && #[trigger] states[i].pending().contains(k),
    decreases n,
{
    assert(!states[0].entries().contains_key(k));
    assert(n > 0);
    let p = n - 1;
    assert(states[p].fetched(states[p + 1], centers[p], files));
    if states[n - 1].pending().contains(k) {
        assert(!states[0].pending().contains(k));
        assert(n - 1 >= 1);
    } else {
        lemma_resize_forgets_cached(before, size, states, centers, files, k, n - 1);
    }
}
} // verus!
