//! Choosing an ONNX Runtime execution backend, model input sizes, and the
//! cache of loaded model sessions.

use vstd::prelude::*;

verus! {

/// Execution backend for ONNX Runtime.
#[derive(Debug, Clone, Copy, PartialEq, Eq, Structural)]
pub enum ExecutionBackend {
    /// CPU execution (default).
    Cpu,
    /// CUDA (NVIDIA GPU).
    Cuda,
    /// DirectML (Windows GPU).
    DirectML,
    /// CoreML (macOS).
    CoreML,
}

impl Default for ExecutionBackend {
    fn default() -> (b: ExecutionBackend)
        ensures
            b == ExecutionBackend::Cpu,
    {
        ExecutionBackend::Cpu
    }
}

/// The operating system the program was built for.
#[derive(Debug, Clone, Copy, PartialEq, Eq, Structural)]
pub enum TargetOs {
    Windows,
    Linux,
    MacOs,
    Other,
}

/// The backends worth trying on `os`, in priority order, given whether a
/// CUDA toolkit was found: DirectML then CUDA on Windows, CUDA on Linux,
/// CoreML on macOS, and always the CPU last.
pub open spec fn backends_for(os: TargetOs, cuda_available: bool) -> Seq<ExecutionBackend> {
    match os {
        TargetOs::Windows => if cuda_available {
            seq![ExecutionBackend::DirectML, ExecutionBackend::Cuda, ExecutionBackend::Cpu]
        } else {
            seq![ExecutionBackend::DirectML, ExecutionBackend::Cpu]
        },
        TargetOs::Linux => if cuda_available {
            seq![ExecutionBackend::Cuda, ExecutionBackend::Cpu]
        } else {
            seq![ExecutionBackend::Cpu]
        },
        TargetOs::MacOs => seq![ExecutionBackend::CoreML, ExecutionBackend::Cpu],
        TargetOs::Other => seq![ExecutionBackend::Cpu],
    }
}

/// Whether `b` can run on `os`: the CPU always, CUDA when its toolkit was
/// found, DirectML on Windows, CoreML on macOS.
pub open spec fn backend_available(b: ExecutionBackend, os: TargetOs, cuda_available: bool) -> bool {
    match b {
        ExecutionBackend::Cpu => true,
        ExecutionBackend::Cuda => cuda_available,
        ExecutionBackend::DirectML => os == TargetOs::Windows,
        ExecutionBackend::CoreML => os == TargetOs::MacOs,
    }
}

/// The backend a session manager settles on: the first listed GPU backend
/// that is available, or the CPU when there is none.
pub open spec fn preferred_backend(os: TargetOs, cuda_available: bool) -> ExecutionBackend {
    match os {
        TargetOs::Windows => ExecutionBackend::DirectML,
        TargetOs::Linux => if cuda_available { ExecutionBackend::Cuda } else { ExecutionBackend::Cpu },
        TargetOs::MacOs => ExecutionBackend::CoreML,
        TargetOs::Other => ExecutionBackend::Cpu,
    }
}

impl ExecutionBackend {
    /// The backends to try on `os`, in priority order (see `backends_for`).
    pub fn available_backends(os: TargetOs, cuda_available: bool) -> (v: Vec<ExecutionBackend>)
        ensures
            v@ == backends_for(os, cuda_available),
    {
        let mut backends: Vec<ExecutionBackend> = Vec::new();
        match os {
            TargetOs::Windows => {
                backends.push(ExecutionBackend::DirectML);
                if cuda_available {
                    backends.push(ExecutionBackend::Cuda);
                }
            },
            TargetOs::Linux => {
                if cuda_available {
                    backends.push(ExecutionBackend::Cuda);
                }
            },
            TargetOs::MacOs => {
                backends.push(ExecutionBackend::CoreML);
            },
            TargetOs::Other => {},
        }
        backends.push(ExecutionBackend::Cpu);
        proof {
            assert(backends@ =~= backends_for(os, cuda_available));
        }
        backends
    }

    /// Whether this backend can run on `os` (see `backend_available`).
    pub fn is_available(&self, os: TargetOs, cuda_available: bool) -> (r: bool)
        ensures
            r == backend_available(*self, os, cuda_available),
    {
        match self {
            ExecutionBackend::Cpu => true,
            ExecutionBackend::Cuda => cuda_available,
            ExecutionBackend::DirectML => match os {
                TargetOs::Windows => true,
                _ => false,
            },
            ExecutionBackend::CoreML => match os {
                TargetOs::MacOs => true,
                _ => false,
            },
        }
    }

    /// Walks the candidate backends in priority order and takes the first
    /// available one other than the CPU, falling back to the CPU.
    pub fn select(os: TargetOs, cuda_available: bool) -> (b: ExecutionBackend)
        ensures
            b == preferred_backend(os, cuda_available),
            backend_available(b, os, cuda_available),
            b == ExecutionBackend::Cpu <==> no_gpu_offered(os, cuda_available),
            b != ExecutionBackend::Cpu ==> is_first_gpu_offered(os, cuda_available, b),
    {
        let backends = ExecutionBackend::available_backends(os, cuda_available);
        let mut i: usize = 0;
        while i < backends.len()
            invariant
                backends@ == backends_for(os, cuda_available),
                i <= backends@.len(),
                forall|k: int| 0 <= k < i ==> !(backend_available(#[trigger] backends@[k], os, cuda_available) && backends@[k] != ExecutionBackend::Cpu),
            decreases backends@.len() - i,
        {
            let b = backends[i];
            if b.is_available(os, cuda_available) && b != ExecutionBackend::Cpu {
                proof {
                    lemma_offered_backends_available(os, cuda_available);
                    lemma_preferred_is_first_gpu(os, cuda_available);
                    assert(is_first_gpu_offered(os, cuda_available, b));
                }
                return b;
            }
            i = i + 1;
        }
        proof {
            lemma_preferred_is_first_gpu(os, cuda_available);
            assert(no_gpu_offered(os, cuda_available));
        }
        ExecutionBackend::Cpu
    }
}

/// No backend offered on `os` is an available GPU backend.
pub open spec fn no_gpu_offered(os: TargetOs, cuda_available: bool) -> bool {
    forall|k: int|
        0 <= k < backends_for(os, cuda_available).len() ==> !(backend_available(
            #[trigger] backends_for(os, cuda_available)[k],
            os,
            cuda_available,
        ) && backends_for(os, cuda_available)[k] != ExecutionBackend::Cpu)
}

/// `b` is an available GPU backend offered on `os`, and no available GPU
/// backend is offered before it.
pub open spec fn is_first_gpu_offered(os: TargetOs, cuda_available: bool, b: ExecutionBackend) -> bool {
    exists|k: int|
        #![trigger backends_for(os, cuda_available)[k]]
        0 <= k < backends_for(os, cuda_available).len() && backends_for(os, cuda_available)[k] == b && backend_available(
            b,
            os,
            cuda_available,
        ) && b != ExecutionBackend::Cpu && forall|j: int|
            0 <= j < k ==> !(backend_available(#[trigger] backends_for(os, cuda_available)[j], os, cuda_available)
                && backends_for(os, cuda_available)[j] != ExecutionBackend::Cpu)
}

/// The backend chosen is the first GPU backend in the platform's priority
/// list that can run, and the CPU only when none can: a GPU that is there
/// is never passed over. CoreML on macOS and DirectML on Windows are chosen
/// whether or not a CUDA toolkit was found; CUDA is chosen on Linux exactly
/// when its toolkit was found.
pub proof fn lemma_preferred_is_first_gpu(os: TargetOs, cuda_available: bool)
    ensures
        backend_available(preferred_backend(os, cuda_available), os, cuda_available),
        preferred_backend(os, cuda_available) == ExecutionBackend::Cpu <==> no_gpu_offered(os, cuda_available),
        preferred_backend(os, cuda_available) != ExecutionBackend::Cpu ==> is_first_gpu_offered(
            os,
            cuda_available,
            preferred_backend(os, cuda_available),
        ),
        os != TargetOs::Linux ==> preferred_backend(os, true) == preferred_backend(os, false),
{
    let s = backends_for(os, cuda_available);
    let p = preferred_backend(os, cuda_available);
    match os {
        TargetOs::Windows => {
            assert(s[0] == ExecutionBackend::DirectML);
            assert(is_first_gpu_offered(os, cuda_available, p));
        },
        TargetOs::Linux => {
            if cuda_available {
                assert(s[0] == ExecutionBackend::Cuda);
                assert(is_first_gpu_offered(os, cuda_available, p));
            } else {
                assert(s =~= seq![ExecutionBackend::Cpu]);
            }
        },
        TargetOs::MacOs => {
            assert(s[0] == ExecutionBackend::CoreML);
            assert(is_first_gpu_offered(os, cuda_available, p));
        },
        TargetOs::Other => {
            assert(s =~= seq![ExecutionBackend::Cpu]);
        },
    }
}

/// Every backend that is offered can run, the CPU is always offered, and it
/// comes last.
pub proof fn lemma_offered_backends_available(os: TargetOs, cuda_available: bool)
    ensures
        forall|i: int|
            0 <= i < backends_for(os, cuda_available).len() ==> backend_available(
                #[trigger] backends_for(os, cuda_available)[i],
                os,
                cuda_available,
            ),
        backends_for(os, cuda_available).len() > 0,
        backends_for(os, cuda_available).last() == ExecutionBackend::Cpu,
        backends_for(os, cuda_available).contains(preferred_backend(os, cuda_available)),
{
    let s = backends_for(os, cuda_available);
    match os {
        TargetOs::Windows => {
            assert(s[0] == ExecutionBackend::DirectML);
        },
        TargetOs::Linux => {
            assert(s[0] == preferred_backend(os, cuda_available));
        },
        TargetOs::MacOs => {
            assert(s[0] == ExecutionBackend::CoreML);
        },
        TargetOs::Other => {
            assert(s[0] == ExecutionBackend::Cpu);
        },
    }
}

/// Kinds of ML model sessions.
#[derive(Debug, Clone, Copy, PartialEq, Eq, Hash, Structural)]
pub enum ModelType {
    FaceDetection,
    DepthEstimation,
    Segmentation,
    /// Edge detection (DexiNed, exported with a fixed 512×512 input).
    EdgeDetection,
}

/// The NCHW input shape a session of each model type is fed.
pub open spec fn model_input_shape(t: ModelType) -> Seq<i64> {
    match t {
        ModelType::FaceDetection => seq![1i64, 3, 160, 160],
        ModelType::DepthEstimation => seq![1i64, 3, 384, 384],
        ModelType::Segmentation => seq![1i64, 3, 512, 512],
        ModelType::EdgeDetection => seq![1i64, 3, 512, 512],
    }
}

impl ModelType {
    /// The NCHW input shape of this model type.
    pub fn default_input_shape(&self) -> (s: Vec<i64>)
        ensures
            s@ == model_input_shape(*self),
    {
        let side: i64 = match self {
            ModelType::FaceDetection => 160,
            ModelType::DepthEstimation => 384,
            ModelType::Segmentation => 512,
            ModelType::EdgeDetection => 512,
        };
        let v = vec![1i64, 3, side, side];
        proof {
            assert(v@ =~= model_input_shape(*self));
        }
        v
    }
}

/// Identifies a cached session: the model file's path (as raw bytes) and the
/// kind of model.
#[derive(Debug, Clone)]
pub struct ModelKey {
    pub path: Vec<u8>,
    pub model_type: ModelType,
}

/// The mathematical key of a cache entry.
pub open spec fn entry_key<S>(e: (ModelKey, S)) -> (Seq<u8>, ModelType) {
    (e.0.path@, e.0.model_type)
}

/// No two entries share a key.
pub open spec fn distinct_keys<S>(e: Seq<(ModelKey, S)>) -> bool {
    forall|i: int, j: int| 0 <= i < j < e.len() ==> entry_key(#[trigger] e[i]) != entry_key(#[trigger] e[j])
}

/// The map from keys to sessions that a list of entries stands for.
pub open spec fn entries_map<S>(e: Seq<(ModelKey, S)>) -> Map<(Seq<u8>, ModelType), S>
    decreases e.len(),
{
    if e.len() == 0 {
        Map::empty()
    } else {
        entries_map(e.drop_last()).insert(entry_key(e.last()), e.last().1)
    }
}

/// The map holds exactly the keys of the entries, each with its entry's
/// session.
proof fn lemma_entries_map<S>(e: Seq<(ModelKey, S)>, k: (Seq<u8>, ModelType))
    requires
        distinct_keys(e),
    ensures
        entries_map(e).contains_key(k) <==> exists|i: int| 0 <= i < e.len() && entry_key(#[trigger] e[i]) == k,
        forall|i: int| 0 <= i < e.len() && entry_key(#[trigger] e[i]) == k ==> entries_map(e)[k] == e[i].1,
    decreases e.len(),
{
    if e.len() > 0 {
        let d = e.drop_last();
        assert(distinct_keys(d)) by {
            assert forall|i: int, j: int| 0 <= i < j < d.len() implies entry_key(#[trigger] d[i]) != entry_key(#[trigger] d[j]) by {
                assert(d[i] == e[i] && d[j] == e[j]);
            }
        }
        lemma_entries_map(d, k);
        let last = e.len() - 1;
        if entry_key(e[last]) == k {
            assert(entry_key(e[last]) == k);
            assert forall|i: int| 0 <= i < e.len() && entry_key(#[trigger] e[i]) == k implies entries_map(e)[k] == e[i].1 by {
                if i != last {
                    assert(entry_key(e[i]) != entry_key(e[last]));
                }
            }
        } else {
            if entries_map(e).contains_key(k) {
                let i = choose|i: int| 0 <= i < d.len() && entry_key(#[trigger] d[i]) == k;
                assert(e[i] == d[i]);
            }
            if exists|i: int| 0 <= i < e.len() && entry_key(#[trigger] e[i]) == k {
                let i = choose|i: int| 0 <= i < e.len() && entry_key(#[trigger] e[i]) == k;
                assert(i != last);
                assert(d[i] == e[i]);
            }
            assert forall|i: int| 0 <= i < e.len() && entry_key(#[trigger] e[i]) == k implies entries_map(e)[k] == e[i].1 by {
                assert(i != last);
                assert(d[i] == e[i]);
            }
        }
    }
}

/// The map has one key per entry.
proof fn lemma_entries_map_len<S>(e: Seq<(ModelKey, S)>)
    requires
        distinct_keys(e),
    ensures
        entries_map(e).dom().finite(),
        entries_map(e).dom().len() == e.len(),
    decreases e.len(),
{
    if e.len() > 0 {
        let d = e.drop_last();
        assert(distinct_keys(d)) by {
            assert forall|i: int, j: int| 0 <= i < j < d.len() implies entry_key(#[trigger] d[i]) != entry_key(#[trigger] d[j]) by {
                assert(d[i] == e[i] && d[j] == e[j]);
            }
        }
        lemma_entries_map_len(d);
        let k = entry_key(e.last());
        lemma_entries_map(d, k);
        if entries_map(d).contains_key(k) {
            let i = choose|i: int| 0 <= i < d.len() && entry_key(#[trigger] d[i]) == k;
            assert(d[i] == e[i]);
            assert(false);
        }
    }
}

/// Two distinct-key entry lists with the same keys and sessions stand for the
/// same map.
proof fn lemma_entries_map_ext<S>(a: Seq<(ModelKey, S)>, b: Seq<(ModelKey, S)>, m: Map<(Seq<u8>, ModelType), S>)
    requires
        distinct_keys(a),
        forall|k: (Seq<u8>, ModelType)| #![trigger m.contains_key(k)] m.contains_key(k) <==> exists|i: int| 0 <= i < a.len() && entry_key(#[trigger] a[i]) == k,
        forall|i: int| 0 <= i < a.len() ==> m[entry_key(#[trigger] a[i])] == a[i].1,
    ensures
        entries_map(a) == m,
{
    assert forall|k: (Seq<u8>, ModelType)| #![trigger m.contains_key(k)] entries_map(a).contains_key(k) <==> m.contains_key(k) by {
        lemma_entries_map(a, k);
    }
    assert forall|k: (Seq<u8>, ModelType)| #![trigger m.contains_key(k)] m.contains_key(k) implies entries_map(a)[k] == m[k] by {
        lemma_entries_map(a, k);
        let i = choose|i: int| 0 <= i < a.len() && entry_key(#[trigger] a[i]) == k;
    }
    assert(entries_map(a) =~= m);
}

/// Whether two byte strings are equal.
fn bytes_equal(a: &[u8], b: &[u8]) -> (r: bool)
    ensures
        r == (a@ == b@),
{
    if a.len() != b.len() {
        return false;
    }
    let mut i: usize = 0;
    while i < a.len()
        invariant
            a@.len() == b@.len(),
            i <= a@.len(),
            forall|k: int| 0 <= k < i ==> a@[k] == b@[k],
        decreases a@.len() - i,
    {
        if a[i] != b[i] {
            return false;
        }
        i = i + 1;
    }
    assert(a@ =~= b@);
    true
}

/// The cache of loaded model sessions, keyed by model path and model type.
///
/// The entries are held in a `Vec` whose keys are kept distinct (`wf`),
/// rather than in a `HashMap`: the key is a path together with a model type,
/// and vstd specifies `HashMap` only for keys whose hashing and equality it
/// models (integers and the like), so a map keyed this way could not carry
/// the cache's contract. Seen through its view the cache is the same finite
/// map from key to session that a hash map would hold; only the order of the
/// entries, which a map does not have, is left out of the view. A cache holds
/// a handful of models, so a linear lookup costs nothing that matters.
pub struct SessionCache<S> {
    entries: Vec<(ModelKey, S)>,
}

impl<S> View for SessionCache<S> {
    type V = Map<(Seq<u8>, ModelType), S>;

    closed spec fn view(&self) -> Map<(Seq<u8>, ModelType), S> {
        entries_map(self.entries@)
    }
}

impl<S> SessionCache<S> {
    /// The cache's entries have distinct keys.
    pub closed spec fn wf(&self) -> bool {
        distinct_keys(self.entries@)
    }

    /// An empty cache.
    pub fn new() -> (c: SessionCache<S>)
        ensures
            c.wf(),
            c@ == Map::<(Seq<u8>, ModelType), S>::empty(),
    {
        SessionCache { entries: Vec::new() }
    }

    /// The position of the entry for `(path, model_type)`, if cached.
    fn find(&self, path: &[u8], model_type: ModelType) -> (r: Option<usize>)
        requires
            self.wf(),
        ensures
            r matches Some(i) ==> i < self.entries@.len() && entry_key(self.entries@[i as int]) == (path@, model_type),
            r is None ==> forall|i: int| 0 <= i < self.entries@.len() ==> entry_key(#[trigger] self.entries@[i]) != (path@, model_type),
    {
        let mut i: usize = 0;
        while i < self.entries.len()
            invariant
                i <= self.entries@.len(),
                forall|k: int| 0 <= k < i ==> entry_key(#[trigger] self.entries@[k]) != (path@, model_type),
            decreases self.entries@.len() - i,
        {
            let entry = &self.entries[i];
            if entry.0.model_type == model_type && bytes_equal(entry.0.path.as_slice(), path) {
                return Some(i);
            }
            i = i + 1;
        }
        None
    }

    /// The cached session for `(path, model_type)`, if any.
    pub fn get(&self, path: &[u8], model_type: ModelType) -> (r: Option<&S>)
        requires
            self.wf(),
        ensures
            r is Some <==> self@.contains_key((path@, model_type)),
            r matches Some(s) ==> *s == self@[(path@, model_type)],
    {
        proof {
            lemma_entries_map(self.entries@, (path@, model_type));
        }
        match self.find(path, model_type) {
            Some(i) => Some(&self.entries[i].1),
            None => None,
        }
    }

    /// Whether a session for `(path, model_type)` is cached.
    pub fn is_loaded(&self, path: &[u8], model_type: ModelType) -> (r: bool)
        requires
            self.wf(),
        ensures
            r == self@.contains_key((path@, model_type)),
    {
        proof {
            lemma_entries_map(self.entries@, (path@, model_type));
        }
        self.find(path, model_type).is_some()
    }

    /// Stores `session` under `(path, model_type)`, replacing any session
    /// cached there.
    pub fn insert(&mut self, path: Vec<u8>, model_type: ModelType, session: S)
        requires
            old(self).wf(),
        ensures
            final(self).wf(),
            final(self)@ == old(self)@.insert((path@, model_type), session),
    {
        let ghost k = (path@, model_type);
        let ghost old_entries = self.entries@;
        let ghost target = entries_map(old_entries).insert(k, session);
        match self.find(path.as_slice(), model_type) {
            Some(i) => {
                let key = ModelKey { path, model_type };
                self.entries.set(i, (key, session));
                proof {
                    let e = self.entries@;
                    assert(distinct_keys(e)) by {
                        assert forall|a: int, b: int| 0 <= a < b < e.len() implies entry_key(#[trigger] e[a]) != entry_key(#[trigger] e[b]) by {
                            if a != i && b != i {
                                assert(e[a] == old_entries[a] && e[b] == old_entries[b]);
                            } else if a == i {
                                assert(e[b] == old_entries[b]);
                            } else {
                                assert(e[a] == old_entries[a]);
                            }
                        }
                    }
                    assert forall|kk: (Seq<u8>, ModelType)| #![trigger target.contains_key(kk)] target.contains_key(kk) <==> exists|j: int|
                        0 <= j < e.len() && entry_key(#[trigger] e[j]) == kk by {
                        lemma_entries_map(old_entries, kk);
                        if kk == k {
                            assert(entry_key(e[i as int]) == kk);
                        }
                        if kk != k && target.contains_key(kk) {
                            let j = choose|j: int| 0 <= j < old_entries.len() && entry_key(#[trigger] old_entries[j]) == kk;
                            assert(j != i);
                            assert(e[j] == old_entries[j]);
                            assert(entry_key(e[j]) == kk);
                        }
                        if exists|j: int| 0 <= j < e.len() && entry_key(#[trigger] e[j]) == kk {
                            let j = choose|j: int| 0 <= j < e.len() && entry_key(#[trigger] e[j]) == kk;
                            if j != i {
                                assert(e[j] == old_entries[j]);
                            }
                        }
                    }
                    assert forall|j: int| 0 <= j < e.len() implies target[entry_key(#[trigger] e[j])] == e[j].1 by {
                        if j != i {
                            assert(e[j] == old_entries[j]);
                            lemma_entries_map(old_entries, entry_key(e[j]));
                        }
                    }
                    lemma_entries_map_ext(e, e, target);
                }
            },
            None => {
                let key = ModelKey { path, model_type };
                self.entries.push((key, session));
                proof {
                    let e = self.entries@;
                    assert(e.drop_last() =~= old_entries);
                    assert(distinct_keys(e)) by {
                        assert forall|a: int, b: int| 0 <= a < b < e.len() implies entry_key(#[trigger] e[a]) != entry_key(#[trigger] e[b]) by {
                            assert(e[a] == old_entries[a]);
                            if b < old_entries.len() {
                                assert(e[b] == old_entries[b]);
                            }
                        }
                    }
                }
            },
        }
    }

    /// Makes sure a session for `(path, model_type)` is cached: a cached one
    /// is reused and `load` is not called; otherwise `load` is called once
    /// and the session it gives is stored, or its error is returned with the
    /// cache unchanged.
    pub fn ensure_loaded<E, F: FnOnce() -> Result<S, E>>(&mut self, path: Vec<u8>, model_type: ModelType, load: F) -> (r: Result<(), E>)
        requires
            old(self).wf(),
            !old(self)@.contains_key((path@, model_type)) ==> call_requires(load, ()),
        ensures
            final(self).wf(),
            old(self)@.contains_key((path@, model_type)) ==> r is Ok && final(self)@ == old(self)@,
            !old(self)@.contains_key((path@, model_type)) ==> match r {
                Ok(()) => exists|s: S| call_ensures(load, (), Ok(s)) && final(self)@ == #[trigger] old(self)@.insert((path@, model_type), s),
                Err(e) => call_ensures(load, (), Err(e)) && final(self)@ == old(self)@,
            },
    {
        if self.is_loaded(path.as_slice(), model_type) {
            return Ok(());
        }
        match load() {
            Ok(session) => {
                let ghost s = session;
                self.insert(path, model_type, session);
                proof {
                    assert(self@ == old(self)@.insert((path@, model_type), s));
                }
                Ok(())
            },
            Err(e) => Err(e),
        }
    }

    /// Drops the session cached under `(path, model_type)`, if any.
    pub fn unload(&mut self, path: &[u8], model_type: ModelType)
        requires
            old(self).wf(),
        ensures
            final(self).wf(),
            final(self)@ == old(self)@.remove((path@, model_type)),
    {
        let ghost k = (path@, model_type);
        let ghost old_entries = self.entries@;
        let ghost target = entries_map(old_entries).remove(k);
        match self.find(path, model_type) {
            Some(i) => {
                let _removed = self.entries.remove(i);
                proof {
                    let e = self.entries@;
                    assert(e =~= old_entries.remove(i as int));
                    assert(distinct_keys(e)) by {
                        assert forall|a: int, b: int| 0 <= a < b < e.len() implies entry_key(#[trigger] e[a]) != entry_key(#[trigger] e[b]) by {
                            let oa = if a < i { a } else { a + 1 };
                            let ob = if b < i { b } else { b + 1 };
                            assert(e[a] == old_entries[oa] && e[b] == old_entries[ob]);
                        }
                    }
                    assert forall|kk: (Seq<u8>, ModelType)| #![trigger target.contains_key(kk)] target.contains_key(kk) implies exists|j: int|
                        0 <= j < e.len() && entry_key(#[trigger] e[j]) == kk by {
                        lemma_entries_map(old_entries, kk);
                        let j = choose|j: int| 0 <= j < old_entries.len() && entry_key(#[trigger] old_entries[j]) == kk;
                        assert(j != i);
                        let jj = if j < i { j } else { j - 1 };
                        assert(e[jj] == old_entries[j]);
                        assert(entry_key(e[jj]) == kk);
                    }
                    assert forall|kk: (Seq<u8>, ModelType)| #![trigger target.contains_key(kk)] (exists|j: int|
                        0 <= j < e.len() && entry_key(#[trigger] e[j]) == kk) implies target.contains_key(kk) by {
                        lemma_entries_map(old_entries, kk);
                        let j = choose|j: int| 0 <= j < e.len() && entry_key(#[trigger] e[j]) == kk;
                        let oj = if j < i { j } else { j + 1 };
                        assert(e[j] == old_entries[oj]);
                        if oj < i {
                            assert(entry_key(old_entries[oj]) != entry_key(old_entries[i as int]));
                        } else {
                            assert(entry_key(old_entries[i as int]) != entry_key(old_entries[oj]));
                        }
                        assert(entry_key(old_entries[oj]) == kk);
                    }
                    assert forall|j: int| 0 <= j < e.len() implies target[entry_key(#[trigger] e[j])] == e[j].1 by {
                        let oj = if j < i { j } else { j + 1 };
                        assert(e[j] == old_entries[oj]);
                        assert(oj != i);
                        lemma_entries_map(old_entries, entry_key(e[j]));
                    }
                    lemma_entries_map_ext(e, e, target);
                }
            },
            None => {
                proof {
                    lemma_entries_map(old_entries, k);
                    assert(target =~= entries_map(old_entries));
                }
            },
        }
    }

    /// Drops every cached session.
    pub fn clear(&mut self)
        ensures
            final(self).wf(),
            final(self)@ == Map::<(Seq<u8>, ModelType), S>::empty(),
    {
        self.entries.clear();
    }

    /// The number of cached sessions.
    pub fn len(&self) -> (n: usize)
        requires
            self.wf(),
        ensures
            n == self@.dom().len(),
            self@.dom().finite(),
    {
        proof {
            lemma_entries_map_len(self.entries@);
        }
        self.entries.len()
    }

    /// The number of cached sessions and a rough memory estimate in
    /// megabytes (50 per session).
    pub fn cache_stats(&self) -> (r: (usize, usize))
        requires
            self.wf(),
            self@.dom().len() * 50 <= usize::MAX,
        ensures
            r.0 == self@.dom().len(),
            r.1 == 50 * self@.dom().len(),
    {
        let count = self.len();
        (count, count * 50)
    }
}

/// Sessions are loaded once: after a session is stored under a key, a lookup
/// of that key finds that very session, and every other cached session stays
/// as it was; after a key is unloaded, nothing is cached under it and every
/// other session stays.
pub proof fn lemma_cache_read_after_write<S>(
    before: SessionCache<S>,
    stored: SessionCache<S>,
    unloaded: SessionCache<S>,
    key: (Seq<u8>, ModelType),
    session: S,
    other: (Seq<u8>, ModelType),
)
    requires
        stored@ == before@.insert(key, session),
        unloaded@ == before@.remove(key),
        other != key,
    ensures
        stored@.contains_key(key),
        stored@[key] == session,
        stored@.contains_key(other) == before@.contains_key(other),
        before@.contains_key(other) ==> stored@[other] == before@[other],
        !unloaded@.contains_key(key),
        unloaded@.contains_key(other) == before@.contains_key(other),
        before@.contains_key(other) ==> unloaded@[other] == before@[other],
{
}

} // verus!
