//! Run-time assembly of fused kernels, and the cache of what was compiled.
//!
//! A fused kernel applies a filter while it loads and sums in the same
//! pass, so that no intermediate buffer is written. Its source is a
//! template with the operator and the threshold filled in; the compiled
//! form is cached under a key made of the same two.

use vstd::prelude::*;
use vstd::string::*;
use crate::text::{decimal_int, spec_decimal_int};

verus! {

/// The template of the fused kernel, up to the first mention of the
/// predicate.
pub const FUSED_HEAD: &'static str =
    r"
@group(0) @binding(0) var<storage, read> input: array<i32>;
@group(0) @binding(1) var<storage, read_write> output: array<atomic<i32>>;

var<workgroup> shared_data: array<i32, 256>;

@compute @workgroup_size(256)
fn fused_filter_sum(@builtin(global_invocation_id) global_id: vec3<u32>,
                    @builtin(local_invocation_id) local_id: vec3<u32>) {
    let tid = local_id.x;
    let gid = global_id.x;
    let input_size = arrayLength(&input);

    // Fused filter + load: Apply filter predicate during load
    // Eliminates intermediate buffer write (Muda elimination)
    var value: i32 = 0;
    if (gid < input_size) {
        let data = input[gid];
        // Filter: WHERE value ";

/// The template between the two mentions of the predicate.
pub const FUSED_MID: &'static str = r"
        if (data ";

/// The template after the predicate.
pub const FUSED_TAIL: &'static str =
    r") {
            value = data;
        }
    }
    shared_data[tid] = value;
    workgroupBarrier();

    // Parallel reduction (same as unfused SUM kernel)
    var stride = 128u;
    while (stride > 0u) {
        if (tid < stride && gid + stride < input_size) {
            shared_data[tid] += shared_data[tid + stride];
        }
        workgroupBarrier();
        stride = stride / 2u;
    }

    // Write result
    if (tid == 0u) {
        atomicAdd(&output[0], shared_data[0]);
    }
}
";

/// The operator of the shader language for the name of a comparison; an
/// unknown name stands for greater-than.
pub open spec fn spec_shader_op(name: Seq<char>) -> Seq<char> {
    if name == "lt"@ {
        "<"@
    } else if name == "eq"@ {
        "=="@
    } else if name == "gte"@ {
        ">="@
    } else if name == "lte"@ {
        "<="@
    } else if name == "ne"@ {
        "!="@
    } else {
        ">"@
    }
}

/// The predicate `op threshold` as the shader writes it.
pub open spec fn spec_predicate(name: Seq<char>, threshold: int) -> Seq<char> {
    spec_shader_op(name) + " "@ + spec_decimal_int(threshold)
}

/// The source of the fused kernel for a comparison and a threshold.
pub open spec fn spec_fused_source(name: Seq<char>, threshold: int) -> Seq<char> {
    FUSED_HEAD@ + spec_predicate(name, threshold) + FUSED_MID@ + spec_predicate(name, threshold)
        + FUSED_TAIL@
}

/// The key under which the fused kernel for a comparison and a threshold is
/// cached.
pub open spec fn spec_cache_key(name: Seq<char>, threshold: int) -> Seq<char> {
    "filter_"@ + name + "_"@ + spec_decimal_int(threshold) + "_sum"@
}

/// The position of a key among the keys, if it is one of them.
pub open spec fn spec_find(keys: Seq<Seq<char>>, key: Seq<char>) -> Option<int>
    decreases keys.len(),
{
    if keys.len() == 0 {
        None
    } else if keys.last() == key {
        Some(keys.len() - 1)
    } else {
        spec_find(keys.drop_last(), key)
    }
}

/// Where a key is found, it stands; where it is not found, it stands
/// nowhere.
pub proof fn lemma_find(keys: Seq<Seq<char>>, key: Seq<char>)
    ensures
        match spec_find(keys, key) {
            Some(p) => 0 <= p < keys.len() && keys[p] == key,
            None => forall|i: int| 0 <= i < keys.len() ==> #[trigger] keys[i] != key,
        },
    decreases keys.len(),
{
    if keys.len() > 0 && keys.last() != key {
        lemma_find(keys.drop_last(), key);
        assert forall|i: int| 0 <= i < keys.len() && spec_find(keys, key) is None implies #[trigger] keys[i]
            != key by {
            if i < keys.len() - 1 {
                assert(keys.drop_last()[i] == keys[i]);
            }
        }
    }
}

/// No key stands twice.
pub open spec fn spec_distinct(keys: Seq<Seq<char>>) -> bool {
    forall|i: int, j: int| 0 <= i < j < keys.len() ==> #[trigger] keys[i] != #[trigger] keys[j]
}

/// Among distinct keys, a key is found where it stands.
pub proof fn lemma_find_at(keys: Seq<Seq<char>>, p: int)
    requires
        spec_distinct(keys),
        0 <= p < keys.len(),
    ensures
        spec_find(keys, keys[p]) == Some(p),
    decreases keys.len(),
{
    if keys.last() != keys[p] {
        assert(p < keys.len() - 1);
        let front = keys.drop_last();
        assert(front[p] == keys[p]);
        assert forall|i: int, j: int| 0 <= i < j < front.len() implies #[trigger] front[i]
            != #[trigger] front[j] by {
            assert(front[i] == keys[i] && front[j] == keys[j]);
        }
        lemma_find_at(front, p);
    } else {
        if p != keys.len() - 1 {
            assert(keys[p] != keys[keys.len() - 1]);
        }
    }
}

/// What a look-up in the cache returns.
#[derive(Debug, Clone, Copy, PartialEq, Eq, Structural)]
pub struct CacheEntry {
    /// The handle of the shader: the same for the same key, always.
    pub handle: usize,
    /// Whether the look-up put the shader into the cache; then the caller
    /// compiles the source and keeps the module under the handle.
    pub fresh: bool,
}

/// The look-up of a key in a cache of the given keys: the entry and the
/// keys afterwards. A key that is there keeps its handle; a new key gets
/// the next handle.
pub open spec fn spec_get_or_insert(keys: Seq<Seq<char>>, key: Seq<char>) -> (
    CacheEntry,
    Seq<Seq<char>>,
) {
    match spec_find(keys, key) {
        Some(p) => (CacheEntry { handle: p as usize, fresh: false }, keys),
        None => (CacheEntry { handle: keys.len() as usize, fresh: true }, keys.push(key)),
    }
}

/// Shader-cache determinism: a second look-up of a key returns the handle
/// of the first, finds the shader there, and leaves the cache as it is,
/// whatever was looked up in between.
pub proof fn lemma_cache_deterministic(
    keys: Seq<Seq<char>>,
    key: Seq<char>,
    between: Seq<Seq<char>>,
)
    requires
        spec_distinct(keys),
        keys.len() + between.len() < usize::MAX,
    ensures
        ({
            let first = spec_get_or_insert(keys, key);
            let later = spec_look_up_all(first.1, between);
            let second = spec_get_or_insert(later, key);
            &&& second.0.handle == first.0.handle
            &&& !second.0.fresh
            &&& second.1 == later
        }),
    decreases between.len(),
{
    let first = spec_get_or_insert(keys, key);
    lemma_find(keys, key);
    lemma_get_or_insert_keeps(keys, key);
    let h = first.0.handle as int;
    assert(first.1[h] == key);
    lemma_look_up_all_keeps(first.1, between, h);
    let later = spec_look_up_all(first.1, between);
    lemma_find_at(later, h);
}

/// The keys after each of `lookups` was looked up, in order.
pub open spec fn spec_look_up_all(keys: Seq<Seq<char>>, lookups: Seq<Seq<char>>) -> Seq<Seq<char>>
    decreases lookups.len(),
{
    if lookups.len() == 0 {
        keys
    } else {
        spec_get_or_insert(spec_look_up_all(keys, lookups.drop_last()), lookups.last()).1
    }
}

/// A look-up keeps the keys distinct and keeps every key where it stands.
pub proof fn lemma_get_or_insert_keeps(keys: Seq<Seq<char>>, key: Seq<char>)
    requires
        spec_distinct(keys),
    ensures
        spec_distinct(spec_get_or_insert(keys, key).1),
        spec_get_or_insert(keys, key).1.len() >= keys.len(),
        forall|i: int| 0 <= i < keys.len() ==> spec_get_or_insert(keys, key).1[i] == #[trigger] keys[i],
{
    lemma_find(keys, key);
}

/// Look-ups keep the keys distinct and keep every key where it stands.
pub proof fn lemma_look_up_all_keeps(keys: Seq<Seq<char>>, lookups: Seq<Seq<char>>, p: int)
    requires
        spec_distinct(keys),
        0 <= p < keys.len(),
    ensures
        spec_distinct(spec_look_up_all(keys, lookups)),
        p < spec_look_up_all(keys, lookups).len(),
        spec_look_up_all(keys, lookups)[p] == keys[p],
    decreases lookups.len(),
{
    if lookups.len() > 0 {
        lemma_look_up_all_keeps(keys, lookups.drop_last(), p);
        lemma_get_or_insert_keeps(spec_look_up_all(keys, lookups.drop_last()), lookups.last());
    }
}

/// `Vec::capacity`: the number of elements that the vector has room for.
/// Nothing is claimed of it: it is what the allocator gave.
#[verifier::external_body]
fn room_of(v: &Vec<String>) -> usize {
    v.capacity()
}

/// The cache of compiled shaders. It maps the key of a shader to a handle
/// and keeps the source; the compiled modules live with the caller, under
/// the same handles.
#[derive(Debug)]
pub struct ShaderCache {
    keys: Vec<String>,
    sources: Vec<String>,
}

impl ShaderCache {
    /// The keys of the cache, in the order of their handles.
    pub closed spec fn spec_keys(&self) -> Seq<Seq<char>> {
        crate::text::spec_texts(self.keys@)
    }

    /// The sources of the cache, in the order of their handles.
    pub closed spec fn spec_sources(&self) -> Seq<Seq<char>> {
        crate::text::spec_texts(self.sources@)
    }

    /// There is one source per key, and no key stands twice.
    pub closed spec fn wf(&self) -> bool {
        &&& self.keys@.len() == self.sources@.len()
        &&& spec_distinct(self.spec_keys())
    }

    /// A well-formed cache holds no key twice, so that what is said of
    /// distinct keys holds of its keys.
    pub proof fn lemma_keys_distinct(&self)
        requires
            self.wf(),
        ensures
            spec_distinct(self.spec_keys()),
    {
    }

    /// An empty cache.
    pub fn new() -> (c: ShaderCache)
        ensures
            c.wf(),
            c.spec_keys().len() == 0,
    {
        ShaderCache { keys: Vec::new(), sources: Vec::new() }
    }

    /// Looks up a key. If the cache has it, returns its handle. If not,
    /// puts the key and the source into the cache under the next handle and
    /// says so.
    pub fn get_or_insert(&mut self, key: &str, source: &str) -> (r: CacheEntry)
        requires
            old(self).wf(),
        ensures
            final(self).wf(),
            (r, final(self).spec_keys()) == spec_get_or_insert(old(self).spec_keys(), key@),
            r.handle < final(self).spec_keys().len(),
            r.fresh ==> final(self).spec_sources() == old(self).spec_sources().push(source@),
            !r.fresh ==> final(self).spec_sources() == old(self).spec_sources(),
    {
        let wanted = String::from_str(key);
        let n = self.keys.len();
        let ghost keys = self.spec_keys();
        let mut i: usize = n;
        assert(keys.subrange(0, n as int) =~= keys);
        while i > 0
            invariant
                n == self.keys@.len(),
                keys == self.spec_keys(),
                self.wf(),
                *self == *old(self),
                wanted@ == key@,
                i <= n,
                spec_find(keys, key@) == spec_find(keys.subrange(0, i as int), key@),
            decreases i,
        {
            proof {
                let upto = keys.subrange(0, i as int);
                assert(upto.last() == self.keys@[i - 1]@);
                assert(upto.drop_last() =~= keys.subrange(0, i - 1));
            }
            if self.keys[i - 1] == wanted {
                return CacheEntry { handle: i - 1, fresh: false };
            }
            i -= 1;
        }
        assert(keys.subrange(0, 0) =~= Seq::<Seq<char>>::empty());
        proof {
            lemma_find(keys, key@);
        }
        self.keys.push(wanted);
        self.sources.push(String::from_str(source));
        proof {
            assert(self.spec_keys() =~= keys.push(key@));
            assert(self.spec_sources() =~= old(self).spec_sources().push(source@));
        }
        CacheEntry { handle: n, fresh: true }
    }

    /// The source of the shader with the given handle.
    pub fn source(&self, handle: usize) -> (s: &String)
        requires
            self.wf(),
            handle < self.spec_keys().len(),
        ensures
            s@ == self.spec_sources()[handle as int],
    {
        &self.sources[handle]
    }

    /// The number of shaders in the cache, and the number it has room for.
    pub fn stats(&self) -> (r: (usize, usize))
        ensures
            r.0 == self.spec_keys().len(),
    {
        (self.keys.len(), room_of(&self.keys))
    }
}

impl Default for ShaderCache {
    fn default() -> (c: ShaderCache)
        ensures
            c.wf(),
            c.spec_keys().len() == 0,
    {
        ShaderCache::new()
    }
}

/// The operator of the shader language for the name of a comparison.
pub fn shader_op(name: &str) -> (op: &'static str)
    ensures
        op@ == spec_shader_op(name@),
{
    let name = String::from_str(name);
    if name == String::from_str("lt") {
        "<"
    } else if name == String::from_str("eq") {
        "=="
    } else if name == String::from_str("gte") {
        ">="
    } else if name == String::from_str("lte") {
        "<="
    } else if name == String::from_str("ne") {
        "!="
    } else {
        ">"
    }
}

/// The compiler of fused kernels.
#[derive(Debug)]
pub struct JitCompiler {
    cache: ShaderCache,
}

impl JitCompiler {
    /// The keys of the cache, in the order of their handles.
    pub closed spec fn spec_keys(&self) -> Seq<Seq<char>> {
        self.cache.spec_keys()
    }

    /// The sources of the cache, in the order of their handles.
    pub closed spec fn spec_sources(&self) -> Seq<Seq<char>> {
        self.cache.spec_sources()
    }

    /// The cache is well formed.
    pub closed spec fn wf(&self) -> bool {
        self.cache.wf()
    }

    /// A well-formed compiler holds no key twice, so that what is said of
    /// distinct keys holds of its keys.
    pub proof fn lemma_keys_distinct(&self)
        requires
            self.wf(),
        ensures
            spec_distinct(self.spec_keys()),
    {
        self.cache.lemma_keys_distinct();
    }

    /// A compiler with an empty cache.
    pub fn new() -> (c: JitCompiler)
        ensures
            c.wf(),
            c.spec_keys().len() == 0,
    {
        JitCompiler { cache: ShaderCache::new() }
    }

    /// The source of the kernel that sums the values `v` with
    /// `v op threshold`.
    pub fn generate_fused_filter_sum(&self, filter_threshold: i32, filter_op: &str) -> (s: String)
        ensures
            s@ == spec_fused_source(filter_op@, filter_threshold as int),
    {
        let op = shader_op(filter_op);
        let number = decimal_int(filter_threshold as i128);
        let mut s = String::from_str(FUSED_HEAD);
        s.append(op);
        s.append(" ");
        s.append(number.as_str());
        s.append(FUSED_MID);
        s.append(op);
        s.append(" ");
        s.append(number.as_str());
        s.append(FUSED_TAIL);
        assert(s@ =~= spec_fused_source(filter_op@, filter_threshold as int));
        s
    }

    /// The key under which the kernel for a comparison and a threshold is
    /// cached.
    pub fn cache_key(filter_threshold: i32, filter_op: &str) -> (s: String)
        ensures
            s@ == spec_cache_key(filter_op@, filter_threshold as int),
    {
        let mut s = String::from_str("filter_");
        s.append(filter_op);
        s.append("_");
        s.append(decimal_int(filter_threshold as i128).as_str());
        s.append("_sum");
        assert(s@ =~= spec_cache_key(filter_op@, filter_threshold as int));
        s
    }

    /// Looks up the kernel for a comparison and a threshold, and puts its
    /// source into the cache if it is not there.
    pub fn compile_fused_filter_sum(&mut self, filter_threshold: i32, filter_op: &str) -> (r:
        CacheEntry)
        requires
            old(self).wf(),
        ensures
            final(self).wf(),
            (r, final(self).spec_keys()) == spec_get_or_insert(
                old(self).spec_keys(),
                spec_cache_key(filter_op@, filter_threshold as int),
            ),
            r.handle < final(self).spec_keys().len(),
            r.fresh ==> final(self).spec_sources() == old(self).spec_sources().push(
                spec_fused_source(filter_op@, filter_threshold as int),
            ),
            !r.fresh ==> final(self).spec_sources() == old(self).spec_sources(),
    {
        let key = Self::cache_key(filter_threshold, filter_op);
        let source = self.generate_fused_filter_sum(filter_threshold, filter_op);
        self.cache.get_or_insert(key.as_str(), source.as_str())
    }

    /// The source of the shader with the given handle.
    pub fn source(&self, handle: usize) -> (s: &String)
        requires
            self.wf(),
            handle < self.spec_keys().len(),
        ensures
            s@ == self.spec_sources()[handle as int],
    {
        self.cache.source(handle)
    }

    /// The number of shaders in the cache, and the number it has room for.
    pub fn cache_stats(&self) -> (r: (usize, usize))
        ensures
            r.0 == self.spec_keys().len(),
    {
        self.cache.stats()
    }
}

impl Default for JitCompiler {
    fn default() -> (c: JitCompiler)
        ensures
            c.wf(),
            c.spec_keys().len() == 0,
    {
        JitCompiler::new()
    }
}

} // verus!
