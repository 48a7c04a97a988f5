//! Decisions of the remote cache service: grouping blobs into batches that
//! fit a request, the batch size a server allows, whether a server's
//! capabilities support caching, and which output streams to fetch.

use vstd::prelude::*;
use crate::text::str_eq;

verus! {

/// A group of items to send in one request, or to stream on its own.
pub struct Partition<T> {
    pub items: Vec<T>,
    pub size: usize,
    pub stream: bool,
}

pub struct PartitionView<T> {
    pub items: Seq<T>,
    pub size: int,
    pub stream: bool,
}

pub open spec fn partition_view<T>(p: Partition<T>) -> PartitionView<T> {
    PartitionView { items: p.items@, size: p.size as int, stream: p.stream }
}

pub open spec fn partitions_view<T>(g: Seq<Partition<T>>) -> Seq<PartitionView<T>> {
    g.map_values(|p: Partition<T>| partition_view(p))
}

/// A group can take an item of size `s`: it is not streamed and stays
/// within `max`.
pub open spec fn fits<T>(p: PartitionView<T>, s: int, max: int) -> bool {
    !p.stream && p.size + s <= max
}

/// The index of the first group that can take the item, or the number of
/// groups when none can.
pub open spec fn first_fit<T>(g: Seq<PartitionView<T>>, s: int, max: int) -> int
    decreases g.len(),
{
    if g.len() == 0 {
        0
    } else if fits(g[0], s, max) {
        0
    } else {
        1 + first_fit(g.drop_first(), s, max)
    }
}

proof fn lemma_first_fit<T>(g: Seq<PartitionView<T>>, s: int, max: int, i: int)
    requires
        0 <= i <= g.len(),
        forall|k: int| 0 <= k < i ==> !#[trigger] fits(g[k], s, max),
        i < g.len() ==> fits(g[i], s, max),
    ensures
        first_fit(g, s, max) == i,
    decreases i,
{
    if i > 0 {
        assert(!fits(g[0], s, max));
        assert forall|k: int| 0 <= k < i - 1 implies !#[trigger] fits(g.drop_first()[k], s, max) by {
            assert(g.drop_first()[k] == g[k + 1]);
        }
        lemma_first_fit(g.drop_first(), s, max, i - 1);
    }
}

/// Placing one item of size `s`: an item of at least `max` is streamed in
/// a group of its own; otherwise it joins the first group it fits in, or
/// starts a new group.
pub open spec fn place<T>(g: Seq<PartitionView<T>>, item: T, s: int, max: int) -> Seq<PartitionView<T>> {
    if s >= max {
        g.push(PartitionView { items: seq![item], size: s, stream: true })
    } else {
        let i = first_fit(g, s, max);
        if i < g.len() {
            g.update(i, PartitionView { items: g[i].items.push(item), size: g[i].size + s, stream: false })
        } else {
            g.push(PartitionView { items: seq![item], size: s, stream: false })
        }
    }
}

/// The groups after placing the first `n` items that are kept.
pub open spec fn spec_partition<T>(items: Seq<T>, sizes: Seq<usize>, keep: Seq<bool>, max: int, n: nat) -> Seq<PartitionView<T>>
    decreases n,
{
    if n == 0 {
        Seq::empty()
    } else {
        let g = spec_partition(items, sizes, keep, max, (n - 1) as nat);
        if keep[n - 1] {
            place(g, items[n - 1], sizes[n - 1] as int, max)
        } else {
            g
        }
    }
}

/// Every group that is not streamed stays within `max`.
pub open spec fn groups_within<T>(g: Seq<PartitionView<T>>, max: int) -> bool {
    forall|k: int| 0 <= k < g.len() ==> (#[trigger] g[k]).stream || g[k].size <= max
}

/// Splits the kept items (`keep[i]`, of size `sizes[i]`) into groups whose
/// total size stays within `max_size`; an item of `max_size` or more is
/// streamed alone. Group `i` of the result is the one keyed `i`.
pub fn partition_into_groups<T>(items: Vec<T>, sizes: &Vec<usize>, keep: &Vec<bool>, max_size: usize) -> (r: Vec<Partition<T>>)
    requires
        sizes.len() == items.len(),
        keep.len() == items.len(),
    ensures
        partitions_view(r@) == spec_partition(items@, sizes@, keep@, max_size as int, items@.len()),
        groups_within(partitions_view(r@), max_size as int),
{
    let ghost all = items@;
    let n = items.len();
    let mut rest = items;
    let mut groups: Vec<Partition<T>> = Vec::new();
    let mut i: usize = 0;
    assert(partitions_view(groups@) =~= Seq::<PartitionView<T>>::empty());
    while i < n
        invariant
            n == all.len() == sizes.len() == keep.len(),
            i <= n,
            rest@ == all.skip(i as int),
            partitions_view(groups@) == spec_partition(all, sizes@, keep@, max_size as int, i as nat),
            groups_within(partitions_view(groups@), max_size as int),
        decreases n - i,
    {
        let item = rest.remove(0);
        assert(item == all[i as int]);
        assert(rest@ =~= all.skip(i + 1));
        if keep[i] {
            let item_size = sizes[i];
            let ghost g = partitions_view(groups@);
            if item_size >= max_size {
                let mut items_one: Vec<T> = Vec::new();
                items_one.push(item);
                groups.push(Partition { items: items_one, size: item_size, stream: true });
                assert(partitions_view(groups@) =~= place(g, all[i as int], item_size as int, max_size as int));
            } else {
                let mut j: usize = 0;
                while j < groups.len() && (groups[j].stream || groups[j].size > max_size - item_size)
                    invariant
                        j <= groups.len(),
                        g == partitions_view(groups@),
                        item_size < max_size,
                        forall|k: int| 0 <= k < j ==> !#[trigger] fits(g[k], item_size as int, max_size as int),
                    decreases groups.len() - j,
                {
                    assert(!fits(g[j as int], item_size as int, max_size as int));
                    j = j + 1;
                }
                proof {
                    lemma_first_fit(g, item_size as int, max_size as int, j as int);
                }
                if j < groups.len() {
                    let mut slot = Partition { items: Vec::new(), size: 0, stream: false };
                    groups.set_and_swap(j, &mut slot);
                    assert(partition_view(slot) == g[j as int]);
                    slot.items.push(item);
                    slot.size = slot.size + item_size;
                    slot.stream = false;
                    groups.set(j, slot);
                    assert(partitions_view(groups@) =~= place(g, all[i as int], item_size as int, max_size as int));
                } else {
                    let mut items_one: Vec<T> = Vec::new();
                    items_one.push(item);
                    groups.push(Partition { items: items_one, size: item_size, stream: false });
                    assert(partitions_view(groups@) =~= place(g, all[i as int], item_size as int, max_size as int));
                }
            }
        }
        i = i + 1;
    }
    groups
}

/// The batch size a server allows when it names none (4 MiB).
pub open spec fn default_batch_size() -> int {
    4194304
}

/// The usable batch size: the server's limit (or the default when it gives
/// none or 0) less 25 KiB for the rest of the request.
pub open spec fn spec_max_batch_size(limit: Option<i64>) -> int {
    let max = match limit {
        Some(m) => if m == 0 {
            default_batch_size()
        } else {
            m as int
        },
        None => default_batch_size(),
    };
    max - 1024 * 25
}

/// The digest functions of the remote execution API: SHA-256.
pub open spec fn sha256_digest_function() -> i32 {
    1
}

/// Compression of blobs sent to the remote cache.
#[derive(Clone, Copy, Debug, PartialEq, Eq, Structural)]
pub enum RemoteCompression {
    Uncompressed,
    Zstd,
}

/// The compressor value of the remote execution API for a compression.
pub open spec fn spec_compressor(c: RemoteCompression) -> i32 {
    match c {
        RemoteCompression::Uncompressed => 0,
        RemoteCompression::Zstd => 1,
    }
}

pub fn get_compressor(c: RemoteCompression) -> (r: i32)
    ensures
        r == spec_compressor(c),
{
    match c {
        RemoteCompression::Uncompressed => 0,
        RemoteCompression::Zstd => 1,
    }
}

/// What a cache server supports.
#[derive(Clone, Debug, PartialEq, Eq)]
pub struct CacheCapabilities {
    pub digest_functions: Vec<i32>,
    pub supported_compressors: Vec<i32>,
    pub supported_batch_update_compressors: Vec<i32>,
    /// Whether action results may be written, when the server says.
    pub action_cache_update_enabled: Option<bool>,
    pub max_batch_total_size_bytes: i64,
}

/// The capabilities a server reports.
#[derive(Clone, Debug, PartialEq, Eq)]
pub struct ServerCapabilities {
    pub cache_capabilities: Option<CacheCapabilities>,
}

/// The usable size of a batch request for a server.
pub fn get_max_batch_size(caps: &ServerCapabilities) -> (r: i64)
    requires
        caps.cache_capabilities matches Some(c) ==> c.max_batch_total_size_bytes >= i64::MIN + 1024 * 25,
    ensures
        r == spec_max_batch_size(
            match caps.cache_capabilities {
                Some(c) => Some(c.max_batch_total_size_bytes),
                None => None,
            },
        ),
{
    let max: i64 = match &caps.cache_capabilities {
        Some(cap) => if cap.max_batch_total_size_bytes == 0 {
            4194304
        } else {
            cap.max_batch_total_size_bytes
        },
        None => 4194304,
    };
    max - 1024 * 25
}

/// Whether caching stays enabled with a server: it must report cache
/// capabilities with SHA-256 digests, support the configured compression
/// for reads and for batch writes, and not refuse action cache updates.
pub open spec fn spec_cache_supported(enabled: bool, caps: Option<CacheCapabilities>, compression: RemoteCompression) -> bool {
    enabled && match caps {
        None => false,
        Some(c) => {
            &&& c.digest_functions@.contains(sha256_digest_function())
            &&& (compression == RemoteCompression::Uncompressed || c.supported_compressors@.contains(spec_compressor(compression)))
            &&& (compression == RemoteCompression::Uncompressed || c.supported_batch_update_compressors@.contains(spec_compressor(compression)))
            &&& !(c.action_cache_update_enabled == Some(false))
        },
    }
}

fn contains_i32(v: &Vec<i32>, x: i32) -> (r: bool)
    ensures
        r == v@.contains(x),
{
    let mut i: usize = 0;
    while i < v.len()
        invariant
            i <= v.len(),
            forall|k: int| 0 <= k < i ==> v@[k] != x,
        decreases v.len() - i,
    {
        if v[i] == x {
            assert(v@[i as int] == x);
            return true;
        }
        i = i + 1;
    }
    false
}

/// Decides whether caching stays enabled after loading a server's
/// capabilities.
pub fn validate_capabilities(cache_enabled: bool, caps: &ServerCapabilities, compression: RemoteCompression) -> (r: bool)
    ensures
        r == spec_cache_supported(cache_enabled, caps.cache_capabilities, compression),
{
    let mut enabled = cache_enabled;
    if !enabled {
        return false;
    }
    match &caps.cache_capabilities {
        Some(cap) => {
            if !contains_i32(&cap.digest_functions, 1) {
                enabled = false;
            }
            let compressor = get_compressor(compression);
            if compression != RemoteCompression::Uncompressed && !contains_i32(&cap.supported_compressors, compressor) {
                enabled = false;
            }
            if compression != RemoteCompression::Uncompressed && !contains_i32(&cap.supported_batch_update_compressors, compressor) {
                enabled = false;
            }
            if let Some(update_enabled) = cap.action_cache_update_enabled {
                if !update_enabled {
                    enabled = false;
                }
            }
        },
        None => {
            enabled = false;
        },
    }
    enabled
}

/// A content digest: a hash and the size of the content.
#[derive(Clone, Debug, PartialEq, Eq)]
pub struct Digest {
    pub hash: String,
    pub size_bytes: i64,
}

pub open spec fn digest_view(d: Digest) -> (Seq<char>, i64) {
    (d.hash@, d.size_bytes)
}

/// The output streams of a cached action whose contents must be fetched:
/// those with a non-empty digest whose raw bytes were not inlined, stderr
/// first.
pub open spec fn spec_stdio_digests(stderr: Option<Digest>, stderr_empty: bool, stdout: Option<Digest>, stdout_empty: bool) -> Seq<(Seq<char>, i64)> {
    let a = match stderr {
        Some(d) => if stderr_empty && d.size_bytes > 0 {
            seq![digest_view(d)]
        } else {
            Seq::empty()
        },
        None => Seq::empty(),
    };
    let b = match stdout {
        Some(d) => if stdout_empty && d.size_bytes > 0 {
            seq![digest_view(d)]
        } else {
            Seq::empty()
        },
        None => Seq::empty(),
    };
    a + b
}

/// Lists the output stream digests to fetch for a cached action.
pub fn stdio_digests_to_fetch(stderr_digest: &Option<Digest>, stderr_raw: &Vec<u8>, stdout_digest: &Option<Digest>, stdout_raw: &Vec<u8>) -> (r: Vec<Digest>)
    ensures
        r@.map_values(|d: Digest| digest_view(d)) == spec_stdio_digests(*stderr_digest, stderr_raw@.len() == 0, *stdout_digest, stdout_raw@.len() == 0),
{
    let mut r: Vec<Digest> = Vec::new();
    if let Some(d) = stderr_digest {
        if stderr_raw.len() == 0 && d.size_bytes > 0 {
            r.push(Digest { hash: d.hash.clone(), size_bytes: d.size_bytes });
        }
    }
    let ghost a = r@.map_values(|d: Digest| digest_view(d));
    if let Some(d) = stdout_digest {
        if stdout_raw.len() == 0 && d.size_bytes > 0 {
            r.push(Digest { hash: d.hash.clone(), size_bytes: d.size_bytes });
        }
    }
    assert(r@.map_values(|d: Digest| digest_view(d)) =~= spec_stdio_digests(
        *stderr_digest,
        stderr_raw@.len() == 0,
        *stdout_digest,
        stdout_raw@.len() == 0,
    ));
    r
}

/// Whether two digests are the same.
pub fn digest_eq(a: &Digest, b: &Digest) -> (r: bool)
    ensures
        r == (digest_view(*a) == digest_view(*b)),
{
    a.size_bytes == b.size_bytes && str_eq(a.hash.as_str(), b.hash.as_str())
}

} // verus!

verus! {

/// Connecting is skipped in CI when the service is on the local host.
pub fn connect_allowed(in_ci: bool, is_localhost: bool) -> (r: bool)
    ensures
        r == !(in_ci && is_localhost),
{
    !(in_ci && is_localhost)
}

/// The action is uploaded when the service reports its digest missing.
pub fn save_action_needed(missing: &Vec<Digest>, digest: &Digest) -> (r: bool)
    ensures
        r == exists|i: int| 0 <= i < missing@.len() && digest_view(#[trigger] missing@[i]) == digest_view(*digest),
{
    let mut i: usize = 0;
    while i < missing.len()
        invariant
            i <= missing.len(),
            forall|k: int| 0 <= k < i ==> digest_view(#[trigger] missing@[k]) != digest_view(*digest),
        decreases missing.len() - i,
    {
        if digest_eq(&missing[i], digest) {
            return true;
        }
        i = i + 1;
    }
    false
}

/// Whether uploading a result's blobs succeeded: all were in the store
/// already; or some were missing, there were groups to upload, and every
/// group's upload passed.
pub fn upload_succeeded(missing_count: usize, group_results: &Vec<bool>) -> (r: bool)
    ensures
        r == (missing_count == 0 || (group_results.len() > 0 && forall|i: int|
            0 <= i < group_results.len() ==> group_results[i])),
{
    if missing_count == 0 {
        return true;
    }
    if group_results.len() == 0 {
        return false;
    }
    let mut i: usize = 0;
    while i < group_results.len()
        invariant
            i <= group_results.len(),
            missing_count != 0,
            group_results.len() > 0,
            forall|k: int| 0 <= k < i ==> group_results[k],
        decreases group_results.len() - i,
    {
        if !group_results[i] {
            return false;
        }
        i = i + 1;
    }
    true
}

/// The action result is saved when it has no blobs, or when all its blobs
/// were uploaded.
pub fn should_update_action_result(has_blobs: bool, upload_ok: bool) -> (r: bool)
    ensures
        r == (!has_blobs || upload_ok),
{
    !has_blobs || upload_ok
}

/// The raw bytes of the output streams from fetched blobs: a blob goes to
/// stderr when it has stderr's digest, else to stdout when it has
/// stdout's; a later blob replaces an earlier one.
pub open spec fn spec_assign_stdio(
    stderr: Option<Digest>,
    stdout: Option<Digest>,
    blobs: Seq<(Digest, Seq<u8>)>,
    n: nat,
) -> (Option<Seq<u8>>, Option<Seq<u8>>)
    decreases n,
{
    if n == 0 {
        (None, None)
    } else {
        let acc = spec_assign_stdio(stderr, stdout, blobs, (n - 1) as nat);
        let b = blobs[n - 1];
        if stderr is Some && digest_view(stderr.unwrap()) == digest_view(b.0) {
            (Some(b.1), acc.1)
        } else if stdout is Some && digest_view(stdout.unwrap()) == digest_view(b.0) {
            (acc.0, Some(b.1))
        } else {
            acc
        }
    }
}

/// Sorts fetched blobs into the output streams.
pub fn assign_stdio(stderr: &Option<Digest>, stdout: &Option<Digest>, blobs: Vec<(Digest, Vec<u8>)>) -> (r: (
    Option<Vec<u8>>,
    Option<Vec<u8>>,
))
    ensures
        (r.0.deep_view(), r.1.deep_view()) == spec_assign_stdio(
            *stderr,
            *stdout,
            blobs@.map_values(|b: (Digest, Vec<u8>)| (b.0, b.1@)),
            blobs@.len(),
        ),
{
    let ghost bv = blobs@.map_values(|b: (Digest, Vec<u8>)| (b.0, b.1@));
    let mut err: Option<Vec<u8>> = None;
    let mut out: Option<Vec<u8>> = None;
    let mut rest = blobs;
    let ghost mut taken: int = 0;
    let ghost orig = rest@;
    while rest.len() > 0
        invariant
            0 <= taken <= orig.len(),
            rest@ =~= orig.skip(taken),
            bv == orig.map_values(|b: (Digest, Vec<u8>)| (b.0, b.1@)),
            (err.deep_view(), out.deep_view()) == spec_assign_stdio(*stderr, *stdout, bv, taken as nat),
        decreases rest.len(),
    {
        assert(rest@.len() == orig.len() - taken);
        let ghost rs = rest@;
        let (d, bytes) = rest.remove(0);
        assert(rest@ =~= rs.remove(0));
        assert(bv[taken] == (d, bytes@));
        let to_err = match stderr {
            Some(e) => digest_eq(e, &d),
            None => false,
        };
        if to_err {
            err = Some(bytes);
        } else {
            let to_out = match stdout {
                Some(o) => digest_eq(o, &d),
                None => false,
            };
            if to_out {
                out = Some(bytes);
            }
        }
        proof {
            taken = taken + 1;
        }
        assert(rest@ =~= orig.skip(taken));
    }
    (err, out)
}

} // verus!

verus! {

/// How many items the groups hold together.
pub open spec fn total_items<T>(g: Seq<PartitionView<T>>) -> nat
    decreases g.len(),
{
    if g.len() == 0 {
        0
    } else {
        total_items(g.drop_last()) + g.last().items.len()
    }
}

/// How many of the first `n` items are kept.
pub open spec fn kept_count(keep: Seq<bool>, n: nat) -> nat
    decreases n,
{
    if n == 0 {
        0
    } else {
        kept_count(keep, (n - 1) as nat) + if keep[n - 1] {
            1nat
        } else {
            0nat
        }
    }
}

/// Every group holds an item, and a streamed group exactly one.
pub open spec fn groups_well_formed<T>(g: Seq<PartitionView<T>>) -> bool {
    forall|k: int| 0 <= k < g.len() ==> (#[trigger] g[k]).items.len() >= 1 && (g[k].stream ==> g[k].items.len() == 1)
}

proof fn lemma_total_push<T>(g: Seq<PartitionView<T>>, p: PartitionView<T>)
    ensures
        total_items(g.push(p)) == total_items(g) + p.items.len(),
{
    assert(g.push(p).drop_last() =~= g);
}

proof fn lemma_total_update<T>(g: Seq<PartitionView<T>>, i: int, p: PartitionView<T>)
    requires
        0 <= i < g.len(),
    ensures
        total_items(g.update(i, p)) == total_items(g) - g[i].items.len() + p.items.len(),
    decreases g.len(),
{
    if i == g.len() - 1 {
        assert(g.update(i, p).drop_last() =~= g.drop_last());
    } else {
        lemma_total_update(g.drop_last(), i, p);
        assert(g.update(i, p).drop_last() =~= g.drop_last().update(i, p));
    }
}

/// Partitioning places each kept item exactly once: the groups hold as
/// many items as were kept, none is empty, and a streamed group holds one
/// item alone.
pub proof fn lemma_partition_places_each<T>(items: Seq<T>, sizes: Seq<usize>, keep: Seq<bool>, max: int, n: nat)
    requires
        n <= items.len(),
        items.len() == sizes.len(),
        keep.len() == items.len(),
    ensures
        total_items(spec_partition(items, sizes, keep, max, n)) == kept_count(keep, n),
        groups_well_formed(spec_partition(items, sizes, keep, max, n)),
    decreases n,
{
    if n > 0 {
        lemma_partition_places_each(items, sizes, keep, max, (n - 1) as nat);
        let g = spec_partition(items, sizes, keep, max, (n - 1) as nat);
        if keep[n - 1] {
            let s = sizes[n - 1] as int;
            let item = items[n - 1];
            if s >= max {
                lemma_total_push(g, PartitionView { items: seq![item], size: s, stream: true });
            } else {
                let i = first_fit(g, s, max);
                lemma_first_fit_bounds(g, s, max);
                if i < g.len() {
                    let np = PartitionView { items: g[i].items.push(item), size: g[i].size + s, stream: false };
                    lemma_total_update(g, i, np);
                    lemma_first_fit_fits(g, s, max);
                } else {
                    lemma_total_push(g, PartitionView { items: seq![item], size: s, stream: false });
                }
            }
        }
    }
}

proof fn lemma_first_fit_bounds<T>(g: Seq<PartitionView<T>>, s: int, max: int)
    ensures
        0 <= first_fit(g, s, max) <= g.len(),
    decreases g.len(),
{
    if g.len() > 0 && !fits(g[0], s, max) {
        lemma_first_fit_bounds(g.drop_first(), s, max);
    }
}

proof fn lemma_first_fit_fits<T>(g: Seq<PartitionView<T>>, s: int, max: int)
    ensures
        first_fit(g, s, max) < g.len() ==> fits(g[first_fit(g, s, max)], s, max),
    decreases g.len(),
{
    if g.len() > 0 && !fits(g[0], s, max) {
        lemma_first_fit_fits(g.drop_first(), s, max);
        lemma_first_fit_bounds(g.drop_first(), s, max);
        assert(first_fit(g, s, max) == 1 + first_fit(g.drop_first(), s, max));
        if first_fit(g, s, max) < g.len() {
            assert(g[first_fit(g, s, max)] == g.drop_first()[first_fit(g.drop_first(), s, max)]);
        }
    }
}

/// The blobs to download for an action's output files: each file with a
/// digest gives its digest (in order) and maps the digest's hash to the
/// file's path (a later file of the same hash wins).
pub open spec fn spec_download_plan(files: Seq<(Seq<char>, Option<Digest>)>, n: nat) -> (Seq<(Seq<char>, Seq<char>)>, Seq<(Seq<char>, i64)>)
    decreases n,
{
    if n == 0 {
        (Seq::empty(), Seq::empty())
    } else {
        let acc = spec_download_plan(files, (n - 1) as nat);
        match files[n - 1].1 {
            Some(d) => (crate::kv::upsert(acc.0, d.hash@, files[n - 1].0), acc.1.push(digest_view(d))),
            None => acc,
        }
    }
}

/// Plans the download of an action's output files, given as paths and
/// digests.
pub fn download_plan(files: &Vec<(String, Option<Digest>)>) -> (r: (Vec<(String, String)>, Vec<Digest>))
    ensures
        r.0.deep_view() == spec_download_plan(files@.map_values(|f: (String, Option<Digest>)| (f.0@, f.1)), files@.len()).0,
        r.1@.map_values(|d: Digest| digest_view(d)) == spec_download_plan(
            files@.map_values(|f: (String, Option<Digest>)| (f.0@, f.1)),
            files@.len(),
        ).1,
        crate::kv::unique_keys(r.0.deep_view()),
{
    let ghost fv = files@.map_values(|f: (String, Option<Digest>)| (f.0@, f.1));
    let mut map: Vec<(String, String)> = Vec::new();
    let mut digests: Vec<Digest> = Vec::new();
    assert(map.deep_view() =~= Seq::<(Seq<char>, Seq<char>)>::empty());
    assert(digests@.map_values(|d: Digest| digest_view(d)) =~= Seq::<(Seq<char>, i64)>::empty());
    let mut i: usize = 0;
    while i < files.len()
        invariant
            i <= files.len(),
            fv == files@.map_values(|f: (String, Option<Digest>)| (f.0@, f.1)),
            crate::kv::unique_keys(map.deep_view()),
            map.deep_view() == spec_download_plan(fv, i as nat).0,
            digests@.map_values(|d: Digest| digest_view(d)) == spec_download_plan(fv, i as nat).1,
        decreases files.len() - i,
    {
        assert(fv[i as int] == (files[i as int].0@, files[i as int].1));
        if let Some(d) = &files[i].1 {
            crate::kv::kv_upsert(&mut map, d.hash.clone(), files[i].0.clone());
            let ghost before = digests@;
            digests.push(Digest { hash: d.hash.clone(), size_bytes: d.size_bytes });
            assert(digests@.map_values(|x: Digest| digest_view(x)) =~= before.map_values(|x: Digest| digest_view(x)).push(digest_view(*d)));
        }
        i = i + 1;
    }
    (map, digests)
}

} // verus!
