//! The cache layer: freshness of the cache file, encoding and compression of
//! the payload, and the acquisition chain that decides between fresh cache,
//! live fetch and stale cache.

use vstd::prelude::*;

verus! {

use crate::codec::{enc_source_data, model_bounded, encode_source_data, decode_source_data};
use crate::source::{Source, SourceData, SourceDataModel, SourceConfigModel, CacheValidity,
    spec_validity};

/// Compression level handed to the compressor; level zero selects the
/// library's own default level.
pub const ZSTD_COMPRESSION_LEVEL: i32 = 0;

/// Where and for how long cached data is kept: the cache file path for one
/// source, if caching is configured at all, and the maximum age in seconds
/// before a cache file counts as outdated, if one is configured.
#[derive(Debug, Clone, PartialEq)]
pub struct CacheConfig {
    pub file: Option<String>,
    pub duration_secs: Option<u64>,
}

/// The possible statuses of a cache file.
#[derive(Debug, Clone, Copy, PartialEq, Eq, Structural)]
pub enum CacheStatus {
    Fresh,
    Outdated,
    Missing,
    /// Cache status was requested but the configuration defines no cache
    /// file.
    Undefined,
}

/// What the file system reports about a cache file: whether it exists, and
/// its age in seconds since last modification, where that could be read.
#[derive(Debug, Clone, Copy, PartialEq, Eq)]
pub struct FileProbe {
    pub exists: bool,
    pub age_secs: Option<u64>,
}

/// The status of a probed cache file: missing when it does not exist, fresh
/// when no maximum age is configured or the file is young enough, outdated
/// otherwise; undecidable (`None`) when the age was needed but unreadable.
pub open spec fn spec_cache_status(probe: Option<FileProbe>, max_age_secs: Option<u64>) -> Option<
    CacheStatus,
> {
    match probe {
        None => None,
        Some(p) => if !p.exists {
            Some(CacheStatus::Missing)
        } else {
            match max_age_secs {
                None => Some(CacheStatus::Fresh),
                Some(d) => match p.age_secs {
                    None => None,
                    Some(a) => if a < d {
                        Some(CacheStatus::Fresh)
                    } else {
                        Some(CacheStatus::Outdated)
                    },
                },
            }
        },
    }
}

/// The status of a source's cache under a configuration: `Undefined` when
/// no cache file is configured at all, else the probed file's status.
pub open spec fn spec_config_status(
    file_configured: bool,
    probe: Option<FileProbe>,
    max_age_secs: Option<u64>,
) -> Option<CacheStatus> {
    if !file_configured {
        Some(CacheStatus::Undefined)
    } else {
        spec_cache_status(probe, max_age_secs)
    }
}

/// Exact executable counterpart of [`spec_config_status`].
pub fn cache_status(config: &CacheConfig, probe: Option<FileProbe>) -> (r: Option<CacheStatus>)
    ensures
        r == spec_config_status(config.file is Some, probe, config.duration_secs),
{
    if config.file.is_none() {
        return Some(CacheStatus::Undefined);
    }
    cache_status_from(probe, config.duration_secs)
}

/// Exact executable counterpart of [`spec_cache_status`].
pub fn cache_status_from(probe: Option<FileProbe>, max_age_secs: Option<u64>) -> (r: Option<
    CacheStatus,
>)
    ensures
        r == spec_cache_status(probe, max_age_secs),
{
    match probe {
        None => None,
        Some(p) => {
            if !p.exists {
                Some(CacheStatus::Missing)
            } else {
                match max_age_secs {
                    None => Some(CacheStatus::Fresh),
                    Some(d) => match p.age_secs {
                        None => None,
                        Some(a) => {
                            if a < d {
                                Some(CacheStatus::Fresh)
                            } else {
                                Some(CacheStatus::Outdated)
                            }
                        },
                    },
                }
            }
        },
    }
}

/// Why acquisition failed for a source.
#[derive(Debug, Clone, PartialEq)]
pub enum FetchError {
    /// The live fetch failed, with the transport's own description.
    Network(String),
    /// The fetched document exceeded the size ceiling.
    Oversized,
    /// The fetched document could not be parsed.
    Parse(crate::parsing::ParseError),
    /// No fresh data could be had and no usable cache remained.
    Exhausted,
    /// The background population task failed, with a diagnostic string.
    BackgroundTaskFailure(String),
}

impl FetchError {
    /// A short description of the failure.
    pub fn message(&self) -> String {
        match self {
            FetchError::Network(s) => crate::text::concat_str("fetching data failed: ", s.as_str()),
            FetchError::Oversized => crate::text::str_to_string(
                "fetched document exceeded the size ceiling",
            ),
            FetchError::Parse(e) => {
                let inner = e.message();
                crate::text::concat_str("parsing fetched data failed: ", inner.as_str())
            },
            FetchError::Exhausted => crate::text::str_to_string(
                "failed to get fresh data and no valid cache found",
            ),
            FetchError::BackgroundTaskFailure(s) => crate::text::concat_str(
                "background task failed: ",
                s.as_str(),
            ),
        }
    }
}

/// Why stored cache bytes could not be turned back into data.
#[derive(Debug, Clone, Copy, PartialEq, Eq, Structural)]
pub enum CacheError {
    /// The compressed stream was damaged.
    Decompress,
    /// The decompressed bytes were not a complete encoding.
    Malformed,
}

/// What `zstd::stream::encode_all` yields for the given input and level.
pub uninterp spec fn compressed(b: Seq<u8>, level: int) -> Seq<u8>;

/// Relies on `zstd::stream::encode_all`: compressing in-memory bytes is a
/// function of the input and the level alone.
#[verifier::external_body]
fn zstd_compress(b: &[u8], level: i32) -> (r: Option<Vec<u8>>)
    ensures
        r matches Some(v) ==> v@ == compressed(b@, level as int),
{
    zstd::stream::encode_all(b, level).ok()
}

/// Relies on `zstd::stream::decode_all`: compression is lossless, so
/// decompressing any compressor output returns the original bytes.
#[verifier::external_body]
fn zstd_decompress(b: &[u8]) -> (r: Option<Vec<u8>>)
    ensures
        r matches Some(v) ==> forall|orig: Seq<u8>, level: int|
            b@ == #[trigger] compressed(orig, level) ==> v@ == orig,
        r is None ==> forall|orig: Seq<u8>, level: int| b@ != #[trigger] compressed(orig, level),
{
    zstd::stream::decode_all(b).ok()
}

/// Serializes the payload to its binary encoding, then compresses it:
/// the byte form written to the cache file.
pub fn encode_payload(data: &SourceData) -> (r: Option<Vec<u8>>)
    ensures
        r matches Some(v) ==> v@ == compressed(
            enc_source_data(data.model()),
            ZSTD_COMPRESSION_LEVEL as int,
        ),
        model_bounded(data.model()),
{
    let encoded = encode_source_data(data);
    zstd_compress(encoded.as_slice(), ZSTD_COMPRESSION_LEVEL)
}

/// Decompresses and decodes cache-file bytes. Every failure is a typed
/// error; on the output of [`encode_payload`] it returns the original
/// payload, whatever level it was compressed with.
pub fn decode_payload(bytes: &[u8]) -> (r: Result<SourceData, CacheError>)
    ensures
        forall|m: SourceDataModel, level: int|
            (model_bounded(m) && bytes@ == #[trigger] compressed(enc_source_data(m), level)) ==> (
            r matches Ok(d) && d.model() == m),
{
    match zstd_decompress(bytes) {
        None => Err(CacheError::Decompress),
        Some(raw) => match decode_source_data(raw.as_slice()) {
            Some(d) => Ok(d),
            None => Err(CacheError::Malformed),
        },
    }
}

/// The effectful operations behind acquisition: the expensive fetch and the
/// cache file system. Implemented by the production provider over the
/// network and the disk, and by fixture providers in tests.
pub trait Cacheable {
    /// Acquires fresh data the expensive way.
    fn get_expensive(&self) -> Result<SourceData, FetchError>;

    /// What the file system reports about the file at `path`; `None` when
    /// probing itself failed.
    fn probe_file(&self, path: &str) -> Option<FileProbe>;

    /// The contents of the file at `path`, if it could be read.
    fn read_file(&self, path: &str) -> Option<Vec<u8>>;

    /// Writes `bytes` to the file at `path`; reports success.
    fn write_file(&self, path: &str, bytes: &[u8]) -> bool;
}

/// Encodes, compresses and writes the payload to the cache file.
/// Best-effort: the report of failure is the whole of the error handling.
pub fn store_cache<P: Cacheable>(provider: &P, data: &SourceData, path: &str) -> bool {
    match encode_payload(data) {
        Some(bytes) => provider.write_file(path, bytes.as_slice()),
        None => false,
    }
}

/// Reads the cache file and decodes its payload, if the file is readable
/// and intact.
pub fn load_cache<P: Cacheable>(provider: &P, path: &str) -> Option<SourceData> {
    match provider.read_file(path) {
        Some(bytes) => match decode_payload(bytes.as_slice()) {
            Ok(d) => Some(d),
            Err(_) => None,
        },
        None => None,
    }
}

/// What the cache can contribute to an acquisition attempt, judged before
/// any fetch: usable data, a note that stale data exists, or nothing.
#[derive(Debug)]
pub enum MaybeCache {
    /// The cache is outdated; it may still serve as a fallback later.
    Outdated,
    /// Fresh cache whose payload matches the source exactly.
    Good(SourceData),
    /// Fresh cache whose payload matches the source's data URL only.
    Fallback(SourceData),
    /// Nothing usable: missing, unconfigured, unreadable, or for another
    /// source.
    Absent,
}

/// Probes and, when the file is fresh, loads and classifies the cache.
/// A payload with an empty option list is never handed on: an empty but
/// decodable cache counts as no cache.
pub fn maybe_load_cache<P: Cacheable>(provider: &P, source: &Source, config: &CacheConfig) -> (m:
    MaybeCache)
    ensures
        m matches MaybeCache::Good(d) ==> spec_validity(source.model(), d.source.model())
            == CacheValidity::Good && d.opts@.len() > 0,
        m matches MaybeCache::Fallback(d) ==> spec_validity(source.model(), d.source.model())
            == CacheValidity::Fallback && d.opts@.len() > 0,
{
    let probe = match &config.file {
        Some(path) => provider.probe_file(path.as_str()),
        None => None,
    };
    let status = match cache_status(config, probe) {
        Some(s) => s,
        None => {
            return MaybeCache::Absent;
        },
    };
    let loaded = match (&config.file, status) {
        (Some(path), CacheStatus::Fresh) => load_cache(provider, path.as_str()),
        _ => None,
    };
    classify_cache(source, status, loaded)
}

/// The mathematical value of a [`MaybeCache`].
pub enum MaybeCacheModel {
    Outdated,
    Good(SourceDataModel),
    Fallback(SourceDataModel),
    Absent,
}

impl MaybeCache {
    pub open spec fn model(&self) -> MaybeCacheModel {
        match self {
            MaybeCache::Outdated => MaybeCacheModel::Outdated,
            MaybeCache::Good(d) => MaybeCacheModel::Good(d.model()),
            MaybeCache::Fallback(d) => MaybeCacheModel::Fallback(d.model()),
            MaybeCache::Absent => MaybeCacheModel::Absent,
        }
    }
}

/// What the cache contributes, as a function of the observed status and the
/// decoded payload: a fresh, non-empty payload is handed on under its
/// classification; an outdated file is noted without judging its payload;
/// everything else — missing, unconfigured, undecodable, empty, or for
/// another source — contributes nothing.
pub open spec fn spec_classify_cache(
    me: SourceConfigModel,
    status: CacheStatus,
    loaded: Option<SourceDataModel>,
) -> MaybeCacheModel {
    match status {
        CacheStatus::Fresh => match loaded {
            Some(d) => if d.opts.len() == 0 {
                MaybeCacheModel::Absent
            } else {
                match spec_validity(me, d.source) {
                    CacheValidity::Good => MaybeCacheModel::Good(d),
                    CacheValidity::Fallback => MaybeCacheModel::Fallback(d),
                    CacheValidity::Unusable => MaybeCacheModel::Absent,
                }
            },
            None => MaybeCacheModel::Absent,
        },
        CacheStatus::Outdated => MaybeCacheModel::Outdated,
        CacheStatus::Missing => MaybeCacheModel::Absent,
        CacheStatus::Undefined => MaybeCacheModel::Absent,
    }
}

/// Exact executable counterpart of [`spec_classify_cache`]: the verified
/// decision behind [`maybe_load_cache`].
pub fn classify_cache(source: &Source, status: CacheStatus, loaded: Option<SourceData>) -> (m:
    MaybeCache)
    ensures
        m.model() == spec_classify_cache(source.model(), status, opt_data_model(loaded)),
{
    match status {
        CacheStatus::Fresh => {
            match loaded {
                Some(d) => {
                    if d.opts.len() == 0 {
                        return MaybeCache::Absent;
                    }
                    match source.cache_valid(&d) {
                        CacheValidity::Good => MaybeCache::Good(d),
                        CacheValidity::Fallback => MaybeCache::Fallback(d),
                        CacheValidity::Unusable => MaybeCache::Absent,
                    }
                },
                None => MaybeCache::Absent,
            }
        },
        CacheStatus::Outdated => MaybeCache::Outdated,
        CacheStatus::Missing => MaybeCache::Absent,
        CacheStatus::Undefined => MaybeCache::Absent,
    }
}

/// The resolution order of acquisition, as a function of the observed
/// outcomes: a fresh cache that classifies `Good` is served as it stands;
/// otherwise fetched data wins; otherwise stale or merely-`Fallback` cache
/// is served rather than nothing; otherwise acquisition fails. A payload
/// with an empty option list never counts as a result.
pub open spec fn spec_resolve(
    me: SourceConfigModel,
    status: CacheStatus,
    cached: Option<SourceDataModel>,
    fetched: Option<SourceDataModel>,
) -> Option<SourceDataModel> {
    let fresh_good = match cached {
        Some(d) => status == CacheStatus::Fresh && spec_validity(me, d.source)
            == CacheValidity::Good && d.opts.len() > 0,
        None => false,
    };
    let fetched_ok = match fetched {
        Some(f) => f.opts.len() > 0,
        None => false,
    };
    let stale_ok = match cached {
        Some(d) => d.opts.len() > 0 && ((status == CacheStatus::Fresh && spec_validity(me, d.source)
            == CacheValidity::Fallback) || (status == CacheStatus::Outdated && spec_validity(
            me,
            d.source,
        ) != CacheValidity::Unusable)),
        None => false,
    };
    if fresh_good {
        cached
    } else if fetched_ok {
        fetched
    } else if stale_ok {
        cached
    } else {
        None
    }
}

pub open spec fn opt_data_model(o: Option<SourceData>) -> Option<SourceDataModel> {
    match o {
        Some(d) => Some(d.model()),
        None => None,
    }
}

/// The value-level acquisition decision: given the cache status, the decoded
/// cache payload (if any) and the outcome of a fetch (if one succeeded),
/// returns exactly what [`spec_resolve`] prescribes.
pub fn resolve_acquisition(
    source: &Source,
    status: CacheStatus,
    cached: Option<SourceData>,
    fetched: Option<SourceData>,
) -> (r: Result<SourceData, FetchError>)
    ensures
        match r {
            Ok(d) => spec_resolve(
                source.model(),
                status,
                opt_data_model(cached),
                opt_data_model(fetched),
            ) == Some(d.model()),
            Err(e) => spec_resolve(
                source.model(),
                status,
                opt_data_model(cached),
                opt_data_model(fetched),
            ) is None && e == FetchError::Exhausted,
        },
{
    let cached_usable = match &cached {
        Some(d) => d.opts.len() > 0,
        None => false,
    };
    if status == CacheStatus::Fresh && cached_usable {
        if let Some(d) = &cached {
            if let CacheValidity::Good = source.cache_valid(d) {
                let Some(d) = cached else { return Err(FetchError::Exhausted) };
                return Ok(d);
            }
        }
    }
    if let Some(f) = fetched {
        if f.opts.len() > 0 {
            return Ok(f);
        }
    }
    if cached_usable {
        if let Some(d) = &cached {
            let validity = source.cache_valid(d);
            let fallback_ok = match status {
                CacheStatus::Fresh => matches!(validity, CacheValidity::Fallback),
                CacheStatus::Outdated => !matches!(validity, CacheValidity::Unusable),
                CacheStatus::Missing => false,
                CacheStatus::Undefined => false,
            };
            if fallback_ok {
                let Some(d) = cached else { return Err(FetchError::Exhausted) };
                return Ok(d);
            }
        }
    }
    Err(FetchError::Exhausted)
}

/// Skipping the fetch behind a fresh `Good` cache is sound: the resolution
/// serves that cache whatever a fetch would have returned.
pub proof fn lemma_fresh_good_ignores_fetch(
    me: SourceConfigModel,
    d: SourceDataModel,
    fetched: Option<SourceDataModel>,
)
    requires
        spec_validity(me, d.source) == CacheValidity::Good,
        d.opts.len() > 0,
    ensures
        spec_resolve(me, CacheStatus::Fresh, Some(d), fetched) == Some(d),
{
}

/// Degraded availability: with the network unreachable and an outdated but
/// decodable cache whose payload classifies `Good` or `Fallback` for the
/// source, acquisition still yields that stale payload rather than failing.
pub proof fn lemma_degraded_availability(me: SourceConfigModel, d: SourceDataModel)
    requires
        spec_validity(me, d.source) != CacheValidity::Unusable,
        d.opts.len() > 0,
    ensures
        spec_resolve(me, CacheStatus::Outdated, Some(d), None) == Some(d),
{
}

/// The full acquisition chain for one source: fresh matching cache first,
/// then a live fetch with best-effort write-through, then stale cache;
/// failure only when all three yield nothing. The outcomes observed — the
/// cache's status and payload, and the fetch result where one was needed —
/// are handed to [`resolve_acquisition`], so the decision served is exactly
/// [`spec_resolve`] of them; a successful result always carries at least
/// one option record, and the only error is exhaustion of the chain.
pub fn get_data<P: Cacheable>(provider: &P, source: &Source, config: &CacheConfig) -> (r: Result<
    SourceData,
    FetchError,
>)
    ensures
        r matches Ok(d) ==> d.opts@.len() > 0,
        r matches Err(e) ==> e == FetchError::Exhausted,
{
    let (status, cached, skip_fetch) = match maybe_load_cache(provider, source, config) {
        MaybeCache::Good(d) => {
            // A fresh cache whose payload matches exactly: no fetch is
            // attempted and the cache file is left as it stands.
            (CacheStatus::Fresh, Some(d), true)
        },
        MaybeCache::Fallback(d) => (CacheStatus::Fresh, Some(d), false),
        MaybeCache::Outdated => {
            // Stale data is only worth decoding once it may be needed.
            let loaded = match &config.file {
                Some(path) => load_cache(provider, path.as_str()),
                None => None,
            };
            (CacheStatus::Outdated, loaded, false)
        },
        MaybeCache::Absent => (CacheStatus::Missing, None, false),
    };

    let fetched: Option<SourceData> = if skip_fetch {
        None
    } else {
        match provider.get_expensive() {
            Ok(d) => {
                if d.opts.len() > 0 {
                    if let Some(path) = &config.file {
                        // Best-effort write-through: a failed write never
                        // fails the acquisition.
                        let _ = store_cache(provider, &d, path.as_str());
                    }
                    Some(d)
                } else {
                    // An empty option list from the provider counts as a
                    // failed acquisition, not as data.
                    None
                }
            },
            Err(_) => None,
        }
    };

    proof {
        if skip_fetch {
            // The skipped fetch cannot change the outcome: a fresh cache
            // that classifies Good wins the resolution whatever a fetch
            // would have returned.
            let cm = opt_data_model(cached);
            assert(cm matches Some(d) && spec_validity(source.model(), d.source)
                == CacheValidity::Good && d.opts.len() > 0);
            lemma_fresh_good_ignores_fetch(source.model(), cm->Some_0, opt_data_model(fetched));
        }
    }
    let r = resolve_acquisition(source, status, cached, fetched);
    proof {
        match r {
            Ok(ref d) => {
                assert(d.model().opts.len() > 0);
                assert(d.opts@.len() == d.model().opts.len());
            },
            Err(_) => {},
        }
    }
    r
}

} // verus!
