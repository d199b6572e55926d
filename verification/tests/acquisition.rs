//! Tests of the cache codec, the acquisition chain, the search index, and
//! the built-in source table, all over fixture documents.

use nox::cache::{
    cache_status, cache_status_from, classify_cache, decode_payload, encode_payload, get_data,
    maybe_load_cache, resolve_acquisition, CacheConfig, CacheStatus, Cacheable, FetchError,
    FileProbe, MaybeCache,
};
use nox::config::{builtin_sources, default_config_toml, AppConfig, UserConfig};
use nox::finder::{Finder, InputStatus};
use nox::source::{CacheValidity, Source, SourceConfig, SourceData};

fn entry(name: &str) -> String {
    format!(
        "<dt><a id=\"opt-{name}\"><code>{name}</code></a></dt>\
         <dd><p>Describes {name} at length.</p>\
         <p><span class=\"emphasis\"><em>Type:</em></span> boolean</p>\
         <p><span class=\"emphasis\"><em>Default:</em></span> false</p>\
         <p><span class=\"emphasis\"><em>Example:</em></span> true</p>\
         <p><span class=\"emphasis\"><em>Declared by:</em></span> \
         <a class=\"filename\" \
         href=\"https://github.com/nixos/nixpkgs/blob/release-25.11/{name}.nix\">\
         &lt;module&gt;</a></p></dd>",
        name = name
    )
}

fn document_titled(n: usize, title: &str, subtitle: Option<&str>) -> String {
    let mut body = String::new();
    for i in 0..n {
        body.push_str(&entry(&format!("services.sample{i}.enable")));
    }
    let subtitle_html = match subtitle {
        Some(s) => format!("<div class=\"subtitle\">{s}</div>"),
        None => String::new(),
    };
    format!(
        "<html><head><title>{title}</title></head><body>\
         {subtitle_html}<dl>{body}</dl></body></html>"
    )
}

fn document(n: usize) -> String {
    document_titled(n, "Sample manual", Some("Version 25.05"))
}

fn sample_source() -> Source {
    Source {
        inner: SourceConfig {
            name: "Sample".to_string(),
            url: "https://example.invalid/manual.html".to_string(),
            version_url: None,
        },
    }
}

fn sample_data(n: usize) -> SourceData {
    sample_source()
        .parse_data(&document(n), &document(1))
        .expect("fixture parses")
}

#[test]
fn test_cache_roundtrip() {
    let opts = sample_data(6);
    let stored = encode_payload(&opts).expect("Can encode, compress and store cache");
    let roundtrip_opts =
        decode_payload(&stored).expect("Can read, decompress and decode stored cache data");
    assert_eq!(opts, roundtrip_opts);
}

#[test]
fn decode_rejects_damaged_bytes() {
    let stored = encode_payload(&sample_data(2)).expect("encodes");
    // Truncation damages the compressed stream itself.
    let truncated = &stored[..stored.len() / 2];
    assert!(decode_payload(truncated).is_err());
    // Arbitrary bytes are not a compressed stream at all.
    assert!(decode_payload(&[7u8, 1, 2, 3]).is_err());
}

#[test]
fn cache_status_undefined_without_cache_file() {
    let no_file = CacheConfig { file: None, duration_secs: Some(60) };
    assert_eq!(cache_status(&no_file, None), Some(CacheStatus::Undefined));
    let with_file = cache_config(Some(60));
    assert_eq!(
        cache_status(&with_file, Some(FileProbe { exists: true, age_secs: Some(5) })),
        Some(CacheStatus::Fresh)
    );
}

#[test]
fn cache_status_classification() {
    let fresh = Some(FileProbe { exists: true, age_secs: Some(10) });
    let stale = Some(FileProbe { exists: true, age_secs: Some(1000) });
    let missing = Some(FileProbe { exists: false, age_secs: None });
    assert_eq!(cache_status_from(fresh, Some(60)), Some(CacheStatus::Fresh));
    assert_eq!(cache_status_from(stale, Some(60)), Some(CacheStatus::Outdated));
    assert_eq!(cache_status_from(stale, None), Some(CacheStatus::Fresh));
    assert_eq!(cache_status_from(missing, Some(60)), Some(CacheStatus::Missing));
    assert_eq!(cache_status_from(None, Some(60)), None);
    assert_eq!(
        cache_status_from(Some(FileProbe { exists: true, age_secs: None }), Some(60)),
        None
    );
}

#[test]
fn validity_classification() {
    let me = sample_source();
    let good = sample_data(2);
    assert_eq!(me.cache_valid(&good), CacheValidity::Good);

    let mut fallback = sample_data(2);
    fallback.source.inner.version_url = Some("https://example.invalid/other".to_string());
    assert_eq!(me.cache_valid(&fallback), CacheValidity::Fallback);

    let mut unusable = sample_data(2);
    unusable.source.inner.url = "https://example.invalid/elsewhere.html".to_string();
    assert_eq!(me.cache_valid(&unusable), CacheValidity::Unusable);
}

/// A scripted provider: a fixed fetch outcome and a fixed cache file.
struct FixtureProvider {
    fetched: Option<SourceData>,
    cache_bytes: Option<Vec<u8>>,
    age_secs: Option<u64>,
}

impl Cacheable for FixtureProvider {
    fn get_expensive(&self) -> Result<SourceData, FetchError> {
        match &self.fetched {
            Some(d) => Ok(d.clone()),
            None => Err(FetchError::Network("unreachable".to_string())),
        }
    }

    fn probe_file(&self, _path: &str) -> Option<FileProbe> {
        Some(FileProbe { exists: self.cache_bytes.is_some(), age_secs: self.age_secs })
    }

    fn read_file(&self, _path: &str) -> Option<Vec<u8>> {
        self.cache_bytes.clone()
    }

    fn write_file(&self, _path: &str, _bytes: &[u8]) -> bool {
        true
    }
}

fn cache_config(max_age: Option<u64>) -> CacheConfig {
    CacheConfig { file: Some("sample.zst".to_string()), duration_secs: max_age }
}

#[test]
fn maybe_load_cache_serves_fresh_good_cache() {
    let cached = sample_data(3);
    let provider = FixtureProvider {
        fetched: None,
        cache_bytes: Some(encode_payload(&cached).expect("encodes")),
        age_secs: Some(10),
    };
    match maybe_load_cache(&provider, &sample_source(), &cache_config(Some(60))) {
        MaybeCache::Good(d) => assert_eq!(d, cached),
        other => panic!("fresh matching cache should classify Good, got {other:?}"),
    }
    // The decision function itself, on the observed values.
    match classify_cache(&sample_source(), CacheStatus::Fresh, Some(cached.clone())) {
        MaybeCache::Good(d) => assert_eq!(d, cached),
        other => panic!("expected Good, got {other:?}"),
    }
    match classify_cache(&sample_source(), CacheStatus::Outdated, None) {
        MaybeCache::Outdated => {},
        other => panic!("expected Outdated, got {other:?}"),
    }
    match classify_cache(&sample_source(), CacheStatus::Missing, None) {
        MaybeCache::Absent => {},
        other => panic!("expected Absent, got {other:?}"),
    }
}

#[test]
fn trim_strips_unicode_whitespace() {
    // No-break spaces and an ideographic space around the value, as rendered
    // HTML can carry them at field edges.
    let padded = "\u{a0}\u{3000} value\u{2009}\u{a0}";
    let trimmed = nox::text::trim_bytes(padded.as_bytes());
    assert_eq!(String::from_utf8(trimmed).unwrap(), "value");
    assert_eq!(padded.trim(), "value");
}

#[test]
fn degraded_availability_serves_stale_cache() {
    // Unreachable network, an outdated but decodable, Good-valid cache.
    let cached = sample_data(3);
    let provider = FixtureProvider {
        fetched: None,
        cache_bytes: Some(encode_payload(&cached).expect("encodes")),
        age_secs: Some(10_000),
    };
    let got = get_data(&provider, &sample_source(), &cache_config(Some(60)))
        .expect("stale data beats no data");
    assert_eq!(got, cached);
}

#[test]
fn degraded_availability_serves_stale_fallback_cache() {
    let mut cached = sample_data(3);
    cached.source.inner.version_url = Some("https://example.invalid/old-version".to_string());
    let provider = FixtureProvider {
        fetched: None,
        cache_bytes: Some(encode_payload(&cached).expect("encodes")),
        age_secs: Some(10_000),
    };
    let got = get_data(&provider, &sample_source(), &cache_config(Some(60)))
        .expect("fallback cache beats no data");
    assert_eq!(got, cached);
}

#[test]
fn fresh_good_cache_wins_over_fetch() {
    let cached = sample_data(3);
    let fetched = sample_data(5);
    let provider = FixtureProvider {
        fetched: Some(fetched),
        cache_bytes: Some(encode_payload(&cached).expect("encodes")),
        age_secs: Some(10),
    };
    let got = get_data(&provider, &sample_source(), &cache_config(Some(60))).expect("cache hit");
    assert_eq!(got, cached);
}

#[test]
fn fetch_wins_over_stale_cache() {
    let cached = sample_data(3);
    let fetched = sample_data(5);
    let provider = FixtureProvider {
        fetched: Some(fetched.clone()),
        cache_bytes: Some(encode_payload(&cached).expect("encodes")),
        age_secs: Some(10_000),
    };
    let got = get_data(&provider, &sample_source(), &cache_config(Some(60))).expect("fetch");
    assert_eq!(got, fetched);
}

#[test]
fn exhausted_when_nothing_available() {
    let provider = FixtureProvider { fetched: None, cache_bytes: None, age_secs: None };
    let err = get_data(&provider, &sample_source(), &cache_config(Some(60)))
        .expect_err("nothing to serve");
    assert_eq!(err, FetchError::Exhausted);
}

#[test]
fn resolution_order_by_value() {
    let me = sample_source();
    let cached = sample_data(3);
    let fetched = sample_data(5);
    // Fresh Good cache is served as it stands.
    let r = resolve_acquisition(
        &me,
        CacheStatus::Fresh,
        Some(cached.clone()),
        Some(fetched.clone()),
    );
    assert_eq!(r.unwrap(), cached);
    // Without usable cache the fetch wins.
    let r = resolve_acquisition(&me, CacheStatus::Missing, None, Some(fetched.clone()));
    assert_eq!(r.unwrap(), fetched);
    // Outdated cache is served when the fetch failed.
    let r = resolve_acquisition(&me, CacheStatus::Outdated, Some(cached.clone()), None);
    assert_eq!(r.unwrap(), cached);
    // Nothing at all is an error.
    let r = resolve_acquisition(&me, CacheStatus::Missing, None, None);
    assert_eq!(r.unwrap_err(), FetchError::Exhausted);
}

fn populated_finder(n: usize) -> Finder {
    let mut f = Finder::new(sample_source());
    f.populate(Ok(sample_data(n)));
    f
}

#[test]
fn finder_test_finders() {
    for source in builtin_sources() {
        let source = Source { inner: source };
        let data = source
            .parse_data(&document(8), &document(1))
            .expect("fixture parses");
        let mut finder = Finder::new(source);
        finder.populate(Ok(data));
        assert_ne!(
            finder
                .find_blocking("s", Some(5))
                .expect("find_blocking should not fail")
                .len(),
            0,
            "Searching with finder from {} failed",
            finder.name()
        );
    }
}

#[test]
fn finder_test_empty_search() {
    let mut f = populated_finder(8);
    assert_eq!(
        f.find_blocking("asdfasdfasdf", Some(5))
            .expect("find blocking should not fail")
            .len(),
        0,
        "Either empty searches crash or a search term that was thought to yield no results now does."
    );
}

#[test]
fn search_test_empty_search() {
    let mut f = populated_finder(5);
    assert_eq!(
        f.find_blocking("asdfasdfasdf", None)
            .expect("find blocking should not fail")
            .len(),
        0
    );
}

#[test]
fn empty_pattern_matches_whole_corpus() {
    let mut f = populated_finder(7);
    let all = f.find_blocking("", None).expect("find blocking should not fail");
    assert_eq!(all.len(), 7);
    let capped = f.find_blocking("", Some(3)).expect("find blocking should not fail");
    assert_eq!(capped.len(), 3);
}

#[test]
fn decode_of_foreign_compressed_stream_is_malformed() {
    // A valid compressed stream whose content is not an encoding at all.
    let junk: &[u8] = b"not an encoded payload";
    let stream = zstd::stream::encode_all(junk, 0).expect("compresses");
    assert_eq!(decode_payload(&stream), Err(nox::cache::CacheError::Malformed));
}

#[test]
fn error_messages_name_their_cause() {
    assert!(FetchError::Exhausted.message().contains("no valid cache"));
    assert!(FetchError::Network("down".to_string()).message().contains("down"));
    assert!(nox::parsing::ParseError::NoRecords.message().contains("no option records"));
}

#[test]
fn append_matches_full_rescore() {
    // The append-optimized pass and a full re-score settle on the same
    // result set for the same corpus and final pattern.
    let mut appended = populated_finder(9);
    appended.init_search("sample1", InputStatus::Change);
    appended.init_search("sample1.e", InputStatus::Append);
    for _ in 0..500 {
        appended.init_search("sample1.e", InputStatus::Unchanged);
    }
    let from_append: Vec<String> =
        appended.get_results(None).into_iter().map(|o| o.name).collect();

    let mut fresh = populated_finder(9);
    let from_change: Vec<String> = fresh
        .find_blocking("sample1.e", None)
        .expect("find_blocking should not fail")
        .into_iter()
        .map(|o| o.name)
        .collect();

    assert_eq!(from_append, from_change);
    assert!(!from_change.is_empty());
}

#[test]
fn finder_reports_version_and_readiness() {
    let mut f = Finder::new(sample_source());
    assert_eq!(f.version(), "Version number not found (yet)");
    f.populate(Ok(sample_data(2)));
    assert_eq!(f.version(), "Version 25.05");

    let mut failed = Finder::new(sample_source());
    failed.populate(Err(FetchError::Network("down".to_string())));
    assert_eq!(failed.version(), "Failed to get data");
    assert_eq!(
        failed.find_blocking("s", None).expect("empty corpus searches fine").len(),
        0
    );
}

#[test]
fn finder_doc_urls() {
    let f = populated_finder(2);
    let results = {
        let mut f2 = populated_finder(2);
        f2.find_blocking("sample0", Some(1)).expect("works")
    };
    assert_eq!(results.len(), 1);
    let url = f.doc_url_to(&results[0]);
    assert_eq!(url, "https://example.invalid/manual.html#opt-services.sample0.enable");
}

#[test]
fn test_get_version() {
    for se in builtin_expectations() {
        let swh = fixture_pages(&se);
        let version = nox::parsing::parse_version(&swh.version_html)
            .expect("Can get version")
            .expect("Can get version");
        assert!(version.contains("Version"), "Version string: {version}");
    }
}

#[test]
fn app_config_resolution() {
    let user = UserConfig {
        sources: builtin_sources(),
        use_cache: true,
        auto_refresh_cache: false,
        cache_duration_secs: 3600,
        cache_dir: "/tmp/cache".to_string(),
        enable_logging: false,
        log_level: "error".to_string(),
        log_file: "nox.log".to_string(),
    };
    let app = AppConfig::from(user.clone());
    assert_eq!(app.cache_dir.as_deref(), Some("/tmp/cache"));
    assert_eq!(app.cache_duration_secs, None);
    assert_eq!(app.log_file, None);
    let back = UserConfig::from(app, "/default/cache".to_string(), "/default/log".to_string());
    assert!(back.use_cache);
    assert!(!back.auto_refresh_cache);
    assert_eq!(back.cache_duration_secs, nox::config::DEFAULT_CACHE_DURATION_SECS);
    assert_eq!(back.cache_dir, "/tmp/cache");
    assert_eq!(back.log_file, "/default/log");
}

#[test]
fn default_config_documents_defaults() {
    let toml = default_config_toml("/home/someone/.cache/nox", "/home/someone/logs/nox.log");
    assert!(toml.contains("cache_dir = \"/home/someone/.cache/nox\""));
    assert!(toml.contains("log_file = \"/home/someone/logs/nox.log\""));
    assert!(toml.contains("cache_duration = \"1week\""));
    let defaults = UserConfig::defaults(
        "/home/someone/.cache/nox".to_string(),
        "/home/someone/logs/nox.log".to_string(),
    );
    // Every built-in source documented in the default configuration text.
    for s in &defaults.sources {
        assert!(toml.contains(&format!("name = \"{}\"", s.name)));
        assert!(toml.contains(&format!("url = \"{}\"", s.url)));
    }
    assert_eq!(defaults.sources.len(), 7);
}

#[test]
fn project_names() {
    assert_eq!(nox::project_paths::project_name(), "nox");
    assert_eq!(nox::project_paths::project_env_name(), "NOX");
}

struct SourceExpectations {
    source_config: SourceConfig,
    min_data_html_length: usize,
    min_version_html_length: usize,
    min_parsed_terms: usize,
}

struct SourceWithHTML {
    source: Source,
    data: SourceData,
    data_html: String,
    version_html: String,
}

/// Fixture pages for each built-in source, sized to meet the expectations.
/// The corpus this test originally judged was a tree of captured copies of
/// the real documentation pages, megabytes each; that tree is not part of
/// the sources here, so generated pages stand in for it and the minimum
/// sizes above are scaled to them.
fn builtin_expectations() -> Vec<SourceExpectations> {
    let mins = [
        ("Nix-Darwin", 10_000, 10_000, 30),
        ("NixOS", 12_000, 100, 40),
        ("NixOS Unstable", 12_000, 100, 40),
        ("Home Manager", 10_000, 100, 30),
        ("Home Manager NixOS", 2_000, 100, 6),
        ("Home Manager Nix-Darwin", 2_000, 100, 6),
        ("Nix Built-ins", 5_000, 5_000, 12),
    ];
    let sources = builtin_sources();
    assert_eq!(sources.len(), mins.len());
    sources
        .into_iter()
        .zip(mins)
        .map(|(source_config, (name, d, v, t))| {
            assert_eq!(source_config.name, name);
            SourceExpectations {
                source_config,
                min_data_html_length: d,
                min_version_html_length: v,
                min_parsed_terms: t,
            }
        })
        .collect()
}

fn fixture_pages(se: &SourceExpectations) -> SourceWithHTML {
    // Enough pairs to exceed the expected minimum record count, and a title
    // carrying a semantic version for the source that has no subtitle.
    let n = se.min_parsed_terms + se.min_parsed_terms / 2 + 2;
    let (title, subtitle) = if se.source_config.name == "Nix Built-ins" {
        ("Nix 2.28.1 Reference Manual", None)
    } else {
        ("Sample manual", Some("Version 25.05"))
    };
    let data_html = document_titled(n, title, subtitle);
    let version_html = match &se.source_config.version_url {
        Some(_) => document_titled(0, title, Some("Version 25.05")),
        None => data_html.clone(),
    };
    let source = Source { inner: se.source_config.clone() };
    let data = source
        .parse_data(&data_html, &version_html)
        .expect("Can parse test data");
    SourceWithHTML { source, data, data_html, version_html }
}

#[test]
fn verify_all_builtin_sources_tested() {
    let builtin = builtin_sources();
    let expectations = builtin_expectations();
    let with_html: Vec<SourceWithHTML> = expectations.iter().map(fixture_pages).collect();
    assert_eq!(builtin.len(), expectations.len());
    assert_eq!(builtin.len(), with_html.len());
    for ((s, se), swh) in builtin
        .into_iter()
        .zip(expectations.iter())
        .zip(with_html.iter())
    {
        assert_eq!(s, se.source_config);
        assert_eq!(swh.source.inner, se.source_config);
        assert_eq!(swh.source, swh.data.source);
    }
}

#[test]
fn verify_builtin_sources_expectations() {
    let with_html: Vec<(SourceExpectations, SourceWithHTML)> = builtin_expectations()
        .into_iter()
        .map(|se| {
            let swh = fixture_pages(&se);
            (se, swh)
        })
        .collect();
    for (_, swh) in &with_html {
        println!("Source: {}", swh.source.inner.name);
        println!("data_html.len(): {:?}", swh.data_html.len());
        println!("version_html.len(): {}", swh.version_html.len());
        println!("data.opts.len(): {}", swh.data.opts.len());
    }
    for (se, swh) in &with_html {
        println!("Verifying expectations for {}", swh.source.inner.name);
        assert_eq!(swh.source, Source { inner: se.source_config.clone() });
        assert!(
            swh.data_html.len() >= se.min_data_html_length,
            "Assertion failed: swh.data_html.len() ({}) >= se.min_data_html_length ({})",
            swh.data_html.len(),
            se.min_data_html_length
        );
        assert!(
            swh.version_html.len() >= se.min_version_html_length,
            "Assertion failed: swh.version_html.len() ({}) >= se.min_version_html_length ({})",
            swh.version_html.len(),
            se.min_version_html_length
        );
        assert!(
            swh.data.opts.len() >= se.min_parsed_terms,
            "Assertion failed: swh.data.opts.len() ({}) >= se.min_parsed_terms ({})",
            swh.data.opts.len(),
            se.min_parsed_terms
        );
        println!("Expectations for {} verified", swh.source.inner.name);
    }
}
