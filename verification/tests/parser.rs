//! Tests of the HTML-to-record parser and the version extraction.

use nox::parsing::{parse_options, parse_version, version_from_title_text, ParseError};
use nox::source::{Source, SourceConfig};

fn fixture_source(name: &str, url: &str, version_url: Option<&str>) -> Source {
    Source {
        inner: SourceConfig {
            name: name.to_string(),
            url: url.to_string(),
            version_url: version_url.map(|v| v.to_string()),
        },
    }
}

fn entry(name: &str) -> String {
    format!(
        "<dt><a id=\"opt-{name}\"><code>{name}</code></a></dt>\
         <dd><p>Describes {name} at length.</p>\
         <p><span class=\"emphasis\"><em>Type:</em></span> boolean</p>\
         <p><span class=\"emphasis\"><em>Default:</em></span> false</p>\
         <p><span class=\"emphasis\"><em>Example:</em></span> true</p>\
         <p><span class=\"emphasis\"><em>Declared by:</em></span> \
         <a class=\"filename\" \
         href=\"https://github.com/nixos/nixpkgs/blob/release-25.11/{name}.nix\">\
         &lt;module&gt;</a></p></dd>",
        name = name
    )
}

fn document(n: usize) -> String {
    let mut body = String::new();
    for i in 0..n {
        body.push_str(&entry(&format!("services.sample{i}.enable")));
    }
    format!(
        "<html><head><title>Sample manual</title></head><body>\
         <div class=\"subtitle\">Version 25.05</div><dl>{body}</dl></body></html>"
    )
}

#[test]
fn single_record_fields() {
    let html = "<dt>Foo</dt><dd>text <span class=\"emphasis\"><em>Type:</em></span> bool \
                <span class=\"emphasis\"><em>Default:</em></span> false</dd>";
    let opts = parse_options(html).expect("fixture parses");
    assert_eq!(opts.len(), 1);
    let o = &opts[0];
    assert_eq!(o.name, "Foo");
    assert_eq!(o.description, "text");
    assert_eq!(o.var_type, "bool");
    assert_eq!(o.default, "false");
    assert_eq!(o.example, "");
    assert_eq!(o.declared_by, "");
    assert!(o.declared_by_urls.is_empty());
}

#[test]
fn pair_count_matches_document() {
    for n in [1usize, 2, 5, 17] {
        let opts = parse_options(&document(n)).expect("fixture parses");
        assert_eq!(opts.len(), n);
    }
}

#[test]
fn record_fields_from_full_entry() {
    let opts = parse_options(&document(3)).expect("fixture parses");
    let o = &opts[1];
    assert_eq!(o.id, "opt-services.sample1.enable");
    assert_eq!(o.name, "services.sample1.enable");
    assert_eq!(o.description, "Describes services.sample1.enable at length.");
    assert_eq!(o.var_type, "boolean");
    assert_eq!(o.default, "false");
    assert_eq!(o.example, "true");
    assert_eq!(o.declared_by, "<module>");
    assert_eq!(
        o.declared_by_urls,
        vec![
            "https://github.com/nixos/nixpkgs/blob/release-25.11/services.sample1.enable.nix"
                .to_string()
        ]
    );
}

#[test]
fn tag_count_mismatch_is_an_error() {
    let html = "<dl><dt>one</dt><dd><p>a</p></dd><dt>two</dt></dl>";
    match parse_options(html) {
        Err(ParseError::TagCountMismatch { terms, definitions }) => {
            assert_eq!(terms, 2);
            assert_eq!(definitions, 1);
        },
        other => panic!("expected a tag-count mismatch, got {other:?}"),
    }
}

#[test]
fn empty_document_gives_no_records_error_from_parse_data() {
    let s = fixture_source("Sample", "https://example.invalid/x", None);
    let err = s
        .parse_data("<html><body><p>nothing here</p></body></html>", "<html></html>")
        .expect_err("no records should be an error");
    assert_eq!(err, ParseError::NoRecords);
}

#[test]
fn parse_version_prefers_subtitle() {
    let v = parse_version(&document(1)).expect("parses");
    assert_eq!(v, Some("Version 25.05".to_string()));
}

#[test]
fn parse_version_falls_back_to_title_semver() {
    let html = "<html><head><title>Nix 2.28.1 Reference Manual</title></head>\
                <body><p>no subtitle here</p></body></html>";
    let v = parse_version(html).expect("parses");
    assert_eq!(v, Some("Version 2.28.1".to_string()));
}

#[test]
fn parse_version_none_when_nothing_found() {
    let html = "<html><head><title>No numbers here</title></head><body></body></html>";
    let v = parse_version(html).expect("parses");
    assert_eq!(v, None);
}

#[test]
fn title_semver_variants() {
    let cases: Vec<(&str, Option<&str>)> = vec![
        ("nox 1.2.3", Some("Version 1.2.3")),
        ("v1.0.0-rc.1+build.5 docs", Some("Version 1.0.0-rc.1+build.5")),
        // A leading zero cannot open a numeric field, so the match starts
        // one byte later.
        ("01.2.3", Some("Version 1.2.3")),
        // A pre-release identifier starting with the digit zero ends there.
        ("1.2.3-0alpha", Some("Version 1.2.3-0")),
        ("1.2.03 tail", Some("Version 1.2.0")),
        ("nothing", None),
        ("1.2", None),
    ];
    for (title, expected) in cases {
        let got = version_from_title_text(title.as_bytes());
        assert_eq!(got.as_deref(), expected, "title: {title:?}");
    }
}

#[test]
fn unstable_rewrite_changes_declared_by_urls() {
    let s = fixture_source(
        "NixOS Unstable",
        "https://nixos.org/manual/nixos/unstable/options",
        Some("https://nixos.org/manual/nixos/unstable/"),
    );
    let data = s
        .parse_data(&document(2), &document(1))
        .expect("fixture parses");
    for o in &data.opts {
        assert_eq!(o.declared_by_urls.len(), 1);
        assert!(
            o.declared_by_urls[0].contains("/blob/nixos-unstable/"),
            "rewritten url: {}",
            o.declared_by_urls[0]
        );
        assert!(!o.declared_by_urls[0].contains("release-25.11"));
    }
}

#[test]
fn other_sources_keep_declared_by_urls() {
    let s = fixture_source("NixOS", "https://nixos.org/manual/nixos/stable/options", None);
    let data = s.parse_data(&document(2), &document(1)).expect("fixture parses");
    for o in &data.opts {
        assert!(o.declared_by_urls[0].contains("release-25.11"));
    }
}

#[test]
fn test_doc_urls_trimmed() {
    let s = fixture_source("Sample", "https://example.invalid/manual.html", None);
    let data = s.parse_data(&document(4), &document(1)).expect("Can get data");
    for opt in &data.opts {
        let url = s.doc_url_to(opt);
        assert_eq!(url, url.trim());
        assert_ne!(url.chars().last(), Some('\n'));
    }
}
