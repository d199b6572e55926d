//! Documentation sources: their descriptors, their parsed data, and the
//! classification of cached data against the source currently asked for.

use vstd::prelude::*;

verus! {

use crate::parsing::{OptText, OptTextModel, ParseError, parse_options, parse_version,
    doc_pairs, parsed_count, spec_records, spec_version_of};
use crate::html::{doc_readable, selected_handles};
use crate::rewrite::rewritten;
use crate::text::{lossy_text, str_to_string, str_eq};
use vstd::utf8::encode_utf8;

/// A source descriptor as supplied by configuration: the display name is the
/// identity key, the data URL is where the option list lives, and the
/// optional version URL is where the version string lives when it is not on
/// the data page.
#[derive(Debug, Clone, PartialEq)]
pub struct SourceConfig {
    pub name: String,
    pub url: String,
    pub version_url: Option<String>,
}

/// The mathematical value of a [`SourceConfig`].
pub struct SourceConfigModel {
    pub name: Seq<char>,
    pub url: Seq<char>,
    pub version_url: Option<Seq<char>>,
}

impl SourceConfig {
    pub open spec fn model(&self) -> SourceConfigModel {
        SourceConfigModel {
            name: self.name@,
            url: self.url@,
            version_url: match self.version_url {
                Some(ref v) => Some(v@),
                None => None,
            },
        }
    }

    /// An exact copy of the descriptor.
    pub fn duplicate(&self) -> (r: SourceConfig)
        ensures
            r.model() == self.model(),
    {
        SourceConfig {
            name: self.name.clone(),
            url: self.url.clone(),
            version_url: match &self.version_url {
                Some(v) => Some(v.clone()),
                None => None,
            },
        }
    }
}

/// One tracked documentation source.
#[derive(Debug, Clone, PartialEq)]
pub struct Source {
    pub inner: SourceConfig,
}

/// The data of one source after a successful acquisition: the descriptor it
/// was acquired for, the parsed option records, and the version string.
#[derive(Debug, Clone, PartialEq)]
pub struct SourceData {
    pub source: Source,
    pub opts: Vec<OptText>,
    pub version: String,
}

/// The mathematical value of a [`SourceData`].
pub struct SourceDataModel {
    pub source: SourceConfigModel,
    pub opts: Seq<OptTextModel>,
    pub version: Seq<char>,
}

impl SourceData {
    pub open spec fn model(&self) -> SourceDataModel {
        SourceDataModel {
            source: self.source.model(),
            opts: self.opts@.map_values(|o: OptText| o.model()),
            version: self.version@,
        }
    }
}

/// How trustworthy a decoded cache payload is relative to the source now
/// being asked for, independently of age.
#[derive(Debug, Clone, Copy, PartialEq, Eq, Structural)]
pub enum CacheValidity {
    /// The descriptor matches exactly: use the cache directly.
    Good,
    /// Only the data URL matches: usable, but only when nothing better can
    /// be had.
    Fallback,
    /// The data URL itself differs: the cache belongs to another source.
    Unusable,
}

/// The classification rule behind [`Source::cache_valid`].
pub open spec fn spec_validity(me: SourceConfigModel, payload: SourceConfigModel) -> CacheValidity {
    if payload == me {
        CacheValidity::Good
    } else if payload.url == me.url {
        CacheValidity::Fallback
    } else {
        CacheValidity::Unusable
    }
}

impl Source {
    pub open spec fn model(&self) -> SourceConfigModel {
        self.inner.model()
    }

    /// Wraps a descriptor as a source.
    pub fn from(source: &SourceConfig) -> (r: Source)
        ensures
            r.model() == source.model(),
    {
        Source { inner: source.duplicate() }
    }

    /// An exact copy of this source.
    pub fn duplicate(&self) -> (r: Source)
        ensures
            r.model() == self.model(),
    {
        Source { inner: self.inner.duplicate() }
    }

    /// The URL of the page holding the option list.
    pub fn url(&self) -> (r: &str)
        ensures
            r@ == self.model().url,
    {
        self.inner.url.as_str()
    }

    /// The URL from which the version string is read: the version URL when
    /// one is configured, the data URL otherwise.
    pub fn version_url(&self) -> (r: &str)
        ensures
            r@ == match self.model().version_url {
                Some(v) => v,
                None => self.model().url,
            },
    {
        match &self.inner.version_url {
            Some(v) => v.as_str(),
            None => self.inner.url.as_str(),
        }
    }

    /// The display name of this source.
    pub fn name(&self) -> (r: String)
        ensures
            r@ == self.model().name,
    {
        self.inner.name.clone()
    }

    /// The deep link into the documentation page for one option record:
    /// the data URL, a fragment mark, and the record's element identifier.
    pub fn doc_url_to(&self, opt: &OptText) -> (r: String)
        ensures
            r@ == self.model().url + "#"@ + opt.id@,
    {
        let head = crate::text::concat_str(self.inner.url.as_str(), "#");
        crate::text::concat_str(head.as_str(), opt.id.as_str())
    }

    /// The cache file path for this source under the given cache directory:
    /// one file per source, named after the source.
    pub fn cache_path(&self, cache_dir: &str) -> (r: String)
        ensures
            r@ == cache_dir@ + "/"@ + self.model().name + ".zst"@,
    {
        let a = crate::text::concat_str(cache_dir, "/");
        let b = crate::text::concat_str(a.as_str(), self.inner.name.as_str());
        crate::text::concat_str(b.as_str(), ".zst")
    }

    /// Whether the version string is read off the data page itself: true
    /// exactly when no separate version URL is configured or it equals the
    /// data URL.
    pub fn uses_data_page_for_version(&self) -> (r: bool)
        ensures
            r == (match self.model().version_url {
                Some(v) => v,
                None => self.model().url,
            } == self.model().url),
    {
        match &self.inner.version_url {
            Some(v) => str_eq(v.as_str(), self.inner.url.as_str()),
            None => true,
        }
    }

    /// Parses a source's fetched pages into its data: the option records
    /// from the data page, the version string from the version page, the
    /// per-source rewrite rule applied last. An empty record list counts as
    /// a parser failure, so a success always carries records; a version
    /// that cannot be read is replaced by a placeholder, never an error.
    pub fn parse_data(&self, data_html: &str, version_html: &str) -> (r: Result<
        SourceData,
        ParseError,
    >)
        ensures
            (r is Ok) <==> spec_parse_data_succeeds(data_html@),
            r matches Ok(d) ==> d.model() == spec_apply_rewrite(
                SourceDataModel {
                    source: self.model(),
                    opts: spec_records(doc_pairs(data_html@)),
                    version: spec_parsed_version(version_html@),
                },
            ) && d.opts@.len() > 0 && d.source.model() == self.model(),
            (r matches Err(ParseError::NoRecords)) <==> (doc_readable(data_html@)
                && selected_handles(data_html@, "dt"@).len() == selected_handles(
                data_html@,
                "dd"@,
            ).len() && parsed_count(doc_pairs(data_html@)) == 0),
    {
        let opts = match parse_options(data_html) {
            Ok(o) => o,
            Err(e) => {
                proof {
                    // A parse error means the page was unreadable or its
                    // blocks did not pair up, so acquisition cannot succeed.
                    assert(!(doc_readable(data_html@) && selected_handles(data_html@, "dt"@).len()
                        == selected_handles(data_html@, "dd"@).len()));
                }
                return Err(e);
            },
        };
        if opts.len() == 0 {
            return Err(ParseError::NoRecords);
        }
        let version = match parse_version(version_html) {
            Ok(Some(v)) => v,
            Ok(None) => str_to_string("No version number found"),
            Err(_) => str_to_string("Error parsing version"),
        };
        assert(version@ == spec_parsed_version(version_html@));
        let data = SourceData { source: self.duplicate(), opts, version };
        let ghost dm = data.model();
        let rewritten_data = apply_rewrite_rules(data);
        proof {
            assert(rewritten_data.model() == spec_apply_rewrite(dm));
            assert(rewritten_data.model().opts.len() == rewritten_data.opts@.len());
        }
        Ok(rewritten_data)
    }

    /// Classifies a decoded cache payload against this source: `Good` when
    /// the descriptor matches exactly, `Fallback` when only the data URL
    /// matches, `Unusable` otherwise.
    pub fn cache_valid(&self, data: &SourceData) -> (r: CacheValidity)
        ensures
            r == spec_validity(self.model(), data.source.model()),
    {
        let mine = &self.inner;
        let theirs = &data.source.inner;
        let urls_match = crate::text::str_eq(theirs.url.as_str(), mine.url.as_str());
        let names_match = crate::text::str_eq(theirs.name.as_str(), mine.name.as_str());
        let versions_match = match (&theirs.version_url, &mine.version_url) {
            (Some(a), Some(b)) => crate::text::str_eq(a.as_str(), b.as_str()),
            (None, None) => true,
            _ => false,
        };
        if urls_match && names_match && versions_match {
            assert(data.source.model() == self.model());
            CacheValidity::Good
        } else if urls_match {
            assert(data.source.model() != self.model());
            CacheValidity::Fallback
        } else {
            CacheValidity::Unusable
        }
    }
}

/// Acquisition parses successfully exactly when the data page is readable,
/// its term and definition blocks pair up, and at least one pair parses:
/// an empty record list is a parser failure, never a result.
pub open spec fn spec_parse_data_succeeds(data_html: Seq<char>) -> bool {
    &&& doc_readable(data_html)
    &&& selected_handles(data_html, "dt"@).len() == selected_handles(data_html, "dd"@).len()
    &&& parsed_count(doc_pairs(data_html)) > 0
}

/// The version string recorded with acquired data: what the version page
/// yields, or the fixed placeholder when it yields nothing, or the fixed
/// error text when the page is unreadable — never a failure.
pub open spec fn spec_parsed_version(version_html: Seq<char>) -> Seq<char> {
    if !doc_readable(version_html) {
        "Error parsing version"@
    } else {
        match spec_version_of(version_html) {
            Some(v) => v,
            None => "No version number found"@,
        }
    }
}

/// Validity classification: a payload whose descriptor is identical to the
/// queried source classifies `Good`; one whose data URL matches while the
/// rest differs classifies `Fallback`; one with a different data URL
/// classifies `Unusable` — each exactly, and nothing else.
pub proof fn lemma_validity_classification(me: SourceConfigModel, payload: SourceConfigModel)
    ensures
        (spec_validity(me, payload) == CacheValidity::Good) <==> payload == me,
        (spec_validity(me, payload) == CacheValidity::Fallback) <==> (payload != me && payload.url
            == me.url),
        (spec_validity(me, payload) == CacheValidity::Unusable) <==> payload.url != me.url,
{
    if payload == me {
        assert(payload.url == me.url);
    }
}

/// A declared-by URL after the release-branch rewrite.
pub open spec fn rewritten_url(u: Seq<char>) -> Seq<char> {
    lossy_text(rewritten(encode_utf8(u)))
}

/// A record after the release-branch rewrite: only the declared-by URLs
/// change.
pub open spec fn rewritten_record(m: OptTextModel) -> OptTextModel {
    OptTextModel {
        id: m.id,
        name: m.name,
        description: m.description,
        var_type: m.var_type,
        default: m.default,
        example: m.example,
        declared_by: m.declared_by,
        declared_by_urls: m.declared_by_urls.map_values(|u: Seq<char>| rewritten_url(u)),
    }
}

/// The identity key of the one source whose declared-by links need the
/// release-branch rewrite.
pub open spec fn spec_rewrite_rule_applies(c: SourceConfigModel) -> bool {
    c.name == "NixOS Unstable"@
}

/// The rewrite-rule table, keyed by source identity: whether a rule exists
/// for this descriptor.
pub fn rewrite_rule_applies(source: &SourceConfig) -> (r: bool)
    ensures
        r == spec_rewrite_rule_applies(source.model()),
{
    str_eq(source.name.as_str(), "NixOS Unstable")
}

/// A source's data after its rewrite rule, if any, has run.
pub open spec fn spec_apply_rewrite(m: SourceDataModel) -> SourceDataModel {
    if spec_rewrite_rule_applies(m.source) {
        SourceDataModel {
            source: m.source,
            opts: m.opts.map_values(|o: OptTextModel| rewritten_record(o)),
            version: m.version,
        }
    } else {
        m
    }
}

/// One record with the release-branch rewrite applied to its declared-by
/// URLs.
fn rewrite_record(o: &OptText) -> (r: OptText)
    ensures
        r.model() == rewritten_record(o.model()),
{
    let ghost us = o.declared_by_urls.deep_view();
    let mut urls: Vec<String> = Vec::new();
    let mut i: usize = 0;
    while i < o.declared_by_urls.len()
        invariant
            0 <= i <= o.declared_by_urls@.len(),
            us == o.declared_by_urls.deep_view(),
            urls@.len() == i,
            forall|k: int|
                0 <= k < i ==> #[trigger] urls.deep_view()[k] == rewritten_url(us[k]),
        decreases o.declared_by_urls@.len() - i,
    {
        let ghost prev = urls.deep_view();
        urls.push(crate::rewrite::rewrite_release_branches(o.declared_by_urls[i].as_str()));
        proof {
            assert(us[i as int] == o.declared_by_urls@[i as int]@);
            assert(urls.deep_view() =~= prev.push(rewritten_url(us[i as int])));
        }
        i = i + 1;
    }
    let r = OptText {
        id: o.id.clone(),
        name: o.name.clone(),
        description: o.description.clone(),
        var_type: o.var_type.clone(),
        default: o.default.clone(),
        example: o.example.clone(),
        declared_by: o.declared_by.clone(),
        declared_by_urls: urls,
    };
    proof {
        assert(r.declared_by_urls.deep_view() =~= us.map_values(|u: Seq<char>| rewritten_url(u)));
    }
    r
}

/// Runs the source's rewrite rule, where the table holds one for it: for
/// the unstable channel every declared-by URL has its release-branch name
/// replaced by the floating branch name, and nothing else changes.
pub fn apply_rewrite_rules(data: SourceData) -> (r: SourceData)
    ensures
        r.model() == spec_apply_rewrite(data.model()),
{
    if !rewrite_rule_applies(&data.source.inner) {
        return data;
    }
    let ghost om = data.opts@.map_values(|o: OptText| o.model());
    let mut opts: Vec<OptText> = Vec::new();
    let mut i: usize = 0;
    while i < data.opts.len()
        invariant
            0 <= i <= data.opts@.len(),
            om == data.opts@.map_values(|o: OptText| o.model()),
            opts@.len() == i,
            forall|k: int|
                0 <= k < i ==> (#[trigger] opts@[k]).model() == rewritten_record(om[k]),
        decreases data.opts@.len() - i,
    {
        opts.push(rewrite_record(&data.opts[i]));
        proof {
            assert(opts@[i as int].model() == rewritten_record(om[i as int]));
        }
        i = i + 1;
    }
    let r = SourceData { source: data.source, opts, version: data.version };
    proof {
        assert(r.opts@.map_values(|o: OptText| o.model()) =~= om.map_values(
            |o: OptTextModel| rewritten_record(o),
        ));
    }
    r
}

} // verus!
