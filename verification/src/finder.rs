//! The per-source search index: a fuzzy-match engine owning the source's
//! records, fed once by a background acquisition, and queried incrementally.
//!
//! The engine itself is the outside matcher; what it holds and what a
//! settled match returns are named by the spec functions below, and every
//! operation is specified against those names. The matcher documents its
//! append flag as a pure optimization — the caller promises the old pattern
//! is a prefix of the new one, and the settled result set depends on the
//! corpus and the pattern alone — which is exactly what
//! [`lemma_append_matches_change`] states.

use vstd::prelude::*;

verus! {

use crate::cache::FetchError;
use crate::parsing::{OptText, OptTextModel};
use crate::source::{Source, SourceData};
use crate::text::str_to_string;

/// Classification of how the search pattern changed since the previous
/// query, used to pick the cheapest sufficient re-scoring pass.
#[derive(Debug, Clone, Copy, PartialEq, Eq, Structural)]
pub enum InputStatus {
    Unchanged,
    Append,
    Change,
}

/// The fuzzy-match engine type of the outside matcher, declared so that a
/// value of it can be owned and named; verification sees nothing inside it.
#[verifier::external_type_specification]
#[verifier::external_body]
#[verifier::reject_recursive_types(T)]
pub struct ExNucleo<T: Sync + Send + 'static>(nucleo::Nucleo<T>);

/// The records the engine holds, in insertion order.
pub uninterp spec fn engine_items(e: nucleo::Nucleo<OptText>) -> Seq<OptTextModel>;

/// The pattern the engine currently scores against.
pub uninterp spec fn engine_pattern(e: nucleo::Nucleo<OptText>) -> Seq<char>;

/// The engine's current snapshot: the matched records in match order, as
/// far as scoring has advanced.
pub uninterp spec fn engine_snapshot(e: nucleo::Nucleo<OptText>) -> Seq<OptTextModel>;

/// The settled match result: the records of `items` that match `pattern`,
/// ordered by descending score. A function of the corpus and the pattern
/// alone — the engine's scoring and its tie-breaks read nothing else.
pub uninterp spec fn matched(items: Seq<OptTextModel>, pattern: Seq<char>) -> Seq<OptTextModel>;

/// `s` cut down to at most `max` records, from the front.
pub open spec fn take_at_most(s: Seq<OptTextModel>, max: Option<usize>) -> Seq<OptTextModel> {
    match max {
        Some(m) => if s.len() <= m {
            s
        } else {
            s.take(m as int)
        },
        None => s,
    }
}

/// Relies on `nucleo::Nucleo::new`: a fresh engine holds no records and an
/// empty pattern. One worker thread scores a single matching column.
#[verifier::external_body]
fn engine_new() -> (e: nucleo::Nucleo<OptText>)
    ensures
        engine_items(e) == Seq::<OptTextModel>::empty(),
        engine_pattern(e) == Seq::<char>::empty(),
{
    nucleo::Nucleo::new(
        nucleo::Config::DEFAULT,
        std::sync::Arc::new(|| {
        }),
        Some(1),
        1,
    )
}

/// Relies on `nucleo::Injector::push`: appends one record to the engine's
/// corpus; its searchable text is the record's name.
#[verifier::external_body]
fn engine_push(e: &mut nucleo::Nucleo<OptText>, item: &OptText)
    ensures
        engine_items(*final (e)) == engine_items(*old(e)).push(item.model()),
        engine_pattern(*final (e)) == engine_pattern(*old(e)),
{
    e.injector().push(item.clone(), |d, cols| cols[0] = d.name.clone().into());
}

/// Relies on `nucleo::pattern::MultiPattern::reparse`: replaces the engine's
/// pattern. The append flag is a promise that the old pattern is a prefix of
/// the new text; the matcher documents it as enabling an optimization only,
/// so the settled results are unaffected by it.
#[verifier::external_body]
fn engine_reparse(e: &mut nucleo::Nucleo<OptText>, pattern: &str, append: bool)
    requires
        append ==> engine_pattern(*old(e)) == pattern@.take(engine_pattern(*old(e)).len() as int),
    ensures
        engine_pattern(*final (e)) == pattern@,
        engine_items(*final (e)) == engine_items(*old(e)),
{
    e.pattern.reparse(
        0,
        pattern,
        nucleo::pattern::CaseMatching::Ignore,
        nucleo::pattern::Normalization::Smart,
        append,
    );
}

/// Relies on `nucleo::Nucleo::tick`: one scoring step bounded by the
/// timeout. When it reports nothing running, every injected record has been
/// scored and the snapshot is the settled match of the corpus against the
/// pattern.
#[verifier::external_body]
fn engine_tick(e: &mut nucleo::Nucleo<OptText>, timeout_ms: u64) -> (running: bool)
    ensures
        engine_items(*final (e)) == engine_items(*old(e)),
        engine_pattern(*final (e)) == engine_pattern(*old(e)),
        !running ==> engine_snapshot(*final (e)) == matched(
            engine_items(*old(e)),
            engine_pattern(*old(e)),
        ),
{
    e.tick(timeout_ms).running
}

/// Relies on `nucleo::Snapshot::matched_items`: the snapshot's records in
/// match order, cut to `max` when one is given.
#[verifier::external_body]
fn engine_results(e: &nucleo::Nucleo<OptText>, max: Option<usize>) -> (r: Vec<OptText>)
    ensures
        r@.map_values(|o: OptText| o.model()) == take_at_most(engine_snapshot(*e), max),
{
    let snap = e.snapshot();
    let n = snap.matched_item_count();
    let it = snap.matched_items(0..n).map(|item| item.data.clone());
    match max {
        Some(m) => it.take(m).collect(),
        None => it.collect(),
    }
}

/// One source's search index: its engine, the version slot written once by
/// population, the pattern last applied, and the one-time readiness flag.
pub struct Finder {
    source: Source,
    version: Option<String>,
    engine: nucleo::Nucleo<OptText>,
    pattern: String,
    ready: bool,
}

impl Finder {
    /// The index is coherent: the pattern it records is the pattern its
    /// engine scores against.
    pub closed spec fn wf(&self) -> bool {
        engine_pattern(self.engine) == self.pattern@
    }

    /// The engine's corpus.
    pub closed spec fn items(&self) -> Seq<OptTextModel> {
        engine_items(self.engine)
    }

    /// The pattern last applied.
    pub closed spec fn pattern_model(&self) -> Seq<char> {
        self.pattern@
    }

    /// The engine's current snapshot.
    pub closed spec fn snapshot_model(&self) -> Seq<OptTextModel> {
        engine_snapshot(self.engine)
    }

    /// Population has completed, with or without data.
    pub closed spec fn is_ready(&self) -> bool {
        self.ready
    }

    pub closed spec fn source_model(&self) -> crate::source::SourceConfigModel {
        self.source.model()
    }

    pub closed spec fn version_model(&self) -> Option<Seq<char>> {
        match self.version {
            Some(ref v) => Some(v@),
            None => None,
        }
    }

    /// A fresh index for one source: immediately queryable, no records yet,
    /// not ready until population completes.
    pub fn new(source: Source) -> (r: Finder)
        ensures
            r.wf(),
            !r.is_ready(),
            r.items() == Seq::<OptTextModel>::empty(),
            r.pattern_model() == Seq::<char>::empty(),
            r.version_model() is None,
            r.source_model() == source.model(),
    {
        Finder {
            source,
            version: None,
            engine: engine_new(),
            pattern: String::new(),
            ready: false,
        }
    }

    /// The display name of the index's source.
    pub fn name(&self) -> (r: String)
        ensures
            r@ == self.source_model().name,
    {
        self.source.name()
    }

    /// The data URL of the index's source.
    pub fn url(&self) -> (r: &str)
        ensures
            r@ == self.source_model().url,
    {
        self.source.url()
    }

    /// The version string recorded by population, or the placeholder while
    /// none has been recorded yet.
    pub fn version(&self) -> (r: &str)
        ensures
            match self.version_model() {
                Some(v) => r@ == v,
                None => r@ == "Version number not found (yet)"@,
            },
    {
        match &self.version {
            Some(v) => v.as_str(),
            None => "Version number not found (yet)",
        }
    }

    /// The deep link into the source's documentation for one record.
    pub fn doc_url_to(&self, opt: &OptText) -> (r: String)
        ensures
            r@ == self.source_model().url + "#"@ + opt.id@,
    {
        self.source.doc_url_to(opt)
    }

    /// Injects the outcome of the background acquisition, exactly once: on
    /// success every record joins the corpus in order and the version string
    /// is recorded; on failure the corpus stays as it was and the version
    /// slot records the failure.
    pub fn populate(&mut self, outcome: Result<SourceData, FetchError>)
        requires
            old(self).wf(),
            !old(self).is_ready(),
        ensures
            final (self).wf(),
            final (self).is_ready(),
            final (self).pattern_model() == old(self).pattern_model(),
            final (self).source_model() == old(self).source_model(),
            match outcome {
                Ok(d) => final (self).items() == old(self).items() + d.opts@.map_values(
                    |o: OptText| o.model(),
                ) && final (self).version_model() == Some(d.version@),
                Err(_) => final (self).items() == old(self).items()
                    && final (self).version_model() == Some("Failed to get data"@),
            },
    {
        match outcome {
            Ok(d) => {
                let ghost om = d.opts@.map_values(|o: OptText| o.model());
                let ghost items0 = engine_items(self.engine);
                let mut i: usize = 0;
                proof {
                    assert(items0 + om.take(0) =~= items0) by {
                        assert(om.take(0) =~= Seq::<OptTextModel>::empty());
                    }
                }
                while i < d.opts.len()
                    invariant
                        0 <= i <= d.opts@.len(),
                        om == d.opts@.map_values(|o: OptText| o.model()),
                        engine_items(self.engine) == items0 + om.take(i as int),
                        engine_pattern(self.engine) == old(self).pattern@,
                        self.pattern == old(self).pattern,
                        self.source == old(self).source,
                        self.version == old(self).version,
                        self.ready == old(self).ready,
                    decreases d.opts@.len() - i,
                {
                    engine_push(&mut self.engine, &d.opts[i]);
                    proof {
                        assert(om.take(i + 1) =~= om.take(i as int).push(om[i as int]));
                        assert((items0 + om.take(i as int)).push(om[i as int]) =~= items0 + om.take(
                            i + 1,
                        ));
                    }
                    i = i + 1;
                }
                proof {
                    assert(om.take(om.len() as int) =~= om);
                }
                self.version = Some(d.version);
                self.ready = true;
            },
            Err(_) => {
                self.version = Some(str_to_string("Failed to get data"));
                self.ready = true;
            },
        }
    }

    /// Applies one query edit and runs one bounded scoring step. `Unchanged`
    /// leaves the pattern as it is; `Append` — whose caller promises the
    /// old pattern is a prefix of the new one — and `Change` both set the
    /// new pattern, `Append` merely allowing the cheaper re-score.
    pub fn init_search(&mut self, pattern: &str, input_status: InputStatus)
        requires
            old(self).wf(),
            input_status == InputStatus::Append ==> old(self).pattern_model() == pattern@.take(
                old(self).pattern_model().len() as int,
            ),
        ensures
            final (self).wf(),
            final (self).items() == old(self).items(),
            final (self).is_ready() == old(self).is_ready(),
            final (self).source_model() == old(self).source_model(),
            final (self).version_model() == old(self).version_model(),
            final (self).pattern_model() == if input_status == InputStatus::Unchanged {
                old(self).pattern_model()
            } else {
                pattern@
            },
    {
        if !matches!(input_status, InputStatus::Unchanged) {
            engine_reparse(
                &mut self.engine,
                pattern,
                matches!(input_status, InputStatus::Append),
            );
            self.pattern = str_to_string(pattern);
        }
        let _ = engine_tick(&mut self.engine, 10);
    }

    /// The current snapshot's records in match order, cut to `max`. Before
    /// scoring settles the snapshot may trail the corpus; a settled snapshot
    /// is the full match, as [`find_blocking`](Self::find_blocking) states.
    pub fn get_results(&self, max: Option<usize>) -> (r: Vec<OptText>)
        ensures
            r@.map_values(|o: OptText| o.model()) == take_at_most(self.snapshot_model(), max),
    {
        engine_results(&self.engine, max)
    }

    /// Applies the pattern as a full re-score and drives the engine until
    /// scoring settles, then returns the settled results: exactly the match
    /// of the corpus against the pattern, cut to `max`.
    pub fn find_blocking(&mut self, pattern: &str, max: Option<usize>) -> (r: Result<
        Vec<OptText>,
        FetchError,
    >)
        requires
            old(self).wf(),
        ensures
            final (self).wf(),
            final (self).items() == old(self).items(),
            final (self).pattern_model() == pattern@,
            final (self).is_ready() == old(self).is_ready(),
            final (self).version_model() == old(self).version_model(),
            final (self).source_model() == old(self).source_model(),
            match r {
                Ok(v) => v@.map_values(|o: OptText| o.model()) == take_at_most(
                    matched(old(self).items(), pattern@),
                    max,
                ),
                Err(e) => e matches FetchError::BackgroundTaskFailure(_),
            },
    {
        engine_reparse(&mut self.engine, pattern, false);
        self.pattern = str_to_string(pattern);
        let mut fuel: u64 = 0;
        while fuel < 86_400_000
            invariant
                old(self).wf(),
                engine_items(self.engine) == old(self).items(),
                engine_pattern(self.engine) == pattern@,
                self.pattern@ == pattern@,
                self.ready == old(self).ready,
                self.version == old(self).version,
                self.source == old(self).source,
            decreases 86_400_000 - fuel,
        {
            let running = engine_tick(&mut self.engine, 1000);
            if !running {
                let out = engine_results(&self.engine, max);
                return Ok(out);
            }
            fuel = fuel + 1;
        }
        Err(
            FetchError::BackgroundTaskFailure(
                str_to_string("matcher did not settle within the time budget"),
            ),
        )
    }
}

/// The result set that one query edit settles on, over a given corpus: the
/// engine scores the pattern left in place by the edit — the old pattern
/// for `Unchanged`, the new one for `Append` and `Change`.
pub open spec fn edit_outcome(
    items: Seq<OptTextModel>,
    old_pattern: Seq<char>,
    new_pattern: Seq<char>,
    kind: InputStatus,
) -> Seq<OptTextModel> {
    if kind == InputStatus::Unchanged {
        matched(items, old_pattern)
    } else {
        matched(items, new_pattern)
    }
}

/// Monotonic append: for any pattern and any appended suffix, the
/// append-optimized re-score settles on the same result set as a full
/// re-score of the extended pattern, over the same corpus. This holds
/// because the settled match is a function of the corpus and the pattern
/// alone; the append flag only spares re-scoring of already-zero records.
pub proof fn lemma_append_matches_change(
    items: Seq<OptTextModel>,
    pattern: Seq<char>,
    suffix: Seq<char>,
)
    ensures
        edit_outcome(items, pattern, pattern + suffix, InputStatus::Append) == edit_outcome(
            items,
            pattern,
            pattern + suffix,
            InputStatus::Change,
        ),
{
}

} // verus!
