//! The HTML-to-record parser.
//!
//! A documentation page is a sequence of term/definition pairs: the term
//! block names one option, the definition block describes it. A definition
//! is a flat list of child nodes; four fixed marker snippets open its Type,
//! Default, Example and Declared-by sections. The list is cut into maximal
//! runs so that every run after the first begins with a marker node; each
//! run goes to the field its marker names, first match winning, and every
//! unclaimed run joins the description, in original order. The DOM itself is read
//! through the trusted bridge in [`crate::html`]; everything from the node
//! lists onward is verified against the spec functions in this module.

use vstd::prelude::*;

verus! {

use vstd::utf8::encode_utf8;
use vstd::string::StringSliceAdditionalSpecFns;
use crate::html::{Anchor, AnchorModel, Document, dom_parse, doc_query, node_inner_bytes,
    node_outer_bytes, node_children, node_anchors, doc_readable, selected_handles, node_inner,
    node_outer, node_kids, node_links};
use crate::text::{trim_spec, trim_bytes, contains_seq, contains_bytes, strip_prefix_rep,
    strip_prefix_bytes, joined_with_newlines, join_with_newlines, lossy_text, bytes_to_string,
    subrange_vec, str_to_string};
use crate::semver::{first_semver, find_semver};

/// A fully parsed option entity with fields formatted as plain text ready to
/// print.
#[derive(Debug, Clone, PartialEq)]
pub struct OptText {
    pub id: String,
    pub name: String,
    pub description: String,
    pub var_type: String,
    pub default: String,
    pub example: String,
    pub declared_by: String,
    pub declared_by_urls: Vec<String>,
}

/// The mathematical value of an [`OptText`]: each field as its character
/// sequence.
pub struct OptTextModel {
    pub id: Seq<char>,
    pub name: Seq<char>,
    pub description: Seq<char>,
    pub var_type: Seq<char>,
    pub default: Seq<char>,
    pub example: Seq<char>,
    pub declared_by: Seq<char>,
    pub declared_by_urls: Seq<Seq<char>>,
}

impl OptText {
    pub open spec fn model(&self) -> OptTextModel {
        OptTextModel {
            id: self.id@,
            name: self.name@,
            description: self.description@,
            var_type: self.var_type@,
            default: self.default@,
            example: self.example@,
            declared_by: self.declared_by@,
            declared_by_urls: self.declared_by_urls.deep_view(),
        }
    }
}

/// One option entity with each section still in raw markup, before it is
/// rendered down to plain text.
#[derive(Debug, Clone, PartialEq)]
pub struct OptRawHTML {
    pub id: String,
    pub name: String,
    pub description: String,
    pub var_type: String,
    pub default: String,
    pub example: String,
    pub declared_by: String,
    pub declared_by_urls: Vec<String>,
}

/// The mathematical value of an [`OptRawHTML`].
pub struct OptRawHTMLModel {
    pub id: Seq<char>,
    pub name: Seq<char>,
    pub description: Seq<char>,
    pub var_type: Seq<char>,
    pub default: Seq<char>,
    pub example: Seq<char>,
    pub declared_by: Seq<char>,
    pub declared_by_urls: Seq<Seq<char>>,
}

impl OptRawHTML {
    pub open spec fn model(&self) -> OptRawHTMLModel {
        OptRawHTMLModel {
            id: self.id@,
            name: self.name@,
            description: self.description@,
            var_type: self.var_type@,
            default: self.default@,
            example: self.example@,
            declared_by: self.declared_by@,
            declared_by_urls: self.declared_by_urls.deep_view(),
        }
    }
}

/// Why a document could not be parsed into option records.
#[derive(Debug, Clone, PartialEq)]
pub enum ParseError {
    /// The document could not be read as HTML at all.
    BadDocument,
    /// The counts of term and definition blocks differ.
    TagCountMismatch { terms: usize, definitions: usize },
    /// The document parsed but yielded no records at all.
    NoRecords,
}

impl ParseError {
    /// A short description of the failure.
    pub fn message(&self) -> String {
        match self {
            ParseError::BadDocument => str_to_string("input could not be read as an HTML document"),
            ParseError::TagCountMismatch { terms: _, definitions: _ } => str_to_string(
                "counts of term and definition blocks differ",
            ),
            ParseError::NoRecords => str_to_string("document yielded no option records"),
        }
    }
}

/// One top-level node of a definition block, reduced to what the parser
/// reads of it: its outer markup and the links under it.
#[derive(Debug, Clone, PartialEq)]
pub struct TagNode {
    pub outer: Vec<u8>,
    pub anchors: Vec<Anchor>,
}

/// The mathematical value of a [`TagNode`].
pub struct TagNodeModel {
    pub outer: Seq<u8>,
    pub anchors: Seq<AnchorModel>,
}

impl TagNode {
    pub open spec fn model(&self) -> TagNodeModel {
        TagNodeModel {
            outer: self.outer@,
            anchors: self.anchors@.map_values(|a: Anchor| a.model()),
        }
    }

    /// An exact copy of the node.
    pub fn duplicate(&self) -> (r: TagNode)
        ensures
            r.model() == self.model(),
    {
        let mut anchors: Vec<Anchor> = Vec::new();
        let mut i: usize = 0;
        while i < self.anchors.len()
            invariant
                0 <= i <= self.anchors@.len(),
                anchors@.map_values(|a: Anchor| a.model()) == self.anchors@.map_values(
                    |a: Anchor| a.model(),
                ).take(i as int),
            decreases self.anchors@.len() - i,
        {
            anchors.push(self.anchors[i].duplicate());
            proof {
                let ms = self.anchors@.map_values(|a: Anchor| a.model());
                assert(ms.take(i + 1) =~= ms.take(i as int).push(ms[i as int]));
                assert(anchors@.map_values(|a: Anchor| a.model()) =~= ms.take(i + 1));
            }
            i = i + 1;
        }
        proof {
            let ms = self.anchors@.map_values(|a: Anchor| a.model());
            assert(ms.take(ms.len() as int) =~= ms);
        }
        let r = TagNode { outer: dup_bytes(&self.outer), anchors };
        assert(r.model() == self.model());
        r
    }
}

/// An exact copy of a byte vector.
fn dup_bytes(v: &Vec<u8>) -> (r: Vec<u8>)
    ensures
        r@ == v@,
{
    let r = subrange_vec(v.as_slice(), 0, v.len());
    assert(v@.subrange(0, v@.len() as int) =~= v@);
    r
}

/// The marker snippet that opens the Type section.
pub open spec fn marker_type() -> Seq<u8> {
    encode_utf8("<span class=\"emphasis\"><em>Type:</em></span>"@)
}

/// The marker snippet that opens the Default section.
pub open spec fn marker_default() -> Seq<u8> {
    encode_utf8("<span class=\"emphasis\"><em>Default:</em></span>"@)
}

/// The marker snippet that opens the Example section.
pub open spec fn marker_example() -> Seq<u8> {
    encode_utf8("<span class=\"emphasis\"><em>Example:</em></span>"@)
}

/// The marker snippet that opens the Declared-by section.
pub open spec fn marker_declared() -> Seq<u8> {
    encode_utf8("<span class=\"emphasis\"><em>Declared by:</em></span>"@)
}

fn marker_type_bytes() -> (r: &'static [u8])
    ensures
        r@ == marker_type(),
{
    "<span class=\"emphasis\"><em>Type:</em></span>".as_bytes()
}

fn marker_default_bytes() -> (r: &'static [u8])
    ensures
        r@ == marker_default(),
{
    "<span class=\"emphasis\"><em>Default:</em></span>".as_bytes()
}

fn marker_example_bytes() -> (r: &'static [u8])
    ensures
        r@ == marker_example(),
{
    "<span class=\"emphasis\"><em>Example:</em></span>".as_bytes()
}

fn marker_declared_bytes() -> (r: &'static [u8])
    ensures
        r@ == marker_declared(),
{
    "<span class=\"emphasis\"><em>Declared by:</em></span>".as_bytes()
}

/// A node opens a section when its outer markup holds one of the four
/// marker snippets. The outer markup is read so that a marker standing
/// bare as a top-level node counts as well as one nested in a paragraph.
pub open spec fn node_has_marker(n: TagNodeModel) -> bool {
    ||| contains_seq(n.outer, marker_type())
    ||| contains_seq(n.outer, marker_default())
    ||| contains_seq(n.outer, marker_example())
    ||| contains_seq(n.outer, marker_declared())
}

fn node_has_marker_exec(n: &TagNode) -> (r: bool)
    ensures
        r == node_has_marker(n.model()),
{
    contains_bytes(n.outer.as_slice(), marker_type_bytes()) || contains_bytes(
        n.outer.as_slice(),
        marker_default_bytes(),
    ) || contains_bytes(n.outer.as_slice(), marker_example_bytes()) || contains_bytes(
        n.outer.as_slice(),
        marker_declared_bytes(),
    )
}

/// The index of the first marker node at or after `i`, or the length when
/// none follows.
pub open spec fn next_marker(ns: Seq<TagNodeModel>, i: int) -> int
    decreases ns.len() - i,
{
    if !(0 <= i && i < ns.len()) {
        ns.len() as int
    } else if node_has_marker(ns[i]) {
        i
    } else {
        next_marker(ns, i + 1)
    }
}

proof fn lemma_next_marker(ns: Seq<TagNodeModel>, i: int)
    requires
        0 <= i <= ns.len(),
    ensures
        i <= next_marker(ns, i) <= ns.len(),
    decreases ns.len() - i,
{
    if i < ns.len() && !node_has_marker(ns[i]) {
        lemma_next_marker(ns, i + 1);
    }
}

/// The partition of a definition block into maximal runs: every run after
/// the first begins with a marker node, and no run holds a marker node
/// beyond its first position.
pub open spec fn split_runs_from(ns: Seq<TagNodeModel>, i: int) -> Seq<Seq<TagNodeModel>>
    decreases ns.len() - i,
    via split_runs_decreases
{
    if !(0 <= i && i < ns.len()) {
        Seq::empty()
    } else {
        let j = next_marker(ns, i + 1);
        seq![ns.subrange(i, j)] + split_runs_from(ns, j)
    }
}

#[via_fn]
proof fn split_runs_decreases(ns: Seq<TagNodeModel>, i: int) {
    if 0 <= i && i < ns.len() {
        lemma_next_marker(ns, i + 1);
    }
}

pub open spec fn split_runs(ns: Seq<TagNodeModel>) -> Seq<Seq<TagNodeModel>> {
    split_runs_from(ns, 0)
}

/// The model of a run held as a vector of nodes.
pub open spec fn run_model(v: Vec<TagNode>) -> Seq<TagNodeModel> {
    v@.map_values(|n: TagNode| n.model())
}

/// Cuts a definition block into the runs of [`split_runs`].
pub fn split_tags(nodes: &Vec<TagNode>) -> (r: Vec<Vec<TagNode>>)
    ensures
        r@.map_values(|v: Vec<TagNode>| run_model(v)) == split_runs(
            nodes@.map_values(|n: TagNode| n.model()),
        ),
{
    let ghost ns = nodes@.map_values(|n: TagNode| n.model());
    let n: usize = nodes.len();
    let mut r: Vec<Vec<TagNode>> = Vec::new();
    let mut i: usize = 0;
    proof {
        assert(r@.map_values(|v: Vec<TagNode>| run_model(v)) =~= Seq::<Seq<TagNodeModel>>::empty());
        assert(Seq::<Seq<TagNodeModel>>::empty() + split_runs_from(ns, 0) =~= split_runs_from(
            ns,
            0,
        ));
    }
    while i < n
        invariant
            0 <= i <= n,
            n == nodes@.len(),
            ns == nodes@.map_values(|n: TagNode| n.model()),
            split_runs(ns) == r@.map_values(|v: Vec<TagNode>| run_model(v)) + split_runs_from(
                ns,
                i as int,
            ),
        decreases n - i,
    {
        let mut j: usize = i + 1;
        while j < n && !node_has_marker_exec(&nodes[j])
            invariant
                i + 1 <= j <= n,
                n == nodes@.len(),
                ns == nodes@.map_values(|n: TagNode| n.model()),
                next_marker(ns, (i + 1) as int) == next_marker(ns, j as int),
            decreases n - j,
        {
            j = j + 1;
        }
        assert(next_marker(ns, (i + 1) as int) == j as int);
        let mut run: Vec<TagNode> = Vec::new();
        let mut k: usize = i;
        while k < j
            invariant
                i <= k <= j <= n,
                n == nodes@.len(),
                ns == nodes@.map_values(|n: TagNode| n.model()),
                run_model(run) == ns.subrange(i as int, k as int),
            decreases j - k,
        {
            run.push(nodes[k].duplicate());
            proof {
                assert(ns.subrange(i as int, (k + 1) as int) =~= ns.subrange(
                    i as int,
                    k as int,
                ).push(ns[k as int]));
                assert(run_model(run) =~= ns.subrange(i as int, (k + 1) as int));
            }
            k = k + 1;
        }
        let ghost before = r@.map_values(|v: Vec<TagNode>| run_model(v));
        r.push(run);
        proof {
            assert(r@.map_values(|v: Vec<TagNode>| run_model(v)) =~= before.push(
                ns.subrange(i as int, j as int),
            ));
            assert(before.push(ns.subrange(i as int, j as int)) =~= before + seq![
                ns.subrange(i as int, j as int),
            ]);
            assert(before + (seq![ns.subrange(i as int, j as int)] + split_runs_from(ns, j as int))
                =~= (before + seq![ns.subrange(i as int, j as int)]) + split_runs_from(
                ns,
                j as int,
            ));
        }
        i = j;
    }
    proof {
        assert(split_runs_from(ns, n as int) =~= Seq::<Seq<TagNodeModel>>::empty());
        assert(r@.map_values(|v: Vec<TagNode>| run_model(v)) + Seq::<Seq<TagNodeModel>>::empty()
            =~= r@.map_values(|v: Vec<TagNode>| run_model(v)));
    }
    r
}

/// A run claims a marker when its first node's outer markup holds it.
pub open spec fn run_starts_with(run: Seq<TagNodeModel>, marker: Seq<u8>) -> bool {
    run.len() > 0 && contains_seq(run[0].outer, marker)
}

/// The first run at or after `i` that claims the marker.
pub open spec fn find_first_from(runs: Seq<Seq<TagNodeModel>>, marker: Seq<u8>, i: int) -> Option<
    int,
>
    decreases runs.len() - i,
{
    if !(0 <= i && i < runs.len()) {
        None
    } else if run_starts_with(runs[i], marker) {
        Some(i)
    } else {
        find_first_from(runs, marker, i + 1)
    }
}

/// Takes the field run for a marker out of the run list: the first run that
/// claims the marker is removed and handed back; the rest keep their order.
pub open spec fn take_field(runs: Seq<Seq<TagNodeModel>>, marker: Seq<u8>) -> (Option<
    Seq<TagNodeModel>,
>, Seq<Seq<TagNodeModel>>) {
    match find_first_from(runs, marker, 0) {
        None => (None, runs),
        Some(i) => (Some(runs[i]), runs.remove(i)),
    }
}

/// Exact executable counterpart of [`take_field`]: removes and returns the
/// claiming run, or returns an empty run when no run claims the marker.
pub fn get_field_by_separator(runs: &mut Vec<Vec<TagNode>>, marker: &[u8]) -> (r: Vec<TagNode>)
    ensures
        ({
            let (f, rest) = take_field(
                old(runs)@.map_values(|v: Vec<TagNode>| run_model(v)),
                marker@,
            );
            &&& final(runs)@.map_values(|v: Vec<TagNode>| run_model(v)) == rest
            &&& run_model(r) == match f {
                Some(run) => run,
                None => Seq::<TagNodeModel>::empty(),
            }
        }),
{
    let ghost rs = runs@.map_values(|v: Vec<TagNode>| run_model(v));
    let n: usize = runs.len();
    let mut i: usize = 0;
    while i < n
        invariant
            0 <= i <= n,
            n == runs@.len(),
            runs@ == old(runs)@,
            rs == runs@.map_values(|v: Vec<TagNode>| run_model(v)),
            find_first_from(rs, marker@, 0) == find_first_from(rs, marker@, i as int),
        decreases n - i,
    {
        let claims = runs[i].len() > 0 && contains_bytes(runs[i][0].outer.as_slice(), marker);
        proof {
            if runs@[i as int]@.len() > 0 {
                assert(rs[i as int][0] == runs@[i as int]@[0].model());
            }
        }
        if claims {
            assert(find_first_from(rs, marker@, i as int) == Some(i as int));
            let r = runs.remove(i);
            proof {
                assert(runs@.map_values(|v: Vec<TagNode>| run_model(v)) =~= rs.remove(i as int));
                assert(run_model(r) == rs[i as int]);
            }
            return r;
        }
        i = i + 1;
    }
    assert(find_first_from(rs, marker@, n as int) is None);
    let r: Vec<TagNode> = Vec::new();
    assert(run_model(r) =~= Seq::<TagNodeModel>::empty());
    r
}

/// The leftover runs joined back into one node list, in their original
/// order.
pub open spec fn concat_runs(runs: Seq<Seq<TagNodeModel>>) -> Seq<TagNodeModel>
    decreases runs.len(),
{
    if runs.len() == 0 {
        Seq::empty()
    } else {
        concat_runs(runs.drop_last()) + runs.last()
    }
}

/// Exact executable counterpart of [`concat_runs`].
pub fn concat_runs_exec(runs: Vec<Vec<TagNode>>) -> (r: Vec<TagNode>)
    ensures
        run_model(r) == concat_runs(runs@.map_values(|v: Vec<TagNode>| run_model(v))),
{
    let ghost rs = runs@.map_values(|v: Vec<TagNode>| run_model(v));
    let mut out: Vec<TagNode> = Vec::new();
    let mut i: usize = 0;
    proof {
        assert(run_model(out) =~= Seq::<TagNodeModel>::empty());
        assert(concat_runs(rs.take(0)) =~= Seq::<TagNodeModel>::empty()) by {
            assert(rs.take(0) =~= Seq::<Seq<TagNodeModel>>::empty());
        }
    }
    while i < runs.len()
        invariant
            0 <= i <= runs@.len(),
            rs == runs@.map_values(|v: Vec<TagNode>| run_model(v)),
            run_model(out) == concat_runs(rs.take(i as int)),
        decreases runs@.len() - i,
    {
        let run = &runs[i];
        let mut k: usize = 0;
        while k < run.len()
            invariant
                0 <= k <= run@.len(),
                run == runs@[i as int],
                0 <= i < runs@.len(),
                rs == runs@.map_values(|v: Vec<TagNode>| run_model(v)),
                run_model(out) == concat_runs(rs.take(i as int)) + rs[i as int].take(k as int),
            decreases run@.len() - k,
        {
            let ghost prev = run_model(out);
            out.push(run[k].duplicate());
            proof {
                assert(rs[i as int] == run_model(runs@[i as int]));
                assert(rs[i as int][k as int] == run@[k as int].model());
                assert(run_model(out) =~= prev.push(rs[i as int][k as int]));
                assert(rs[i as int].take(k + 1) =~= rs[i as int].take(k as int).push(
                    rs[i as int][k as int],
                ));
                assert(run_model(out) =~= concat_runs(rs.take(i as int)) + rs[i as int].take(k + 1));
            }
            k = k + 1;
        }
        proof {
            assert(rs[i as int].take(rs[i as int].len() as int) =~= rs[i as int]);
            assert(rs.take(i + 1).drop_last() =~= rs.take(i as int));
            assert(rs.take(i + 1).last() == rs[i as int]);
        }
        i = i + 1;
    }
    proof {
        assert(rs.take(rs.len() as int) =~= rs);
    }
    out
}

/// The raw markup of a field: the nodes' outer markup joined with newlines,
/// trimmed, read as text.
pub open spec fn raw_field(run: Seq<TagNodeModel>) -> Seq<char> {
    lossy_text(trim_spec(joined_with_newlines(run.map_values(|n: TagNodeModel| n.outer))))
}

/// Exact executable counterpart of [`raw_field`].
pub fn field_to_raw_html(run: &Vec<TagNode>) -> (r: String)
    ensures
        r@ == raw_field(run_model(*run)),
{
    let mut outers: Vec<Vec<u8>> = Vec::new();
    let mut i: usize = 0;
    while i < run.len()
        invariant
            0 <= i <= run@.len(),
            outers@.map_values(|v: Vec<u8>| v@) == run_model(*run).map_values(
                |n: TagNodeModel| n.outer,
            ).take(i as int),
        decreases run@.len() - i,
    {
        outers.push(dup_bytes(&run[i].outer));
        proof {
            let os = run_model(*run).map_values(|n: TagNodeModel| n.outer);
            assert(os.take(i + 1) =~= os.take(i as int).push(os[i as int]));
            assert(outers@.map_values(|v: Vec<u8>| v@) =~= os.take(i + 1));
        }
        i = i + 1;
    }
    proof {
        let os = run_model(*run).map_values(|n: TagNodeModel| n.outer);
        assert(os.take(os.len() as int) =~= os);
    }
    let joined = join_with_newlines(&outers);
    let trimmed = trim_bytes(joined.as_slice());
    bytes_to_string(trimmed.as_slice())
}

/// What `html2text` renders the given markup to, if it renders at all.
pub uninterp spec fn rendered(b: Seq<u8>) -> Option<Seq<u8>>;

/// Relies on `html2text::from_read_with_decorator` with the trivial
/// decorator and a fixed width: the rendered text is a function of the
/// input bytes alone.
#[verifier::external_body]
fn render_plain(b: &[u8]) -> (r: Option<Vec<u8>>)
    ensures
        (match r {
            Some(v) => Some(v@),
            None => None::<Seq<u8>>,
        }) == rendered(b@),
{
    html2text::from_read_with_decorator(b, 10000, html2text::render::TrivialDecorator::new())
        .ok()
        .map(|s| s.into_bytes())
}

/// The rendering of `b`, or `b` itself where rendering fails.
pub open spec fn render_or_self(b: Seq<u8>) -> Seq<u8> {
    match rendered(b) {
        Some(v) => v,
        None => b,
    }
}

/// A field's final text: the raw markup rendered to plain text, stripped of
/// every leading copy of the field's label, trimmed, and read as text.
pub open spec fn cooked_text(s: Seq<char>, prefix: Seq<u8>) -> Seq<char> {
    lossy_text(trim_spec(strip_prefix_rep(render_or_self(encode_utf8(s)), prefix)))
}

/// Exact executable counterpart of [`cooked_text`].
pub fn read_html_strip_prefix(s: &str, prefix: &[u8]) -> (r: String)
    ensures
        r@ == cooked_text(s@, prefix@),
{
    let raw = s.as_bytes();
    let rendered_bytes = match render_plain(raw) {
        Some(v) => v,
        None => vstd::slice::slice_to_vec(raw),
    };
    let stripped = strip_prefix_bytes(rendered_bytes, prefix);
    let trimmed = trim_bytes(stripped.as_slice());
    bytes_to_string(trimmed.as_slice())
}

/// The record identifier: the element identifiers of the term block's
/// links, concatenated in order.
pub open spec fn ids_concat(anchors: Seq<AnchorModel>) -> Seq<char>
    decreases anchors.len(),
{
    if anchors.len() == 0 {
        Seq::empty()
    } else {
        ids_concat(anchors.drop_last()) + (match anchors.last().id {
            Some(s) => s,
            None => Seq::<char>::empty(),
        })
    }
}

/// Exact executable counterpart of [`ids_concat`].
pub fn term_id(anchors: &Vec<Anchor>) -> (r: String)
    ensures
        r@ == ids_concat(anchors@.map_values(|a: Anchor| a.model())),
{
    let ghost ms = anchors@.map_values(|a: Anchor| a.model());
    let mut out = String::new();
    let mut i: usize = 0;
    while i < anchors.len()
        invariant
            0 <= i <= anchors@.len(),
            ms == anchors@.map_values(|a: Anchor| a.model()),
            out@ == ids_concat(ms.take(i as int)),
        decreases anchors@.len() - i,
    {
        match &anchors[i].id {
            Some(id) => {
                <String as vstd::string::StringExecFns>::append(&mut out, id.as_str());
            },
            None => {},
        }
        proof {
            assert(ms.take(i + 1).drop_last() =~= ms.take(i as int));
            assert(ms.take(i + 1).last() == ms[i as int]);
        }
        i = i + 1;
    }
    proof {
        assert(ms.take(ms.len() as int) =~= ms);
    }
    out
}

/// The source-file link targets of a node list: for each node in order, for
/// each of its links in order, the target of every link whose class marks
/// it as a file reference.
pub open spec fn anchor_file_urls(anchors: Seq<AnchorModel>) -> Seq<Seq<char>>
    decreases anchors.len(),
{
    if anchors.len() == 0 {
        Seq::empty()
    } else {
        anchor_file_urls(anchors.drop_last()) + (match anchors.last().href {
            Some(h) => if anchors.last().is_file_link {
                seq![h]
            } else {
                Seq::<Seq<char>>::empty()
            },
            None => Seq::<Seq<char>>::empty(),
        })
    }
}

pub open spec fn file_urls(nodes: Seq<TagNodeModel>) -> Seq<Seq<char>>
    decreases nodes.len(),
{
    if nodes.len() == 0 {
        Seq::empty()
    } else {
        file_urls(nodes.drop_last()) + anchor_file_urls(nodes.last().anchors)
    }
}

/// Exact executable counterpart of [`file_urls`].
pub fn declared_by_urls(run: &Vec<TagNode>) -> (r: Vec<String>)
    ensures
        r.deep_view() == file_urls(run_model(*run)),
{
    let ghost ns = run_model(*run);
    let mut out: Vec<String> = Vec::new();
    let mut i: usize = 0;
    proof {
        assert(out.deep_view() =~= Seq::<Seq<char>>::empty());
        assert(file_urls(ns.take(0)) =~= Seq::<Seq<char>>::empty()) by {
            assert(ns.take(0) =~= Seq::<TagNodeModel>::empty());
        }
    }
    while i < run.len()
        invariant
            0 <= i <= run@.len(),
            ns == run_model(*run),
            out.deep_view() == file_urls(ns.take(i as int)),
        decreases run@.len() - i,
    {
        let anchors = &run[i].anchors;
        let ghost ams = ns[i as int].anchors;
        let mut k: usize = 0;
        proof {
            assert(ams == anchors@.map_values(|a: Anchor| a.model()));
            assert(anchor_file_urls(ams.take(0)) =~= Seq::<Seq<char>>::empty()) by {
                assert(ams.take(0) =~= Seq::<AnchorModel>::empty());
            }
            assert(out.deep_view() + anchor_file_urls(ams.take(0)) =~= out.deep_view());
        }
        while k < anchors.len()
            invariant
                0 <= k <= anchors@.len(),
                anchors == &run@[i as int].anchors,
                0 <= i < run@.len(),
                ns == run_model(*run),
                ams == ns[i as int].anchors,
                ams == anchors@.map_values(|a: Anchor| a.model()),
                out.deep_view() == file_urls(ns.take(i as int)) + anchor_file_urls(
                    ams.take(k as int),
                ),
            decreases anchors@.len() - k,
        {
            let ghost before = out.deep_view();
            let a = &anchors[k];
            if a.is_file_link {
                match &a.href {
                    Some(h) => {
                        out.push(h.clone());
                        proof {
                            assert(out.deep_view() =~= before.push(h@));
                        }
                    },
                    None => {},
                }
            }
            proof {
                assert(ams.take(k + 1).drop_last() =~= ams.take(k as int));
                assert(ams.take(k + 1).last() == ams[k as int]);
                assert(ams[k as int] == anchors@[k as int].model());
                assert(out.deep_view() =~= file_urls(ns.take(i as int)) + anchor_file_urls(
                    ams.take(k + 1),
                ));
            }
            k = k + 1;
        }
        proof {
            assert(ams.take(ams.len() as int) =~= ams);
            assert(ns.take(i + 1).drop_last() =~= ns.take(i as int));
            assert(ns.take(i + 1).last() == ns[i as int]);
        }
        i = i + 1;
    }
    proof {
        assert(ns.take(ns.len() as int) =~= ns);
    }
    out
}

/// One term/definition pair reduced to plain values: the term block's inner
/// markup and links, and the definition block's node list, where the block
/// could be decomposed at all.
#[derive(Debug)]
pub struct OptParser {
    pub term_inner: Vec<u8>,
    pub term_anchors: Vec<Anchor>,
    pub definition: Option<Vec<TagNode>>,
}

/// The mathematical value of an [`OptParser`].
pub struct OptParserModel {
    pub term_inner: Seq<u8>,
    pub term_anchors: Seq<AnchorModel>,
    pub definition: Option<Seq<TagNodeModel>>,
}

impl OptParser {
    pub open spec fn model(&self) -> OptParserModel {
        OptParserModel {
            term_inner: self.term_inner@,
            term_anchors: self.term_anchors@.map_values(|a: Anchor| a.model()),
            definition: match self.definition {
                Some(ref d) => Some(d@.map_values(|n: TagNode| n.model())),
                None => None,
            },
        }
    }

    /// Packs one pair's plain values for parsing.
    pub fn new(term_inner: Vec<u8>, term_anchors: Vec<Anchor>, definition: Option<Vec<TagNode>>)
        -> (r: OptParser)
        ensures
            r.term_inner == term_inner,
            r.term_anchors == term_anchors,
            r.definition == definition,
    {
        OptParser { term_inner, term_anchors, definition }
    }

    /// Parses the pair to a record with raw-markup fields, `None` when the
    /// definition block could not be decomposed.
    pub fn parse(&self) -> (r: Option<OptRawHTML>)
        ensures
            (match r {
                Some(raw) => Some(raw.model()),
                None => None::<OptRawHTMLModel>,
            }) == spec_parse_raw(self.model()),
    {
        let nodes = match &self.definition {
            Some(nodes) => nodes,
            None => {
                return None;
            },
        };
        let mut runs = split_tags(nodes);
        let var_type_run = get_field_by_separator(&mut runs, marker_type_bytes());
        let default_run = get_field_by_separator(&mut runs, marker_default_bytes());
        let example_run = get_field_by_separator(&mut runs, marker_example_bytes());
        let declared_run = get_field_by_separator(&mut runs, marker_declared_bytes());
        let description_nodes = concat_runs_exec(runs);
        let id = term_id(&self.term_anchors);
        let trimmed_term = trim_bytes(self.term_inner.as_slice());
        let name = bytes_to_string(trimmed_term.as_slice());
        let raw = OptRawHTML {
            id,
            name,
            description: field_to_raw_html(&description_nodes),
            var_type: field_to_raw_html(&var_type_run),
            default: field_to_raw_html(&default_run),
            example: field_to_raw_html(&example_run),
            declared_by: field_to_raw_html(&declared_run),
            declared_by_urls: declared_by_urls(&declared_run),
        };
        Some(raw)
    }
}

/// The run a field received, or no nodes at all.
pub open spec fn opt_run(f: Option<Seq<TagNodeModel>>) -> Seq<TagNodeModel> {
    match f {
        Some(run) => run,
        None => Seq::empty(),
    }
}

/// The raw-markup record that parsing one pair yields: the definition's
/// runs are dealt to the fields in the fixed marker order, first claim
/// winning, and the leftovers joined into the description.
pub open spec fn spec_parse_raw(p: OptParserModel) -> Option<OptRawHTMLModel> {
    match p.definition {
        None => None,
        Some(nodes) => {
            let runs0 = split_runs(nodes);
            let (t, runs1) = take_field(runs0, marker_type());
            let (d, runs2) = take_field(runs1, marker_default());
            let (e, runs3) = take_field(runs2, marker_example());
            let (c, runs4) = take_field(runs3, marker_declared());
            Some(
                OptRawHTMLModel {
                    id: ids_concat(p.term_anchors),
                    name: lossy_text(trim_spec(p.term_inner)),
                    description: raw_field(concat_runs(runs4)),
                    var_type: raw_field(opt_run(t)),
                    default: raw_field(opt_run(d)),
                    example: raw_field(opt_run(e)),
                    declared_by: raw_field(opt_run(c)),
                    declared_by_urls: file_urls(opt_run(c)),
                },
            )
        },
    }
}

/// The final text record that a raw-markup record renders to.
pub open spec fn spec_text_of_raw(r: OptRawHTMLModel) -> OptTextModel {
    OptTextModel {
        id: r.id,
        name: cooked_text(r.name, Seq::empty()),
        description: cooked_text(r.description, Seq::empty()),
        var_type: cooked_text(r.var_type, encode_utf8("Type:"@)),
        default: cooked_text(r.default, encode_utf8("Default:"@)),
        example: cooked_text(r.example, encode_utf8("Example:"@)),
        declared_by: cooked_text(r.declared_by, encode_utf8("Declared by:"@)),
        declared_by_urls: r.declared_by_urls,
    }
}

impl OptRawHTML {
    /// Renders each raw-markup field down to plain text, stripping the
    /// field's own label and surrounding whitespace.
    pub fn into_text(self) -> (r: OptText)
        ensures
            r.model() == spec_text_of_raw(self.model()),
    {
        let empty: [u8; 0] = [];
        let name = read_html_strip_prefix(self.name.as_str(), empty.as_slice());
        let description = read_html_strip_prefix(self.description.as_str(), empty.as_slice());
        let var_type = read_html_strip_prefix(self.var_type.as_str(), "Type:".as_bytes());
        let default = read_html_strip_prefix(self.default.as_str(), "Default:".as_bytes());
        let example = read_html_strip_prefix(self.example.as_str(), "Example:".as_bytes());
        let declared_by = read_html_strip_prefix(
            self.declared_by.as_str(),
            "Declared by:".as_bytes(),
        );
        proof {
            assert(empty@ =~= Seq::<u8>::empty());
        }
        OptText {
            id: self.id,
            name,
            description,
            var_type,
            default,
            example,
            declared_by,
            declared_by_urls: self.declared_by_urls,
        }
    }
}

/// The text record of one pair, where its definition decomposes.
pub open spec fn spec_parse(p: OptParserModel) -> Option<OptTextModel> {
    match spec_parse_raw(p) {
        Some(raw) => Some(spec_text_of_raw(raw)),
        None => None,
    }
}

/// The records of a pair list: pairs whose definition could not be
/// decomposed are skipped, everything else parses to exactly one record.
pub open spec fn spec_records(pairs: Seq<OptParserModel>) -> Seq<OptTextModel>
    decreases pairs.len(),
{
    if pairs.len() == 0 {
        Seq::empty()
    } else {
        spec_records(pairs.drop_last()) + (match spec_parse(pairs.last()) {
            Some(m) => seq![m],
            None => Seq::<OptTextModel>::empty(),
        })
    }
}

/// How many pairs of the list have a decomposable definition.
pub open spec fn parsed_count(pairs: Seq<OptParserModel>) -> int
    decreases pairs.len(),
{
    if pairs.len() == 0 {
        0
    } else {
        parsed_count(pairs.drop_last()) + (if pairs.last().definition is Some {
            1int
        } else {
            0int
        })
    }
}

/// Parser pair-count: every pair with a decomposable definition yields
/// exactly one record, so a document of well-formed pairs yields exactly as
/// many records as it has pairs.
pub proof fn lemma_pair_count(pairs: Seq<OptParserModel>)
    ensures
        spec_records(pairs).len() == parsed_count(pairs),
        (forall|i: int| 0 <= i < pairs.len() ==> (#[trigger] pairs[i]).definition is Some)
            ==> spec_records(pairs).len() == pairs.len(),
    decreases pairs.len(),
{
    if pairs.len() > 0 {
        lemma_pair_count(pairs.drop_last());
        assert(pairs.last() == pairs[pairs.len() - 1]);
        assert(forall|i: int|
            0 <= i < pairs.drop_last().len() ==> #[trigger] pairs.drop_last()[i] == pairs[i]);
    }
}

/// Builds the record list of a pair list, exactly as [`spec_records`]
/// prescribes; the length equals the number of decomposable pairs.
pub fn build_records(pairs: &Vec<OptParser>) -> (r: Vec<OptText>)
    ensures
        r@.map_values(|o: OptText| o.model()) == spec_records(
            pairs@.map_values(|p: OptParser| p.model()),
        ),
        r@.len() == parsed_count(pairs@.map_values(|p: OptParser| p.model())),
{
    let ghost ps = pairs@.map_values(|p: OptParser| p.model());
    let mut out: Vec<OptText> = Vec::new();
    let mut i: usize = 0;
    proof {
        assert(spec_records(ps.take(0)) =~= Seq::<OptTextModel>::empty()) by {
            assert(ps.take(0) =~= Seq::<OptParserModel>::empty());
        }
        assert(out@.map_values(|o: OptText| o.model()) =~= Seq::<OptTextModel>::empty());
    }
    let n: usize = pairs.len();
    while i < n
        invariant
            0 <= i <= n,
            n == pairs@.len(),
            ps == pairs@.map_values(|p: OptParser| p.model()),
            out@.map_values(|o: OptText| o.model()) == spec_records(ps.take(i as int)),
            out@.len() == parsed_count(ps.take(i as int)),
        decreases n - i,
    {
        let ghost before = out@.map_values(|o: OptText| o.model());
        match pairs[i].parse() {
            Some(raw) => {
                let t = raw.into_text();
                let ghost tm = t.model();
                out.push(t);
                proof {
                    assert(out@.map_values(|o: OptText| o.model()) =~= before.push(tm));
                    assert(before.push(tm) =~= before + seq![tm]);
                }
            },
            None => {},
        }
        proof {
            assert(ps.take(i + 1).drop_last() =~= ps.take(i as int));
            assert(ps.take(i + 1).last() == ps[i as int]);
            assert(ps[i as int] == pairs@[i as int].model());
        }
        i = i + 1;
    }
    proof {
        assert(ps.take(ps.len() as int) =~= ps);
    }
    out
}

/// The bytes of an optional markup result, empty where the node did not
/// resolve.
pub open spec fn or_empty(b: Option<Seq<u8>>) -> Seq<u8> {
    match b {
        Some(v) => v,
        None => Seq::empty(),
    }
}

/// One definition node as the parser reads it off the document: its outer
/// markup and its source-file links.
pub open spec fn spec_doc_node(html: Seq<char>, h: u32) -> TagNodeModel {
    TagNodeModel {
        outer: or_empty(node_outer(html, h)),
        anchors: node_links(html, h, "a"@, "filename"@),
    }
}

/// One term/definition pair as the parser reads it off the document.
pub open spec fn spec_doc_pair(html: Seq<char>, dt: u32, dd: u32) -> OptParserModel {
    OptParserModel {
        term_inner: or_empty(node_inner(html, dt)),
        term_anchors: node_links(html, dt, "a"@, "filename"@),
        definition: match node_kids(html, dd) {
            None => None,
            Some(hs) => Some(hs.map_values(|h: u32| spec_doc_node(html, h))),
        },
    }
}

/// The pair list of a document: the i-th term block paired with the i-th
/// definition block.
pub open spec fn doc_pairs(html: Seq<char>) -> Seq<OptParserModel> {
    Seq::new(
        selected_handles(html, "dt"@).len(),
        |i: int|
            spec_doc_pair(
                html,
                selected_handles(html, "dt"@)[i],
                selected_handles(html, "dd"@)[i],
            ),
    )
}

/// Reads one term/definition pair out of the document.
fn extract_pair(doc: &Document<'_>, dt: u32, dd: u32) -> (r: OptParser)
    ensures
        r.model() == spec_doc_pair(doc.text(), dt, dd),
{
    let term_inner = match node_inner_bytes(doc, dt) {
        Some(v) => v,
        None => Vec::new(),
    };
    assert(term_inner@ == or_empty(node_inner(doc.text(), dt)));
    let term_anchors = node_anchors(doc, dt, "a", "filename");
    let definition = match node_children(doc, dd) {
        Some(handles) => {
            let ghost hs = handles@;
            let ghost ms = hs.map_values(|h2: u32| spec_doc_node(doc.text(), h2));
            let mut nodes: Vec<TagNode> = Vec::new();
            let mut i: usize = 0;
            while i < handles.len()
                invariant
                    0 <= i <= handles@.len(),
                    hs == handles@,
                    ms == hs.map_values(|h2: u32| spec_doc_node(doc.text(), h2)),
                    nodes@.map_values(|n: TagNode| n.model()) == ms.take(i as int),
                decreases handles@.len() - i,
            {
                let h = handles[i];
                let outer = match node_outer_bytes(doc, h) {
                    Some(v) => v,
                    None => Vec::new(),
                };
                assert(outer@ == or_empty(node_outer(doc.text(), h)));
                nodes.push(TagNode { outer, anchors: node_anchors(doc, h, "a", "filename") });
                proof {
                    assert(ms[i as int] == spec_doc_node(doc.text(), hs[i as int]));
                    assert(ms.take(i + 1) =~= ms.take(i as int).push(ms[i as int]));
                    assert(nodes@.map_values(|n: TagNode| n.model()) =~= ms.take(i + 1));
                }
                i = i + 1;
            }
            proof {
                assert(ms.take(ms.len() as int) =~= ms);
            }
            Some(nodes)
        },
        None => None,
    };
    let r = OptParser::new(term_inner, term_anchors, definition);
    assert(r.model() == spec_doc_pair(doc.text(), dt, dd));
    r
}

/// Turns one HTML document into its ordered list of option records: exactly
/// the records of the document's term/definition pairs, in order.
///
/// The document must hold as many term blocks as definition blocks; a
/// mismatch is a hard [`ParseError::TagCountMismatch`], never a panic. A
/// pair whose definition block cannot be decomposed is skipped, never an
/// error; every other pair yields exactly one record.
pub fn parse_options(html: &str) -> (r: Result<Vec<OptText>, ParseError>)
    ensures
        (r matches Err(ParseError::BadDocument)) <==> !doc_readable(html@),
        (r matches Err(ParseError::TagCountMismatch { terms, definitions }) ==> doc_readable(html@)
            && terms == selected_handles(html@, "dt"@).len() && definitions == selected_handles(
            html@,
            "dd"@,
        ).len() && terms != definitions),
        (doc_readable(html@) && selected_handles(html@, "dt"@).len() == selected_handles(
            html@,
            "dd"@,
        ).len()) ==> r is Ok,
        r matches Ok(v) ==> doc_readable(html@) && selected_handles(html@, "dt"@).len()
            == selected_handles(html@, "dd"@).len() && v@.map_values(|o: OptText| o.model())
            == spec_records(doc_pairs(html@)) && v@.len() == parsed_count(doc_pairs(html@)),
        !(r matches Err(ParseError::NoRecords)),
{
    let doc = match dom_parse(html) {
        Some(doc) => doc,
        None => {
            return Err(ParseError::BadDocument);
        },
    };
    let dts = doc_query(&doc, "dt");
    let dds = doc_query(&doc, "dd");
    proof {
        assert(dts@ == selected_handles(html@, "dt"@));
        assert(dds@ == selected_handles(html@, "dd"@));
    }
    if dts.len() != dds.len() {
        return Err(ParseError::TagCountMismatch { terms: dts.len(), definitions: dds.len() });
    }
    let ghost dp = doc_pairs(html@);
    let mut pairs: Vec<OptParser> = Vec::new();
    let mut i: usize = 0;
    proof {
        assert(pairs@.map_values(|p: OptParser| p.model()) =~= dp.take(0));
    }
    while i < dts.len()
        invariant
            0 <= i <= dts@.len(),
            dts@.len() == dds@.len(),
            dts@ == selected_handles(html@, "dt"@),
            dds@ == selected_handles(html@, "dd"@),
            doc.text() == html@,
            dp == doc_pairs(html@),
            dp.len() == dts@.len(),
            pairs@.map_values(|p: OptParser| p.model()) == dp.take(i as int),
        decreases dts@.len() - i,
    {
        let pair = extract_pair(&doc, dts[i], dds[i]);
        let ghost pm = pair.model();
        pairs.push(pair);
        proof {
            assert(dp[i as int] == spec_doc_pair(html@, dts@[i as int], dds@[i as int]));
            assert(dp.take(i + 1) =~= dp.take(i as int).push(dp[i as int]));
            assert(pairs@.map_values(|p: OptParser| p.model()) =~= dp.take(i + 1));
        }
        i = i + 1;
    }
    proof {
        assert(dp.take(dp.len() as int) =~= dp);
        assert(pairs@.map_values(|p: OptParser| p.model()) == dp);
    }
    Ok(build_records(&pairs))
}

/// A version string read out of a page title: `Version ` followed by the
/// first semantic-version substring of the title text, if one exists.
pub fn version_from_title_text(title: &[u8]) -> (r: Option<String>)
    ensures
        (match r {
            Some(s) => Some(s@),
            None => None::<Seq<char>>,
        }) == (match first_semver(title@) {
            Some(m) => Some(lossy_text(encode_utf8("Version "@) + m)),
            None => None::<Seq<char>>,
        }),
{
    match find_semver(title) {
        Some(m) => {
            let mut out: Vec<u8> = Vec::new();
            let prefix = "Version ".as_bytes();
            let mut i: usize = 0;
            while i < prefix.len()
                invariant
                    0 <= i <= prefix@.len(),
                    out@ == prefix@.take(i as int),
                decreases prefix@.len() - i,
            {
                out.push(prefix[i]);
                assert(prefix@.take(i + 1) =~= prefix@.take(i as int).push(prefix@[i as int]));
                i = i + 1;
            }
            proof {
                assert(prefix@.take(prefix@.len() as int) =~= prefix@);
            }
            let mut k: usize = 0;
            while k < m.len()
                invariant
                    0 <= k <= m@.len(),
                    out@ == prefix@ + m@.take(k as int),
                decreases m@.len() - k,
            {
                out.push(m[k]);
                assert(m@.take(k + 1) =~= m@.take(k as int).push(m@[k as int]));
                assert(out@ =~= prefix@ + m@.take(k + 1));
                k = k + 1;
            }
            proof {
                assert(m@.take(m@.len() as int) =~= m@);
            }
            Some(bytes_to_string(out.as_slice()))
        },
        None => None,
    }
}

/// The first subtitle element's inner markup, if the page has one.
pub open spec fn spec_subtitle(html: Seq<char>) -> Option<Seq<u8>> {
    let hs = selected_handles(html, ".subtitle"@);
    if hs.len() > 0 {
        node_inner(html, hs[0])
    } else {
        None
    }
}

/// The title element's inner markup, if the page has one.
pub open spec fn spec_title(html: Seq<char>) -> Option<Seq<u8>> {
    let hs = selected_handles(html, "title"@);
    if hs.len() > 0 {
        node_inner(html, hs[0])
    } else {
        None
    }
}

/// The version string a readable page yields: the first subtitle element's
/// inner markup wins; failing that, `Version ` plus the first
/// semantic-version substring of the page title; failing both, nothing.
pub open spec fn spec_version_of(html: Seq<char>) -> Option<Seq<char>> {
    match spec_subtitle(html) {
        Some(b) => Some(lossy_text(b)),
        None => match spec_title(html) {
            Some(t) => match first_semver(t) {
                Some(m) => Some(lossy_text(encode_utf8("Version "@) + m)),
                None => None,
            },
            None => None,
        },
    }
}

/// Reads the version string out of a page, exactly as [`spec_version_of`]
/// prescribes. A page carrying no version yields `Ok(None)`, which is not
/// an error and leaves the caller to substitute a placeholder; only an
/// unreadable page is an error.
pub fn parse_version(html: &str) -> (r: Result<Option<String>, ParseError>)
    ensures
        (r is Err) <==> !doc_readable(html@),
        r matches Ok(o) ==> (match o {
            Some(s) => Some(s@),
            None => None::<Seq<char>>,
        }) == spec_version_of(html@),
{
    let doc = match dom_parse(html) {
        Some(doc) => doc,
        None => {
            return Err(ParseError::BadDocument);
        },
    };
    let subtitles = doc_query(&doc, ".subtitle");
    if subtitles.len() > 0 {
        if let Some(inner) = node_inner_bytes(&doc, subtitles[0]) {
            return Ok(Some(bytes_to_string(inner.as_slice())));
        }
    }
    let titles = doc_query(&doc, "title");
    if titles.len() > 0 {
        if let Some(title) = node_inner_bytes(&doc, titles[0]) {
            if let Some(v) = version_from_title_text(title.as_slice()) {
                return Ok(Some(v));
            }
        }
    }
    Ok(None)
}

} // verus!
