//! The bridge from parsed HTML to plain values.
//!
//! The DOM of the underlying HTML parser is opaque to verification, but
//! everything it yields is a function of the document text alone: parsing is
//! deterministic, node handles index the parse result, and every query reads
//! only the document. The names below record those results over the text,
//! and each trusted item applies them; a [`Document`] couples the text to
//! its DOM so that the names are honest. Everything that interprets the
//! plain values is ordinary verified code.

use vstd::prelude::*;

verus! {

/// One link found under a node: its element identifier, its target, and
/// whether its class list holds the class asked about.
#[derive(Debug, Clone, PartialEq)]
pub struct Anchor {
    pub id: Option<String>,
    pub href: Option<String>,
    pub is_file_link: bool,
}

/// The mathematical value of an [`Anchor`].
pub struct AnchorModel {
    pub id: Option<Seq<char>>,
    pub href: Option<Seq<char>>,
    pub is_file_link: bool,
}

impl Anchor {
    pub open spec fn model(&self) -> AnchorModel {
        AnchorModel {
            id: match self.id {
                Some(ref s) => Some(s@),
                None => None,
            },
            href: match self.href {
                Some(ref s) => Some(s@),
                None => None,
            },
            is_file_link: self.is_file_link,
        }
    }

    /// An exact copy of the anchor.
    pub fn duplicate(&self) -> (r: Anchor)
        ensures
            r.model() == self.model(),
    {
        Anchor {
            id: match &self.id {
                Some(s) => Some(s.clone()),
                None => None,
            },
            href: match &self.href {
                Some(s) => Some(s.clone()),
                None => None,
            },
            is_file_link: self.is_file_link,
        }
    }
}

#[verifier::external_type_specification]
#[verifier::external_body]
pub struct ExVDom<'a>(tl::VDom<'a>);

/// A parsed document: the text it was parsed from together with its DOM.
/// Only [`dom_parse`] constructs one, so the DOM always belongs to the text,
/// and every query result below is the named function of that text.
pub struct Document<'a> {
    html: &'a str,
    dom: tl::VDom<'a>,
}

impl<'a> Document<'a> {
    /// The text this document was parsed from.
    pub closed spec fn text(&self) -> Seq<char> {
        self.html@
    }
}

/// Whether the HTML parser reads the text as a document at all.
pub uninterp spec fn doc_readable(html: Seq<char>) -> bool;

/// The handles of the nodes a selector matches, in document order; empty
/// for an invalid selector.
pub uninterp spec fn selected_handles(html: Seq<char>, selector: Seq<char>) -> Seq<u32>;

/// The inner markup of the node behind a handle, as bytes, where the handle
/// resolves.
pub uninterp spec fn node_inner(html: Seq<char>, handle: u32) -> Option<Seq<u8>>;

/// The outer markup of the node behind a handle, as bytes, where the handle
/// resolves.
pub uninterp spec fn node_outer(html: Seq<char>, handle: u32) -> Option<Seq<u8>>;

/// The handles of the node's top-level children, text nodes included, where
/// the node can have children at all.
pub uninterp spec fn node_kids(html: Seq<char>, handle: u32) -> Option<Seq<u32>>;

/// The links a selector finds under a node: each with its identifier, its
/// target, and whether its class list holds the named class. Empty for a
/// node that is not a tag.
pub uninterp spec fn node_links(
    html: Seq<char>,
    handle: u32,
    selector: Seq<char>,
    class: Seq<char>,
) -> Seq<AnchorModel>;

/// Relies on `tl::parse`: reading a document is deterministic in its text;
/// a parser rejection yields `None`.
#[verifier::external_body]
pub fn dom_parse(html: &str) -> (r: Option<Document<'_>>)
    ensures
        (r is Some) == doc_readable(html@),
        r matches Some(doc) ==> doc.text() == html@,
{
    let dom = tl::parse(html, tl::ParserOptions::default()).ok()?;
    Some(Document { html, dom })
}

/// Relies on `tl::VDom::query_selector`: the matching handles in document
/// order, a function of the text and the selector; an invalid selector
/// yields none.
#[verifier::external_body]
pub fn doc_query(doc: &Document<'_>, selector: &str) -> (r: Vec<u32>)
    ensures
        r@ == selected_handles(doc.text(), selector@),
{
    match doc.dom.query_selector(selector) {
        Some(it) => it.map(|h| h.get_inner()).collect(),
        None => Vec::new(),
    }
}

/// Relies on `tl::Node::inner_html`: the inner markup of the node behind
/// the handle, as bytes.
#[verifier::external_body]
pub fn node_inner_bytes(doc: &Document<'_>, handle: u32) -> (r: Option<Vec<u8>>)
    ensures
        (match r {
            Some(v) => Some(v@),
            None => None::<Seq<u8>>,
        }) == node_inner(doc.text(), handle),
{
    let p = doc.dom.parser();
    tl::NodeHandle::new(handle).get(p).map(|n| n.inner_html(p).into_owned().into_bytes())
}

/// Relies on `tl::Node::outer_html`: the outer markup of the node behind
/// the handle, as bytes.
#[verifier::external_body]
pub fn node_outer_bytes(doc: &Document<'_>, handle: u32) -> (r: Option<Vec<u8>>)
    ensures
        (match r {
            Some(v) => Some(v@),
            None => None::<Seq<u8>>,
        }) == node_outer(doc.text(), handle),
{
    let p = doc.dom.parser();
    tl::NodeHandle::new(handle).get(p).map(|n| n.outer_html(p).into_owned().into_bytes())
}

/// Relies on `tl::Node::children`: the handles of the node's top-level
/// children, text nodes included; `None` for a node that cannot have any.
#[verifier::external_body]
pub fn node_children(doc: &Document<'_>, handle: u32) -> (r: Option<Vec<u32>>)
    ensures
        (match r {
            Some(v) => Some(v@),
            None => None::<Seq<u32>>,
        }) == node_kids(doc.text(), handle),
{
    let p = doc.dom.parser();
    let node = tl::NodeHandle::new(handle).get(p)?;
    let children = node.children()?;
    Some(children.top().iter().map(|h| h.get_inner()).collect())
}

/// Relies on `tl::HTMLTag::query_selector` and `tl::Attributes`: every link
/// the selector finds under the node, with its identifier, its target, and
/// whether its class list holds `class`.
#[verifier::external_body]
pub fn node_anchors(doc: &Document<'_>, handle: u32, selector: &str, class: &str) -> (r: Vec<
    Anchor,
>)
    ensures
        r@.map_values(|a: Anchor| a.model()) == node_links(
            doc.text(),
            handle,
            selector@,
            class@,
        ),
{
    let p = doc.dom.parser();
    let Some(tag) = tl::NodeHandle::new(handle).get(p).and_then(|n| n.as_tag()) else {
        return Vec::new();
    };
    let Some(links) = tag.query_selector(p, selector) else {
        return Vec::new();
    };
    links.filter_map(|h| h.get(p)).filter_map(|n| n.as_tag()).map(|a| {
        let attrs = a.attributes();
        Anchor {
            id: attrs.id().map(|b| b.as_utf8_str().into_owned()),
            href: attrs.get("href").flatten().map(|b| b.as_utf8_str().into_owned()),
            is_file_link: attrs.is_class_member(class),
        }
    }).collect()
}

} // verus!
