//! The tree builder: a depth-bounded recursive descent over the DOM that
//! produces Section/Text/Empty nodes, and the text flattener that folds
//! inline markup into attributed fragments.

use vstd::prelude::*;

use crate::chars::{lower_seq, lowered_eq};
use crate::dom::{
    group_dom_views, view_dchildren, view_delem, DomElement, DomNode, DomView, ElemView,
};
use crate::node::{view_node, view_nodes, Node, NodeView, RawNode, Section, SectionOrdering};
use crate::parse::{any_matches, any_rule_matches, ParseFlags, RuleView};
use crate::text::{
    clone_attrs, concat_annotations, concat_texts, AttrView, FragView, Text, TextAttributes,
    TextFragment,
};
use crate::Error;

verus! {

/// Tags that build an unordered container section.
pub open spec fn is_container_tag(t: Seq<char>) -> bool {
    t == "html"@ || t == "header"@ || t == "footer"@ || t == "body"@ || t == "div"@ || t
        == "section"@ || t == "article"@ || t == "main"@ || t == "nav"@
}

/// Tags that build a bulleted list section.
pub open spec fn is_list_tag(t: Seq<char>) -> bool {
    t == "menu"@ || t == "ul"@
}

/// The heading level a tag carries, if any.
pub open spec fn heading_of(t: Seq<char>) -> Option<u8> {
    if t == "h1"@ {
        Some(1u8)
    } else if t == "h2"@ {
        Some(2u8)
    } else if t == "h3"@ {
        Some(3u8)
    } else if t == "h4"@ {
        Some(4u8)
    } else if t == "h5"@ {
        Some(5u8)
    } else if t == "h6"@ {
        Some(6u8)
    } else {
        None
    }
}

/// Tags whose `href` attribute becomes a link on their fragments.
pub open spec fn is_link_attr_tag(t: Seq<char>) -> bool {
    t == "p"@ || t == "a"@ || t == "span"@
}

/// Tags that set the bold attribute.
pub open spec fn is_bold_tag(t: Seq<char>) -> bool {
    t == "strong"@ || t == "b"@
}

/// Tags that set the italic attribute.
pub open spec fn is_italic_tag(t: Seq<char>) -> bool {
    t == "i"@ || t == "u"@ || t == "em"@
}

/// Tags that set the preformatted attribute.
pub open spec fn is_pre_tag(t: Seq<char>) -> bool {
    t == "blockquote"@ || t == "q"@ || t == "pre"@ || t == "code"@
}

/// Tags that short-circuit to a single literal newline fragment.
pub open spec fn is_break_tag(t: Seq<char>) -> bool {
    t == "br"@ || t == "hr"@
}

/// Tags routed to the text flattener.
pub open spec fn is_inline_tag(t: Seq<char>) -> bool {
    heading_of(t) is Some || is_link_attr_tag(t) || is_bold_tag(t) || is_italic_tag(t)
        || is_pre_tag(t) || is_break_tag(t) || t == "s"@
}

/// All fragments combined into one: texts concatenated, attribute splits
/// discarded, annotations concatenated into the single annotation.
pub open spec fn combined_frags(frags: Seq<FragView>) -> Seq<FragView> {
    seq![
        FragView {
            text: concat_texts(frags),
            attrs: AttrView {
                annotation: if concat_annotations(frags).len() > 0 {
                    Some(concat_annotations(frags))
                } else {
                    None
                },
                ..AttrView::plain()
            },
        },
    ]
}

/// The fragment an annotation element yields: its combined visible text is
/// moved into the annotation attribute and the visible text is cleared.
pub open spec fn annotation_frags(frags: Seq<FragView>) -> Seq<FragView> {
    seq![
        FragView {
            text: Seq::empty(),
            attrs: AttrView { annotation: Some(concat_texts(frags)), ..AttrView::plain() },
        },
    ]
}

/// The attribute an element applies to each fragment of its subtree.
pub open spec fn apply_elem_attrs(t: Seq<char>, href: Option<Seq<char>>, f: FragView) -> FragView {
    if heading_of(t) is Some {
        FragView { text: f.text, attrs: AttrView { heading: heading_of(t), ..f.attrs } }
    } else if is_link_attr_tag(t) {
        match href {
            Some(l) => FragView { text: f.text, attrs: AttrView { link: Some(l), ..f.attrs } },
            None => f,
        }
    } else if is_bold_tag(t) {
        FragView { text: f.text, attrs: AttrView { bold: true, ..f.attrs } }
    } else if is_italic_tag(t) {
        FragView { text: f.text, attrs: AttrView { italic: true, ..f.attrs } }
    } else if is_pre_tag(t) {
        FragView { text: f.text, attrs: AttrView { preformatted: true, ..f.attrs } }
    } else {
        f
    }
}

/// The text flattener, as a mathematical function: the attributed fragments
/// an inline element yields, or the error that drops it.
pub open spec fn spec_build_text(e: ElemView, depth: nat) -> Result<Seq<FragView>, Error>
    decreases depth, 1nat, 0nat,
{
    if depth == 0 {
        Err(Error::DepthExceeded)
    } else {
        let t = lower_seq(e.tag);
        if is_break_tag(t) {
            Ok(seq![FragView { text: "\n"@, attrs: AttrView::plain() }])
        } else if t == "rp"@ {
            Ok(Seq::empty())
        } else {
            let frags = spec_flatten(e.children, (depth - 1) as nat);
            if t == "ruby"@ {
                Ok(combined_frags(frags))
            } else if t == "rt"@ {
                Ok(annotation_frags(frags))
            } else {
                Ok(frags.map_values(|f: FragView| apply_elem_attrs(t, e.href, f)))
            }
        }
    }
}

/// The fragments a list of child nodes contributes, in order. A child
/// element whose flattening fails contributes nothing.
pub open spec fn spec_flatten(children: Seq<DomView>, depth: nat) -> Seq<FragView>
    decreases depth, 3nat, children.len(),
{
    if children.len() == 0 {
        Seq::empty()
    } else {
        spec_flatten(children.drop_last(), depth) + flatten_one(children.last(), depth)
    }
}

/// The fragments one child node contributes.
pub open spec fn flatten_one(c: DomView, depth: nat) -> Seq<FragView>
    decreases depth, 2nat, 0nat,
{
    match c {
        DomView::ElementV(e) => match spec_build_text(e, depth) {
            Ok(f) => f,
            Err(_) => Seq::empty(),
        },
        DomView::TextV(s) => seq![FragView { text: s, attrs: AttrView::plain() }],
    }
}

/// The tree builder, as a mathematical function.
///
/// The depth budget is checked before entry; an allow-rule match turns
/// inline capture on for this subtree only; a skip-rule match makes the
/// whole subtree `Empty` unconditionally.
pub open spec fn spec_build_node(
    e: ElemView,
    allow: Seq<RuleView>,
    skip: Seq<RuleView>,
    parsing: bool,
    depth: nat,
) -> Result<NodeView, Error>
    decreases depth, 4nat, 0nat,
{
    if depth == 0 {
        Err(Error::DepthExceeded)
    } else {
        let capture = parsing || any_rule_matches(allow, e.tag, e.classes);
        if any_rule_matches(skip, e.tag, e.classes) {
            Ok(NodeView::EmptyNode)
        } else {
            let t = lower_seq(e.tag);
            if is_container_tag(t) {
                Ok(
                    NodeView::SectionNode {
                        nodes: spec_build_children(
                            e.children,
                            allow,
                            skip,
                            capture,
                            (depth - 1) as nat,
                        ),
                        ordering: SectionOrdering::Unordered,
                    },
                )
            } else if is_list_tag(t) {
                Ok(
                    NodeView::SectionNode {
                        nodes: spec_build_children(
                            e.children,
                            allow,
                            skip,
                            capture,
                            (depth - 1) as nat,
                        ),
                        ordering: SectionOrdering::List,
                    },
                )
            } else if is_inline_tag(t) {
                if capture {
                    match spec_build_text(e, depth) {
                        Ok(frags) => Ok(NodeView::TextNode { frags }),
                        Err(err) => Err(err),
                    }
                } else {
                    Ok(NodeView::EmptyNode)
                }
            } else {
                Err(Error::Unsupported)
            }
        }
    }
}

/// The children a container section gathers: child elements in order, each
/// built recursively, failures dropped; raw text children are ignored.
pub open spec fn spec_build_children(
    children: Seq<DomView>,
    allow: Seq<RuleView>,
    skip: Seq<RuleView>,
    parsing: bool,
    depth: nat,
) -> Seq<NodeView>
    decreases depth, 5nat, children.len(),
{
    if children.len() == 0 {
        Seq::empty()
    } else {
        let rest = spec_build_children(children.drop_last(), allow, skip, parsing, depth);
        match children.last() {
            DomView::ElementV(e) => match spec_build_node(e, allow, skip, parsing, depth) {
                Ok(n) => rest.push(n),
                Err(_) => rest,
            },
            DomView::TextV(_) => rest,
        }
    }
}

/// Whether an executable text result matches its mathematical counterpart.
pub open spec fn text_result_matches(
    r: Result<Text, Error>,
    s: Result<Seq<FragView>, Error>,
) -> bool {
    match (r, s) {
        (Ok(t), Ok(f)) => t@ == f,
        (Err(a), Err(b)) => a == b,
        _ => false,
    }
}

/// Whether an executable node result matches its mathematical counterpart.
pub open spec fn node_result_matches(
    r: Result<RawNode, Error>,
    s: Result<NodeView, Error>,
) -> bool {
    match (r, s) {
        (Ok(n), Ok(v)) => view_node(n) == v,
        (Err(a), Err(b)) => a == b,
        _ => false,
    }
}

/// Whether the tag builds an unordered container, executable form.
fn is_container_tag_ex(tag: &String) -> (r: bool)
    ensures
        r == is_container_tag(lower_seq(tag@)),
{
    lowered_eq(tag.as_str(), "html") || lowered_eq(tag.as_str(), "header") || lowered_eq(
        tag.as_str(),
        "footer",
    ) || lowered_eq(tag.as_str(), "body") || lowered_eq(tag.as_str(), "div") || lowered_eq(
        tag.as_str(),
        "section",
    ) || lowered_eq(tag.as_str(), "article") || lowered_eq(tag.as_str(), "main") || lowered_eq(
        tag.as_str(),
        "nav",
    )
}

/// Whether the tag builds a list section, executable form.
fn is_list_tag_ex(tag: &String) -> (r: bool)
    ensures
        r == is_list_tag(lower_seq(tag@)),
{
    lowered_eq(tag.as_str(), "menu") || lowered_eq(tag.as_str(), "ul")
}

/// The heading level the tag carries, executable form.
fn heading_of_ex(tag: &String) -> (r: Option<u8>)
    ensures
        r == heading_of(lower_seq(tag@)),
{
    if lowered_eq(tag.as_str(), "h1") {
        Some(1)
    } else if lowered_eq(tag.as_str(), "h2") {
        Some(2)
    } else if lowered_eq(tag.as_str(), "h3") {
        Some(3)
    } else if lowered_eq(tag.as_str(), "h4") {
        Some(4)
    } else if lowered_eq(tag.as_str(), "h5") {
        Some(5)
    } else if lowered_eq(tag.as_str(), "h6") {
        Some(6)
    } else {
        None
    }
}

/// Whether the tag applies its `href` as a link, executable form.
fn is_link_attr_tag_ex(tag: &String) -> (r: bool)
    ensures
        r == is_link_attr_tag(lower_seq(tag@)),
{
    lowered_eq(tag.as_str(), "p") || lowered_eq(tag.as_str(), "a") || lowered_eq(
        tag.as_str(),
        "span",
    )
}

/// Whether the tag sets bold, executable form.
fn is_bold_tag_ex(tag: &String) -> (r: bool)
    ensures
        r == is_bold_tag(lower_seq(tag@)),
{
    lowered_eq(tag.as_str(), "strong") || lowered_eq(tag.as_str(), "b")
}

/// Whether the tag sets italic, executable form.
fn is_italic_tag_ex(tag: &String) -> (r: bool)
    ensures
        r == is_italic_tag(lower_seq(tag@)),
{
    lowered_eq(tag.as_str(), "i") || lowered_eq(tag.as_str(), "u") || lowered_eq(
        tag.as_str(),
        "em",
    )
}

/// Whether the tag sets preformatted, executable form.
fn is_pre_tag_ex(tag: &String) -> (r: bool)
    ensures
        r == is_pre_tag(lower_seq(tag@)),
{
    lowered_eq(tag.as_str(), "blockquote") || lowered_eq(tag.as_str(), "q") || lowered_eq(
        tag.as_str(),
        "pre",
    ) || lowered_eq(tag.as_str(), "code")
}

/// Whether the tag short-circuits to a newline, executable form.
fn is_break_tag_ex(tag: &String) -> (r: bool)
    ensures
        r == is_break_tag(lower_seq(tag@)),
{
    lowered_eq(tag.as_str(), "br") || lowered_eq(tag.as_str(), "hr")
}

/// Whether the tag is routed to the text flattener, executable form.
fn is_inline_tag_ex(tag: &String) -> (r: bool)
    ensures
        r == is_inline_tag(lower_seq(tag@)),
{
    heading_of_ex(tag).is_some() || is_link_attr_tag_ex(tag) || is_bold_tag_ex(tag)
        || is_italic_tag_ex(tag) || is_pre_tag_ex(tag) || is_break_tag_ex(tag) || lowered_eq(
        tag.as_str(),
        "s",
    )
}

/// Applies the element's attribute rule to one fragment.
fn apply_to_fragment(elem: &DomElement, f: &TextFragment) -> (r: TextFragment)
    ensures
        r@ == apply_elem_attrs(
            lower_seq(elem.tag@),
            crate::text::opt_str_view(elem.href),
            f@,
        ),
{
    if let Some(h) = heading_of_ex(&elem.tag) {
        let mut attributes = clone_attrs(&f.attributes);
        attributes.heading = Some(h);
        TextFragment { text: f.text.clone(), attributes }
    } else if is_link_attr_tag_ex(&elem.tag) {
        match &elem.href {
            Some(l) => {
                let mut attributes = clone_attrs(&f.attributes);
                attributes.link = Some(l.clone());
                TextFragment { text: f.text.clone(), attributes }
            },
            None => f.duplicate(),
        }
    } else if is_bold_tag_ex(&elem.tag) {
        let mut attributes = clone_attrs(&f.attributes);
        attributes.bold = true;
        TextFragment { text: f.text.clone(), attributes }
    } else if is_italic_tag_ex(&elem.tag) {
        let mut attributes = clone_attrs(&f.attributes);
        attributes.italic = true;
        TextFragment { text: f.text.clone(), attributes }
    } else if is_pre_tag_ex(&elem.tag) {
        let mut attributes = clone_attrs(&f.attributes);
        attributes.preformatted = true;
        TextFragment { text: f.text.clone(), attributes }
    } else {
        f.duplicate()
    }
}

/// The text flattener: collects the attributed fragments of an inline
/// element's subtree.
pub fn build_text_from_dom(elem: &DomElement, depth: usize) -> (r: Result<Text, Error>)
    ensures
        text_result_matches(r, spec_build_text(view_delem(*elem), depth as nat)),
    decreases depth, 1int, 0int,
{
    broadcast use group_dom_views;

    if depth == 0 {
        return Err(Error::DepthExceeded);
    }
    if is_break_tag_ex(&elem.tag) {
        return Ok(Text::from_fragment("\n"));
    }
    if lowered_eq(elem.tag.as_str(), "rp") {
        return Ok(Text::new_empty());
    }
    let ghost cv: Seq<DomView> = view_dchildren(elem.children@);
    let ghost d1: nat = (depth - 1) as nat;
    let mut text = Text::new();
    let n = elem.children.len();
    let mut i: usize = 0;
    while i < n
        invariant
            i <= n,
            n == elem.children.len(),
            depth >= 1,
            cv == view_dchildren(elem.children@),
            cv.len() == n,
            d1 == (depth - 1) as nat,
            text@ == spec_flatten(cv.take(i as int), d1),
        decreases n - i,
    {
        broadcast use group_dom_views;

        proof {
            assert(cv.take(i + 1).drop_last() =~= cv.take(i as int));
            assert(cv.take(i + 1).last() == cv[i as int]);
            assert(cv[i as int] == crate::dom::view_dnode(elem.children@[i as int]));
        }
        match &elem.children[i] {
            DomNode::Element(e) => {
                proof {
                    assert(elem.children@[i as int] == DomNode::Element(*e));
                    assert(cv[i as int] == DomView::ElementV(view_delem(*e)));
                }
                match build_text_from_dom(e, depth - 1) {
                    Ok(sub) => {
                        text.extend(sub);
                        proof {
                            assert(flatten_one(cv[i as int], d1) == sub@);
                        }
                    },
                    Err(_) => {
                        proof {
                            assert(flatten_one(cv[i as int], d1) =~= Seq::<FragView>::empty());
                        }
                    },
                }
            },
            DomNode::Text(s) => {
                proof {
                    assert(elem.children@[i as int] == DomNode::Text(*s));
                }
                text.append(TextFragment::new(s.as_str(), None));
                proof {
                    assert(flatten_one(cv[i as int], d1) =~= seq![
                        FragView { text: s@, attrs: AttrView::plain() },
                    ]);
                }
            },
        }
        proof {
            assert(spec_flatten(cv.take(i + 1), d1) == spec_flatten(cv.take(i as int), d1)
                + flatten_one(cv[i as int], d1));
            assert(text@ =~= spec_flatten(cv.take(i + 1), d1));
        }
        i += 1;
    }
    proof {
        assert(cv.take(n as int) =~= cv);
    }
    if lowered_eq(elem.tag.as_str(), "ruby") {
        text.combine_fragments();
        proof {
            assert(text@ =~= combined_frags(spec_flatten(cv, d1)));
        }
        return Ok(text);
    }
    if lowered_eq(elem.tag.as_str(), "rt") {
        let whole = text.collect();
        let mut attributes = TextAttributes::new();
        attributes.annotation = Some(whole);
        let mut fragments: Vec<TextFragment> = Vec::new();
        fragments.push(TextFragment { text: String::new(), attributes });
        let out = Text { fragments };
        proof {
            assert(out@ =~= annotation_frags(spec_flatten(cv, d1)));
        }
        return Ok(out);
    }
    let ghost t = lower_seq(elem.tag@);
    let ghost hrefv = crate::text::opt_str_view(elem.href);
    let ghost flat = text@;
    let m = text.fragments.len();
    let mut applied: Vec<TextFragment> = Vec::new();
    let mut j: usize = 0;
    while j < m
        invariant
            j <= m,
            m == text.fragments.len(),
            text@ == flat,
            flat.len() == m,
            t == lower_seq(elem.tag@),
            hrefv == crate::text::opt_str_view(elem.href),
            applied@.len() == j,
            forall|k: int|
                0 <= k < j ==> (#[trigger] applied@[k])@ == apply_elem_attrs(t, hrefv, flat[k]),
        decreases m - j,
    {
        let piece = apply_to_fragment(elem, &text.fragments[j]);
        let ghost pre = applied@;
        applied.push(piece);
        proof {
            assert(text@[j as int] == text.fragments@[j as int]@);
            assert(applied@ == pre.push(piece));
            assert forall|k: int| 0 <= k < j + 1 implies (#[trigger] applied@[k])@
                == apply_elem_attrs(t, hrefv, flat[k]) by {
                if k < j {
                    assert(pre.push(piece)[k] == pre[k]);
                } else {
                    assert(pre.push(piece)[j as int] == piece);
                }
            }
        }
        j += 1;
    }
    let out = Text { fragments: applied };
    proof {
        assert(out@ =~= flat.map_values(|f: FragView| apply_elem_attrs(t, hrefv, f)));
    }
    Ok(out)
}

/// The tree builder: maps one DOM element to a Section/Text/Empty node, or
/// to the error that makes its parent drop it.
pub fn build_node_from_dom(
    elem: &DomElement,
    allow: &Vec<crate::parse::ParseRule>,
    skip: &Vec<crate::parse::ParseRule>,
    parsing: bool,
    depth: usize,
) -> (r: Result<RawNode, Error>)
    ensures
        node_result_matches(
            r,
            spec_build_node(
                view_delem(*elem),
                allow@.map_values(|x: crate::parse::ParseRule| x@),
                skip@.map_values(|x: crate::parse::ParseRule| x@),
                parsing,
                depth as nat,
            ),
        ),
    decreases depth, 2int, 0int,
{
    broadcast use group_dom_views;

    let ghost allowv = allow@.map_values(|x: crate::parse::ParseRule| x@);
    let ghost skipv = skip@.map_values(|x: crate::parse::ParseRule| x@);
    if depth == 0 {
        return Err(Error::DepthExceeded);
    }
    let capture = parsing || any_matches(allow, elem);
    if any_matches(skip, elem) {
        return Ok(RawNode::Empty);
    }
    let container = is_container_tag_ex(&elem.tag);
    let list = is_list_tag_ex(&elem.tag);
    if container || list {
        let mut section = if container {
            Section::new_set()
        } else {
            Section::new_list()
        };
        let ghost cv: Seq<DomView> = view_dchildren(elem.children@);
        let ghost d1: nat = (depth - 1) as nat;
        let n = elem.children.len();
        let mut i: usize = 0;
        while i < n
            invariant
                i <= n,
                n == elem.children.len(),
                depth >= 1,
                cv == view_dchildren(elem.children@),
                cv.len() == n,
                d1 == (depth - 1) as nat,
                allowv == allow@.map_values(|x: crate::parse::ParseRule| x@),
                skipv == skip@.map_values(|x: crate::parse::ParseRule| x@),
                section.ordering == (if container {
                    SectionOrdering::Unordered
                } else {
                    SectionOrdering::List
                }),
                view_nodes(section.nodes@) =~= spec_build_children(
                    cv.take(i as int),
                    allowv,
                    skipv,
                    capture,
                    d1,
                ),
            decreases n - i,
        {
            broadcast use group_dom_views;
            broadcast use crate::node::group_node_views;

            proof {
                assert(cv.take(i + 1).drop_last() =~= cv.take(i as int));
                assert(cv.take(i + 1).last() == cv[i as int]);
                assert(cv[i as int] == crate::dom::view_dnode(elem.children@[i as int]));
            }
            match &elem.children[i] {
                DomNode::Element(e) => {
                    match build_node_from_dom(e, allow, skip, capture, depth - 1) {
                        Ok(child) => {
                            let ghost pre = section.nodes@;
                            section.nodes.push(Node::new(child));
                            proof {
                                assert(view_nodes(section.nodes@) =~= view_nodes(pre).push(
                                    view_node(section.nodes@.last().0),
                                ));
                            }
                        },
                        Err(_) => {},
                    }
                },
                DomNode::Text(_) => {},
            }
            proof {
                assert(view_nodes(section.nodes@) =~= spec_build_children(
                    cv.take(i + 1),
                    allowv,
                    skipv,
                    capture,
                    d1,
                ));
            }
            i += 1;
        }
        proof {
            assert(cv.take(n as int) =~= cv);
        }
        return Ok(RawNode::Section(section));
    }
    if is_inline_tag_ex(&elem.tag) {
        if capture {
            return match build_text_from_dom(elem, depth) {
                Ok(t) => Ok(RawNode::Text(t)),
                Err(err) => Err(err),
            };
        } else {
            return Ok(RawNode::Empty);
        }
    }
    Err(Error::Unsupported)
}

/// Filter precedence: a skip-rule match makes the element's whole subtree
/// `Empty`, whatever the allow rules say and whatever the subtree holds;
/// and the minimizer never keeps an `Empty` child, so a skipped element
/// leaves no content behind.
pub proof fn lemma_skip_rule_prunes(
    e: ElemView,
    allow: Seq<RuleView>,
    skip: Seq<RuleView>,
    parsing: bool,
    depth: nat,
)
    requires
        depth >= 1,
        any_rule_matches(skip, e.tag, e.classes),
    ensures
        spec_build_node(e, allow, skip, parsing, depth) == Ok::<NodeView, Error>(
            NodeView::EmptyNode,
        ),
        !crate::node::keep_node(NodeView::EmptyNode),
{
}

impl RawNode {
    /// Builds the tree for one DOM element under the given configuration.
    ///
    /// The whole subtree of a skip-rule match is `Empty`; an element with no
    /// builder rule fails with `Unsupported`; an exhausted depth budget
    /// fails with `DepthExceeded`. Failures below the root are dropped by
    /// the enclosing section, so only the root's own failure reaches the
    /// caller.
    pub fn from_dom(elem: &DomElement, flags: &ParseFlags) -> (r: Result<RawNode, Error>)
        ensures
            node_result_matches(
                r,
                spec_build_node(
                    view_delem(*elem),
                    flags@.allow,
                    flags@.skip,
                    flags@.parsing,
                    flags@.remaining_depth as nat,
                ),
            ),
    {
        build_node_from_dom(elem, &flags.allow, &flags.skip, flags.parsing, flags.remaining_depth)
    }
}

} // verus!
