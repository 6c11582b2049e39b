//! The document-object model the tree builder consumes: per element, a
//! lowercase-insensitive tag, an optional `href`, class names, and ordered
//! children (elements and raw text).

use vstd::prelude::*;
use vstd::string::StringExecFns;

verus! {

/// Mathematical image of a DOM element.
pub struct ElemView {
    pub tag: Seq<char>,
    pub href: Option<Seq<char>>,
    pub classes: Seq<Seq<char>>,
    pub children: Seq<DomView>,
}

/// Mathematical image of a DOM node.
pub enum DomView {
    /// An element with tag, attributes and children.
    ElementV(ElemView),
    /// A raw text node.
    TextV(Seq<char>),
}

/// A DOM element handed to the tree builder.
#[derive(Debug)]
pub struct DomElement {
    /// The element's tag name.
    pub tag: String,
    /// The element's `href` attribute, if present.
    pub href: Option<String>,
    /// The element's class names.
    pub classes: Vec<String>,
    /// The ordered child nodes.
    pub children: Vec<DomNode>,
}

/// A DOM node: an element or raw text.
#[derive(Debug)]
pub enum DomNode {
    /// A child element.
    Element(DomElement),
    /// A raw text child.
    Text(String),
}

/// View of a class list as character sequences.
pub open spec fn view_classes(classes: Seq<String>) -> Seq<Seq<char>> {
    classes.map_values(|s: String| s@)
}

/// Mathematical image of an element.
pub open spec fn view_delem(e: DomElement) -> ElemView
    decreases e,
{
    ElemView {
        tag: e.tag@,
        href: crate::text::opt_str_view(e.href),
        classes: view_classes(e.classes@),
        children: view_dchildren(e.children@),
    }
}

/// Mathematical image of a DOM node.
pub open spec fn view_dnode(n: DomNode) -> DomView
    decreases n,
{
    match n {
        DomNode::Element(e) => DomView::ElementV(view_delem(e)),
        DomNode::Text(s) => DomView::TextV(s@),
    }
}

/// Mathematical image of a child list.
pub open spec fn view_dchildren(children: Seq<DomNode>) -> Seq<DomView>
    decreases children,
{
    if children.len() == 0 {
        Seq::empty()
    } else {
        view_dchildren(children.drop_last()).push(view_dnode(children.last()))
    }
}

/// A DOM child list views to a sequence of the same length.
pub broadcast proof fn lemma_view_dchildren_len(children: Seq<DomNode>)
    ensures
        (#[trigger] view_dchildren(children)).len() == children.len(),
    decreases children,
{
    if children.len() > 0 {
        lemma_view_dchildren_len(children.drop_last());
    }
}

/// A DOM child list views position by position.
pub broadcast proof fn lemma_view_dchildren_index(children: Seq<DomNode>, i: int)
    requires
        0 <= i < children.len(),
    ensures
        #[trigger] view_dchildren(children)[i] == view_dnode(children[i]),
    decreases children,
{
    lemma_view_dchildren_len(children);
    if i < children.len() - 1 {
        lemma_view_dchildren_index(children.drop_last(), i);
        assert(children.drop_last()[i] == children[i]);
    }
}

/// The lemmas connecting a DOM child list to its view.
pub broadcast group group_dom_views {
    lemma_view_dchildren_len,
    lemma_view_dchildren_index,
}

impl DomElement {
    /// An element with no attributes and no children, for building DOM
    /// values by hand.
    pub fn new(tag: &str) -> (r: DomElement)
        ensures
            view_delem(r) == (ElemView {
                tag: tag@,
                href: None,
                classes: Seq::<Seq<char>>::empty(),
                children: Seq::<DomView>::empty(),
            }),
    {
        let r = DomElement {
            tag: String::from_str(tag),
            href: None,
            classes: Vec::new(),
            children: Vec::new(),
        };
        proof {
            assert(view_classes(r.classes@) =~= Seq::<Seq<char>>::empty());
            assert(view_dchildren(r.children@) =~= Seq::<DomView>::empty());
        }
        r
    }

    /// Sets the `href` attribute.
    pub fn set_href(&mut self, href: &str)
        ensures
            view_delem(*final(self)) == (ElemView {
                href: Some(href@),
                ..view_delem(*old(self))
            }),
    {
        self.href = Some(String::from_str(href));
    }

    /// Adds one class name.
    pub fn add_class(&mut self, class: &str)
        ensures
            view_delem(*final(self)) == (ElemView {
                classes: view_delem(*old(self)).classes.push(class@),
                ..view_delem(*old(self))
            }),
    {
        self.classes.push(String::from_str(class));
        proof {
            assert(view_classes(self.classes@) =~= view_classes(old(self).classes@).push(
                class@,
            ));
        }
    }

    /// Appends a child element.
    pub fn add_child(&mut self, child: DomElement)
        ensures
            view_delem(*final(self)) == (ElemView {
                children: view_delem(*old(self)).children.push(
                    DomView::ElementV(view_delem(child)),
                ),
                ..view_delem(*old(self))
            }),
    {
        self.children.push(DomNode::Element(child));
        proof {
            assert(self.children@.drop_last() =~= old(self).children@);
            assert(view_dchildren(self.children@) =~= view_dchildren(old(self).children@).push(
                view_dnode(self.children@.last()),
            ));
        }
    }

    /// Appends a raw text child.
    pub fn add_text(&mut self, text: &str)
        ensures
            view_delem(*final(self)) == (ElemView {
                children: view_delem(*old(self)).children.push(DomView::TextV(text@)),
                ..view_delem(*old(self))
            }),
    {
        self.children.push(DomNode::Text(String::from_str(text)));
        proof {
            assert(self.children@.drop_last() =~= old(self).children@);
            assert(view_dchildren(self.children@) =~= view_dchildren(old(self).children@).push(
                view_dnode(self.children@.last()),
            ));
        }
    }
}

} // verus!
