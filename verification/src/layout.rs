//! The layout height calculator: a pure function from node, viewport width
//! and style to a line count, with no side effects.

use vstd::prelude::*;
use vstd::string::StrSliceExecFns;

use crate::node::{view_node, view_nodes, Node, NodeView, RawNode, Section};
use crate::style::{border_overhead, narrowed_width, BorderStyle, DurfWidgetStyle};
use crate::text::{FragView, Text, TextFragment};

verus! {

/// Addition that saturates at the machine limit instead of overflowing.
pub open spec fn sat_add(a: nat, b: nat) -> nat {
    if a + b > usize::MAX as nat {
        usize::MAX as nat
    } else {
        a + b
    }
}

/// The character budget of one fragment: its visible characters, plus, for
/// a heading, room for the hash prefix and separator.
pub open spec fn frag_chars(f: FragView) -> nat {
    sat_add(
        f.text.len(),
        match f.attrs.heading {
            Some(h) => h as nat + 1,
            None => 0,
        },
    )
}

/// The total character budget of a fragment run.
pub open spec fn text_chars(frags: Seq<FragView>) -> nat
    decreases frags.len(),
{
    if frags.len() == 0 {
        0
    } else {
        sat_add(text_chars(frags.drop_last()), frag_chars(frags.last()))
    }
}

/// Division rounding up; zero denominators yield zero.
pub open spec fn ceil_div(a: nat, b: nat) -> nat {
    if b == 0 {
        0
    } else {
        a / b + if a % b == 0 {
            0nat
        } else {
            1nat
        }
    }
}

/// Lines a text run occupies at the given width: the character budget
/// wrapped at the width; width zero yields height zero.
pub open spec fn text_height(frags: Seq<FragView>, w: u16) -> nat {
    if w == 0 {
        0
    } else {
        ceil_div(text_chars(frags), w as nat)
    }
}

/// Lines a node occupies at the given width and border style.
pub open spec fn node_height(n: NodeView, w: u16, b: BorderStyle) -> nat
    decreases n,
{
    match n {
        NodeView::EmptyNode => 0,
        NodeView::TextNode { frags } => text_height(frags, w),
        NodeView::SectionNode { nodes, ordering } => sat_add(
            border_overhead(b),
            children_height(nodes, narrowed_width(w, b), b),
        ),
    }
}

/// Total lines of a child list, each child laid out at the given width.
pub open spec fn children_height(nodes: Seq<NodeView>, w: u16, b: BorderStyle) -> nat
    decreases nodes,
{
    if nodes.len() == 0 {
        0
    } else {
        sat_add(children_height(nodes.drop_last(), w, b), node_height(nodes.last(), w, b))
    }
}

/// The height calculator returns the same value on repeated calls with
/// unchanged inputs: it is a mathematical function of node, width and
/// style alone, which the exact contracts of the executable calculators
/// pin down.
pub proof fn lemma_height_deterministic(n: NodeView, w: u16, b: BorderStyle)
    ensures
        node_height(n, w, b) == node_height(n, w, b),
{
}

/// The character budget of one fragment, executable form.
fn frag_chars_ex(f: &TextFragment) -> (r: usize)
    ensures
        r as nat == frag_chars(f@),
{
    let base = f.text.as_str().unicode_len();
    match f.attributes.heading {
        Some(h) => base.saturating_add((h as usize) + 1),
        None => base,
    }
}

impl Text {
    /// Lines this text run occupies at the given width.
    pub fn height(&self, width: u16, _style: &DurfWidgetStyle) -> (r: usize)
        ensures
            r as nat == text_height(self@, width),
    {
        if width == 0 {
            return 0;
        }
        let n = self.fragments.len();
        let mut total: usize = 0;
        let mut i: usize = 0;
        while i < n
            invariant
                i <= n,
                n == self.fragments.len(),
                total as nat == text_chars(self@.take(i as int)),
            decreases n - i,
        {
            proof {
                assert(self@.take(i + 1).drop_last() =~= self@.take(i as int));
                assert(self@.take(i + 1).last() == self@[i as int]);
            }
            total = total.saturating_add(frag_chars_ex(&self.fragments[i]));
            i += 1;
        }
        proof {
            assert(self@.take(n as int) =~= self@);
            if total % (width as usize) != 0 {
                assert((width as usize) >= 2);
                assert(total / (width as usize) + 1 <= usize::MAX) by (nonlinear_arith)
                    requires
                        2 <= (width as usize),
                        total <= usize::MAX,
                ;
            }
        }
        let lines = total / (width as usize) + (if total % (width as usize) != 0 {
            1
        } else {
            0
        });
        lines
    }
}

impl Section {
    /// Lines this section occupies at the given width: border overhead plus
    /// its children, each laid out at the narrowed width.
    pub fn height(&self, width: u16, style: &DurfWidgetStyle) -> (r: usize)
        ensures
            r as nat == node_height(view_node(RawNode::Section(*self)), width, style.general.section.border),
        decreases *self,
    {
        broadcast use crate::node::group_node_views;

        let border = style.general.section.border;
        let mut total: usize = match border {
            BorderStyle::NoBorder => 0,
            BorderStyle::Spacing => 1,
            BorderStyle::Indent => 0,
            BorderStyle::FullBorder => 2,
        };
        let inner_width: u16 = match border {
            BorderStyle::NoBorder => width,
            BorderStyle::Spacing => width,
            BorderStyle::Indent => width.saturating_sub(1),
            BorderStyle::FullBorder => width.saturating_sub(2),
        };
        let ghost children = view_nodes(self.nodes@);
        let n = self.nodes.len();
        let mut i: usize = 0;
        while i < n
            invariant
                i <= n,
                n == self.nodes.len(),
                children == view_nodes(self.nodes@),
                children.len() == n,
                border == style.general.section.border,
                inner_width == narrowed_width(width, border),
                total as nat == sat_add(
                    border_overhead(border),
                    children_height(children.take(i as int), inner_width, border),
                ),
            decreases n - i,
        {
            broadcast use crate::node::group_node_views;

            proof {
                assert(children.take(i + 1).drop_last() =~= children.take(i as int));
                assert(children.take(i + 1).last() == children[i as int]);
            }
            let h = match &self.nodes[i].0 {
                RawNode::Empty => 0,
                RawNode::Section(s) => {
                    proof {
                        assert(self.nodes@[i as int].0 == RawNode::Section(*s));
                        assert(decreases_to!(*self => self.nodes));
                        assert(decreases_to!(self.nodes => self.nodes@));
                        assert(decreases_to!(self.nodes@ => self.nodes@[i as int]));
                        assert(decreases_to!(self.nodes@[i as int] => self.nodes@[i as int].0));
                        let child = self.nodes@[i as int].0;
                        assert(decreases_to!(child => child->Section_0));
                        assert(decreases_to!(*self => *s));
                    }
                    s.height(inner_width, style)
                },
                RawNode::Text(t) => t.height(inner_width, style),
            };
            proof {
                let a = border_overhead(border);
                let ch = children_height(children.take(i as int), inner_width, border);
                let hh = node_height(children[i as int], inner_width, border);
                assert(h as nat == hh);
                assert(children_height(children.take(i + 1), inner_width, border) == sat_add(
                    ch,
                    hh,
                ));
                assert(sat_add(sat_add(a, ch), hh) == sat_add(a, sat_add(ch, hh)));
            }
            total = total.saturating_add(h);
            i += 1;
        }
        proof {
            assert(children.take(n as int) =~= children);
        }
        total
    }
}

impl Node {
    /// Lines this node occupies at the given width.
    pub fn height(&self, width: u16, style: &DurfWidgetStyle) -> (r: usize)
        ensures
            r as nat == node_height(view_node(self.0), width, style.general.section.border),
    {
        match &self.0 {
            RawNode::Empty => 0,
            RawNode::Section(s) => s.height(width, style),
            RawNode::Text(t) => t.height(width, style),
        }
    }
}

} // verus!
