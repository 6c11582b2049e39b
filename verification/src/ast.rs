//! The parsed document: a tree with one root node, its minimization, and
//! its structural dump.

use vstd::prelude::*;
use vstd::string::{StrSliceExecFns, StringExecFns};

use crate::builder::spec_build_node;
use crate::dom::{view_delem, DomElement};
use crate::node::{
    export_node, spec_min, view_node, view_nodes, Node, NodeView, RawNode, Section,
    SectionOrdering,
};
use crate::parse::ParseFlags;
use crate::text::{AttrView, FragView, Text};
use crate::Error;

verus! {

/// A parsed document tree.
#[derive(Debug)]
pub struct Ast {
    /// The root node of the document.
    pub root: Node,
}

/// The position of the first newline in a character sequence, or its length
/// when it holds none.
pub open spec fn first_newline(s: Seq<char>) -> int
    decreases s.len(),
{
    if s.len() == 0 {
        0
    } else if s.first() == '\n' {
        0
    } else {
        1 + first_newline(s.drop_first())
    }
}

/// A scan that finds no newline before `k`, and a newline (or the end) at
/// `k`, has found `first_newline`.
pub proof fn lemma_first_newline_is(s: Seq<char>, k: int)
    requires
        0 <= k <= s.len(),
        forall|j: int| 0 <= j < k ==> s[j] != '\n',
        k < s.len() ==> s[k] == '\n',
    ensures
        first_newline(s) == k,
    decreases s.len(),
{
    if s.len() > 0 && s.first() != '\n' {
        assert forall|j: int| 0 <= j < k - 1 implies s.drop_first()[j] != '\n' by {
            assert(s.drop_first()[j] == s[j + 1]);
        }
        if k < s.len() {
            assert(s.drop_first()[k - 1] == s[k]);
        }
        lemma_first_newline_is(s.drop_first(), k - 1);
    }
}

/// The lines of a text, split on newlines. A text without newlines is one
/// line; every newline ends a line, and the (possibly empty) tail after the
/// last newline is the final line.
pub open spec fn split_lines(s: Seq<char>) -> Seq<Seq<char>>
    decreases s.len(),
{
    let k = first_newline(s);
    if 0 <= k && k < s.len() {
        seq![s.take(k)] + split_lines(s.skip(k + 1))
    } else {
        seq![s]
    }
}

/// The tree node one line of plain text becomes.
pub open spec fn line_node(l: Seq<char>) -> NodeView {
    NodeView::TextNode { frags: seq![FragView { text: l, attrs: AttrView::plain() }] }
}

impl Ast {
    /// Builds the document tree for one DOM element under the given
    /// configuration.
    pub fn from_dom(elem: &DomElement, flags: &ParseFlags) -> (r: Result<Ast, Error>)
        ensures
            (match (r, spec_build_node(
                view_delem(*elem),
                flags@.allow,
                flags@.skip,
                flags@.parsing,
                flags@.remaining_depth as nat,
            )) {
                (Ok(a), Ok(v)) => view_node(a.root.0) == v,
                (Err(a), Err(b)) => a == b,
                _ => false,
            }),
    {
        match RawNode::from_dom(elem, flags) {
            Ok(root) => Ok(Ast { root: Node::new(root) }),
            Err(e) => Err(e),
        }
    }

    /// Builds the document tree from HTML text.
    ///
    /// The text is parsed by the HTML parsing crate; the resulting DOM is
    /// rebuilt as the library's own model and handed to the tree builder
    /// under the given configuration. Only the root element's own failure
    /// reaches the caller; every other failure prunes its subtree locally.
    pub fn from_html(document: &str, flags: ParseFlags) -> (r: Result<Ast, Error>)
        ensures
            (match (r, spec_build_node(
                crate::html::spec_dom_root(crate::html::events_of(document@)),
                flags@.allow,
                flags@.skip,
                flags@.parsing,
                flags@.remaining_depth as nat,
            )) {
                (Ok(a), Ok(v)) => view_node(a.root.0) == v,
                (Err(a), Err(b)) => a == b,
                _ => false,
            }),
    {
        let events = crate::html::parse_events(document);
        let root = crate::html::dom_from_events(&events);
        Ast::from_dom(&root, &flags)
    }

    /// Builds a document from plain text: one unordered section holding one
    /// text node per line.
    pub fn from_text(document: &str, _flags: ParseFlags) -> (r: Result<Ast, Error>)
        ensures
            r matches Ok(a) && view_node(a.root.0) == (NodeView::SectionNode {
                nodes: split_lines(document@).map_values(|l: Seq<char>| line_node(l)),
                ordering: SectionOrdering::Unordered,
            }),
    {
        broadcast use crate::node::group_node_views;

        let n = document.unicode_len();
        let mut section = Section::new_set();
        let mut start: usize = 0;
        let mut i: usize = 0;
        let ghost mut done: Seq<Seq<char>> = Seq::empty();
        proof {
            assert(document@.skip(0) =~= document@);
        }
        while i < n
            invariant
                start <= i <= n,
                n == document@.len(),
                section.ordering == SectionOrdering::Unordered,
                forall|j: int| start <= j < i ==> document@[j] != '\n',
                section.nodes@.len() == done.len(),
                forall|k: int|
                    0 <= k < done.len() ==> view_node(#[trigger] section.nodes@[k].0) == line_node(
                        done[k],
                    ),
                split_lines(document@) =~= done + split_lines(document@.skip(start as int)),
            decreases n - i,
        {
            if document.get_char(i) == '\n' {
                let line = document.substring_char(start, i);
                let ghost pre = section.nodes@;
                let ghost dpre = done;
                section.nodes.push(Node::new(RawNode::Text(Text::from_fragment(line))));
                proof {
                    let rest = document@.skip(start as int);
                    assert forall|j: int| 0 <= j < i - start implies rest[j] != '\n' by {
                        assert(rest[j] == document@[start + j]);
                    }
                    assert(rest[i - start] == document@[i as int]);
                    lemma_first_newline_is(rest, i - start);
                    assert(rest.take(i - start) =~= document@.subrange(start as int, i as int));
                    assert(rest.skip(i - start + 1) =~= document@.skip(i + 1));
                    assert(split_lines(rest) == seq![document@.subrange(start as int, i as int)]
                        + split_lines(document@.skip(i + 1)));
                    done = dpre.push(document@.subrange(start as int, i as int));
                    assert(section.nodes@ == pre.push(section.nodes@[pre.len() as int]));
                    assert forall|k: int| 0 <= k < done.len() implies view_node(
                        #[trigger] section.nodes@[k].0,
                    ) == line_node(done[k]) by {
                        if k < dpre.len() {
                            assert(pre.push(section.nodes@[pre.len() as int])[k] == pre[k]);
                            assert(dpre.push(document@.subrange(start as int, i as int))[k]
                                == dpre[k]);
                        }
                    }
                    assert(split_lines(document@) =~= done + split_lines(document@.skip(i + 1)));
                }
                start = i + 1;
            }
            i += 1;
        }
        let tail = document.substring_char(start, n);
        let ghost pre = section.nodes@;
        let ghost dpre = done;
        section.nodes.push(Node::new(RawNode::Text(Text::from_fragment(tail))));
        proof {
            broadcast use crate::node::group_node_views;

            let rest = document@.skip(start as int);
            assert forall|j: int| 0 <= j < rest.len() implies rest[j] != '\n' by {
                assert(rest[j] == document@[start + j]);
            }
            lemma_first_newline_is(rest, rest.len() as int);
            assert(split_lines(rest) == seq![rest]);
            done = dpre.push(rest);
            assert(section.nodes@ == pre.push(section.nodes@[pre.len() as int]));
            assert forall|k: int| 0 <= k < done.len() implies view_node(
                #[trigger] section.nodes@[k].0,
            ) == line_node(done[k]) by {
                if k < dpre.len() {
                    assert(pre.push(section.nodes@[pre.len() as int])[k] == pre[k]);
                    assert(dpre.push(rest)[k] == dpre[k]);
                }
            }
            assert(split_lines(document@) =~= done);
            assert(view_nodes(section.nodes@) =~= split_lines(document@).map_values(
                |l: Seq<char>| line_node(l),
            ));
        }
        Ok(Ast { root: Node::new(RawNode::Section(section)) })
    }

    /// Minimizes the document tree in place.
    pub fn minimize(&mut self)
        ensures
            view_node(final(self).root.0) == spec_min(view_node(old(self).root.0)),
    {
        self.root.0.minimize();
    }

    /// An indented structural dump of the document, for inspection.
    pub fn export_string(&self) -> (r: String)
        ensures
            r@ == "AST:\n"@ + export_node(view_node(self.root.0), 0),
    {
        let mut out = String::from_str("AST:\n");
        let body = self.root.0.export_string(0);
        out.append(body.as_str());
        out
    }
}

} // verus!
