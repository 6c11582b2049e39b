//! The document tree: sections, text nodes, and the structural
//! minimization pass.

use vstd::prelude::*;
use vstd::string::StringExecFns;

use crate::text::{clean_frags, lemma_clean_frags_idempotent, md_frags, FragView, Text};

verus! {

/// Ordering kind of a section, assigned once at creation.
#[derive(Copy, Clone, Debug, PartialEq, Eq, Structural)]
pub enum SectionOrdering {
    /// Just items, in order (an unordered container in the markup sense).
    Unordered,
    /// Bulleted items.
    List,
    /// Ordered, enumerated items.
    Enumeration,
}

/// Mathematical image of a tree node.
pub enum NodeView {
    /// A node with no content.
    EmptyNode,
    /// A grouping node with ordered children.
    SectionNode { nodes: Seq<NodeView>, ordering: SectionOrdering },
    /// An inline-text node.
    TextNode { frags: Seq<FragView> },
}

/// A node in the document tree.
#[derive(Debug)]
pub enum RawNode {
    /// A node with no content.
    Empty,
    /// A grouping node.
    Section(Section),
    /// An inline-text node.
    Text(Text),
}

/// A tree node as stored by its parent.
#[derive(Debug)]
pub struct Node(pub RawNode);

/// A section of nodes.
#[derive(Debug)]
pub struct Section {
    /// The child nodes, in document order.
    pub nodes: Vec<Node>,
    /// Ordering kind for the children.
    pub ordering: SectionOrdering,
}

/// Mathematical image of a node.
pub open spec fn view_node(n: RawNode) -> NodeView
    decreases n,
{
    match n {
        RawNode::Empty => NodeView::EmptyNode,
        RawNode::Section(s) => NodeView::SectionNode {
            nodes: view_nodes(s.nodes@),
            ordering: s.ordering,
        },
        RawNode::Text(t) => NodeView::TextNode { frags: t@ },
    }
}

/// Mathematical image of a child list.
pub open spec fn view_nodes(nodes: Seq<Node>) -> Seq<NodeView>
    decreases nodes,
{
    if nodes.len() == 0 {
        Seq::empty()
    } else {
        seq![view_node(nodes.first().0)] + view_nodes(nodes.drop_first())
    }
}

/// A child list views to a sequence of the same length.
pub broadcast proof fn lemma_view_nodes_len(nodes: Seq<Node>)
    ensures
        (#[trigger] view_nodes(nodes)).len() == nodes.len(),
    decreases nodes,
{
    if nodes.len() > 0 {
        lemma_view_nodes_len(nodes.drop_first());
    }
}

/// A child list views position by position.
pub broadcast proof fn lemma_view_nodes_index(nodes: Seq<Node>, i: int)
    requires
        0 <= i < nodes.len(),
    ensures
        #[trigger] view_nodes(nodes)[i] == view_node(nodes[i].0),
    decreases nodes,
{
    lemma_view_nodes_len(nodes);
    if i > 0 {
        lemma_view_nodes_index(nodes.drop_first(), i - 1);
    }
}

/// The lemmas connecting a child list to its view.
pub broadcast group group_node_views {
    lemma_view_nodes_len,
    lemma_view_nodes_index,
}

/// Whether a node is a section with nothing but recursively empty sections
/// below it. An `Empty` or text child makes the section non-empty in this
/// sense; the judgement mirrors which children the minimizer prunes.
pub open spec fn node_sec_empty(n: NodeView) -> bool
    decreases n,
{
    match n {
        NodeView::SectionNode { nodes, ordering } => sec_children_empty(nodes),
        _ => false,
    }
}

/// Whether every node of a child list is a recursively empty section.
pub open spec fn sec_children_empty(nodes: Seq<NodeView>) -> bool
    decreases nodes,
{
    forall|i: int| 0 <= i < nodes.len() ==> node_sec_empty(#[trigger] nodes[i])
}

/// Whether the minimizer keeps a child: `Empty` nodes and recursively empty
/// sections are dropped, everything else stays.
pub open spec fn keep_node(n: NodeView) -> bool {
    !(n is EmptyNode) && !node_sec_empty(n)
}

/// The children a minimized section retains: a child survives when it is
/// kept both before and after its own minimization, and it survives in
/// minimized form, in order.
pub open spec fn min_survivors(nodes: Seq<NodeView>) -> Seq<NodeView>
    decreases nodes,
{
    if nodes.len() == 0 {
        Seq::empty()
    } else {
        let c = nodes.first();
        let m = spec_min(c);
        let rest = min_survivors(nodes.drop_first());
        if keep_node(c) && keep_node(m) {
            seq![m] + rest
        } else {
            rest
        }
    }
}

/// The minimization pass, as a mathematical function.
///
/// Text nodes have their decorative filler stripped; sections drop `Empty`
/// and recursively empty children before and after minimizing the rest; an
/// `Unordered` section left with exactly one child is replaced by that child.
pub open spec fn spec_min(n: NodeView) -> NodeView
    decreases n,
{
    match n {
        NodeView::EmptyNode => NodeView::EmptyNode,
        NodeView::TextNode { frags } => NodeView::TextNode { frags: clean_frags(frags) },
        NodeView::SectionNode { nodes, ordering } => {
            if nodes.len() == 0 {
                NodeView::SectionNode { nodes, ordering }
            } else {
                let survivors = min_survivors(nodes);
                if survivors.len() == 1 && ordering == SectionOrdering::Unordered {
                    survivors[0]
                } else {
                    NodeView::SectionNode { nodes: survivors, ordering }
                }
            }
        },
    }
}

/// Unrolls [`min_survivors`] at position `i` of a suffix.
proof fn lemma_min_survivors_skip(nodes: Seq<NodeView>, i: int)
    requires
        0 <= i < nodes.len(),
    ensures
        min_survivors(nodes.skip(i)) == (if keep_node(nodes[i]) && keep_node(spec_min(nodes[i])) {
            seq![spec_min(nodes[i])] + min_survivors(nodes.skip(i + 1))
        } else {
            min_survivors(nodes.skip(i + 1))
        }),
{
    assert(nodes.skip(i).len() == nodes.len() - i);
    assert(nodes.skip(i).first() == nodes[i]);
    assert(nodes.skip(i).drop_first() =~= nodes.skip(i + 1));
}

impl Section {
    /// An empty section holding plain items.
    pub fn new_set() -> (r: Section)
        ensures
            view_nodes(r.nodes@) =~= Seq::<NodeView>::empty(),
            r.ordering == SectionOrdering::Unordered,
    {
        Section { nodes: Vec::new(), ordering: SectionOrdering::Unordered }
    }

    /// An empty section holding bulleted items.
    pub fn new_list() -> (r: Section)
        ensures
            view_nodes(r.nodes@) =~= Seq::<NodeView>::empty(),
            r.ordering == SectionOrdering::List,
    {
        Section { nodes: Vec::new(), ordering: SectionOrdering::List }
    }

    /// An empty section holding numbered items.
    pub fn new_enumeration() -> (r: Section)
        ensures
            view_nodes(r.nodes@) =~= Seq::<NodeView>::empty(),
            r.ordering == SectionOrdering::Enumeration,
    {
        Section { nodes: Vec::new(), ordering: SectionOrdering::Enumeration }
    }

    /// Whether every child is a recursively empty section.
    pub fn is_empty(&self) -> (r: bool)
        ensures
            r == sec_children_empty(view_nodes(self.nodes@)),
        decreases *self,
    {
        broadcast use group_node_views;

        let n = self.nodes.len();
        let mut i: usize = 0;
        while i < n
            invariant
                i <= n,
                n == self.nodes.len(),
                forall|j: int| 0 <= j < i ==> node_sec_empty(#[trigger] view_nodes(self.nodes@)[j]),
            decreases n - i,
        {
            broadcast use group_node_views;

            proof {
                lemma_view_nodes_index(self.nodes@, i as int);
            }
            match &self.nodes[i].0 {
                RawNode::Section(s) => {
                    if !s.is_empty() {
                        proof {
                            assert(!node_sec_empty(view_nodes(self.nodes@)[i as int]));
                            assert(!sec_children_empty(view_nodes(self.nodes@)));
                        }
                        return false;
                    }
                    proof {
                        assert(node_sec_empty(view_nodes(self.nodes@)[i as int]));
                    }
                },
                RawNode::Empty => {
                    proof {
                        assert(!node_sec_empty(view_nodes(self.nodes@)[i as int]));
                        assert(!sec_children_empty(view_nodes(self.nodes@)));
                    }
                    return false;
                },
                RawNode::Text(_) => {
                    proof {
                        assert(!node_sec_empty(view_nodes(self.nodes@)[i as int]));
                        assert(!sec_children_empty(view_nodes(self.nodes@)));
                    }
                    return false;
                },
            }
            i += 1;
        }
        true
    }

    /// The children, in document order.
    pub fn nodes(&self) -> (r: &[Node])
        ensures
            r@ == self.nodes@,
    {
        self.nodes.as_slice()
    }

    /// The ordering kind of the section.
    pub fn ordering(&self) -> (r: &SectionOrdering)
        ensures
            *r == self.ordering,
    {
        &self.ordering
    }
}

impl Node {
    /// Wraps a raw node for storage in a parent.
    pub fn new(raw_node: RawNode) -> (r: Node)
        ensures
            r.0 == raw_node,
    {
        Node(raw_node)
    }
}

/// Whether the minimizer keeps this node, executable form.
pub fn keep_node_ex(n: &RawNode) -> (r: bool)
    ensures
        r == keep_node(view_node(*n)),
{
    match n {
        RawNode::Empty => false,
        RawNode::Section(s) => !s.is_empty(),
        RawNode::Text(_) => true,
    }
}

/// Minimizes an owned node, returning the minimized tree.
fn minimize_owned(n: RawNode) -> (r: RawNode)
    ensures
        view_node(r) == spec_min(view_node(n)),
    decreases n,
{
    broadcast use group_node_views;

    let ghost nv = view_node(n);
    match n {
        RawNode::Empty => RawNode::Empty,
        RawNode::Text(mut t) => {
            t.clean();
            RawNode::Text(t)
        },
        RawNode::Section(s) => {
            if s.nodes.len() == 0 {
                proof {
                    assert(view_nodes(s.nodes@) =~= Seq::<NodeView>::empty());
                }
                return RawNode::Section(s);
            }
            let ghost s0 = s;
            let ghost svec: Seq<Node> = s.nodes@;
            let Section { mut nodes, ordering } = s;
            let ghost orig: Seq<NodeView> = view_nodes(nodes@);
            let n_children = nodes.len();
            let mut survivors: Vec<Node> = Vec::new();
            let mut idx: usize = 0;
            proof {
                assert(orig.skip(0) =~= orig);
                assert(nodes@ =~= svec.skip(0));
            }
            while idx < n_children
                invariant
                    idx <= n_children,
                    nodes@.len() == n_children - idx,
                    orig.len() == n_children,
                    svec.len() == n_children,
                    n == RawNode::Section(s0),
                    s0.nodes@ == svec,
                    orig == view_nodes(svec),
                    nodes@ =~= svec.skip(idx as int),
                    view_nodes(survivors@) + min_survivors(orig.skip(idx as int)) =~= min_survivors(
                        orig,
                    ),
                decreases n_children - idx,
            {
                broadcast use group_node_views;

                let child = nodes.remove(0);
                proof {
                    assert(child == svec[idx as int]);
                    assert(view_node(child.0) == orig[idx as int]);
                    assert(nodes@ =~= svec.skip(idx + 1));
                    lemma_min_survivors_skip(orig, idx as int);
                }
                if keep_node_ex(&child.0) {
                    proof {
                        assert(n == RawNode::Section(s0));
                        assert(child == s0.nodes@[idx as int]);
                        assert(decreases_to!(n => n->Section_0));
                        assert(n->Section_0 == s0);
                        assert(decreases_to!(s0 => s0.nodes));
                        assert(decreases_to!(s0.nodes => s0.nodes@));
                        assert(decreases_to!(s0.nodes@ => s0.nodes@[idx as int]));
                        assert(decreases_to!(s0.nodes@[idx as int] => s0.nodes@[idx as int].0));
                        assert(decreases_to!(n => child.0));
                    }
                    let m = minimize_owned(child.0);
                    if keep_node_ex(&m) {
                        let ghost pre = survivors@;
                        survivors.push(Node(m));
                        proof {
                            assert(view_nodes(survivors@) =~= view_nodes(pre) + seq![
                                spec_min(orig[idx as int]),
                            ]);
                        }
                    }
                }
                idx += 1;
            }
            proof {
                assert(orig.skip(n_children as int) =~= Seq::<NodeView>::empty());
                assert(view_nodes(survivors@) =~= min_survivors(orig));
            }
            if survivors.len() == 1 && ordering == SectionOrdering::Unordered {
                let node = match survivors.pop() {
                    Some(node) => node,
                    None => Node(RawNode::Empty),
                };
                proof {
                    assert(view_node(node.0) == min_survivors(orig)[0]);
                }
                node.0
            } else {
                let out = Section { nodes: survivors, ordering };
                proof {
                    assert(view_node(RawNode::Section(out)) == spec_min(nv));
                }
                RawNode::Section(out)
            }
        },
    }
}

impl RawNode {
    /// Minimizes the tree below this node, in place.
    pub fn minimize(&mut self)
        ensures
            view_node(*final(self)) == spec_min(view_node(*old(self))),
    {
        let mut tmp = RawNode::Empty;
        core::mem::swap(self, &mut tmp);
        *self = minimize_owned(tmp);
    }

    /// An indented structural dump of the tree, for inspection.
    pub fn export_string(&self, depth: usize) -> (r: String)
        ensures
            r@ == export_node(view_node(*self), depth),
        decreases *self,
    {
        broadcast use group_node_views;

        let mut out = String::new();
        let mut k: usize = 0;
        while k < depth
            invariant
                k <= depth,
                out@ =~= indent(k as nat),
            decreases depth - k,
        {
            out.append(" ");
            proof {
                reveal_strlit(" ");
                assert(out@ =~= indent((k + 1) as nat));
            }
            k += 1;
        }
        match self {
            RawNode::Empty => {},
            RawNode::Section(section) => {
                out.append("Section\n");
                let n = section.nodes.len();
                let ghost children = view_nodes(section.nodes@);
                let mut i: usize = 0;
                while i < n
                    invariant
                        i <= n,
                        n == section.nodes.len(),
                        *self == RawNode::Section(*section),
                        children == view_nodes(section.nodes@),
                        children.len() == n,
                        out@ == indent(depth as nat) + "Section\n"@ + export_children(
                            children.take(i as int),
                            sat_inc(depth),
                        ),
                    decreases n - i,
                {
                    broadcast use group_node_views;

                    proof {
                        assert(children.take(i + 1).drop_last() =~= children.take(i as int));
                        assert(children.take(i + 1).last() == children[i as int]);
                        assert(*self == RawNode::Section(*section));
                        let sec = *section;
                        assert(decreases_to!(*self => (*self)->Section_0));
                        assert((*self)->Section_0 == sec);
                        assert(decreases_to!(sec => sec.nodes));
                        assert(decreases_to!(sec.nodes => sec.nodes@));
                        assert(decreases_to!(sec.nodes@ => sec.nodes@[i as int]));
                        assert(decreases_to!(sec.nodes@[i as int] => sec.nodes@[i as int].0));
                        assert(decreases_to!(*self => section.nodes@[i as int].0));
                    }
                    let next_depth = if depth < usize::MAX {
                        depth + 1
                    } else {
                        depth
                    };
                    let piece = section.nodes[i].0.export_string(next_depth);
                    out.append(piece.as_str());
                    i += 1;
                }
                proof {
                    assert(children.take(n as int) =~= children);
                }
            },
            RawNode::Text(text) => {
                out.append("Text: ");
                let md = text.to_markdown();
                out.append(md.as_str());
                out.append("\n");
            },
        }
        proof {
            assert(out@ =~= export_node(view_node(*self), depth));
        }
        out
    }
}

/// `depth` spaces of indentation.
pub open spec fn indent(depth: nat) -> Seq<char> {
    Seq::new(depth, |i: int| ' ')
}

/// The next nesting depth; saturates instead of wrapping at the machine
/// limit.
pub open spec fn sat_inc(depth: usize) -> usize {
    if depth < usize::MAX {
        (depth + 1) as usize
    } else {
        depth
    }
}

/// The structural dump of one node at a nesting depth.
pub open spec fn export_node(n: NodeView, depth: usize) -> Seq<char>
    decreases n,
{
    indent(depth as nat) + match n {
        NodeView::EmptyNode => Seq::<char>::empty(),
        NodeView::SectionNode { nodes, ordering } => "Section\n"@ + export_children(
            nodes,
            sat_inc(depth),
        ),
        NodeView::TextNode { frags } => "Text: "@ + md_frags(frags) + "\n"@,
    }
}

/// The structural dumps of a child list, concatenated.
pub open spec fn export_children(nodes: Seq<NodeView>, depth: usize) -> Seq<char>
    decreases nodes,
{
    if nodes.len() == 0 {
        Seq::empty()
    } else {
        export_children(nodes.drop_last(), depth) + export_node(nodes.last(), depth)
    }
}

/// Minimization leaves only fixed points among a section's surviving
/// children: every survivor is kept and is unchanged by minimizing again.
proof fn lemma_min_survivors_fixed(nodes: Seq<NodeView>)
    ensures
        forall|k: int|
            0 <= k < min_survivors(nodes).len() ==> keep_node(#[trigger] min_survivors(nodes)[k])
                && spec_min(min_survivors(nodes)[k]) == min_survivors(nodes)[k],
    decreases nodes,
{
    if nodes.len() > 0 {
        lemma_min_survivors_fixed(nodes.drop_first());
        lemma_minimize_idempotent(nodes.first());
    }
}

/// A list of kept fixed points survives minimization unchanged.
proof fn lemma_min_survivors_identity(nodes: Seq<NodeView>)
    requires
        forall|k: int|
            0 <= k < nodes.len() ==> keep_node(#[trigger] nodes[k]) && spec_min(nodes[k])
                == nodes[k],
    ensures
        min_survivors(nodes) == nodes,
    decreases nodes,
{
    if nodes.len() > 0 {
        assert(nodes.first() == nodes[0]);
        lemma_min_survivors_identity(nodes.drop_first());
        assert(seq![nodes.first()] + nodes.drop_first() =~= nodes);
    }
}

/// Idempotence of minimization: minimizing an already minimized tree is a
/// no-op.
pub proof fn lemma_minimize_idempotent(n: NodeView)
    ensures
        spec_min(spec_min(n)) == spec_min(n),
    decreases n,
{
    match n {
        NodeView::EmptyNode => {},
        NodeView::TextNode { frags } => {
            lemma_clean_frags_idempotent(frags);
        },
        NodeView::SectionNode { nodes, ordering } => {
            if nodes.len() == 0 {
            } else {
                let survivors = min_survivors(nodes);
                lemma_min_survivors_fixed(nodes);
                if survivors.len() == 1 && ordering == SectionOrdering::Unordered {
                    assert(spec_min(n) == survivors[0]);
                } else {
                    lemma_min_survivors_identity(survivors);
                }
            }
        },
    }
}

/// The collapse law: an `Unordered` section whose minimization leaves
/// exactly one surviving child minimizes to that child itself, and the
/// survivor is already fully minimized.
pub proof fn lemma_set_section_collapse(nodes: Seq<NodeView>)
    requires
        nodes.len() > 0,
        min_survivors(nodes).len() == 1,
    ensures
        spec_min(
            NodeView::SectionNode { nodes, ordering: SectionOrdering::Unordered },
        ) == min_survivors(nodes)[0],
        spec_min(min_survivors(nodes)[0]) == min_survivors(nodes)[0],
{
    lemma_min_survivors_fixed(nodes);
}

} // verus!
