//! HTML ingestion: the HTML text is tokenized and tree-built by the
//! `scraper` crate; its DOM is handed over as a flat stream of open/text/
//! close events, from which the library rebuilds its own DOM model with
//! verified code.

use ego_tree::iter::Edge;
use scraper::Node as MarkupNode;
use vstd::prelude::*;

use crate::dom::{
    group_dom_views, view_dchildren, view_delem, DomElement, DomNode, DomView, ElemView,
};
use crate::text::{clone_opt_string, opt_str_view};

verus! {

/// One traversal event of the parsed DOM: an element opens, raw text
/// occurs, or the innermost open element closes.
#[derive(Debug)]
pub enum DomEvent {
    /// An element with its tag, `href` attribute and classes opens.
    Open { tag: String, href: Option<String>, classes: Vec<String> },
    /// A raw text node.
    Chars(String),
    /// The innermost open element closes.
    Close,
}

/// Mathematical image of a traversal event.
pub enum EventView {
    OpenV { tag: Seq<char>, href: Option<Seq<char>>, classes: Seq<Seq<char>> },
    CharsV(Seq<char>),
    CloseV,
}

impl View for DomEvent {
    type V = EventView;

    open spec fn view(&self) -> EventView {
        match self {
            DomEvent::Open { tag, href, classes } => EventView::OpenV {
                tag: tag@,
                href: opt_str_view(*href),
                classes: crate::dom::view_classes(classes@),
            },
            DomEvent::Chars(s) => EventView::CharsV(s@),
            DomEvent::Close => EventView::CloseV,
        }
    }
}

/// Mathematical image of an event list.
pub open spec fn view_events(evs: Seq<DomEvent>) -> Seq<EventView> {
    evs.map_values(|e: DomEvent| e@)
}

/// The traversal events of the DOM that parsing the document yields. The
/// parse is a function of the text alone.
pub uninterp spec fn events_of(document: Seq<char>) -> Seq<EventView>;

/// Relies on `scraper::Html::parse_document` and the `ego-tree` traversal
/// of its root element: tag name, `href` attribute and class list of each
/// element, and each raw text node, are copied out in document order, with
/// one close event per element. `parse_document` always yields a root
/// element, so `root_element` does not panic.
#[verifier::external_body]
pub(crate) fn parse_events(document: &str) -> (r: Vec<DomEvent>)
    ensures
        view_events(r@) == events_of(document@),
{
    let doc = scraper::Html::parse_document(document);
    let mut evs = Vec::new();
    for edge in doc.root_element().traverse() {
        match edge {
            Edge::Open(n) => match n.value() {
                MarkupNode::Element(e) => evs.push(DomEvent::Open { tag: e.name().to_string(), href: e.attr("href").map(|v| v.to_string()), classes: e.classes().map(|c| c.to_string()).collect() }),
                MarkupNode::Text(t) => evs.push(DomEvent::Chars(t.text.to_string())),
                _ => {},
            },
            Edge::Close(n) => if n.value().is_element() { evs.push(DomEvent::Close) },
        }
    }
    evs
}

/// The recursion budget that suffices to rebuild a tree from an event
/// list: every event is entered at most twice, plus bookkeeping.
pub open spec fn forest_fuel(n: nat) -> usize {
    if 2 * n + 2 > usize::MAX {
        usize::MAX
    } else {
        (2 * n + 2) as usize
    }
}

/// Rebuilds a sibling list from the event stream, starting at `i`: text
/// events become text nodes, an open event gathers children up to the
/// matching close, and a close event (or the end, or exhausted fuel) ends
/// the list. Returns the nodes and the next unconsumed position.
pub open spec fn spec_forest(evs: Seq<EventView>, i: int, fuel: nat) -> (Seq<DomView>, int)
    decreases fuel,
{
    if fuel == 0 || i < 0 || i >= evs.len() {
        (Seq::empty(), i)
    } else {
        match evs[i] {
            EventView::CloseV => (Seq::empty(), i),
            EventView::CharsV(s) => {
                let (rest, j) = spec_forest(evs, i + 1, (fuel - 1) as nat);
                (seq![DomView::TextV(s)] + rest, j)
            },
            EventView::OpenV { tag, href, classes } => {
                let (kids, j) = spec_forest(evs, i + 1, (fuel - 1) as nat);
                let j2 = if 0 <= j < evs.len() && evs[j] is CloseV {
                    j + 1
                } else {
                    j
                };
                let (rest, k) = spec_forest(evs, j2, (fuel - 1) as nat);
                (
                    seq![DomView::ElementV(ElemView { tag, href, classes, children: kids })]
                        + rest,
                    k,
                )
            },
        }
    }
}

/// The first element of a rebuilt sibling list; a list without one yields
/// an element with an empty tag and no content.
pub open spec fn first_element(forest: Seq<DomView>) -> ElemView
    decreases forest.len(),
{
    if forest.len() == 0 {
        ElemView {
            tag: Seq::empty(),
            href: None,
            classes: Seq::empty(),
            children: Seq::empty(),
        }
    } else {
        match forest.first() {
            DomView::ElementV(e) => e,
            DomView::TextV(_) => first_element(forest.drop_first()),
        }
    }
}

/// The root element the event stream describes.
pub open spec fn spec_dom_root(evs: Seq<EventView>) -> ElemView {
    first_element(spec_forest(evs, 0, forest_fuel(evs.len()) as nat).0)
}

/// Copies a list of class names.
fn clone_string_vec(v: &Vec<String>) -> (r: Vec<String>)
    ensures
        crate::dom::view_classes(r@) == crate::dom::view_classes(v@),
{
    let n = v.len();
    let mut out: Vec<String> = Vec::new();
    let mut i: usize = 0;
    while i < n
        invariant
            i <= n,
            n == v@.len(),
            out@.len() == i,
            forall|k: int| 0 <= k < i ==> (#[trigger] out@[k])@ == v@[k]@,
        decreases n - i,
    {
        out.push(v[i].clone());
        i += 1;
    }
    proof {
        assert(crate::dom::view_classes(out@) =~= crate::dom::view_classes(v@));
    }
    out
}

/// Rebuilds a sibling list from the event stream, executable form.
fn forest_from_events(evs: &Vec<DomEvent>, i: usize, fuel: usize) -> (r: (Vec<DomNode>, usize))
    requires
        i <= evs@.len(),
    ensures
        view_dchildren(r.0@) == spec_forest(view_events(evs@), i as int, fuel as nat).0,
        r.1 as int == spec_forest(view_events(evs@), i as int, fuel as nat).1,
        i <= r.1 <= evs@.len(),
    decreases fuel,
{
    broadcast use group_dom_views;

    let ghost ev = view_events(evs@);
    if fuel == 0 || i >= evs.len() {
        let out: Vec<DomNode> = Vec::new();
        proof {
            assert(view_dchildren(out@) =~= Seq::<DomView>::empty());
        }
        return (out, i);
    }
    proof {
        assert(ev[i as int] == evs@[i as int]@);
    }
    match &evs[i] {
        DomEvent::Close => {
            let out: Vec<DomNode> = Vec::new();
            proof {
                assert(view_dchildren(out@) =~= Seq::<DomView>::empty());
            }
            (out, i)
        },
        DomEvent::Chars(s) => {
            let (mut rest, j) = forest_from_events(evs, i + 1, fuel - 1);
            let mut out: Vec<DomNode> = Vec::new();
            out.push(DomNode::Text(s.clone()));
            out.append(&mut rest);
            proof {
                let (sv, sj) = spec_forest(ev, i as int, fuel as nat);
                assert(view_dchildren(out@) =~= sv);
            }
            (out, j)
        },
        DomEvent::Open { tag, href, classes } => {
            let (kids, j) = forest_from_events(evs, i + 1, fuel - 1);
            let j2 = if j < evs.len() && matches!(&evs[j], DomEvent::Close) {
                j + 1
            } else {
                j
            };
            proof {
                if j < evs@.len() {
                    assert(ev[j as int] == evs@[j as int]@);
                }
            }
            let (mut rest, k) = forest_from_events(evs, j2, fuel - 1);
            let elem = DomElement {
                tag: tag.clone(),
                href: clone_opt_string(href),
                classes: clone_string_vec(classes),
                children: kids,
            };
            let mut out: Vec<DomNode> = Vec::new();
            out.push(DomNode::Element(elem));
            out.append(&mut rest);
            proof {
                let (sv, sj) = spec_forest(ev, i as int, fuel as nat);
                assert(view_dchildren(out@) =~= sv);
            }
            (out, k)
        },
    }
}

/// Rebuilds the root element from the event stream.
pub fn dom_from_events(evs: &Vec<DomEvent>) -> (r: DomElement)
    ensures
        view_delem(r) == spec_dom_root(view_events(evs@)),
{
    broadcast use group_dom_views;

    let fuel: usize = match evs.len().checked_mul(2) {
        Some(d) => match d.checked_add(2) {
            Some(f) => f,
            None => usize::MAX,
        },
        None => usize::MAX,
    };
    proof {
        assert(fuel == forest_fuel(evs@.len()));
    }
    let (mut forest, _next) = forest_from_events(evs, 0, fuel);
    let ghost fv = view_dchildren(forest@);
    proof {
        assert(fv.skip(0) =~= fv);
    }
    while forest.len() > 0
        invariant
            fv == spec_forest(view_events(evs@), 0, forest_fuel(evs@.len()) as nat).0,
            first_element(view_dchildren(forest@)) == first_element(fv),
        decreases forest@.len(),
    {
        broadcast use group_dom_views;

        let ghost cur = view_dchildren(forest@);
        proof {
            assert(cur.first() == cur[0]);
        }
        let node = forest.remove(0);
        proof {
            assert(view_dchildren(forest@) =~= cur.drop_first());
            assert(view_dchildren(seq![node].add(forest@)) =~= cur);
        }
        match node {
            DomNode::Element(e) => {
                proof {
                    assert(cur[0] == DomView::ElementV(view_delem(e)));
                }
                return e;
            },
            DomNode::Text(_) => {
                proof {
                    assert(cur[0] is TextV);
                }
            },
        }
    }
    let out = DomElement::new("");
    proof {
        reveal_strlit("");
        assert(view_dchildren(forest@) =~= Seq::<DomView>::empty());
        assert(first_element(fv) == first_element(Seq::<DomView>::empty()));
        assert(""@ =~= Seq::<char>::empty());
        assert(view_delem(out).tag == Seq::<char>::empty());
        assert(view_delem(out) == first_element(fv));
    }
    out
}

} // verus!
