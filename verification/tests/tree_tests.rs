//! Tree building, minimization and the exporters on hand-built documents.

use durf::ast::Ast;
use durf::dom::DomElement;
use durf::node::{RawNode, Section, SectionOrdering};
use durf::parse::{ParseFlags, ParseRule};
use durf::text::{Text, TextAttributes, TextFragment};
use durf::Error;

fn flags_with_depth(depth: usize) -> ParseFlags {
    let mut flags = ParseFlags::default();
    flags.remaining_depth = depth;
    flags
}

#[test]
fn depth_bound_drops_innermost() {
    // <div><div><div><p>x</p></div></div></div> with a budget of 2: the
    // third-level div exceeds the budget, so "x" is gone.
    let mut inner = DomElement::new("div");
    let mut p = DomElement::new("p");
    p.add_text("x");
    inner.add_child(p);
    let mut mid = DomElement::new("div");
    mid.add_child(inner);
    let mut outer = DomElement::new("div");
    outer.add_child(mid);
    let ast = Ast::from_dom(&outer, &flags_with_depth(2));
    assert!(ast.is_ok());
    let mut ast = ast.unwrap();
    ast.minimize();
    assert!(!ast.export_string().contains('x'));
}

#[test]
fn depth_bound_keeps_shallow_sibling() {
    // <div><p>y</p></div> parses fully at depth 1 with the same budget.
    let mut p = DomElement::new("p");
    p.add_text("y");
    let mut outer = DomElement::new("div");
    outer.add_child(p);
    let ast = Ast::from_dom(&outer, &flags_with_depth(2));
    assert!(ast.is_ok());
    let mut ast = ast.unwrap();
    ast.minimize();
    assert!(ast.export_string().contains('y'));
}

#[test]
fn depth_exhausted_at_root_fails() {
    let outer = DomElement::new("div");
    let ast = Ast::from_dom(&outer, &flags_with_depth(0));
    assert!(matches!(ast, Err(Error::DepthExceeded)));
}

#[test]
fn unsupported_root_fails() {
    let outer = DomElement::new("video");
    let ast = Ast::from_dom(&outer, &ParseFlags::default());
    assert!(matches!(ast, Err(Error::Unsupported)));
}

#[test]
fn skip_rule_wins_over_allow() {
    // A skipped element's whole subtree yields no content, even though an
    // allow rule matches a descendant.
    let mut p = DomElement::new("p");
    p.add_text("text");
    let mut ad = DomElement::new("div");
    ad.add_class("ad");
    ad.add_child(p);
    let mut root = DomElement::new("div");
    root.add_child(ad);
    let mut flags = ParseFlags::default();
    flags.skip.push(ParseRule::from_class("ad"));
    flags.allow.push(ParseRule::from_element("p"));
    let ast = Ast::from_dom(&root, &flags);
    assert!(ast.is_ok());
    let mut ast = ast.unwrap();
    ast.minimize();
    assert!(!ast.export_string().contains("text"));
}

#[test]
fn skip_rule_class_is_case_insensitive() {
    let mut ad = DomElement::new("div");
    ad.add_class("AdBanner");
    ad.add_text("junk");
    let mut root = DomElement::new("div");
    root.add_child(ad);
    let mut flags = ParseFlags::default();
    flags.skip.push(ParseRule::from_class("adbanner"));
    let ast = Ast::from_dom(&root, &flags).unwrap();
    assert!(!ast.export_string().contains("junk"));
}

#[test]
fn ruby_annotation_merges() {
    let ast = Ast::from_html(
        "<html><body><p><ruby>\u{65e5}<rt>\u{306b}\u{3061}</rt></ruby></p></body></html>",
        ParseFlags::default(),
    );
    assert!(ast.is_ok());
    let mut ast = ast.unwrap();
    ast.minimize();
    // After minimization the chain of single-child sections collapses down
    // to the one text node.
    match &ast.root.0 {
        RawNode::Text(t) => {
            assert_eq!(t.fragments.len(), 1);
            assert_eq!(t.fragments[0].text, "\u{65e5}");
            assert_eq!(
                t.fragments[0].attributes.annotation.as_deref(),
                Some("\u{306b}\u{3061}")
            );
        }
        other => panic!("expected a text node, got {other:?}"),
    }
}

#[test]
fn minimize_is_idempotent_on_a_page() {
    let page = "<html><body><div><div><p>alpha</p></div><div></div><p></p>\
                <ul><li>item</li></ul></div></body></html>";
    let mut ast = Ast::from_html(page, ParseFlags::default()).unwrap();
    ast.minimize();
    let once = ast.export_string();
    ast.minimize();
    let twice = ast.export_string();
    assert_eq!(once, twice);
}

#[test]
fn minimize_collapses_single_child_set() {
    // A plain section with exactly one surviving child is replaced by it.
    let mut section = Section::new_set();
    section
        .nodes
        .push(durf::node::Node::new(RawNode::Text(Text::from_fragment("only"))));
    section.nodes.push(durf::node::Node::new(RawNode::Empty));
    let mut node = RawNode::Section(section);
    node.minimize();
    assert!(matches!(node, RawNode::Text(_)));
}

#[test]
fn minimize_keeps_single_child_list() {
    // List sections are never collapsed into their only child.
    let mut section = Section::new_list();
    section
        .nodes
        .push(durf::node::Node::new(RawNode::Text(Text::from_fragment("only"))));
    let mut node = RawNode::Section(section);
    node.minimize();
    match node {
        RawNode::Section(s) => {
            assert_eq!(*s.ordering(), SectionOrdering::List);
            assert_eq!(s.nodes().len(), 1);
        }
        other => panic!("expected a section, got {other:?}"),
    }
}

#[test]
fn minimize_strips_filler() {
    let mut node = RawNode::Text(Text::from_fragment("a\u{3000}b\u{3000}"));
    node.minimize();
    match node {
        RawNode::Text(t) => assert_eq!(t.collect(), "ab"),
        other => panic!("expected a text node, got {other:?}"),
    }
}

#[test]
fn collect_concatenates_fragment_texts() {
    let mut text = Text::new();
    text.append(TextFragment::new("hello ", None));
    let mut bold = TextAttributes::new();
    bold.bold = true;
    text.append(TextFragment::new("world", Some(bold)));
    assert_eq!(text.collect(), "hello world");
}

#[test]
fn collect_ignores_attribute_values() {
    let mut plain = Text::new();
    plain.append(TextFragment::new("same", None));
    let mut fancy = Text::new();
    let mut attrs = TextAttributes::new();
    attrs.italic = true;
    attrs.link = Some(String::from("https://example.test"));
    attrs.heading = Some(3);
    fancy.append(TextFragment::new("same", Some(attrs)));
    assert_eq!(plain.collect(), fancy.collect());
}

#[test]
fn markdown_nesting_order() {
    let mut attrs = TextAttributes::new();
    attrs.preformatted = true;
    attrs.italic = true;
    attrs.bold = true;
    attrs.link = Some(String::from("u"));
    attrs.heading = Some(2);
    attrs.annotation = Some(String::from("note"));
    let mut text = Text::new();
    text.append(TextFragment::new("t", Some(attrs)));
    assert_eq!(text.to_markdown(), "## [***`t`***](u)(note)");
}

#[test]
fn markdown_plain_fragments_concatenate() {
    let mut text = Text::new();
    text.append(TextFragment::new("a", None));
    text.append(TextFragment::new("b", None));
    assert_eq!(text.to_markdown(), "ab");
}

#[test]
fn combine_fragments_merges_annotations() {
    let mut text = Text::new();
    text.append(TextFragment::new("x", None));
    let mut attrs = TextAttributes::new();
    attrs.annotation = Some(String::from("gloss"));
    text.append(TextFragment::new("y", Some(attrs)));
    text.combine_fragments();
    assert_eq!(text.fragments.len(), 1);
    assert_eq!(text.fragments[0].text, "xy");
    assert_eq!(text.fragments[0].attributes.annotation.as_deref(), Some("gloss"));
}

#[test]
fn from_text_splits_lines() {
    let ast = Ast::from_text("one\ntwo\n", ParseFlags::default()).unwrap();
    match &ast.root.0 {
        RawNode::Section(s) => {
            assert_eq!(s.nodes().len(), 3);
            match &s.nodes()[1].0 {
                RawNode::Text(t) => assert_eq!(t.collect(), "two"),
                other => panic!("expected text, got {other:?}"),
            }
        }
        other => panic!("expected a section, got {other:?}"),
    }
}

#[test]
fn export_string_shape() {
    let mut section = Section::new_set();
    section
        .nodes
        .push(durf::node::Node::new(RawNode::Text(Text::from_fragment("hi"))));
    let node = RawNode::Section(section);
    assert_eq!(node.export_string(0), "Section\n Text: hi\n");
}

#[test]
fn is_plain_notices_every_attribute() {
    let mut attrs = TextAttributes::new();
    assert!(attrs.is_plain());
    attrs.tooltip = Some(String::from("tip"));
    assert!(!attrs.is_plain());
}

#[test]
fn section_is_empty_judgement() {
    let mut outer = Section::new_set();
    assert!(outer.is_empty());
    let inner = Section::new_set();
    outer
        .nodes
        .push(durf::node::Node::new(RawNode::Section(inner)));
    assert!(outer.is_empty());
    outer.nodes.push(durf::node::Node::new(RawNode::Empty));
    assert!(!outer.is_empty());
}

#[test]
fn bold_tag_parses_at_top_level() {
    // <b> is an inline tag in its own right.
    let mut b = DomElement::new("b");
    b.add_text("loud");
    let mut root = DomElement::new("div");
    root.add_child(b);
    let mut ast = Ast::from_dom(&root, &ParseFlags::default()).unwrap();
    ast.minimize();
    match &ast.root.0 {
        RawNode::Text(t) => {
            assert_eq!(t.collect(), "loud");
            assert!(t.fragments[0].attributes.bold);
        }
        other => panic!("expected text, got {other:?}"),
    }
}

#[test]
fn link_attribute_composes_across_nesting() {
    // A bold element inside a linked paragraph carries both attributes.
    let mut strong = DomElement::new("strong");
    strong.add_text("click");
    let mut p = DomElement::new("p");
    p.set_href("https://example.test/x");
    p.add_child(strong);
    let mut root = DomElement::new("div");
    root.add_child(p);
    let mut ast = Ast::from_dom(&root, &ParseFlags::default()).unwrap();
    ast.minimize();
    match &ast.root.0 {
        RawNode::Text(t) => {
            let frag = &t.fragments[0];
            assert!(frag.attributes.bold);
            assert_eq!(
                frag.attributes.link.as_deref(),
                Some("https://example.test/x")
            );
        }
        other => panic!("expected text, got {other:?}"),
    }
}

#[test]
fn capture_disabled_until_allow_rule() {
    // With parsing off, inline tags yield nothing until an allow rule
    // matches; the allowed subtree alone is captured.
    let mut hidden = DomElement::new("p");
    hidden.add_text("hidden");
    let mut shown = DomElement::new("p");
    shown.add_text("shown");
    let mut wanted = DomElement::new("div");
    wanted.add_class("content");
    wanted.add_child(shown);
    let mut root = DomElement::new("div");
    root.add_child(hidden);
    root.add_child(wanted);
    let mut flags = ParseFlags::default();
    flags.parsing = false;
    flags.allow.push(ParseRule::from_class("content"));
    let mut ast = Ast::from_dom(&root, &flags).unwrap();
    ast.minimize();
    let dump = ast.export_string();
    assert!(!dump.contains("hidden"));
    assert!(dump.contains("shown"));
}

#[test]
fn break_tag_is_a_newline() {
    let mut p = DomElement::new("p");
    p.add_text("a");
    p.add_child(DomElement::new("br"));
    p.add_text("b");
    let mut root = DomElement::new("div");
    root.add_child(p);
    let mut ast = Ast::from_dom(&root, &ParseFlags::default()).unwrap();
    ast.minimize();
    match &ast.root.0 {
        RawNode::Text(t) => assert_eq!(t.collect(), "a\nb"),
        other => panic!("expected text, got {other:?}"),
    }
}

#[test]
fn error_description() {
    assert_eq!(Error::DepthExceeded.describe(), "depth exceeded");
    assert_eq!(Error::Unsupported.describe(), "unsupported element");
}

#[test]
fn section_constructors_set_ordering() {
    assert_eq!(*Section::new_set().ordering(), SectionOrdering::Unordered);
    assert_eq!(*Section::new_list().ordering(), SectionOrdering::List);
    assert_eq!(
        *Section::new_enumeration().ordering(),
        SectionOrdering::Enumeration
    );
    assert!(Section::new_set().nodes().is_empty());
}
