//! Layout heights, rendering, scrolling and hit-testing.

use durf::ast::Ast;
use durf::buffer::{CellBuffer, Position, Rect};
use durf::node::{Node, RawNode, Section};
use durf::parse::ParseFlags;
use durf::style::{BorderStyle, DurfWidgetStyle};
use durf::text::{Text, TextAttributes, TextFragment};
use durf::widget::{DurfWidget, DurfWidgetState};

fn no_border_style() -> DurfWidgetStyle {
    let mut style = DurfWidgetStyle::default();
    style.general.section.border = BorderStyle::NoBorder;
    style
}

fn plain_text_node(s: &str) -> Node {
    Node::new(RawNode::Text(Text::from_fragment(s)))
}

#[test]
fn text_height_wraps_at_width() {
    let style = no_border_style();
    let text = Text::from_fragment("abcdefghij");
    assert_eq!(text.height(4, &style), 3);
    assert_eq!(text.height(10, &style), 1);
    assert_eq!(text.height(0, &style), 0);
}

#[test]
fn heading_height_counts_prefix() {
    let style = no_border_style();
    let mut attrs = TextAttributes::new();
    attrs.heading = Some(2);
    let mut text = Text::new();
    text.append(TextFragment::new("abc", Some(attrs)));
    // 3 characters plus heading level 2 plus one separator = 6.
    assert_eq!(text.height(3, &style), 2);
}

#[test]
fn section_height_sums_children_and_border() {
    let mut style = DurfWidgetStyle::default();
    style.general.section.border = BorderStyle::FullBorder;
    let mut section = Section::new_set();
    section.nodes.push(plain_text_node("abcd"));
    section.nodes.push(plain_text_node("efgh"));
    // Width 6 narrows to 4 inside the border: one line per child, plus two
    // border lines.
    assert_eq!(section.height(6, &style), 4);
    style.general.section.border = BorderStyle::Spacing;
    assert_eq!(section.height(4, &style), 3);
}

#[test]
fn height_is_deterministic() {
    let style = DurfWidgetStyle::default();
    let mut section = Section::new_set();
    section.nodes.push(plain_text_node("hello world"));
    let node = Node::new(RawNode::Section(section));
    let first = node.height(7, &style);
    let second = node.height(7, &style);
    assert_eq!(first, second);
}

#[test]
fn scroll_clamps_to_extent() {
    let mut state = DurfWidgetState::default();
    state.buf = CellBuffer::new(10, 30);
    state.rendered_area = Rect::new(0, 0, 10, 20);
    // The document is 10 lines taller than the viewport.
    assert_eq!(state.scrollbar_height(), 10);
    state.scroll(i32::MAX);
    assert_eq!(state.scroll, 10);
    state.scroll(-3);
    assert_eq!(state.scroll, 7);
    state.scroll(-100);
    assert_eq!(state.scroll, 0);
}

#[test]
fn render_shows_scrollbar_when_document_overflows() {
    let mut lines = String::new();
    for i in 0..30 {
        lines.push_str(&format!("line {i}\n"));
    }
    let ast = Ast::from_text(&lines, ParseFlags::default()).unwrap();
    let style = no_border_style();
    let widget = DurfWidget::new(&ast, &style);
    let mut state = DurfWidgetState::default();
    let area = Rect::new(0, 0, 12, 5);
    let mut dest = CellBuffer::new(12, 5);
    widget.render(&mut state, area, &mut dest);
    assert!(state.buf.height > area.height);
    assert_eq!(dest.get(11, 0).ch, '\u{2191}');
    assert_eq!(dest.get(11, 4).ch, '\u{2193}');
}

#[test]
fn render_copies_visible_slice() {
    let ast = Ast::from_text("abc\ndef\nghi", ParseFlags::default()).unwrap();
    let style = no_border_style();
    let widget = DurfWidget::new(&ast, &style);
    let mut state = DurfWidgetState::default();
    let area = Rect::new(0, 0, 3, 2);
    let mut dest = CellBuffer::new(3, 2);
    widget.render(&mut state, area, &mut dest);
    // Scrolled one line down, the second row of the document tops the view.
    state.scroll(1);
    let mut dest2 = CellBuffer::new(3, 2);
    widget.render(&mut state, area, &mut dest2);
    assert_eq!(dest.get(0, 0).ch, 'a');
    assert_eq!(dest2.get(0, 0).ch, 'd');
}

#[test]
fn render_reuses_cache_until_width_changes() {
    let ast = Ast::from_text("abc", ParseFlags::default()).unwrap();
    let style = no_border_style();
    let widget = DurfWidget::new(&ast, &style);
    let mut state = DurfWidgetState::default();
    let area = Rect::new(0, 0, 3, 1);
    let mut dest = CellBuffer::new(3, 1);
    widget.render(&mut state, area, &mut dest);
    assert!(!state.should_rerender);
    assert_eq!(state.buf.width, 3);
    let wider = Rect::new(0, 0, 6, 1);
    let mut dest2 = CellBuffer::new(6, 1);
    widget.render(&mut state, wider, &mut dest2);
    assert_eq!(state.buf.width, 6);
}

fn linked_document() -> Ast {
    let mut ast = Ast::from_html(
        "<html><body><p><a href=\"https://example.test\">link text</a></p></body></html>",
        ParseFlags::default(),
    )
    .unwrap();
    ast.minimize();
    ast
}

#[test]
fn click_inside_rect_focuses() {
    let ast = linked_document();
    let style = no_border_style();
    let widget = DurfWidget::new(&ast, &style);
    let mut state = DurfWidgetState::default();
    let area = Rect::new(0, 0, 20, 4);
    let mut dest = CellBuffer::new(20, 4);
    widget.render(&mut state, area, &mut dest);
    assert!(!state.focusable.is_empty());
    let rect = state.focusable[0].rect[0];
    let expected = state.focusable[0].index;
    let pos = Position { x: rect.x, y: rect.y };
    let event = widget.handle_click(&mut state, pos);
    assert!(event.is_none());
    assert_eq!(state.focused_element, Some(expected));
    assert!(state.should_rerender);
}

#[test]
fn click_outside_clears_focus() {
    let ast = linked_document();
    let style = no_border_style();
    let widget = DurfWidget::new(&ast, &style);
    let mut state = DurfWidgetState::default();
    let area = Rect::new(0, 0, 20, 4);
    let mut dest = CellBuffer::new(20, 4);
    widget.render(&mut state, area, &mut dest);
    let rect = state.focusable[0].rect[0];
    widget.handle_click(&mut state, Position { x: rect.x, y: rect.y });
    assert!(state.focused_element.is_some());
    // Far outside every registered rectangle.
    widget.handle_click(&mut state, Position { x: 19, y: 3 });
    assert_eq!(state.focused_element, None);
}

#[test]
fn rendered_text_lands_in_cells() {
    let ast = Ast::from_text("hello", ParseFlags::default()).unwrap();
    let style = no_border_style();
    let widget = DurfWidget::new(&ast, &style);
    let mut state = DurfWidgetState::default();
    let area = Rect::new(0, 0, 10, 2);
    let mut dest = CellBuffer::new(10, 2);
    widget.render(&mut state, area, &mut dest);
    assert_eq!(dest.get(0, 0).ch, 'h');
    assert_eq!(dest.get(4, 0).ch, 'o');
}

#[test]
fn full_border_draws_frame() {
    let mut style = DurfWidgetStyle::default();
    style.general.section.border = BorderStyle::FullBorder;
    let ast = Ast::from_text("x", ParseFlags::default()).unwrap();
    let widget = DurfWidget::new(&ast, &style);
    let mut state = DurfWidgetState::default();
    let area = Rect::new(0, 0, 5, 3);
    let mut dest = CellBuffer::new(5, 3);
    widget.render(&mut state, area, &mut dest);
    assert_eq!(state.buf.get(0, 0).ch, '\u{256d}');
    assert_eq!(state.buf.get(4, 0).ch, '\u{256e}');
    assert_eq!(state.buf.get(0, 2).ch, '\u{2570}');
    assert_eq!(state.buf.get(4, 2).ch, '\u{256f}');
    assert_eq!(state.buf.get(1, 1).ch, 'x');
}

#[test]
fn heading_fragment_renders_hash_prefix() {
    let mut attrs = TextAttributes::new();
    attrs.heading = Some(2);
    let mut text = Text::new();
    text.append(TextFragment::new("t", Some(attrs)));
    let ast = Ast {
        root: Node::new(RawNode::Text(text)),
    };
    let style = no_border_style();
    let widget = DurfWidget::new(&ast, &style);
    let mut state = DurfWidgetState::default();
    let area = Rect::new(0, 0, 8, 1);
    let mut dest = CellBuffer::new(8, 1);
    widget.render(&mut state, area, &mut dest);
    assert_eq!(dest.get(0, 0).ch, '#');
    assert_eq!(dest.get(1, 0).ch, '#');
    assert_eq!(dest.get(2, 0).ch, ' ');
    assert_eq!(dest.get(3, 0).ch, 't');
    assert_eq!(dest.get(3, 0).style.heading, 2);
}
