//! Painting the document tree into the off-screen buffer: wrapped text
//! runs, section frames, pre-order focus indices, and the focusable
//! registry for link hit-testing.

use vstd::prelude::*;
use vstd::string::{StrSliceExecFns, StringExecFns};

use crate::buffer::{put_at, Cell, CellBuffer, CellStyle, Rect};
use crate::layout::node_height;
use crate::node::{sat_inc, view_node, view_nodes, Node, NodeView, RawNode};
use crate::style::BorderStyle;
use crate::text::{hashes, FragView, TextFragment};

verus! {

/// Mathematical image of a focusable entry.
pub struct FocView {
    pub index: usize,
    pub rects: Seq<Rect>,
}

/// A focusable node: a pre-order index and the screen rectangles a click
/// on which focuses it. Rectangles are in buffer space, one per rendered
/// link fragment, spanning that fragment's starting line.
#[derive(Debug)]
pub struct FocusableNode {
    /// Pre-order index of the fragment, counted over the whole render.
    pub index: usize,
    /// Rectangles of the fragment, relative to the full buffer.
    pub rect: Vec<Rect>,
}

impl View for FocusableNode {
    type V = FocView;

    open spec fn view(&self) -> FocView {
        FocView { index: self.index, rects: self.rect@ }
    }
}

impl FocusableNode {
    /// An entry for the given index, with no rectangles yet.
    pub fn new(index: usize) -> (r: FocusableNode)
        ensures
            r@.index == index,
            r@.rects =~= Seq::<Rect>::empty(),
    {
        FocusableNode { index, rect: Vec::new() }
    }
}

/// Mathematical image of a focusable list.
pub open spec fn view_focusables(fs: Seq<FocusableNode>) -> Seq<FocView> {
    fs.map_values(|f: FocusableNode| f@)
}

/// The whole paint state threaded through a render: the cells of the
/// off-screen buffer, the focusable registry, and the running pre-order
/// index.
pub struct PaintState {
    pub cells: Seq<Cell>,
    pub focus: Seq<FocView>,
    pub index: usize,
}

/// Addition on a machine-sized counter that saturates instead of
/// overflowing.
pub open spec fn sat_add_usize(a: usize, b: nat) -> usize {
    if a + b > usize::MAX {
        usize::MAX
    } else {
        (a + b) as usize
    }
}

/// A row coordinate clamped to the u16 range.
pub open spec fn sat_u16(v: int) -> u16 {
    if v > u16::MAX {
        u16::MAX
    } else if v < 0 {
        0
    } else {
        v as u16
    }
}

/// The characters a fragment shows: a heading prefix of hash marks and a
/// separating space, then the fragment text.
pub open spec fn frag_content(f: FragView) -> Seq<char> {
    match f.attrs.heading {
        Some(h) => hashes(h as nat) + " "@ + f.text,
        None => f.text,
    }
}

/// The cell style a fragment paints with; `focused_here` highlights the
/// fragment that currently holds focus.
pub open spec fn frag_cell_style(f: FragView, focused_here: bool) -> CellStyle {
    CellStyle {
        bold: f.attrs.bold,
        italic: f.attrs.italic,
        underlined: f.attrs.link is Some,
        reversed: f.attrs.preformatted,
        highlighted: focused_here,
        heading: match f.attrs.heading {
            Some(h) => h,
            None => 0,
        },
    }
}

/// One character written at a wrapped offset inside an area, clipped to
/// the area's height and the buffer.
pub open spec fn write_char_at(
    cells: Seq<Cell>,
    bw: u16,
    bh: u16,
    area: Rect,
    off: usize,
    ch: char,
    style: CellStyle,
) -> Seq<Cell> {
    if area.width == 0 {
        cells
    } else {
        let row = off as int / area.width as int;
        let col = off as int % area.width as int;
        if row < area.height {
            put_at(cells, bw, bh, area.x + col, area.y + row, Cell { ch, style })
        } else {
            cells
        }
    }
}

/// A run of characters written from a wrapped offset onward.
pub open spec fn write_run(
    cells: Seq<Cell>,
    bw: u16,
    bh: u16,
    area: Rect,
    off: usize,
    chars: Seq<char>,
    style: CellStyle,
) -> Seq<Cell>
    decreases chars.len(),
{
    if chars.len() == 0 {
        cells
    } else {
        write_run(
            write_char_at(cells, bw, bh, area, off, chars.first(), style),
            bw,
            bh,
            area,
            sat_inc(off),
            chars.drop_first(),
            style,
        )
    }
}

/// The one-line rectangle registered for a link fragment that starts at
/// the given wrapped offset: the fragment's starting line, spanning the
/// full area width. This is a coarse approximation, not a per-glyph
/// rectangle.
pub open spec fn link_rect(area: Rect, off: usize) -> Rect {
    let row = if area.width == 0 {
        0int
    } else {
        off as int / area.width as int
    };
    Rect { x: area.x, y: sat_u16(area.y + row), width: area.width, height: 1 }
}

/// Paints a fragment run into an area: each fragment consumes one
/// pre-order index, registers a focusable entry when it carries a link,
/// and writes its content at the running wrapped offset.
pub open spec fn paint_frags(
    st: PaintState,
    frags: Seq<FragView>,
    area: Rect,
    bw: u16,
    bh: u16,
    focused: Option<usize>,
    off: usize,
) -> PaintState
    decreases frags.len(),
{
    if frags.len() == 0 {
        st
    } else {
        let f = frags.first();
        let content = frag_content(f);
        let focused_here = focused == Some(st.index);
        let style = frag_cell_style(f, focused_here);
        let focus2 = if f.attrs.link is Some {
            st.focus.push(FocView { index: st.index, rects: seq![link_rect(area, off)] })
        } else {
            st.focus
        };
        let st2 = PaintState {
            cells: write_run(st.cells, bw, bh, area, off, content, style),
            focus: focus2,
            index: sat_inc(st.index),
        };
        paint_frags(st2, frags.drop_first(), area, bw, bh, focused, sat_add_usize(
            off,
            content.len(),
        ))
    }
}

/// A horizontal run of one border character.
pub open spec fn write_hrun(
    cells: Seq<Cell>,
    bw: u16,
    bh: u16,
    x: int,
    y: int,
    n: nat,
    ch: char,
) -> Seq<Cell>
    decreases n,
{
    if n == 0 {
        cells
    } else {
        write_hrun(
            put_at(cells, bw, bh, x, y, Cell { ch, style: CellStyle::spec_plain() }),
            bw,
            bh,
            x + 1,
            y,
            (n - 1) as nat,
            ch,
        )
    }
}

/// A vertical run of one border character.
pub open spec fn write_vrun(
    cells: Seq<Cell>,
    bw: u16,
    bh: u16,
    x: int,
    y: int,
    n: nat,
    ch: char,
) -> Seq<Cell>
    decreases n,
{
    if n == 0 {
        cells
    } else {
        write_vrun(
            put_at(cells, bw, bh, x, y, Cell { ch, style: CellStyle::spec_plain() }),
            bw,
            bh,
            x,
            y + 1,
            (n - 1) as nat,
            ch,
        )
    }
}

/// One corner or edge cell of a border.
pub open spec fn border_cell(ch: char) -> Cell {
    Cell { ch, style: CellStyle::spec_plain() }
}

/// The frame a section draws: nothing for borderless styles, a rounded
/// box outline for a full border.
pub open spec fn draw_block(cells: Seq<Cell>, bw: u16, bh: u16, area: Rect, b: BorderStyle) -> Seq<
    Cell,
> {
    if b != BorderStyle::FullBorder || area.width == 0 || area.height == 0 {
        cells
    } else {
        let inner_w = (area.width - 1) as nat;
        let inner_h = (area.height - 1) as nat;
        let c1 = write_hrun(cells, bw, bh, area.x + 1, area.y as int, if inner_w >= 1 { (inner_w - 1) as nat } else { 0 }, '\u{2500}');
        let c2 = write_hrun(c1, bw, bh, area.x + 1, area.y + inner_h, if inner_w >= 1 { (inner_w - 1) as nat } else { 0 }, '\u{2500}');
        let c3 = write_vrun(c2, bw, bh, area.x as int, area.y + 1, if inner_h >= 1 { (inner_h - 1) as nat } else { 0 }, '\u{2502}');
        let c4 = write_vrun(c3, bw, bh, area.x + inner_w, area.y + 1, if inner_h >= 1 { (inner_h - 1) as nat } else { 0 }, '\u{2502}');
        let c5 = put_at(c4, bw, bh, area.x as int, area.y as int, border_cell('\u{256d}'));
        let c6 = put_at(c5, bw, bh, area.x + inner_w, area.y as int, border_cell('\u{256e}'));
        let c7 = put_at(c6, bw, bh, area.x as int, area.y + inner_h, border_cell('\u{2570}'));
        put_at(c7, bw, bh, area.x + inner_w, area.y + inner_h, border_cell('\u{256f}'))
    }
}

/// The area left inside a section's frame or padding.
pub open spec fn block_inner(area: Rect, b: BorderStyle) -> Rect {
    match b {
        BorderStyle::NoBorder => area,
        BorderStyle::Indent => Rect {
            x: sat_u16(area.x + 1),
            y: area.y,
            width: if area.width >= 1 {
                (area.width - 1) as u16
            } else {
                0
            },
            height: area.height,
        },
        BorderStyle::Spacing => Rect {
            x: area.x,
            y: area.y,
            width: area.width,
            height: if area.height >= 1 {
                (area.height - 1) as u16
            } else {
                0
            },
        },
        BorderStyle::FullBorder => Rect {
            x: sat_u16(area.x + 1),
            y: sat_u16(area.y + 1),
            width: if area.width >= 2 {
                (area.width - 2) as u16
            } else {
                0
            },
            height: if area.height >= 2 {
                (area.height - 2) as u16
            } else {
                0
            },
        },
    }
}

/// The area for the next child: moved down by the previous child's height,
/// with that much less room.
pub open spec fn advance_rect(cur: Rect, h: nat) -> Rect {
    Rect {
        x: cur.x,
        y: sat_u16(cur.y + h),
        width: cur.width,
        height: if cur.height >= h {
            (cur.height - h) as u16
        } else {
            0
        },
    }
}

/// Paints one node into its area: an `Empty` node only consumes the next
/// pre-order index, a text node paints its fragments, and a section draws
/// its frame, consumes an index, and lays out its children downward.
/// A node given no vertical room is not visited at all.
pub open spec fn paint_node(
    st: PaintState,
    n: NodeView,
    area: Rect,
    bw: u16,
    bh: u16,
    b: BorderStyle,
    focused: Option<usize>,
) -> PaintState
    decreases n,
{
    if area.height == 0 {
        st
    } else {
        match n {
            NodeView::EmptyNode => PaintState {
                cells: st.cells,
                focus: st.focus,
                index: sat_inc(st.index),
            },
            NodeView::TextNode { frags } => paint_frags(st, frags, area, bw, bh, focused, 0),
            NodeView::SectionNode { nodes, ordering } => {
                let st1 = PaintState {
                    cells: draw_block(st.cells, bw, bh, area, b),
                    focus: st.focus,
                    index: sat_inc(st.index),
                };
                paint_children(st1, nodes, block_inner(area, b), bw, bh, b, focused)
            },
        }
    }
}

/// Paints a child list sequentially, advancing the cursor by each child's
/// precomputed height.
pub open spec fn paint_children(
    st: PaintState,
    nodes: Seq<NodeView>,
    cur: Rect,
    bw: u16,
    bh: u16,
    b: BorderStyle,
    focused: Option<usize>,
) -> PaintState
    decreases nodes,
{
    if nodes.len() == 0 {
        st
    } else {
        let st1 = paint_node(st, nodes.first(), cur, bw, bh, b, focused);
        let h = node_height(nodes.first(), cur.width, b);
        paint_children(st1, nodes.drop_first(), advance_rect(cur, h), bw, bh, b, focused)
    }
}

/// Writes a run of characters from a wrapped offset onward, executable
/// form; returns the offset after the run.
fn draw_run(buf: &mut CellBuffer, area: Rect, off: usize, s: &str, style: CellStyle) -> (end: usize)
    requires
        old(buf).wf(),
    ensures
        final(buf).wf(),
        final(buf).width == old(buf).width,
        final(buf).height == old(buf).height,
        final(buf).cells@ == write_run(
            old(buf).cells@,
            old(buf).width,
            old(buf).height,
            area,
            off,
            s@,
            style,
        ),
        end == sat_add_usize(off, s@.len()),
{
    let ghost bw = buf.width;
    let ghost bh = buf.height;
    let ghost cells0 = buf.cells@;
    let n = s.unicode_len();
    let mut cur = off;
    let mut k: usize = 0;
    proof {
        assert(s@.skip(0) =~= s@);
        assert(sat_add_usize(off, 0) == off);
    }
    while k < n
        invariant
            k <= n,
            n == s@.len(),
            buf.wf(),
            buf.width == bw,
            buf.height == bh,
            cur == sat_add_usize(off, k as nat),
            write_run(buf.cells@, bw, bh, area, cur, s@.skip(k as int), style) == write_run(
                cells0,
                bw,
                bh,
                area,
                off,
                s@,
                style,
            ),
        decreases n - k,
    {
        let ch = s.get_char(k);
        proof {
            assert(s@.skip(k as int).first() == s@[k as int]);
            assert(s@.skip(k as int).drop_first() =~= s@.skip(k + 1));
        }
        let ghost pre = buf.cells@;
        if area.width > 0 {
            let row = cur / (area.width as usize);
            let col = cur % (area.width as usize);
            if row < area.height as usize {
                buf.put((area.x as usize) + col, (area.y as usize) + row, Cell { ch, style });
            }
        }
        proof {
            assert(buf.cells@ == write_char_at(pre, bw, bh, area, cur, s@[k as int], style));
        }
        cur = if cur < usize::MAX {
            cur + 1
        } else {
            cur
        };
        k += 1;
    }
    proof {
        assert(s@.skip(n as int) =~= Seq::<char>::empty());
    }
    cur
}

/// Draws a horizontal border run.
fn draw_hrun(buf: &mut CellBuffer, x: usize, y: usize, n: usize, ch: char)
    requires
        old(buf).wf(),
        x + n <= usize::MAX,
    ensures
        final(buf).wf(),
        final(buf).width == old(buf).width,
        final(buf).height == old(buf).height,
        final(buf).cells@ == write_hrun(
            old(buf).cells@,
            old(buf).width,
            old(buf).height,
            x as int,
            y as int,
            n as nat,
            ch,
        ),
{
    let ghost bw = buf.width;
    let ghost bh = buf.height;
    let ghost cells0 = buf.cells@;
    let mut k: usize = 0;
    while k < n
        invariant
            k <= n,
            x + n <= usize::MAX,
            buf.wf(),
            buf.width == bw,
            buf.height == bh,
            write_hrun(buf.cells@, bw, bh, x + k, y as int, (n - k) as nat, ch) == write_hrun(
                cells0,
                bw,
                bh,
                x as int,
                y as int,
                n as nat,
                ch,
            ),
        decreases n - k,
    {
        buf.put(x + k, y, Cell { ch, style: CellStyle::plain() });
        k += 1;
    }
}

/// Draws a vertical border run.
fn draw_vrun(buf: &mut CellBuffer, x: usize, y: usize, n: usize, ch: char)
    requires
        old(buf).wf(),
        y + n <= usize::MAX,
    ensures
        final(buf).wf(),
        final(buf).width == old(buf).width,
        final(buf).height == old(buf).height,
        final(buf).cells@ == write_vrun(
            old(buf).cells@,
            old(buf).width,
            old(buf).height,
            x as int,
            y as int,
            n as nat,
            ch,
        ),
{
    let ghost bw = buf.width;
    let ghost bh = buf.height;
    let ghost cells0 = buf.cells@;
    let mut k: usize = 0;
    while k < n
        invariant
            k <= n,
            y + n <= usize::MAX,
            buf.wf(),
            buf.width == bw,
            buf.height == bh,
            write_vrun(buf.cells@, bw, bh, x as int, y + k, (n - k) as nat, ch) == write_vrun(
                cells0,
                bw,
                bh,
                x as int,
                y as int,
                n as nat,
                ch,
            ),
        decreases n - k,
    {
        buf.put(x, y + k, Cell { ch, style: CellStyle::plain() });
        k += 1;
    }
}

/// Draws a section's frame, executable form.
fn draw_block_ex(buf: &mut CellBuffer, area: Rect, b: BorderStyle)
    requires
        old(buf).wf(),
    ensures
        final(buf).wf(),
        final(buf).width == old(buf).width,
        final(buf).height == old(buf).height,
        final(buf).cells@ == draw_block(old(buf).cells@, old(buf).width, old(buf).height, area, b),
{
    if !(b == BorderStyle::FullBorder) || area.width == 0 || area.height == 0 {
        return ;
    }
    let inner_w = (area.width - 1) as usize;
    let inner_h = (area.height - 1) as usize;
    let run_w = if inner_w >= 1 {
        inner_w - 1
    } else {
        0
    };
    let run_h = if inner_h >= 1 {
        inner_h - 1
    } else {
        0
    };
    let x0 = area.x as usize;
    let y0 = area.y as usize;
    draw_hrun(buf, x0 + 1, y0, run_w, '\u{2500}');
    draw_hrun(buf, x0 + 1, y0 + inner_h, run_w, '\u{2500}');
    draw_vrun(buf, x0, y0 + 1, run_h, '\u{2502}');
    draw_vrun(buf, x0 + inner_w, y0 + 1, run_h, '\u{2502}');
    buf.put(x0, y0, Cell { ch: '\u{256d}', style: CellStyle::plain() });
    buf.put(x0 + inner_w, y0, Cell { ch: '\u{256e}', style: CellStyle::plain() });
    buf.put(x0, y0 + inner_h, Cell { ch: '\u{2570}', style: CellStyle::plain() });
    buf.put(x0 + inner_w, y0 + inner_h, Cell { ch: '\u{256f}', style: CellStyle::plain() });
}

/// The characters a fragment shows, executable form.
fn frag_content_ex(f: &TextFragment) -> (r: String)
    ensures
        r@ == frag_content(f@),
{
    match &f.attributes.heading {
        Some(heading) => {
            let h = *heading;
            let mut s = String::new();
            let mut k: u8 = 0;
            while k < h
                invariant
                    k <= h,
                    s@ =~= hashes(k as nat),
                decreases h - k,
            {
                s.append("#");
                proof {
                    reveal_strlit("#");
                    assert(s@ =~= hashes((k + 1) as nat));
                }
                k += 1;
            }
            s.append(" ");
            s.append(f.text.as_str());
            proof {
                assert(s@ =~= frag_content(f@));
            }
            s
        },
        None => f.text.clone(),
    }
}

/// Paints the fragments of a text node, executable form.
fn paint_frags_ex(
    frags: &Vec<TextFragment>,
    buf: &mut CellBuffer,
    focus: &mut Vec<FocusableNode>,
    index: &mut usize,
    area: Rect,
    focused: Option<usize>,
)
    requires
        old(buf).wf(),
    ensures
        final(buf).wf(),
        final(buf).width == old(buf).width,
        final(buf).height == old(buf).height,
        (PaintState {
            cells: final(buf).cells@,
            focus: view_focusables(final(focus)@),
            index: *final(index),
        }) == paint_frags(
            PaintState {
                cells: old(buf).cells@,
                focus: view_focusables(old(focus)@),
                index: *old(index),
            },
            frags@.map_values(|f: TextFragment| f@),
            area,
            old(buf).width,
            old(buf).height,
            focused,
            0,
        ),
{
    let ghost bw = buf.width;
    let ghost bh = buf.height;
    let ghost fv: Seq<FragView> = frags@.map_values(|f: TextFragment| f@);
    let ghost target = paint_frags(
        PaintState {
            cells: old(buf).cells@,
            focus: view_focusables(old(focus)@),
            index: *old(index),
        },
        fv,
        area,
        bw,
        bh,
        focused,
        0,
    );
    let n = frags.len();
    let mut i: usize = 0;
    let mut cur_off: usize = 0;
    proof {
        assert(fv.skip(0) =~= fv);
    }
    while i < n
        invariant
            i <= n,
            n == frags.len(),
            fv == frags@.map_values(|f: TextFragment| f@),
            fv.len() == n,
            buf.wf(),
            buf.width == bw,
            buf.height == bh,
            paint_frags(
                PaintState {
                    cells: buf.cells@,
                    focus: view_focusables(focus@),
                    index: *index,
                },
                fv.skip(i as int),
                area,
                bw,
                bh,
                focused,
                cur_off,
            ) == target,
        decreases n - i,
    {
        proof {
            assert(fv.skip(i as int).first() == fv[i as int]);
            assert(fv.skip(i as int).drop_first() =~= fv.skip(i + 1));
            assert(fv[i as int] == frags@[i as int]@);
        }
        let f = &frags[i];
        let focused_here = match focused {
            Some(fi) => fi == *index,
            None => false,
        };
        let style = CellStyle {
            bold: f.attributes.bold,
            italic: f.attributes.italic,
            underlined: f.attributes.link.is_some(),
            reversed: f.attributes.preformatted,
            highlighted: focused_here,
            heading: match &f.attributes.heading {
                Some(h) => *h,
                None => 0,
            },
        };
        proof {
            assert(style == frag_cell_style(fv[i as int], focused_here));
        }
        if f.attributes.link.is_some() {
            let row: usize = if area.width == 0 {
                0
            } else {
                cur_off / (area.width as usize)
            };
            let ysum = (area.y as usize).saturating_add(row);
            let line_y: u16 = if ysum > 65535 {
                65535
            } else {
                ysum as u16
            };
            let mut entry = FocusableNode::new(*index);
            entry.rect.push(Rect { x: area.x, y: line_y, width: area.width, height: 1 });
            let ghost fpre = focus@;
            focus.push(entry);
            proof {
                assert(entry@.rects =~= seq![link_rect(area, cur_off)]);
                assert(view_focusables(focus@) =~= view_focusables(fpre).push(
                    FocView { index: *index, rects: seq![link_rect(area, cur_off)] },
                ));
            }
        }
        let content = frag_content_ex(f);
        let next_off = draw_run(buf, area, cur_off, content.as_str(), style);
        let idx_now = *index;
        *index = if idx_now < usize::MAX {
            idx_now + 1
        } else {
            idx_now
        };
        cur_off = next_off;
        i += 1;
    }
    proof {
        assert(fv.skip(n as int) =~= Seq::<FragView>::empty());
    }
}

/// The area left inside a section's frame, executable form.
fn block_inner_ex(area: Rect, b: BorderStyle) -> (r: Rect)
    ensures
        r == block_inner(area, b),
{
    match b {
        BorderStyle::NoBorder => area,
        BorderStyle::Indent => {
            let nx: u16 = if area.x < 65535 {
                area.x + 1
            } else {
                65535
            };
            Rect {
                x: nx,
                y: area.y,
                width: if area.width >= 1 {
                    area.width - 1
                } else {
                    0
                },
                height: area.height,
            }
        },
        BorderStyle::Spacing => Rect {
            x: area.x,
            y: area.y,
            width: area.width,
            height: if area.height >= 1 {
                area.height - 1
            } else {
                0
            },
        },
        BorderStyle::FullBorder => {
            let nx: u16 = if area.x < 65535 {
                area.x + 1
            } else {
                65535
            };
            let ny: u16 = if area.y < 65535 {
                area.y + 1
            } else {
                65535
            };
            Rect {
                x: nx,
                y: ny,
                width: if area.width >= 2 {
                    area.width - 2
                } else {
                    0
                },
                height: if area.height >= 2 {
                    area.height - 2
                } else {
                    0
                },
            }
        },
    }
}

/// Paints one node of the tree into the buffer, executable form: draws
/// its content, advances the pre-order index, and registers focusable
/// entries for link fragments.
pub fn paint_node_ex(
    node: &RawNode,
    buf: &mut CellBuffer,
    focus: &mut Vec<FocusableNode>,
    index: &mut usize,
    area: Rect,
    style: &crate::style::DurfWidgetStyle,
    focused: Option<usize>,
)
    requires
        old(buf).wf(),
    ensures
        final(buf).wf(),
        final(buf).width == old(buf).width,
        final(buf).height == old(buf).height,
        (PaintState {
            cells: final(buf).cells@,
            focus: view_focusables(final(focus)@),
            index: *final(index),
        }) == paint_node(
            PaintState {
                cells: old(buf).cells@,
                focus: view_focusables(old(focus)@),
                index: *old(index),
            },
            view_node(*node),
            area,
            old(buf).width,
            old(buf).height,
            style.general.section.border,
            focused,
        ),
    decreases *node,
{
    broadcast use crate::node::group_node_views;

    let b = style.general.section.border;
    if area.height == 0 {
        return ;
    }
    match node {
        RawNode::Empty => {
            let idx_now = *index;
            *index = if idx_now < usize::MAX {
                idx_now + 1
            } else {
                idx_now
            };
        },
        RawNode::Text(t) => {
            paint_frags_ex(&t.fragments, buf, focus, index, area, focused);
        },
        RawNode::Section(section) => {
            draw_block_ex(buf, area, b);
            let idx_now = *index;
            *index = if idx_now < usize::MAX {
                idx_now + 1
            } else {
                idx_now
            };
            let ghost bw = buf.width;
            let ghost bh = buf.height;
            let ghost cv: Seq<NodeView> = view_nodes(section.nodes@);
            let ghost st1 = PaintState {
                cells: buf.cells@,
                focus: view_focusables(focus@),
                index: *index,
            };
            let ghost target = paint_children(
                st1,
                cv,
                block_inner(area, b),
                bw,
                bh,
                b,
                focused,
            );
            let mut cur = block_inner_ex(area, b);
            let n = section.nodes.len();
            let mut i: usize = 0;
            proof {
                assert(cv.skip(0) =~= cv);
            }
            while i < n
                invariant
                    i <= n,
                    n == section.nodes.len(),
                    cv == view_nodes(section.nodes@),
                    cv.len() == n,
                    buf.wf(),
                    buf.width == bw,
                    buf.height == bh,
                    b == style.general.section.border,
                    *node == RawNode::Section(*section),
                    paint_children(
                        PaintState {
                            cells: buf.cells@,
                            focus: view_focusables(focus@),
                            index: *index,
                        },
                        cv.skip(i as int),
                        cur,
                        bw,
                        bh,
                        b,
                        focused,
                    ) == target,
                decreases n - i,
            {
                broadcast use crate::node::group_node_views;

                proof {
                    assert(cv.skip(i as int).first() == cv[i as int]);
                    assert(cv.skip(i as int).drop_first() =~= cv.skip(i + 1));
                    assert(*node == RawNode::Section(*section));
                    let sec = *section;
                    assert(decreases_to!(*node => (*node)->Section_0));
                    assert((*node)->Section_0 == sec);
                    assert(decreases_to!(sec => sec.nodes));
                    assert(decreases_to!(sec.nodes => sec.nodes@));
                    assert(decreases_to!(sec.nodes@ => sec.nodes@[i as int]));
                    assert(decreases_to!(sec.nodes@[i as int] => sec.nodes@[i as int].0));
                    assert(decreases_to!(*node => section.nodes@[i as int].0));
                }
                paint_node_ex(&section.nodes[i].0, buf, focus, index, cur, style, focused);
                let h = section.nodes[i].height(cur.width, style);
                let ghost cur_pre = cur;
                let ny = (cur.y as usize).saturating_add(h);
                let new_y: u16 = if ny > 65535 {
                    65535
                } else {
                    ny as u16
                };
                let new_h: u16 = if h >= cur.height as usize {
                    0
                } else {
                    cur.height - (h as u16)
                };
                cur = Rect { x: cur.x, y: new_y, width: cur.width, height: new_h };
                proof {
                    assert(cur == advance_rect(cur_pre, node_height(cv[i as int], cur_pre.width, b)));
                }
                i += 1;
            }
            proof {
                assert(cv.skip(n as int) =~= Seq::<NodeView>::empty());
            }
        },
    }
}

} // verus!
