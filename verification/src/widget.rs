//! The widget: per-frame rendering against cached state, virtual
//! scrolling, and click hit-testing.

use vstd::prelude::*;

use crate::ast::Ast;
use crate::buffer::{blank_grid, put_at, rect_contains, Cell, CellBuffer, Position, Rect};
use crate::layout::node_height;
use crate::node::view_node;
use crate::render::{
    paint_node, paint_node_ex, view_focusables, FocView, FocusableNode, PaintState,
};
use crate::style::{BorderStyle, DurfWidgetStyle};

verus! {

/// An event produced by the widget for its host.
pub enum DurfEvent {
    /// The host should navigate to the given URL.
    FollowLink(String),
}

/// State of the widget across frames: scroll offset, focus, the cached
/// off-screen buffer, and the focusable registry.
#[derive(Debug)]
pub struct DurfWidgetState {
    /// The vertical scroll offset, in lines.
    pub scroll: usize,
    /// The focused element's pre-order index, if any.
    pub focused_element: Option<usize>,
    /// The cached full-height render of the document.
    pub buf: CellBuffer,
    /// The viewport of the last full render.
    pub rendered_area: Rect,
    /// Focusable elements of the last full render.
    pub focusable: Vec<FocusableNode>,
    /// Whether the next render must rebuild the cached buffer.
    pub should_rerender: bool,
}

impl Default for DurfWidgetState {
    fn default() -> (r: DurfWidgetState)
        ensures
            r.scroll == 0,
            r.focused_element is None,
            r.buf.wf(),
            r.buf.width == 0,
            r.buf.height == 0,
            r.rendered_area == (Rect { x: 0, y: 0, width: 0, height: 0 }),
            r.focusable@.len() == 0,
            r.should_rerender == true,
    {
        DurfWidgetState {
            scroll: 0,
            focused_element: None,
            buf: CellBuffer::new(0, 0),
            rendered_area: Rect { x: 0, y: 0, width: 0, height: 0 },
            focusable: Vec::new(),
            should_rerender: true,
        }
    }
}

/// The scroll range: how far the cached buffer extends past the last
/// rendered viewport, in lines.
pub open spec fn spec_max_scroll(s: DurfWidgetState) -> int {
    if s.buf.height >= s.rendered_area.height {
        s.buf.height - s.rendered_area.height
    } else {
        0
    }
}

impl DurfWidgetState {
    /// How far the cached buffer extends past the viewport: the largest
    /// meaningful scroll offset.
    pub fn scrollbar_height(&self) -> (r: usize)
        ensures
            r == spec_max_scroll(*self),
    {
        (self.buf.height as usize).saturating_sub(self.rendered_area.height as usize)
    }

    /// Scrolls by a line delta. The offset is clamped: scrolling down stops
    /// exactly at the bottom of the cached buffer, scrolling up stops at
    /// zero. A pure offset change needs no rebuild, so the dirty flag is
    /// untouched in both directions.
    pub fn scroll(&mut self, lines: i32)
        ensures
            lines > 0 ==> final(self).scroll == (if old(self).scroll + lines <= spec_max_scroll(
                *old(self),
            ) {
                old(self).scroll + lines
            } else {
                spec_max_scroll(*old(self))
            }),
            lines <= 0 ==> final(self).scroll == (if old(self).scroll + lines >= 0 {
                old(self).scroll + lines
            } else {
                0
            }),
            final(self).focused_element == old(self).focused_element,
            final(self).buf == old(self).buf,
            final(self).rendered_area == old(self).rendered_area,
            final(self).focusable == old(self).focusable,
            final(self).should_rerender == old(self).should_rerender,
    {
        if lines > 0 {
            let limit = self.scrollbar_height();
            let raised = self.scroll.saturating_add(lines as usize);
            self.scroll = if raised < limit {
                raised
            } else {
                limit
            };
        } else {
            let magnitude = (-(lines as i64)) as usize;
            self.scroll = self.scroll.saturating_sub(magnitude);
        }
    }
}

/// The first focusable entry one of whose rectangles contains the point.
pub open spec fn first_hit(fs: Seq<FocView>, pos: Position) -> Option<usize>
    decreases fs.len(),
{
    if fs.len() == 0 {
        None
    } else if exists|j: int|
        0 <= j < fs.first().rects.len() && rect_contains(#[trigger] fs.first().rects[j], pos) {
        Some(fs.first().index)
    } else {
        first_hit(fs.drop_first(), pos)
    }
}

/// The height of the cached buffer for a document of the given height:
/// clamped to the largest grid the cell buffer can hold.
pub open spec fn clamp_u16(h: nat) -> u16 {
    if h > 65535 {
        65535
    } else {
        h as u16
    }
}

/// The paint of a whole document at a viewport width: the full-height
/// blank buffer painted from the root, starting at pre-order index zero.
pub open spec fn rebuild_paint(
    root: crate::node::NodeView,
    width: u16,
    b: BorderStyle,
    focused: Option<usize>,
) -> PaintState {
    let h16 = clamp_u16(node_height(root, width, b));
    paint_node(
        PaintState { cells: blank_grid(width, h16), focus: Seq::empty(), index: 0 },
        root,
        Rect { x: 0, y: 0, width, height: h16 },
        width,
        h16,
        b,
        focused,
    )
}

/// Multiplication that saturates at the machine limit.
pub open spec fn sat_mul_usize(a: int, b: int) -> int {
    if a * b > usize::MAX {
        usize::MAX as int
    } else {
        a * b
    }
}

/// The visible-slice copy, one cached cell at a time: cell `i` of the
/// window lands at the wrapped position `i` inside the viewport; cached
/// cells past the end of the buffer leave the destination untouched.
pub open spec fn copy_rec(
    dest: Seq<Cell>,
    dw: u16,
    dh: u16,
    cached: Seq<Cell>,
    area: Rect,
    start: int,
    i: nat,
    count: nat,
) -> Seq<Cell>
    decreases count - i,
{
    if i >= count || area.width == 0 {
        dest
    } else {
        let src = start + i;
        let d2 = if 0 <= src < cached.len() {
            put_at(
                dest,
                dw,
                dh,
                area.x + (i as int % area.width as int),
                area.y + (i as int / area.width as int),
                cached[src],
            )
        } else {
            dest
        };
        copy_rec(d2, dw, dh, cached, area, start, i + 1, count)
    }
}

/// The character of scrollbar row `k`: an arrow at either end, the thumb
/// at its computed row, the track elsewhere.
pub open spec fn sb_char(k: int, area: Rect, cached_h: u16, scroll: usize) -> char {
    if k == 0 {
        '\u{2191}'
    } else if k == area.height - 1 {
        '\u{2193}'
    } else if k == sb_thumb_row(area, cached_h, scroll) {
        '\u{2588}'
    } else {
        '\u{2502}'
    }
}

/// The thumb's row, relative to the viewport top: proportional to the
/// scroll offset within the scroll range, on the track between the arrows.
pub open spec fn sb_thumb_row(area: Rect, cached_h: u16, scroll: usize) -> int {
    let extent = cached_h - area.height;
    let track = area.height - 2;
    let pos = if scroll <= extent {
        scroll as int
    } else {
        extent
    };
    if track <= 0 || extent <= 0 {
        1
    } else {
        1 + (pos * (track - 1)) / extent
    }
}

/// The scrollbar overlay, drawn row by row down the right edge.
pub open spec fn sb_rec(
    cells: Seq<Cell>,
    dw: u16,
    dh: u16,
    area: Rect,
    cached_h: u16,
    scroll: usize,
    k: nat,
) -> Seq<Cell>
    decreases area.height - k,
{
    if k >= area.height || area.width == 0 {
        cells
    } else {
        sb_rec(
            put_at(
                cells,
                dw,
                dh,
                area.x + area.width - 1,
                area.y + k,
                Cell {
                    ch: sb_char(k as int, area, cached_h, scroll),
                    style: crate::buffer::CellStyle::spec_plain(),
                },
            ),
            dw,
            dh,
            area,
            cached_h,
            scroll,
            k + 1,
        )
    }
}

/// What one frame leaves in the destination viewport: the visible window
/// of the cached buffer, and, whenever the cached buffer is taller than
/// the viewport, the scrollbar overlay on the right edge.
pub open spec fn frame_output(
    dest: Seq<Cell>,
    dw: u16,
    dh: u16,
    cached: CellBuffer,
    area: Rect,
    scroll: usize,
) -> Seq<Cell> {
    let start = sat_mul_usize(area.width as int, scroll as int);
    let copied = copy_rec(
        dest,
        dw,
        dh,
        cached.cells@,
        area,
        start,
        0,
        (area.width as int * area.height as int) as nat,
    );
    if cached.height > area.height {
        sb_rec(copied, dw, dh, area, cached.height, scroll, 0)
    } else {
        copied
    }
}

/// Scroll clamp: when the cached buffer is `n` lines taller than the last
/// rendered viewport, the scroll range is exactly `n`, so scrolling down by
/// any amount stops at `n` (by the contract of [`DurfWidgetState::scroll`])
/// and never beyond.
pub proof fn lemma_scroll_range(s: DurfWidgetState, n: int)
    requires
        n >= 0,
        s.buf.height == s.rendered_area.height + n,
    ensures
        spec_max_scroll(s) == n,
{
}

/// The scrollbar is overlaid exactly when the cached buffer is taller than
/// the viewport; otherwise the frame is the plain visible slice.
pub proof fn lemma_scrollbar_shown_iff(
    dest: Seq<Cell>,
    dw: u16,
    dh: u16,
    cached: CellBuffer,
    area: Rect,
    scroll: usize,
)
    ensures
        ({
            let start = sat_mul_usize(area.width as int, scroll as int);
            let copied = copy_rec(
                dest,
                dw,
                dh,
                cached.cells@,
                area,
                start,
                0,
                (area.width as int * area.height as int) as nat,
            );
            frame_output(dest, dw, dh, cached, area, scroll) == (if cached.height > area.height {
                sb_rec(copied, dw, dh, area, cached.height, scroll, 0)
            } else {
                copied
            })
        }),
{
}

/// The widget: borrows the document and a style for one or more frames;
/// the mutable state is handed to each call.
pub struct DurfWidget<'a> {
    /// The document to show.
    pub ast: &'a Ast,
    /// The style to render with.
    pub style: &'a DurfWidgetStyle,
}

impl<'a> DurfWidget<'a> {
    /// A widget over the given document and style.
    pub fn new(ast: &'a Ast, style: &'a DurfWidgetStyle) -> (r: DurfWidget<'a>)
        ensures
            r.ast == ast,
            r.style == style,
    {
        DurfWidget { ast, style }
    }

    /// Renders one frame into the destination viewport.
    ///
    /// If the state is dirty or the viewport width changed, the whole
    /// document is first painted into a fresh full-height cached buffer and
    /// the focusable registry is rebuilt; otherwise the cache is reused
    /// untouched. The rows starting at the scroll offset are then copied
    /// into the viewport, and a scrollbar is overlaid on the right edge
    /// exactly when the cached buffer is taller than the viewport.
    pub fn render(&self, state: &mut DurfWidgetState, area: Rect, buf: &mut CellBuffer)
        requires
            old(buf).wf(),
            old(state).buf.wf(),
        ensures
            final(buf).wf(),
            final(buf).width == old(buf).width,
            final(buf).height == old(buf).height,
            final(state).buf.wf(),
            final(state).scroll == old(state).scroll,
            final(state).focused_element == old(state).focused_element,
            (if old(state).should_rerender || area.width != old(state).rendered_area.width {
                let paint = rebuild_paint(
                    view_node(self.ast.root.0),
                    area.width,
                    self.style.general.section.border,
                    old(state).focused_element,
                );
                final(state).buf.width == area.width && final(state).buf.height == clamp_u16(
                    node_height(
                        view_node(self.ast.root.0),
                        area.width,
                        self.style.general.section.border,
                    ),
                ) && final(state).buf.cells@ == paint.cells && view_focusables(
                    final(state).focusable@,
                ) == paint.focus && final(state).rendered_area == area
                    && final(state).should_rerender == false
            } else {
                *final(state) == *old(state)
            }),
            final(buf).cells@ == frame_output(
                old(buf).cells@,
                old(buf).width,
                old(buf).height,
                final(state).buf,
                area,
                old(state).scroll,
            ),
    {
        let needs = state.should_rerender || area.width != state.rendered_area.width;
        if needs {
            let total = self.ast.root.height(area.width, self.style);
            let h16: u16 = if total > 65535 {
                65535
            } else {
                total as u16
            };
            let mut full = CellBuffer::new(area.width, h16);
            let mut focusable: Vec<FocusableNode> = Vec::new();
            let mut idx: usize = 0;
            let full_area = Rect { x: 0, y: 0, width: area.width, height: h16 };
            paint_node_ex(
                &self.ast.root.0,
                &mut full,
                &mut focusable,
                &mut idx,
                full_area,
                self.style,
                state.focused_element,
            );
            proof {
                assert(view_focusables(Seq::<FocusableNode>::empty()) =~= Seq::<
                    FocView,
                >::empty());
            }
            state.rendered_area = area;
            state.buf = full;
            state.focusable = focusable;
            state.should_rerender = false;
        }
        let ghost cached = state.buf;
        let ghost dw = buf.width;
        let ghost dh = buf.height;
        let ghost dest0 = buf.cells@;
        let start: usize = match (area.width as usize).checked_mul(state.scroll) {
            Some(v) => v,
            None => usize::MAX,
        };
        proof {
            assert((area.width as int) * (area.height as int) <= usize::MAX) by (nonlinear_arith)
                requires
                    area.width <= 65535,
                    area.height <= 65535,
            ;
        }
        let count: usize = (area.width as usize) * (area.height as usize);
        let mut i: usize = 0;
        while i < count
            invariant
                i <= count,
                count == area.width as int * area.height as int,
                buf.wf(),
                buf.width == dw,
                buf.height == dh,
                state.buf == cached,
                cached.cells@.len() == cached.width as int * cached.height as int,
                cached.width <= 65535,
                cached.height <= 65535,
                start == sat_mul_usize(area.width as int, state.scroll as int),
                copy_rec(
                    buf.cells@,
                    dw,
                    dh,
                    cached.cells@,
                    area,
                    start as int,
                    i as nat,
                    count as nat,
                ) == copy_rec(
                    dest0,
                    dw,
                    dh,
                    cached.cells@,
                    area,
                    start as int,
                    0,
                    count as nat,
                ),
            decreases count - i,
        {
            proof {
                assert(area.width > 0) by {
                    if area.width == 0 {
                        assert(count == 0);
                    }
                }
            }
            proof {
                assert(cached.cells@.len() <= usize::MAX) by (nonlinear_arith)
                    requires
                        cached.cells@.len() == cached.width as int * cached.height as int,
                        cached.width <= 65535,
                        cached.height <= 65535,
                ;
                assert(i as int / (area.width as int) < area.height as int) by (nonlinear_arith)
                    requires
                        0 <= i < count,
                        count == area.width as int * area.height as int,
                        area.width >= 1,
                ;
            }
            let src_ok = i <= usize::MAX - start && start + i < state.buf.cells.len();
            if src_ok {
                let cell = state.buf.cells[start + i];
                let col = i % (area.width as usize);
                let row = i / (area.width as usize);
                buf.put((area.x as usize) + col, (area.y as usize) + row, cell);
            }
            i += 1;
        }
        let scrollbar_needed = state.buf.height > area.height;
        if scrollbar_needed {
            let ghost after_copy = buf.cells@;
            let cached_h = state.buf.height;
            let mut k: usize = 0;
            while k < area.height as usize
                invariant
                    k <= area.height as usize,
                    buf.wf(),
                    buf.width == dw,
                    buf.height == dh,
                    state.buf == cached,
                    cached_h == cached.height,
                    cached_h > area.height,
                    sb_rec(
                        buf.cells@,
                        dw,
                        dh,
                        area,
                        cached_h,
                        state.scroll,
                        k as nat,
                    ) == sb_rec(after_copy, dw, dh, area, cached_h, state.scroll, 0),
                decreases area.height - k,
            {
                if area.width > 0 {
                    let ch = self.scrollbar_char(k, area, cached_h, state.scroll);
                    buf.put(
                        (area.x as usize) + (area.width as usize) - 1,
                        (area.y as usize) + k,
                        Cell { ch, style: crate::buffer::CellStyle::plain() },
                    );
                }
                k += 1;
            }
        }
    }

    /// The character of one scrollbar row.
    fn scrollbar_char(&self, k: usize, area: Rect, cached_h: u16, scroll: usize) -> (r: char)
        requires
            k < area.height,
            cached_h > area.height,
        ensures
            r == sb_char(k as int, area, cached_h, scroll),
    {
        if k == 0 {
            '\u{2191}'
        } else if k == (area.height as usize) - 1 {
            '\u{2193}'
        } else {
            let extent = (cached_h - area.height) as usize;
            let track = (area.height - 2) as usize;
            let pos = if scroll <= extent {
                scroll
            } else {
                extent
            };
            let thumb: usize = if track == 0 || extent == 0 {
                1
            } else {
                proof {
                    assert((pos as int) * (track as int - 1) <= 0xFFFF_0000) by (nonlinear_arith)
                        requires
                            0 <= pos <= 65535,
                            1 <= track <= 65535,
                    ;
                    assert(1 + ((pos as int) * (track as int - 1)) / (extent as int)
                        <= usize::MAX) by (nonlinear_arith)
                        requires
                            1 <= extent,
                            0 <= pos <= extent,
                            extent <= 65535,
                            1 <= track,
                            track <= 65535,
                    ;
                }
                1 + (pos * (track - 1)) / extent
            };
            if k == thumb {
                '\u{2588}'
            } else {
                '\u{2502}'
            }
        }
    }

    /// Maps a click in buffer space onto the focusable registry: the first
    /// registered rectangle containing the point focuses its element and
    /// marks the state dirty; a miss clears any existing focus. Navigation
    /// events are left to the host (currently a stub that never fires).
    pub fn handle_click(&self, state: &mut DurfWidgetState, pos: Position) -> (r: Option<
        DurfEvent,
    >)
        ensures
            r is None,
            final(state).scroll == old(state).scroll,
            final(state).buf == old(state).buf,
            final(state).rendered_area == old(state).rendered_area,
            final(state).focusable == old(state).focusable,
            (match first_hit(view_focusables(old(state).focusable@), pos) {
                Some(hit) => final(state).focused_element == Some(hit)
                    && final(state).should_rerender == true,
                None => final(state).focused_element is None && (match old(state).focused_element {
                    Some(_) => final(state).should_rerender == true,
                    None => final(state).focused_element == old(state).focused_element
                        && final(state).should_rerender == old(state).should_rerender,
                }),
            }),
    {
        let ghost fsv = view_focusables(state.focusable@);
        let nf = state.focusable.len();
        let mut i: usize = 0;
        proof {
            assert(fsv.skip(0) =~= fsv);
        }
        while i < nf
            invariant
                i <= nf,
                nf == state.focusable@.len(),
                fsv == view_focusables(state.focusable@),
                fsv.len() == nf,
                *state == *old(state),
                first_hit(fsv.skip(i as int), pos) == first_hit(fsv, pos),
            decreases nf - i,
        {
            proof {
                assert(fsv.skip(i as int).first() == fsv[i as int]);
                assert(fsv.skip(i as int).drop_first() =~= fsv.skip(i + 1));
            }
            let focusable = &state.focusable[i];
            let nr = focusable.rect.len();
            let mut j: usize = 0;
            while j < nr
                invariant
                    j <= nr,
                    nr == focusable.rect@.len(),
                    *focusable == state.focusable@[i as int],
                    i < nf,
                    nf == state.focusable@.len(),
                    fsv == view_focusables(state.focusable@),
                    fsv.len() == nf,
                    *state == *old(state),
                    first_hit(fsv.skip(i as int), pos) == first_hit(fsv, pos),
                    forall|jj: int|
                        0 <= jj < j ==> !rect_contains(#[trigger] focusable.rect@[jj], pos),
                decreases nr - j,
            {
                if focusable.rect[j].contains(pos) {
                    let hit_index = focusable.index;
                    proof {
                        assert(fsv[i as int] == state.focusable@[i as int]@);
                        let fv0 = fsv.skip(i as int).first();
                        assert(fv0 == fsv[i as int]);
                        assert(rect_contains(fv0.rects[j as int], pos));
                        assert(exists|jj: int|
                            0 <= jj < fv0.rects.len() && rect_contains(
                                #[trigger] fv0.rects[jj],
                                pos,
                            ));
                        assert(first_hit(fsv.skip(i as int), pos) == Some(fv0.index));
                        assert(hit_index == fv0.index);
                    }
                    state.focused_element = Some(hit_index);
                    state.should_rerender = true;
                    return None;
                }
                j += 1;
            }
            proof {
                assert(fsv[i as int] == state.focusable@[i as int]@);
                assert(forall|jj: int|
                    0 <= jj < fsv[i as int].rects.len() ==> !rect_contains(
                        #[trigger] fsv[i as int].rects[jj],
                        pos,
                    ));
                assert(first_hit(fsv.skip(i as int), pos) == first_hit(fsv.skip(i + 1), pos));
            }
            i += 1;
        }
        proof {
            assert(fsv.skip(nf as int) =~= Seq::<FocView>::empty());
        }
        if state.focused_element.is_some() {
            state.focused_element = None;
            state.should_rerender = true;
        }
        None
    }
}

} // verus!
