use vstd::prelude::*;
use crate::display::{Display, pixel, BUFFSIZE};
use crate::display::font::{
    spaced_prefix, spaced_width, text_width, text_fits, text_pixel, lemma_spaced_prefix_mono,
    lemma_spaced_prefix_bounds,
};
use crate::display::shape::{
    ArrowDir, painted_black, in_rect, rect_on_screen, rect_check_in_range, arrow_covers,
    arrow_in_range,
};

verus! {

/// Where a text stands against the column it is placed at: starting there, centred on it, or
/// ending there.
#[derive(Clone, Copy, Debug, PartialEq, Eq, Structural)]
pub enum Anchor {
    Left,
    Center,
    Right,
}

/// The left edge of a text `w` columns wide, anchored at column `x`.
pub open spec fn anchored_x(x: int, w: int, anchor: Anchor) -> int {
    match anchor {
        Anchor::Left => x,
        Anchor::Center => x - w / 2,
        Anchor::Right => x - w,
    }
}

/// `text_at` draws the text: it is not empty, its glyph widths and its scaled width each fit a
/// byte, its left edge falls on a column from 0 to 255, it fits on the panel, and its five
/// scaled rows do too.
pub open spec fn text_at_drawn(bytes: Seq<u8>, x: int, y: int, s: int, anchor: Anchor) -> bool {
    let w = text_width(bytes) * s;
    let ax = anchored_x(x, w, anchor);
    &&& bytes.len() >= 1
    &&& spaced_width(bytes) <= 255
    &&& w <= 255
    &&& 0 <= ax <= 255
    &&& text_fits(bytes, ax, y, s)
    &&& (s == 0 || y + 5 * s <= 200)
}

/// Pixel `q` once `text_at` has drawn `bytes` anchored at `(x, y)` over the frame `old`.
pub open spec fn text_at_pixel(
    old: Seq<u8>,
    bytes: Seq<u8>,
    x: int,
    y: int,
    s: int,
    anchor: Anchor,
    q: int,
) -> bool {
    if text_at_drawn(bytes, x, y, s, anchor) {
        text_pixel(old, bytes, anchored_x(x, text_width(bytes) * s, anchor), y, s, q)
    } else {
        pixel(old, q)
    }
}

/// Something drawn on a page.
pub enum Shape {
    Text { bytes: Vec<u8>, x: u8, y: u8, s: u8, anchor: Anchor },
    Rect { x: u8, y: u8, w: u8, h: u8 },
    Arrow { x: u8, y: u8, s: u8, dir: ArrowDir },
}

/// A shape, with the text's bytes as a sequence.
pub enum ShapeView {
    Text { bytes: Seq<u8>, x: u8, y: u8, s: u8, anchor: Anchor },
    Rect { x: u8, y: u8, w: u8, h: u8 },
    Arrow { x: u8, y: u8, s: u8, dir: ArrowDir },
}

impl View for Shape {
    type V = ShapeView;

    open spec fn view(&self) -> ShapeView {
        match self {
            Shape::Text { bytes, x, y, s, anchor } => ShapeView::Text {
                bytes: bytes@,
                x: *x,
                y: *y,
                s: *s,
                anchor: *anchor,
            },
            Shape::Rect { x, y, w, h } => ShapeView::Rect { x: *x, y: *y, w: *w, h: *h },
            Shape::Arrow { x, y, s, dir } => ShapeView::Arrow { x: *x, y: *y, s: *s, dir: *dir },
        }
    }
}

/// The shapes as sequences.
pub open spec fn shape_views(shapes: Seq<Shape>) -> Seq<ShapeView> {
    shapes.map_values(|sh: Shape| sh@)
}

/// The shape can be drawn without a panic.
pub open spec fn shape_ok(sh: ShapeView) -> bool {
    match sh {
        ShapeView::Text { .. } => true,
        ShapeView::Rect { x, y, w, h } => rect_check_in_range(x as int, y as int, w as int, h as int),
        ShapeView::Arrow { x, y, s, dir } => x < 200 && y < 200 ==> arrow_in_range(
            x as int,
            y as int,
            s as int,
            dir,
        ),
    }
}

/// Frame `new` is frame `old` with the shape drawn.
pub open spec fn shape_drawn(old: Seq<u8>, new: Seq<u8>, sh: ShapeView) -> bool {
    &&& new.len() == BUFFSIZE
    &&& match sh {
        ShapeView::Text { bytes, x, y, s, anchor } => forall|q: int|
            0 <= q < 40000 ==> #[trigger] pixel(new, q) == text_at_pixel(
                old,
                bytes,
                x as int,
                y as int,
                s as int,
                anchor,
                q,
            ),
        ShapeView::Rect { x, y, w, h } => if rect_on_screen(x as int, y as int, w as int, h as int) {
            painted_black(old, new, |p: int| in_rect(x as int, y as int, w as int, h as int, p))
        } else {
            new == old
        },
        ShapeView::Arrow { x, y, s, dir } => if x < 200 && y < 200 {
            painted_black(old, new, |p: int| arrow_covers(x as int, y as int, s as int, dir, p))
        } else {
            new == old
        },
    }
}

/// `frames` are the frames from `old` on as the shapes `shs` are drawn one after the other.
pub open spec fn frames_of_shapes(old: Seq<u8>, frames: Seq<Seq<u8>>, shs: Seq<ShapeView>) -> bool {
    &&& frames.len() == shs.len() + 1
    &&& frames[0] == old
    &&& forall|i: int|
        0 <= i < shs.len() ==> #[trigger] shape_drawn(frames[i], frames[i + 1], shs[i])
}

/// Frame `new` is frame `old` with the shapes drawn one after the other.
pub open spec fn shapes_drawn(old: Seq<u8>, new: Seq<u8>, shs: Seq<ShapeView>) -> bool {
    exists|frames: Seq<Seq<u8>>|
        #[trigger] frames_of_shapes(old, frames, shs) && frames.last() == new
}

impl Display {
    /// The sum over the bytes of their glyph widths plus one, or a number above 255 once the
    /// sum passes 255.
    fn capped_spaced_width(&self, bytes: &[u8]) -> (r: u32)
        ensures
            spaced_width(bytes@) <= 255 ==> r == spaced_width(bytes@),
            spaced_width(bytes@) > 255 ==> r > 255,
    {
        let mut total: u32 = 0;
        let mut i: usize = 0;
        while i < bytes.len()
            invariant
                0 <= i <= bytes@.len(),
                total == spaced_prefix(bytes@, i as int),
                total <= 255,
            decreases bytes@.len() - i,
        {
            proof {
                lemma_spaced_prefix_bounds(bytes@, i as int + 1);
            }
            total = total + self.get_width(bytes[i]) as u32 + 1;
            i += 1;
            if total > 255 {
                proof {
                    lemma_spaced_prefix_mono(bytes@, i as int, bytes@.len() as int);
                }
                return total;
            }
        }
        total
    }

    /// Draws the text of `bytes` at scale `s` in row `y`, anchored at column `x`; nothing when
    /// it would not be drawn whole (`text_at_drawn`).
    pub fn text_at(&mut self, bytes: &[u8], x: u8, y: u8, s: u8, anchor: Anchor)
        ensures
            old(self)@.len() == BUFFSIZE,
            final(self)@.len() == BUFFSIZE,
            forall|q: int|
                0 <= q < 40000 ==> #[trigger] pixel(final(self)@, q) == text_at_pixel(
                    old(self)@,
                    bytes@,
                    x as int,
                    y as int,
                    s as int,
                    anchor,
                    q,
                ),
            final(self).old_frame() == old(self).old_frame(),
            final(self).is_sleeping() == old(self).is_sleeping(),
            final(self).wants_clean_update() == old(self).wants_clean_update(),
    {
        proof {
            use_type_invariant(&*self);
        }
        if bytes.len() == 0 {
            return;
        }
        let sw = self.capped_spaced_width(bytes);
        if sw > 255 {
            return;
        }
        proof {
            lemma_spaced_prefix_bounds(bytes@, bytes@.len() as int);
        }
        assert((sw - 1) * (s as u32) <= 65025) by (nonlinear_arith)
            requires
                1 <= sw <= 255,
                s <= 255,
        ;
        let w: u32 = (sw - 1) * (s as u32);
        if w > 255 {
            return;
        }
        let ax: i32 = match anchor {
            Anchor::Left => x as i32,
            Anchor::Center => x as i32 - (w / 2) as i32,
            Anchor::Right => x as i32 - w as i32,
        };
        assert(ax == anchored_x(x as int, text_width(bytes@) * s, anchor));
        if ax < 0 || ax > 255 {
            return;
        }
        if w > 200 || ax as u32 + w > 200 || y as u32 + s as u32 > 200 {
            return;
        }
        if s != 0 && y as u32 + 5 * s as u32 > 200 {
            return;
        }
        self.glyphs(bytes, ax as u8, y, s);
    }

    /// Draws one shape.
    pub fn draw_shape(&mut self, shape: &Shape)
        requires
            shape_ok(shape@),
        ensures
            shape_drawn(old(self)@, final(self)@, shape@),
            old(self)@.len() == BUFFSIZE,
            final(self).old_frame() == old(self).old_frame(),
            final(self).is_sleeping() == old(self).is_sleeping(),
            final(self).wants_clean_update() == old(self).wants_clean_update(),
    {
        match shape {
            Shape::Text { bytes, x, y, s, anchor } => {
                self.text_at(bytes.as_slice(), *x, *y, *s, *anchor);
            },
            Shape::Rect { x, y, w, h } => {
                self.rect(*x, *y, *w, *h);
            },
            Shape::Arrow { x, y, s, dir } => {
                self.arrow(*x, *y, *s, *dir);
            },
        }
    }

    /// Draws the shapes one after the other.
    pub fn draw_shapes(&mut self, shapes: &Vec<Shape>)
        requires
            forall|i: int| 0 <= i < shapes@.len() ==> shape_ok(#[trigger] shapes@[i]@),
        ensures
            shapes_drawn(old(self)@, final(self)@, shape_views(shapes@)),
            old(self)@.len() == BUFFSIZE,
            final(self)@.len() == BUFFSIZE,
            final(self).old_frame() == old(self).old_frame(),
            final(self).is_sleeping() == old(self).is_sleeping(),
            final(self).wants_clean_update() == old(self).wants_clean_update(),
    {
        proof {
            use_type_invariant(&*self);
        }
        let ghost start = self@;
        let ghost views = shape_views(shapes@);
        let ghost mut frames: Seq<Seq<u8>> = seq![start];
        let mut i: usize = 0;
        while i < shapes.len()
            invariant
                0 <= i <= shapes@.len(),
                views == shape_views(shapes@),
                forall|j: int| 0 <= j < shapes@.len() ==> shape_ok(#[trigger] shapes@[j]@),
                frames.len() == i + 1,
                frames[0] == start,
                frames[i as int] == self@,
                forall|j: int|
                    0 <= j < i ==> #[trigger] shape_drawn(frames[j], frames[j + 1], views[j]),
                self@.len() == BUFFSIZE,
                start.len() == BUFFSIZE,
                self.old_frame() == old(self).old_frame(),
                self.is_sleeping() == old(self).is_sleeping(),
                self.wants_clean_update() == old(self).wants_clean_update(),
            decreases shapes@.len() - i,
        {
            let ghost prev = self@;
            self.draw_shape(&shapes[i]);
            proof {
                let f2 = frames.push(self@);
                assert forall|j: int| 0 <= j < i + 1 implies #[trigger] shape_drawn(
                    f2[j],
                    f2[j + 1],
                    views[j],
                ) by {
                    if j < i {
                        assert(f2[j] == frames[j] && f2[j + 1] == frames[j + 1]);
                    } else {
                        assert(f2[j] == prev && f2[j + 1] == self@);
                    }
                }
                frames = f2;
            }
            i += 1;
        }
        assert(frames_of_shapes(start, frames, views));

    }
}

} // verus!
