//! The canvas: a row-major grid of colors with bounds-checked access and
//! non-destructive resizing.
use crate::color::Color;
use crate::position::Position;
use vstd::prelude::*;

verus! {

/// The error a bounds-checked accessor returns when a position lies outside
/// the buffer's extent. It carries the offending coordinates and is always
/// recoverable by the caller.
#[derive(Debug, PartialEq, Eq, Clone, Copy, Structural)]
pub struct OutOfRangeError {
    pub x: usize,
    pub y: usize,
}

/// The dense storage behind a buffer: one color per cell, row-major.
#[derive(Debug)]
pub struct RawBuffer(pub Vec<Color>);

impl Default for RawBuffer {
    /// The default storage is empty.
    fn default() -> (r: RawBuffer)
        ensures
            r.0@ == Seq::<Color>::empty(),
    {
        RawBuffer(Vec::new())
    }
}

/// An owned grid of palette indices together with its current extent.
///
/// The cell at `(x, y)` lives at index `y * width + x` of the storage; a
/// well-formed buffer holds exactly `width * height` cells. Resizing never
/// happens in place: it always yields a complete new buffer.
#[derive(Debug)]
pub struct Buffer {
    /// The extent: width is `max_position.x`, height is `max_position.y`.
    max_position: Position,
    data: RawBuffer,
}

/// Index arithmetic of a row-major grid: an in-range cell lands inside the
/// storage.
pub proof fn lemma_grid_index(w: int, h: int, x: int, y: int)
    by (nonlinear_arith)
    requires
        0 <= x < w,
        0 <= y < h,
    ensures
        0 <= y * w + x < w * h,
        y * w + x < h * w,
{
}

/// Row-major indexing is injective over in-range coordinates: distinct cells
/// have distinct storage indices.
pub proof fn lemma_grid_index_injective(w: int, x1: int, y1: int, x2: int, y2: int)
    by (nonlinear_arith)
    requires
        0 <= x1 < w,
        0 <= x2 < w,
        0 <= y1,
        0 <= y2,
        y1 * w + x1 == y2 * w + x2,
    ensures
        x1 == x2,
        y1 == y2,
{
}

/// A flat scan index of a `w` by `h` grid determines in-range coordinates:
/// its remainder and quotient by the width.
pub proof fn lemma_flat_index_coords(w: int, h: int, i: int)
    requires
        0 < w,
        0 <= i < w * h,
    ensures
        0 <= i % w < w,
        0 <= i / w < h,
        i == (i / w) * w + (i % w),
{
    vstd::arithmetic::div_mod::lemma_fundamental_div_mod(i, w);
    vstd::arithmetic::div_mod::lemma_mod_pos_bound(i, w);
    let q = i / w;
    let r = i % w;
    assert(0 <= q < h) by (nonlinear_arith)
        requires
            w * q + r == i,
            0 <= r < w,
            0 <= i < w * h,
            0 < w,
    ;
    assert(i == q * w + r) by (nonlinear_arith)
        requires
            w * q + r == i,
    ;
}

/// What `new_width_buffer` produces: `after` has width `w`, the height of
/// `before`, and each row keeps its first cells and pads any remainder with
/// the background color.
pub open spec fn width_resized(before: Buffer, after: Buffer, w: int) -> bool {
    &&& after.wf()
    &&& after.width() == w
    &&& after.height() == before.height()
    &&& forall|x: int, y: int|
        after.in_range(x, y) ==> after.color_at(x, y) == (if x < before.width() {
            before.color_at(x, y)
        } else {
            Color(Color::BG_COLOR)
        })
}

/// What `new_height_buffer` produces: `after` has height `h`, the width of
/// `before`, keeps every surviving row unchanged, and any appended row is
/// entirely the background color.
pub open spec fn height_resized(before: Buffer, after: Buffer, h: int) -> bool {
    &&& after.wf()
    &&& after.width() == before.width()
    &&& after.height() == h
    &&& forall|x: int, y: int|
        after.in_range(x, y) ==> after.color_at(x, y) == (if y < before.height() {
            before.color_at(x, y)
        } else {
            Color(Color::BG_COLOR)
        })
}

impl Buffer {
    /// The width of the current extent.
    pub closed spec fn width(self) -> int {
        self.max_position.x as int
    }

    /// The height of the current extent.
    pub closed spec fn height(self) -> int {
        self.max_position.y as int
    }

    /// The stored cells, in row-major order.
    pub closed spec fn cells(self) -> Seq<Color> {
        self.data.0@
    }

    /// A buffer is well formed when its extent fits the machine's cell
    /// coordinates and it holds exactly one cell per position of the extent.
    pub open spec fn wf(self) -> bool {
        &&& 0 <= self.width() <= usize::MAX as int
        &&& 0 <= self.height() <= usize::MAX as int
        &&& self.cells().len() == self.width() * self.height()
    }

    /// Whether `(x, y)` lies strictly inside the extent.
    pub open spec fn in_range(self, x: int, y: int) -> bool {
        0 <= x < self.width() && 0 <= y < self.height()
    }

    /// The row-major storage index of `(x, y)`. Meaningful only in range.
    pub open spec fn idx(self, x: int, y: int) -> int {
        y * self.width() + x
    }

    /// The color stored at `(x, y)`.
    pub open spec fn color_at(self, x: int, y: int) -> Color
        recommends
            self.wf(),
            self.in_range(x, y),
    {
        self.cells()[self.idx(x, y)]
    }

    /// The current extent as a position.
    pub fn extent(&self) -> (p: Position)
        ensures
            p.x as int == self.width(),
            p.y as int == self.height(),
    {
        self.max_position
    }

    /// Return a new buffer with width `new_width` and the same height. Every
    /// row keeps its first `min(old width, new_width)` cells in order; when
    /// the buffer widens, the remainder of each row is padded with the
    /// background color, and when it narrows, the columns beyond `new_width`
    /// are truncated.
    pub fn new_width_buffer(self, new_width: usize) -> (r: Buffer)
        requires
            self.wf(),
            new_width as int * self.height() <= usize::MAX as int,
        ensures
            width_resized(self, r, new_width as int),
    {
        let old_w = self.max_position.x;
        let h = self.max_position.y;
        let total = self.data.0.len();
        let mut new_data: Vec<Color> = Vec::new();
        if new_width > 0 {
            let new_total = new_width * h;
            let mut i: usize = 0;
            while i < new_total
                invariant
                    self.wf(),
                    old_w as int == self.width(),
                    h as int == self.height(),
                    total as int == self.cells().len(),
                    new_total as int == new_width as int * h as int,
                    0 < new_width,
                    i <= new_total,
                    new_data@.len() == i as int,
                    forall|k: int|
                        0 <= k < i as int ==> new_data@[k] == (if #[trigger] (k % (
                            new_width as int
                        )) < old_w as int {
                            self.cells()[(k / new_width as int) * old_w as int + k % (
                                new_width as int
                            )]
                        } else {
                            Color(Color::BG_COLOR)
                        }),
                decreases new_total as int - i as int,
            {
                proof {
                    lemma_flat_index_coords(new_width as int, h as int, i as int);
                }
                let x = i % new_width;
                let y = i / new_width;
                if x < old_w {
                    proof {
                        lemma_grid_index(old_w as int, h as int, x as int, y as int);
                    }
                    let c = self.data.0[y * old_w + x];
                    new_data.push(c);
                } else {
                    new_data.push(Color(Color::BG_COLOR));
                }
                i += 1;
            }
        }
        let r = Buffer { max_position: Position { x: new_width, y: h }, data: RawBuffer(new_data) };
        proof {
            if new_width == 0 {
                assert(r.cells().len() == r.width() * r.height()) by (nonlinear_arith)
                    requires
                        r.cells().len() == 0,
                        r.width() == 0,
                ;
            }
            assert forall|x: int, y: int| r.in_range(x, y) implies r.color_at(x, y) == (if x
                < self.width() {
                self.color_at(x, y)
            } else {
                Color(Color::BG_COLOR)
            }) by {
                let k = y * new_width as int + x;
                lemma_grid_index(new_width as int, h as int, x, y);
                vstd::arithmetic::div_mod::lemma_fundamental_div_mod_converse(
                    k,
                    new_width as int,
                    y,
                    x,
                );
            }
        }
        r
    }

    /// Return a new buffer with height `new_height` and the same width. Every
    /// surviving row is copied unchanged; when the buffer grows, the appended
    /// rows are entirely the background color, and when it shrinks, the rows
    /// beyond `new_height` are truncated.
    pub fn new_height_buffer(self, new_height: usize) -> (r: Buffer)
        requires
            self.wf(),
            self.width() * new_height as int <= usize::MAX as int,
        ensures
            height_resized(self, r, new_height as int),
    {
        let w = self.max_position.x;
        let old_h = self.max_position.y;
        let total = self.data.0.len();
        let copy_h: usize = if new_height < old_h {
            new_height
        } else {
            old_h
        };
        proof {
            assert(copy_h as int * w as int <= total as int) by (nonlinear_arith)
                requires
                    copy_h as int <= old_h as int,
                    0 <= w as int,
                    0 <= copy_h as int,
                    total as int == w as int * old_h as int,
            ;
        }
        let copy_len = copy_h * w;
        let mut new_data: Vec<Color> = Vec::new();
        let mut i: usize = 0;
        while i < copy_len
            invariant
                self.wf(),
                copy_len as int <= total as int,
                total as int == self.cells().len(),
                i <= copy_len,
                new_data@.len() == i as int,
                forall|k: int| 0 <= k < i as int ==> new_data@[k] == self.cells()[k],
            decreases copy_len as int - i as int,
        {
            let c = self.data.0[i];
            new_data.push(c);
            i += 1;
        }
        let pad_rows = new_height - copy_h;
        proof {
            assert(pad_rows as int * w as int + copy_len as int == new_height as int
                * w as int) by (nonlinear_arith)
                requires
                    pad_rows as int == new_height as int - copy_h as int,
                    copy_len as int == copy_h as int * w as int,
            ;
            assert(new_height as int * w as int <= usize::MAX as int) by (nonlinear_arith)
                requires
                    w as int * new_height as int <= usize::MAX as int,
            ;
        }
        let pad_len = pad_rows * w;
        let mut j: usize = 0;
        while j < pad_len
            invariant
                j <= pad_len,
                new_data@.len() == copy_len as int + j as int,
                copy_len as int <= total as int,
                total as int == self.cells().len(),
                forall|k: int| 0 <= k < copy_len as int ==> new_data@[k] == self.cells()[k],
                forall|k: int|
                    copy_len as int <= k < new_data@.len() ==> new_data@[k] == Color(
                        Color::BG_COLOR,
                    ),
            decreases pad_len as int - j as int,
        {
            new_data.push(Color(Color::BG_COLOR));
            j += 1;
        }
        let r = Buffer { max_position: Position { x: w, y: new_height }, data: RawBuffer(new_data) };
        proof {
            assert(r.cells().len() == r.width() * r.height()) by (nonlinear_arith)
                requires
                    r.cells().len() == copy_len as int + pad_len as int,
                    pad_rows as int * w as int + copy_len as int == new_height as int * w as int,
                    pad_len as int == pad_rows as int * w as int,
                    r.width() == w as int,
                    r.height() == new_height as int,
            ;
            assert forall|x: int, y: int| r.in_range(x, y) implies r.color_at(x, y) == (if y
                < self.height() {
                self.color_at(x, y)
            } else {
                Color(Color::BG_COLOR)
            }) by {
                let k = y * w as int + x;
                lemma_grid_index(w as int, new_height as int, x, y);
                if y < copy_h as int {
                    lemma_grid_index(w as int, copy_h as int, x, y);
                } else {
                    vstd::arithmetic::mul::lemma_mul_inequality(copy_h as int, y, w as int);
                }
            }
        }
        r
    }

    /// Return a new buffer with the given extent: the width resize composed
    /// with the height resize, in that order, so rows appended by the height
    /// step are already sized to the new width. A cell survives exactly when
    /// it lies inside both the old and the new extent; every other cell of
    /// the result is the background color.
    pub fn new_size_buffer(self, new_width: usize, new_height: usize) -> (r: Buffer)
        requires
            self.wf(),
            new_width as int * self.height() <= usize::MAX as int,
            new_width as int * new_height as int <= usize::MAX as int,
        ensures
            r.wf(),
            r.width() == new_width as int,
            r.height() == new_height as int,
            forall|x: int, y: int|
                r.in_range(x, y) ==> r.color_at(x, y) == (if x < self.width() && y
                    < self.height() {
                    self.color_at(x, y)
                } else {
                    Color(Color::BG_COLOR)
                }),
    {
        let ghost b0 = self;
        let mid = self.new_width_buffer(new_width);
        let r = mid.new_height_buffer(new_height);
        proof {
            assert forall|x: int, y: int| r.in_range(x, y) implies r.color_at(x, y) == (if x
                < b0.width() && y < b0.height() {
                b0.color_at(x, y)
            } else {
                Color(Color::BG_COLOR)
            }) by {
                if y < mid.height() {
                    assert(mid.in_range(x, y));
                }
            }
        }
        r
    }

    /// Row-major index arithmetic. This does not check the range; callers
    /// validate separately through the bounds-checked accessors below.
    pub fn get_index(&self, position: Position) -> (i: usize)
        requires
            position.y as int * self.width() + position.x as int <= usize::MAX as int,
        ensures
            i as int == self.idx(position.x as int, position.y as int),
    {
        position.y * self.max_position.x + position.x
    }

    /// Read the color at `position`, or report the offending coordinates when
    /// the position lies outside the extent.
    pub fn get_color(&self, position: Position) -> (r: Result<Color, OutOfRangeError>)
        requires
            self.wf(),
        ensures
            r is Ok <==> self.in_range(position.x as int, position.y as int),
            r matches Ok(c) ==> c == self.color_at(position.x as int, position.y as int),
            r matches Err(e) ==> e == (OutOfRangeError { x: position.x, y: position.y }),
    {
        if position.x < self.max_position.x && position.y < self.max_position.y {
            let total = self.data.0.len();
            proof {
                lemma_grid_index(
                    self.width(),
                    self.height(),
                    position.x as int,
                    position.y as int,
                );
            }
            let i = position.y * self.max_position.x + position.x;
            Ok(self.data.0[i])
        } else {
            Err(OutOfRangeError { x: position.x, y: position.y })
        }
    }

    /// Write `color` at `position`, in place; every other cell is untouched.
    /// Fails with the offending coordinates when the position lies outside
    /// the extent, leaving the buffer unchanged.
    pub fn set_color(&mut self, position: Position, color: Color) -> (r: Result<
        (),
        OutOfRangeError,
    >)
        requires
            old(self).wf(),
        ensures
            final(self).wf(),
            final(self).width() == old(self).width(),
            final(self).height() == old(self).height(),
            r is Ok <==> old(self).in_range(position.x as int, position.y as int),
            r is Ok ==> final(self).cells() == old(self).cells().update(
                old(self).idx(position.x as int, position.y as int),
                color,
            ),
            r matches Err(e) ==> e == (OutOfRangeError { x: position.x, y: position.y })
                && final(self).cells() == old(self).cells(),
    {
        if position.x < self.max_position.x && position.y < self.max_position.y {
            let total = self.data.0.len();
            proof {
                lemma_grid_index(
                    self.width(),
                    self.height(),
                    position.x as int,
                    position.y as int,
                );
            }
            let i = position.y * self.max_position.x + position.x;
            self.data.0[i] = color;
            Ok(())
        } else {
            Err(OutOfRangeError { x: position.x, y: position.y })
        }
    }
}

/// Law: after a successful in-range write (`b1` is `b0` with `c` stored at
/// `p`, as `set_color` ensures), reading back the written position gives the
/// written color, and every other in-range cell still holds its old color.
pub proof fn lemma_set_then_get(b0: Buffer, b1: Buffer, p: Position, c: Color)
    requires
        b0.wf(),
        b0.in_range(p.x as int, p.y as int),
        b1.width() == b0.width(),
        b1.height() == b0.height(),
        b1.cells() == b0.cells().update(b0.idx(p.x as int, p.y as int), c),
    ensures
        b1.wf(),
        b1.color_at(p.x as int, p.y as int) == c,
        forall|x: int, y: int|
            b1.in_range(x, y) && !(x == p.x as int && y == p.y as int) ==> b1.color_at(x, y)
                == b0.color_at(x, y),
{
    lemma_grid_index(b0.width(), b0.height(), p.x as int, p.y as int);
    assert forall|x: int, y: int|
        b1.in_range(x, y) && !(x == p.x as int && y == p.y as int) implies b1.color_at(x, y)
        == b0.color_at(x, y) by {
        lemma_grid_index(b0.width(), b0.height(), x, y);
        if b0.idx(x, y) == b0.idx(p.x as int, p.y as int) {
            lemma_grid_index_injective(b0.width(), x, y, p.x as int, p.y as int);
        }
    }
}

/// Law: widening a buffer and then narrowing it back to its original width,
/// holding the height fixed, restores every cell that existed before the
/// widening.
pub proof fn lemma_widen_then_narrow(b0: Buffer, b1: Buffer, b2: Buffer, wide: int)
    requires
        b0.wf(),
        b0.width() <= wide,
        width_resized(b0, b1, wide),
        width_resized(b1, b2, b0.width()),
    ensures
        b2.wf(),
        b2.width() == b0.width(),
        b2.height() == b0.height(),
        forall|x: int, y: int| b0.in_range(x, y) ==> b2.color_at(x, y) == b0.color_at(x, y),
{
    assert forall|x: int, y: int| b0.in_range(x, y) implies b2.color_at(x, y) == b0.color_at(
        x,
        y,
    ) by {
        assert(b2.in_range(x, y));
        assert(b1.in_range(x, y));
    }
}

impl Default for Buffer {
    /// The default buffer is empty: zero extent and no cells.
    fn default() -> (b: Buffer)
        ensures
            b.wf(),
            b.width() == 0,
            b.height() == 0,
    {
        Buffer { max_position: Position { x: 0, y: 0 }, data: RawBuffer(Vec::new()) }
    }
}

} // verus!
