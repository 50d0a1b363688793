//! Rendering: the capability contract an output target must satisfy so a
//! buffer can be displayed on it, and a headless recording target that
//! satisfies it.
use crate::buffer::{lemma_grid_index, Buffer, OutOfRangeError};
use crate::color::Color;
use crate::export::{csv_line_at, record_line, scan_x, scan_y};
use crate::position::Position;
use vstd::prelude::*;

verus! {

/// The error a render reports: reading the buffer failed because the target
/// reaches outside it, or the target itself refused an operation.
#[derive(Debug, PartialEq, Eq, Clone, Copy, Structural)]
pub enum RenderError {
    /// The target's extent reaches outside the buffer at these coordinates.
    OutOfRange(OutOfRangeError),
    /// The output target refused an operation.
    Output,
}

/// The cell writes a full row-major scan of the top-left `w` by `h` region of
/// `b` produces: step `i` paints column `i % w` of row `i / w` with the color
/// the buffer stores there.
pub open spec fn paint_seq(b: Buffer, w: int, h: int) -> Seq<(Position, Color)>
    recommends
        b.wf(),
{
    Seq::new(
        (w * h) as nat,
        |i: int|
            (
                Position { x: scan_x(w, i) as usize, y: scan_y(w, i) as usize },
                b.color_at(scan_x(w, i), scan_y(w, i)),
            ),
    )
}

/// What an output target must offer so a buffer can be painted on it. The
/// three spec functions model the target: its paintable extent, the log of
/// cell writes it has accepted so far (oldest first), and where the next
/// write lands.
pub trait Renderable: Sized {
    /// The target's current paintable extent.
    spec fn spec_size(&self) -> Position;

    /// Every cell write the target has accepted, oldest first.
    spec fn spec_writes(&self) -> Seq<(Position, Color)>;

    /// The target-relative coordinate the next cell write lands on.
    spec fn spec_output_position(&self) -> Position;

    /// Whether the target accepts every operation: its own methods never
    /// fail. A headless recorder is such a target; a real terminal is not.
    spec fn spec_infallible(&self) -> bool;

    /// Report the paintable extent; it establishes the iteration bound for
    /// `render`. Querying never paints; a failure is the target's own.
    fn size(&mut self) -> (r: Result<Position, RenderError>)
        ensures
            final(self).spec_size() == old(self).spec_size(),
            final(self).spec_writes() == old(self).spec_writes(),
            final(self).spec_output_position() == old(self).spec_output_position(),
            final(self).spec_infallible() == old(self).spec_infallible(),
            r matches Ok(p) ==> p == old(self).spec_size(),
            old(self).spec_infallible() ==> r is Ok,
            r matches Err(e) ==> e == RenderError::Output,
    ;

    /// Move the output cursor to a target-relative coordinate before a cell
    /// is written. Never paints; a failure is the target's own.
    fn set_position(&mut self, position: Position) -> (r: Result<(), RenderError>)
        ensures
            final(self).spec_size() == old(self).spec_size(),
            final(self).spec_writes() == old(self).spec_writes(),
            final(self).spec_infallible() == old(self).spec_infallible(),
            r is Ok ==> final(self).spec_output_position() == position,
            old(self).spec_infallible() ==> r is Ok,
            r matches Err(e) ==> e == RenderError::Output,
    ;

    /// Paint one cell at the current output position. On success exactly one
    /// write is appended to the log; on failure — the target's own — nothing
    /// is painted.
    fn write_color(&mut self, color: Color) -> (r: Result<(), RenderError>)
        ensures
            final(self).spec_size() == old(self).spec_size(),
            final(self).spec_infallible() == old(self).spec_infallible(),
            r is Ok ==> final(self).spec_writes() == old(self).spec_writes().push(
                (old(self).spec_output_position(), color),
            ),
            !(r is Ok) ==> final(self).spec_writes() == old(self).spec_writes(),
            old(self).spec_infallible() ==> r is Ok,
            r matches Err(e) ==> e == RenderError::Output,
    ;

    /// Advance the output viewport. The default is a no-op; a terminal
    /// target may shift already painted rows, but never unpaints a cell or
    /// resizes.
    fn scroll(&mut self) -> (r: Result<(), RenderError>)
        ensures
            final(self).spec_size() == old(self).spec_size(),
            final(self).spec_writes() == old(self).spec_writes(),
            final(self).spec_infallible() == old(self).spec_infallible(),
            old(self).spec_infallible() ==> r is Ok,
        default_ensures
            r is Ok,
            final(self).spec_output_position() == old(self).spec_output_position(),
    {
        Ok(())
    }

    /// Paint the buffer onto the target: visit every cell of the target's
    /// extent exactly once, in row-major scan order — the same order the CSV
    /// export lists the cells — reading the buffer at the same coordinates
    /// and painting one cell per read. The first failed read (the scan
    /// reaching outside the buffer) surfaces as the out-of-range error naming
    /// that cell, a refused target operation surfaces as the target's error;
    /// either aborts the remaining scan, no write is retried, so on failure
    /// the accepted writes have grown by exactly a prefix of the scan, and on
    /// success by the full scan. On a target that accepts every operation,
    /// the render succeeds exactly when the scan stays inside the buffer.
    fn render(&mut self, buffer: &Buffer) -> (r: Result<(), RenderError>)
        requires
            buffer.wf(),
        ensures
            final(self).spec_size() == old(self).spec_size(),
            r is Ok ==> final(self).spec_writes() == old(self).spec_writes() + paint_seq(
                *buffer,
                old(self).spec_size().x as int,
                old(self).spec_size().y as int,
            ),
            r is Ok && old(self).spec_size().x > 0 && old(self).spec_size().y > 0 ==> old(
                self,
            ).spec_size().x as int <= buffer.width() && old(self).spec_size().y as int
                <= buffer.height(),
            !(r is Ok) ==> exists|k: int|
                0 <= k <= old(self).spec_size().x as int * old(self).spec_size().y as int
                    && final(self).spec_writes() == old(self).spec_writes() + paint_seq(
                    *buffer,
                    old(self).spec_size().x as int,
                    old(self).spec_size().y as int,
                ).take(k),
            r matches Err(RenderError::OutOfRange(e)) ==> ({
                let sx = old(self).spec_size().x as int;
                let sy = old(self).spec_size().y as int;
                &&& (e.x as int) < sx
                &&& (e.y as int) < sy
                &&& !buffer.in_range(e.x as int, e.y as int)
                &&& forall|xx: int, yy: int|
                    0 <= xx < sx && 0 <= yy < sy && (yy < e.y as int || (yy == e.y as int && xx
                        < e.x as int)) ==> buffer.in_range(xx, yy)
                &&& final(self).spec_writes() == old(self).spec_writes() + paint_seq(
                    *buffer,
                    sx,
                    sy,
                ).take(e.y as int * sx + e.x as int)
            }),
            (old(self).spec_infallible() && (old(self).spec_size().x as int * old(
                self,
            ).spec_size().y as int == 0 || (old(self).spec_size().x as int <= buffer.width()
                && old(self).spec_size().y as int <= buffer.height()))) ==> r is Ok,
            old(self).spec_infallible() && !(r is Ok) ==> r matches Err(
                RenderError::OutOfRange(_),
            ),
    {
        let psize = match self.size() {
            Ok(p) => p,
            Err(e) => {
                proof {
                    let sx = old(self).spec_size().x as int;
                    let sy = old(self).spec_size().y as int;
                    assert(0 <= sx * sy) by (nonlinear_arith)
                        requires
                            0 <= sx,
                            0 <= sy,
                    ;
                    assert(self.spec_writes() =~= old(self).spec_writes() + paint_seq(
                        *buffer,
                        sx,
                        sy,
                    ).take(0));
                }
                return Err(e);
            },
        };
        let w = psize.x;
        let h = psize.y;
        let mut y: usize = 0;
        while y < h
            invariant
                buffer.wf(),
                self.spec_size() == old(self).spec_size(),
                w == old(self).spec_size().x,
                h == old(self).spec_size().y,
                y <= h,
                self.spec_infallible() == old(self).spec_infallible(),
                self.spec_writes() == old(self).spec_writes() + paint_seq(
                    *buffer,
                    w as int,
                    h as int,
                ).take(y as int * w as int),
                w > 0 && y > 0 ==> w as int <= buffer.width() && y as int <= buffer.height(),
            decreases h as int - y as int,
        {
            let mut x: usize = 0;
            while x < w
                invariant
                    buffer.wf(),
                    self.spec_size() == old(self).spec_size(),
                    w == old(self).spec_size().x,
                    h == old(self).spec_size().y,
                    y < h,
                    x <= w,
                    self.spec_infallible() == old(self).spec_infallible(),
                    self.spec_writes() == old(self).spec_writes() + paint_seq(
                        *buffer,
                        w as int,
                        h as int,
                    ).take(y as int * w as int + x as int),
                    w > 0 && y > 0 ==> (w as int <= buffer.width() && y as int
                        <= buffer.height()),
                    x > 0 ==> (x as int <= buffer.width() && (y as int) < buffer.height()),
                decreases w as int - x as int,
            {
                let pos = Position { x, y };
                let c = match buffer.get_color(pos) {
                    Ok(c) => c,
                    Err(e) => {
                        proof {
                            lemma_grid_index(w as int, h as int, x as int, y as int);
                            assert forall|xx: int, yy: int|
                                0 <= xx < w as int && 0 <= yy < h as int && (yy < y as int || (yy
                                    == y as int && xx < x as int)) implies buffer.in_range(
                                xx,
                                yy,
                            ) by {}
                        }
                        return Err(RenderError::OutOfRange(e));
                    },
                };
                match self.set_position(pos) {
                    Ok(()) => (),
                    Err(e) => {
                        proof {
                            lemma_grid_index(w as int, h as int, x as int, y as int);
                            assert(self.spec_writes() == old(self).spec_writes() + paint_seq(
                                *buffer,
                                w as int,
                                h as int,
                            ).take(y as int * w as int + x as int));
                        }
                        return Err(e);
                    },
                }
                match self.write_color(c) {
                    Ok(()) => (),
                    Err(e) => {
                        proof {
                            lemma_grid_index(w as int, h as int, x as int, y as int);
                            assert(self.spec_writes() == old(self).spec_writes() + paint_seq(
                                *buffer,
                                w as int,
                                h as int,
                            ).take(y as int * w as int + x as int));
                        }
                        return Err(e);
                    },
                }
                proof {
                    let wi = w as int;
                    let k = y as int * wi + x as int;
                    vstd::arithmetic::div_mod::lemma_fundamental_div_mod_converse(
                        k,
                        wi,
                        y as int,
                        x as int,
                    );
                    lemma_grid_index(wi, h as int, x as int, y as int);
                    assert(paint_seq(*buffer, wi, h as int)[k] == (pos, c));
                    assert(self.spec_writes() =~= old(self).spec_writes() + paint_seq(
                        *buffer,
                        wi,
                        h as int,
                    ).take(k + 1));
                }
                x += 1;
            }
            y += 1;
            proof {
                assert(y as int * w as int == (y as int - 1) * (w as int) + w as int)
                    by (nonlinear_arith);
            }
        }
        proof {
            if w == 0 {
                assert(w as int * h as int == 0 && h as int * w as int == 0) by (nonlinear_arith)
                    requires
                        w as int == 0,
                ;
            } else {
                assert(h as int * w as int == w as int * h as int) by (nonlinear_arith);
            }
            assert(paint_seq(*buffer, w as int, h as int).take(h as int * w as int)
                =~= paint_seq(*buffer, w as int, h as int));
        }
        Ok(())
    }
}

/// A headless output target: it has a fixed extent, accepts every operation,
/// and records each painted cell in order. It lets render logic be exercised
/// without a real terminal.
#[derive(Debug)]
pub struct CellRecorder {
    size: Position,
    output_position: Position,
    writes: Vec<(Position, Color)>,
}

impl CellRecorder {
    /// A recorder with the given paintable extent, an empty log, and the
    /// output cursor at the origin.
    pub fn new(width: usize, height: usize) -> (r: CellRecorder)
        ensures
            r.spec_size() == (Position { x: width, y: height }),
            r.spec_writes() == Seq::<(Position, Color)>::empty(),
            r.spec_output_position() == (Position { x: 0, y: 0 }),
            r.spec_infallible(),
    {
        CellRecorder {
            size: Position { x: width, y: height },
            output_position: Position { x: 0, y: 0 },
            writes: Vec::new(),
        }
    }

    /// The painted cells, oldest first.
    pub fn recorded(&self) -> (v: &Vec<(Position, Color)>)
        ensures
            v@ == self.spec_writes(),
    {
        &self.writes
    }

    /// Law: the recorder accepts every operation, so a render onto a recorder
    /// whose extent fits inside the buffer completes, and the recorded writes
    /// grow by exactly the full row-major paint sequence — every cell of the
    /// extent painted exactly once, in the CSV export's order.
    pub fn render_complete(&mut self, buffer: &Buffer) -> (r: Result<(), RenderError>)
        requires
            buffer.wf(),
            old(self).spec_size().x as int <= buffer.width(),
            old(self).spec_size().y as int <= buffer.height(),
        ensures
            r is Ok,
            final(self).spec_writes() == old(self).spec_writes() + paint_seq(
                *buffer,
                old(self).spec_size().x as int,
                old(self).spec_size().y as int,
            ),
    {
        proof {
            assert(self.spec_infallible());
        }
        self.render(buffer)
    }
}

impl Renderable for CellRecorder {
    closed spec fn spec_size(&self) -> Position {
        self.size
    }

    closed spec fn spec_infallible(&self) -> bool {
        true
    }

    closed spec fn spec_writes(&self) -> Seq<(Position, Color)> {
        self.writes@
    }

    closed spec fn spec_output_position(&self) -> Position {
        self.output_position
    }

    /// The recorder accepts every query unchanged.
    fn size(&mut self) -> (r: Result<Position, RenderError>)
        ensures
            r is Ok,
            *final(self) == *old(self),
    {
        Ok(self.size)
    }

    /// The recorder accepts every cursor move.
    fn set_position(&mut self, position: Position) -> (r: Result<(), RenderError>)
        ensures
            r is Ok,
            final(self).spec_output_position() == position,
    {
        self.output_position = position;
        proof {
            assert(self.spec_output_position() == position);
        }
        Ok(())
    }

    /// The recorder accepts every cell write, leaving its cursor in place.
    fn write_color(&mut self, color: Color) -> (r: Result<(), RenderError>)
        ensures
            r is Ok,
            final(self).spec_writes() == old(self).spec_writes().push(
                (old(self).spec_output_position(), color),
            ),
            final(self).spec_output_position() == old(self).spec_output_position(),
    {
        self.writes.push((self.output_position, color));
        proof {
            assert(self.spec_writes() == old(self).spec_writes().push(
                (old(self).spec_output_position(), color),
            ));
        }
        Ok(())
    }
}

/// Law: a full scan paints every in-range cell exactly once — the cell at
/// `(x, y)` is painted by scan step `y * width + x` and by no other step —
/// and step `i` paints exactly the cell the `i`-th CSV record describes, so
/// the visual and the textual dump agree on cell ordering.
pub proof fn lemma_render_matches_csv(b: Buffer, names: Seq<Seq<char>>)
    requires
        b.wf(),
    ensures
        paint_seq(b, b.width(), b.height()).len() == b.width() * b.height(),
        forall|x: int, y: int|
            b.in_range(x, y) ==> (#[trigger] paint_seq(b, b.width(), b.height())[y * b.width()
                + x]).0 == (Position { x: x as usize, y: y as usize }),
        forall|i: int, j: int|
            0 <= i < j < paint_seq(b, b.width(), b.height()).len() ==> (#[trigger] paint_seq(
                b,
                b.width(),
                b.height(),
            )[i]).0 != (#[trigger] paint_seq(b, b.width(), b.height())[j]).0,
        forall|i: int|
            0 <= i < paint_seq(b, b.width(), b.height()).len() ==> #[trigger] csv_line_at(
                b,
                names,
                i,
            ) == record_line(
                paint_seq(b, b.width(), b.height())[i].0.x as int,
                paint_seq(b, b.width(), b.height())[i].0.y as int,
                names[paint_seq(b, b.width(), b.height())[i].1.0 as int],
            ),
{
    let w = b.width();
    let h = b.height();
    let ps = paint_seq(b, w, h);
    assert(b.cells().len() == w * h);
    assert forall|x: int, y: int| b.in_range(x, y) implies (#[trigger] ps[y * w + x]).0 == (
    Position { x: x as usize, y: y as usize }) by {
        lemma_grid_index(w, h, x, y);
        vstd::arithmetic::div_mod::lemma_fundamental_div_mod_converse(y * w + x, w, y, x);
    }
    assert forall|i: int, j: int| 0 <= i < j < ps.len() implies (#[trigger] ps[i]).0 != (
    #[trigger] ps[j]).0 by {
        assert(0 < w * h);
        assert(0 < w) by (nonlinear_arith)
            requires
                0 <= w,
                0 < w * h,
        ;
        crate::buffer::lemma_flat_index_coords(w, h, i);
        crate::buffer::lemma_flat_index_coords(w, h, j);
        if ps[i].0 == ps[j].0 {
            assert(scan_x(w, i) == scan_x(w, j) && scan_y(w, i) == scan_y(w, j));
        }
    }
    assert forall|i: int| 0 <= i < ps.len() implies #[trigger] csv_line_at(b, names, i)
        == record_line(
        ps[i].0.x as int,
        ps[i].0.y as int,
        names[ps[i].1.0 as int],
    ) by {
        assert(0 < w * h);
        assert(0 < w) by (nonlinear_arith)
            requires
                0 <= w,
                0 < w * h,
        ;
        crate::buffer::lemma_flat_index_coords(w, h, i);
    }
}

} // verus!
