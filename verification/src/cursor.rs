//! The cursor: a position plus a behavioral mode. The cursor is the only
//! component permitted to mutate a buffer, and only while in draw mode.
use crate::buffer::{Buffer, OutOfRangeError};
use crate::color::Color;
use crate::position::Position;
use vstd::prelude::*;

verus! {

/// The cursor's behavioral state. Any mode is reachable from any other by an
/// explicit request; no transition table restricts them.
#[derive(Debug, Clone, Copy, PartialEq)]
pub enum Mode {
    /// Navigation only; no drawing.
    Normal,
    /// Marks a region; no drawing.
    Selection,
    /// The only mode in which the cursor may write into a buffer: it paints
    /// with `color`, optionally through a single-character brush override.
    Draw { color: Color, brush: Option<char> },
    /// Passive inspection.
    Visual,
}

impl Default for Mode {
    /// The initial mode is `Normal`.
    fn default() -> (m: Mode)
        ensures
            m == Mode::Normal,
    {
        Mode::Normal
    }
}

/// The error raised when a draw is attempted outside of draw mode. It carries
/// the cursor's actual mode and signals a caller precondition violation, not
/// bad input data.
#[derive(Debug, Clone, Copy)]
pub enum ModeError {
    NotDrawModeError(Mode),
}

/// Everything that can make `Cursor::draw` fail: the cursor is not in draw
/// mode, or its position lies outside the buffer.
#[derive(Debug, Clone, Copy)]
pub enum DrawError {
    Mode(ModeError),
    Range(OutOfRangeError),
}

/// An owned position plus an owned mode. Transitions replace the whole value,
/// so a cursor is always internally consistent; it holds no reference to any
/// buffer, and every mutation call passes the target buffer explicitly.
#[derive(Debug, Clone, Copy)]
pub struct Cursor {
    position: Position,
    mode: Mode,
}

impl Cursor {
    /// The cursor's position.
    pub closed spec fn spec_position(self) -> Position {
        self.position
    }

    /// The cursor's mode.
    pub closed spec fn spec_mode(self) -> Mode {
        self.mode
    }

    /// Return the current position of the cursor.
    pub fn current_position(&self) -> (p: &Position)
        ensures
            *p == self.spec_position(),
    {
        &self.position
    }

    /// Return the current mode of the cursor.
    pub fn current_mode(&self) -> (m: &Mode)
        ensures
            *m == self.spec_mode(),
    {
        &self.mode
    }

    /// Return a new cursor at `new_position`, keeping the mode.
    pub fn new_position_cursor(self, new_position: Position) -> (c: Cursor)
        ensures
            c.spec_position() == new_position,
            c.spec_mode() == self.spec_mode(),
    {
        Cursor { position: new_position, mode: self.mode }
    }

    /// Return a new cursor in `new_mode`, keeping the position.
    pub fn new_mode_cursor(self, new_mode: Mode) -> (c: Cursor)
        ensures
            c.spec_position() == self.spec_position(),
            c.spec_mode() == new_mode,
    {
        Cursor { position: self.position, mode: new_mode }
    }

    /// Write the active draw color into `buffer` at the cursor's position.
    ///
    /// Permitted only in draw mode: in any other mode the call fails with a
    /// `ModeError` carrying the current mode, whatever the buffer holds. In
    /// draw mode the buffer's own bounds check applies, and its failure is
    /// propagated. On any failure the buffer is unchanged.
    pub fn draw(&self, buffer: &mut Buffer) -> (r: Result<(), DrawError>)
        requires
            old(buffer).wf(),
        ensures
            final(buffer).wf(),
            final(buffer).width() == old(buffer).width(),
            final(buffer).height() == old(buffer).height(),
            r is Ok <==> (self.spec_mode() matches Mode::Draw { .. } && old(buffer).in_range(
                self.spec_position().x as int,
                self.spec_position().y as int,
            )),
            r is Ok ==> (self.spec_mode() matches Mode::Draw { color, .. }
                && final(buffer).cells() == old(buffer).cells().update(
                old(buffer).idx(self.spec_position().x as int, self.spec_position().y as int),
                color,
            )),
            !(r is Ok) ==> final(buffer).cells() == old(buffer).cells(),
            !(self.spec_mode() matches Mode::Draw { .. }) ==> r == Result::<
                (),
                DrawError,
            >::Err(DrawError::Mode(ModeError::NotDrawModeError(self.spec_mode()))),
            (self.spec_mode() matches Mode::Draw { .. } && !old(buffer).in_range(
                self.spec_position().x as int,
                self.spec_position().y as int,
            )) ==> r == Result::<(), DrawError>::Err(DrawError::Range(
                OutOfRangeError { x: self.spec_position().x, y: self.spec_position().y },
            )),
    {
        if let Mode::Draw { color, .. } = self.mode {
            match buffer.set_color(self.position, color) {
                Ok(()) => Ok(()),
                Err(e) => Err(DrawError::Range(e)),
            }
        } else {
            Err(DrawError::Mode(ModeError::NotDrawModeError(self.mode)))
        }
    }
}

impl Default for Cursor {
    /// The initial cursor: the origin, in normal mode.
    fn default() -> (c: Cursor)
        ensures
            c.spec_position() == (Position { x: 0, y: 0 }),
            c.spec_mode() == Mode::Normal,
    {
        Cursor { position: Position { x: 0, y: 0 }, mode: Mode::Normal }
    }
}

} // verus!
