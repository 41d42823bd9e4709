//! The mouse cursor: each PS/2 packet moves a highlighted cell on the text
//! screen.

use vstd::prelude::*;
use crate::vga_buffer::writer::{Writer, st_flip, ScreenState};
use crate::vga_buffer::{BUFFER_HEIGHT, BUFFER_WIDTH};

/// The mouse's bytes wait in the same kind of queue as the keyboard's.
pub use crate::keyboard::scancode::ScancodeStream;

verus! {

/// What a decoded mouse packet says about movement.
#[derive(Debug, Clone, Copy, PartialEq, Eq, Structural)]
pub struct MouseState {
    pub x_moved: bool,
    pub x: i16,
    pub y_moved: bool,
    pub y: i16,
}

/// The cell the mouse cursor is on.
#[derive(Debug, Clone, Copy, PartialEq, Eq, Structural)]
pub struct MouseCursor {
    pub x: usize,
    pub y: usize,
}

/// `v` clamped to `0 ..= max`.
pub open spec fn clamp(v: int, max: int) -> int {
    if v < 0 {
        0
    } else if v > max {
        max
    } else {
        v
    }
}

/// The cursor cell after a packet: the column moves by the packet's x
/// movement, the row against its y movement (the packet counts up as
/// "up"), both kept on the screen.
pub open spec fn moved_cursor(c: MouseCursor, m: MouseState) -> MouseCursor {
    MouseCursor {
        x: if m.x_moved { clamp(c.x + m.x, 79) as usize } else { c.x },
        y: if m.y_moved { clamp(c.y - m.y, 24) as usize } else { c.y },
    }
}

impl MouseCursor {
    /// The cursor starts in the top left cell.
    pub fn new() -> (c: MouseCursor)
        ensures
            c.x == 0 && c.y == 0,
    {
        MouseCursor { x: 0, y: 0 }
    }

    pub open spec fn wf(&self) -> bool {
        self.x < BUFFER_WIDTH && self.y < BUFFER_HEIGHT
    }
}

/// Moves the highlighted cell for a mouse packet: the old cell is restored,
/// the cursor moves (see `moved_cursor`), and the new cell is highlighted.
pub fn mouse_packet_handler(cursor: &mut MouseCursor, mouse_state: MouseState, writer: &mut Writer)
    requires
        old(cursor).wf(),
        old(writer).wf(),
        mouse_state.y_moved ==> mouse_state.y != i16::MIN,
    ensures
        final(cursor).wf(),
        *final(cursor) == moved_cursor(*old(cursor), mouse_state),
        final(writer).wf(),
        final(writer)@ == st_flip(
            st_flip(old(writer)@, old(cursor).x as int, old(cursor).y as int),
            final(cursor).x as int,
            final(cursor).y as int,
        ),
{
    let mut x = cursor.x;
    let mut y = cursor.y;
    writer.flip_bit(x, y);
    if mouse_state.x_moved {
        let nx: isize = x as isize + mouse_state.x as isize;
        x = if nx < 0 {
            0
        } else if nx > (BUFFER_WIDTH - 1) as isize {
            BUFFER_WIDTH - 1
        } else {
            nx as usize
        };
    }
    if mouse_state.y_moved {
        let dy: i16 = -mouse_state.y;
        let ny: isize = y as isize + dy as isize;
        y = if ny < 0 {
            0
        } else if ny > (BUFFER_HEIGHT - 1) as isize {
            BUFFER_HEIGHT - 1
        } else {
            ny as usize
        };
    }
    cursor.x = x;
    cursor.y = y;
    writer.flip_bit(x, y);
}

/// The cursor always stays on the screen.
pub proof fn law_cursor_stays_on_screen(c: MouseCursor, m: MouseState)
    requires
        c.wf(),
    ensures
        moved_cursor(c, m).wf(),
{
}

} // verus!
