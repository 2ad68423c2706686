//! PS/2 mouse packets: three bytes per movement (flags, x, y), decoded into
//! a pointer position on the 80x25 text screen and the button states.
use vstd::prelude::*;

verus! {

/// Right-most column and bottom row the pointer can reach.
pub const MAX_X: i32 = 79;
pub const MAX_Y: i32 = 24;

#[derive(Clone, Copy, Debug, PartialEq, Eq, Structural)]
pub struct MouseState {
    pub x: i32,
    pub y: i32,
    pub left_button: bool,
    pub right_button: bool,
    pub middle_button: bool,
}

impl MouseState {
    /// Pointer at the screen's centre, no button down.
    pub fn new() -> (r: Self)
        ensures
            r == (MouseState { x: 40, y: 12, left_button: false, right_button: false, middle_button: false }),
    {
        MouseState { x: 40, y: 12, left_button: false, right_button: false, middle_button: false }
    }
}

pub open spec fn clamp(v: int, lo: int, hi: int) -> int {
    if v < lo {
        lo
    } else if v > hi {
        hi
    } else {
        v
    }
}

/// A 9-bit movement: the byte, less 256 when the sign flag is set.
pub open spec fn delta(byte: u8, negative: bool) -> int {
    if negative {
        byte - 256
    } else {
        byte as int
    }
}

/// The state after a complete packet `(flags, dx, dy)`; a movement whose
/// overflow flag is set is ignored, and up is the negative y direction on
/// screen.
pub open spec fn after_packet(s: MouseState, flags: u8, dx: u8, dy: u8) -> MouseState {
    MouseState {
        left_button: flags & 0x01 != 0,
        right_button: flags & 0x02 != 0,
        middle_button: flags & 0x04 != 0,
        x: if flags & 0x40 != 0 {
            s.x
        } else {
            clamp(s.x + delta(dx, flags & 0x10 != 0), 0, MAX_X as int) as i32
        },
        y: if flags & 0x80 != 0 {
            s.y
        } else {
            clamp(s.y - delta(dy, flags & 0x20 != 0), 0, MAX_Y as int) as i32
        },
    }
}

fn clamp_i32(v: i32, lo: i32, hi: i32) -> (r: i32)
    requires
        lo <= hi,
    ensures
        r == clamp(v as int, lo as int, hi as int),
{
    if v < lo {
        lo
    } else if v > hi {
        hi
    } else {
        v
    }
}

/// Collects packet bytes from the mouse interrupt.
pub struct Mouse {
    state: MouseState,
    packet: [u8; 3],
    packet_index: usize,
}

impl Mouse {
    pub closed spec fn state_view(&self) -> MouseState {
        self.state
    }

    /// Bytes of the current packet received so far.
    pub closed spec fn pending(&self) -> Seq<u8> {
        self.packet@.subrange(0, self.packet_index as int)
    }

    pub closed spec fn wf(&self) -> bool {
        &&& self.packet_index < 3
        &&& 0 <= self.state.x <= MAX_X
        &&& 0 <= self.state.y <= MAX_Y
    }

    pub fn new() -> (r: Self)
        ensures
            r.wf(),
            r.state_view() == MouseState::new_spec(),
            r.pending().len() == 0,
    {
        Mouse { state: MouseState::new(), packet: [0; 3], packet_index: 0 }
    }

    /// One byte from the mouse; the third byte of a packet applies it.
    pub fn handle_interrupt(&mut self, byte: u8)
        requires
            old(self).wf(),
        ensures
            final(self).wf(),
            old(self).pending().len() < 2 ==> final(self).pending() == old(self).pending().push(byte)
                && final(self).state_view() == old(self).state_view(),
            old(self).pending().len() == 2 ==> final(self).pending().len() == 0 && final(self).state_view() == after_packet(
                old(self).state_view(),
                old(self).pending()[0],
                old(self).pending()[1],
                byte,
            ),
    {
        self.packet[self.packet_index] = byte;
        self.packet_index = self.packet_index + 1;
        if self.packet_index == 3 {
            self.process_packet();
            self.packet_index = 0;
        } else {
            assert(self.pending() =~= old(self).pending().push(byte));
        }
    }

    fn process_packet(&mut self)
        requires
            old(self).packet_index == 3,
            0 <= old(self).state.x <= MAX_X,
            0 <= old(self).state.y <= MAX_Y,
        ensures
            final(self).packet@ == old(self).packet@,
            final(self).packet_index == old(self).packet_index,
            0 <= final(self).state.x <= MAX_X,
            0 <= final(self).state.y <= MAX_Y,
            final(self).state == after_packet(old(self).state, old(self).packet@[0], old(self).packet@[1], old(self).packet@[2]),
    {
        let flags = self.packet[0];
        let x_movement = self.packet[1] as i32;
        let y_movement = self.packet[2] as i32;
        self.state.left_button = flags & 0x01 != 0;
        self.state.right_button = flags & 0x02 != 0;
        self.state.middle_button = flags & 0x04 != 0;
        if flags & 0x40 == 0 {
            let x_delta = if flags & 0x10 != 0 { x_movement - 256 } else { x_movement };
            self.state.x = clamp_i32(self.state.x + x_delta, 0, MAX_X);
        }
        if flags & 0x80 == 0 {
            let y_delta = if flags & 0x20 != 0 { y_movement - 256 } else { y_movement };
            self.state.y = clamp_i32(self.state.y - y_delta, 0, MAX_Y);
        }
    }

    pub fn get_state(&self) -> (r: MouseState)
        ensures
            r == self.state_view(),
    {
        self.state
    }
}

impl MouseState {
    pub open spec fn new_spec() -> MouseState {
        MouseState { x: 40, y: 12, left_button: false, right_button: false, middle_button: false }
    }
}

} // verus!
