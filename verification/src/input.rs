//! One peer's controls for one tick, packed into a byte, and what the
//! simulation reads out of that byte.

use vstd::prelude::*;

verus! {

/// Bit 0: move up.
pub const INPUT_UP: u8 = 1;

/// Bit 1: move down.
pub const INPUT_DOWN: u8 = 2;

/// Bit 2: move left.
pub const INPUT_LEFT: u8 = 4;

/// Bit 3: move right.
pub const INPUT_RIGHT: u8 = 8;

/// Bit 4: fire.
pub const INPUT_FIRE: u8 = 16;

/// Where a control stands on one axis.
#[derive(Clone, Copy, Debug, PartialEq, Eq, Structural)]
pub enum Sign {
    Minus,
    Zero,
    Plus,
}

impl Sign {
    /// The sign as a number: -1, 0 or 1.
    pub open spec fn value(self) -> int {
        match self {
            Sign::Minus => -1,
            Sign::Zero => 0,
            Sign::Plus => 1,
        }
    }
}

/// One of the eight headings of the stick, or no heading at all. It stands for
/// the unit vector that points the same way; `x` grows to the right and `y`
/// grows upwards.
#[derive(Clone, Copy, Debug, PartialEq, Eq, Structural)]
pub struct Direction {
    pub x: Sign,
    pub y: Sign,
}

impl Direction {
    /// No heading: the zero vector.
    pub open spec fn is_zero(self) -> bool {
        self.x == Sign::Zero && self.y == Sign::Zero
    }
}

/// What two opposing controls of one axis add up to: they cancel when both are
/// held, and when neither is.
pub open spec fn axis(negative: bool, positive: bool) -> Sign {
    if positive && !negative {
        Sign::Plus
    } else if negative && !positive {
        Sign::Minus
    } else {
        Sign::Zero
    }
}

/// The byte that holds exactly the given controls.
pub open spec fn encoded(up: bool, down: bool, left: bool, right: bool, fire: bool) -> int {
    (if up { 1int } else { 0 }) + (if down { 2int } else { 0 }) + (if left { 4int } else { 0 }) + (
    if right { 8int } else { 0 }) + (if fire { 16int } else { 0 })
}

/// The controls of one peer during one tick. Bits 5 to 7 carry no meaning and
/// no reader looks at them.
#[derive(Clone, Copy, Debug, PartialEq, Eq, Structural)]
pub struct InputFrame(pub u8);

impl InputFrame {
    /// Bit 0 is set.
    pub open spec fn spec_up(self) -> bool {
        self.0 & INPUT_UP != 0
    }

    /// Bit 1 is set.
    pub open spec fn spec_down(self) -> bool {
        self.0 & INPUT_DOWN != 0
    }

    /// Bit 2 is set.
    pub open spec fn spec_left(self) -> bool {
        self.0 & INPUT_LEFT != 0
    }

    /// Bit 3 is set.
    pub open spec fn spec_right(self) -> bool {
        self.0 & INPUT_RIGHT != 0
    }

    /// Bit 4 is set.
    pub open spec fn spec_fire(self) -> bool {
        self.0 & INPUT_FIRE != 0
    }

    /// The heading that the four directional bits decode to.
    pub open spec fn spec_direction(self) -> Direction {
        Direction { x: axis(self.left(), self.right()), y: axis(self.down(), self.up()) }
    }

    /// The frame of a peer that touches nothing.
    pub fn neutral() -> (frame: InputFrame)
        ensures
            frame.0 == 0,
            frame.direction().is_zero(),
            !frame.fire(),
    {
        assert(0u8 & 1 == 0 && 0u8 & 2 == 0 && 0u8 & 4 == 0 && 0u8 & 8 == 0 && 0u8 & 16 == 0)
            by (bit_vector);
        InputFrame(0)
    }

    /// Whether the peer steers upwards.
    #[verifier::when_used_as_spec(spec_up)]
    pub fn up(self) -> (r: bool)
        ensures
            r == self.spec_up(),
    {
        self.0 & INPUT_UP != 0
    }

    /// Whether the peer steers downwards.
    #[verifier::when_used_as_spec(spec_down)]
    pub fn down(self) -> (r: bool)
        ensures
            r == self.spec_down(),
    {
        self.0 & INPUT_DOWN != 0
    }

    /// Whether the peer steers to the left.
    #[verifier::when_used_as_spec(spec_left)]
    pub fn left(self) -> (r: bool)
        ensures
            r == self.spec_left(),
    {
        self.0 & INPUT_LEFT != 0
    }

    /// Whether the peer steers to the right.
    #[verifier::when_used_as_spec(spec_right)]
    pub fn right(self) -> (r: bool)
        ensures
            r == self.spec_right(),
    {
        self.0 & INPUT_RIGHT != 0
    }

    /// Whether the peer asks to shoot during this tick.
    #[verifier::when_used_as_spec(spec_fire)]
    pub fn fire(self) -> (r: bool)
        ensures
            r == self.spec_fire(),
    {
        self.0 & INPUT_FIRE != 0
    }

    /// Decodes the directional bits. Opposing bits cancel, so an axis with both
    /// of its bits set, or with neither, contributes nothing.
    #[verifier::when_used_as_spec(spec_direction)]
    pub fn direction(self) -> (d: Direction)
        ensures
            d == self.spec_direction(),
    {
        let x = pick_axis(self.left(), self.right());
        let y = pick_axis(self.down(), self.up());
        Direction { x, y }
    }
}

/// Executable form of [`axis`].
pub fn pick_axis(negative: bool, positive: bool) -> (s: Sign)
    ensures
        s == axis(negative, positive),
{
    if positive && !negative {
        Sign::Plus
    } else if negative && !positive {
        Sign::Minus
    } else {
        Sign::Zero
    }
}

/// Packs the state of the local controls into a frame. The result depends on
/// nothing but the five arguments.
pub fn encode(up: bool, down: bool, left: bool, right: bool, fire: bool) -> (frame: InputFrame)
    ensures
        frame.0 == encoded(up, down, left, right, fire),
        frame.up() == up,
        frame.down() == down,
        frame.left() == left,
        frame.right() == right,
        frame.fire() == fire,
{
    let u: u8 = if up { INPUT_UP } else { 0 };
    let d: u8 = if down { INPUT_DOWN } else { 0 };
    let l: u8 = if left { INPUT_LEFT } else { 0 };
    let r: u8 = if right { INPUT_RIGHT } else { 0 };
    let f: u8 = if fire { INPUT_FIRE } else { 0 };
    let bits: u8 = u | d | l | r | f;
    assert({
        &&& bits == u + d + l + r + f
        &&& (bits & 1 != 0) == (u != 0)
        &&& (bits & 2 != 0) == (d != 0)
        &&& (bits & 4 != 0) == (l != 0)
        &&& (bits & 8 != 0) == (r != 0)
        &&& (bits & 16 != 0) == (f != 0)
    }) by (bit_vector)
        requires
            bits == u | d | l | r | f,
            u == 0 || u == 1,
            d == 0 || d == 2,
            l == 0 || l == 4,
            r == 0 || r == 8,
            f == 0 || f == 16,
    ;
    InputFrame(bits)
}

/// Opposing bits cancel: a frame that holds a pair of opposing directional
/// bits, and steers no axis with one bit alone, decodes to the zero vector.
pub proof fn lemma_opposing_bits_cancel(frame: InputFrame)
    requires
        frame.left() && frame.right() || frame.up() && frame.down(),
        frame.left() == frame.right(),
        frame.up() == frame.down(),
    ensures
        frame.direction().is_zero(),
{
}

/// Axis by axis: a pair of opposing bits held together leaves its axis at
/// zero, whatever the other axis does; and the heading is zero exactly if
/// each axis has both of its bits or neither.
pub proof fn lemma_axis_cancels(frame: InputFrame)
    ensures
        frame.left() && frame.right() ==> frame.direction().x == Sign::Zero,
        frame.up() && frame.down() ==> frame.direction().y == Sign::Zero,
        frame.direction().is_zero() <==> frame.left() == frame.right() && frame.up()
            == frame.down(),
{
}

/// Decoding undoes encoding: the heading of an encoded frame is the one that
/// the four controls add up to, and its fire bit is the fire control.
pub proof fn lemma_decode_encoded(
    frame: InputFrame,
    up: bool,
    down: bool,
    left: bool,
    right: bool,
    fire: bool,
)
    requires
        frame.0 == encoded(up, down, left, right, fire),
    ensures
        frame.direction() == (Direction { x: axis(left, right), y: axis(down, up) }),
        frame.fire() == fire,
{
    let bits = frame.0;
    assert({
        &&& (bits & 1 != 0) == up
        &&& (bits & 2 != 0) == down
        &&& (bits & 4 != 0) == left
        &&& (bits & 8 != 0) == right
        &&& (bits & 16 != 0) == fire
    }) by (bit_vector)
        requires
            bits == (if up { 1u8 } else { 0 }) + (if down { 2u8 } else { 0 }) + (if left {
                4u8
            } else {
                0
            }) + (if right { 8u8 } else { 0 }) + (if fire { 16u8 } else { 0 }),
    ;
}

} // verus!
