use rollback_core::input::{
    encode, Direction, InputFrame, Sign, INPUT_DOWN, INPUT_FIRE, INPUT_LEFT, INPUT_RIGHT, INPUT_UP,
};

#[test]
fn mask_list() {
    let up: u8 = 1 << 0;
    let down: u8 = 1 << 1;
    let left: u8 = 1 << 2;
    let right: u8 = 1 << 3;
    let fire: u8 = 1 << 4;
    println!("{up} {down} {left} {right} {fire}");
    assert_eq!(
        (up, down, left, right, fire),
        (INPUT_UP, INPUT_DOWN, INPUT_LEFT, INPUT_RIGHT, INPUT_FIRE)
    );

    let mut input = 1u8;

    input |= fire;
    println!("{input}");
    assert_eq!(input, 17);
    assert_eq!(encode(true, false, false, false, true), InputFrame(input));
    assert!(InputFrame(input).up());
    assert!(InputFrame(input).fire());
    assert!(!InputFrame(input).down());
}

#[test]
fn encode_sets_one_bit_for_each_control() {
    assert_eq!(encode(false, false, false, false, false), InputFrame(0));
    assert_eq!(encode(true, false, false, false, false), InputFrame(1));
    assert_eq!(encode(false, true, false, false, false), InputFrame(2));
    assert_eq!(encode(false, false, true, false, false), InputFrame(4));
    assert_eq!(encode(false, false, false, true, false), InputFrame(8));
    assert_eq!(encode(false, false, false, false, true), InputFrame(16));
    assert_eq!(encode(true, true, true, true, true), InputFrame(31));
    assert_eq!(encode(false, true, false, true, true), InputFrame(26));
}

#[test]
fn encode_then_read_back_every_combination() {
    for bits in 0u8..32 {
        let up = bits & 1 != 0;
        let down = bits & 2 != 0;
        let left = bits & 4 != 0;
        let right = bits & 8 != 0;
        let fire = bits & 16 != 0;
        let frame = encode(up, down, left, right, fire);
        assert_eq!(frame, InputFrame(bits));
        assert_eq!(frame.up(), up);
        assert_eq!(frame.down(), down);
        assert_eq!(frame.left(), left);
        assert_eq!(frame.right(), right);
        assert_eq!(frame.fire(), fire);
    }
}

#[test]
fn neutral_frame_is_zero() {
    let frame = InputFrame::neutral();
    assert_eq!(frame, InputFrame(0));
    assert_eq!(frame.direction(), Direction { x: Sign::Zero, y: Sign::Zero });
    assert!(!frame.fire());
}

#[test]
fn single_bits_decode_to_axis_headings() {
    assert_eq!(InputFrame(INPUT_UP).direction(), Direction { x: Sign::Zero, y: Sign::Plus });
    assert_eq!(InputFrame(INPUT_DOWN).direction(), Direction { x: Sign::Zero, y: Sign::Minus });
    assert_eq!(InputFrame(INPUT_LEFT).direction(), Direction { x: Sign::Minus, y: Sign::Zero });
    assert_eq!(InputFrame(INPUT_RIGHT).direction(), Direction { x: Sign::Plus, y: Sign::Zero });
    assert_eq!(InputFrame(INPUT_FIRE).direction(), Direction { x: Sign::Zero, y: Sign::Zero });
}

#[test]
fn two_bits_decode_to_diagonals() {
    assert_eq!(
        InputFrame(INPUT_UP | INPUT_RIGHT).direction(),
        Direction { x: Sign::Plus, y: Sign::Plus }
    );
    assert_eq!(
        InputFrame(INPUT_DOWN | INPUT_LEFT).direction(),
        Direction { x: Sign::Minus, y: Sign::Minus }
    );
}

#[test]
fn opposing_bits_cancel() {
    let zero = Direction { x: Sign::Zero, y: Sign::Zero };
    assert_eq!(InputFrame(INPUT_LEFT | INPUT_RIGHT).direction(), zero);
    assert_eq!(InputFrame(INPUT_UP | INPUT_DOWN).direction(), zero);
    assert_eq!(InputFrame(INPUT_UP | INPUT_DOWN | INPUT_LEFT | INPUT_RIGHT).direction(), zero);
    assert_eq!(InputFrame(INPUT_LEFT | INPUT_RIGHT | INPUT_FIRE).direction(), zero);
    // Only the axis whose bits oppose each other is cancelled.
    assert_eq!(
        InputFrame(INPUT_LEFT | INPUT_RIGHT | INPUT_UP).direction(),
        Direction { x: Sign::Zero, y: Sign::Plus }
    );
    assert_eq!(
        InputFrame(INPUT_UP | INPUT_DOWN | INPUT_LEFT).direction(),
        Direction { x: Sign::Minus, y: Sign::Zero }
    );
}

#[test]
fn upper_bits_are_ignored() {
    let frame = InputFrame(0b1110_0000);
    assert_eq!(frame.direction(), Direction { x: Sign::Zero, y: Sign::Zero });
    assert!(!frame.fire());
    assert_eq!(
        InputFrame(0b1110_0000 | INPUT_RIGHT).direction(),
        Direction { x: Sign::Plus, y: Sign::Zero }
    );
}
