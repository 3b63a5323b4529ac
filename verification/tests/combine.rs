use into_a_byte::IntoAByte;
use into_a_byte::ToByte;

enum FunctionA {
    Enabled,
    Disabled,
}

enum FunctionB {
    Enabled,
    Disabled,
}

enum FunctionC {
    Enabled,
    Disabled,
}

enum FunctionD {
    Enabled,
    Disabled,
}

impl ToByte for FunctionA {
    fn byte(self) -> u8 {
        match self {
            FunctionA::Enabled => 0b0000_1000,
            FunctionA::Disabled => 0,
        }
    }

    fn to_byte(self) -> u8 {
        match self {
            FunctionA::Enabled => 0b0000_1000,
            FunctionA::Disabled => 0,
        }
    }
}

impl ToByte for FunctionB {
    fn byte(self) -> u8 {
        match self {
            FunctionB::Enabled => 0b0000_0100,
            FunctionB::Disabled => 0,
        }
    }

    fn to_byte(self) -> u8 {
        match self {
            FunctionB::Enabled => 0b0000_0100,
            FunctionB::Disabled => 0,
        }
    }
}

impl ToByte for FunctionC {
    fn byte(self) -> u8 {
        match self {
            FunctionC::Enabled => 0b0000_0010,
            FunctionC::Disabled => 0,
        }
    }

    fn to_byte(self) -> u8 {
        match self {
            FunctionC::Enabled => 0b0000_0010,
            FunctionC::Disabled => 0,
        }
    }
}

impl ToByte for FunctionD {
    fn byte(self) -> u8 {
        match self {
            FunctionD::Enabled => 0b0000_0001,
            FunctionD::Disabled => 0,
        }
    }

    fn to_byte(self) -> u8 {
        match self {
            FunctionD::Enabled => 0b0000_0001,
            FunctionD::Disabled => 0,
        }
    }
}

fn send_to_device(value: (FunctionA, FunctionB, FunctionC, FunctionD)) {
    assert_eq!(value.into_a_byte(), 0b0000_1011)
}

#[test]
fn it_works() {
    send_to_device((
        FunctionA::Enabled,
        FunctionB::Disabled,
        FunctionC::Enabled,
        FunctionD::Enabled,
    ))
}

#[test]
fn single_element_tuple() {
    assert_eq!((FunctionA::Enabled,).into_a_byte(), 0b0000_1000);
}

#[test]
fn all_disabled_is_zero() {
    assert_eq!(
        (
            FunctionA::Disabled,
            FunctionB::Disabled,
            FunctionC::Disabled,
            FunctionD::Disabled,
        )
            .into_a_byte(),
        0
    );
}

#[test]
fn all_zero_bytes_fold_to_zero() {
    assert_eq!((0u8,).into_a_byte(), 0);
    assert_eq!((0u8, 0u8, 0u8, 0u8).into_a_byte(), 0);
    assert_eq!((0u8, 0u8, 0u8, 0u8, 0u8, 0u8, 0u8, 0u8).into_a_byte(), 0);
}

#[test]
fn every_arity_folds_disjoint_bits() {
    assert_eq!((1u8,).into_a_byte(), 1);
    assert_eq!((1u8, 2u8).into_a_byte(), 3);
    assert_eq!((1u8, 2u8, 4u8).into_a_byte(), 7);
    assert_eq!((1u8, 2u8, 4u8, 8u8).into_a_byte(), 15);
    assert_eq!((1u8, 2u8, 4u8, 8u8, 16u8).into_a_byte(), 31);
    assert_eq!((1u8, 2u8, 4u8, 8u8, 16u8, 32u8).into_a_byte(), 63);
    assert_eq!((1u8, 2u8, 4u8, 8u8, 16u8, 32u8, 64u8).into_a_byte(), 127);
    assert_eq!(
        (1u8, 2u8, 4u8, 8u8, 16u8, 32u8, 64u8, 128u8).into_a_byte(),
        255
    );
}

#[test]
fn disjoint_bits_fold_to_their_sum() {
    let bits = (0b0001u8, 0b0010u8, 0b0100u8, 0b1000u8);
    assert_eq!(bits.into_a_byte(), 0b0001 + 0b0010 + 0b0100 + 0b1000);
    let all = (1u8, 2u8, 4u8, 8u8, 16u8, 32u8, 64u8, 128u8);
    assert_eq!(
        all.into_a_byte(),
        1 + 2 + 4 + 8 + 16 + 32 + 64 + 128
    );
}

#[test]
fn element_order_does_not_matter() {
    let expected = 0b0110_1001u8;
    assert_eq!((0b0100_0001u8, 0b0010_1000u8).into_a_byte(), expected);
    assert_eq!((0b0010_1000u8, 0b0100_0001u8).into_a_byte(), expected);

    assert_eq!((8u8, 4u8, 2u8, 1u8).into_a_byte(), 15);
    assert_eq!((1u8, 2u8, 4u8, 8u8).into_a_byte(), 15);
    assert_eq!((4u8, 8u8, 1u8, 2u8).into_a_byte(), 15);
    assert_eq!((2u8, 1u8, 8u8, 4u8).into_a_byte(), 15);
}

#[test]
fn overlapping_bits_are_not_counted_twice() {
    assert_eq!((0b0000_1100u8, 0b0000_0110u8).into_a_byte(), 0b0000_1110);
    assert_eq!((255u8, 255u8, 255u8).into_a_byte(), 255);
}

#[test]
fn mixed_enum_orderings_agree() {
    let first = (FunctionA::Enabled, FunctionB::Enabled).into_a_byte();
    let second = (FunctionB::Enabled, FunctionA::Enabled).into_a_byte();
    assert_eq!(first, second);
    assert_eq!(first, 0b0000_1100);
}
