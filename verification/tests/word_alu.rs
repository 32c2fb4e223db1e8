use nand_computer::computer::chip::arithmetic::{alu, AluOp};

#[test]
fn test_basic_operations() {
    // Test 0
    let (result, zr, ng) = alu(42, 24, AluOp::Zero);
    assert_eq!(result, 0);
    assert!(zr);
    assert!(!ng);

    // Test 1
    let (result, zr, ng) = alu(42, 24, AluOp::One);
    assert_eq!(result, 1);
    assert!(!zr);
    assert!(!ng);

    // Test -1
    let (result, zr, ng) = alu(42, 24, AluOp::NegOne);
    assert_eq!(result, u16::MAX); // -1 in two's complement
    assert!(!zr);
    assert!(ng);
}

#[test]
fn test_pass_through() {
    // Test X
    let (result, zr, ng) = alu(42, 24, AluOp::X);
    assert_eq!(result, 42);
    assert!(!zr);
    assert!(!ng);

    // Test Y
    let (result, zr, ng) = alu(42, 24, AluOp::Y);
    assert_eq!(result, 24);
    assert!(!zr);
    assert!(!ng);
}

#[test]
fn test_increment_operations() {
    // Test IncX
    let (result, zr, ng) = alu(42, 24, AluOp::IncX);
    assert_eq!(result, 43);
    assert!(!zr);
    assert!(!ng);

    // Test IncY
    let (result, zr, ng) = alu(42, 24, AluOp::IncY);
    assert_eq!(result, 25);
    assert!(!zr);
    assert!(!ng);

    // Test increment of max value (should wrap)
    let (result, zr, ng) = alu(u16::MAX, 0, AluOp::IncX);
    assert_eq!(result, 0);
    assert!(zr);
    assert!(!ng);
}

#[test]
fn test_decrement_operations() {
    // Test DecX
    let (result, zr, ng) = alu(42, 24, AluOp::DecX);
    assert_eq!(result, 41);
    assert!(!zr);
    assert!(!ng);

    // Test DecY
    let (result, zr, ng) = alu(42, 24, AluOp::DecY);
    assert_eq!(result, 23);
    assert!(!zr);
    assert!(!ng);

    // Test decrement of 0 (should wrap)
    let (result, zr, ng) = alu(0, 0, AluOp::DecX);
    assert_eq!(result, u16::MAX);
    assert!(!zr);
    assert!(ng);
}

#[test]
fn test_arithmetic_operations() {
    // Test Add
    let (result, zr, ng) = alu(42, 24, AluOp::Add);
    assert_eq!(result, 66);
    assert!(!zr);
    assert!(!ng);

    // Test Sub
    let (result, zr, ng) = alu(42, 24, AluOp::Sub);
    assert_eq!(result, 18);
    assert!(!zr);
    assert!(!ng);

    // Test SubFromY (y - x)
    let (result, zr, ng) = alu(42, 24, AluOp::SubFromY);
    assert_eq!(result, 65518); // 24 - 42 = -18 in two's complement
    assert!(!zr);
    assert!(ng);
}

#[test]
fn test_logical_operations() {
    // Test And
    let (result, zr, ng) = alu(0b1100, 0b1010, AluOp::And);
    assert_eq!(result, 0b1000);
    assert!(!zr);
    assert!(!ng);

    // Test Or
    let (result, zr, ng) = alu(0b1100, 0b1010, AluOp::Or);
    assert_eq!(result, 0b1110);
    assert!(!zr);
    assert!(!ng);
}

#[test]
fn test_negative_operations() {
    // Test NotX
    let (result, zr, ng) = alu(0b1100, 0, AluOp::NotX);
    assert_eq!(result, !0b1100);
    assert!(!zr);
    assert!(ng);

    // Test NotY
    let (result, zr, ng) = alu(0, 0b1100, AluOp::NotY);
    assert_eq!(result, !0b1100);
    assert!(!zr);
    assert!(ng);

    // Test NegX
    let (result, zr, ng) = alu(42, 0, AluOp::NegX);
    assert_eq!(result, (-42i16) as u16);
    assert!(!zr);
    assert!(ng);

    // Test NegY
    let (result, zr, ng) = alu(0, 42, AluOp::NegY);
    assert_eq!(result, (-42i16) as u16);
    assert!(!zr);
    assert!(ng);
}

#[test]
fn test_edge_cases() {
    // Test adding numbers that cause overflow
    let (result, zr, ng) = alu(u16::MAX, 1, AluOp::Add);
    assert_eq!(result, 0);
    assert!(zr);
    assert!(!ng);

    // Test subtracting larger from smaller
    let (result, zr, ng) = alu(5, 10, AluOp::Sub);
    assert_eq!(result, (-5i16) as u16);
    assert!(!zr);
    assert!(ng);

    // Test zero results from different operations
    let (result, zr, ng) = alu(0, 0, AluOp::And);
    assert_eq!(result, 0);
    assert!(zr);
    assert!(!ng);
}
