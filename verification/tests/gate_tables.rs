use nand_alu::gates::Signal::{High, Low};

#[test]
fn nand() {
    assert_eq!(nand_alu::gates::nand(Low, Low), High);
    assert_eq!(nand_alu::gates::nand(Low, High), High);
    assert_eq!(nand_alu::gates::nand(High, Low), High);
    assert_eq!(nand_alu::gates::nand(High, High), Low);
}

#[test]
fn not() {
    assert_eq!(nand_alu::gates::not(Low), High);
    assert_eq!(nand_alu::gates::not(High), Low);
}

#[test]
fn and() {
    assert_eq!(nand_alu::gates::and(Low, Low), Low);
    assert_eq!(nand_alu::gates::and(Low, High), Low);
    assert_eq!(nand_alu::gates::and(High, Low), Low);
    assert_eq!(nand_alu::gates::and(High, High), High);
}

#[test]
fn or() {
    assert_eq!(nand_alu::gates::or(Low, Low), Low);
    assert_eq!(nand_alu::gates::or(Low, High), High);
    assert_eq!(nand_alu::gates::or(High, Low), High);
    assert_eq!(nand_alu::gates::or(High, High), High);
}

#[test]
fn xor() {
    assert_eq!(nand_alu::gates::xor(Low, Low), Low);
    assert_eq!(nand_alu::gates::xor(Low, High), High);
    assert_eq!(nand_alu::gates::xor(High, Low), High);
    assert_eq!(nand_alu::gates::xor(High, High), Low);
}

#[test]
fn mux() {
    assert_eq!(nand_alu::gates::mux(Low, Low, Low), Low);
    assert_eq!(nand_alu::gates::mux(Low, High, Low), Low);
    assert_eq!(nand_alu::gates::mux(High, Low, Low), High);
    assert_eq!(nand_alu::gates::mux(High, High, Low), High);
    assert_eq!(nand_alu::gates::mux(Low, Low, High), Low);
    assert_eq!(nand_alu::gates::mux(Low, High, High), High);
    assert_eq!(nand_alu::gates::mux(High, Low, High), Low);
    assert_eq!(nand_alu::gates::mux(High, High, High), High);
}

#[test]
fn dmux() {
    assert_eq!(nand_alu::gates::dmux(Low, Low), (Low, Low));
    assert_eq!(nand_alu::gates::dmux(Low, High), (Low, Low));
    assert_eq!(nand_alu::gates::dmux(High, Low), (High, Low));
    assert_eq!(nand_alu::gates::dmux(High, High), (Low, High));
}
