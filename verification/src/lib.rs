//! A gate-level combinational logic library: every gate is a composition of
//! NAND evaluations, lifted to buses of signals, composed into ripple-carry
//! arithmetic and an ALU, with a two's-complement integer codec.

pub mod alu;
pub mod bus;
pub mod codec;
pub mod gates;
