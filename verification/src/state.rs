//! The conformance-test surface: plain register/memory snapshots that a
//! single-step test harness loads before a step and compares after it.

use vstd::prelude::*;

verus! {

/// The machine state a single-step test starts from.  `ram` lists
/// `[address, value]` pairs.
pub struct InitialState {
    pub pc: u16,
    pub sp: u16,
    pub a: u8,
    pub b: u8,
    pub c: u8,
    pub d: u8,
    pub e: u8,
    pub f: u8,
    pub h: u8,
    pub l: u8,
    pub ime: u8,
    pub ie: u8,
    pub ram: Vec<Vec<u16>>,
}

/// The machine state a single-step test expects afterwards.
pub struct FinalState {
    pub pc: u16,
    pub sp: u16,
    pub a: u8,
    pub b: u8,
    pub c: u8,
    pub d: u8,
    pub e: u8,
    pub f: u8,
    pub h: u8,
    pub l: u8,
    pub ime: u8,
    pub ei: u8,
    pub ram: Vec<Vec<u16>>,
}

/// The CPU register a comparison found off, with the expected and
/// actual values.
#[derive(Clone, Copy, Debug, PartialEq, Eq, Structural)]
pub enum RegName {
    Pc,
    Sp,
    A,
    B,
    C,
    D,
    E,
    F,
    H,
    L,
    Ime,
}

/// The first mismatching CPU register of a comparison.
#[derive(Clone, Copy, Debug, PartialEq, Eq, Structural)]
pub struct CpuMismatch {
    pub reg: RegName,
    pub expected: u16,
    pub actual: u16,
}

/// The first mismatching memory address of a comparison.
#[derive(Clone, Copy, Debug, PartialEq, Eq, Structural)]
pub struct MemMismatch {
    pub addr: u16,
    pub expected: u8,
    pub actual: u8,
}

} // verus!
