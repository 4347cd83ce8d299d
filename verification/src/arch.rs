//! The processor architectures that the kernel runs on.

use vstd::prelude::*;

verus! {

/// A processor architecture.
#[derive(Clone, Copy, PartialEq, Eq, Structural, Debug)]
pub enum Arch {
    X86_64,
    Aarch64,
    Riscv64,
    Loongarch64,
}

} // verus!
