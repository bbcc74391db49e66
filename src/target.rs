use vstd::prelude::*;

verus! {

/// Operating systems that code can be generated for.
#[derive(Clone, Copy, Debug, PartialEq, Eq, Structural)]
pub enum OS {
    Windows,
    Linux,
}

/// Processor architectures that code can be generated for.
#[derive(Clone, Copy, Debug, PartialEq, Eq, Structural)]
pub enum Arch {
    X86_64,
    X86,
    Arm,
    Aarch64,
}

/// The machine that code is generated for.
#[derive(Clone, Copy, Debug, PartialEq, Eq, Structural)]
pub struct Target {
    pub os: OS,
    pub cpu: Arch,
    pub ptr_bits: u8,
}

impl Target {
    /// A 64-bit Linux target on x86-64.
    pub fn linux_x86_64() -> (r: Target)
        ensures
            r.os == OS::Linux,
            r.cpu == Arch::X86_64,
            r.ptr_bits == 64,
    {
        Target { os: OS::Linux, cpu: Arch::X86_64, ptr_bits: 64 }
    }
}

} // verus!
