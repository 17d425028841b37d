//! The local xAPIC: its registers, the values that set it up and the order in
//! which a CPU programs it.

use vstd::prelude::*;

verus! {

/// The default physical address of the xAPIC registers.
pub const LAPIC_ADDR: u64 = 0xFEE00000;

pub const REG_ID: u32 = 0x020;
pub const REG_VERSION: u32 = 0x030;
pub const REG_TPR: u32 = 0x080;
pub const REG_EOI: u32 = 0x0B0;
pub const REG_SPIV: u32 = 0x0F0;
pub const REG_ESR: u32 = 0x280;
pub const REG_ICR_LOW: u32 = 0x300;
pub const REG_ICR_HIGH: u32 = 0x310;
pub const REG_LVT_TIMER: u32 = 0x320;
pub const REG_LVT_PCINT: u32 = 0x340;
pub const REG_LVT_LINT0: u32 = 0x350;
pub const REG_LVT_LINT1: u32 = 0x360;
pub const REG_LVT_ERROR: u32 = 0x370;
pub const REG_INITIAL_COUNT: u32 = 0x380;
pub const REG_DIVIDE_CONFIG: u32 = 0x3E0;

/// The register read back after each write, so that the write has landed.
pub const APIC_READ_AFTER_WRITE_REG: u32 = REG_ID;
/// The divide configuration that makes the timer count at bus frequency.
pub const APIC_TIMER_DIVIDE_BY_1: u32 = 0b1011;
/// The count from which the timer counts down.
pub const APIC_TIMER_INITIAL_COUNT: u32 = 0x20000;

/// The spurious-interrupt register's bit that enables the APIC.
pub const APIC_SOFTWARE_ENABLE: u32 = 0x100;
/// A local vector table entry's mask bit.
pub const LVT_MASKED: u32 = 0x10000;
/// A timer entry's bit that makes it periodic.
pub const LVT_TIMER_PERIODIC: u32 = 0x20000;
/// The interrupt command's bits: to all, INIT delivery, level.
pub const ICR_BROADCAST: u64 = 0x80000;
pub const ICR_INIT: u64 = 0x500;
pub const ICR_LEVEL: u64 = 0x8000;

/// A local xAPIC, reached through registers at `addr`.
pub struct XApic {
    addr: u64,
}

impl XApic {
    /// The address of the registers.
    pub closed spec fn spec_addr(&self) -> u64 {
        self.addr
    }

    /// The xAPIC whose registers start at `addr`.
    pub fn new(addr: u64) -> (r: XApic)
        ensures
            r.spec_addr() == addr,
    {
        XApic { addr }
    }

    /// The address of register `reg`.
    pub fn register_address(&self, reg: u32) -> (r: u64)
        requires
            self.spec_addr() + reg <= u64::MAX,
        ensures
            r == self.spec_addr() + reg,
    {
        self.addr + reg as u64
    }
}

/// The spurious-interrupt register after enabling: bit 8 set, the vector in
/// bits 0 to 7.
pub open spec fn spec_spiv_value(old: u32, vector: u8) -> u32 {
    ((old | APIC_SOFTWARE_ENABLE) & !0xFFu32) | vector as u32
}

/// The timer entry after setting up: the vector in bits 0 to 7, unmasked,
/// periodic.
pub open spec fn spec_lvt_timer_value(old: u32, vector: u8) -> u32 {
    (((old & !0xFFu32) | vector as u32) & !LVT_MASKED) | LVT_TIMER_PERIODIC
}

/// The error entry after setting up: the vector in bits 0 to 7, unmasked.
pub open spec fn spec_lvt_error_value(old: u32, vector: u8) -> u32 {
    ((old & !0xFFu32) | vector as u32) & !LVT_MASKED
}

/// The spurious-interrupt register with the APIC enabled and `vector` as its
/// vector: bit 8 set, bits 0 to 7 the vector, the other bits as they were.
pub fn spiv_value(old: u32, vector: u8) -> (r: u32)
    ensures
        r == spec_spiv_value(old, vector),
        r & 0xFF == vector as u32,
        r & APIC_SOFTWARE_ENABLE == APIC_SOFTWARE_ENABLE,
        r & !0x1FFu32 == old & !0x1FFu32,
{
    let v = vector as u32;
    let r = ((old | APIC_SOFTWARE_ENABLE) & !0xFFu32) | v;
    assert(r & 0xFF == v && r & 0x100 == 0x100 && r & !0x1FFu32 == old & !0x1FFu32) by (bit_vector)
        requires
            v < 256,
            r == ((old | 0x100u32) & !0xFFu32) | v,
    ;
    r
}

/// The timer's vector table entry, periodic, unmasked, with `vector`: bits 0
/// to 7 the vector, bit 16 clear, bit 17 set, the other bits as they were.
pub fn lvt_timer_value(old: u32, vector: u8) -> (r: u32)
    ensures
        r == spec_lvt_timer_value(old, vector),
        r & 0xFF == vector as u32,
        r & LVT_MASKED == 0,
        r & LVT_TIMER_PERIODIC == LVT_TIMER_PERIODIC,
        r & !0x300FFu32 == old & !0x300FFu32,
{
    let v = vector as u32;
    let r = (((old & !0xFFu32) | v) & !LVT_MASKED) | LVT_TIMER_PERIODIC;
    assert(r & 0xFF == v && r & 0x10000 == 0 && r & 0x20000 == 0x20000 && r & !0x300FFu32 == old
        & !0x300FFu32) by (bit_vector)
        requires
            v < 256,
            r == (((old & !0xFFu32) | v) & !0x10000u32) | 0x20000u32,
    ;
    r
}

/// The error entry, unmasked, with `vector`: bits 0 to 7 the vector, bit 16
/// clear, the other bits as they were.
pub fn lvt_error_value(old: u32, vector: u8) -> (r: u32)
    ensures
        r == spec_lvt_error_value(old, vector),
        r & 0xFF == vector as u32,
        r & LVT_MASKED == 0,
        r & !0x100FFu32 == old & !0x100FFu32,
{
    let v = vector as u32;
    let r = ((old & !0xFFu32) | v) & !LVT_MASKED;
    assert(r & 0xFF == v && r & 0x10000 == 0 && r & !0x100FFu32 == old & !0x100FFu32)
        by (bit_vector)
        requires
            v < 256,
            r == ((old & !0xFFu32) | v) & !0x10000u32,
    ;
    r
}

/// The interrupt command that de-asserts INIT on all CPUs, so that they agree
/// on their arbitration IDs.
pub fn init_deassert_icr() -> (r: u64)
    ensures
        r == 0x88500,
{
    let r = ICR_BROADCAST | ICR_INIT | ICR_LEVEL;
    assert(0x80000u64 | 0x500u64 | 0x8000u64 == 0x88500u64) by (bit_vector);
    r
}

/// The two registers an interrupt command is written to: its high and its
/// low 32 bits.
pub fn icr_halves(value: u64) -> (r: (u32, u32))
    ensures
        r.0 == value / 0x1_0000_0000,
        r.1 == value % 0x1_0000_0000,
{
    let hi = (value >> 32u64) as u32;
    let lo = value as u32;
    assert(hi == value / 0x1_0000_0000 && lo == value % 0x1_0000_0000) by (bit_vector)
        requires
            hi == (value >> 32u64) as u32,
            lo == value as u32,
    ;
    (hi, lo)
}

/// The interrupt command that the two registers hold.
pub fn icr_value(high: u32, low: u32) -> (r: u64)
    ensures
        r == high * 0x1_0000_0000 + low,
{
    let r = ((high as u64) << 32u64) | (low as u64);
    assert(r == high * 0x1_0000_0000 + low) by (bit_vector)
        requires
            r == ((high as u64) << 32u64) | (low as u64),
    ;
    r
}

/// The APIC's ID in its ID register: the top 8 bits.
pub fn apic_id(reg: u32) -> (r: u32)
    ensures
        r == reg / 0x100_0000,
{
    let r = reg >> 24u32;
    assert(r == reg / 0x100_0000) by (bit_vector)
        requires
            r == reg >> 24u32,
    ;
    r
}

/// Whether the low command register says a command is still being sent: bit
/// 12, delivery pending.
pub fn icr_pending(low: u32) -> (r: bool)
    ensures
        r == ((low / 0x1000) % 2 == 1),
{
    let b = (low >> 12u32) & 1;
    assert(b == (low / 0x1000) % 2) by (bit_vector)
        requires
            b == (low >> 12u32) & 1,
    ;
    b == 1
}

/// Splitting a command into its registers and joining them gives it back.
pub proof fn lemma_icr_round_trip(value: u64)
    ensures
        (value / 0x1_0000_0000) * 0x1_0000_0000 + value % 0x1_0000_0000 == value,
{
}

/// The vectors that the APIC's interrupts are delivered at.
#[derive(Clone, Copy, Debug, PartialEq, Eq, Structural)]
pub struct ApicVectors {
    pub spurious: u8,
    pub timer: u8,
    pub error: u8,
}

/// One step of programming the APIC.
#[derive(Clone, Copy, Debug, PartialEq, Eq, Structural)]
pub enum ApicOp {
    /// Read a register; its value is handed to the next step.
    Read(u32),
    /// Write a value to a register.
    Write(u32, u32),
    /// Send an interrupt command, once no other is pending.
    SendIcr(u64),
    /// The APIC is set up.
    Done,
}

/// The number of steps that set the APIC up.
pub const CPU_INIT_STEPS: u32 = 16;

/// Step `step` of setting up the APIC, where `last` is the value of the
/// register read by the step before: enable the APIC at the spurious vector;
/// let the timer count down periodically from its initial count at bus
/// frequency; mask LINT0, LINT1 and the performance counter; route errors to
/// the error vector; clear the error status (two writes); acknowledge any
/// interrupt; de-assert INIT on all CPUs; accept every priority.
pub open spec fn spec_cpu_init_op(step: u32, last: u32, v: ApicVectors) -> ApicOp {
    if step == 0 {
        ApicOp::Read(REG_SPIV)
    } else if step == 1 {
        ApicOp::Write(REG_SPIV, spec_spiv_value(last, v.spurious))
    } else if step == 2 {
        ApicOp::Write(REG_DIVIDE_CONFIG, APIC_TIMER_DIVIDE_BY_1)
    } else if step == 3 {
        ApicOp::Write(REG_INITIAL_COUNT, APIC_TIMER_INITIAL_COUNT)
    } else if step == 4 {
        ApicOp::Read(REG_LVT_TIMER)
    } else if step == 5 {
        ApicOp::Write(REG_LVT_TIMER, spec_lvt_timer_value(last, v.timer))
    } else if step == 6 {
        ApicOp::Write(REG_LVT_LINT0, LVT_MASKED)
    } else if step == 7 {
        ApicOp::Write(REG_LVT_LINT1, LVT_MASKED)
    } else if step == 8 {
        ApicOp::Write(REG_LVT_PCINT, LVT_MASKED)
    } else if step == 9 {
        ApicOp::Read(REG_LVT_ERROR)
    } else if step == 10 {
        ApicOp::Write(REG_LVT_ERROR, spec_lvt_error_value(last, v.error))
    } else if step == 11 || step == 12 {
        ApicOp::Write(REG_ESR, 0)
    } else if step == 13 {
        ApicOp::Write(REG_EOI, 0)
    } else if step == 14 {
        ApicOp::SendIcr(0x88500)
    } else if step == 15 {
        ApicOp::Write(REG_TPR, 0)
    } else {
        ApicOp::Done
    }
}

/// Step `step` of setting up the APIC, `last` being the value that the step
/// before read.
pub fn cpu_init_op(step: u32, last: u32, v: ApicVectors) -> (r: ApicOp)
    ensures
        r == spec_cpu_init_op(step, last, v),
{
    if step == 0 {
        ApicOp::Read(REG_SPIV)
    } else if step == 1 {
        ApicOp::Write(REG_SPIV, spiv_value(last, v.spurious))
    } else if step == 2 {
        ApicOp::Write(REG_DIVIDE_CONFIG, APIC_TIMER_DIVIDE_BY_1)
    } else if step == 3 {
        ApicOp::Write(REG_INITIAL_COUNT, APIC_TIMER_INITIAL_COUNT)
    } else if step == 4 {
        ApicOp::Read(REG_LVT_TIMER)
    } else if step == 5 {
        ApicOp::Write(REG_LVT_TIMER, lvt_timer_value(last, v.timer))
    } else if step == 6 {
        ApicOp::Write(REG_LVT_LINT0, LVT_MASKED)
    } else if step == 7 {
        ApicOp::Write(REG_LVT_LINT1, LVT_MASKED)
    } else if step == 8 {
        ApicOp::Write(REG_LVT_PCINT, LVT_MASKED)
    } else if step == 9 {
        ApicOp::Read(REG_LVT_ERROR)
    } else if step == 10 {
        ApicOp::Write(REG_LVT_ERROR, lvt_error_value(last, v.error))
    } else if step == 11 || step == 12 {
        ApicOp::Write(REG_ESR, 0)
    } else if step == 13 {
        ApicOp::Write(REG_EOI, 0)
    } else if step == 14 {
        ApicOp::SendIcr(init_deassert_icr())
    } else if step == 15 {
        ApicOp::Write(REG_TPR, 0)
    } else {
        ApicOp::Done
    }
}

} // verus!
