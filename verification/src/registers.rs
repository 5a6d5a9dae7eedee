use vstd::prelude::*;

verus! {

/// A reference to one of the 16 general-purpose registers.
#[derive(Debug, PartialEq, Eq, Structural, Clone, Copy)]
pub enum Register {
    Vx(u8),
}

/// One 60 Hz countdown step: a nonzero timer decrements by one, a zero
/// timer stays at zero.
pub open spec fn spec_tick(v: u8) -> u8 {
    if v == 0 {
        0
    } else {
        (v - 1) as u8
    }
}

/// The value a timer reads after `n` countdown steps from value `v`.
pub open spec fn spec_ticked(v: u8, n: nat) -> u8
    decreases n,
{
    if n == 0 {
        v
    } else {
        spec_tick(spec_ticked(v, (n - 1) as nat))
    }
}

/// After `n` countdown steps a timer set to `v` reads `v - n`, with a floor
/// at zero.
pub proof fn lemma_ticked_value(v: u8, n: nat)
    ensures
        spec_ticked(v, n) == if n <= v {
            (v - n) as u8
        } else {
            0u8
        },
    decreases n,
{
    if n > 0 {
        lemma_ticked_value(v, (n - 1) as nat);
    }
}

/// A timer set to `v` reads zero after exactly `v` countdown steps.
pub proof fn lemma_timer_reaches_zero(v: u8)
    ensures
        spec_ticked(v, v as nat) == 0,
{
    lemma_ticked_value(v, v as nat);
}

/// Once a timer reads zero, further countdown steps never take it below
/// zero: it stays at zero.
pub proof fn lemma_timer_floor(n: nat)
    ensures
        spec_ticked(0, n) == 0,
{
    lemma_ticked_value(0, n);
}

/// The register file: program counter, stack pointer, index register, the
/// 16 general-purpose registers, and the two countdown timers.
///
/// The timers decrement at a fixed 60 Hz cadence. The periodic driver that
/// provides that cadence lives outside the library; it advances a timer by
/// calling `tick_dt` / `tick_st` once per period.
#[allow(non_snake_case)]
#[derive(Debug)]
pub struct Registers {
    /// Program counter.
    pub PC: usize,
    /// Stack pointer.
    pub SP: u8,
    /// Index register.
    pub I: u16,
    /// General-purpose registers; index 0xF doubles as the flag register.
    pub Vx: [u8; 16],
    /// Delay timer.
    pub DT: u8,
    /// Sound timer.
    pub ST: u8,
}

impl Registers {
    /// The delay timer's current value.
    pub open spec fn spec_dt(&self) -> u8 {
        self.DT
    }

    /// The sound timer's current value.
    pub open spec fn spec_st(&self) -> u8 {
        self.ST
    }

    /// A fresh register file: PC at the program offset 0x200, everything
    /// else zero.
    pub fn new() -> (r: Registers)
        ensures
            r.PC == 0x200,
            r.SP == 0,
            r.I == 0,
            forall|k: int| 0 <= k < 16 ==> r.Vx@[k] == 0u8,
            r.spec_dt() == 0,
            r.spec_st() == 0,
    {
        let mut r = Registers { PC: 0x200, SP: 0, I: 0, Vx: [0u8; 16], DT: 0, ST: 0 };
        r.init();
        r
    }

    /// Puts both timers in their power-on state (zero). The 60 Hz countdown
    /// itself is driven from outside through `tick_dt` / `tick_st`.
    pub fn init(&mut self)
        ensures
            final(self).spec_dt() == 0,
            final(self).spec_st() == 0,
            final(self).PC == old(self).PC,
            final(self).SP == old(self).SP,
            final(self).I == old(self).I,
            final(self).Vx == old(self).Vx,
    {
        self.DT = 0;
        self.ST = 0;
    }

    /// Whether the delay timer is still counting down.
    pub fn is_dt_active(&self) -> (r: bool)
        ensures
            r == (self.spec_dt() != 0),
    {
        self.get_dt() != 0
    }

    /// Read the delay timer.
    pub fn get_dt(&self) -> (r: u8)
        ensures
            r == self.spec_dt(),
    {
        self.DT
    }

    /// Set the delay timer.
    pub fn set_dt(&mut self, val: u8)
        ensures
            final(self).spec_dt() == val,
            final(self).spec_st() == old(self).spec_st(),
            final(self).PC == old(self).PC,
            final(self).SP == old(self).SP,
            final(self).I == old(self).I,
            final(self).Vx == old(self).Vx,
    {
        self.DT = val;
    }

    /// Whether the sound timer is still counting down.
    pub fn is_st_active(&self) -> (r: bool)
        ensures
            r == (self.spec_st() != 0),
    {
        self.get_st() != 0
    }

    /// Read the sound timer.
    pub fn get_st(&self) -> (r: u8)
        ensures
            r == self.spec_st(),
    {
        self.ST
    }

    /// Set the sound timer.
    pub fn set_st(&mut self, val: u8)
        ensures
            final(self).spec_st() == val,
            final(self).spec_dt() == old(self).spec_dt(),
            final(self).PC == old(self).PC,
            final(self).SP == old(self).SP,
            final(self).I == old(self).I,
            final(self).Vx == old(self).Vx,
    {
        self.ST = val;
    }

    /// One 60 Hz countdown step of the delay timer.
    pub fn tick_dt(&mut self)
        ensures
            final(self).spec_dt() == spec_tick(old(self).spec_dt()),
            final(self).spec_st() == old(self).spec_st(),
            final(self).PC == old(self).PC,
            final(self).SP == old(self).SP,
            final(self).I == old(self).I,
            final(self).Vx == old(self).Vx,
    {
        if self.DT != 0 {
            self.DT = self.DT - 1;
        }
    }

    /// One 60 Hz countdown step of the sound timer.
    pub fn tick_st(&mut self)
        ensures
            final(self).spec_st() == spec_tick(old(self).spec_st()),
            final(self).spec_dt() == old(self).spec_dt(),
            final(self).PC == old(self).PC,
            final(self).SP == old(self).SP,
            final(self).I == old(self).I,
            final(self).Vx == old(self).Vx,
    {
        if self.ST != 0 {
            self.ST = self.ST - 1;
        }
    }
}

} // verus!
