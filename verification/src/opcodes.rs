use vstd::prelude::*;

verus! {

/// A 12-bit memory address, stored in the low bits of a 16-bit word.
pub type Address = u16;

/// A 4-bit immediate, stored in the low bits of a byte.
pub type Nibble = u8;

/// A 16-bit instruction word.
pub type OPcode = u16;

/// Index of one of the 16 general-purpose registers (0x0 to 0xF).
#[derive(Debug, PartialEq, Eq, Structural, Clone, Copy)]
pub struct VxyRegister(pub u8);

/// The second operand of SE, SNE, ADD and LD: either another register or an
/// immediate byte.
#[derive(Debug, PartialEq, Eq, Structural, Clone, Copy)]
pub enum Operand {
    Reg(VxyRegister),
    Imm(u8),
}

/// The instruction set: one variant per recognized opcode shape.
#[allow(non_camel_case_types)]
#[derive(Debug, PartialEq, Eq, Structural, Clone, Copy)]
pub enum Instruction {
    /// Machine-code routine call; ignored.
    SYS(Address),
    /// Clear the pixel buffer and publish an empty frame.
    CLS,
    /// Pop the return address into PC.
    RET,
    /// Jump.
    JP(Address),
    /// Jump to `addr + V0`.
    JP_V0(Address),
    /// Push PC, jump.
    CALL(Address),
    /// Skip the next instruction if equal.
    SE(VxyRegister, Operand),
    /// Skip the next instruction if not equal.
    SNE(VxyRegister, Operand),
    /// 8-bit wrapping add; VF reports the carry.
    ADD(VxyRegister, Operand),
    /// Add a register into the index register; no flag effect.
    ADD_I(VxyRegister),
    /// 8-bit wrapping subtract; VF reports "no borrow".
    SUB(VxyRegister, VxyRegister),
    /// SUB with the operands swapped.
    SUBN(VxyRegister, VxyRegister),
    /// Bitwise or.
    OR(VxyRegister, VxyRegister),
    /// Bitwise and.
    AND(VxyRegister, VxyRegister),
    /// Bitwise exclusive or.
    XOR(VxyRegister, VxyRegister),
    /// Shift right by one; VF takes the bit shifted out.
    SHR(VxyRegister),
    /// Shift left by one; VF takes the bit shifted out.
    SHL(VxyRegister),
    /// A random byte masked by an immediate.
    RND(VxyRegister, u8),
    /// XOR-blit a sprite read from memory at the index register.
    DRW(VxyRegister, VxyRegister, Nibble),
    /// Skip the next instruction if the keyed key is down.
    SKP(VxyRegister),
    /// Skip the next instruction if the keyed key is not down.
    SKNP(VxyRegister),
    /// Load a register or immediate into a register.
    LD(VxyRegister, Operand),
    /// Load an address into the index register.
    LD_I(Address),
    /// Read the delay timer into a register.
    LD_Vx_DT(VxyRegister),
    /// Suspend until a key is pressed; store its code.
    LD_Vx_K(VxyRegister),
    /// Set the delay timer from a register.
    LD_DT_Vx(VxyRegister),
    /// Set the sound timer from a register.
    LD_ST_Vx(VxyRegister),
    /// Point the index register at a built-in glyph sprite.
    LD_F(VxyRegister),
    /// Store a register's three decimal digits at the index register.
    LD_B(VxyRegister),
    /// Store registers 0 through X into memory at the index register.
    LD_I_Vx(VxyRegister),
    /// Load registers 0 through X from memory at the index register.
    LD_Vx_I(VxyRegister),
}

/// The high nibble of an opcode, which selects the instruction family.
pub open spec fn spec_first(bytes: u16) -> u8 {
    (bytes / 0x1000) as u8
}

/// The low 12 bits of an opcode, read as an address.
pub open spec fn spec_addr(bytes: u16) -> u16 {
    (bytes % 0x1000) as u16
}

/// The second nibble of an opcode, read as a register index.
pub open spec fn spec_x(bytes: u16) -> u8 {
    ((bytes / 0x100) % 0x10) as u8
}

/// The third nibble of an opcode, read as a register index.
pub open spec fn spec_y(bytes: u16) -> u8 {
    ((bytes / 0x10) % 0x10) as u8
}

/// The low nibble of an opcode.
pub open spec fn spec_nibble(bytes: u16) -> u8 {
    (bytes % 0x10) as u8
}

/// The low byte of an opcode.
pub open spec fn spec_byte(bytes: u16) -> u8 {
    (bytes % 0x100) as u8
}

pub fn get_first(bytes: OPcode) -> (r: u8)
    ensures
        r == spec_first(bytes),
{
    proof {
        assert(bytes >> 12u16 == bytes / 0x1000) by (bit_vector);
    }
    (bytes >> 12u16) as u8
}

pub fn get_addr(bytes: OPcode) -> (r: Address)
    ensures
        r == spec_addr(bytes),
{
    proof {
        assert(bytes & 0x0FFF == bytes % 0x1000) by (bit_vector);
    }
    bytes & 0x0FFF
}

pub fn get_vx(bytes: OPcode) -> (r: VxyRegister)
    ensures
        r.0 == spec_x(bytes),
{
    proof {
        assert((bytes & 0x0F00) >> 8u16 == (bytes / 0x100) % 0x10) by (bit_vector);
    }
    VxyRegister(((bytes & 0x0F00) >> 8u16) as u8)
}

pub fn get_vy(bytes: OPcode) -> (r: VxyRegister)
    ensures
        r.0 == spec_y(bytes),
{
    proof {
        assert((bytes & 0x00F0) >> 4u16 == (bytes / 0x10) % 0x10) by (bit_vector);
    }
    VxyRegister(((bytes & 0x00F0) >> 4u16) as u8)
}

pub fn get_nibble(bytes: OPcode) -> (r: Nibble)
    ensures
        r == spec_nibble(bytes),
{
    proof {
        assert(bytes & 0x000F == bytes % 0x10) by (bit_vector);
    }
    (bytes & 0x000F) as u8
}

pub fn get_byte(bytes: OPcode) -> (r: u8)
    ensures
        r == spec_byte(bytes),
{
    proof {
        assert(bytes & 0x00FF == bytes % 0x100) by (bit_vector);
    }
    (bytes & 0x00FF) as u8
}

/// Decompose a byte into its decimal digits: hundreds, tens, ones.
pub fn to_bcd(byte: u8) -> (r: [u8; 3])
    ensures
        r@.len() == 3,
        r@[0] == byte / 100,
        r@[1] == (byte / 10) % 10,
        r@[2] == byte % 10,
{
    [byte / 100, (byte / 10) % 10, byte % 10]
}

} // verus!
