use crate::display::{spec_blit, spec_collision, FrameBuffer};
use crate::opcodes::{
    get_addr, get_byte, get_first, get_nibble, get_vx, get_vy, spec_addr, spec_byte, spec_first,
    spec_nibble, spec_x, spec_y, to_bcd, Instruction, Operand, VxyRegister,
};
use crate::registers::{Register, Registers};
use vstd::arithmetic::div_mod::lemma_fundamental_div_mod_converse;
use vstd::prelude::*;

verus! {

/// Relies on rand::random: a value drawn from the thread-local generator;
/// nothing is promised of which value comes back.
pub assume_specification<T>[ rand::random::<T> ]() -> (r: T)
    where
        rand::distributions::Standard: rand::distributions::Distribution<T>,
;

/// Number of bytes in one built-in glyph sprite.
pub const SPRITE_BYTE_LENGTH: u16 = 5;

/// The fatal conditions an executing cartridge can run into, plus the one
/// load-time rejection.
#[derive(Debug, PartialEq, Eq, Structural, Clone, Copy)]
pub enum Chip8Error {
    /// The fetched opcode matches no instruction.
    DecodeError(u16),
    /// A seventeenth nested call would overflow the call stack.
    StackOverflow,
    /// RET with no saved return address.
    StackUnderflow,
    /// SKP or SKNP on a register holding a value above 0xF.
    InvalidKeyCode(u8),
    /// LD_F on a register holding a value above 0xF.
    InvalidSpriteIndex(u8),
    /// An instruction would read or write outside memory, or run the index
    /// register or program counter out of range.
    MemoryOutOfRange,
    /// The cartridge does not fit between the program offset and the end of
    /// memory.
    CartridgeTooLarge,
}

/// What one fetch-decode-execute cycle did.
#[derive(Debug, PartialEq, Eq, Structural, Clone, Copy)]
pub enum StepOutcome {
    /// The instruction ran; no frame was published.
    Ran,
    /// The instruction ran and published a frame (CLS or DRW).
    Published,
    /// A key-wait suspended the engine. The driver must poll its surface
    /// until a key is pressed or shutdown is observed, then hand the key's
    /// code to `supply_key` for the named register.
    AwaitingKey(VxyRegister),
    /// The program counter ran past memory; the engine halts.
    Halted,
}

/// The five rows of the built-in glyph sprite for hex digit `d`.
pub open spec fn spec_glyph(d: int) -> Seq<u8> {
    if d == 0x0 {
        seq![0xF0u8, 0x90, 0x90, 0x90, 0xF0]
    } else if d == 0x1 {
        seq![0x20u8, 0x60, 0x20, 0x20, 0x70]
    } else if d == 0x2 {
        seq![0xF0u8, 0x10, 0xF0, 0x80, 0xF0]
    } else if d == 0x3 {
        seq![0xF0u8, 0x10, 0xF0, 0x10, 0xF0]
    } else if d == 0x4 {
        seq![0x90u8, 0x90, 0xF0, 0x10, 0x10]
    } else if d == 0x5 {
        seq![0xF0u8, 0x80, 0xF0, 0x10, 0xF0]
    } else if d == 0x6 {
        seq![0xF0u8, 0x80, 0xF0, 0x90, 0xF0]
    } else if d == 0x7 {
        seq![0xF0u8, 0x10, 0x20, 0x40, 0x40]
    } else if d == 0x8 {
        seq![0xF0u8, 0x90, 0xF0, 0x90, 0xF0]
    } else if d == 0x9 {
        seq![0xF0u8, 0x90, 0xF0, 0x10, 0xF0]
    } else if d == 0xA {
        seq![0xF0u8, 0x90, 0xF0, 0x90, 0x90]
    } else if d == 0xB {
        seq![0xE0u8, 0x90, 0xE0, 0x90, 0xE0]
    } else if d == 0xC {
        seq![0xF0u8, 0x80, 0x80, 0x80, 0xF0]
    } else if d == 0xD {
        seq![0xE0u8, 0x90, 0x90, 0x90, 0xE0]
    } else if d == 0xE {
        seq![0xF0u8, 0x80, 0xF0, 0x80, 0xF0]
    } else {
        seq![0xF0u8, 0x80, 0xF0, 0x80, 0x80]
    }
}

/// Byte `k` of the glyph area at the bottom of memory: row `k % 5` of glyph
/// `k / 5`.
pub open spec fn spec_sprite_byte(k: int) -> u8 {
    spec_glyph(k / 5)[k % 5]
}

/// Byte `5*d + t` of the glyph area holds row `t` of glyph `d`.
pub proof fn lemma_sprite_byte(d: int, t: int)
    requires
        0 <= d < 16,
        0 <= t < 5,
    ensures
        spec_sprite_byte(5 * d + t) == spec_glyph(d)[t],
{
    lemma_fundamental_div_mod_converse(5 * d + t, 5, d, t);
}

/// The five rows of the built-in glyph sprite for hex digit `d`.
fn glyph_rows(d: u8) -> (r: [u8; 5])
    requires
        d <= 0xF,
    ensures
        r@ == spec_glyph(d as int),
{
    let r: [u8; 5] = match d {
        0x0 => [0xF0, 0x90, 0x90, 0x90, 0xF0],
        0x1 => [0x20, 0x60, 0x20, 0x20, 0x70],
        0x2 => [0xF0, 0x10, 0xF0, 0x80, 0xF0],
        0x3 => [0xF0, 0x10, 0xF0, 0x10, 0xF0],
        0x4 => [0x90, 0x90, 0xF0, 0x10, 0x10],
        0x5 => [0xF0, 0x80, 0xF0, 0x10, 0xF0],
        0x6 => [0xF0, 0x80, 0xF0, 0x90, 0xF0],
        0x7 => [0xF0, 0x10, 0x20, 0x40, 0x40],
        0x8 => [0xF0, 0x90, 0xF0, 0x90, 0xF0],
        0x9 => [0xF0, 0x90, 0xF0, 0x10, 0xF0],
        0xA => [0xF0, 0x90, 0xF0, 0x90, 0x90],
        0xB => [0xE0, 0x90, 0xE0, 0x90, 0xE0],
        0xC => [0xF0, 0x80, 0x80, 0x80, 0xF0],
        0xD => [0xE0, 0x90, 0x90, 0x90, 0xE0],
        0xE => [0xF0, 0x80, 0xF0, 0x80, 0xF0],
        _ => [0xF0, 0x80, 0xF0, 0x80, 0x80],
    };
    proof {
        assert(r@ =~= spec_glyph(d as int));
    }
    r
}

/// How an opcode word decodes, or `None` where no instruction matches.
pub open spec fn spec_decode(op: u16) -> Option<Instruction> {
    let x = VxyRegister(spec_x(op));
    let y = VxyRegister(spec_y(op));
    let first = spec_first(op);
    if first == 0x0 {
        if op == 0x00E0 {
            Some(Instruction::CLS)
        } else if op == 0x00EE {
            Some(Instruction::RET)
        } else {
            Some(Instruction::SYS(spec_addr(op)))
        }
    } else if first == 0x1 {
        Some(Instruction::JP(spec_addr(op)))
    } else if first == 0x2 {
        Some(Instruction::CALL(spec_addr(op)))
    } else if first == 0x3 {
        Some(Instruction::SE(x, Operand::Imm(spec_byte(op))))
    } else if first == 0x4 {
        Some(Instruction::SNE(x, Operand::Imm(spec_byte(op))))
    } else if first == 0x5 {
        Some(Instruction::SE(x, Operand::Reg(y)))
    } else if first == 0x6 {
        Some(Instruction::LD(x, Operand::Imm(spec_byte(op))))
    } else if first == 0x7 {
        Some(Instruction::ADD(x, Operand::Imm(spec_byte(op))))
    } else if first == 0x8 {
        let n = spec_nibble(op);
        if n == 0x0 {
            Some(Instruction::LD(x, Operand::Reg(y)))
        } else if n == 0x1 {
            Some(Instruction::OR(x, y))
        } else if n == 0x2 {
            Some(Instruction::AND(x, y))
        } else if n == 0x3 {
            Some(Instruction::XOR(x, y))
        } else if n == 0x4 {
            Some(Instruction::ADD(x, Operand::Reg(y)))
        } else if n == 0x5 {
            Some(Instruction::SUB(x, y))
        } else if n == 0x6 {
            Some(Instruction::SHR(x))
        } else if n == 0x7 {
            Some(Instruction::SUBN(x, y))
        } else if n == 0xE {
            Some(Instruction::SHL(x))
        } else {
            None
        }
    } else if first == 0x9 {
        Some(Instruction::SNE(x, Operand::Reg(y)))
    } else if first == 0xA {
        Some(Instruction::LD_I(spec_addr(op)))
    } else if first == 0xB {
        Some(Instruction::JP_V0(spec_addr(op)))
    } else if first == 0xC {
        Some(Instruction::RND(x, spec_byte(op)))
    } else if first == 0xD {
        Some(Instruction::DRW(x, y, spec_nibble(op)))
    } else if first == 0xE {
        let b = spec_byte(op);
        if b == 0x9E {
            Some(Instruction::SKP(x))
        } else if b == 0xA1 {
            Some(Instruction::SKNP(x))
        } else {
            None
        }
    } else {
        let b = spec_byte(op);
        if b == 0x07 {
            Some(Instruction::LD_Vx_DT(x))
        } else if b == 0x0A {
            Some(Instruction::LD_Vx_K(x))
        } else if b == 0x15 {
            Some(Instruction::LD_DT_Vx(x))
        } else if b == 0x18 {
            Some(Instruction::LD_ST_Vx(x))
        } else if b == 0x1E {
            Some(Instruction::ADD_I(x))
        } else if b == 0x29 {
            Some(Instruction::LD_F(x))
        } else if b == 0x33 {
            Some(Instruction::LD_B(x))
        } else if b == 0x55 {
            Some(Instruction::LD_I_Vx(x))
        } else if b == 0x65 {
            Some(Instruction::LD_Vx_I(x))
        } else {
            None
        }
    }
}

/// A pixel buffer with every pixel off.
pub open spec fn spec_blank() -> Seq<bool> {
    Seq::new(2048, |i: int| false)
}

/// Memory, call stack, stack pointer and pixel buffer are unchanged.
pub open spec fn frame_same(pre: CHIP8, post: CHIP8) -> bool {
    &&& post.ram@ == pre.ram@
    &&& post.stack@ == pre.stack@
    &&& post.reg.SP == pre.reg.SP
    &&& post.display.pixels@ == pre.display.pixels@
}

/// The index register is unchanged.
pub open spec fn i_same(pre: CHIP8, post: CHIP8) -> bool {
    post.reg.I == pre.reg.I
}

/// Both timers are unchanged.
pub open spec fn timers_same(pre: CHIP8, post: CHIP8) -> bool {
    &&& post.reg.spec_dt() == pre.reg.spec_dt()
    &&& post.reg.spec_st() == pre.reg.spec_st()
}

/// The general-purpose registers are unchanged.
pub open spec fn vx_same(pre: CHIP8, post: CHIP8) -> bool {
    post.reg.Vx@ == pre.reg.Vx@
}

/// Everything but the program counter is unchanged.
pub open spec fn unchanged_but_pc(pre: CHIP8, post: CHIP8) -> bool {
    &&& frame_same(pre, post)
    &&& i_same(pre, post)
    &&& timers_same(pre, post)
    &&& vx_same(pre, post)
}

/// The whole machine is unchanged.
pub open spec fn machine_same(pre: CHIP8, post: CHIP8) -> bool {
    &&& unchanged_but_pc(pre, post)
    &&& post.reg.PC == pre.reg.PC
}

/// The value an SE/SNE/ADD/LD operand denotes in a machine state.
pub open spec fn spec_operand(pre: CHIP8, o: Operand) -> u8 {
    match o {
        Operand::Reg(v) => pre.reg.Vx@[v.0 as int],
        Operand::Imm(b) => b,
    }
}

/// The register bank after a SUB-style write: `vx[dst] - vx[src]` wrapping
/// into `dst`, then the flag register set to 1 exactly when no borrow was
/// needed.
pub open spec fn spec_sub_vx(vx: Seq<u8>, dst: int, src: int) -> Seq<u8> {
    let a = vx[dst];
    let b = vx[src];
    vx.update(
        dst,
        if a >= b {
            (a - b) as u8
        } else {
            (a - b + 256) as u8
        },
    ).update(
        15,
        if a >= b {
            1u8
        } else {
            0u8
        },
    )
}

/// An operand only names registers that exist.
pub open spec fn spec_operand_wf(o: Operand) -> bool {
    match o {
        Operand::Reg(v) => v.0 < 16,
        Operand::Imm(_) => true,
    }
}

/// Every register index an instruction carries is in range, and a sprite
/// height fits in a nibble — the shapes the decoder produces.
pub open spec fn spec_instr_wf(instr: Instruction) -> bool {
    match instr {
        Instruction::SYS(_) => true,
        Instruction::CLS => true,
        Instruction::RET => true,
        Instruction::JP(_) => true,
        Instruction::JP_V0(_) => true,
        Instruction::CALL(_) => true,
        Instruction::SE(x, o) => x.0 < 16 && spec_operand_wf(o),
        Instruction::SNE(x, o) => x.0 < 16 && spec_operand_wf(o),
        Instruction::ADD(x, o) => x.0 < 16 && spec_operand_wf(o),
        Instruction::ADD_I(x) => x.0 < 16,
        Instruction::SUB(x, y) => x.0 < 16 && y.0 < 16,
        Instruction::SUBN(x, y) => x.0 < 16 && y.0 < 16,
        Instruction::OR(x, y) => x.0 < 16 && y.0 < 16,
        Instruction::AND(x, y) => x.0 < 16 && y.0 < 16,
        Instruction::XOR(x, y) => x.0 < 16 && y.0 < 16,
        Instruction::SHR(x) => x.0 < 16,
        Instruction::SHL(x) => x.0 < 16,
        Instruction::RND(x, _) => x.0 < 16,
        Instruction::DRW(x, y, n) => x.0 < 16 && y.0 < 16 && n < 16,
        Instruction::SKP(x) => x.0 < 16,
        Instruction::SKNP(x) => x.0 < 16,
        Instruction::LD(x, o) => x.0 < 16 && spec_operand_wf(o),
        Instruction::LD_I(_) => true,
        Instruction::LD_Vx_DT(x) => x.0 < 16,
        Instruction::LD_Vx_K(x) => x.0 < 16,
        Instruction::LD_DT_Vx(x) => x.0 < 16,
        Instruction::LD_ST_Vx(x) => x.0 < 16,
        Instruction::LD_F(x) => x.0 < 16,
        Instruction::LD_B(x) => x.0 < 16,
        Instruction::LD_I_Vx(x) => x.0 < 16,
        Instruction::LD_Vx_I(x) => x.0 < 16,
    }
}

/// Whether executing `instr` in state `pre` stays inside memory and inside
/// the index register's and program counter's ranges. The original hardware
/// gives a malformed cartridge no defined meaning here; the engine reports
/// `MemoryOutOfRange` instead of running such an instruction.
pub open spec fn spec_instr_safe(pre: CHIP8, instr: Instruction) -> bool {
    match instr {
        Instruction::JP_V0(addr) => addr + pre.reg.Vx@[0] <= 0xFFFF,
        Instruction::CALL(_) => pre.reg.PC <= 0xFFFF,
        Instruction::SE(_, _) => pre.reg.PC + 4 <= usize::MAX,
        Instruction::SNE(_, _) => pre.reg.PC + 4 <= usize::MAX,
        Instruction::SKP(_) => pre.reg.PC + 4 <= usize::MAX,
        Instruction::SKNP(_) => pre.reg.PC + 4 <= usize::MAX,
        Instruction::ADD_I(x) => pre.reg.I + pre.reg.Vx@[x.0 as int] <= 0xFFFF,
        Instruction::DRW(_, _, n) => pre.reg.I + n <= 0xFFF,
        Instruction::LD_B(_) => pre.reg.I + 2 < 0xFFF,
        Instruction::LD_I_Vx(x) => pre.reg.I + x.0 < 0xFFF,
        Instruction::LD_Vx_I(x) => pre.reg.I + x.0 < 0xFFF,
        _ => true,
    }
}

/// How one instruction relates the machine state before it to the state
/// after it. `adv` is the fetch loop's own program-counter advance: 0 when
/// the instruction is executed on its own, 2 when it runs inside a cycle.
/// Instructions that set PC themselves (JP, JP_V0, CALL) ignore `adv`, and
/// a failed instruction leaves the machine exactly as it was.
pub open spec fn exec_rel(
    pre: CHIP8,
    post: CHIP8,
    instr: Instruction,
    keys: Seq<bool>,
    r: Result<StepOutcome, Chip8Error>,
    adv: int,
) -> bool {
    match instr {
        Instruction::SYS(_) => {
            &&& r == Ok::<StepOutcome, Chip8Error>(StepOutcome::Ran)
            &&& unchanged_but_pc(pre, post)
            &&& post.reg.PC == pre.reg.PC + adv
        },
        Instruction::CLS => {
            &&& r == Ok::<StepOutcome, Chip8Error>(StepOutcome::Published)
            &&& post.ram@ == pre.ram@
            &&& post.stack@ == pre.stack@
            &&& post.reg.SP == pre.reg.SP
            &&& i_same(pre, post)
            &&& timers_same(pre, post)
            &&& vx_same(pre, post)
            &&& post.display.pixels@ == spec_blank()
            &&& post.reg.PC == pre.reg.PC + adv
        },
        Instruction::RET => {
            if pre.stack@.len() == 0 {
                &&& r == Err::<StepOutcome, Chip8Error>(Chip8Error::StackUnderflow)
                &&& machine_same(pre, post)
            } else {
                &&& r == Ok::<StepOutcome, Chip8Error>(StepOutcome::Ran)
                &&& post.ram@ == pre.ram@
                &&& post.display.pixels@ == pre.display.pixels@
                &&& i_same(pre, post)
                &&& timers_same(pre, post)
                &&& vx_same(pre, post)
                &&& post.stack@ == pre.stack@.drop_last()
                &&& post.reg.SP == pre.stack@.len() - 1
                &&& post.reg.PC == pre.stack@.last() + adv
            }
        },
        Instruction::JP(addr) => {
            &&& r == Ok::<StepOutcome, Chip8Error>(StepOutcome::Ran)
            &&& unchanged_but_pc(pre, post)
            &&& post.reg.PC == addr
        },
        Instruction::JP_V0(addr) => {
            &&& r == Ok::<StepOutcome, Chip8Error>(StepOutcome::Ran)
            &&& unchanged_but_pc(pre, post)
            &&& post.reg.PC == addr + pre.reg.Vx@[0]
        },
        Instruction::CALL(addr) => {
            if pre.stack@.len() >= 16 {
                &&& r == Err::<StepOutcome, Chip8Error>(Chip8Error::StackOverflow)
                &&& machine_same(pre, post)
            } else {
                &&& r == Ok::<StepOutcome, Chip8Error>(StepOutcome::Ran)
                &&& post.ram@ == pre.ram@
                &&& post.display.pixels@ == pre.display.pixels@
                &&& i_same(pre, post)
                &&& timers_same(pre, post)
                &&& vx_same(pre, post)
                &&& post.stack@ == pre.stack@.push(pre.reg.PC as u16)
                &&& post.reg.SP == pre.stack@.len() + 1
                &&& post.reg.PC == addr
            }
        },
        Instruction::SE(x, o) => {
            &&& r == Ok::<StepOutcome, Chip8Error>(StepOutcome::Ran)
            &&& unchanged_but_pc(pre, post)
            &&& post.reg.PC == pre.reg.PC + adv + (if pre.reg.Vx@[x.0 as int] == spec_operand(
                pre,
                o,
            ) {
                2int
            } else {
                0int
            })
        },
        Instruction::SNE(x, o) => {
            &&& r == Ok::<StepOutcome, Chip8Error>(StepOutcome::Ran)
            &&& unchanged_but_pc(pre, post)
            &&& post.reg.PC == pre.reg.PC + adv + (if pre.reg.Vx@[x.0 as int] != spec_operand(
                pre,
                o,
            ) {
                2int
            } else {
                0int
            })
        },
        Instruction::ADD(x, o) => {
            let sum = pre.reg.Vx@[x.0 as int] + spec_operand(pre, o);
            &&& r == Ok::<StepOutcome, Chip8Error>(StepOutcome::Ran)
            &&& frame_same(pre, post)
            &&& i_same(pre, post)
            &&& timers_same(pre, post)
            &&& post.reg.PC == pre.reg.PC + adv
            &&& post.reg.Vx@ == pre.reg.Vx@.update(x.0 as int, (sum % 256) as u8).update(
                15,
                if sum > 255 {
                    1u8
                } else {
                    0u8
                },
            )
        },
        Instruction::ADD_I(x) => {
            &&& r == Ok::<StepOutcome, Chip8Error>(StepOutcome::Ran)
            &&& frame_same(pre, post)
            &&& timers_same(pre, post)
            &&& vx_same(pre, post)
            &&& post.reg.I == pre.reg.I + pre.reg.Vx@[x.0 as int]
            &&& post.reg.PC == pre.reg.PC + adv
        },
        Instruction::SUB(x, y) => {
            &&& r == Ok::<StepOutcome, Chip8Error>(StepOutcome::Ran)
            &&& frame_same(pre, post)
            &&& i_same(pre, post)
            &&& timers_same(pre, post)
            &&& post.reg.PC == pre.reg.PC + adv
            &&& post.reg.Vx@ == spec_sub_vx(pre.reg.Vx@, x.0 as int, y.0 as int)
        },
        Instruction::SUBN(x, y) => {
            &&& r == Ok::<StepOutcome, Chip8Error>(StepOutcome::Ran)
            &&& frame_same(pre, post)
            &&& i_same(pre, post)
            &&& timers_same(pre, post)
            &&& post.reg.PC == pre.reg.PC + adv
            &&& post.reg.Vx@ == spec_sub_vx(pre.reg.Vx@, y.0 as int, x.0 as int)
        },
        Instruction::OR(x, y) => {
            &&& r == Ok::<StepOutcome, Chip8Error>(StepOutcome::Ran)
            &&& frame_same(pre, post)
            &&& i_same(pre, post)
            &&& timers_same(pre, post)
            &&& post.reg.PC == pre.reg.PC + adv
            &&& post.reg.Vx@ == pre.reg.Vx@.update(
                x.0 as int,
                pre.reg.Vx@[x.0 as int] | pre.reg.Vx@[y.0 as int],
            )
        },
        Instruction::AND(x, y) => {
            &&& r == Ok::<StepOutcome, Chip8Error>(StepOutcome::Ran)
            &&& frame_same(pre, post)
            &&& i_same(pre, post)
            &&& timers_same(pre, post)
            &&& post.reg.PC == pre.reg.PC + adv
            &&& post.reg.Vx@ == pre.reg.Vx@.update(
                x.0 as int,
                pre.reg.Vx@[x.0 as int] & pre.reg.Vx@[y.0 as int],
            )
        },
        Instruction::XOR(x, y) => {
            &&& r == Ok::<StepOutcome, Chip8Error>(StepOutcome::Ran)
            &&& frame_same(pre, post)
            &&& i_same(pre, post)
            &&& timers_same(pre, post)
            &&& post.reg.PC == pre.reg.PC + adv
            &&& post.reg.Vx@ == pre.reg.Vx@.update(
                x.0 as int,
                pre.reg.Vx@[x.0 as int] ^ pre.reg.Vx@[y.0 as int],
            )
        },
        Instruction::SHR(x) => {
            let a = pre.reg.Vx@[x.0 as int];
            &&& r == Ok::<StepOutcome, Chip8Error>(StepOutcome::Ran)
            &&& frame_same(pre, post)
            &&& i_same(pre, post)
            &&& timers_same(pre, post)
            &&& post.reg.PC == pre.reg.PC + adv
            &&& post.reg.Vx@ == pre.reg.Vx@.update(15, (a % 2) as u8).update(
                x.0 as int,
                (a / 2) as u8,
            )
        },
        Instruction::SHL(x) => {
            let a = pre.reg.Vx@[x.0 as int];
            &&& r == Ok::<StepOutcome, Chip8Error>(StepOutcome::Ran)
            &&& frame_same(pre, post)
            &&& i_same(pre, post)
            &&& timers_same(pre, post)
            &&& post.reg.PC == pre.reg.PC + adv
            &&& post.reg.Vx@ == pre.reg.Vx@.update(
                15,
                if a >= 0x80 {
                    1u8
                } else {
                    0u8
                },
            ).update(x.0 as int, ((a * 2) % 256) as u8)
        },
        Instruction::RND(x, byte) => {
            &&& r == Ok::<StepOutcome, Chip8Error>(StepOutcome::Ran)
            &&& frame_same(pre, post)
            &&& i_same(pre, post)
            &&& timers_same(pre, post)
            &&& post.reg.PC == pre.reg.PC + adv
            &&& exists|rv: u8| post.reg.Vx@ == pre.reg.Vx@.update(x.0 as int, #[trigger] (rv & byte))
        },
        Instruction::DRW(x, y, n) => {
            let rows = pre.ram@.subrange(pre.reg.I as int, pre.reg.I + n);
            let px = pre.reg.Vx@[x.0 as int];
            let py = pre.reg.Vx@[y.0 as int];
            let coll = spec_collision(pre.display.pixels@, px, py, rows);
            &&& r == Ok::<StepOutcome, Chip8Error>(StepOutcome::Published)
            &&& post.ram@ == pre.ram@
            &&& post.stack@ == pre.stack@
            &&& post.reg.SP == pre.reg.SP
            &&& i_same(pre, post)
            &&& timers_same(pre, post)
            &&& post.reg.PC == pre.reg.PC + adv
            &&& post.display.pixels@ == spec_blit(pre.display.pixels@, px, py, rows)
            &&& post.reg.Vx@ == pre.reg.Vx@.update(
                15,
                if coll {
                    1u8
                } else {
                    0u8
                },
            )
        },
        Instruction::SKP(x) => {
            let key = pre.reg.Vx@[x.0 as int];
            if key > 0xF {
                &&& r == Err::<StepOutcome, Chip8Error>(Chip8Error::InvalidKeyCode(key))
                &&& machine_same(pre, post)
            } else {
                &&& r == Ok::<StepOutcome, Chip8Error>(StepOutcome::Ran)
                &&& unchanged_but_pc(pre, post)
                &&& post.reg.PC == pre.reg.PC + adv + (if keys[key as int] {
                    2int
                } else {
                    0int
                })
            }
        },
        Instruction::SKNP(x) => {
            let key = pre.reg.Vx@[x.0 as int];
            if key > 0xF {
                &&& r == Err::<StepOutcome, Chip8Error>(Chip8Error::InvalidKeyCode(key))
                &&& machine_same(pre, post)
            } else {
                &&& r == Ok::<StepOutcome, Chip8Error>(StepOutcome::Ran)
                &&& unchanged_but_pc(pre, post)
                &&& post.reg.PC == pre.reg.PC + adv + (if !keys[key as int] {
                    2int
                } else {
                    0int
                })
            }
        },
        Instruction::LD(x, o) => {
            &&& r == Ok::<StepOutcome, Chip8Error>(StepOutcome::Ran)
            &&& frame_same(pre, post)
            &&& i_same(pre, post)
            &&& timers_same(pre, post)
            &&& post.reg.PC == pre.reg.PC + adv
            &&& post.reg.Vx@ == pre.reg.Vx@.update(x.0 as int, spec_operand(pre, o))
        },
        Instruction::LD_I(addr) => {
            &&& r == Ok::<StepOutcome, Chip8Error>(StepOutcome::Ran)
            &&& frame_same(pre, post)
            &&& timers_same(pre, post)
            &&& vx_same(pre, post)
            &&& post.reg.I == addr
            &&& post.reg.PC == pre.reg.PC + adv
        },
        Instruction::LD_Vx_DT(x) => {
            &&& r == Ok::<StepOutcome, Chip8Error>(StepOutcome::Ran)
            &&& frame_same(pre, post)
            &&& i_same(pre, post)
            &&& timers_same(pre, post)
            &&& post.reg.PC == pre.reg.PC + adv
            &&& post.reg.Vx@ == pre.reg.Vx@.update(x.0 as int, pre.reg.spec_dt())
        },
        Instruction::LD_Vx_K(x) => {
            &&& r == Ok::<StepOutcome, Chip8Error>(StepOutcome::AwaitingKey(x))
            &&& unchanged_but_pc(pre, post)
            &&& post.reg.PC == pre.reg.PC + adv
        },
        Instruction::LD_DT_Vx(x) => {
            &&& r == Ok::<StepOutcome, Chip8Error>(StepOutcome::Ran)
            &&& frame_same(pre, post)
            &&& i_same(pre, post)
            &&& vx_same(pre, post)
            &&& post.reg.spec_dt() == pre.reg.Vx@[x.0 as int]
            &&& post.reg.spec_st() == pre.reg.spec_st()
            &&& post.reg.PC == pre.reg.PC + adv
        },
        Instruction::LD_ST_Vx(x) => {
            &&& r == Ok::<StepOutcome, Chip8Error>(StepOutcome::Ran)
            &&& frame_same(pre, post)
            &&& i_same(pre, post)
            &&& vx_same(pre, post)
            &&& post.reg.spec_st() == pre.reg.Vx@[x.0 as int]
            &&& post.reg.spec_dt() == pre.reg.spec_dt()
            &&& post.reg.PC == pre.reg.PC + adv
        },
        Instruction::LD_F(x) => {
            let v = pre.reg.Vx@[x.0 as int];
            if v > 0xF {
                &&& r == Err::<StepOutcome, Chip8Error>(Chip8Error::InvalidSpriteIndex(v))
                &&& machine_same(pre, post)
            } else {
                &&& r == Ok::<StepOutcome, Chip8Error>(StepOutcome::Ran)
                &&& frame_same(pre, post)
                &&& timers_same(pre, post)
                &&& vx_same(pre, post)
                &&& post.reg.I == 5 * v
                &&& post.reg.PC == pre.reg.PC + adv
            }
        },
        Instruction::LD_B(x) => {
            let v = pre.reg.Vx@[x.0 as int];
            let i0 = pre.reg.I as int;
            &&& r == Ok::<StepOutcome, Chip8Error>(StepOutcome::Ran)
            &&& post.stack@ == pre.stack@
            &&& post.reg.SP == pre.reg.SP
            &&& post.display.pixels@ == pre.display.pixels@
            &&& i_same(pre, post)
            &&& timers_same(pre, post)
            &&& vx_same(pre, post)
            &&& post.reg.PC == pre.reg.PC + adv
            &&& post.ram@ == pre.ram@.update(i0, (v / 100) as u8).update(
                i0 + 1,
                ((v / 10) % 10) as u8,
            ).update(i0 + 2, (v % 10) as u8)
        },
        Instruction::LD_I_Vx(x) => {
            let i0 = pre.reg.I as int;
            &&& r == Ok::<StepOutcome, Chip8Error>(StepOutcome::Ran)
            &&& post.stack@ == pre.stack@
            &&& post.reg.SP == pre.reg.SP
            &&& post.display.pixels@ == pre.display.pixels@
            &&& i_same(pre, post)
            &&& timers_same(pre, post)
            &&& vx_same(pre, post)
            &&& post.reg.PC == pre.reg.PC + adv
            &&& post.ram@.len() == pre.ram@.len()
            &&& forall|k: int| 0 <= k <= x.0 ==> post.ram@[i0 + k] == pre.reg.Vx@[k]
            &&& forall|m: int|
                0 <= m < pre.ram@.len() && !(i0 <= m <= i0 + x.0) ==> post.ram@[m] == pre.ram@[m]
        },
        Instruction::LD_Vx_I(x) => {
            let i0 = pre.reg.I as int;
            &&& r == Ok::<StepOutcome, Chip8Error>(StepOutcome::Ran)
            &&& frame_same(pre, post)
            &&& i_same(pre, post)
            &&& timers_same(pre, post)
            &&& post.reg.PC == pre.reg.PC + adv
            &&& forall|k: int| 0 <= k <= x.0 ==> post.reg.Vx@[k] == pre.ram@[i0 + k]
            &&& forall|k: int| x.0 < k < 16 ==> post.reg.Vx@[k] == pre.reg.Vx@[k]
        },
    }
}

/// The CHIP-8 virtual machine: call stack, memory, register file and pixel
/// buffer. The driver around it owns the window, the keyboard and the 60 Hz
/// timer cadence.
#[allow(non_camel_case_types)]
#[derive(Debug)]
pub struct CHIP8 {
    /// Saved return addresses, at most 16.
    pub stack: Vec<u16>,
    /// Addressable memory: glyphs at the bottom, the program from 0x200.
    pub ram: Vec<u8>,
    /// The register file and timers.
    pub reg: Registers,
    /// The pixel buffer.
    pub display: FrameBuffer,
}

impl CHIP8 {
    /// Memory has its fixed size, the stack is within capacity and agrees
    /// with the stack pointer, and the pixel buffer is whole.
    pub open spec fn wf(&self) -> bool {
        &&& self.ram@.len() == 0xFFF
        &&& self.stack@.len() <= 16
        &&& self.reg.SP == self.stack@.len()
        &&& self.display.wf()
    }

    /// A fresh machine: glyphs at the bottom of memory, everything else
    /// zeroed, PC at the program offset.
    pub fn new() -> (r: CHIP8)
        ensures
            r.wf(),
            r.stack@.len() == 0,
            r.reg.PC == 0x200,
            r.reg.SP == 0,
            r.reg.I == 0,
            forall|k: int| 0 <= k < 16 ==> r.reg.Vx@[k] == 0u8,
            r.reg.spec_dt() == 0,
            r.reg.spec_st() == 0,
            forall|k: int| 0 <= k < 80 ==> r.ram@[k] == spec_sprite_byte(k),
            forall|k: int| 80 <= k < 0xFFF ==> r.ram@[k] == 0u8,
            forall|k: int| 0 <= k < 2048 ==> !r.display.pixels@[k],
    {
        let mut ram: Vec<u8> = Vec::new();
        let mut k: usize = 0;
        while k < 0xFFF
            invariant
                k <= 0xFFF,
                ram@.len() == k,
                forall|m: int| 0 <= m < k ==> ram@[m] == 0u8,
            decreases 0xFFF - k,
        {
            ram.push(0);
            k = k + 1;
        }
        let mut d: usize = 0;
        while d < 16
            invariant
                d <= 16,
                ram@.len() == 0xFFF,
                forall|m: int| 0 <= m < 5 * d ==> ram@[m] == spec_sprite_byte(m),
                forall|m: int| 5 * d <= m < 0xFFF ==> ram@[m] == 0u8,
            decreases 16 - d,
        {
            let rows = glyph_rows(d as u8);
            let mut t: usize = 0;
            while t < 5
                invariant
                    d < 16,
                    t <= 5,
                    ram@.len() == 0xFFF,
                    rows@ == spec_glyph(d as int),
                    forall|m: int| 0 <= m < 5 * d + t ==> ram@[m] == spec_sprite_byte(m),
                    forall|m: int| 5 * d + t <= m < 0xFFF ==> ram@[m] == 0u8,
                decreases 5 - t,
            {
                ram.set(5 * d + t, rows[t]);
                proof {
                    lemma_sprite_byte(d as int, t as int);
                }
                t = t + 1;
            }
            d = d + 1;
        }
        CHIP8 {
            stack: Vec::new(),
            ram,
            reg: Registers::new(),
            display: FrameBuffer::new(),
        }
    }

    /// Decode a 16-bit opcode word; every unrecognized word is rejected as
    /// a decode error, so the function is total.
    pub fn decode_instruction(bytes: u16) -> (r: Result<Instruction, Chip8Error>)
        ensures
            spec_decode(bytes) matches Some(instr) ==> r == Ok::<Instruction, Chip8Error>(instr),
            spec_decode(bytes) is None ==> r == Err::<Instruction, Chip8Error>(
                Chip8Error::DecodeError(bytes),
            ),
    {
        match get_first(bytes) {
            0x0 => {
                if bytes == 0x00E0 {
                    Ok(Instruction::CLS)
                } else if bytes == 0x00EE {
                    Ok(Instruction::RET)
                } else {
                    Ok(Instruction::SYS(get_addr(bytes)))
                }
            },
            0x1 => Ok(Instruction::JP(get_addr(bytes))),
            0x2 => Ok(Instruction::CALL(get_addr(bytes))),
            0x3 => Ok(Instruction::SE(get_vx(bytes), Operand::Imm(get_byte(bytes)))),
            0x4 => Ok(Instruction::SNE(get_vx(bytes), Operand::Imm(get_byte(bytes)))),
            0x5 => Ok(Instruction::SE(get_vx(bytes), Operand::Reg(get_vy(bytes)))),
            0x6 => Ok(Instruction::LD(get_vx(bytes), Operand::Imm(get_byte(bytes)))),
            0x7 => Ok(Instruction::ADD(get_vx(bytes), Operand::Imm(get_byte(bytes)))),
            0x8 => {
                match get_nibble(bytes) {
                    0x0 => Ok(Instruction::LD(get_vx(bytes), Operand::Reg(get_vy(bytes)))),
                    0x1 => Ok(Instruction::OR(get_vx(bytes), get_vy(bytes))),
                    0x2 => Ok(Instruction::AND(get_vx(bytes), get_vy(bytes))),
                    0x3 => Ok(Instruction::XOR(get_vx(bytes), get_vy(bytes))),
                    0x4 => Ok(Instruction::ADD(get_vx(bytes), Operand::Reg(get_vy(bytes)))),
                    0x5 => Ok(Instruction::SUB(get_vx(bytes), get_vy(bytes))),
                    0x6 => Ok(Instruction::SHR(get_vx(bytes))),
                    0x7 => Ok(Instruction::SUBN(get_vx(bytes), get_vy(bytes))),
                    0xE => Ok(Instruction::SHL(get_vx(bytes))),
                    _ => Err(Chip8Error::DecodeError(bytes)),
                }
            },
            0x9 => Ok(Instruction::SNE(get_vx(bytes), Operand::Reg(get_vy(bytes)))),
            0xA => Ok(Instruction::LD_I(get_addr(bytes))),
            0xB => Ok(Instruction::JP_V0(get_addr(bytes))),
            0xC => Ok(Instruction::RND(get_vx(bytes), get_byte(bytes))),
            0xD => Ok(Instruction::DRW(get_vx(bytes), get_vy(bytes), get_nibble(bytes))),
            0xE => {
                match get_byte(bytes) {
                    0x9E => Ok(Instruction::SKP(get_vx(bytes))),
                    0xA1 => Ok(Instruction::SKNP(get_vx(bytes))),
                    _ => Err(Chip8Error::DecodeError(bytes)),
                }
            },
            _ => {
                match get_byte(bytes) {
                    0x07 => Ok(Instruction::LD_Vx_DT(get_vx(bytes))),
                    0x0A => Ok(Instruction::LD_Vx_K(get_vx(bytes))),
                    0x15 => Ok(Instruction::LD_DT_Vx(get_vx(bytes))),
                    0x18 => Ok(Instruction::LD_ST_Vx(get_vx(bytes))),
                    0x1E => Ok(Instruction::ADD_I(get_vx(bytes))),
                    0x29 => Ok(Instruction::LD_F(get_vx(bytes))),
                    0x33 => Ok(Instruction::LD_B(get_vx(bytes))),
                    0x55 => Ok(Instruction::LD_I_Vx(get_vx(bytes))),
                    0x65 => Ok(Instruction::LD_Vx_I(get_vx(bytes))),
                    _ => Err(Chip8Error::DecodeError(bytes)),
                }
            },
        }
    }

    /// Copy a cartridge into memory at the program offset; a cartridge that
    /// does not fit is rejected whole.
    pub fn load(&mut self, program: &Vec<u8>) -> (r: Result<(), Chip8Error>)
        requires
            old(self).wf(),
        ensures
            final(self).wf(),
            r is Ok <==> program@.len() <= 0xDFF,
            r is Ok ==> forall|k: int|
                0x200 <= k < 0x200 + program@.len() ==> final(self).ram@[k] == program@[k - 0x200],
            r is Ok ==> forall|k: int|
                0 <= k < 0xFFF && !(0x200 <= k < 0x200 + program@.len()) ==> final(self).ram@[k]
                    == old(self).ram@[k],
            r is Ok ==> final(self).reg == old(self).reg && final(self).stack@ == old(
                self,
            ).stack@ && final(self).display.pixels@ == old(self).display.pixels@,
            r is Err ==> r == Err::<(), Chip8Error>(Chip8Error::CartridgeTooLarge) && *final(self)
                == *old(self),
    {
        if program.len() > 0xDFF {
            return Err(Chip8Error::CartridgeTooLarge);
        }
        let mut k: usize = 0;
        while k < program.len()
            invariant
                old(self).wf(),
                self.ram@.len() == 0xFFF,
                program@.len() <= 0xDFF,
                k <= program@.len(),
                forall|m: int| 0x200 <= m < 0x200 + k ==> self.ram@[m] == program@[m - 0x200],
                forall|m: int|
                    0 <= m < 0xFFF && !(0x200 <= m < 0x200 + k) ==> self.ram@[m] == old(
                        self,
                    ).ram@[m],
                self.reg == old(self).reg,
                self.stack@ == old(self).stack@,
                self.display.pixels@ == old(self).display.pixels@,
                self.stack@.len() <= 16,
                self.reg.SP == self.stack@.len(),
                self.display.wf(),
            decreases program@.len() - k,
        {
            self.ram.set(0x200 + k, program[k]);
            k = k + 1;
        }
        Ok(())
    }

    /// The memory offset of the built-in glyph for `hex`, or `None` above
    /// 0xF.
    pub fn get_sprite_addr(hex: u8) -> (r: Option<u16>)
        ensures
            hex > 0xF ==> r is None,
            hex <= 0xF ==> r == Some((5 * hex) as u16),
    {
        if hex > 0xF {
            None
        } else {
            Some(hex as u16 * SPRITE_BYTE_LENGTH)
        }
    }

    /// The index a `Register` names.
    pub open spec fn spec_reg_idx(reg: Register) -> u8 {
        match reg {
            Register::Vx(num) => num,
        }
    }

    /// Read the general-purpose register that `reg` names.
    pub fn get_vx_val(&self, reg: &Register) -> (r: Option<u8>)
        requires
            Self::spec_reg_idx(*reg) < 16,
        ensures
            r == Some(self.reg.Vx@[Self::spec_reg_idx(*reg) as int]),
    {
        match reg {
            Register::Vx(num) => Some(self.reg.Vx[*num as usize]),
        }
    }

    /// Subtraction into `Vx[dst]`: wrapping `Vx[dst] - Vx[src]`, with the
    /// flag register set to 1 exactly when no borrow was needed.
    fn exec_sub(&mut self, dst: u8, src: u8)
        requires
            dst < 16,
            src < 16,
        ensures
            final(self).reg.Vx@ == spec_sub_vx(old(self).reg.Vx@, dst as int, src as int),
            final(self).reg.PC == old(self).reg.PC,
            final(self).reg.SP == old(self).reg.SP,
            final(self).reg.I == old(self).reg.I,
            final(self).reg.spec_dt() == old(self).reg.spec_dt(),
            final(self).reg.spec_st() == old(self).reg.spec_st(),
            final(self).stack == old(self).stack,
            final(self).ram == old(self).ram,
            final(self).display == old(self).display,
    {
        let a = self.reg.Vx[dst as usize];
        let b = self.reg.Vx[src as usize];
        let diff: u8 = if a >= b {
            a - b
        } else {
            ((a as u16 + 256 - b as u16) % 256) as u8
        };
        let flag: u8 = if a >= b {
            1
        } else {
            0
        };
        self.reg.Vx[dst as usize] = diff;
        self.reg.Vx[15] = flag;
    }

    /// Whether executing `instr` in this state would stay inside memory and
    /// the index register's range; `step` rejects an instruction for which
    /// this fails instead of running it.
    pub fn instr_safe(&self, instr: &Instruction) -> (b: bool)
        requires
            self.wf(),
            spec_instr_wf(*instr),
        ensures
            b == spec_instr_safe(*self, *instr),
    {
        match instr {
            Instruction::JP_V0(addr) => (*addr as u32 + self.reg.Vx[0] as u32) <= 0xFFFF,
            Instruction::CALL(_) => self.reg.PC <= 0xFFFF,
            Instruction::SE(_, _) => self.reg.PC <= usize::MAX - 4,
            Instruction::SNE(_, _) => self.reg.PC <= usize::MAX - 4,
            Instruction::SKP(_) => self.reg.PC <= usize::MAX - 4,
            Instruction::SKNP(_) => self.reg.PC <= usize::MAX - 4,
            Instruction::ADD_I(x) => (self.reg.I as u32 + self.reg.Vx[x.0 as usize] as u32)
                <= 0xFFFF,
            Instruction::DRW(_, _, n) => (self.reg.I as u32 + *n as u32) <= 0xFFF,
            Instruction::LD_B(_) => self.reg.I < 0xFFD,
            Instruction::LD_I_Vx(x) => (self.reg.I as u32 + x.0 as u32) < 0xFFF,
            Instruction::LD_Vx_I(x) => (self.reg.I as u32 + x.0 as u32) < 0xFFF,
            _ => true,
        }
    }

    /// Run one decoded instruction against the machine, reading the keypad
    /// snapshot `keys`. The program counter is not advanced past the
    /// instruction itself: the fetch loop owns that, so skips and jumps here
    /// move PC relative to where the instruction sits.
    pub fn execute_instruction(&mut self, instr: Instruction, keys: &[bool; 16]) -> (r: Result<
        StepOutcome,
        Chip8Error,
    >)
        requires
            old(self).wf(),
            spec_instr_wf(instr),
            spec_instr_safe(*old(self), instr),
        ensures
            final(self).wf(),
            exec_rel(*old(self), *final(self), instr, keys@, r, 0),
    {
        match instr {
            Instruction::SYS(_) => Ok(StepOutcome::Ran),
            Instruction::CLS => {
                self.display.clear();
                proof {
                    assert(self.display.pixels@ =~= spec_blank());
                }
                Ok(StepOutcome::Published)
            },
            Instruction::RET => {
                match self.stack.pop() {
                    None => Err(Chip8Error::StackUnderflow),
                    Some(addr) => {
                        self.reg.PC = addr as usize;
                        self.reg.SP = self.reg.SP - 1;
                        Ok(StepOutcome::Ran)
                    },
                }
            },
            Instruction::JP(addr) => {
                self.reg.PC = addr as usize;
                Ok(StepOutcome::Ran)
            },
            Instruction::JP_V0(addr) => {
                self.reg.PC = (addr + self.reg.Vx[0] as u16) as usize;
                Ok(StepOutcome::Ran)
            },
            Instruction::CALL(addr) => {
                if self.stack.len() >= 16 {
                    return Err(Chip8Error::StackOverflow);
                }
                self.reg.SP = self.reg.SP + 1;
                self.stack.push(self.reg.PC as u16);
                self.reg.PC = addr as usize;
                Ok(StepOutcome::Ran)
            },
            Instruction::SE(vx, other) => {
                let val1 = self.reg.Vx[vx.0 as usize];
                let val2 = self.operand_val(&other);
                if val1 == val2 {
                    self.reg.PC += 2;
                }
                Ok(StepOutcome::Ran)
            },
            Instruction::SNE(vx, other) => {
                let val1 = self.reg.Vx[vx.0 as usize];
                let val2 = self.operand_val(&other);
                if val1 != val2 {
                    self.reg.PC += 2;
                }
                Ok(StepOutcome::Ran)
            },
            Instruction::ADD(vx, other) => {
                let val1 = self.reg.Vx[vx.0 as usize];
                let val2 = self.operand_val(&other);
                let sum: u16 = val1 as u16 + val2 as u16;
                self.reg.Vx[vx.0 as usize] = (sum % 256) as u8;
                self.reg.Vx[15] = if sum > 255 {
                    1
                } else {
                    0
                };
                Ok(StepOutcome::Ran)
            },
            Instruction::ADD_I(vx) => {
                self.reg.I += self.reg.Vx[vx.0 as usize] as u16;
                Ok(StepOutcome::Ran)
            },
            Instruction::SUB(vx, vy) => {
                self.exec_sub(vx.0, vy.0);
                Ok(StepOutcome::Ran)
            },
            Instruction::SUBN(vx, vy) => {
                self.exec_sub(vy.0, vx.0);
                Ok(StepOutcome::Ran)
            },
            Instruction::OR(vx, vy) => {
                let val1 = self.reg.Vx[vx.0 as usize];
                let val2 = self.reg.Vx[vy.0 as usize];
                self.reg.Vx[vx.0 as usize] = val1 | val2;
                Ok(StepOutcome::Ran)
            },
            Instruction::AND(vx, vy) => {
                let val1 = self.reg.Vx[vx.0 as usize];
                let val2 = self.reg.Vx[vy.0 as usize];
                self.reg.Vx[vx.0 as usize] = val1 & val2;
                Ok(StepOutcome::Ran)
            },
            Instruction::XOR(vx, vy) => {
                let val1 = self.reg.Vx[vx.0 as usize];
                let val2 = self.reg.Vx[vy.0 as usize];
                self.reg.Vx[vx.0 as usize] = val1 ^ val2;
                Ok(StepOutcome::Ran)
            },
            Instruction::SHR(vx) => {
                let val1 = self.reg.Vx[vx.0 as usize];
                self.reg.Vx[15] = val1 % 2;
                self.reg.Vx[vx.0 as usize] = val1 / 2;
                Ok(StepOutcome::Ran)
            },
            Instruction::SHL(vx) => {
                let val1 = self.reg.Vx[vx.0 as usize];
                self.reg.Vx[15] = if val1 >= 0x80 {
                    1
                } else {
                    0
                };
                self.reg.Vx[vx.0 as usize] = ((val1 as u16 * 2) % 256) as u8;
                Ok(StepOutcome::Ran)
            },
            Instruction::RND(vx, byte) => {
                let rv: u8 = rand::random();
                self.reg.Vx[vx.0 as usize] = rv & byte;
                Ok(StepOutcome::Ran)
            },
            Instruction::DRW(vx, vy, nibble) => {
                let start = self.reg.I as usize;
                let n = nibble as usize;
                let mut rows: Vec<u8> = Vec::new();
                let mut t: usize = 0;
                while t < n
                    invariant
                        t <= n,
                        n < 16,
                        start + n <= 0xFFF,
                        self.ram@.len() == 0xFFF,
                        rows@.len() == t,
                        forall|m: int| 0 <= m < t ==> rows@[m] == self.ram@[start + m],
                    decreases n - t,
                {
                    rows.push(self.ram[start + t]);
                    t = t + 1;
                }
                proof {
                    assert(rows@ =~= self.ram@.subrange(
                        self.reg.I as int,
                        self.reg.I + nibble as int,
                    ));
                }
                let px = self.reg.Vx[vx.0 as usize];
                let py = self.reg.Vx[vy.0 as usize];
                let collision = self.display.set_pixels(px, py, &rows);
                self.reg.Vx[15] = if collision {
                    1
                } else {
                    0
                };
                Ok(StepOutcome::Published)
            },
            Instruction::SKP(vx) => {
                let val = self.reg.Vx[vx.0 as usize];
                if val > 0xF {
                    return Err(Chip8Error::InvalidKeyCode(val));
                }
                if keys[val as usize] {
                    self.reg.PC += 2;
                }
                Ok(StepOutcome::Ran)
            },
            Instruction::SKNP(vx) => {
                let val = self.reg.Vx[vx.0 as usize];
                if val > 0xF {
                    return Err(Chip8Error::InvalidKeyCode(val));
                }
                if !keys[val as usize] {
                    self.reg.PC += 2;
                }
                Ok(StepOutcome::Ran)
            },
            Instruction::LD(vx, other) => {
                let val = self.operand_val(&other);
                self.reg.Vx[vx.0 as usize] = val;
                Ok(StepOutcome::Ran)
            },
            Instruction::LD_I(addr) => {
                self.reg.I = addr;
                Ok(StepOutcome::Ran)
            },
            Instruction::LD_Vx_DT(vx) => {
                let val = self.reg.get_dt();
                self.reg.Vx[vx.0 as usize] = val;
                Ok(StepOutcome::Ran)
            },
            Instruction::LD_Vx_K(vx) => Ok(StepOutcome::AwaitingKey(vx)),
            Instruction::LD_DT_Vx(vx) => {
                let val = self.reg.Vx[vx.0 as usize];
                self.reg.set_dt(val);
                Ok(StepOutcome::Ran)
            },
            Instruction::LD_ST_Vx(vx) => {
                let val = self.reg.Vx[vx.0 as usize];
                self.reg.set_st(val);
                Ok(StepOutcome::Ran)
            },
            Instruction::LD_F(vx) => {
                let val = self.reg.Vx[vx.0 as usize];
                match Self::get_sprite_addr(val) {
                    None => Err(Chip8Error::InvalidSpriteIndex(val)),
                    Some(addr) => {
                        self.reg.I = addr;
                        Ok(StepOutcome::Ran)
                    },
                }
            },
            Instruction::LD_B(vx) => {
                let val = self.reg.Vx[vx.0 as usize];
                let bcd = to_bcd(val);
                let i0 = self.reg.I as usize;
                self.ram.set(i0, bcd[0]);
                self.ram.set(i0 + 1, bcd[1]);
                self.ram.set(i0 + 2, bcd[2]);
                Ok(StepOutcome::Ran)
            },
            Instruction::LD_I_Vx(vx) => {
                let i0 = self.reg.I as usize;
                let count = vx.0 as usize + 1;
                let mut t: usize = 0;
                while t < count
                    invariant
                        t <= count,
                        count <= 16,
                        i0 + count <= 0xFFF,
                        self.ram@.len() == 0xFFF,
                        self.reg == old(self).reg,
                        self.stack == old(self).stack,
                        self.display == old(self).display,
                        forall|k: int| 0 <= k < t ==> self.ram@[i0 + k] == self.reg.Vx@[k],
                        forall|m: int|
                            0 <= m < 0xFFF && !(i0 <= m < i0 + t) ==> self.ram@[m] == old(
                                self,
                            ).ram@[m],
                    decreases count - t,
                {
                    let val = self.reg.Vx[t];
                    self.ram.set(i0 + t, val);
                    t = t + 1;
                }
                Ok(StepOutcome::Ran)
            },
            Instruction::LD_Vx_I(vx) => {
                let i0 = self.reg.I as usize;
                let count = vx.0 as usize + 1;
                let mut t: usize = 0;
                while t < count
                    invariant
                        t <= count,
                        count <= 16,
                        i0 + count <= 0xFFF,
                        self.ram == old(self).ram,
                        self.ram@.len() == 0xFFF,
                        self.stack == old(self).stack,
                        self.display == old(self).display,
                        self.reg.PC == old(self).reg.PC,
                        self.reg.SP == old(self).reg.SP,
                        self.reg.I == old(self).reg.I,
                        self.reg.spec_dt() == old(self).reg.spec_dt(),
                        self.reg.spec_st() == old(self).reg.spec_st(),
                        forall|k: int| 0 <= k < t ==> self.reg.Vx@[k] == self.ram@[i0 + k],
                        forall|k: int| t <= k < 16 ==> self.reg.Vx@[k] == old(self).reg.Vx@[k],
                    decreases count - t,
                {
                    let val = self.ram[i0 + t];
                    self.reg.Vx[t] = val;
                    t = t + 1;
                }
                Ok(StepOutcome::Ran)
            },
        }
    }

    /// One fetch-decode-execute cycle: fetch the opcode at PC (high byte
    /// first), decode it, refuse it if it would leave memory or a register's
    /// range, run it against the keypad snapshot `keys`, and advance PC by
    /// 2 — except after JP, JP_V0 and CALL, which set PC themselves. A fatal
    /// cycle reports its error and leaves the machine untouched.
    pub fn step(&mut self, keys: &[bool; 16]) -> (r: Result<StepOutcome, Chip8Error>)
        requires
            old(self).wf(),
        ensures
            final(self).wf(),
            step_rel(*old(self), *final(self), keys@, r),
    {
        if self.reg.PC > 0xFFD {
            return Ok(StepOutcome::Halted);
        }
        let opcode: u16 = self.ram[self.reg.PC] as u16 * 0x100 + self.ram[self.reg.PC + 1] as u16;
        let instr = match Self::decode_instruction(opcode) {
            Ok(i) => i,
            Err(e) => {
                return Err(e);
            },
        };
        proof {
            lemma_decode_wf(opcode);
        }
        if !self.instr_safe(&instr) {
            return Err(Chip8Error::MemoryOutOfRange);
        }
        let sets_pc = match instr {
            Instruction::JP(_) => true,
            Instruction::JP_V0(_) => true,
            Instruction::CALL(_) => true,
            _ => false,
        };
        let out = match self.execute_instruction(instr, keys) {
            Ok(o) => o,
            Err(e) => {
                return Err(e);
            },
        };
        if !sets_pc {
            self.reg.PC += 2;
        }
        Ok(out)
    }

    /// Complete a key-wait: store the pressed key's code into the register
    /// that a `StepOutcome::AwaitingKey` named. The driver calls this once
    /// its surface reports a pressed key; on shutdown it stops stepping
    /// instead, so nothing is stored.
    pub fn supply_key(&mut self, vx: VxyRegister, code: u8)
        requires
            old(self).wf(),
            vx.0 < 16,
            code <= 0xF,
        ensures
            final(self).wf(),
            final(self).reg.Vx@ == old(self).reg.Vx@.update(vx.0 as int, code),
            frame_same(*old(self), *final(self)),
            i_same(*old(self), *final(self)),
            timers_same(*old(self), *final(self)),
            final(self).reg.PC == old(self).reg.PC,
    {
        self.reg.Vx[vx.0 as usize] = code;
    }

    /// The value an SE/SNE/ADD/LD operand denotes: a register's content or
    /// the immediate itself.
    fn operand_val(&self, other: &Operand) -> (r: u8)
        requires
            spec_operand_wf(*other),
        ensures
            r == spec_operand(*self, *other),
    {
        match other {
            Operand::Reg(v) => self.reg.Vx[v.0 as usize],
            Operand::Imm(b) => *b,
        }
    }

    /// Write the general-purpose register that `reg` names.
    pub fn set_vx_val(&mut self, reg: &Register, val: u8)
        requires
            Self::spec_reg_idx(*reg) < 16,
        ensures
            final(self).reg.Vx@ == old(self).reg.Vx@.update(
                Self::spec_reg_idx(*reg) as int,
                val,
            ),
            final(self).reg.PC == old(self).reg.PC,
            final(self).reg.SP == old(self).reg.SP,
            final(self).reg.I == old(self).reg.I,
            final(self).reg.spec_dt() == old(self).reg.spec_dt(),
            final(self).reg.spec_st() == old(self).reg.spec_st(),
            final(self).stack == old(self).stack,
            final(self).ram == old(self).ram,
            final(self).display == old(self).display,
    {
        match reg {
            Register::Vx(num) => self.reg.Vx[*num as usize] = val,
        }
    }
}

/// The opcode word two consecutive memory bytes at PC spell, high byte
/// first.
pub open spec fn spec_fetch(pre: CHIP8) -> u16 {
    (pre.ram@[pre.reg.PC as int] * 256 + pre.ram@[pre.reg.PC + 1]) as u16
}

/// Which instructions set the program counter themselves instead of letting
/// the fetch loop advance it — a hard exception list.
pub open spec fn spec_sets_pc(instr: Instruction) -> bool {
    match instr {
        Instruction::JP(_) => true,
        Instruction::JP_V0(_) => true,
        Instruction::CALL(_) => true,
        _ => false,
    }
}

/// The skip family: the instructions that may advance PC one extra slot.
pub open spec fn spec_is_skip(instr: Instruction) -> bool {
    match instr {
        Instruction::SE(_, _) => true,
        Instruction::SNE(_, _) => true,
        Instruction::SKP(_) => true,
        Instruction::SKNP(_) => true,
        _ => false,
    }
}

/// How one fetch-decode-execute cycle relates machine states: halt when a
/// whole opcode no longer fits below the end of memory; otherwise fetch,
/// decode (an unrecognized word is fatal), reject an instruction that would
/// leave memory or a register's range, and run it with the loop's advance
/// of 2. A fatal cycle leaves the machine exactly as it was.
pub open spec fn step_rel(
    pre: CHIP8,
    post: CHIP8,
    keys: Seq<bool>,
    r: Result<StepOutcome, Chip8Error>,
) -> bool {
    if pre.reg.PC + 2 > 0xFFF {
        r == Ok::<StepOutcome, Chip8Error>(StepOutcome::Halted) && machine_same(pre, post)
    } else {
        let op = spec_fetch(pre);
        match spec_decode(op) {
            None => r == Err::<StepOutcome, Chip8Error>(Chip8Error::DecodeError(op))
                && machine_same(pre, post),
            Some(instr) => if !spec_instr_safe(pre, instr) {
                r == Err::<StepOutcome, Chip8Error>(Chip8Error::MemoryOutOfRange) && machine_same(
                    pre,
                    post,
                )
            } else {
                exec_rel(pre, post, instr, keys, r, 2)
            },
        }
    }
}

/// Everything the decoder produces is well-formed: register indexes are
/// nibbles, so they stay below 16, and a sprite height stays below 16.
pub proof fn lemma_decode_wf(op: u16)
    ensures
        spec_decode(op) matches Some(instr) ==> spec_instr_wf(instr),
{
    vstd::arithmetic::div_mod::lemma_mod_bound((op / 0x100) as int, 0x10);
    vstd::arithmetic::div_mod::lemma_mod_bound((op / 0x10) as int, 0x10);
    vstd::arithmetic::div_mod::lemma_mod_bound(op as int, 0x10);
}

/// PC discipline: over a full cycle, every instruction that does not set PC
/// itself (JP, JP_V0, CALL), does not return, and does not skip leaves the
/// program counter advanced by exactly 2.
pub proof fn lemma_pc_discipline(
    pre: CHIP8,
    post: CHIP8,
    instr: Instruction,
    keys: Seq<bool>,
    out: StepOutcome,
)
    requires
        exec_rel(pre, post, instr, keys, Ok(out), 2),
        !spec_sets_pc(instr),
        !(instr is RET),
        !spec_is_skip(instr),
    ensures
        post.reg.PC == pre.reg.PC + 2,
{
}

/// PC discipline for the skip family: the program counter advances by 2,
/// or by 4 exactly when the skip is taken.
pub proof fn lemma_skip_pc(
    pre: CHIP8,
    post: CHIP8,
    instr: Instruction,
    keys: Seq<bool>,
    out: StepOutcome,
)
    requires
        exec_rel(pre, post, instr, keys, Ok(out), 2),
        spec_is_skip(instr),
    ensures
        post.reg.PC == pre.reg.PC + 2 || post.reg.PC == pre.reg.PC + 4,
{
}

/// PC discipline for RET: the program counter resumes 2 past the saved
/// return address, so a CALL/RET pair lands just after the CALL.
pub proof fn lemma_ret_pc(pre: CHIP8, post: CHIP8, keys: Seq<bool>, out: StepOutcome)
    requires
        exec_rel(pre, post, Instruction::RET, keys, Ok(out), 2),
    ensures
        pre.stack@.len() > 0,
        post.reg.PC == pre.stack@.last() + 2,
{
}

/// Stack discipline for CALL: it succeeds exactly while fewer than 16
/// return addresses are saved — so 16 nested calls go through and the
/// seventeenth is fatal — and each success pushes the caller's PC and
/// deepens the stack by one; an overflowing call changes nothing.
pub proof fn lemma_call_stack_discipline(
    pre: CHIP8,
    post: CHIP8,
    keys: Seq<bool>,
    r: Result<StepOutcome, Chip8Error>,
    addr: u16,
    adv: int,
)
    requires
        exec_rel(pre, post, Instruction::CALL(addr), keys, r, adv),
    ensures
        r is Ok <==> pre.stack@.len() < 16,
        pre.stack@.len() < 16 ==> post.stack@ == pre.stack@.push(pre.reg.PC as u16)
            && post.stack@.len() == pre.stack@.len() + 1 && post.reg.PC == addr,
        pre.stack@.len() >= 16 ==> r == Err::<StepOutcome, Chip8Error>(Chip8Error::StackOverflow)
            && machine_same(pre, post),
{
}

/// Stack discipline for RET: it succeeds exactly when a return address is
/// saved, popping it; on an empty stack it is fatal and changes nothing.
pub proof fn lemma_ret_stack_discipline(
    pre: CHIP8,
    post: CHIP8,
    keys: Seq<bool>,
    r: Result<StepOutcome, Chip8Error>,
    adv: int,
)
    requires
        exec_rel(pre, post, Instruction::RET, keys, r, adv),
    ensures
        r is Ok <==> pre.stack@.len() > 0,
        pre.stack@.len() == 0 ==> r == Err::<StepOutcome, Chip8Error>(Chip8Error::StackUnderflow)
            && machine_same(pre, post),
        pre.stack@.len() > 0 ==> post.stack@ == pre.stack@.drop_last() && post.reg.PC
            == pre.stack@.last() + adv,
{
}

} // verus!
