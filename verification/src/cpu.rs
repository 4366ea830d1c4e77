use vstd::prelude::*;

use rand::Rng;

use crate::display::{pixel_index, Display};
use crate::keyboard::{KeyBoardEvent, Keyboard};
use crate::memory::{Memory, CAPACITY};
use crate::Fault;
use vstd::arithmetic::div_mod::{
    lemma_fundamental_div_mod, lemma_mod_bound, lemma_mod_multiples_vanish, lemma_small_mod,
};

verus! {

/// A decoded instruction: a tagged variant carrying register indexes,
/// an 8-bit immediate, a 12-bit address or a 4-bit count.
#[allow(non_camel_case_types)]
#[derive(Debug, PartialEq, Eq, Structural, Clone, Copy)]
pub enum OpCode {
    NONE,
    HALT,
    ROUTINE(u16),
    CLEAR,
    RETURN,
    GOTO(u16),
    CALL(u16),
    EQ(u8, u8),
    NEQ(u8, u8),
    EQ_REG(u8, u8),
    SET_CONST(u8, u8),
    ADD_CONST(u8, u8),
    OR(u8, u8),
    AND(u8, u8),
    XOR(u8, u8),
    SET_REG(u8, u8),
    ADD_REG(u8, u8),
    SUB_REG(u8, u8),
    BSHIFT_RGHT(u8, u8),
    BSHIFT_LEFT(u8, u8),
    SUBTRACT(u8, u8),
    NEQ_REG(u8, u8),
    SETI(u16),
    JUMP(u16),
    RAND(u8, u8),
    DRAW(u8, u8, u8),
    KEY_P(u8),
    KEY_NP(u8),
    GET_DELAY(u8),
    GET_KEY(u8),
    SET_DELAY(u8),
    SET_SOUND(u8),
    ADDI(u8),
    SPRI(u8),
    BCP(u8),
    DUMP(u8),
    LOAD(u8),
}

/// How a cycle ended when no fault struck: an ordinary step, the deliberate
/// all-zero stop marker, or a key wait that found no key yet and left the
/// program counter in place so the run loop can poll and come back.
#[derive(Debug, PartialEq, Eq, Structural, Clone, Copy)]
pub enum Outcome {
    Normal,
    Halted,
    WaitKey,
}

/// Second nibble of an instruction word: a register index.
pub open spec fn op_x(w: u16) -> u8 {
    ((w >> 8) & 0xF) as u8
}

/// Third nibble of an instruction word: a register index.
pub open spec fn op_y(w: u16) -> u8 {
    ((w >> 4) & 0xF) as u8
}

/// Last nibble of an instruction word: a 4-bit count.
pub open spec fn op_n(w: u16) -> u8 {
    (w & 0xF) as u8
}

/// Last two nibbles of an instruction word: an 8-bit immediate.
pub open spec fn op_nn(w: u16) -> u8 {
    (w & 0xFF) as u8
}

/// Last three nibbles of an instruction word: a 12-bit address.
pub open spec fn op_nnn(w: u16) -> u16 {
    w & 0xFFF
}

/// The decode table: a fixed priority match on the first nibble, then on
/// the remaining nibbles for the families that need them. Total: every
/// unmatched word is the no-op variant.
pub open spec fn spec_decode(w: u16) -> OpCode {
    if w == 0x0000 {
        OpCode::HALT
    } else if w == 0x00E0 {
        OpCode::CLEAR
    } else if w == 0x00EE {
        OpCode::RETURN
    } else {
        let hi = (w >> 12) & 0xF;
        if hi == 0x0 {
            OpCode::ROUTINE(op_nnn(w))
        } else if hi == 0x1 {
            OpCode::GOTO(op_nnn(w))
        } else if hi == 0x2 {
            OpCode::CALL(op_nnn(w))
        } else if hi == 0x3 {
            OpCode::EQ(op_x(w), op_nn(w))
        } else if hi == 0x4 {
            OpCode::NEQ(op_x(w), op_nn(w))
        } else if hi == 0x5 {
            if op_n(w) == 0 {
                OpCode::EQ_REG(op_x(w), op_y(w))
            } else {
                OpCode::NONE
            }
        } else if hi == 0x6 {
            OpCode::SET_CONST(op_x(w), op_nn(w))
        } else if hi == 0x7 {
            OpCode::ADD_CONST(op_x(w), op_nn(w))
        } else if hi == 0x8 {
            let lo = op_n(w);
            if lo == 0x0 {
                OpCode::SET_REG(op_x(w), op_y(w))
            } else if lo == 0x1 {
                OpCode::OR(op_x(w), op_y(w))
            } else if lo == 0x2 {
                OpCode::AND(op_x(w), op_y(w))
            } else if lo == 0x3 {
                OpCode::XOR(op_x(w), op_y(w))
            } else if lo == 0x4 {
                OpCode::ADD_REG(op_x(w), op_y(w))
            } else if lo == 0x5 {
                OpCode::SUB_REG(op_x(w), op_y(w))
            } else if lo == 0x6 {
                OpCode::BSHIFT_RGHT(op_x(w), op_y(w))
            } else if lo == 0x7 {
                OpCode::SUBTRACT(op_x(w), op_y(w))
            } else if lo == 0xE {
                OpCode::BSHIFT_LEFT(op_x(w), op_y(w))
            } else {
                OpCode::NONE
            }
        } else if hi == 0x9 {
            if op_n(w) == 0 {
                OpCode::NEQ_REG(op_x(w), op_y(w))
            } else {
                OpCode::NONE
            }
        } else if hi == 0xA {
            OpCode::SETI(op_nnn(w))
        } else if hi == 0xB {
            OpCode::JUMP(op_nnn(w))
        } else if hi == 0xC {
            OpCode::RAND(op_x(w), op_nn(w))
        } else if hi == 0xD {
            OpCode::DRAW(op_x(w), op_y(w), op_n(w))
        } else if hi == 0xE {
            if op_nn(w) == 0x9E {
                OpCode::KEY_P(op_x(w))
            } else if op_nn(w) == 0xA1 {
                OpCode::KEY_NP(op_x(w))
            } else {
                OpCode::NONE
            }
        } else {
            let lo = op_nn(w);
            if lo == 0x07 {
                OpCode::GET_DELAY(op_x(w))
            } else if lo == 0x0A {
                OpCode::GET_KEY(op_x(w))
            } else if lo == 0x15 {
                OpCode::SET_DELAY(op_x(w))
            } else if lo == 0x18 {
                OpCode::SET_SOUND(op_x(w))
            } else if lo == 0x1E {
                OpCode::ADDI(op_x(w))
            } else if lo == 0x29 {
                OpCode::SPRI(op_x(w))
            } else if lo == 0x33 {
                OpCode::BCP(op_x(w))
            } else if lo == 0x55 {
                OpCode::DUMP(op_x(w))
            } else if lo == 0x65 {
                OpCode::LOAD(op_x(w))
            } else {
                OpCode::NONE
            }
        }
    }
}

/// Every operand carried by the variant is in its range: register indexes
/// and counts below 16, addresses below 0x1000.
pub open spec fn op_wf(op: OpCode) -> bool {
    match op {
        OpCode::NONE | OpCode::HALT | OpCode::CLEAR | OpCode::RETURN => true,
        OpCode::ROUTINE(a) | OpCode::GOTO(a) | OpCode::CALL(a) | OpCode::SETI(a)
            | OpCode::JUMP(a) => a < 0x1000,
        OpCode::EQ(x, _) | OpCode::NEQ(x, _) | OpCode::SET_CONST(x, _) | OpCode::ADD_CONST(x, _)
            | OpCode::RAND(x, _) => x < 16,
        OpCode::EQ_REG(x, y) | OpCode::NEQ_REG(x, y) | OpCode::OR(x, y) | OpCode::AND(x, y)
            | OpCode::XOR(x, y) | OpCode::SET_REG(x, y) | OpCode::ADD_REG(x, y)
            | OpCode::SUB_REG(x, y) | OpCode::BSHIFT_RGHT(x, y) | OpCode::BSHIFT_LEFT(x, y)
            | OpCode::SUBTRACT(x, y) => x < 16 && y < 16,
        OpCode::DRAW(x, y, n) => x < 16 && y < 16 && n < 16,
        OpCode::KEY_P(x) | OpCode::KEY_NP(x) | OpCode::GET_DELAY(x) | OpCode::GET_KEY(x)
            | OpCode::SET_DELAY(x) | OpCode::SET_SOUND(x) | OpCode::ADDI(x) | OpCode::SPRI(x)
            | OpCode::BCP(x) | OpCode::DUMP(x) | OpCode::LOAD(x) => x < 16,
    }
}

/// The nibble fields of a word stay in their ranges.
pub proof fn lemma_operand_bounds(w: u16)
    ensures
        op_x(w) < 16,
        op_y(w) < 16,
        op_n(w) < 16,
        op_nnn(w) < 0x1000,
    {
    assert(((w >> 8) & 0xF) < 16) by (bit_vector);
    assert(((w >> 4) & 0xF) < 16) by (bit_vector);
    assert((w & 0xF) < 16) by (bit_vector);
    assert((w & 0xFFF) < 0x1000) by (bit_vector);
}

/// Whatever the word, decoding yields a variant whose operands are in
/// range: the decoder is total and never produces an index a register file
/// or memory access could trip over.
pub proof fn lemma_decode_wf(w: u16)
    ensures
        op_wf(spec_decode(w)),
{
    lemma_operand_bounds(w);
}

/// The 16-bit instruction word held at `pc`, big-endian.
pub open spec fn word_at(mem: Seq<u8>, pc: int) -> u16 {
    ((mem[pc] as u16) << 8) | (mem[pc + 1] as u16)
}

/// Eight-bit wrapping sum.
pub open spec fn wrap_add(a: u8, b: u8) -> u8 {
    ((a + b) % 256) as u8
}

/// Eight-bit wrapping difference.
pub open spec fn wrap_sub(a: u8, b: u8) -> u8 {
    (((a + 256) - b) % 256) as u8
}

/// Sixteen-bit wrapping sum.
pub open spec fn wrap_add16(a: u16, b: u16) -> u16 {
    ((a + b) % 0x10000) as u16
}

/// Bit `col` of a sprite row byte, most significant bit first.
pub open spec fn sprite_bit(row_byte: u8, col: int) -> bool {
    (row_byte >> ((7 - col) as u8)) & 1 == 1
}

/// The framebuffer cell that bit column `col` of sprite row `row` lands on
/// when the sprite's corner is at (`rx`, `ry`): coordinates wrap.
pub open spec fn draw_target(rx: u8, ry: u8, row: int, col: int) -> int {
    pixel_index((rx + col) % 64, (ry + row) % 32)
}

/// `p` is one of the cells an `n`-row sprite at corner (`rx`, `ry`) lands on.
pub open spec fn is_draw_target(rx: u8, ry: u8, n: int, p: int) -> bool {
    exists|row: int, col: int|
        0 <= row < n && 0 <= col < 8 && p == draw_target(rx, ry, row, col)
}

/// `post` is `pre` with the `n`-row sprite held at `mem[i..]` XOR-plotted
/// at corner (`rx`, `ry`): each targeted cell is toggled by its sprite
/// bit, every other cell is untouched.
pub open spec fn draw_applied(
    pre: Seq<bool>,
    post: Seq<bool>,
    mem: Seq<u8>,
    i: int,
    rx: u8,
    ry: u8,
    n: int,
) -> bool {
    &&& post.len() == pre.len()
    &&& forall|row: int, col: int|
        0 <= row < n && 0 <= col < 8
            ==> post[#[trigger] draw_target(rx, ry, row, col)] == (pre[draw_target(
            rx,
            ry,
            row,
            col,
        )] ^ sprite_bit(mem[i + row], col))
    &&& forall|p: int|
        0 <= p < pre.len() && !is_draw_target(rx, ry, n, p) ==> post[p] == pre[p]
}

/// Some cell the sprite lands on is already on: the collision that the
/// flag register reports.
pub open spec fn draw_collision(pre: Seq<bool>, rx: u8, ry: u8, n: int) -> bool {
    exists|row: int, col: int|
        0 <= row < n && 0 <= col < 8 && pre[#[trigger] draw_target(rx, ry, row, col)]
}

/// The call stack, stack pointer, index register and timers are as they were.
pub open spec fn same_ctrl(pre: CPU, post: CPU) -> bool {
    &&& post.i == pre.i
    &&& post.sp == pre.sp
    &&& post.stack@ == pre.stack@
    &&& post.delay == pre.delay
    &&& post.sound == pre.sound
}

/// An instruction that touches at most the register file and the program
/// counter: registers become `regs`, the counter becomes `pc`, and memory,
/// framebuffer and control state stay put.
pub open spec fn regs_step(
    pre: CPU,
    post: CPU,
    m0: Seq<u8>,
    m1: Seq<u8>,
    d0: Seq<bool>,
    d1: Seq<bool>,
    regs: Seq<u8>,
    pc: int,
) -> bool {
    &&& same_ctrl(pre, post)
    &&& post.registers@ == regs
    &&& post.pc == pc
    &&& m1 == m0
    &&& d1 == d0
}

/// Nothing observable moved: registers, counter, control state, memory
/// and framebuffer are as they were.
pub open spec fn unchanged_state(
    pre: CPU,
    post: CPU,
    m0: Seq<u8>,
    m1: Seq<u8>,
    d0: Seq<bool>,
    d1: Seq<bool>,
) -> bool {
    regs_step(pre, post, m0, m1, d0, d1, pre.registers@, pre.pc as int)
}

/// The execute semantics of one decoded instruction: relates the machine
/// before the step (`pre`, memory `m0`, framebuffer `d0`, tracked key
/// `key`) to the machine after it (`post`, `m1`, `d1`) and to the returned
/// outcome `r`. The diagnostic fetch record is not constrained here.
pub open spec fn instruction_step(
    op: OpCode,
    pre: CPU,
    m0: Seq<u8>,
    d0: Seq<bool>,
    key: Option<KeyBoardEvent>,
    post: CPU,
    m1: Seq<u8>,
    d1: Seq<bool>,
    r: Result<Outcome, Fault>,
) -> bool {
    let regs = pre.registers@;
    match op {
        OpCode::NONE => {
            &&& r == Ok::<Outcome, Fault>(Outcome::Normal)
            &&& regs_step(pre, post, m0, m1, d0, d1, regs, pre.pc + 2)
        },
        OpCode::HALT => {
            &&& r == Ok::<Outcome, Fault>(Outcome::Halted)
            &&& regs_step(pre, post, m0, m1, d0, d1, regs, pre.pc + 2)
        },
        OpCode::ROUTINE(_) => {
            &&& r == Ok::<Outcome, Fault>(Outcome::Normal)
            &&& regs_step(pre, post, m0, m1, d0, d1, regs, pre.pc + 2)
        },
        OpCode::CLEAR => {
            &&& r == Ok::<Outcome, Fault>(Outcome::Normal)
            &&& same_ctrl(pre, post)
            &&& post.registers@ == regs
            &&& post.pc == pre.pc + 2
            &&& m1 == m0
            &&& d1.len() == d0.len()
            &&& forall|p: int| 0 <= p < d1.len() ==> !d1[p]
        },
        OpCode::CALL(addr) => {
            if pre.sp < 12 {
                &&& r == Ok::<Outcome, Fault>(Outcome::Normal)
                &&& post.registers@ == regs
                &&& post.i == pre.i
                &&& post.delay == pre.delay
                &&& post.sound == pre.sound
                &&& post.stack@ == pre.stack@.update(pre.sp as int, pre.pc)
                &&& post.sp == pre.sp + 1
                &&& post.pc == addr
                &&& m1 == m0
                &&& d1 == d0
            } else {
                &&& r == Err::<Outcome, Fault>(Fault::StackOverflow)
                &&& unchanged_state(pre, post, m0, m1, d0, d1)
            }
        },
        OpCode::RETURN => {
            if pre.sp > 0 {
                &&& r == Ok::<Outcome, Fault>(Outcome::Normal)
                &&& post.registers@ == regs
                &&& post.i == pre.i
                &&& post.delay == pre.delay
                &&& post.sound == pre.sound
                &&& post.stack@ == pre.stack@
                &&& post.sp == pre.sp - 1
                &&& post.pc == pre.stack@[pre.sp - 1] + 2
                &&& m1 == m0
                &&& d1 == d0
            } else {
                &&& r == Err::<Outcome, Fault>(Fault::StackUnderflow)
                &&& unchanged_state(pre, post, m0, m1, d0, d1)
            }
        },
        OpCode::GOTO(addr) => {
            &&& r == Ok::<Outcome, Fault>(Outcome::Normal)
            &&& regs_step(pre, post, m0, m1, d0, d1, regs, addr as int)
        },
        OpCode::JUMP(addr) => {
            &&& r == Ok::<Outcome, Fault>(Outcome::Normal)
            &&& regs_step(pre, post, m0, m1, d0, d1, regs, regs[0] + addr)
        },
        OpCode::EQ(x, nn) => {
            &&& r == Ok::<Outcome, Fault>(Outcome::Normal)
            &&& regs_step(
                pre, post, m0, m1, d0, d1, regs,
                pre.pc + if regs[x as int] == nn { 4int } else { 2int },
            )
        },
        OpCode::NEQ(x, nn) => {
            &&& r == Ok::<Outcome, Fault>(Outcome::Normal)
            &&& regs_step(
                pre, post, m0, m1, d0, d1, regs,
                pre.pc + if regs[x as int] != nn { 4int } else { 2int },
            )
        },
        OpCode::EQ_REG(x, y) => {
            &&& r == Ok::<Outcome, Fault>(Outcome::Normal)
            &&& regs_step(
                pre, post, m0, m1, d0, d1, regs,
                pre.pc + if regs[x as int] == regs[y as int] { 4int } else { 2int },
            )
        },
        OpCode::NEQ_REG(x, y) => {
            &&& r == Ok::<Outcome, Fault>(Outcome::Normal)
            &&& regs_step(
                pre, post, m0, m1, d0, d1, regs,
                pre.pc + if regs[x as int] != regs[y as int] { 4int } else { 2int },
            )
        },
        OpCode::SET_CONST(x, nn) => {
            &&& r == Ok::<Outcome, Fault>(Outcome::Normal)
            &&& regs_step(pre, post, m0, m1, d0, d1, regs.update(x as int, nn), pre.pc + 2)
        },
        OpCode::ADD_CONST(x, nn) => {
            &&& r == Ok::<Outcome, Fault>(Outcome::Normal)
            &&& regs_step(
                pre, post, m0, m1, d0, d1,
                regs.update(x as int, wrap_add(regs[x as int], nn)), pre.pc + 2,
            )
        },
        OpCode::OR(x, y) => {
            &&& r == Ok::<Outcome, Fault>(Outcome::Normal)
            &&& regs_step(
                pre, post, m0, m1, d0, d1,
                regs.update(x as int, regs[x as int] | regs[y as int]), pre.pc + 2,
            )
        },
        OpCode::AND(x, y) => {
            &&& r == Ok::<Outcome, Fault>(Outcome::Normal)
            &&& regs_step(
                pre, post, m0, m1, d0, d1,
                regs.update(x as int, regs[x as int] & regs[y as int]), pre.pc + 2,
            )
        },
        OpCode::XOR(x, y) => {
            &&& r == Ok::<Outcome, Fault>(Outcome::Normal)
            &&& regs_step(
                pre, post, m0, m1, d0, d1,
                regs.update(x as int, regs[x as int] ^ regs[y as int]), pre.pc + 2,
            )
        },
        OpCode::SET_REG(x, y) => {
            &&& r == Ok::<Outcome, Fault>(Outcome::Normal)
            &&& regs_step(
                pre, post, m0, m1, d0, d1, regs.update(x as int, regs[y as int]), pre.pc + 2,
            )
        },
        OpCode::ADD_REG(x, y) => {
            &&& r == Ok::<Outcome, Fault>(Outcome::Normal)
            &&& regs_step(
                pre, post, m0, m1, d0, d1,
                regs.update(x as int, wrap_add(regs[x as int], regs[y as int])), pre.pc + 2,
            )
        },
        OpCode::SUB_REG(x, y) => {
            &&& r == Ok::<Outcome, Fault>(Outcome::Normal)
            &&& regs_step(
                pre, post, m0, m1, d0, d1,
                regs.update(x as int, wrap_sub(regs[x as int], regs[y as int])), pre.pc + 2,
            )
        },
        OpCode::SUBTRACT(x, y) => {
            &&& r == Ok::<Outcome, Fault>(Outcome::Normal)
            &&& regs_step(
                pre, post, m0, m1, d0, d1,
                regs.update(x as int, wrap_sub(regs[y as int], regs[x as int])), pre.pc + 2,
            )
        },
        OpCode::BSHIFT_RGHT(x, _y) => {
            let flagged = regs.update(15, regs[x as int] >> 7);
            &&& r == Ok::<Outcome, Fault>(Outcome::Normal)
            &&& regs_step(
                pre, post, m0, m1, d0, d1,
                flagged.update(x as int, flagged[x as int] >> 1), pre.pc + 2,
            )
        },
        OpCode::BSHIFT_LEFT(x, _y) => {
            let flagged = regs.update(15, regs[x as int] & 1);
            &&& r == Ok::<Outcome, Fault>(Outcome::Normal)
            &&& regs_step(
                pre, post, m0, m1, d0, d1,
                flagged.update(x as int, flagged[x as int] << 1), pre.pc + 2,
            )
        },
        OpCode::SETI(addr) => {
            &&& r == Ok::<Outcome, Fault>(Outcome::Normal)
            &&& post.registers@ == regs
            &&& post.i == addr
            &&& post.sp == pre.sp
            &&& post.stack@ == pre.stack@
            &&& post.delay == pre.delay
            &&& post.sound == pre.sound
            &&& post.pc == pre.pc + 2
            &&& m1 == m0
            &&& d1 == d0
        },
        OpCode::RAND(x, nn) => {
            &&& r == Ok::<Outcome, Fault>(Outcome::Normal)
            &&& same_ctrl(pre, post)
            &&& (exists|b: u8| post.registers@ == regs.update(x as int, #[trigger] (b & nn)))
            &&& post.pc == pre.pc + 2
            &&& m1 == m0
            &&& d1 == d0
        },
        OpCode::DRAW(x, y, n) => {
            let rx = regs[x as int];
            let ry = regs[y as int];
            if n > 0 && pre.i + n > CAPACITY {
                &&& r == Err::<Outcome, Fault>(Fault::AddressFault)
                &&& unchanged_state(pre, post, m0, m1, d0, d1)
            } else {
                &&& r == Ok::<Outcome, Fault>(Outcome::Normal)
                &&& same_ctrl(pre, post)
                &&& post.registers@ == if draw_collision(d0, rx, ry, n as int) {
                    regs.update(15, 1u8)
                } else {
                    regs
                }
                &&& post.pc == pre.pc + 2
                &&& m1 == m0
                &&& draw_applied(d0, d1, m0, pre.i as int, rx, ry, n as int)
            }
        },
        OpCode::KEY_P(x) => {
            &&& r == Ok::<Outcome, Fault>(Outcome::Normal)
            &&& regs_step(
                pre, post, m0, m1, d0, d1, regs,
                pre.pc + if key == Some(KeyBoardEvent::KeyPressed(regs[x as int])) {
                    4int
                } else {
                    2int
                },
            )
        },
        OpCode::KEY_NP(x) => {
            &&& r == Ok::<Outcome, Fault>(Outcome::Normal)
            &&& regs_step(
                pre, post, m0, m1, d0, d1, regs,
                pre.pc + if key != Some(KeyBoardEvent::KeyPressed(regs[x as int])) {
                    4int
                } else {
                    2int
                },
            )
        },
        OpCode::GET_KEY(x) => {
            match key {
                Some(KeyBoardEvent::KeyPressed(k)) => {
                    &&& r == Ok::<Outcome, Fault>(Outcome::Normal)
                    &&& regs_step(
                        pre, post, m0, m1, d0, d1, regs.update(x as int, k), pre.pc + 2,
                    )
                },
                _ => {
                    &&& r == Ok::<Outcome, Fault>(Outcome::WaitKey)
                    &&& unchanged_state(pre, post, m0, m1, d0, d1)
                },
            }
        },
        OpCode::GET_DELAY(x) => {
            &&& r == Ok::<Outcome, Fault>(Outcome::Normal)
            &&& regs_step(
                pre, post, m0, m1, d0, d1, regs.update(x as int, pre.delay), pre.pc + 2,
            )
        },
        OpCode::SET_DELAY(x) => {
            &&& r == Ok::<Outcome, Fault>(Outcome::Normal)
            &&& post.registers@ == regs
            &&& post.i == pre.i
            &&& post.sp == pre.sp
            &&& post.stack@ == pre.stack@
            &&& post.delay == regs[x as int]
            &&& post.sound == pre.sound
            &&& post.pc == pre.pc + 2
            &&& m1 == m0
            &&& d1 == d0
        },
        OpCode::SET_SOUND(x) => {
            &&& r == Ok::<Outcome, Fault>(Outcome::Normal)
            &&& post.registers@ == regs
            &&& post.i == pre.i
            &&& post.sp == pre.sp
            &&& post.stack@ == pre.stack@
            &&& post.delay == pre.delay
            &&& post.sound == regs[x as int]
            &&& post.pc == pre.pc + 2
            &&& m1 == m0
            &&& d1 == d0
        },
        OpCode::ADDI(x) => {
            &&& r == Ok::<Outcome, Fault>(Outcome::Normal)
            &&& post.registers@ == regs
            &&& post.i == wrap_add16(pre.i, regs[x as int] as u16)
            &&& post.sp == pre.sp
            &&& post.stack@ == pre.stack@
            &&& post.delay == pre.delay
            &&& post.sound == pre.sound
            &&& post.pc == pre.pc + 2
            &&& m1 == m0
            &&& d1 == d0
        },
        OpCode::SPRI(x) => {
            &&& r == Ok::<Outcome, Fault>(Outcome::Normal)
            &&& post.registers@ == regs
            &&& post.i == regs[x as int] * 5
            &&& post.sp == pre.sp
            &&& post.stack@ == pre.stack@
            &&& post.delay == pre.delay
            &&& post.sound == pre.sound
            &&& post.pc == pre.pc + 2
            &&& m1 == m0
            &&& d1 == d0
        },
        OpCode::BCP(x) => {
            if pre.i + 3 > CAPACITY {
                &&& r == Err::<Outcome, Fault>(Fault::AddressFault)
                &&& unchanged_state(pre, post, m0, m1, d0, d1)
            } else {
                &&& r == Ok::<Outcome, Fault>(Outcome::Normal)
                &&& same_ctrl(pre, post)
                &&& post.registers@ == regs
                &&& post.pc == pre.pc + 2
                &&& m1 == m0.update(pre.i as int, (regs[x as int] / 100) as u8).update(
                    pre.i + 1,
                    ((regs[x as int] % 100) / 10) as u8,
                ).update(pre.i + 2, (regs[x as int] % 10) as u8)
                &&& d1 == d0
            }
        },
        OpCode::DUMP(x) => {
            if x > 0 && pre.i + x > CAPACITY {
                &&& r == Err::<Outcome, Fault>(Fault::AddressFault)
                &&& unchanged_state(pre, post, m0, m1, d0, d1)
            } else {
                &&& r == Ok::<Outcome, Fault>(Outcome::Normal)
                &&& same_ctrl(pre, post)
                &&& post.registers@ == regs
                &&& post.pc == pre.pc + 2
                &&& m1.len() == m0.len()
                &&& forall|k: int| 0 <= k < x ==> m1[pre.i + k] == regs[k]
                &&& forall|p: int|
                    0 <= p < m0.len() && !(pre.i <= p < pre.i + x) ==> m1[p] == m0[p]
                &&& d1 == d0
            }
        },
        OpCode::LOAD(x) => {
            if x > 0 && pre.i + x > CAPACITY {
                &&& r == Err::<Outcome, Fault>(Fault::AddressFault)
                &&& unchanged_state(pre, post, m0, m1, d0, d1)
            } else {
                &&& r == Ok::<Outcome, Fault>(Outcome::Normal)
                &&& same_ctrl(pre, post)
                &&& post.registers@.len() == 16
                &&& forall|k: int| 0 <= k < x ==> post.registers@[k] == m0[pre.i + k]
                &&& forall|k: int| x <= k < 16 ==> post.registers@[k] == regs[k]
                &&& post.pc == pre.pc + 2
                &&& m1 == m0
                &&& d1 == d0
            }
        },
    }
}

/// The (row, col) pairs a row-major draw loop has already plotted when it
/// stands at sprite row `row`, bit column `col`.
spec fn in_sprite_prefix(row: int, col: int, r2: int, c2: int) -> bool {
    (0 <= r2 < row && 0 <= c2 < 8) || (r2 == row && 0 <= c2 < col)
}

/// `p` is a cell the draw loop has already plotted.
spec fn is_prefix_target(rx: u8, ry: u8, row: int, col: int, p: int) -> bool {
    exists|r2: int, c2: int|
        in_sprite_prefix(row, col, r2, c2) && p == #[trigger] draw_target(rx, ry, r2, c2)
}

/// The cells plotted so far are toggled by their sprite bits; the rest
/// are untouched.
spec fn draw_applied_prefix(
    pre: Seq<bool>,
    post: Seq<bool>,
    mem: Seq<u8>,
    i: int,
    rx: u8,
    ry: u8,
    row: int,
    col: int,
) -> bool {
    &&& post.len() == pre.len()
    &&& forall|r2: int, c2: int|
        in_sprite_prefix(row, col, r2, c2)
            ==> post[#[trigger] draw_target(rx, ry, r2, c2)] == (pre[draw_target(rx, ry, r2, c2)]
            ^ sprite_bit(mem[i + r2], c2))
    &&& forall|p: int|
        0 <= p < pre.len() && !is_prefix_target(rx, ry, row, col, p) ==> post[p] == pre[p]
}

/// Some cell plotted so far was already on.
spec fn prefix_collision(pre: Seq<bool>, rx: u8, ry: u8, row: int, col: int) -> bool {
    exists|r2: int, c2: int|
        in_sprite_prefix(row, col, r2, c2) && pre[#[trigger] draw_target(rx, ry, r2, c2)]
}

/// Two different (row, column) pairs of one sprite land on two different
/// cells: eight consecutive wrapped columns and at most thirty-two
/// consecutive wrapped rows never fold onto each other.
pub proof fn lemma_draw_target_distinct(rx: u8, ry: u8, r1: int, c1: int, r2: int, c2: int)
    requires
        0 <= r1 < 32,
        0 <= c1 < 8,
        0 <= r2 < 32,
        0 <= c2 < 8,
        !(r1 == r2 && c1 == c2),
    ensures
        draw_target(rx, ry, r1, c1) != draw_target(rx, ry, r2, c2),
{
    let a1 = (rx + c1) % 64;
    let b1 = (ry + r1) % 32;
    let a2 = (rx + c2) % 64;
    let b2 = (ry + r2) % 32;
    lemma_mod_bound(rx + c1, 64);
    lemma_mod_bound(rx + c2, 64);
    lemma_mod_bound(ry + r1, 32);
    lemma_mod_bound(ry + r2, 32);
    if draw_target(rx, ry, r1, c1) == draw_target(rx, ry, r2, c2) {
        assert(b1 * 64 + a1 == b2 * 64 + a2);
        assert(b1 == b2 && a1 == a2);
        lemma_fundamental_div_mod(rx + c1, 64);
        lemma_fundamental_div_mod(rx + c2, 64);
        assert(c1 - c2 == 64 * ((rx + c1) / 64) - 64 * ((rx + c2) / 64));
        assert(c1 == c2);
        lemma_fundamental_div_mod(ry + r1, 32);
        lemma_fundamental_div_mod(ry + r2, 32);
        assert(r1 - r2 == 32 * ((ry + r1) / 32) - 32 * ((ry + r2) / 32));
        assert(r1 == r2);
    }
}

/// Drawing one sprite twice at one spot undoes itself: the second pass
/// toggles every affected cell back, so the framebuffer returns to where
/// it started; and the second pass reports a collision whenever some cell
/// the sprite lands on was left on by the first pass.
pub proof fn lemma_draw_twice_restores(
    d0: Seq<bool>,
    d1: Seq<bool>,
    d2: Seq<bool>,
    mem: Seq<u8>,
    i: int,
    rx: u8,
    ry: u8,
    n: int,
)
    requires
        0 <= n < 16,
        draw_applied(d0, d1, mem, i, rx, ry, n),
        draw_applied(d1, d2, mem, i, rx, ry, n),
    ensures
        d2 == d0,
        (exists|row: int, col: int|
            0 <= row < n && 0 <= col < 8 && d1[#[trigger] draw_target(rx, ry, row, col)])
            ==> draw_collision(d1, rx, ry, n),
{
    assert forall|p: int| 0 <= p < d0.len() implies d2[p] == d0[p] by {
        if is_draw_target(rx, ry, n, p) {
            let (row, col) = choose|row: int, col: int|
                0 <= row < n && 0 <= col < 8 && p == draw_target(rx, ry, row, col);
            assert(d1[p] == (d0[p] ^ sprite_bit(mem[i + row], col)));
            assert(d2[p] == (d1[p] ^ sprite_bit(mem[i + row], col)));
        }
    }
    assert(d2 =~= d0);
}

/// A sprite drawn with its x-coordinate at the last column keeps plotting
/// from column 0: bit column `col` of every row lands on screen column
/// `col - 1`.
pub proof fn lemma_draw_wraps_x(
    d0: Seq<bool>,
    d1: Seq<bool>,
    mem: Seq<u8>,
    i: int,
    ry: u8,
    n: int,
    row: int,
    col: int,
)
    requires
        draw_applied(d0, d1, mem, i, 63u8, ry, n),
        0 <= row < n,
        1 <= col < 8,
    ensures
        d1[pixel_index(col - 1, (ry + row) % 32)] == (d0[pixel_index(col - 1, (ry + row) % 32)]
            ^ sprite_bit(mem[i + row], col)),
{
    assert((63 + col) % 64 == col - 1) by {
        lemma_mod_multiples_vanish(1, col - 1, 64);
        lemma_small_mod((col - 1) as nat, 64);
    }
    assert(draw_target(63u8, ry, row, col) == pixel_index(col - 1, (ry + row) % 32));
}

/// Two completed DRAW steps of one sprite at one spot restore the
/// framebuffer: the second pass toggles every affected cell back; and
/// whenever some cell the sprite lands on was on after the first pass,
/// the second pass sets the flag register. The corner registers may not
/// be the flag register itself, which a collision overwrites between the
/// passes; a faulting draw plots nothing, so the two `Ok` outcomes leave
/// it out.
pub proof fn lemma_execute_draw_twice(
    x: u8,
    y: u8,
    n: u8,
    pre: CPU,
    mid: CPU,
    post: CPU,
    m: Seq<u8>,
    m1: Seq<u8>,
    m2: Seq<u8>,
    d0: Seq<bool>,
    d1: Seq<bool>,
    d2: Seq<bool>,
    key1: Option<KeyBoardEvent>,
    key2: Option<KeyBoardEvent>,
)
    requires
        pre.registers@.len() == 16,
        x < 15,
        y < 15,
        n < 16,
        instruction_step(
            OpCode::DRAW(x, y, n), pre, m, d0, key1, mid, m1, d1,
            Ok::<Outcome, Fault>(Outcome::Normal),
        ),
        instruction_step(
            OpCode::DRAW(x, y, n), mid, m1, d1, key2, post, m2, d2,
            Ok::<Outcome, Fault>(Outcome::Normal),
        ),
    ensures
        d2 == d0,
        draw_collision(d1, pre.registers@[x as int], pre.registers@[y as int], n as int)
            ==> post.registers@[15] == 1,
{
    let rx = pre.registers@[x as int];
    let ry = pre.registers@[y as int];
    // The first pass may set only the flag register, so the corner and the
    // sprite rows are the same for both passes.
    assert(mid.registers@[x as int] == rx);
    assert(mid.registers@[y as int] == ry);
    assert(mid.i == pre.i);
    assert(m1 == m);
    lemma_draw_twice_restores(d0, d1, d2, m, pre.i as int, rx, ry, n as int);
}

/// A completed DRAW step whose x corner register holds the last column
/// keeps plotting from the left edge: bit column 0 of each row lands on
/// screen column 63 and bit columns 1 to 7 on screen columns 0 to 6. A
/// faulting draw plots nothing, so the `Ok` outcome leaves it out.
pub proof fn lemma_execute_draw_wraps_x(
    x: u8,
    y: u8,
    n: u8,
    pre: CPU,
    post: CPU,
    m: Seq<u8>,
    m1: Seq<u8>,
    d0: Seq<bool>,
    d1: Seq<bool>,
    key: Option<KeyBoardEvent>,
    row: int,
    col: int,
)
    requires
        pre.registers@.len() == 16,
        x < 16,
        y < 16,
        n < 16,
        pre.registers@[x as int] == 63,
        instruction_step(
            OpCode::DRAW(x, y, n), pre, m, d0, key, post, m1, d1,
            Ok::<Outcome, Fault>(Outcome::Normal),
        ),
        0 <= row < n,
        0 <= col < 8,
    ensures
        ({
            let ry = pre.registers@[y as int];
            let screen_col = if col == 0 {
                63int
            } else {
                col - 1
            };
            d1[pixel_index(screen_col, (ry + row) % 32)] == (d0[pixel_index(
                screen_col,
                (ry + row) % 32,
            )] ^ sprite_bit(m[pre.i + row], col))
        }),
{
    let ry = pre.registers@[y as int];
    assert(draw_applied(d0, d1, m, pre.i as int, 63u8, ry, n as int));
    if col == 0 {
        assert((63 + 0) % 64 == 63) by {
            lemma_small_mod(63nat, 64nat);
        }
        assert(draw_target(63u8, ry, row, 0) == pixel_index(63, (ry + row) % 32));
    } else {
        lemma_draw_wraps_x(d0, d1, m, pre.i as int, ry, n as int, row, col);
    }
}

/// Relies on rand's `thread_rng` and `gen_range`: one byte drawn
/// uniformly from 0 to 255 inclusive. Nothing is promised of the value;
/// every byte is possible, and two calls may differ.
#[verifier::external_body]
fn random_byte() -> u8 {
    rand::thread_rng().gen_range(0..=255u8)
}

/// The register file, index register, program counter, call stack and the
/// two timers; owns the fetch/decode/execute cycle.
pub struct CPU {
    pub registers: Vec<u8>,
    pub i: u16,
    pub sound: u8,
    pub delay: u8,
    pub pc: u16,
    pub sp: u8,
    pub stack: Vec<u16>,
    pub latest_fetch: u16,
    pub latest_addr: u16,
}

impl CPU {
    /// Sixteen registers, a twelve-entry call stack, a stack pointer within
    /// it, and stacked return addresses that are valid memory addresses.
    pub open spec fn wf(&self) -> bool {
        &&& self.registers@.len() == 16
        &&& self.stack@.len() == 12
        &&& self.sp <= 12
        &&& forall|k: int| 0 <= k < 12 ==> self.stack@[k] < CAPACITY
    }

    pub fn new() -> (cpu: CPU)
        ensures
            cpu.wf(),
            forall|k: int| 0 <= k < 16 ==> cpu.registers@[k] == 0u8,
            cpu.i == 0,
            cpu.sound == 0,
            cpu.delay == 0,
            cpu.pc == 512,
            cpu.sp == 0,
            forall|k: int| 0 <= k < 12 ==> cpu.stack@[k] == 0u16,
            cpu.latest_fetch == 0,
            cpu.latest_addr == 0,
    {
        let mut registers: Vec<u8> = Vec::new();
        let mut k: usize = 0;
        while k < 16
            invariant
                k <= 16,
                registers@.len() == k,
                forall|j: int| 0 <= j < k ==> registers@[j] == 0u8,
            decreases 16 - k,
        {
            registers.push(0);
            k = k + 1;
        }
        let mut stack: Vec<u16> = Vec::new();
        let mut s: usize = 0;
        while s < 12
            invariant
                s <= 12,
                stack@.len() == s,
                forall|j: int| 0 <= j < s ==> stack@[j] == 0u16,
            decreases 12 - s,
        {
            stack.push(0);
            s = s + 1;
        }
        let pc = Memory::get_offset() as u16;
        CPU {
            registers,
            i: 0,
            delay: 0,
            sound: 0,
            pc,
            sp: 0,
            stack,
            latest_fetch: 0,
            latest_addr: 0,
        }
    }

    /// Reads the two bytes at the program counter as a big-endian word and
    /// records the word and its address for diagnostics; a counter too
    /// close to the end of memory to hold a whole word is an addressing
    /// fault that changes nothing.
    pub fn fetch(&mut self, mem: &Memory) -> (r: Result<u16, Fault>)
        requires
            old(self).wf(),
            mem.wf(),
        ensures
            final(self).wf(),
            final(self).registers@ == old(self).registers@,
            final(self).i == old(self).i,
            final(self).sound == old(self).sound,
            final(self).delay == old(self).delay,
            final(self).pc == old(self).pc,
            final(self).sp == old(self).sp,
            final(self).stack@ == old(self).stack@,
            old(self).pc + 1 < CAPACITY ==> {
                &&& r == Ok::<u16, Fault>(word_at(mem.buffer@, old(self).pc as int))
                &&& final(self).latest_fetch == word_at(mem.buffer@, old(self).pc as int)
                &&& final(self).latest_addr == old(self).pc
            },
            old(self).pc + 1 >= CAPACITY ==> {
                &&& r == Err::<u16, Fault>(Fault::AddressFault)
                &&& final(self).latest_fetch == old(self).latest_fetch
                &&& final(self).latest_addr == old(self).latest_addr
            },
    {
        if (self.pc as usize) + 1 >= CAPACITY {
            return Err(Fault::AddressFault);
        }
        let most_sig = match mem.read(self.pc) {
            Ok(b) => b,
            Err(f) => {
                return Err(f);
            },
        };
        let lest_sig = match mem.read(self.pc + 1) {
            Ok(b) => b,
            Err(f) => {
                return Err(f);
            },
        };
        self.latest_fetch = ((most_sig as u16) << 8) | (lest_sig as u16);
        self.latest_addr = self.pc;
        Ok(self.latest_fetch)
    }

    /// Splits the word into nibbles and applies the decode table.
    pub fn decode(&self, instruction: u16) -> (op: OpCode)
        ensures
            op == spec_decode(instruction),
            op_wf(op),
    {
        proof {
            lemma_decode_wf(instruction);
        }
        let w = instruction;
        let x = ((w >> 8) & 0xF) as u8;
        let y = ((w >> 4) & 0xF) as u8;
        let n = (w & 0xF) as u8;
        let nn = (w & 0xFF) as u8;
        let nnn = w & 0xFFF;
        if w == 0x0000 {
            OpCode::HALT
        } else if w == 0x00E0 {
            OpCode::CLEAR
        } else if w == 0x00EE {
            OpCode::RETURN
        } else {
            let hi = (w >> 12) & 0xF;
            if hi == 0x0 {
                OpCode::ROUTINE(nnn)
            } else if hi == 0x1 {
                OpCode::GOTO(nnn)
            } else if hi == 0x2 {
                OpCode::CALL(nnn)
            } else if hi == 0x3 {
                OpCode::EQ(x, nn)
            } else if hi == 0x4 {
                OpCode::NEQ(x, nn)
            } else if hi == 0x5 {
                if n == 0 {
                    OpCode::EQ_REG(x, y)
                } else {
                    OpCode::NONE
                }
            } else if hi == 0x6 {
                OpCode::SET_CONST(x, nn)
            } else if hi == 0x7 {
                OpCode::ADD_CONST(x, nn)
            } else if hi == 0x8 {
                if n == 0x0 {
                    OpCode::SET_REG(x, y)
                } else if n == 0x1 {
                    OpCode::OR(x, y)
                } else if n == 0x2 {
                    OpCode::AND(x, y)
                } else if n == 0x3 {
                    OpCode::XOR(x, y)
                } else if n == 0x4 {
                    OpCode::ADD_REG(x, y)
                } else if n == 0x5 {
                    OpCode::SUB_REG(x, y)
                } else if n == 0x6 {
                    OpCode::BSHIFT_RGHT(x, y)
                } else if n == 0x7 {
                    OpCode::SUBTRACT(x, y)
                } else if n == 0xE {
                    OpCode::BSHIFT_LEFT(x, y)
                } else {
                    OpCode::NONE
                }
            } else if hi == 0x9 {
                if n == 0 {
                    OpCode::NEQ_REG(x, y)
                } else {
                    OpCode::NONE
                }
            } else if hi == 0xA {
                OpCode::SETI(nnn)
            } else if hi == 0xB {
                OpCode::JUMP(nnn)
            } else if hi == 0xC {
                OpCode::RAND(x, nn)
            } else if hi == 0xD {
                OpCode::DRAW(x, y, n)
            } else if hi == 0xE {
                if nn == 0x9E {
                    OpCode::KEY_P(x)
                } else if nn == 0xA1 {
                    OpCode::KEY_NP(x)
                } else {
                    OpCode::NONE
                }
            } else {
                if nn == 0x07 {
                    OpCode::GET_DELAY(x)
                } else if nn == 0x0A {
                    OpCode::GET_KEY(x)
                } else if nn == 0x15 {
                    OpCode::SET_DELAY(x)
                } else if nn == 0x18 {
                    OpCode::SET_SOUND(x)
                } else if nn == 0x1E {
                    OpCode::ADDI(x)
                } else if nn == 0x29 {
                    OpCode::SPRI(x)
                } else if nn == 0x33 {
                    OpCode::BCP(x)
                } else if nn == 0x55 {
                    OpCode::DUMP(x)
                } else if nn == 0x65 {
                    OpCode::LOAD(x)
                } else {
                    OpCode::NONE
                }
            }
        }
    }

    /// Each tick lowers the delay timer by one until it reaches zero,
    /// where it stays.
    pub fn delay_timer(&mut self)
        ensures
            final(self).delay == if old(self).delay > 0 {
                (old(self).delay - 1) as u8
            } else {
                0u8
            },
            final(self).registers@ == old(self).registers@,
            final(self).i == old(self).i,
            final(self).sound == old(self).sound,
            final(self).pc == old(self).pc,
            final(self).sp == old(self).sp,
            final(self).stack@ == old(self).stack@,
            final(self).latest_fetch == old(self).latest_fetch,
            final(self).latest_addr == old(self).latest_addr,
    {
        if self.delay > 0 {
            self.delay = self.delay - 1;
        }
    }

    /// Each tick lowers the sound timer by one until it reaches zero,
    /// where it stays.
    pub fn sound_timer(&mut self)
        ensures
            final(self).sound == if old(self).sound > 0 {
                (old(self).sound - 1) as u8
            } else {
                0u8
            },
            final(self).registers@ == old(self).registers@,
            final(self).i == old(self).i,
            final(self).delay == old(self).delay,
            final(self).pc == old(self).pc,
            final(self).sp == old(self).sp,
            final(self).stack@ == old(self).stack@,
            final(self).latest_fetch == old(self).latest_fetch,
            final(self).latest_addr == old(self).latest_addr,
    {
        if self.sound > 0 {
            self.sound = self.sound - 1;
        }
    }

    /// Plots an `n`-row sprite held at memory address `i` at the corner
    /// the two named registers give, toggling cells by XOR; sets the flag
    /// register to 1 when a targeted cell was already on, and leaves it
    /// alone otherwise. A sprite row past the end of memory is an
    /// addressing fault before anything is plotted.
    #[verifier::loop_isolation(false)]
    #[verifier::rlimit(100)]
    fn exec_draw(&mut self, mem: &Memory, display: &mut Display, x: u8, y: u8, n: u8) -> (r:
        Result<(), Fault>)
        requires
            old(self).wf(),
            mem.wf(),
            old(display).wf(),
            x < 16,
            y < 16,
            n < 16,
        ensures
            final(self).wf(),
            final(display).wf(),
            final(self).i == old(self).i,
            final(self).pc == old(self).pc,
            final(self).sp == old(self).sp,
            final(self).stack@ == old(self).stack@,
            final(self).delay == old(self).delay,
            final(self).sound == old(self).sound,
            final(self).latest_fetch == old(self).latest_fetch,
            final(self).latest_addr == old(self).latest_addr,
            ({
                let regs = old(self).registers@;
                let rx = regs[x as int];
                let ry = regs[y as int];
                let d0 = old(display).buffer@;
                if n > 0 && old(self).i + n > CAPACITY {
                    &&& r == Err::<(), Fault>(Fault::AddressFault)
                    &&& final(self).registers@ == regs
                    &&& final(display).buffer@ == d0
                } else {
                    &&& r == Ok::<(), Fault>(())
                    &&& final(self).registers@ == if draw_collision(d0, rx, ry, n as int) {
                        regs.update(15, 1u8)
                    } else {
                        regs
                    }
                    &&& draw_applied(d0, final(display).buffer@, mem.buffer@, old(self).i as int, rx, ry, n as int)
                }
            }),
    {
        let rx = self.registers[x as usize];
        let ry = self.registers[y as usize];
        if n > 0 && (self.i as usize) + (n as usize) > CAPACITY {
            return Err(Fault::AddressFault);
        }
        let ghost d0 = display.buffer@;
        let mut collided = false;
        let mut row: u8 = 0;
        while row < n
            invariant
                row <= n,
                display.buffer@.len() == d0.len(),
                draw_applied(d0, display.buffer@, mem.buffer@, self.i as int, rx, ry, row as int),
                collided == draw_collision(d0, rx, ry, row as int),
            decreases n - row,
        {
            proof {
                assert(draw_applied_prefix(
                    d0, display.buffer@, mem.buffer@, self.i as int, rx, ry, row as int, 0,
                ));
                assert(collided == prefix_collision(d0, rx, ry, row as int, 0));
            }
            let byte = mem.read(self.i + (row as u16)).unwrap();
            let mut col: u8 = 0;
            while col < 8
                invariant
                    col <= 8,
                    display.buffer@.len() == d0.len(),
                    draw_applied_prefix(
                        d0, display.buffer@, mem.buffer@, self.i as int, rx, ry, row as int,
                        col as int,
                    ),
                    collided == prefix_collision(d0, rx, ry, row as int, col as int),
                decreases 8 - col,
            {
                let bit = (byte >> (7 - col)) & 1;
                let xx = (((rx as u16) + (col as u16)) % 64) as u8;
                let yy = (((ry as u16) + (row as u16)) % 32) as u8;
                let ghost pre_disp = display.buffer@;
                let ghost pt = draw_target(rx, ry, row as int, col as int);
                proof {
                    lemma_mod_bound(rx + col, 64);
                    lemma_mod_bound(ry + row, 32);
                    assert(pt == pixel_index(xx as int % 64, yy as int % 32));
                    assert forall|r2: int, c2: int|
                        in_sprite_prefix(row as int, col as int, r2, c2)
                            implies #[trigger] draw_target(rx, ry, r2, c2) != pt by {
                        lemma_draw_target_distinct(rx, ry, r2, c2, row as int, col as int);
                    }
                    assert(!is_prefix_target(rx, ry, row as int, col as int, pt));
                    assert(pre_disp[pt] == d0[pt]);
                    assert((bit == 1) == sprite_bit(byte, col as int));
                }
                let was = display.draw_pixel(xx, yy, bit == 1);
                if was {
                    collided = true;
                }
                proof {
                    assert(display.buffer@ == pre_disp.update(pt, pre_disp[pt] ^ (bit == 1)));
                    assert(in_sprite_prefix(row as int, col as int + 1, row as int, col as int));
                    assert(draw_applied_prefix(
                        d0, display.buffer@, mem.buffer@, self.i as int, rx, ry, row as int,
                        col as int + 1,
                    ));
                    if was {
                        assert(d0[draw_target(rx, ry, row as int, col as int)]);
                        assert(prefix_collision(d0, rx, ry, row as int, col as int + 1));
                    } else if collided {
                        assert(prefix_collision(d0, rx, ry, row as int, col as int + 1));
                    } else {
                        assert forall|r2: int, c2: int|
                            in_sprite_prefix(row as int, col as int + 1, r2, c2)
                                implies !d0[#[trigger] draw_target(rx, ry, r2, c2)] by {
                            if r2 == row as int && c2 == col as int {
                                assert(!d0[pt]);
                            } else {
                                assert(in_sprite_prefix(row as int, col as int, r2, c2));
                            }
                        }
                        assert(!prefix_collision(d0, rx, ry, row as int, col as int + 1));
                    }
                }
                col = col + 1;
            }
            proof {
                assert(draw_applied(
                    d0, display.buffer@, mem.buffer@, self.i as int, rx, ry, row as int + 1,
                ));
                assert(collided == draw_collision(d0, rx, ry, row as int + 1));
            }
            row = row + 1;
        }
        if collided {
            self.registers[15] = 1;
        }
        Ok(())
    }

    /// Applies one decoded instruction to the machine: the register file,
    /// index register, counter, stack and timers, the memory, the
    /// framebuffer, and — read only — the tracked key. What each variant
    /// does, which outcome it returns and which fault it raises is pinned
    /// down by `instruction_step`.
    #[verifier::loop_isolation(false)]
    #[verifier::rlimit(100)]
    pub fn execute(
        &mut self,
        mem: &mut Memory,
        display: &mut Display,
        keyboard: &Keyboard,
        opcode: &OpCode,
    ) -> (r: Result<Outcome, Fault>)
        requires
            old(self).wf(),
            old(mem).wf(),
            old(display).wf(),
            op_wf(*opcode),
            old(self).pc < CAPACITY,
        ensures
            final(self).wf(),
            final(mem).wf(),
            final(display).wf(),
            final(self).latest_fetch == old(self).latest_fetch,
            final(self).latest_addr == old(self).latest_addr,
            instruction_step(
                *opcode,
                *old(self),
                old(mem).buffer@,
                old(display).buffer@,
                keyboard.key,
                *final(self),
                final(mem).buffer@,
                final(display).buffer@,
                r,
            ),
    {
        let mut inc = true;
        let mut outcome = Outcome::Normal;
        match *opcode {
            OpCode::NONE => {},
            OpCode::HALT => {
                outcome = Outcome::Halted;
            },
            OpCode::ROUTINE(_) => {},
            OpCode::CLEAR => {
                display.clear();
            },
            OpCode::CALL(addr) => {
                if self.sp >= 12 {
                    return Err(Fault::StackOverflow);
                }
                self.stack[self.sp as usize] = self.pc;
                self.sp = self.sp + 1;
                self.pc = addr;
                inc = false;
            },
            OpCode::RETURN => {
                if self.sp == 0 {
                    return Err(Fault::StackUnderflow);
                }
                self.sp = self.sp - 1;
                self.pc = self.stack[self.sp as usize];
            },
            OpCode::GOTO(addr) => {
                self.pc = addr;
                inc = false;
            },
            OpCode::EQ(reg, val) => {
                if self.registers[reg as usize] == val {
                    self.pc = self.pc + 2;
                }
            },
            OpCode::NEQ(reg, val) => {
                if self.registers[reg as usize] != val {
                    self.pc = self.pc + 2;
                }
            },
            OpCode::EQ_REG(rega, regb) => {
                if self.registers[rega as usize] == self.registers[regb as usize] {
                    self.pc = self.pc + 2;
                }
            },
            OpCode::NEQ_REG(rega, regb) => {
                if self.registers[rega as usize] != self.registers[regb as usize] {
                    self.pc = self.pc + 2;
                }
            },
            OpCode::SET_CONST(reg, val) => {
                self.registers[reg as usize] = val;
            },
            OpCode::ADD_CONST(reg, val) => {
                let sum = ((self.registers[reg as usize] as u16) + (val as u16)) % 256;
                self.registers[reg as usize] = sum as u8;
            },
            OpCode::OR(rega, regb) => {
                self.registers[rega as usize] = self.registers[rega as usize] | self.registers[regb
                    as usize];
            },
            OpCode::AND(rega, regb) => {
                self.registers[rega as usize] = self.registers[rega as usize] & self.registers[regb
                    as usize];
            },
            OpCode::XOR(rega, regb) => {
                self.registers[rega as usize] = self.registers[rega as usize] ^ self.registers[regb
                    as usize];
            },
            OpCode::SET_REG(rega, regb) => {
                self.registers[rega as usize] = self.registers[regb as usize];
            },
            OpCode::ADD_REG(rega, regb) => {
                let sum = ((self.registers[rega as usize] as u16) + (self.registers[regb
                    as usize] as u16)) % 256;
                self.registers[rega as usize] = sum as u8;
            },
            OpCode::SUB_REG(rega, regb) => {
                let diff = ((self.registers[rega as usize] as u16) + 256 - (self.registers[regb
                    as usize] as u16)) % 256;
                self.registers[rega as usize] = diff as u8;
            },
            OpCode::SUBTRACT(rega, regb) => {
                let diff = ((self.registers[regb as usize] as u16) + 256 - (self.registers[rega
                    as usize] as u16)) % 256;
                self.registers[rega as usize] = diff as u8;
            },
            OpCode::BSHIFT_RGHT(rega, _regb) => {
                self.registers[15] = self.registers[rega as usize] >> 7;
                let v = self.registers[rega as usize];
                self.registers[rega as usize] = v >> 1;
            },
            OpCode::BSHIFT_LEFT(rega, _regb) => {
                self.registers[15] = self.registers[rega as usize] & 1;
                let v = self.registers[rega as usize];
                self.registers[rega as usize] = v << 1;
            },
            OpCode::SETI(addr) => {
                self.i = addr;
            },
            OpCode::JUMP(addr) => {
                self.pc = (self.registers[0] as u16) + addr;
                inc = false;
            },
            OpCode::RAND(reg, val) => {
                let num = random_byte();
                self.registers[reg as usize] = num & val;
            },
            OpCode::DRAW(rega, regb, n) => {
                match self.exec_draw(mem, display, rega, regb, n) {
                    Ok(()) => {},
                    Err(f) => {
                        return Err(f);
                    },
                }
            },
            OpCode::KEY_P(reg) => {
                if keyboard.is_key_pressed(self.registers[reg as usize]) {
                    self.pc = self.pc + 2;
                }
            },
            OpCode::KEY_NP(reg) => {
                if !keyboard.is_key_pressed(self.registers[reg as usize]) {
                    self.pc = self.pc + 2;
                }
            },
            OpCode::GET_KEY(reg) => {
                match keyboard.key {
                    Some(KeyBoardEvent::KeyPressed(k)) => {
                        self.registers[reg as usize] = k;
                    },
                    _ => {
                        return Ok(Outcome::WaitKey);
                    },
                }
            },
            OpCode::GET_DELAY(reg) => {
                self.registers[reg as usize] = self.delay;
            },
            OpCode::SET_DELAY(reg) => {
                self.delay = self.registers[reg as usize];
            },
            OpCode::SET_SOUND(reg) => {
                self.sound = self.registers[reg as usize];
            },
            OpCode::ADDI(reg) => {
                let sum = ((self.i as u32) + (self.registers[reg as usize] as u32)) % 0x10000;
                self.i = sum as u16;
            },
            OpCode::SPRI(reg) => {
                let glyph = self.registers[reg as usize];
                self.i = (glyph as u16) * 5;
            },
            OpCode::BCP(reg) => {
                if (self.i as usize) + 3 > CAPACITY {
                    return Err(Fault::AddressFault);
                }
                let decimal = self.registers[reg as usize];
                let _ = mem.write(self.i, decimal / 100);
                let _ = mem.write(self.i + 1, (decimal % 100) / 10);
                let _ = mem.write(self.i + 2, decimal % 10);
            },
            OpCode::DUMP(count) => {
                if count > 0 && (self.i as usize) + (count as usize) > CAPACITY {
                    return Err(Fault::AddressFault);
                }
                let mut k: u8 = 0;
                while k < count
                    invariant
                        k <= count,
                        mem.buffer@.len() == CAPACITY,
                        forall|j: int|
                            0 <= j < k ==> mem.buffer@[self.i + j] == self.registers@[j],
                        forall|p: int|
                            0 <= p < CAPACITY && !(self.i <= p < self.i + k) ==> mem.buffer@[p]
                                == old(mem).buffer@[p],
                    decreases count - k,
                {
                    let _ = mem.write(self.i + (k as u16), self.registers[k as usize]);
                    k = k + 1;
                }
            },
            OpCode::LOAD(count) => {
                if count > 0 && (self.i as usize) + (count as usize) > CAPACITY {
                    return Err(Fault::AddressFault);
                }
                let mut k: u8 = 0;
                while k < count
                    invariant
                        k <= count,
                        self.registers@.len() == 16,
                        self.i == old(self).i,
                        self.pc == old(self).pc,
                        self.sp == old(self).sp,
                        self.stack@ == old(self).stack@,
                        self.delay == old(self).delay,
                        self.sound == old(self).sound,
                        self.latest_fetch == old(self).latest_fetch,
                        self.latest_addr == old(self).latest_addr,
                        forall|j: int|
                            0 <= j < k ==> self.registers@[j] == mem.buffer@[self.i + j],
                        forall|j: int|
                            k <= j < 16 ==> self.registers@[j] == old(self).registers@[j],
                    decreases count - k,
                {
                    let b = mem.read(self.i + (k as u16)).unwrap();
                    self.registers[k as usize] = b;
                    k = k + 1;
                }
            },
        }
        if inc {
            self.pc = self.pc + 2;
        }
        Ok(outcome)
    }

    /// One full cycle: refuses an invalid program counter as an addressing
    /// fault, then fetches, decodes and executes one instruction.
    pub fn run_cycle(&mut self, mem: &mut Memory, display: &mut Display, keyboard: &Keyboard) -> (r:
        Result<Outcome, Fault>)
        requires
            old(self).wf(),
            old(mem).wf(),
            old(display).wf(),
        ensures
            final(self).wf(),
            final(mem).wf(),
            final(display).wf(),
            old(self).pc + 1 >= CAPACITY ==> {
                &&& r == Err::<Outcome, Fault>(Fault::AddressFault)
                &&& *final(self) == *old(self)
                &&& final(mem).buffer@ == old(mem).buffer@
                &&& final(display).buffer@ == old(display).buffer@
            },
            old(self).pc + 1 < CAPACITY ==> ({
                let w = word_at(old(mem).buffer@, old(self).pc as int);
                &&& final(self).latest_fetch == w
                &&& final(self).latest_addr == old(self).pc
                &&& instruction_step(
                    spec_decode(w),
                    *old(self),
                    old(mem).buffer@,
                    old(display).buffer@,
                    keyboard.key,
                    *final(self),
                    final(mem).buffer@,
                    final(display).buffer@,
                    r,
                )
            }),
    {
        if (self.pc as usize) + 1 >= CAPACITY {
            return Err(Fault::AddressFault);
        }
        let word = match self.fetch(mem) {
            Ok(w) => w,
            Err(f) => {
                return Err(f);
            },
        };
        let op_code = self.decode(word);
        self.execute(mem, display, keyboard, &op_code)
    }

    /// True when the program counter is a valid address to fetch from.
    pub fn pc_valid(&self) -> (valid: bool)
        ensures
            valid == (self.pc < CAPACITY),
    {
        (self.pc as usize) < Memory::get_cap()
    }
}

} // verus!

