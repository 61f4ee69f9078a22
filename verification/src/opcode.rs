//! Instruction words and their decoded form.

use vstd::prelude::*;
use crate::types::{Addr, ByteVal, RegNum};

verus! {

/// A fetched instruction word, held as its four nibbles, most significant
/// first. Every nibble is below 16.
#[derive(Debug, Clone, Copy)]
pub struct OpVal(ByteVal, ByteVal, ByteVal, ByteVal);

/// One decoded instruction with its operands.
#[derive(Debug, Clone, Copy, PartialEq, Eq, Structural)]
pub enum OpCode {
    /// A word that matches no instruction.
    Undefined,
    /// `0nnn`: call into the host machine's native code. Not supported.
    Sys(Addr),
    /// `00E0`: clear the display.
    Cls,
    /// `00EE`: return from a subroutine.
    Ret,
    /// `1nnn`: jump to `nnn`.
    Jp(Addr),
    /// `Bnnn`: jump to `nnn` plus the value of register 0.
    JpRel(Addr),
    /// `2nnn`: call the subroutine at `nnn`.
    Call(Addr),
    /// `3xkk`: skip the next instruction if register `x` equals `kk`.
    Sec(RegNum, ByteVal),
    /// `4xkk`: skip the next instruction if register `x` differs from `kk`.
    Snec(RegNum, ByteVal),
    /// `5xy0`: skip the next instruction if registers `x` and `y` are equal.
    Se(RegNum, RegNum),
    /// `9xy0`: skip the next instruction if registers `x` and `y` differ.
    Sne(RegNum, RegNum),
    /// `6xkk`: load `kk` into register `x`.
    Ldc(RegNum, ByteVal),
    /// `8xy0`: copy register `y` into register `x`.
    Ld(RegNum, RegNum),
    /// `Annn`: load `nnn` into the address register.
    Ldi(Addr),
    /// `Fx07`: copy the delay timer into register `x`.
    Lddt(RegNum),
    /// `Fx15`: copy register `x` into the delay timer.
    Stdt(RegNum),
    /// `Fx18`: copy register `x` into the sound timer.
    Stst(RegNum),
    /// `Fx0A`: wait for a key and store its index in register `x`.
    Ldtc(RegNum),
    /// `Fx29`: point the address register at the glyph for the digit in
    /// register `x`.
    Ldsprt(RegNum),
    /// `Fx33`: store the three decimal digits of register `x` in memory.
    Stbcd(RegNum),
    /// `Fx65`: load registers 0 to `x` from memory.
    Ldall(RegNum),
    /// `Fx55`: store registers 0 to `x` in memory.
    Stall(RegNum),
    /// `8xy1`: bitwise or of registers `x` and `y` into `x`.
    Or(RegNum, RegNum),
    /// `8xy2`: bitwise and of registers `x` and `y` into `x`.
    And(RegNum, RegNum),
    /// `8xy3`: bitwise exclusive or of registers `x` and `y` into `x`.
    Xor(RegNum, RegNum),
    /// `8xy6`: shift register `x` right by one bit.
    Shr(RegNum),
    /// `8xyE`: shift register `x` left by one bit.
    Shl(RegNum),
    /// `7xkk`: add `kk` to register `x`.
    Addc(RegNum, ByteVal),
    /// `8xy4`: add register `y` to register `x`.
    Add(RegNum, RegNum),
    /// `Fx1E`: add register `x` to the address register.
    Addi(RegNum),
    /// `8xy5`: subtract register `y` from register `x`.
    Sub(RegNum, RegNum),
    /// `8xy7`: store register `y` minus register `x` in register `x`.
    Subn(RegNum, RegNum),
    /// `Cxkk`: store a random byte masked with `kk` in register `x`.
    Rnd(RegNum, ByteVal),
    /// `Dxyn`: draw an `n`-row sprite at the position held in registers `x`
    /// and `y`.
    Drw(RegNum, RegNum, ByteVal),
    /// `Ex9E`: skip the next instruction if the key in register `x` is down.
    Skp(RegNum),
    /// `ExA1`: skip the next instruction if the key in register `x` is up.
    Sknp(RegNum),
}

/// The four nibbles of the instruction word made of the bytes `b0` and `b1`.
pub open spec fn nibbles_of(b0: ByteVal, b1: ByteVal) -> (ByteVal, ByteVal, ByteVal, ByteVal) {
    (b0 / 16, b0 % 16, b1 / 16, b1 % 16)
}

/// The 12-bit number whose hexadecimal digits are `n1`, `n2`, `n3`.
pub open spec fn addr_of(n1: ByteVal, n2: ByteVal, n3: ByteVal) -> Addr {
    (n1 * 256 + n2 * 16 + n3) as Addr
}

/// The byte whose hexadecimal digits are `n2`, `n3`.
pub open spec fn byte_of(n2: ByteVal, n3: ByteVal) -> ByteVal {
    (n2 * 16 + n3) as ByteVal
}

/// The instruction that the nibbles `n` encode: the instruction table.
/// The first row that matches counts. The table is opaque to the prover
/// until `reveal(decode)` opens it.
#[verifier::opaque]
pub open spec fn decode(n: (ByteVal, ByteVal, ByteVal, ByteVal)) -> OpCode {
    let addr = addr_of(n.1, n.2, n.3);
    let kk = byte_of(n.2, n.3);
    let x = n.1 as RegNum;
    let y = n.2 as RegNum;
    match n {
        (0x0, 0x0, 0xE, 0x0) => OpCode::Cls,
        (0x0, 0x0, 0xE, 0xE) => OpCode::Ret,
        (0x0, _, _, _) => OpCode::Sys(addr),
        (0x1, _, _, _) => OpCode::Jp(addr),
        (0x2, _, _, _) => OpCode::Call(addr),
        (0x3, _, _, _) => OpCode::Sec(x, kk),
        (0x4, _, _, _) => OpCode::Snec(x, kk),
        (0x5, _, _, 0x0) => OpCode::Se(x, y),
        (0x6, _, _, _) => OpCode::Ldc(x, kk),
        (0x7, _, _, _) => OpCode::Addc(x, kk),
        (0x8, _, _, 0x0) => OpCode::Ld(x, y),
        (0x8, _, _, 0x1) => OpCode::Or(x, y),
        (0x8, _, _, 0x2) => OpCode::And(x, y),
        (0x8, _, _, 0x3) => OpCode::Xor(x, y),
        (0x8, _, _, 0x4) => OpCode::Add(x, y),
        (0x8, _, _, 0x5) => OpCode::Sub(x, y),
        (0x8, _, _, 0x6) => OpCode::Shr(x),
        (0x8, _, _, 0x7) => OpCode::Subn(x, y),
        (0x8, _, _, 0xE) => OpCode::Shl(x),
        (0x9, _, _, 0x0) => OpCode::Sne(x, y),
        (0xA, _, _, _) => OpCode::Ldi(addr),
        (0xB, _, _, _) => OpCode::JpRel(addr),
        (0xC, _, _, _) => OpCode::Rnd(x, kk),
        (0xD, _, _, _) => OpCode::Drw(x, y, n.3),
        (0xE, _, 0x9, 0xE) => OpCode::Skp(x),
        (0xE, _, 0xA, 0x1) => OpCode::Sknp(x),
        (0xF, _, 0x0, 0x7) => OpCode::Lddt(x),
        (0xF, _, 0x0, 0xA) => OpCode::Ldtc(x),
        (0xF, _, 0x1, 0x5) => OpCode::Stdt(x),
        (0xF, _, 0x1, 0x8) => OpCode::Stst(x),
        (0xF, _, 0x1, 0xE) => OpCode::Addi(x),
        (0xF, _, 0x2, 0x9) => OpCode::Ldsprt(x),
        (0xF, _, 0x3, 0x3) => OpCode::Stbcd(x),
        (0xF, _, 0x5, 0x5) => OpCode::Stall(x),
        (0xF, _, 0x6, 0x5) => OpCode::Ldall(x),
        _ => OpCode::Undefined,
    }
}

impl OpCode {
    /// Every register operand names one of the sixteen registers, every
    /// address has twelve bits and a sprite has at most fifteen rows.
    pub open spec fn wf(self) -> bool {
        match self {
            OpCode::Undefined | OpCode::Cls | OpCode::Ret => true,
            OpCode::Sys(a) | OpCode::Jp(a) | OpCode::JpRel(a) | OpCode::Call(a) | OpCode::Ldi(a) => a < 0x1000,
            OpCode::Sec(x, _) | OpCode::Snec(x, _) | OpCode::Ldc(x, _) | OpCode::Addc(x, _)
            | OpCode::Rnd(x, _) => x < 16,
            OpCode::Se(x, y) | OpCode::Sne(x, y) | OpCode::Ld(x, y) | OpCode::Or(x, y)
            | OpCode::And(x, y) | OpCode::Xor(x, y) | OpCode::Add(x, y) | OpCode::Sub(x, y)
            | OpCode::Subn(x, y) => x < 16 && y < 16,
            OpCode::Lddt(x) | OpCode::Stdt(x) | OpCode::Stst(x) | OpCode::Ldtc(x)
            | OpCode::Ldsprt(x) | OpCode::Stbcd(x) | OpCode::Ldall(x) | OpCode::Stall(x)
            | OpCode::Shr(x) | OpCode::Shl(x) | OpCode::Addi(x) | OpCode::Skp(x)
            | OpCode::Sknp(x) => x < 16,
            OpCode::Drw(x, y, n) => x < 16 && y < 16 && n < 16,
        }
    }
}

impl OpCode {
    /// Whether the operands are valid.
    pub fn is_valid(&self) -> (valid: bool)
        ensures
            valid == self.wf(),
    {
        match *self {
            OpCode::Undefined | OpCode::Cls | OpCode::Ret => true,
            OpCode::Sys(a) | OpCode::Jp(a) | OpCode::JpRel(a) | OpCode::Call(a) | OpCode::Ldi(
                a,
            ) => a < 0x1000,
            OpCode::Sec(x, _) | OpCode::Snec(x, _) | OpCode::Ldc(x, _) | OpCode::Addc(x, _)
            | OpCode::Rnd(x, _) => x < 16,
            OpCode::Se(x, y) | OpCode::Sne(x, y) | OpCode::Ld(x, y) | OpCode::Or(x, y)
            | OpCode::And(x, y) | OpCode::Xor(x, y) | OpCode::Add(x, y) | OpCode::Sub(x, y)
            | OpCode::Subn(x, y) => x < 16 && y < 16,
            OpCode::Lddt(x) | OpCode::Stdt(x) | OpCode::Stst(x) | OpCode::Ldtc(x)
            | OpCode::Ldsprt(x) | OpCode::Stbcd(x) | OpCode::Ldall(x) | OpCode::Stall(x)
            | OpCode::Shr(x) | OpCode::Shl(x) | OpCode::Addi(x) | OpCode::Skp(x)
            | OpCode::Sknp(x) => x < 16,
            OpCode::Drw(x, y, n) => x < 16 && y < 16 && n < 16,
        }
    }
}

impl View for OpVal {
    type V = (ByteVal, ByteVal, ByteVal, ByteVal);

    closed spec fn view(&self) -> Self::V {
        (self.0, self.1, self.2, self.3)
    }
}

impl OpVal {
    #[verifier::type_invariant]
    spec fn nibbles_in_range(self) -> bool {
        self.0 < 16 && self.1 < 16 && self.2 < 16 && self.3 < 16
    }

    /// The instruction word whose first byte is `b0` and whose second is `b1`.
    pub fn from_bytes(b0: ByteVal, b1: ByteVal) -> (op: OpVal)
        ensures
            op@ == nibbles_of(b0, b1),
    {
        assert(b0 >> 4 == b0 / 16 && b0 & 0xf == b0 % 16) by (bit_vector);
        assert(b1 >> 4 == b1 / 16 && b1 & 0xf == b1 % 16) by (bit_vector);
        OpVal(b0 >> 4, b0 & 0xf, b1 >> 4, b1 & 0xf)
    }

    /// The four nibbles, most significant first.
    pub fn nibbles(&self) -> (n: (ByteVal, ByteVal, ByteVal, ByteVal))
        ensures
            n == self@,
            n.0 < 16 && n.1 < 16 && n.2 < 16 && n.3 < 16,
    {
        proof {
            use_type_invariant(self);
        }
        (self.0, self.1, self.2, self.3)
    }
}

/// The address made of three nibbles, most significant first.
pub fn make_3nibble_addr(n0: ByteVal, n1: ByteVal, n2: ByteVal) -> (addr: Addr)
    requires
        n0 < 16,
        n1 < 16,
        n2 < 16,
    ensures
        addr == addr_of(n0, n1, n2),
        addr < 0x1000,
{
    let a: u16 = n0 as u16;
    let b: u16 = n1 as u16;
    let c: u16 = n2 as u16;
    assert((a << 8) | (b << 4) | c == a * 256 + b * 16 + c) by (bit_vector)
        requires
            a < 16,
            b < 16,
            c < 16,
    ;
    (a << 8) | (b << 4) | c
}

/// Decodes an instruction word.
pub fn decode_op(opval: OpVal) -> (op: OpCode)
    ensures
        op == decode(opval@),
        op.wf(),
{
    proof {
        reveal(decode);
    }
    let (n0, n1, n2, n3) = opval.nibbles();
    let addr: Addr = make_3nibble_addr(n1, n2, n3);
    let x: RegNum = n1 as RegNum;
    let y: RegNum = n2 as RegNum;
    assert((n2 << 4) | n3 == n2 * 16 + n3) by (bit_vector)
        requires
            n2 < 16,
            n3 < 16,
    ;
    let kk: ByteVal = (n2 << 4) | n3;
    match n0 {
        0x0 => if n1 == 0 && n2 == 0xE && n3 == 0x0 {
            OpCode::Cls
        } else if n1 == 0 && n2 == 0xE && n3 == 0xE {
            OpCode::Ret
        } else {
            OpCode::Sys(addr)
        },
        0x1 => OpCode::Jp(addr),
        0x2 => OpCode::Call(addr),
        0x3 => OpCode::Sec(x, kk),
        0x4 => OpCode::Snec(x, kk),
        0x5 => if n3 == 0 {
            OpCode::Se(x, y)
        } else {
            OpCode::Undefined
        },
        0x6 => OpCode::Ldc(x, kk),
        0x7 => OpCode::Addc(x, kk),
        0x8 => match n3 {
            0x0 => OpCode::Ld(x, y),
            0x1 => OpCode::Or(x, y),
            0x2 => OpCode::And(x, y),
            0x3 => OpCode::Xor(x, y),
            0x4 => OpCode::Add(x, y),
            0x5 => OpCode::Sub(x, y),
            0x6 => OpCode::Shr(x),
            0x7 => OpCode::Subn(x, y),
            0xE => OpCode::Shl(x),
            _ => OpCode::Undefined,
        },
        0x9 => if n3 == 0 {
            OpCode::Sne(x, y)
        } else {
            OpCode::Undefined
        },
        0xA => OpCode::Ldi(addr),
        0xB => OpCode::JpRel(addr),
        0xC => OpCode::Rnd(x, kk),
        0xD => OpCode::Drw(x, y, n3),
        0xE => match kk {
            0x9E => OpCode::Skp(x),
            0xA1 => OpCode::Sknp(x),
            _ => OpCode::Undefined,
        },
        0xF => match kk {
            0x07 => OpCode::Lddt(x),
            0x0A => OpCode::Ldtc(x),
            0x15 => OpCode::Stdt(x),
            0x18 => OpCode::Stst(x),
            0x1E => OpCode::Addi(x),
            0x29 => OpCode::Ldsprt(x),
            0x33 => OpCode::Stbcd(x),
            0x55 => OpCode::Stall(x),
            0x65 => OpCode::Ldall(x),
            _ => OpCode::Undefined,
        },
        _ => OpCode::Undefined,
    }
}

} // verus!
