//! The CHIP-8 interpreter: 4096 bytes of memory, sixteen byte registers,
//! an index register, a program counter, a sixteen-level call stack, two
//! countdown timers, a wait-for-key mode, and the fetch/decode/execute
//! cycle over them.
//!
//! Address policy: every memory address derived from program-controlled
//! values (the program counter, the index register, and offsets from
//! them) is reduced modulo 4096 before use, and a key index taken from a
//! register is reduced modulo 16, so no access ever leaves the declared
//! arrays. A call with a full stack and a return with an empty stack are
//! ignored: the instruction has no effect and the program counter does
//! not advance. An unrecognized opcode is likewise a no-op that does not
//! advance the program counter, mirroring the stall policy of the
//! interpreter this machine models.

use vstd::prelude::*;
use crate::arith::wrap_add;
use crate::arith::wrap_dist;
use crate::arith::lemma_wrap_round;
use crate::arith::lemma_wrap_unround;
use crate::display::Display;
use crate::display::blit;
use crate::display::collides;
use crate::display::grid_wf;
use crate::keypad::Keypad;

verus! {

/// The interpreter clock rate in cycles per second expected by drivers.
pub const CPU_CLOCK: i32 = 600;

/// The timer clock rate in ticks per second expected by drivers.
pub const TIMER_CLOCK: i32 = 60;

/// The mathematical state of the machine: registers, index register,
/// program counter, memory, framebuffer cells, key flags, wait-for-key
/// mode, call stack, stack pointer and the two timers.
#[verifier::ext_equal]
pub ghost struct CpuView {
    pub v: Seq<u8>,
    pub i: nat,
    pub pc: nat,
    pub mem: Seq<u8>,
    pub grid: Seq<u8>,
    pub keys: Seq<bool>,
    pub wait: Option<u8>,
    pub stack: Seq<u16>,
    pub sp: nat,
    pub dt: u8,
    pub st: u8,
}

/// The machine invariant: sixteen registers, 4096 memory bytes, a
/// well-formed framebuffer, sixteen key flags, a sixteen-entry stack of
/// in-range return addresses, in-range program counter, index register
/// and stack pointer, and an in-range pending wait register.
pub open spec fn inv(s: CpuView) -> bool {
    &&& s.v.len() == 16
    &&& s.i < 4096
    &&& s.pc < 4096
    &&& s.mem.len() == 4096
    &&& grid_wf(s.grid)
    &&& s.keys.len() == 16
    &&& s.wait matches Some(x) ==> x < 16
    &&& s.stack.len() == 16
    &&& forall|k: int| 0 <= k < 16 ==> s.stack[k] < 4096
    &&& s.sp <= 16
}

/// One decoded instruction. The operand names follow the canonical
/// mnemonics: `x` and `y` are register indices, `nn` an immediate byte,
/// `addr` a twelve-bit address, `n` a sprite height nibble.
#[derive(Debug, Clone, Copy, PartialEq, Eq, Structural)]
pub enum Instr {
    /// 00E0: clear the display.
    Cls,
    /// 00EE: return from a subroutine.
    Ret,
    /// 1nnn: jump to `addr`.
    Jp(u16),
    /// 2nnn: call the subroutine at `addr`.
    Call(u16),
    /// 3xnn: skip the next instruction if `Vx == nn`.
    SeNn(u8, u8),
    /// 4xnn: skip the next instruction if `Vx != nn`.
    SneNn(u8, u8),
    /// 5xy0: skip the next instruction if `Vx == Vy`.
    SeVy(u8, u8),
    /// 6xnn: set `Vx = nn`.
    LdNn(u8, u8),
    /// 7xnn: set `Vx = Vx + nn` modulo 256, no flag.
    AddNn(u8, u8),
    /// 8xy0: set `Vx = Vy`.
    LdVy(u8, u8),
    /// 8xy1: set `Vx = Vx | Vy`.
    OrVy(u8, u8),
    /// 8xy2: set `Vx = Vx & Vy`.
    AndVy(u8, u8),
    /// 8xy3: set `Vx = Vx ^ Vy`.
    XorVy(u8, u8),
    /// 8xy4: set `Vx = Vx + Vy` modulo 256, flag 1 on carry else 0.
    AddVy(u8, u8),
    /// 8xy5: set `Vx = Vx - Vy` modulo 256, flag 0 on borrow else 1.
    SubVy(u8, u8),
    /// 8xy6: set `Vx = Vy >> 1`, flag receives `Vy & 0x80` unshifted.
    ShrVy(u8, u8),
    /// 8xy7: set `Vx = Vy - Vx` modulo 256, flag 0 on borrow else 1.
    SubnVy(u8, u8),
    /// 8xyE: set `Vx = Vy << 1` modulo 256, flag receives `Vy & 0x01`.
    ShlVy(u8, u8),
    /// 9xy0: skip the next instruction if `Vx != Vy`.
    SneVy(u8, u8),
    /// Annn: set `I = addr`.
    LdI(u16),
    /// Bnnn: jump to `addr + V0`.
    JpV0(u16),
    /// Cxnn: set `Vx` to a random byte ANDed with `nn`.
    Rnd(u8, u8),
    /// Dxyn: draw the `n`-row sprite at memory `I` at `(Vx, Vy)`.
    Drw(u8, u8, u8),
    /// Ex9E: skip the next instruction if key `Vx` is pressed.
    Skp(u8),
    /// ExA1: skip the next instruction if key `Vx` is not pressed.
    Sknp(u8),
    /// Fx07: set `Vx` to the delay timer.
    LdVxDt(u8),
    /// Fx0A: enter wait-for-key mode with destination register `x`.
    WaitKey(u8),
    /// Fx15: set the delay timer to `Vx`.
    LdDtVx(u8),
    /// Fx18: set the sound timer to `Vx`.
    LdStVx(u8),
    /// Fx1E: set `I = I + Vx` modulo 4096.
    AddIVx(u8),
    /// Fx29: point `I` at the font glyph for digit `Vx`.
    LdFVx(u8),
    /// Fx33: store the decimal digits of `Vx` at `I`, `I+1`, `I+2`.
    Bcd(u8),
    /// Fx55: store registers `V0..=Vx` at `I`, then advance `I` by `x+1`.
    StoreRegs(u8),
    /// Fx65: load registers `V0..=Vx` from `I`, then advance `I` by `x+1`.
    LoadRegs(u8),
    /// Any word matching no pattern: a no-op that does not advance.
    Unknown,
}

/// Decoded operands are in range: register indices and the height nibble
/// below 16, addresses below 4096.
pub open spec fn instr_wf(ins: Instr) -> bool {
    match ins {
        Instr::Jp(a) => a < 4096,
        Instr::Call(a) => a < 4096,
        Instr::SeNn(x, _nn) => x < 16,
        Instr::SneNn(x, _nn) => x < 16,
        Instr::SeVy(x, y) => x < 16 && y < 16,
        Instr::LdNn(x, _nn) => x < 16,
        Instr::AddNn(x, _nn) => x < 16,
        Instr::LdVy(x, y) => x < 16 && y < 16,
        Instr::OrVy(x, y) => x < 16 && y < 16,
        Instr::AndVy(x, y) => x < 16 && y < 16,
        Instr::XorVy(x, y) => x < 16 && y < 16,
        Instr::AddVy(x, y) => x < 16 && y < 16,
        Instr::SubVy(x, y) => x < 16 && y < 16,
        Instr::ShrVy(x, y) => x < 16 && y < 16,
        Instr::SubnVy(x, y) => x < 16 && y < 16,
        Instr::ShlVy(x, y) => x < 16 && y < 16,
        Instr::SneVy(x, y) => x < 16 && y < 16,
        Instr::LdI(a) => a < 4096,
        Instr::JpV0(a) => a < 4096,
        Instr::Rnd(x, _nn) => x < 16,
        Instr::Drw(x, y, n) => x < 16 && y < 16 && n < 16,
        Instr::Skp(x) => x < 16,
        Instr::Sknp(x) => x < 16,
        Instr::LdVxDt(x) => x < 16,
        Instr::WaitKey(x) => x < 16,
        Instr::LdDtVx(x) => x < 16,
        Instr::LdStVx(x) => x < 16,
        Instr::AddIVx(x) => x < 16,
        Instr::LdFVx(x) => x < 16,
        Instr::Bcd(x) => x < 16,
        Instr::StoreRegs(x) => x < 16,
        Instr::LoadRegs(x) => x < 16,
        _ => true,
    }
}

/// Splits an opcode word into its instruction: the leading nibble selects
/// the family, the remaining nibbles carry the operands.
pub open spec fn spec_decode(op: u16) -> Instr {
    let w = op as int;
    let n0 = w / 4096;
    let x = ((w / 256) % 16) as u8;
    let y = ((w / 16) % 16) as u8;
    let n = (w % 16) as u8;
    let nn = (w % 256) as u8;
    let addr = (w % 4096) as u16;
    if n0 == 0x0 {
        if op == 0x00E0 {
            Instr::Cls
        } else if op == 0x00EE {
            Instr::Ret
        } else {
            Instr::Unknown
        }
    } else if n0 == 0x1 {
        Instr::Jp(addr)
    } else if n0 == 0x2 {
        Instr::Call(addr)
    } else if n0 == 0x3 {
        Instr::SeNn(x, nn)
    } else if n0 == 0x4 {
        Instr::SneNn(x, nn)
    } else if n0 == 0x5 {
        if n == 0x0 {
            Instr::SeVy(x, y)
        } else {
            Instr::Unknown
        }
    } else if n0 == 0x6 {
        Instr::LdNn(x, nn)
    } else if n0 == 0x7 {
        Instr::AddNn(x, nn)
    } else if n0 == 0x8 {
        if n == 0x0 {
            Instr::LdVy(x, y)
        } else if n == 0x1 {
            Instr::OrVy(x, y)
        } else if n == 0x2 {
            Instr::AndVy(x, y)
        } else if n == 0x3 {
            Instr::XorVy(x, y)
        } else if n == 0x4 {
            Instr::AddVy(x, y)
        } else if n == 0x5 {
            Instr::SubVy(x, y)
        } else if n == 0x6 {
            Instr::ShrVy(x, y)
        } else if n == 0x7 {
            Instr::SubnVy(x, y)
        } else if n == 0xE {
            Instr::ShlVy(x, y)
        } else {
            Instr::Unknown
        }
    } else if n0 == 0x9 {
        if n == 0x0 {
            Instr::SneVy(x, y)
        } else {
            Instr::Unknown
        }
    } else if n0 == 0xA {
        Instr::LdI(addr)
    } else if n0 == 0xB {
        Instr::JpV0(addr)
    } else if n0 == 0xC {
        Instr::Rnd(x, nn)
    } else if n0 == 0xD {
        Instr::Drw(x, y, n)
    } else if n0 == 0xE {
        if nn == 0x9E {
            Instr::Skp(x)
        } else if nn == 0xA1 {
            Instr::Sknp(x)
        } else {
            Instr::Unknown
        }
    } else {
        if nn == 0x07 {
            Instr::LdVxDt(x)
        } else if nn == 0x0A {
            Instr::WaitKey(x)
        } else if nn == 0x15 {
            Instr::LdDtVx(x)
        } else if nn == 0x18 {
            Instr::LdStVx(x)
        } else if nn == 0x1E {
            Instr::AddIVx(x)
        } else if nn == 0x29 {
            Instr::LdFVx(x)
        } else if nn == 0x33 {
            Instr::Bcd(x)
        } else if nn == 0x55 {
            Instr::StoreRegs(x)
        } else if nn == 0x65 {
            Instr::LoadRegs(x)
        } else {
            Instr::Unknown
        }
    }
}

/// The sixteen-bit word at the program counter: the byte at `pc` is the
/// high half, the byte after it (wrapping) the low half.
pub open spec fn spec_fetch(s: CpuView) -> u16 {
    (s.mem[s.pc as int] * 256 + s.mem[wrap_add(s.pc as int, 1, 4096)]) as u16
}

/// The `n` sprite bytes starting at memory address `base`, wrapping.
pub open spec fn sprite_seq(mem: Seq<u8>, base: nat, n: nat) -> Seq<u8> {
    Seq::new(n, |r: int| mem[wrap_add(base as int, r, 4096)])
}

/// Memory after storing registers `0..=x` (clipped to the first `bound`)
/// at consecutive wrapped addresses from `base`.
pub open spec fn store_regs_mem(mem: Seq<u8>, base: nat, v: Seq<u8>, x: int, bound: int) -> Seq<
    u8,
> {
    Seq::new(4096, |a: int| {
        let k = wrap_dist(a, base as int, 4096);
        if k <= x && k < bound {
            v[k]
        } else {
            mem[a]
        }
    })
}

/// Registers after loading `0..=x` (clipped to the first `bound`) from
/// consecutive wrapped addresses starting at `base`.
pub open spec fn load_regs_v(v: Seq<u8>, mem: Seq<u8>, base: nat, x: int, bound: int) -> Seq<u8> {
    Seq::new(16, |k: int| {
        if k <= x && k < bound {
            mem[wrap_add(base as int, k, 4096)]
        } else {
            v[k]
        }
    })
}

/// One timer tick: decrement while positive, stay at zero.
pub open spec fn tick(t: u8) -> u8 {
    if t > 0 {
        (t - 1) as u8
    } else {
        0
    }
}

/// The machine state after executing one decoded instruction.
///
/// `rnd` is the byte an external randomness source supplied; only the
/// random instruction reads it.
pub open spec fn spec_exec_instr(s: CpuView, ins: Instr, rnd: u8) -> CpuView {
    match ins {
        Instr::Cls => CpuView {
            grid: Seq::new(2048, |i: int| 0u8),
            pc: (s.pc + 2) % 4096,
            ..s
        },
        Instr::Ret => {
            if s.sp == 0 {
                s
            } else {
                CpuView {
                    sp: (s.sp - 1) as nat,
                    pc: (s.stack[s.sp - 1] + 2) as nat % 4096,
                    ..s
                }
            }
        },
        Instr::Jp(a) => CpuView { pc: a as nat, ..s },
        Instr::Call(a) => {
            if s.sp >= 16 {
                s
            } else {
                CpuView {
                    stack: s.stack.update(s.sp as int, s.pc as u16),
                    sp: s.sp + 1,
                    pc: a as nat,
                    ..s
                }
            }
        },
        Instr::SeNn(x, nn) => CpuView {
            pc: (s.pc + if s.v[x as int] == nn { 4int } else { 2 }) as nat % 4096,
            ..s
        },
        Instr::SneNn(x, nn) => CpuView {
            pc: (s.pc + if s.v[x as int] != nn { 4int } else { 2 }) as nat % 4096,
            ..s
        },
        Instr::SeVy(x, y) => CpuView {
            pc: (s.pc + if s.v[x as int] == s.v[y as int] { 4int } else { 2 }) as nat % 4096,
            ..s
        },
        Instr::LdNn(x, nn) => CpuView {
            v: s.v.update(x as int, nn),
            pc: (s.pc + 2) % 4096,
            ..s
        },
        Instr::AddNn(x, nn) => CpuView {
            v: s.v.update(x as int, ((s.v[x as int] + nn) % 256) as u8),
            pc: (s.pc + 2) % 4096,
            ..s
        },
        Instr::LdVy(x, y) => CpuView {
            v: s.v.update(x as int, s.v[y as int]),
            pc: (s.pc + 2) % 4096,
            ..s
        },
        Instr::OrVy(x, y) => CpuView {
            v: s.v.update(x as int, s.v[x as int] | s.v[y as int]),
            pc: (s.pc + 2) % 4096,
            ..s
        },
        Instr::AndVy(x, y) => CpuView {
            v: s.v.update(x as int, s.v[x as int] & s.v[y as int]),
            pc: (s.pc + 2) % 4096,
            ..s
        },
        Instr::XorVy(x, y) => CpuView {
            v: s.v.update(x as int, s.v[x as int] ^ s.v[y as int]),
            pc: (s.pc + 2) % 4096,
            ..s
        },
        Instr::AddVy(x, y) => {
            let sum = s.v[x as int] + s.v[y as int];
            CpuView {
                v: s.v.update(x as int, (sum % 256) as u8).update(
                    15,
                    if sum > 255 { 1u8 } else { 0u8 },
                ),
                pc: (s.pc + 2) % 4096,
                ..s
            }
        },
        Instr::SubVy(x, y) => {
            let a = s.v[x as int];
            let b = s.v[y as int];
            CpuView {
                v: s.v.update(x as int, ((a + 256 - b) % 256) as u8).update(
                    15,
                    if a < b { 0u8 } else { 1u8 },
                ),
                pc: (s.pc + 2) % 4096,
                ..s
            }
        },
        Instr::ShrVy(x, y) => {
            let b = s.v[y as int];
            CpuView {
                v: s.v.update(15, if b >= 128 { 128u8 } else { 0u8 }).update(
                    x as int,
                    b / 2,
                ),
                pc: (s.pc + 2) % 4096,
                ..s
            }
        },
        Instr::SubnVy(x, y) => {
            let a = s.v[y as int];
            let b = s.v[x as int];
            CpuView {
                v: s.v.update(x as int, ((a + 256 - b) % 256) as u8).update(
                    15,
                    if a < b { 0u8 } else { 1u8 },
                ),
                pc: (s.pc + 2) % 4096,
                ..s
            }
        },
        Instr::ShlVy(x, y) => {
            let b = s.v[y as int];
            CpuView {
                v: s.v.update(15, (b % 2) as u8).update(x as int, ((b * 2) % 256) as u8),
                pc: (s.pc + 2) % 4096,
                ..s
            }
        },
        Instr::SneVy(x, y) => CpuView {
            pc: (s.pc + if s.v[x as int] != s.v[y as int] { 4int } else { 2 }) as nat % 4096,
            ..s
        },
        Instr::LdI(a) => CpuView { i: a as nat, pc: (s.pc + 2) % 4096, ..s },
        Instr::JpV0(a) => CpuView { pc: (a + s.v[0]) as nat % 4096, ..s },
        Instr::Rnd(x, nn) => CpuView {
            v: s.v.update(x as int, rnd & nn),
            pc: (s.pc + 2) % 4096,
            ..s
        },
        Instr::Drw(x, y, n) => {
            let px = s.v[x as int] as nat;
            let py = s.v[y as int] as nat;
            let sprite = sprite_seq(s.mem, s.i, n as nat);
            CpuView {
                grid: blit(s.grid, px, py, sprite),
                v: s.v.update(15, if collides(s.grid, px, py, sprite) { 1u8 } else { 0u8 }),
                pc: (s.pc + 2) % 4096,
                ..s
            }
        },
        Instr::Skp(x) => CpuView {
            pc: (s.pc + if s.keys[s.v[x as int] as int % 16] { 4int } else { 2 }) as nat % 4096,
            ..s
        },
        Instr::Sknp(x) => CpuView {
            pc: (s.pc + if s.keys[s.v[x as int] as int % 16] { 2int } else { 4 }) as nat % 4096,
            ..s
        },
        Instr::LdVxDt(x) => CpuView {
            v: s.v.update(x as int, s.dt),
            pc: (s.pc + 2) % 4096,
            ..s
        },
        Instr::WaitKey(x) => CpuView { wait: Some(x), ..s },
        Instr::LdDtVx(x) => CpuView { dt: s.v[x as int], pc: (s.pc + 2) % 4096, ..s },
        Instr::LdStVx(x) => CpuView { st: s.v[x as int], pc: (s.pc + 2) % 4096, ..s },
        Instr::AddIVx(x) => CpuView {
            i: (s.i + s.v[x as int]) as nat % 4096,
            pc: (s.pc + 2) % 4096,
            ..s
        },
        Instr::LdFVx(x) => CpuView {
            i: (s.v[x as int] * 5) as nat,
            pc: (s.pc + 2) % 4096,
            ..s
        },
        Instr::Bcd(x) => {
            let d = s.v[x as int];
            CpuView {
                mem: s.mem.update(s.i as int, d / 100).update(
                    wrap_add(s.i as int, 1, 4096),
                    (d / 10) % 10,
                ).update(wrap_add(s.i as int, 2, 4096), d % 10),
                pc: (s.pc + 2) % 4096,
                ..s
            }
        },
        Instr::StoreRegs(x) => CpuView {
            mem: store_regs_mem(s.mem, s.i, s.v, x as int, x as int + 1),
            i: (s.i + x + 1) as nat % 4096,
            pc: (s.pc + 2) % 4096,
            ..s
        },
        Instr::LoadRegs(x) => CpuView {
            v: load_regs_v(s.v, s.mem, s.i, x as int, x as int + 1),
            i: (s.i + x + 1) as nat % 4096,
            pc: (s.pc + 2) % 4096,
            ..s
        },
        Instr::Unknown => s,
    }
}

/// One whole machine cycle: fetch the word at the program counter, decode
/// it, execute it. `rnd` is the byte the randomness source supplied.
pub open spec fn spec_cycle(s: CpuView, rnd: u8) -> CpuView {
    spec_exec_instr(s, spec_decode(spec_fetch(s)), rnd)
}

/// Resolving wait-for-key with `key`: only if the machine is waiting and
/// that key is currently pressed does the pending register receive the
/// key index, the wait end, and the program counter move past the wait
/// instruction; otherwise nothing changes.
pub open spec fn spec_resolve(s: CpuView, key: int) -> CpuView {
    match s.wait {
        Some(x) => {
            if s.keys[key] {
                CpuView {
                    v: s.v.update(x as int, key as u8),
                    wait: None,
                    pc: (s.pc + 2) % 4096,
                    ..s
                }
            } else {
                s
            }
        },
        None => s,
    }
}

/// The built-in font: sixteen glyphs of five bytes each for digits 0-F.
pub open spec fn font_seq() -> Seq<u8> {
    seq![
        0xF0u8, 0x90, 0x90, 0x90, 0xF0,
        0x20, 0x60, 0x20, 0x20, 0x70,
        0xF0, 0x10, 0xF0, 0x80, 0xF0,
        0xF0, 0x10, 0xF0, 0x10, 0xF0,
        0x90, 0x90, 0xF0, 0x10, 0x10,
        0xF0, 0x80, 0xF0, 0x10, 0xF0,
        0xF0, 0x80, 0xF0, 0x90, 0xF0,
        0xF0, 0x10, 0x20, 0x40, 0x40,
        0xF0, 0x90, 0xF0, 0x90, 0xF0,
        0xF0, 0x90, 0xF0, 0x10, 0xF0,
        0xF0, 0x90, 0xF0, 0x90, 0x90,
        0xE0, 0x90, 0xE0, 0x90, 0xE0,
        0xF0, 0x80, 0x80, 0x80, 0xF0,
        0xE0, 0x90, 0x90, 0x90, 0xE0,
        0xF0, 0x80, 0xF0, 0x80, 0xF0,
        0xF0, 0x80, 0xF0, 0x80, 0x80,
    ]
}

/// Memory after copying `rom` byte by byte to consecutive addresses from
/// `base`; bytes that would land past the end of memory are dropped.
pub open spec fn load_mem(mem: Seq<u8>, base: nat, rom: Seq<u8>) -> Seq<u8> {
    Seq::new(4096, |a: int| {
        if base <= a && a - base < rom.len() {
            rom[a - base]
        } else {
            mem[a]
        }
    })
}

/// Decodes an opcode word into its instruction and in-range operands.
pub fn decode(op: u16) -> (r: Instr)
    ensures
        r == spec_decode(op),
        instr_wf(r),
{
    let n0 = op / 4096;
    let x = ((op / 256) % 16) as u8;
    let y = ((op / 16) % 16) as u8;
    let n = (op % 16) as u8;
    let nn = (op % 256) as u8;
    let addr = op % 4096;
    if n0 == 0x0 {
        if op == 0x00E0 {
            Instr::Cls
        } else if op == 0x00EE {
            Instr::Ret
        } else {
            Instr::Unknown
        }
    } else if n0 == 0x1 {
        Instr::Jp(addr)
    } else if n0 == 0x2 {
        Instr::Call(addr)
    } else if n0 == 0x3 {
        Instr::SeNn(x, nn)
    } else if n0 == 0x4 {
        Instr::SneNn(x, nn)
    } else if n0 == 0x5 {
        if n == 0x0 {
            Instr::SeVy(x, y)
        } else {
            Instr::Unknown
        }
    } else if n0 == 0x6 {
        Instr::LdNn(x, nn)
    } else if n0 == 0x7 {
        Instr::AddNn(x, nn)
    } else if n0 == 0x8 {
        if n == 0x0 {
            Instr::LdVy(x, y)
        } else if n == 0x1 {
            Instr::OrVy(x, y)
        } else if n == 0x2 {
            Instr::AndVy(x, y)
        } else if n == 0x3 {
            Instr::XorVy(x, y)
        } else if n == 0x4 {
            Instr::AddVy(x, y)
        } else if n == 0x5 {
            Instr::SubVy(x, y)
        } else if n == 0x6 {
            Instr::ShrVy(x, y)
        } else if n == 0x7 {
            Instr::SubnVy(x, y)
        } else if n == 0xE {
            Instr::ShlVy(x, y)
        } else {
            Instr::Unknown
        }
    } else if n0 == 0x9 {
        if n == 0x0 {
            Instr::SneVy(x, y)
        } else {
            Instr::Unknown
        }
    } else if n0 == 0xA {
        Instr::LdI(addr)
    } else if n0 == 0xB {
        Instr::JpV0(addr)
    } else if n0 == 0xC {
        Instr::Rnd(x, nn)
    } else if n0 == 0xD {
        Instr::Drw(x, y, n)
    } else if n0 == 0xE {
        if nn == 0x9E {
            Instr::Skp(x)
        } else if nn == 0xA1 {
            Instr::Sknp(x)
        } else {
            Instr::Unknown
        }
    } else {
        if nn == 0x07 {
            Instr::LdVxDt(x)
        } else if nn == 0x0A {
            Instr::WaitKey(x)
        } else if nn == 0x15 {
            Instr::LdDtVx(x)
        } else if nn == 0x18 {
            Instr::LdStVx(x)
        } else if nn == 0x1E {
            Instr::AddIVx(x)
        } else if nn == 0x29 {
            Instr::LdFVx(x)
        } else if nn == 0x33 {
            Instr::Bcd(x)
        } else if nn == 0x55 {
            Instr::StoreRegs(x)
        } else if nn == 0x65 {
            Instr::LoadRegs(x)
        } else {
            Instr::Unknown
        }
    }
}

/// Storing one more register extends the stored block by exactly the
/// next wrapped address, which no earlier register wrote.
proof fn lemma_store_step(mem0: Seq<u8>, base: nat, v: Seq<u8>, x: int, k: int)
    requires
        mem0.len() == 4096,
        base < 4096,
        0 <= k <= x < 16,
    ensures
        0 <= wrap_add(base as int, k, 4096) < 4096,
        store_regs_mem(mem0, base, v, x, k + 1) == store_regs_mem(mem0, base, v, x, k).update(
            wrap_add(base as int, k, 4096),
            v[k],
        ),
{
    lemma_wrap_round(base as int, k, 4096);
    let t = wrap_add(base as int, k, 4096);
    assert forall|a: int|
        #![trigger store_regs_mem(mem0, base, v, x, k)[a]]
        0 <= a < 4096 && a != t implies wrap_dist(a, base as int, 4096) != k by {
        if wrap_dist(a, base as int, 4096) == k {
            lemma_wrap_unround(a, base as int, 4096);
        }
    }
    assert(store_regs_mem(mem0, base, v, x, k + 1) =~= store_regs_mem(mem0, base, v, x, k).update(
        t,
        v[k],
    ));
}

/// A random byte for the random-masking instruction.
///
/// Relies on rand::random, drawing from rand's thread-local generator:
/// nothing is promised of the value, and the caller states what holds of
/// every outcome.
#[verifier::external_body]
fn random_byte() -> u8 {
    rand::random::<u8>()
}

/// A vector of `n` zero bytes.
fn zero_bytes(n: usize) -> (r: Vec<u8>)
    ensures
        r@.len() == n,
        forall|i: int| 0 <= i < n ==> r@[i] == 0,
{
    let mut bytes: Vec<u8> = Vec::new();
    let mut k: usize = 0;
    while k < n
        invariant
            bytes@.len() == k,
            k <= n,
            forall|i: int| 0 <= i < k ==> bytes@[i] == 0,
        decreases n - k,
    {
        bytes.push(0);
        k = k + 1;
    }
    bytes
}

/// The font table as bytes: sixteen glyphs of five bytes each.
fn font_data() -> (r: Vec<u8>)
    ensures
        r@ == font_seq(),
{
    let glyphs: [u8; 80] = [
        0xF0, 0x90, 0x90, 0x90, 0xF0,
        0x20, 0x60, 0x20, 0x20, 0x70,
        0xF0, 0x10, 0xF0, 0x80, 0xF0,
        0xF0, 0x10, 0xF0, 0x10, 0xF0,
        0x90, 0x90, 0xF0, 0x10, 0x10,
        0xF0, 0x80, 0xF0, 0x10, 0xF0,
        0xF0, 0x80, 0xF0, 0x90, 0xF0,
        0xF0, 0x10, 0x20, 0x40, 0x40,
        0xF0, 0x90, 0xF0, 0x90, 0xF0,
        0xF0, 0x90, 0xF0, 0x10, 0xF0,
        0xF0, 0x90, 0xF0, 0x90, 0x90,
        0xE0, 0x90, 0xE0, 0x90, 0xE0,
        0xF0, 0x80, 0x80, 0x80, 0xF0,
        0xE0, 0x90, 0x90, 0x90, 0xE0,
        0xF0, 0x80, 0xF0, 0x80, 0xF0,
        0xF0, 0x80, 0xF0, 0x80, 0x80,
    ];
    let mut bytes: Vec<u8> = Vec::new();
    let mut k: usize = 0;
    while k < 80
        invariant
            bytes@.len() == k,
            k <= 80,
            glyphs@ =~= font_seq(),
            forall|i: int| 0 <= i < k ==> bytes@[i] == font_seq()[i],
        decreases 80 - k,
    {
        bytes.push(glyphs[k]);
        k = k + 1;
    }
    proof {
        assert(bytes@ =~= font_seq());
    }
    bytes
}

/// The CHIP-8 machine: registers, memory, display, keypad, call stack,
/// timers and wait-for-key mode, driven by an external loop that calls
/// `cpu_cycle` and `update_cpu_timers` at fixed rates.
pub struct CPU {
    /// The sixteen registers V0..=VF; VF doubles as the flag output of
    /// arithmetic, shift and draw instructions.
    v: Vec<u8>,
    /// Index register, the base pointer of memory-referencing
    /// instructions; always below 4096.
    i: usize,
    /// Program counter; always below 4096.
    pc: usize,
    /// 4096 bytes of memory; the font sits at 0x000..0x050, programs
    /// load from 0x200.
    pub memory: Vec<u8>,
    /// The framebuffer, read directly by the renderer.
    pub display: Display,
    /// The key flags, written directly by the input driver.
    pub keypad: Keypad,
    /// While `Some(x)`, the machine is blocked waiting for a key whose
    /// index will be stored in register `x`.
    pub wait_for_key: Option<u8>,
    /// Sixteen saved return addresses.
    pub stack: Vec<u16>,
    /// Stack pointer: the number of live stack entries, 0..=16.
    pub sp: usize,
    /// Delay timer, decremented by `update_cpu_timers` while positive.
    pub delay_timer: u8,
    /// Sound timer, decremented by `update_cpu_timers` while positive.
    pub sound_timer: u8,
}

impl View for CPU {
    type V = CpuView;

    closed spec fn view(&self) -> CpuView {
        CpuView {
            v: self.v@,
            i: self.i as nat,
            pc: self.pc as nat,
            mem: self.memory@,
            grid: self.display@,
            keys: self.keypad@,
            wait: self.wait_for_key,
            stack: self.stack@,
            sp: self.sp as nat,
            dt: self.delay_timer,
            st: self.sound_timer,
        }
    }
}

impl CPU {
    /// The machine invariant holds of this machine's state.
    pub open spec fn wf(&self) -> bool {
        inv(self@)
    }

    /// Creates a machine with the font loaded at the low end of memory,
    /// everything else zeroed, and the program counter at 0x200.
    pub fn new() -> (r: CPU)
        ensures
            r.wf(),
            r@.pc == 0x200,
            r@.i == 0,
            r@.sp == 0,
            r@.dt == 0,
            r@.st == 0,
            r@.wait is None,
            forall|k: int| 0 <= k < 16 ==> r@.v[k] == 0,
            forall|k: int| 0 <= k < 16 ==> r@.stack[k] == 0,
            forall|k: int| 0 <= k < 16 ==> !r@.keys[k],
            forall|c: int| 0 <= c < 2048 ==> r@.grid[c] == 0,
            forall|a: int| 0 <= a < 80 ==> r@.mem[a] == font_seq()[a],
            forall|a: int| 80 <= a < 4096 ==> r@.mem[a] == 0,
    {
        let mut memory = zero_bytes(4096);
        let font = font_data();
        let mut a: usize = 0;
        while a < 80
            invariant
                memory@.len() == 4096,
                font@ == font_seq(),
                a <= 80,
                forall|i: int| 0 <= i < a ==> memory@[i] == font_seq()[i],
                forall|i: int| a <= i < 4096 ==> memory@[i] == 0,
            decreases 80 - a,
        {
            memory.set(a, font[a]);
            a = a + 1;
        }
        let mut stack: Vec<u16> = Vec::new();
        let mut k: usize = 0;
        while k < 16
            invariant
                stack@.len() == k,
                k <= 16,
                forall|i: int| 0 <= i < k ==> stack@[i] == 0,
            decreases 16 - k,
        {
            stack.push(0);
            k = k + 1;
        }
        CPU {
            v: zero_bytes(16),
            i: 0,
            pc: 0x200,
            memory,
            display: Display::new(),
            keypad: Keypad::new(),
            wait_for_key: None,
            stack,
            sp: 0,
            delay_timer: 0,
            sound_timer: 0,
        }
    }

    /// Copies a program image into memory byte by byte, starting at the
    /// current program counter; bytes past the end of memory are dropped.
    pub fn load_rom(&mut self, rom: &[u8])
        requires
            old(self).wf(),
        ensures
            final(self).wf(),
            final(self)@ == (CpuView { mem: load_mem(old(self)@.mem, old(self)@.pc, rom@), ..old(
                self,
            )@ }),
    {
        let base = self.pc;
        let mut k: usize = 0;
        while k < rom.len() && base + k < 4096
            invariant
                old(self).wf(),
                base == old(self)@.pc,
                k <= rom@.len(),
                k <= 4096,
                self@ == (CpuView { mem: load_mem(old(self)@.mem, old(self)@.pc, rom@.take(k as int)), ..old(self)@ }),
            decreases rom@.len() - k,
        {
            proof {
                assert(load_mem(old(self)@.mem, old(self)@.pc, rom@.take(k + 1)) =~= load_mem(
                    old(self)@.mem,
                    old(self)@.pc,
                    rom@.take(k as int),
                ).update(base + k, rom@[k as int]));
            }
            self.memory.set(base + k, rom[k]);
            k = k + 1;
        }
        proof {
            assert(load_mem(old(self)@.mem, old(self)@.pc, rom@.take(k as int)) =~= load_mem(
                old(self)@.mem,
                old(self)@.pc,
                rom@,
            ));
            assert(self@ =~= (CpuView { mem: load_mem(old(self)@.mem, old(self)@.pc, rom@), ..old(
                self,
            )@ }));
        }
    }

    /// Executes one fetch/decode/execute cycle.
    ///
    /// The final state is the step function of the prior state for some
    /// byte of randomness; for every instruction except the random one
    /// the byte is irrelevant and the step is deterministic.
    pub fn cpu_cycle(&mut self)
        requires
            old(self).wf(),
        ensures
            final(self).wf(),
            exists|r: u8| final(self)@ == spec_cycle(old(self)@, r),
            !(spec_decode(spec_fetch(old(self)@)) matches Instr::Rnd(_, _)) ==> final(self)@
                == spec_cycle(old(self)@, 0),
    {
        let op = self.fetch_opcode();
        self.execute_opcode(op);
        proof {
            let r0 = choose|r: u8| self@ == spec_exec_instr(old(self)@, spec_decode(op), r);
            assert(self@ == spec_cycle(old(self)@, r0));
        }
    }

    /// Decrements each timer that is positive; a timer at zero stays.
    pub fn update_cpu_timers(&mut self)
        ensures
            final(self)@ == (CpuView {
                dt: tick(old(self)@.dt),
                st: tick(old(self)@.st),
                ..old(self)@
            }),
    {
        if self.delay_timer > 0 {
            self.delay_timer = self.delay_timer - 1;
        }
        if self.sound_timer > 0 {
            self.sound_timer = self.sound_timer - 1;
        }
    }

    /// Whether the machine is blocked waiting for a key.
    pub fn is_waiting_for_key(&self) -> (r: bool)
        ensures
            r == (self@.wait is Some),
    {
        self.wait_for_key.is_some()
    }

    /// Resolves wait-for-key with `key`: if the machine is waiting and
    /// the keypad currently reports `key` pressed, the pending register
    /// receives the key index, the wait ends, and the program counter
    /// moves past the wait instruction; otherwise nothing changes. A key
    /// released again before resolution therefore does not end the wait.
    pub fn stop_waiting_for_key(&mut self, key: usize)
        requires
            old(self).wf(),
            key < 16,
        ensures
            final(self).wf(),
            final(self)@ == spec_resolve(old(self)@, key as int),
    {
        if let Some(x) = self.wait_for_key {
            if self.keypad.get_key_state(key) {
                self.v.set(x as usize, key as u8);
                self.wait_for_key = None;
                self.pc = (self.pc + 2) % 4096;
            }
        }
    }

    /// Reads register `Vx`.
    pub fn get_register(&self, x: u8) -> (r: u8)
        requires
            self.wf(),
            x < 16,
        ensures
            r == self@.v[x as int],
    {
        self.v[x as usize]
    }

    /// Writes register `Vx`.
    pub fn set_register(&mut self, x: u8, val: u8)
        requires
            old(self).wf(),
            x < 16,
        ensures
            final(self).wf(),
            final(self)@ == (CpuView { v: old(self)@.v.update(x as int, val), ..old(self)@ }),
    {
        self.v.set(x as usize, val);
    }

    /// Reads the program counter.
    pub fn get_pc(&self) -> (r: usize)
        ensures
            r == self@.pc,
    {
        self.pc
    }

    /// Sets the program counter.
    pub fn set_pc(&mut self, pc: usize)
        requires
            old(self).wf(),
            pc < 4096,
        ensures
            final(self).wf(),
            final(self)@ == (CpuView { pc: pc as nat, ..old(self)@ }),
    {
        self.pc = pc;
    }

    /// Reads the index register.
    pub fn get_i(&self) -> (r: usize)
        ensures
            r == self@.i,
    {
        self.i
    }

    /// Sets the index register.
    pub fn set_i(&mut self, i: usize)
        requires
            old(self).wf(),
            i < 4096,
        ensures
            final(self).wf(),
            final(self)@ == (CpuView { i: i as nat, ..old(self)@ }),
    {
        self.i = i;
    }

    /// Reads the sixteen-bit word at the program counter, big-endian.
    fn fetch_opcode(&self) -> (op: u16)
        requires
            self.wf(),
        ensures
            op == spec_fetch(self@),
    {
        let hi = self.memory[self.pc] as u16;
        let lo = self.memory[(self.pc + 1) % 4096] as u16;
        hi * 256 + lo
    }

    /// Decodes and executes one opcode word.
    fn execute_opcode(&mut self, op: u16)
        requires
            old(self).wf(),
        ensures
            final(self).wf(),
            exists|r: u8| final(self)@ == spec_exec_instr(old(self)@, spec_decode(op), r),
            !(spec_decode(op) matches Instr::Rnd(_, _)) ==> final(self)@ == spec_exec_instr(
                old(self)@,
                spec_decode(op),
                0,
            ),
    {
        let ins = decode(op);
        match ins {
            Instr::Cls => self.instr_cls(),
            Instr::Ret => self.instr_ret(),
            Instr::Jp(addr) => self.instr_jp_addr(addr),
            Instr::Call(addr) => self.instr_call_addr(addr),
            Instr::SeNn(x, nn) => self.instr_se_vx_nn(x, nn),
            Instr::SneNn(x, nn) => self.instr_sne_vx_nn(x, nn),
            Instr::SeVy(x, y) => self.instr_se_vx_vy(x, y),
            Instr::LdNn(x, nn) => self.instr_ld_vx_nn(x, nn),
            Instr::AddNn(x, nn) => self.instr_add_vx_nn(x, nn),
            Instr::LdVy(x, y) => self.instr_ld_vx_vy(x, y),
            Instr::OrVy(x, y) => self.instr_or_vx_vy(x, y),
            Instr::AndVy(x, y) => self.instr_and_vx_vy(x, y),
            Instr::XorVy(x, y) => self.instr_xor_vx_vy(x, y),
            Instr::AddVy(x, y) => self.instr_add_vx_vy(x, y),
            Instr::SubVy(x, y) => self.instr_sub_vx_vy(x, y),
            Instr::ShrVy(x, y) => self.instr_shr_vx_vy(x, y),
            Instr::SubnVy(x, y) => self.instr_subn_vx_vy(x, y),
            Instr::ShlVy(x, y) => self.instr_shl_vx_vy(x, y),
            Instr::SneVy(x, y) => self.instr_sne_vx_vy(x, y),
            Instr::LdI(addr) => self.instr_ld_i_addr(addr),
            Instr::JpV0(addr) => self.instr_jp_v0_addr(addr),
            Instr::Rnd(x, nn) => {
                let rb = random_byte();
                self.instr_rnd_vx_nn(x, nn, rb);
                proof {
                    assert(self@ == spec_exec_instr(old(self)@, spec_decode(op), rb));
                }
            },
            Instr::Drw(x, y, n) => self.instr_drw_vx_vy_nn(x, y, n),
            Instr::Skp(x) => self.instr_skp_vx(x),
            Instr::Sknp(x) => self.instr_sknp_vx(x),
            Instr::LdVxDt(x) => self.instr_ld_vx_dt(x),
            Instr::WaitKey(x) => self.instr_ld_vx_k(x),
            Instr::LdDtVx(x) => self.instr_ld_dt_vx(x),
            Instr::LdStVx(x) => self.instr_ld_st_vx(x),
            Instr::AddIVx(x) => self.instr_add_i_vx(x),
            Instr::LdFVx(x) => self.instr_ld_f_vx(x),
            Instr::Bcd(x) => self.instr_ld_b_vx(x),
            Instr::StoreRegs(x) => self.instr_ld_i_vx(x),
            Instr::LoadRegs(x) => self.instr_ld_vx_i(x),
            Instr::Unknown => {},
        }
    }

    /// 00E0: clear the display.
    fn instr_cls(&mut self)
        requires
            old(self).wf(),
        ensures
            final(self).wf(),
            final(self)@ == spec_exec_instr(old(self)@, Instr::Cls, 0),
    {
        self.display.clear();
        self.pc = (self.pc + 2) % 4096;
        proof {
            assert(self.display@ =~= Seq::new(2048, |i: int| 0u8));
            assert(self@ =~= spec_exec_instr(old(self)@, Instr::Cls, 0));
        }
    }

    /// 00EE: return from a subroutine; with an empty stack the return is
    /// ignored.
    fn instr_ret(&mut self)
        requires
            old(self).wf(),
        ensures
            final(self).wf(),
            final(self)@ == spec_exec_instr(old(self)@, Instr::Ret, 0),
    {
        if self.sp > 0 {
            self.sp = self.sp - 1;
            let addr = self.stack[self.sp];
            self.pc = (addr as usize + 2) % 4096;
        }
    }

    /// 1nnn: jump to `addr`.
    fn instr_jp_addr(&mut self, addr: u16)
        requires
            old(self).wf(),
            addr < 4096,
        ensures
            final(self).wf(),
            final(self)@ == spec_exec_instr(old(self)@, Instr::Jp(addr), 0),
    {
        self.pc = addr as usize;
    }

    /// 2nnn: call the subroutine at `addr`; with a full stack the call is
    /// ignored.
    fn instr_call_addr(&mut self, addr: u16)
        requires
            old(self).wf(),
            addr < 4096,
        ensures
            final(self).wf(),
            final(self)@ == spec_exec_instr(old(self)@, Instr::Call(addr), 0),
    {
        if self.sp < 16 {
            self.stack.set(self.sp, self.pc as u16);
            self.sp = self.sp + 1;
            self.pc = addr as usize;
        }
    }

    /// 3xnn: skip the next instruction if `Vx == nn`.
    fn instr_se_vx_nn(&mut self, x: u8, nn: u8)
        requires
            old(self).wf(),
            x < 16,
        ensures
            final(self).wf(),
            final(self)@ == spec_exec_instr(old(self)@, Instr::SeNn(x, nn), 0),
    {
        let step: usize = if self.v[x as usize] == nn { 4 } else { 2 };
        self.pc = (self.pc + step) % 4096;
    }

    /// 4xnn: skip the next instruction if `Vx != nn`.
    fn instr_sne_vx_nn(&mut self, x: u8, nn: u8)
        requires
            old(self).wf(),
            x < 16,
        ensures
            final(self).wf(),
            final(self)@ == spec_exec_instr(old(self)@, Instr::SneNn(x, nn), 0),
    {
        let step: usize = if self.v[x as usize] != nn { 4 } else { 2 };
        self.pc = (self.pc + step) % 4096;
    }

    /// 5xy0: skip the next instruction if `Vx == Vy`.
    fn instr_se_vx_vy(&mut self, x: u8, y: u8)
        requires
            old(self).wf(),
            x < 16,
            y < 16,
        ensures
            final(self).wf(),
            final(self)@ == spec_exec_instr(old(self)@, Instr::SeVy(x, y), 0),
    {
        let step: usize = if self.v[x as usize] == self.v[y as usize] { 4 } else { 2 };
        self.pc = (self.pc + step) % 4096;
    }

    /// 6xnn: set `Vx = nn`.
    fn instr_ld_vx_nn(&mut self, x: u8, nn: u8)
        requires
            old(self).wf(),
            x < 16,
        ensures
            final(self).wf(),
            final(self)@ == spec_exec_instr(old(self)@, Instr::LdNn(x, nn), 0),
    {
        self.v.set(x as usize, nn);
        self.pc = (self.pc + 2) % 4096;
    }

    /// 7xnn: set `Vx = Vx + nn` modulo 256; the flag is not written.
    fn instr_add_vx_nn(&mut self, x: u8, nn: u8)
        requires
            old(self).wf(),
            x < 16,
        ensures
            final(self).wf(),
            final(self)@ == spec_exec_instr(old(self)@, Instr::AddNn(x, nn), 0),
    {
        let sum: u16 = self.v[x as usize] as u16 + nn as u16;
        self.v.set(x as usize, (sum % 256) as u8);
        self.pc = (self.pc + 2) % 4096;
    }

    /// 8xy0: set `Vx = Vy`.
    fn instr_ld_vx_vy(&mut self, x: u8, y: u8)
        requires
            old(self).wf(),
            x < 16,
            y < 16,
        ensures
            final(self).wf(),
            final(self)@ == spec_exec_instr(old(self)@, Instr::LdVy(x, y), 0),
    {
        let vy = self.v[y as usize];
        self.v.set(x as usize, vy);
        self.pc = (self.pc + 2) % 4096;
    }

    /// 8xy1: set `Vx = Vx | Vy`.
    fn instr_or_vx_vy(&mut self, x: u8, y: u8)
        requires
            old(self).wf(),
            x < 16,
            y < 16,
        ensures
            final(self).wf(),
            final(self)@ == spec_exec_instr(old(self)@, Instr::OrVy(x, y), 0),
    {
        let r = self.v[x as usize] | self.v[y as usize];
        self.v.set(x as usize, r);
        self.pc = (self.pc + 2) % 4096;
    }

    /// 8xy2: set `Vx = Vx & Vy`.
    fn instr_and_vx_vy(&mut self, x: u8, y: u8)
        requires
            old(self).wf(),
            x < 16,
            y < 16,
        ensures
            final(self).wf(),
            final(self)@ == spec_exec_instr(old(self)@, Instr::AndVy(x, y), 0),
    {
        let r = self.v[x as usize] & self.v[y as usize];
        self.v.set(x as usize, r);
        self.pc = (self.pc + 2) % 4096;
    }

    /// 8xy3: set `Vx = Vx ^ Vy`.
    fn instr_xor_vx_vy(&mut self, x: u8, y: u8)
        requires
            old(self).wf(),
            x < 16,
            y < 16,
        ensures
            final(self).wf(),
            final(self)@ == spec_exec_instr(old(self)@, Instr::XorVy(x, y), 0),
    {
        let r = self.v[x as usize] ^ self.v[y as usize];
        self.v.set(x as usize, r);
        self.pc = (self.pc + 2) % 4096;
    }

    /// 8xy4: set `Vx = Vx + Vy` modulo 256; the flag becomes 1 exactly
    /// when the untruncated sum exceeds 255.
    fn instr_add_vx_vy(&mut self, x: u8, y: u8)
        requires
            old(self).wf(),
            x < 16,
            y < 16,
        ensures
            final(self).wf(),
            final(self)@ == spec_exec_instr(old(self)@, Instr::AddVy(x, y), 0),
    {
        let sum: u16 = self.v[x as usize] as u16 + self.v[y as usize] as u16;
        self.v.set(x as usize, (sum % 256) as u8);
        self.v.set(15, if sum > 255 { 1 } else { 0 });
        self.pc = (self.pc + 2) % 4096;
    }

    /// 8xy5: set `Vx = Vx - Vy` modulo 256; the flag becomes 0 exactly
    /// when the signed difference is negative.
    fn instr_sub_vx_vy(&mut self, x: u8, y: u8)
        requires
            old(self).wf(),
            x < 16,
            y < 16,
        ensures
            final(self).wf(),
            final(self)@ == spec_exec_instr(old(self)@, Instr::SubVy(x, y), 0),
    {
        let a = self.v[x as usize];
        let b = self.v[y as usize];
        let diff: u16 = (a as u16 + 256 - b as u16) % 256;
        self.v.set(x as usize, diff as u8);
        self.v.set(15, if a < b { 0 } else { 1 });
        self.pc = (self.pc + 2) % 4096;
    }

    /// 8xy6: the flag receives `Vy & 0x80` (not normalized), then `Vx`
    /// receives `Vy` shifted right one bit.
    fn instr_shr_vx_vy(&mut self, x: u8, y: u8)
        requires
            old(self).wf(),
            x < 16,
            y < 16,
        ensures
            final(self).wf(),
            final(self)@ == spec_exec_instr(old(self)@, Instr::ShrVy(x, y), 0),
    {
        let b = self.v[y as usize];
        self.v.set(15, if b >= 128 { 128 } else { 0 });
        self.v.set(x as usize, b / 2);
        self.pc = (self.pc + 2) % 4096;
    }

    /// 8xy7: set `Vx = Vy - Vx` modulo 256; the flag becomes 0 exactly
    /// when the signed difference is negative.
    fn instr_subn_vx_vy(&mut self, x: u8, y: u8)
        requires
            old(self).wf(),
            x < 16,
            y < 16,
        ensures
            final(self).wf(),
            final(self)@ == spec_exec_instr(old(self)@, Instr::SubnVy(x, y), 0),
    {
        let a = self.v[y as usize];
        let b = self.v[x as usize];
        let diff: u16 = (a as u16 + 256 - b as u16) % 256;
        self.v.set(x as usize, diff as u8);
        self.v.set(15, if a < b { 0 } else { 1 });
        self.pc = (self.pc + 2) % 4096;
    }

    /// 8xyE: the flag receives `Vy & 0x01`, then `Vx` receives `Vy`
    /// shifted left one bit, modulo 256.
    fn instr_shl_vx_vy(&mut self, x: u8, y: u8)
        requires
            old(self).wf(),
            x < 16,
            y < 16,
        ensures
            final(self).wf(),
            final(self)@ == spec_exec_instr(old(self)@, Instr::ShlVy(x, y), 0),
    {
        let b = self.v[y as usize];
        self.v.set(15, b % 2);
        self.v.set(x as usize, ((b as u16 * 2) % 256) as u8);
        self.pc = (self.pc + 2) % 4096;
    }

    /// 9xy0: skip the next instruction if `Vx != Vy`.
    fn instr_sne_vx_vy(&mut self, x: u8, y: u8)
        requires
            old(self).wf(),
            x < 16,
            y < 16,
        ensures
            final(self).wf(),
            final(self)@ == spec_exec_instr(old(self)@, Instr::SneVy(x, y), 0),
    {
        let step: usize = if self.v[x as usize] != self.v[y as usize] { 4 } else { 2 };
        self.pc = (self.pc + step) % 4096;
    }

    /// Annn: set `I = addr`.
    fn instr_ld_i_addr(&mut self, addr: u16)
        requires
            old(self).wf(),
            addr < 4096,
        ensures
            final(self).wf(),
            final(self)@ == spec_exec_instr(old(self)@, Instr::LdI(addr), 0),
    {
        self.i = addr as usize;
        self.pc = (self.pc + 2) % 4096;
    }

    /// Bnnn: jump to `addr + V0`, wrapped into memory.
    fn instr_jp_v0_addr(&mut self, addr: u16)
        requires
            old(self).wf(),
            addr < 4096,
        ensures
            final(self).wf(),
            final(self)@ == spec_exec_instr(old(self)@, Instr::JpV0(addr), 0),
    {
        self.pc = (addr as usize + self.v[0] as usize) % 4096;
    }

    /// Cxnn: set `Vx` to the supplied random byte ANDed with `nn`.
    fn instr_rnd_vx_nn(&mut self, x: u8, nn: u8, rnd: u8)
        requires
            old(self).wf(),
            x < 16,
        ensures
            final(self).wf(),
            final(self)@ == spec_exec_instr(old(self)@, Instr::Rnd(x, nn), rnd),
    {
        self.v.set(x as usize, rnd & nn);
        self.pc = (self.pc + 2) % 4096;
    }

    /// Dxyn: draw the `n`-row sprite at memory `I` at `(Vx, Vy)`; the
    /// flag becomes 1 exactly when the draw flips a lit pixel off.
    fn instr_drw_vx_vy_nn(&mut self, x: u8, y: u8, n: u8)
        requires
            old(self).wf(),
            x < 16,
            y < 16,
            n < 16,
        ensures
            final(self).wf(),
            final(self)@ == spec_exec_instr(old(self)@, Instr::Drw(x, y, n), 0),
    {
        let px = self.v[x as usize] as usize;
        let py = self.v[y as usize] as usize;
        let mut sprite: Vec<u8> = Vec::new();
        let mut r: usize = 0;
        while r < n as usize
            invariant
                old(self).wf(),
                self == old(self),
                r <= n as usize,
                sprite@ =~= sprite_seq(old(self)@.mem, old(self)@.i, r as nat),
            decreases n as usize - r,
        {
            sprite.push(self.memory[(self.i + r) % 4096]);
            proof {
                assert(sprite@ =~= sprite_seq(old(self)@.mem, old(self)@.i, (r + 1) as nat));
            }
            r = r + 1;
        }
        let collision = self.display.draw(px, py, sprite.as_slice());
        self.v.set(15, if collision { 1 } else { 0 });
        self.pc = (self.pc + 2) % 4096;
        proof {
            assert(self@ =~= spec_exec_instr(old(self)@, Instr::Drw(x, y, n), 0));
        }
    }

    /// Ex9E: skip the next instruction if the key indexed by `Vx`
    /// (reduced modulo 16) is pressed.
    fn instr_skp_vx(&mut self, x: u8)
        requires
            old(self).wf(),
            x < 16,
        ensures
            final(self).wf(),
            final(self)@ == spec_exec_instr(old(self)@, Instr::Skp(x), 0),
    {
        let key = self.v[x as usize] as usize % 16;
        let step: usize = if self.keypad.get_key_state(key) { 4 } else { 2 };
        self.pc = (self.pc + step) % 4096;
    }

    /// ExA1: skip the next instruction if the key indexed by `Vx`
    /// (reduced modulo 16) is not pressed.
    fn instr_sknp_vx(&mut self, x: u8)
        requires
            old(self).wf(),
            x < 16,
        ensures
            final(self).wf(),
            final(self)@ == spec_exec_instr(old(self)@, Instr::Sknp(x), 0),
    {
        let key = self.v[x as usize] as usize % 16;
        let step: usize = if self.keypad.get_key_state(key) { 2 } else { 4 };
        self.pc = (self.pc + step) % 4096;
    }

    /// Fx07: set `Vx` to the delay timer.
    fn instr_ld_vx_dt(&mut self, x: u8)
        requires
            old(self).wf(),
            x < 16,
        ensures
            final(self).wf(),
            final(self)@ == spec_exec_instr(old(self)@, Instr::LdVxDt(x), 0),
    {
        let dt = self.delay_timer;
        self.v.set(x as usize, dt);
        self.pc = (self.pc + 2) % 4096;
    }

    /// Fx0A: enter wait-for-key mode; the program counter does not
    /// advance, so the instruction re-executes until the wait is
    /// resolved externally.
    fn instr_ld_vx_k(&mut self, x: u8)
        requires
            old(self).wf(),
            x < 16,
        ensures
            final(self).wf(),
            final(self)@ == spec_exec_instr(old(self)@, Instr::WaitKey(x), 0),
    {
        self.wait_for_key = Some(x);
    }

    /// Fx15: set the delay timer to `Vx`.
    fn instr_ld_dt_vx(&mut self, x: u8)
        requires
            old(self).wf(),
            x < 16,
        ensures
            final(self).wf(),
            final(self)@ == spec_exec_instr(old(self)@, Instr::LdDtVx(x), 0),
    {
        self.delay_timer = self.v[x as usize];
        self.pc = (self.pc + 2) % 4096;
    }

    /// Fx18: set the sound timer to `Vx`.
    fn instr_ld_st_vx(&mut self, x: u8)
        requires
            old(self).wf(),
            x < 16,
        ensures
            final(self).wf(),
            final(self)@ == spec_exec_instr(old(self)@, Instr::LdStVx(x), 0),
    {
        self.sound_timer = self.v[x as usize];
        self.pc = (self.pc + 2) % 4096;
    }

    /// Fx1E: set `I = I + Vx`, wrapped into memory.
    fn instr_add_i_vx(&mut self, x: u8)
        requires
            old(self).wf(),
            x < 16,
        ensures
            final(self).wf(),
            final(self)@ == spec_exec_instr(old(self)@, Instr::AddIVx(x), 0),
    {
        self.i = (self.i + self.v[x as usize] as usize) % 4096;
        self.pc = (self.pc + 2) % 4096;
    }

    /// Fx29: point `I` at the font glyph for digit `Vx`, five bytes per
    /// glyph.
    fn instr_ld_f_vx(&mut self, x: u8)
        requires
            old(self).wf(),
            x < 16,
        ensures
            final(self).wf(),
            final(self)@ == spec_exec_instr(old(self)@, Instr::LdFVx(x), 0),
    {
        self.i = self.v[x as usize] as usize * 5;
        self.pc = (self.pc + 2) % 4096;
    }

    /// Fx33: store the hundreds, tens and ones digits of `Vx` at `I`,
    /// `I+1` and `I+2`, wrapped into memory.
    fn instr_ld_b_vx(&mut self, x: u8)
        requires
            old(self).wf(),
            x < 16,
        ensures
            final(self).wf(),
            final(self)@ == spec_exec_instr(old(self)@, Instr::Bcd(x), 0),
    {
        let vx = self.v[x as usize];
        let base = self.i;
        self.memory.set(base, vx / 100);
        self.memory.set((base + 1) % 4096, (vx / 10) % 10);
        self.memory.set((base + 2) % 4096, vx % 10);
        self.pc = (self.pc + 2) % 4096;
    }

    /// Fx55: store registers `V0..=Vx` at consecutive addresses from `I`
    /// (wrapped), then set `I = I + x + 1`.
    fn instr_ld_i_vx(&mut self, x: u8)
        requires
            old(self).wf(),
            x < 16,
        ensures
            final(self).wf(),
            final(self)@ == spec_exec_instr(old(self)@, Instr::StoreRegs(x), 0),
    {
        let mut k: usize = 0;
        proof {
            assert(store_regs_mem(old(self)@.mem, old(self)@.i, old(self)@.v, x as int, 0)
                =~= old(self)@.mem);
        }
        while k <= x as usize
            invariant
                old(self).wf(),
                x < 16,
                k <= x as usize + 1,
                self@ == (CpuView {
                    mem: store_regs_mem(
                        old(self)@.mem,
                        old(self)@.i,
                        old(self)@.v,
                        x as int,
                        k as int,
                    ),
                    ..old(self)@
                }),
            decreases x as usize + 1 - k,
        {
            proof {
                lemma_store_step(old(self)@.mem, old(self)@.i, old(self)@.v, x as int, k as int);
            }
            let addr = (self.i + k) % 4096;
            let vk = self.v[k];
            self.memory.set(addr, vk);
            k = k + 1;
        }
        self.i = (self.i + x as usize + 1) % 4096;
        self.pc = (self.pc + 2) % 4096;
        proof {
            assert(self@ =~= spec_exec_instr(old(self)@, Instr::StoreRegs(x), 0));
        }
    }

    /// Fx65: load registers `V0..=Vx` from consecutive addresses from `I`
    /// (wrapped), then set `I = I + x + 1`.
    fn instr_ld_vx_i(&mut self, x: u8)
        requires
            old(self).wf(),
            x < 16,
        ensures
            final(self).wf(),
            final(self)@ == spec_exec_instr(old(self)@, Instr::LoadRegs(x), 0),
    {
        let mut k: usize = 0;
        proof {
            assert(load_regs_v(old(self)@.v, old(self)@.mem, old(self)@.i, x as int, 0)
                =~= old(self)@.v);
        }
        while k <= x as usize
            invariant
                old(self).wf(),
                x < 16,
                k <= x as usize + 1,
                self@ == (CpuView {
                    v: load_regs_v(
                        old(self)@.v,
                        old(self)@.mem,
                        old(self)@.i,
                        x as int,
                        k as int,
                    ),
                    ..old(self)@
                }),
            decreases x as usize + 1 - k,
        {
            let addr = (self.i + k) % 4096;
            let b = self.memory[addr];
            self.v.set(k, b);
            proof {
                lemma_wrap_round(old(self)@.i as int, k as int, 4096);
                assert(load_regs_v(old(self)@.v, old(self)@.mem, old(self)@.i, x as int, k + 1)
                    =~= load_regs_v(
                    old(self)@.v,
                    old(self)@.mem,
                    old(self)@.i,
                    x as int,
                    k as int,
                ).update(k as int, b));
            }
            k = k + 1;
        }
        self.i = (self.i + x as usize + 1) % 4096;
        self.pc = (self.pc + 2) % 4096;
        proof {
            assert(self@ =~= spec_exec_instr(old(self)@, Instr::LoadRegs(x), 0));
        }
    }
}

} // verus!
