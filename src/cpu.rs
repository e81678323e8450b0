use vstd::prelude::*;
use crate::display::{draw_collision, draw_screen, Display, DISPLAY_SIZE};
use crate::instruction::{decode_spec, Instruction};
use crate::keyboard::{first_pressed, key_pressed, Keyboard, KEY_COUNT};

verus! {

/// Size of the address space in bytes.
pub const MEMORY_SIZE: usize = 4096;

/// Address at which programs are loaded and execution starts.
pub const PROGRAM_START: usize = 0x200;

/// Largest program that can be loaded, in bytes.
pub const MAX_ROM_SIZE: usize = 0xFFF - 0x200;

/// Number of return addresses the stack can hold.
pub const STACK_SIZE: usize = 16;

/// Number of general-purpose registers.
pub const REGISTER_COUNT: usize = 16;

/// The register that arithmetic and drawing overwrite with their flag.
pub const FLAG: usize = 15;

/// Bytes per built-in digit sprite.
pub const DIGIT_SPRITE_LEN: usize = 5;

/// The fatal conditions of the machine.
#[derive(Clone, Copy, Debug, PartialEq, Eq, Structural)]
pub enum CpuError {
    /// The word at the program counter encodes no instruction.
    InvalidOpcode(u16),
    /// A call with all sixteen stack entries in use.
    StackOverflow,
    /// A return with an empty stack.
    StackUnderflow,
    /// An instruction fetch or a memory access beyond the last address.
    AddressOutOfRange,
    /// A program too large for the memory above the interpreter area.
    RomTooLarge,
}

/// Abstract state of the machine.
pub struct CpuState {
    /// The sixteen general-purpose registers; the last one doubles as the flag.
    pub registers: Seq<u8>,
    /// The index register.
    pub i: u16,
    /// The delay timer.
    pub delay: u8,
    /// The sound timer.
    pub sound: u8,
    /// The program counter.
    pub pc: int,
    /// The 4096 bytes of memory.
    pub memory: Seq<u8>,
    /// The return-address stack; entries below `sp` are in use.
    pub stack: Seq<u16>,
    /// Number of return addresses on the stack.
    pub sp: int,
    /// Which logical keys are pressed.
    pub keys: Seq<bool>,
    /// Which pixels are on, row by row.
    pub screen: Seq<bool>,
}

/// The built-in sprites of the hexadecimal digits, five bytes each.
pub open spec fn digit_sprites() -> Seq<u8> {
    seq![
        0xF0u8, 0x90, 0x90, 0x90, 0xF0,
        0x20, 0x60, 0x20, 0x20, 0x70,
        0xF0, 0x10, 0xF0, 0x80, 0xF0,
        0xF0, 0x10, 0xF0, 0x10, 0xF0,
        0x90, 0x90, 0xF0, 0x10, 0x10,
        0xF0, 0x80, 0xF0, 0x10, 0xF0,
        0xF0, 0x80, 0xF0, 0x90, 0xF0,
        0xF0, 0x10, 0x20, 0x40, 0x40,
        0xF0, 0x90, 0xF0, 0x90, 0xF0,
        0xF0, 0x90, 0xF0, 0x10, 0xF0,
        0xF0, 0x90, 0xF0, 0x90, 0x90,
        0xE0, 0x90, 0xE0, 0x90, 0xE0,
        0xF0, 0x80, 0x80, 0x80, 0xF0,
        0xE0, 0x90, 0x90, 0x90, 0xE0,
        0xF0, 0x80, 0xF0, 0x80, 0xF0,
        0xF0, 0x80, 0xF0, 0x80, 0x80,
    ]
}

/// Memory at startup: the digit sprites at address 0, zero elsewhere.
pub open spec fn initial_memory() -> Seq<u8> {
    Seq::new(
        MEMORY_SIZE as nat,
        |a: int|
            if a < digit_sprites().len() {
                digit_sprites()[a]
            } else {
                0
            },
    )
}

/// `s` with register `x` set to `v`.
pub open spec fn set_reg(s: CpuState, x: int, v: u8) -> CpuState {
    CpuState { registers: s.registers.update(x, v), ..s }
}

/// `s` with the flag register set to 1 or 0.
pub open spec fn set_flag(s: CpuState, flag: bool) -> CpuState {
    set_reg(
        s,
        FLAG as int,
        if flag {
            1
        } else {
            0
        },
    )
}

/// `s` with the next instruction skipped when `cond` holds.
pub open spec fn skip_if(s: CpuState, cond: bool) -> CpuState {
    if cond {
        CpuState { pc: s.pc + 2, ..s }
    } else {
        s
    }
}

/// Whether `len` bytes from address `start` lie inside memory.
pub open spec fn in_memory(start: int, len: int) -> bool {
    start + len <= MEMORY_SIZE
}

/// The effect of one instruction on a state whose program counter already
/// points past it; `rnd` is the random byte that `Cxkk` uses.
pub open spec fn execute_spec(s: CpuState, ins: Instruction, rnd: u8) -> Result<CpuState, CpuError> {
    let v = s.registers;
    match ins {
        Instruction::Halt | Instruction::Sys(_) => Ok(s),
        Instruction::Cls => Ok(CpuState { screen: Seq::new(DISPLAY_SIZE as nat, |i: int| false), ..s }),
        Instruction::Ret => if s.sp == 0 {
            Err(CpuError::StackUnderflow)
        } else {
            Ok(CpuState { sp: s.sp - 1, pc: s.stack[s.sp - 1] as int, ..s })
        },
        Instruction::Jp(a) => Ok(CpuState { pc: a as int, ..s }),
        Instruction::Call(a) => if s.sp >= STACK_SIZE {
            Err(CpuError::StackOverflow)
        } else {
            Ok(CpuState { stack: s.stack.update(s.sp, s.pc as u16), sp: s.sp + 1, pc: a as int, ..s })
        },
        Instruction::Se(x, kk) => Ok(skip_if(s, v[x as int] == kk)),
        Instruction::Sne(x, kk) => Ok(skip_if(s, v[x as int] != kk)),
        Instruction::SeXy(x, y) => Ok(skip_if(s, v[x as int] == v[y as int])),
        Instruction::SneXy(x, y) => Ok(skip_if(s, v[x as int] != v[y as int])),
        Instruction::Ld(x, kk) => Ok(set_reg(s, x as int, kk)),
        Instruction::Add(x, kk) => Ok(set_reg(s, x as int, ((v[x as int] + kk) % 256) as u8)),
        Instruction::LdXy(x, y) => Ok(set_reg(s, x as int, v[y as int])),
        Instruction::OrXy(x, y) => Ok(set_reg(s, x as int, v[x as int] | v[y as int])),
        Instruction::AndXy(x, y) => Ok(set_reg(s, x as int, v[x as int] & v[y as int])),
        Instruction::XorXy(x, y) => Ok(set_reg(s, x as int, v[x as int] ^ v[y as int])),
        Instruction::AddXy(x, y) => Ok(
            set_reg(
                set_flag(s, v[x as int] + v[y as int] > 255),
                x as int,
                ((v[x as int] + v[y as int]) % 256) as u8,
            ),
        ),
        Instruction::SubXy(x, y) => Ok(
            set_reg(
                set_flag(s, v[x as int] > v[y as int]),
                x as int,
                ((v[x as int] - v[y as int]) % 256) as u8,
            ),
        ),
        Instruction::SubnXy(x, y) => Ok(
            set_reg(
                set_flag(s, v[y as int] > v[x as int]),
                x as int,
                ((v[y as int] - v[x as int]) % 256) as u8,
            ),
        ),
        Instruction::ShrXy(x) => {
            let s1 = set_flag(s, v[x as int] % 2 == 1);
            Ok(set_reg(s1, x as int, (s1.registers[x as int] / 2) as u8))
        },
        Instruction::ShlXy(x) => {
            let s1 = set_flag(s, v[x as int] >= 128);
            Ok(set_reg(s1, x as int, ((s1.registers[x as int] * 2) % 256) as u8))
        },
        Instruction::LdI(a) => Ok(CpuState { i: a, ..s }),
        Instruction::JpV0(a) => Ok(CpuState { pc: a + v[0], ..s }),
        Instruction::Rnd(x, kk) => Ok(set_reg(s, x as int, rnd & kk)),
        Instruction::Drw(x, y, n) => if !in_memory(s.i as int, n as int) {
            Err(CpuError::AddressOutOfRange)
        } else {
            let sprite = s.memory.subrange(s.i as int, s.i + n);
            Ok(
                set_flag(
                    CpuState { screen: draw_screen(s.screen, v[x as int], v[y as int], sprite), ..s },
                    draw_collision(s.screen, v[x as int], v[y as int], sprite),
                ),
            )
        },
        Instruction::Skp(x) => Ok(skip_if(s, key_pressed(s.keys, v[x as int] as int))),
        Instruction::Sknp(x) => Ok(skip_if(s, !key_pressed(s.keys, v[x as int] as int))),
        Instruction::LdVxDt(x) => Ok(set_reg(s, x as int, s.delay)),
        Instruction::LdK(x) => match first_pressed(s.keys) {
            Some(k) => Ok(set_reg(s, x as int, k)),
            None => Ok(CpuState { pc: s.pc - 2, ..s }),
        },
        Instruction::LdDt(x) => Ok(CpuState { delay: v[x as int], ..s }),
        Instruction::LdSt(x) => Ok(CpuState { sound: v[x as int], ..s }),
        Instruction::AddI(x) => Ok(CpuState { i: ((s.i + v[x as int]) % 0x10000) as u16, ..s }),
        Instruction::LdF(x) => Ok(CpuState { i: ((v[x as int] % 16) * 5) as u16, ..s }),
        Instruction::LdB(x) => if !in_memory(s.i as int, 3) {
            Err(CpuError::AddressOutOfRange)
        } else {
            let d = v[x as int];
            Ok(
                CpuState {
                    memory: s.memory.update(s.i as int, d / 100).update(s.i + 1, (d % 100) / 10).update(
                        s.i + 2,
                        d % 10,
                    ),
                    ..s
                },
            )
        },
        Instruction::LdIVx(x) => if !in_memory(s.i as int, x + 1) {
            Err(CpuError::AddressOutOfRange)
        } else {
            Ok(
                CpuState {
                    memory: Seq::new(
                        s.memory.len(),
                        |a: int|
                            if s.i <= a <= s.i + x {
                                v[a - s.i]
                            } else {
                                s.memory[a]
                            },
                    ),
                    ..s
                },
            )
        },
        Instruction::LdVxI(x) => if !in_memory(s.i as int, x + 1) {
            Err(CpuError::AddressOutOfRange)
        } else {
            Ok(
                CpuState {
                    registers: Seq::new(
                        v.len(),
                        |k: int|
                            if k <= x {
                                s.memory[s.i + k]
                            } else {
                                v[k]
                            },
                    ),
                    ..s
                },
            )
        },
    }
}

/// The big-endian instruction word at address `pc`.
pub open spec fn opcode_at(memory: Seq<u8>, pc: int) -> u16 {
    (memory[pc] * 256 + memory[pc + 1]) as u16
}

/// Both timers moved one step towards zero.
pub open spec fn count_down(s: CpuState) -> CpuState {
    CpuState {
        delay: if s.delay > 0 {
            (s.delay - 1) as u8
        } else {
            0
        },
        sound: if s.sound > 0 {
            (s.sound - 1) as u8
        } else {
            0
        },
        ..s
    }
}

/// One tick: fetch the word at the program counter, advance the counter by
/// two, execute the instruction and count the timers down. The halt word
/// stops right after the advance.
pub open spec fn tick_spec(s: CpuState, rnd: u8) -> Result<CpuState, CpuError> {
    if s.pc + 1 >= MEMORY_SIZE {
        Err(CpuError::AddressOutOfRange)
    } else {
        let op = opcode_at(s.memory, s.pc);
        let advanced = CpuState { pc: s.pc + 2, ..s };
        match decode_spec(op) {
            None => Err(CpuError::InvalidOpcode(op)),
            Some(Instruction::Halt) => Ok(advanced),
            Some(ins) => match execute_spec(advanced, ins, rnd) {
                Ok(s2) => Ok(count_down(s2)),
                Err(e) => Err(e),
            },
        }
    }
}

/// `r` and the new state `s` are what `expected` describes; on an error the
/// state is left as it was before, `before`.
pub open spec fn outcome(
    r: Result<(), CpuError>,
    s: CpuState,
    expected: Result<CpuState, CpuError>,
    before: CpuState,
) -> bool {
    match expected {
        Ok(e) => r is Ok && s == e,
        Err(e) => r == Err::<(), CpuError>(e) && s == before,
    }
}

/// The interpreter: registers, memory, stack, timers, keyboard and screen.
pub struct CPU {
    pub registers: [u8; 16],
    pub i_register: u16,
    pub delay_timer: u8,
    pub sound_timer: u8,
    pub program_counter: usize,
    pub heap: [u8; 4096],
    pub stack: [u16; 16],
    pub stack_pointer: usize,
    pub keyboard: Keyboard,
    pub display: Display,
}

impl View for CPU {
    type V = CpuState;

    open spec fn view(&self) -> CpuState {
        CpuState {
            registers: self.registers@,
            i: self.i_register,
            delay: self.delay_timer,
            sound: self.sound_timer,
            pc: self.program_counter as int,
            memory: self.heap@,
            stack: self.stack@,
            sp: self.stack_pointer as int,
            keys: self.keyboard@,
            screen: self.display@,
        }
    }
}

impl CPU {
    /// The stack pointer stays within the stack, and the keyboard and the
    /// framebuffer are well formed.
    pub open spec fn wf(&self) -> bool {
        &&& self.stack_pointer <= STACK_SIZE
        &&& self.keyboard@.len() == KEY_COUNT
        &&& self.display.wf()
    }

    /// A machine with zeroed registers, the digit sprites installed, a blank
    /// screen and the program counter at the program start.
    pub fn new(keyboard: Keyboard) -> (r: CPU)
        ensures
            r.wf(),
            r@ == (CpuState {
                registers: Seq::new(REGISTER_COUNT as nat, |k: int| 0u8),
                i: 0,
                delay: 0,
                sound: 0,
                pc: PROGRAM_START as int,
                memory: initial_memory(),
                stack: Seq::new(STACK_SIZE as nat, |k: int| 0u16),
                sp: 0,
                keys: keyboard@,
                screen: Seq::new(DISPLAY_SIZE as nat, |i: int| false),
            }),
    {
        let mut cpu = CPU {
            registers: [0; 16],
            i_register: 0,
            delay_timer: 0,
            sound_timer: 0,
            program_counter: PROGRAM_START,
            heap: [0; 4096],
            stack: [0; 16],
            stack_pointer: 0,
            keyboard,
            display: Display::new(),
        };
        proof {
            cpu.keyboard.lemma_len();
        }
        let hex_sprites: [u8; 80] = [
            0xF0, 0x90, 0x90, 0x90, 0xF0, // 0
            0x20, 0x60, 0x20, 0x20, 0x70, // 1
            0xF0, 0x10, 0xF0, 0x80, 0xF0, // 2
            0xF0, 0x10, 0xF0, 0x10, 0xF0, // 3
            0x90, 0x90, 0xF0, 0x10, 0x10, // 4
            0xF0, 0x80, 0xF0, 0x10, 0xF0, // 5
            0xF0, 0x80, 0xF0, 0x90, 0xF0, // 6
            0xF0, 0x10, 0x20, 0x40, 0x40, // 7
            0xF0, 0x90, 0xF0, 0x90, 0xF0, // 8
            0xF0, 0x90, 0xF0, 0x10, 0xF0, // 9
            0xF0, 0x90, 0xF0, 0x90, 0x90, // A
            0xE0, 0x90, 0xE0, 0x90, 0xE0, // B
            0xF0, 0x80, 0x80, 0x80, 0xF0, // C
            0xE0, 0x90, 0x90, 0x90, 0xE0, // D
            0xF0, 0x80, 0xF0, 0x80, 0xF0, // E
            0xF0, 0x80, 0xF0, 0x80, 0x80, // F
        ];
        assert(hex_sprites@ == digit_sprites());
        let mut k: usize = 0;
        while k < 80
            invariant
                k <= 80,
                hex_sprites@ == digit_sprites(),
                cpu.heap@ == Seq::new(
                    MEMORY_SIZE as nat,
                    |a: int|
                        if a < k {
                            digit_sprites()[a]
                        } else {
                            0u8
                        },
                ),
                cpu.registers@ == Seq::new(REGISTER_COUNT as nat, |j: int| 0u8),
                cpu.stack@ == Seq::new(STACK_SIZE as nat, |j: int| 0u16),
                cpu.i_register == 0,
                cpu.delay_timer == 0,
                cpu.sound_timer == 0,
                cpu.program_counter == PROGRAM_START,
                cpu.stack_pointer == 0,
                cpu.keyboard@ == keyboard@,
                cpu.display.wf(),
                cpu.display@ == Seq::new(DISPLAY_SIZE as nat, |i: int| false),
            decreases 80 - k,
        {
            cpu.heap[k] = hex_sprites[k];
            k += 1;
            assert(cpu.heap@ =~= Seq::new(
                MEMORY_SIZE as nat,
                |a: int|
                    if a < k {
                        digit_sprites()[a]
                    } else {
                        0u8
                    },
            ));
        }
        assert(digit_sprites().len() == 80);
        assert(cpu.heap@ =~= initial_memory());
        cpu
    }

    /// (`0nnn`) Machine-code routine: ignored.
    pub fn sys(&mut self, _addr: u16)
        ensures
            *final(self) == *old(self),
    {
    }

    /// (`00E0`) Turns every pixel off.
    pub fn cls(&mut self)
        requires
            old(self).wf(),
        ensures
            final(self).wf(),
            execute_spec(old(self)@, Instruction::Cls, 0) == Ok::<CpuState, CpuError>(final(self)@),
    {
        self.display.clear();
    }

    /// (`6xkk`, `8xy0`) Loads `kk` into register `vx`.
    pub fn ld(&mut self, vx: u8, kk: u8)
        requires
            old(self).wf(),
            vx < 16,
        ensures
            final(self).wf(),
            execute_spec(old(self)@, Instruction::Ld(vx, kk), 0) == Ok::<CpuState, CpuError>(final(self)@),
    {
        self.registers[vx as usize] = kk;
    }

    /// (`Annn`) Loads `addr` into the index register.
    pub fn ld_i(&mut self, addr: u16)
        requires
            old(self).wf(),
        ensures
            final(self).wf(),
            execute_spec(old(self)@, Instruction::LdI(addr), 0) == Ok::<CpuState, CpuError>(final(self)@),
    {
        self.i_register = addr;
    }

    /// (`7xkk`) Adds `kk` to register `vx`, wrapping, without touching the flag.
    pub fn add(&mut self, vx: u8, kk: u8)
        requires
            old(self).wf(),
            vx < 16,
        ensures
            final(self).wf(),
            execute_spec(old(self)@, Instruction::Add(vx, kk), 0) == Ok::<CpuState, CpuError>(final(self)@),
    {
        self.registers[vx as usize] = self.registers[vx as usize].wrapping_add(kk);
    }

    /// (`3xkk`) Skips the next instruction if register `vx` equals `kk`.
    pub fn se(&mut self, vx: u8, kk: u8)
        requires
            old(self).wf(),
            vx < 16,
            old(self).program_counter <= MEMORY_SIZE,
        ensures
            final(self).wf(),
            execute_spec(old(self)@, Instruction::Se(vx, kk), 0) == Ok::<CpuState, CpuError>(final(self)@),
    {
        if self.registers[vx as usize] == kk {
            self.program_counter += 2;
        }
    }

    /// (`4xkk`) Skips the next instruction if register `vx` differs from `kk`.
    pub fn sne(&mut self, vx: u8, kk: u8)
        requires
            old(self).wf(),
            vx < 16,
            old(self).program_counter <= MEMORY_SIZE,
        ensures
            final(self).wf(),
            execute_spec(old(self)@, Instruction::Sne(vx, kk), 0) == Ok::<CpuState, CpuError>(final(self)@),
    {
        if self.registers[vx as usize] != kk {
            self.program_counter += 2;
        }
    }

    /// (`5xy0`) Skips the next instruction if registers `x` and `y` are equal.
    pub fn se_xy(&mut self, x: u8, y: u8)
        requires
            old(self).wf(),
            x < 16,
            y < 16,
            old(self).program_counter <= MEMORY_SIZE,
        ensures
            final(self).wf(),
            execute_spec(old(self)@, Instruction::SeXy(x, y), 0) == Ok::<CpuState, CpuError>(final(self)@),
    {
        if self.registers[x as usize] == self.registers[y as usize] {
            self.program_counter += 2;
        }
    }

    /// (`9xy0`) Skips the next instruction if registers `x` and `y` differ.
    pub fn sne_xy(&mut self, x: u8, y: u8)
        requires
            old(self).wf(),
            x < 16,
            y < 16,
            old(self).program_counter <= MEMORY_SIZE,
        ensures
            final(self).wf(),
            execute_spec(old(self)@, Instruction::SneXy(x, y), 0) == Ok::<CpuState, CpuError>(final(self)@),
    {
        if self.registers[x as usize] != self.registers[y as usize] {
            self.program_counter += 2;
        }
    }

    /// (`1nnn`, `Bnnn`) Jumps to `addr`.
    pub fn jmp(&mut self, addr: u16)
        requires
            old(self).wf(),
        ensures
            final(self).wf(),
            final(self)@ == (CpuState { pc: addr as int, ..old(self)@ }),
    {
        self.program_counter = addr as usize;
    }

    /// (`2nnn`) Pushes the program counter and jumps to `addr`.
    pub fn call(&mut self, addr: u16) -> (r: Result<(), CpuError>)
        requires
            old(self).wf(),
            old(self).program_counter <= MEMORY_SIZE,
        ensures
            final(self).wf(),
            outcome(r, final(self)@, execute_spec(old(self)@, Instruction::Call(addr), 0), old(self)@),
    {
        let sp = self.stack_pointer;
        if sp >= STACK_SIZE {
            return Err(CpuError::StackOverflow);
        }
        self.stack[sp] = self.program_counter as u16;
        self.stack_pointer += 1;
        self.program_counter = addr as usize;
        Ok(())
    }

    /// (`00EE`) Pops the return address into the program counter.
    pub fn ret(&mut self) -> (r: Result<(), CpuError>)
        requires
            old(self).wf(),
        ensures
            final(self).wf(),
            outcome(r, final(self)@, execute_spec(old(self)@, Instruction::Ret, 0), old(self)@),
    {
        if self.stack_pointer == 0 {
            return Err(CpuError::StackUnderflow);
        }
        self.stack_pointer -= 1;
        self.program_counter = self.stack[self.stack_pointer] as usize;
        Ok(())
    }

    /// (`8xy4`) Adds register `y` to register `x`; the flag is the carry.
    pub fn add_xy(&mut self, x: u8, y: u8)
        requires
            old(self).wf(),
            x < 16,
            y < 16,
        ensures
            final(self).wf(),
            execute_spec(old(self)@, Instruction::AddXy(x, y), 0) == Ok::<CpuState, CpuError>(final(self)@),
    {
        let x_val = self.registers[x as usize] as u16;
        let y_val = self.registers[y as usize] as u16;
        let sum = x_val + y_val;
        if sum > 255 {
            self.registers[FLAG] = 1;
        } else {
            self.registers[FLAG] = 0;
        }
        self.registers[x as usize] = (sum % 256) as u8;
    }

    /// (`8xy2`) Register `x` becomes `x AND y`.
    pub fn and_xy(&mut self, x: u8, y: u8)
        requires
            old(self).wf(),
            x < 16,
            y < 16,
        ensures
            final(self).wf(),
            execute_spec(old(self)@, Instruction::AndXy(x, y), 0) == Ok::<CpuState, CpuError>(final(self)@),
    {
        let x_ = self.registers[x as usize];
        let y_ = self.registers[y as usize];
        self.registers[x as usize] = x_ & y_;
    }

    /// (`8xy1`) Register `x` becomes `x OR y`.
    pub fn or_xy(&mut self, x: u8, y: u8)
        requires
            old(self).wf(),
            x < 16,
            y < 16,
        ensures
            final(self).wf(),
            execute_spec(old(self)@, Instruction::OrXy(x, y), 0) == Ok::<CpuState, CpuError>(final(self)@),
    {
        let x_ = self.registers[x as usize];
        let y_ = self.registers[y as usize];
        self.registers[x as usize] = x_ | y_;
    }

    /// (`8xy3`) Register `x` becomes `x XOR y`.
    pub fn xor_xy(&mut self, x: u8, y: u8)
        requires
            old(self).wf(),
            x < 16,
            y < 16,
        ensures
            final(self).wf(),
            execute_spec(old(self)@, Instruction::XorXy(x, y), 0) == Ok::<CpuState, CpuError>(final(self)@),
    {
        let x_ = self.registers[x as usize];
        let y_ = self.registers[y as usize];
        self.registers[x as usize] = x_ ^ y_;
    }

    /// (`8xy5`) Subtracts register `y` from register `x`, wrapping; the flag
    /// is 1 when `x > y`.
    pub fn sub_xy(&mut self, x: u8, y: u8)
        requires
            old(self).wf(),
            x < 16,
            y < 16,
        ensures
            final(self).wf(),
            execute_spec(old(self)@, Instruction::SubXy(x, y), 0) == Ok::<CpuState, CpuError>(final(self)@),
    {
        let x_val = self.registers[x as usize];
        let y_val = self.registers[y as usize];
        if x_val > y_val {
            self.registers[FLAG] = 1;
        } else {
            self.registers[FLAG] = 0;
        }
        self.registers[x as usize] = x_val.wrapping_sub(y_val);
    }

    /// (`8xy6`) Shifts register `x` right by one; the flag is the bit
    /// shifted out.
    pub fn shr_xy(&mut self, x: u8)
        requires
            old(self).wf(),
            x < 16,
        ensures
            final(self).wf(),
            execute_spec(old(self)@, Instruction::ShrXy(x), 0) == Ok::<CpuState, CpuError>(final(self)@),
    {
        if self.registers[x as usize] % 2 == 1 {
            self.registers[FLAG] = 1;
        } else {
            self.registers[FLAG] = 0;
        }
        self.registers[x as usize] = self.registers[x as usize] / 2;
    }

    /// (`8xy7`) Register `x` becomes `y - x`, wrapping; the flag is 1 when
    /// `y > x`.
    pub fn subn_xy(&mut self, x: u8, y: u8)
        requires
            old(self).wf(),
            x < 16,
            y < 16,
        ensures
            final(self).wf(),
            execute_spec(old(self)@, Instruction::SubnXy(x, y), 0) == Ok::<CpuState, CpuError>(final(self)@),
    {
        let x_val = self.registers[x as usize];
        let y_val = self.registers[y as usize];
        if y_val > x_val {
            self.registers[FLAG] = 1;
        } else {
            self.registers[FLAG] = 0;
        }
        self.registers[x as usize] = y_val.wrapping_sub(x_val);
    }

    /// (`8xyE`) Shifts register `x` left by one; the flag is the bit shifted
    /// out.
    pub fn shl_xy(&mut self, x: u8)
        requires
            old(self).wf(),
            x < 16,
        ensures
            final(self).wf(),
            execute_spec(old(self)@, Instruction::ShlXy(x), 0) == Ok::<CpuState, CpuError>(final(self)@),
    {
        if self.registers[x as usize] >= 0x80 {
            self.registers[FLAG] = 1;
        } else {
            self.registers[FLAG] = 0;
        }
        self.registers[x as usize] = ((self.registers[x as usize] as u16 * 2) % 256) as u8;
    }

    /// (`Cxkk`) Register `x` becomes `random & kk`.
    pub fn rnd(&mut self, x: u8, kk: u8, random: u8)
        requires
            old(self).wf(),
            x < 16,
        ensures
            final(self).wf(),
            execute_spec(old(self)@, Instruction::Rnd(x, kk), random) == Ok::<CpuState, CpuError>(
                final(self)@,
            ),
    {
        self.registers[x as usize] = random & kk;
    }

    /// (`Dxyn`) Draws the `n` bytes at the index register at `(Vx, Vy)`; the
    /// flag tells whether a pixel that was on got turned off.
    pub fn drw(&mut self, x: u8, y: u8, n: u8) -> (r: Result<(), CpuError>)
        requires
            old(self).wf(),
            x < 16,
            y < 16,
            n < 16,
        ensures
            final(self).wf(),
            outcome(r, final(self)@, execute_spec(old(self)@, Instruction::Drw(x, y, n), 0), old(self)@),
    {
        let start = self.i_register as usize;
        let len = n as usize;
        if start + len > MEMORY_SIZE {
            return Err(CpuError::AddressOutOfRange);
        }
        let mut sprite: Vec<u8> = Vec::new();
        let mut k: usize = 0;
        while k < len
            invariant
                start + len <= MEMORY_SIZE,
                k <= len,
                sprite@ == self.heap@.subrange(start as int, start + k),
            decreases len - k,
        {
            sprite.push(self.heap[start + k]);
            k += 1;
            assert(sprite@ =~= self.heap@.subrange(start as int, start + k));
        }
        let x_coord = self.registers[x as usize];
        let y_coord = self.registers[y as usize];
        let collision = self.display.draw(x_coord, y_coord, sprite.as_slice());
        self.registers[FLAG] = if collision {
            1
        } else {
            0
        };
        Ok(())
    }

    /// (`Ex9E`) Skips the next instruction if key `Vx` is pressed.
    pub fn skp(&mut self, x: u8)
        requires
            old(self).wf(),
            x < 16,
            old(self).program_counter <= MEMORY_SIZE,
        ensures
            final(self).wf(),
            execute_spec(old(self)@, Instruction::Skp(x), 0) == Ok::<CpuState, CpuError>(final(self)@),
    {
        let key = self.registers[x as usize];
        if self.keyboard.is_key_pressed(key) {
            self.program_counter += 2;
        }
    }

    /// (`ExA1`) Skips the next instruction if key `Vx` is not pressed.
    pub fn sknp(&mut self, x: u8)
        requires
            old(self).wf(),
            x < 16,
            old(self).program_counter <= MEMORY_SIZE,
        ensures
            final(self).wf(),
            execute_spec(old(self)@, Instruction::Sknp(x), 0) == Ok::<CpuState, CpuError>(final(self)@),
    {
        let key = self.registers[x as usize];
        if !self.keyboard.is_key_pressed(key) {
            self.program_counter += 2;
        }
    }

    /// (`Fx07`) Register `vx` becomes the delay timer.
    pub fn ld_vx(&mut self, vx: u8)
        requires
            old(self).wf(),
            vx < 16,
        ensures
            final(self).wf(),
            execute_spec(old(self)@, Instruction::LdVxDt(vx), 0) == Ok::<CpuState, CpuError>(final(self)@),
    {
        self.registers[vx as usize] = self.delay_timer;
    }

    /// (`Fx0A`) Stores a pressed key in register `vx`; with no key pressed,
    /// moves the program counter back so that the instruction runs again.
    pub fn ld_k(&mut self, vx: u8)
        requires
            old(self).wf(),
            vx < 16,
            old(self).program_counter >= 2,
        ensures
            final(self).wf(),
            execute_spec(old(self)@, Instruction::LdK(vx), 0) == Ok::<CpuState, CpuError>(final(self)@),
    {
        if let Some(key) = self.keyboard.wait_for_key_press() {
            self.registers[vx as usize] = key;
        } else {
            self.program_counter -= 2;
        }
    }

    /// (`Fx15`) The delay timer becomes register `vx`.
    pub fn ld_dt(&mut self, vx: u8)
        requires
            old(self).wf(),
            vx < 16,
        ensures
            final(self).wf(),
            execute_spec(old(self)@, Instruction::LdDt(vx), 0) == Ok::<CpuState, CpuError>(final(self)@),
    {
        self.delay_timer = self.registers[vx as usize];
    }

    /// (`Fx18`) The sound timer becomes register `vx`.
    pub fn ld_st(&mut self, vx: u8)
        requires
            old(self).wf(),
            vx < 16,
        ensures
            final(self).wf(),
            execute_spec(old(self)@, Instruction::LdSt(vx), 0) == Ok::<CpuState, CpuError>(final(self)@),
    {
        self.sound_timer = self.registers[vx as usize];
    }

    /// (`Fx1E`) Adds register `vx` to the index register, wrapping at 16 bits.
    pub fn add_i(&mut self, vx: u8)
        requires
            old(self).wf(),
            vx < 16,
        ensures
            final(self).wf(),
            execute_spec(old(self)@, Instruction::AddI(vx), 0) == Ok::<CpuState, CpuError>(final(self)@),
    {
        self.i_register = self.i_register.wrapping_add(self.registers[vx as usize] as u16);
    }

    /// (`Fx29`) Points the index register at the sprite of the digit in the
    /// low nibble of register `vx`.
    pub fn ld_f(&mut self, vx: u8)
        requires
            old(self).wf(),
            vx < 16,
        ensures
            final(self).wf(),
            execute_spec(old(self)@, Instruction::LdF(vx), 0) == Ok::<CpuState, CpuError>(final(self)@),
    {
        let digit = self.registers[vx as usize] % 16;
        self.i_register = digit as u16 * DIGIT_SPRITE_LEN as u16;
    }

    /// (`Fx33`) Stores the hundreds, tens and ones digits of register `vx` at
    /// the index register and the two addresses after it.
    pub fn ld_b(&mut self, vx: u8) -> (r: Result<(), CpuError>)
        requires
            old(self).wf(),
            vx < 16,
        ensures
            final(self).wf(),
            outcome(r, final(self)@, execute_spec(old(self)@, Instruction::LdB(vx), 0), old(self)@),
    {
        let at = self.i_register as usize;
        if at + 3 > MEMORY_SIZE {
            return Err(CpuError::AddressOutOfRange);
        }
        let value = self.registers[vx as usize];
        self.heap[at] = value / 100;
        self.heap[at + 1] = (value % 100) / 10;
        self.heap[at + 2] = value % 10;
        Ok(())
    }

    /// (`Fx55`) Copies registers `0..=vx` to memory from the index register on.
    pub fn ld_i_vx(&mut self, vx: u8) -> (r: Result<(), CpuError>)
        requires
            old(self).wf(),
            vx < 16,
        ensures
            final(self).wf(),
            outcome(r, final(self)@, execute_spec(old(self)@, Instruction::LdIVx(vx), 0), old(self)@),
    {
        let at = self.i_register as usize;
        let last = vx as usize;
        if at + last + 1 > MEMORY_SIZE {
            return Err(CpuError::AddressOutOfRange);
        }
        let ghost mem0 = self.heap@;
        let mut k: usize = 0;
        while k <= last
            invariant
                at + last + 1 <= MEMORY_SIZE,
                last < 16,
                k <= last + 1,
                self.wf(),
                self@ == (CpuState { memory: self.heap@, ..old(self)@ }),
                self.heap@ == Seq::new(
                    mem0.len(),
                    |a: int|
                        if at <= a < at + k {
                            self.registers@[a - at]
                        } else {
                            mem0[a]
                        },
                ),
            decreases last + 1 - k,
        {
            self.heap[at + k] = self.registers[k];
            k += 1;
            assert(self.heap@ =~= Seq::new(
                mem0.len(),
                |a: int|
                    if at <= a < at + k {
                        self.registers@[a - at]
                    } else {
                        mem0[a]
                    },
            ));
        }
        assert(self.heap@ =~= Seq::new(
            mem0.len(),
            |a: int|
                if at <= a <= at + last {
                    self.registers@[a - at]
                } else {
                    mem0[a]
                },
        ));
        Ok(())
    }

    /// (`Fx65`) Loads registers `0..=vx` from memory from the index register on.
    pub fn ld_vx_i(&mut self, vx: u8) -> (r: Result<(), CpuError>)
        requires
            old(self).wf(),
            vx < 16,
        ensures
            final(self).wf(),
            outcome(r, final(self)@, execute_spec(old(self)@, Instruction::LdVxI(vx), 0), old(self)@),
    {
        let at = self.i_register as usize;
        let last = vx as usize;
        if at + last + 1 > MEMORY_SIZE {
            return Err(CpuError::AddressOutOfRange);
        }
        let ghost regs0 = self.registers@;
        let mut k: usize = 0;
        while k <= last
            invariant
                at + last + 1 <= MEMORY_SIZE,
                last < 16,
                k <= last + 1,
                self.wf(),
                self@ == (CpuState { registers: self.registers@, ..old(self)@ }),
                self.registers@ == Seq::new(
                    regs0.len(),
                    |j: int|
                        if j < k {
                            self.heap@[at + j]
                        } else {
                            regs0[j]
                        },
                ),
            decreases last + 1 - k,
        {
            self.registers[k] = self.heap[at + k];
            k += 1;
            assert(self.registers@ =~= Seq::new(
                regs0.len(),
                |j: int|
                    if j < k {
                        self.heap@[at + j]
                    } else {
                        regs0[j]
                    },
            ));
        }
        assert(self.registers@ =~= Seq::new(
            regs0.len(),
            |j: int|
                if j <= last {
                    self.heap@[at + j]
                } else {
                    regs0[j]
                },
        ));
        Ok(())
    }
    /// Executes one decoded instruction; the program counter already points
    /// past it. A fatal error leaves the machine as it was.
    pub fn execute(&mut self, ins: Instruction, random: u8) -> (r: Result<(), CpuError>)
        requires
            old(self).wf(),
            ins.wf(),
            2 <= old(self).program_counter <= MEMORY_SIZE,
        ensures
            final(self).wf(),
            outcome(r, final(self)@, execute_spec(old(self)@, ins, random), old(self)@),
    {
        match ins {
            Instruction::Halt => {},
            Instruction::Sys(addr) => self.sys(addr),
            Instruction::Cls => self.cls(),
            Instruction::Ret => return self.ret(),
            Instruction::Jp(addr) => self.jmp(addr),
            Instruction::Call(addr) => return self.call(addr),
            Instruction::Se(x, kk) => self.se(x, kk),
            Instruction::Sne(x, kk) => self.sne(x, kk),
            Instruction::SeXy(x, y) => self.se_xy(x, y),
            Instruction::SneXy(x, y) => self.sne_xy(x, y),
            Instruction::Ld(x, kk) => self.ld(x, kk),
            Instruction::Add(x, kk) => self.add(x, kk),
            Instruction::LdXy(x, y) => {
                let value = self.registers[y as usize];
                self.ld(x, value);
            },
            Instruction::OrXy(x, y) => self.or_xy(x, y),
            Instruction::AndXy(x, y) => self.and_xy(x, y),
            Instruction::XorXy(x, y) => self.xor_xy(x, y),
            Instruction::AddXy(x, y) => self.add_xy(x, y),
            Instruction::SubXy(x, y) => self.sub_xy(x, y),
            Instruction::ShrXy(x) => self.shr_xy(x),
            Instruction::SubnXy(x, y) => self.subn_xy(x, y),
            Instruction::ShlXy(x) => self.shl_xy(x),
            Instruction::LdI(addr) => self.ld_i(addr),
            Instruction::JpV0(addr) => self.jmp(addr + self.registers[0] as u16),
            Instruction::Rnd(x, kk) => self.rnd(x, kk, random),
            Instruction::Drw(x, y, n) => return self.drw(x, y, n),
            Instruction::Skp(x) => self.skp(x),
            Instruction::Sknp(x) => self.sknp(x),
            Instruction::LdVxDt(x) => self.ld_vx(x),
            Instruction::LdK(x) => self.ld_k(x),
            Instruction::LdDt(x) => self.ld_dt(x),
            Instruction::LdSt(x) => self.ld_st(x),
            Instruction::AddI(x) => self.add_i(x),
            Instruction::LdF(x) => self.ld_f(x),
            Instruction::LdB(x) => return self.ld_b(x),
            Instruction::LdIVx(x) => return self.ld_i_vx(x),
            Instruction::LdVxI(x) => return self.ld_vx_i(x),
        }
        Ok(())
    }

    /// One machine cycle with `random` as the byte that `Cxkk` draws: fetches
    /// the big-endian word at the program counter, advances the counter by
    /// two, executes the instruction and counts both timers down. The word
    /// `0000` ends the cycle right after the advance. A fatal error leaves the
    /// machine as it was.
    pub fn step(&mut self, random: u8) -> (r: Result<(), CpuError>)
        requires
            old(self).wf(),
        ensures
            final(self).wf(),
            outcome(r, final(self)@, tick_spec(old(self)@, random), old(self)@),
    {
        let pc = self.program_counter;
        if pc >= MEMORY_SIZE - 1 {
            return Err(CpuError::AddressOutOfRange);
        }
        let op_byte1 = self.heap[pc] as u16;
        let op_byte2 = self.heap[pc + 1] as u16;
        let opcode: u16 = op_byte1 * 256 + op_byte2;
        let ins = match Instruction::decode(opcode) {
            Some(ins) => ins,
            None => return Err(CpuError::InvalidOpcode(opcode)),
        };
        self.program_counter = pc + 2;
        if let Instruction::Halt = ins {
            return Ok(());
        }
        let r = self.execute(ins, random);
        if r.is_err() {
            self.program_counter = pc;
            return r;
        }
        if self.delay_timer > 0 {
            self.delay_timer -= 1;
        }
        if self.sound_timer > 0 {
            self.sound_timer -= 1;
        }
        Ok(())
    }

    /// One machine cycle, with a fresh random byte for `Cxkk`.
    pub fn tick(&mut self) -> (r: Result<(), CpuError>)
        requires
            old(self).wf(),
        ensures
            final(self).wf(),
            exists|random: u8| outcome(r, final(self)@, #[trigger] tick_spec(old(self)@, random), old(self)@),
    {
        let random = rand::random::<u8>();
        let r = self.step(random);
        assert(outcome(r, self@, tick_spec(old(self)@, random), old(self)@));
        r
    }

    /// Copies `rom` into memory from the program start on, or refuses a
    /// program larger than the space up to the last address.
    pub fn load_rom(&mut self, rom: &[u8]) -> (r: Result<(), CpuError>)
        requires
            old(self).wf(),
        ensures
            final(self).wf(),
            r is Err <==> rom@.len() > MAX_ROM_SIZE,
            r is Err ==> r == Err::<(), CpuError>(CpuError::RomTooLarge) && *final(self) == *old(self),
            r is Ok ==> final(self)@ == (CpuState {
                memory: Seq::new(
                    MEMORY_SIZE as nat,
                    |a: int|
                        if PROGRAM_START <= a < PROGRAM_START + rom@.len() {
                            rom@[a - PROGRAM_START]
                        } else {
                            old(self)@.memory[a]
                        },
                ),
                ..old(self)@
            }),
    {
        if rom.len() > MAX_ROM_SIZE {
            return Err(CpuError::RomTooLarge);
        }
        let ghost mem0 = self.heap@;
        let mut k: usize = 0;
        while k < rom.len()
            invariant
                rom@.len() <= MAX_ROM_SIZE,
                k <= rom@.len(),
                self.wf(),
                self@ == (CpuState { memory: self.heap@, ..old(self)@ }),
                self.heap@ == Seq::new(
                    MEMORY_SIZE as nat,
                    |a: int|
                        if PROGRAM_START <= a < PROGRAM_START + k {
                            rom@[a - PROGRAM_START]
                        } else {
                            mem0[a]
                        },
                ),
            decreases rom@.len() - k,
        {
            self.heap[PROGRAM_START + k] = rom[k];
            k += 1;
            assert(self.heap@ =~= Seq::new(
                MEMORY_SIZE as nat,
                |a: int|
                    if PROGRAM_START <= a < PROGRAM_START + k {
                        rom@[a - PROGRAM_START]
                    } else {
                        mem0[a]
                    },
            ));
        }
        Ok(())
    }
}

/// Relies on `rand::random`: a value drawn from the thread-local generator.
/// Nothing is promised about the value.
pub assume_specification<T>[ rand::random::<T> ]() -> (r: T)
    where
        rand::distributions::Standard: rand::distributions::Distribution<T>,
;

} // verus!
