//! The execution engine: the machine state and the fetch–decode–execute
//! step that is its only transition.

use vstd::prelude::*;

use crate::chip8::{
    lemma_decode_wf, ops_wf, spec_decode, spec_word, Chip8Error, Ops, DISPLAY_HEIGHT,
    DISPLAY_WIDTH, MEMORY_SIZE, REGISTER_SIZE, STACK_SIZE,
};
use crate::display::{
    draw_seq, font, font_seq, row_collision, DisplayController, Vram, VRAM_SIZE,
};
use crate::memory::{spec_load, Memory};

verus! {

/// The mathematical state of the machine: every field the execution engine
/// owns, as plain integers and sequences.
#[verifier::ext_equal]
pub struct MachineState {
    /// Program counter.
    pub pc: int,
    /// Index register `I`.
    pub index: u16,
    /// The sixteen general-purpose registers `V0` through `VF`.
    pub registers: Seq<u8>,
    /// The 4096 bytes of memory.
    pub memory: Seq<u8>,
    /// The call stack, oldest return address first.
    pub stack: Seq<u16>,
    /// The flat framebuffer pixels, row-major.
    pub vram: Seq<bool>,
}

impl MachineState {
    /// Every component has the machine's fixed size, and the call stack is
    /// within its capacity.
    pub open spec fn wf(self) -> bool {
        &&& self.registers.len() == REGISTER_SIZE
        &&& self.memory.len() == MEMORY_SIZE
        &&& self.stack.len() <= STACK_SIZE
        &&& self.vram.len() == VRAM_SIZE
    }
}

/// The framebuffer after the first `rows` sprite rows of a draw have been
/// XORed in: row `i` is the memory byte at `base + i`, anchored at row
/// `(y + i) % 32`, column `x`.
pub open spec fn drw_vram(
    v: Seq<bool>,
    mem: Seq<u8>,
    base: int,
    x: int,
    y: int,
    rows: int,
) -> Seq<bool>
    decreases rows,
{
    if rows <= 0 {
        v
    } else {
        let prev = drw_vram(v, mem, base, x, y, rows - 1);
        draw_seq(prev, (y + rows - 1) % (DISPLAY_HEIGHT as int), x, mem[base + rows - 1], 8)
    }
}

/// Whether any of the first `rows` sprite rows of a draw turns a pixel
/// from on to off.
pub open spec fn drw_collision(
    v: Seq<bool>,
    mem: Seq<u8>,
    base: int,
    x: int,
    y: int,
    rows: int,
) -> bool
    decreases rows,
{
    if rows <= 0 {
        false
    } else {
        drw_collision(v, mem, base, x, y, rows - 1) || row_collision(
            drw_vram(v, mem, base, x, y, rows - 1),
            (y + rows - 1) % (DISPLAY_HEIGHT as int),
            x,
            mem[base + rows - 1],
        )
    }
}

/// The machine state after one decoded operation, or the error that halts
/// the machine. Control-flow operations set the program counter
/// themselves; every other implemented operation advances it by two.
pub open spec fn spec_exec_op(s: MachineState, op: Ops) -> Result<MachineState, Chip8Error> {
    match op {
        Ops::CLS => Ok(
            MachineState { pc: s.pc + 2, vram: Seq::new(VRAM_SIZE as nat, |i: int| false), ..s },
        ),
        Ops::RET => if s.stack.len() == 0 {
            Err(Chip8Error::StackUnderflow { pc: s.pc as usize })
        } else {
            Ok(MachineState { pc: s.stack.last() as int, stack: s.stack.drop_last(), ..s })
        },
        Ops::JP(addr) => Ok(MachineState { pc: addr as int, ..s }),
        Ops::CALL(addr) => if s.stack.len() >= STACK_SIZE {
            Err(Chip8Error::StackOverflow { pc: s.pc as usize })
        } else {
            Ok(
                MachineState {
                    pc: addr as int,
                    stack: s.stack.push((s.pc + 2) as u16),
                    ..s
                },
            )
        },
        Ops::DRW(rx, ry, n) => {
            let x = (s.registers[rx as int] as int) % (DISPLAY_WIDTH as int);
            let y = (s.registers[ry as int] as int) % (DISPLAY_HEIGHT as int);
            if n > 0 && s.index + n > MEMORY_SIZE {
                Err(Chip8Error::OutOfBounds { address: (s.index + n - 1) as usize })
            } else {
                Ok(
                    MachineState {
                        pc: s.pc + 2,
                        vram: drw_vram(s.vram, s.memory, s.index as int, x, y, n as int),
                        registers: s.registers.update(
                            15,
                            if drw_collision(s.vram, s.memory, s.index as int, x, y, n as int) {
                                1u8
                            } else {
                                0u8
                            },
                        ),
                        ..s
                    },
                )
            }
        },
        Ops::LD_V(rx, kk) => Ok(
            MachineState { pc: s.pc + 2, registers: s.registers.update(rx as int, kk), ..s },
        ),
        Ops::ADD_V(rx, kk) => Ok(
            MachineState {
                pc: s.pc + 2,
                registers: s.registers.update(
                    rx as int,
                    ((s.registers[rx as int] + kk) % 256) as u8,
                ),
                ..s
            },
        ),
        Ops::SET_I(addr) => Ok(MachineState { pc: s.pc + 2, index: addr, ..s }),
        Ops::Data(word) => Err(Chip8Error::UnknownOpcode { pc: s.pc as usize, word }),
        _ => Err(Chip8Error::UnimplementedOpcode { pc: s.pc as usize, op }),
    }
}

/// One full machine step over the mathematical state: fetch the word at
/// the program counter, decode it, execute it. Yields the decoded
/// operation and the next state, or the error that halts the machine.
pub open spec fn spec_step(s: MachineState) -> Result<(Ops, MachineState), Chip8Error> {
    if s.pc + 1 >= MEMORY_SIZE {
        Err(
            Chip8Error::OutOfBounds {
                address: if s.pc < MEMORY_SIZE {
                    (s.pc + 1) as usize
                } else {
                    s.pc as usize
                },
            },
        )
    } else {
        let op = spec_decode(spec_word(s.memory[s.pc], s.memory[s.pc + 1]));
        match spec_exec_op(s, op) {
            Ok(s2) => Ok((op, s2)),
            Err(e) => Err(e),
        }
    }
}

/// The initial machine for a program: zeroed registers, stack and
/// framebuffer, the font table at `0x50`, the program at `0x200`, and the
/// program counter at `0x200`.
pub open spec fn spec_new(prog: Seq<u8>) -> MachineState {
    MachineState {
        pc: 0x200,
        index: 0,
        registers: Seq::new(REGISTER_SIZE as nat, |i: int| 0u8),
        memory: spec_load(
            spec_load(Seq::new(MEMORY_SIZE as nat, |i: int| 0u8), 0x50, font_seq()),
            0x200,
            prog,
        ),
        stack: Seq::empty(),
        vram: Seq::new(VRAM_SIZE as nat, |i: int| false),
    }
}

/// The machine: registers, index register, program counter, call stack,
/// memory and framebuffer. `step` is its only transition; the framebuffer
/// is exposed read-only.
pub struct AppState {
    pc: usize,
    index: u16,
    registers: Vec<u8>,
    memory: Memory,
    stack: Vec<u16>,
    vram: Vram,
}

impl View for AppState {
    type V = MachineState;

    closed spec fn view(&self) -> MachineState {
        MachineState {
            pc: self.pc as int,
            index: self.index,
            registers: self.registers@,
            memory: self.memory@,
            stack: self.stack@,
            vram: self.vram@,
        }
    }
}

impl AppState {
    /// The concrete machine is well-formed when its mathematical state is.
    pub open spec fn wf(&self) -> bool {
        self@.wf()
    }

    /// Builds the machine for a program: memory zeroed, the font table
    /// loaded at `0x50`, the program at `0x200` (truncated if it would run
    /// past the end of memory), and the program counter at `0x200`.
    pub fn new(prog: &[u8]) -> (r: Self)
        ensures
            r.wf(),
            r@ == spec_new(prog@),
    {
        let mut memory = Memory::default();
        proof {
            assert(memory@ =~= Seq::new(MEMORY_SIZE as nat, |i: int| 0u8));
        }
        let f = font();
        memory.load_at_address(0x50, f.as_slice());
        memory.load_at_address(0x200, prog);

        let mut registers: Vec<u8> = Vec::new();
        let mut i: usize = 0;
        while i < REGISTER_SIZE
            invariant
                i <= REGISTER_SIZE,
                registers@.len() == i,
                forall|k: int| 0 <= k < i ==> registers@[k] == 0u8,
            decreases REGISTER_SIZE - i,
        {
            registers.push(0);
            i = i + 1;
        }

        let r = AppState {
            pc: 0x200,
            index: 0,
            registers,
            memory,
            stack: Vec::new(),
            vram: Vram::new(),
        };
        proof {
            assert(r@.registers =~= spec_new(prog@).registers);
            assert(r@.vram =~= spec_new(prog@).vram);
            assert(r@.stack =~= spec_new(prog@).stack);
            assert(r@ =~= spec_new(prog@));
        }
        r
    }

    /// Pushes a return address. Fails with `StackOverflow`, leaving the
    /// machine unchanged, when the stack is at capacity.
    fn stack_push(&mut self, value: u16) -> (r: Result<(), Chip8Error>)
        requires
            old(self).wf(),
        ensures
            final(self).wf(),
            old(self)@.stack.len() < STACK_SIZE ==> r == Ok::<(), Chip8Error>(()) && final(self)@
                == (MachineState { stack: old(self)@.stack.push(value), ..old(self)@ }),
            old(self)@.stack.len() >= STACK_SIZE ==> r == Err::<(), Chip8Error>(
                (Chip8Error::StackOverflow { pc: old(self)@.pc as usize }),
            ) && final(self)@ == old(self)@,
    {
        if self.stack.len() < STACK_SIZE {
            self.stack.push(value);
            Ok(())
        } else {
            Err(Chip8Error::StackOverflow { pc: self.pc })
        }
    }

    /// Pops the most recent return address. Fails with `StackUnderflow`,
    /// leaving the machine unchanged, when the stack is empty.
    fn stack_pop(&mut self) -> (r: Result<u16, Chip8Error>)
        requires
            old(self).wf(),
        ensures
            final(self).wf(),
            old(self)@.stack.len() > 0 ==> r == Ok::<u16, Chip8Error>(old(self)@.stack.last())
                && final(self)@ == (MachineState {
                stack: old(self)@.stack.drop_last(),
                ..old(self)@
            }),
            old(self)@.stack.len() == 0 ==> r == Err::<u16, Chip8Error>(
                (Chip8Error::StackUnderflow { pc: old(self)@.pc as usize }),
            ) && final(self)@ == old(self)@,
    {
        match self.stack.pop() {
            Some(v) => Ok(v),
            None => Err(Chip8Error::StackUnderflow { pc: self.pc }),
        }
    }

    /// Advances the machine exactly one instruction: fetch the word at the
    /// program counter, decode it, execute it. Returns the executed
    /// operation, or the error that halts the machine with its state
    /// unchanged.
    pub fn step(&mut self) -> (r: Result<Ops, Chip8Error>)
        requires
            old(self).wf(),
        ensures
            final(self).wf(),
            match spec_step(old(self)@) {
                Ok(t) => r == Ok::<Ops, Chip8Error>(t.0) && final(self)@ == t.1,
                Err(e) => r == Err::<Ops, Chip8Error>(e) && final(self)@ == old(self)@,
            },
    {
        let bytes = match self.memory.get_instruction(self.pc) {
            Ok(b) => b,
            Err(e) => {
                return Err(e);
            },
        };
        let op = Ops::from(bytes);
        proof {
            lemma_decode_wf(spec_word(bytes[0], bytes[1]));
        }
        match self.exec_op(op) {
            Ok(_) => Ok(op),
            Err(e) => Err(e),
        }
    }

    /// Executes one decoded operation, mutating the machine exactly as the
    /// mathematical transition does, or reporting its error with the
    /// machine unchanged.
    fn exec_op(&mut self, op: Ops) -> (r: Result<(), Chip8Error>)
        requires
            old(self).wf(),
            ops_wf(op),
            old(self)@.pc + 2 <= MEMORY_SIZE,
        ensures
            final(self).wf(),
            match spec_exec_op(old(self)@, op) {
                Ok(s2) => r == Ok::<(), Chip8Error>(()) && final(self)@ == s2,
                Err(e) => r == Err::<(), Chip8Error>(e) && final(self)@ == old(self)@,
            },
    {
        let controller = DisplayController;
        match op {
            Ops::CLS => {
                controller.clear_vram(&mut self.vram);
                proof {
                    assert(self.vram@ =~= Seq::new(VRAM_SIZE as nat, |i: int| false));
                }
            },
            Ops::RET => {
                let v = match self.stack_pop() {
                    Ok(v) => v,
                    Err(e) => {
                        return Err(e);
                    },
                };
                self.pc = v as usize;
                proof {
                    assert(self@ =~= spec_exec_op(old(self)@, op)->Ok_0);
                }
                return Ok(());
            },
            Ops::JP(addr) => {
                self.pc = addr as usize;
                proof {
                    assert(self@ =~= spec_exec_op(old(self)@, op)->Ok_0);
                }
                return Ok(());
            },
            Ops::CALL(addr) => {
                let ret: u16 = (self.pc + 2) as u16;
                match self.stack_push(ret) {
                    Ok(_) => {},
                    Err(e) => {
                        return Err(e);
                    },
                };
                self.pc = addr as usize;
                proof {
                    assert(self@ =~= spec_exec_op(old(self)@, op)->Ok_0);
                }
                return Ok(());
            },
            Ops::DRW(rx, ry, n) => {
                let x = (self.registers[rx] % (DISPLAY_WIDTH as u8)) as usize;
                let y = (self.registers[ry] % (DISPLAY_HEIGHT as u8)) as usize;
                if n > 0 && self.index as usize + n as usize > MEMORY_SIZE {
                    return Err(
                        Chip8Error::OutOfBounds { address: self.index as usize + n as usize - 1 },
                    );
                }
                let rows = n as usize;
                let mut collided = false;
                let mut i: usize = 0;
                while i < rows
                    invariant
                        i <= rows,
                        rows == n as int,
                        x < DISPLAY_WIDTH,
                        y < DISPLAY_HEIGHT,
                        rows > 0 ==> self.index as int + rows <= MEMORY_SIZE,
                        old(self).wf(),
                        self.pc == old(self)@.pc,
                        self.index == old(self)@.index,
                        self.registers@ == old(self)@.registers,
                        self.memory@ == old(self)@.memory,
                        self.stack@ == old(self)@.stack,
                        self.memory.wf(),
                        self.vram@.len() == VRAM_SIZE,
                        self.vram@ == drw_vram(
                            old(self)@.vram,
                            old(self)@.memory,
                            old(self)@.index as int,
                            x as int,
                            y as int,
                            i as int,
                        ),
                        collided == drw_collision(
                            old(self)@.vram,
                            old(self)@.memory,
                            old(self)@.index as int,
                            x as int,
                            y as int,
                            i as int,
                        ),
                    decreases rows - i,
                {
                    let addr = self.index as usize + i;
                    let byte = self.memory.byte_at(addr);
                    let row = (y + i) % DISPLAY_HEIGHT;
                    let flag = controller.draw_onto(&mut self.vram, x, row, byte);
                    if flag == 1 {
                        collided = true;
                    }
                    i = i + 1;
                }
                self.registers[15] = if collided {
                    1
                } else {
                    0
                };
            },
            Ops::LD_V(rx, data) => {
                self.registers[rx] = data;
            },
            Ops::ADD_V(rx, data) => {
                let sum: u16 = self.registers[rx] as u16 + data as u16;
                self.registers[rx] = (sum % 256) as u8;
            },
            Ops::SET_I(addr) => {
                self.index = addr;
            },
            Ops::Data(word) => {
                return Err(Chip8Error::UnknownOpcode { pc: self.pc, word });
            },
            _ => {
                return Err(Chip8Error::UnimplementedOpcode { pc: self.pc, op });
            },
        }
        self.pc = self.pc + 2;
        proof {
            let target = spec_exec_op(old(self)@, op);
            assert(target is Ok && self@ =~= target->Ok_0);
        }
        Ok(())
    }

    /// The program counter.
    pub fn pc(&self) -> (r: usize)
        ensures
            r == self@.pc,
    {
        self.pc
    }

    /// The index register `I`.
    pub fn index(&self) -> (r: u16)
        ensures
            r == self@.index,
    {
        self.index
    }

    /// The current call stack depth.
    pub fn sp(&self) -> (r: usize)
        ensures
            r == self@.stack.len(),
    {
        self.stack.len()
    }

    /// The value of register `i`.
    pub fn register(&self, i: usize) -> (r: u8)
        requires
            self.wf(),
            i < REGISTER_SIZE,
        ensures
            r == self@.registers[i as int],
    {
        self.registers[i]
    }

    /// A read-only view of the framebuffer, valid until the next `step`.
    pub fn vram(&self) -> (r: &Vram)
        ensures
            r@ == self@.vram,
    {
        &self.vram
    }
}

/// A call followed immediately by a return comes back to the instruction
/// after the call: the call pushes the address past the call site, the
/// return pops it unchanged and adds nothing on top, and the call stack is
/// left as it was.
pub proof fn lemma_call_ret_round_trip(s: MachineState, addr: u16)
    requires
        s.wf(),
        s.stack.len() < STACK_SIZE,
        0 <= s.pc,
        s.pc + 2 < 0x10000,
    ensures
        ({
            let r1 = spec_exec_op(s, Ops::CALL(addr));
            &&& r1 is Ok
            &&& spec_exec_op(r1->Ok_0, Ops::RET) is Ok
            &&& spec_exec_op(r1->Ok_0, Ops::RET)->Ok_0 == (MachineState { pc: s.pc + 2, ..s })
        }),
{
    let pushed = s.stack.push((s.pc + 2) as u16);
    assert(pushed.last() == (s.pc + 2) as u16);
    assert(pushed.drop_last() =~= s.stack);
    assert(((s.pc + 2) as u16) as int == s.pc + 2);
    let s1 = spec_exec_op(s, Ops::CALL(addr))->Ok_0;
    let s2 = spec_exec_op(s1, Ops::RET)->Ok_0;
    assert(s2 =~= (MachineState { pc: s.pc + 2, ..s }));
}

} // verus!
