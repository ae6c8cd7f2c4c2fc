//! The register machine: eight registers, a program counter and an address
//! space whose segment 0 holds the running program.
use vstd::prelude::*;

verus! {

use crate::address_space::{
    allocated,
    program_replaced,
    read_word,
    unmapped,
    write_word,
    AddressSpace,
};
use crate::error::UmError;
use crate::instruction::{decode, decoded, Instruction};

/// The state of a machine as the contracts see it.
pub ghost struct MachineView {
    pub regs: Seq<u32>,
    pub pc: u32,
    pub mem: Map<u32, Seq<u32>>,
    pub halted: bool,
}

impl MachineView {
    pub open spec fn reg(self, i: u32) -> u32 {
        self.regs[i as int]
    }

    pub open spec fn with_reg(self, i: u32, v: u32) -> MachineView {
        MachineView { regs: self.regs.update(i as int, v), ..self }
    }

    pub open spec fn with_mem(self, mem: Map<u32, Seq<u32>>) -> MachineView {
        MachineView { mem, ..self }
    }

    pub open spec fn with_pc(self, pc: u32) -> MachineView {
        MachineView { pc, ..self }
    }

    pub open spec fn with_halted(self) -> MachineView {
        MachineView { halted: true, ..self }
    }
}

/// Each of the three register numbers is below 8.
pub open spec fn regs_valid(regs: (u32, u32, u32)) -> bool {
    regs.0 < 8 && regs.1 < 8 && regs.2 < 8
}

/// `n` reduced modulo 2^32.
pub open spec fn wrap(n: int) -> u32 {
    (n % 0x1_0000_0000) as u32
}

/// What a step hands back to the caller that runs the machine.
#[derive(Debug, Clone, Copy, PartialEq, Eq, Structural)]
pub enum Event {
    /// An instruction ran; the machine goes on.
    Continue,
    /// An output instruction ran; the caller writes this byte.
    Output(u8),
    /// The machine has stopped.
    Halted,
}

/// The value an input instruction stores for a byte read, or for the end of
/// the input.
pub open spec fn input_value(input: Option<u8>) -> u32 {
    match input {
        Some(b) => b as u32,
        None => u32::MAX,
    }
}

/// Executing `inst` on `s` gives state `t` and result `r`. An instruction that
/// does not jump leaves the program counter at `next_pc`; one that faults
/// changes nothing. `input` is what an input instruction reads.
pub open spec fn executes(
    s: MachineView,
    inst: Instruction,
    input: Option<u8>,
    next_pc: u32,
    t: MachineView,
    r: Result<Event, UmError>,
) -> bool {
    match inst {
        Instruction::CondMove(a, b, c) => {
            &&& r == Ok::<Event, UmError>(Event::Continue)
            &&& t == (if s.reg(c) != 0 {
                s.with_reg(a, s.reg(b))
            } else {
                s
            }).with_pc(next_pc)
        },
        Instruction::SegLoad(a, b, c) => match read_word(s.mem, s.reg(b), s.reg(c)) {
            Ok(v) => r == Ok::<Event, UmError>(Event::Continue) && t == s.with_reg(a, v).with_pc(
                next_pc,
            ),
            Err(e) => r == Err::<Event, UmError>(e) && t == s,
        },
        Instruction::SegStore(a, b, c) => match write_word(s.mem, s.reg(a), s.reg(b), s.reg(c)) {
            Ok(m) => r == Ok::<Event, UmError>(Event::Continue) && t == s.with_mem(m).with_pc(
                next_pc,
            ),
            Err(e) => r == Err::<Event, UmError>(e) && t == s,
        },
        Instruction::Add(a, b, c) => {
            &&& r == Ok::<Event, UmError>(Event::Continue)
            &&& t == s.with_reg(a, wrap(s.reg(b) + s.reg(c))).with_pc(next_pc)
        },
        Instruction::Multiply(a, b, c) => {
            &&& r == Ok::<Event, UmError>(Event::Continue)
            &&& t == s.with_reg(a, wrap(s.reg(b) * s.reg(c))).with_pc(next_pc)
        },
        Instruction::Divide(a, b, c) => if s.reg(c) == 0 {
            r == Err::<Event, UmError>(UmError::DivisionByZero) && t == s
        } else {
            r == Ok::<Event, UmError>(Event::Continue) && t == s.with_reg(
                a,
                (s.reg(b) / s.reg(c)) as u32,
            ).with_pc(next_pc)
        },
        Instruction::Nand(a, b, c) => {
            &&& r == Ok::<Event, UmError>(Event::Continue)
            &&& t == s.with_reg(a, !(s.reg(b) & s.reg(c))).with_pc(next_pc)
        },
        Instruction::Halt => {
            &&& r == Ok::<Event, UmError>(Event::Halted)
            &&& t == s.with_halted().with_pc(next_pc)
        },
        Instruction::MapSeg(a, b, c) => match r {
            Ok(e) => {
                &&& e == Event::Continue
                &&& allocated(s.mem, t.mem, t.reg(b), s.reg(c) as nat)
                &&& t == s.with_reg(b, t.reg(b)).with_mem(t.mem).with_pc(next_pc)
            },
            Err(e) => {
                &&& e == UmError::SegmentIdsExhausted
                &&& forall|k: u32| k != 0 ==> #[trigger] s.mem.contains_key(k)
                &&& t == s
            },
        },
        Instruction::UnmapSeg(a, b, c) => match unmapped(s.mem, s.reg(c)) {
            Ok(m) => r == Ok::<Event, UmError>(Event::Continue) && t == s.with_mem(m).with_pc(
                next_pc,
            ),
            Err(e) => r == Err::<Event, UmError>(e) && t == s,
        },
        Instruction::Output(a, b, c) => if s.reg(c) > 255 {
            r == Err::<Event, UmError>(UmError::OutputByteRangeError(s.reg(c))) && t == s
        } else {
            r == Ok::<Event, UmError>(Event::Output(s.reg(c) as u8)) && t == s.with_pc(next_pc)
        },
        Instruction::Input(a, b, c) => {
            &&& r == Ok::<Event, UmError>(Event::Continue)
            &&& t == s.with_reg(c, input_value(input)).with_pc(next_pc)
        },
        Instruction::LoadProg(a, b, c) => match program_replaced(s.mem, s.reg(b)) {
            Ok(m) => r == Ok::<Event, UmError>(Event::Continue) && t == s.with_mem(m).with_pc(
                s.reg(c),
            ),
            Err(e) => r == Err::<Event, UmError>(e) && t == s,
        },
        Instruction::LoadVal(a, v) => {
            &&& r == Ok::<Event, UmError>(Event::Continue)
            &&& t == s.with_reg(a, v).with_pc(next_pc)
        },
        Instruction::Invalid(op) => r == Err::<Event, UmError>(UmError::InvalidOpcode(op)) && t == s,
    }
}

/// One step of the machine from `s` gives state `t` and result `r`: a halted
/// machine stays halted; one whose program counter has run past the end of
/// segment 0 halts; otherwise the instruction under the program counter runs
/// and, unless it jumps, the counter moves on by one.
pub open spec fn step_taken(s: MachineView, input: Option<u8>, t: MachineView, r: Result<Event, UmError>) -> bool {
    if s.halted {
        t == s && r == Ok::<Event, UmError>(Event::Halted)
    } else if !s.mem.contains_key(0) {
        t == s && r == Err::<Event, UmError>(UmError::UnmappedSegment(0))
    } else if s.pc >= s.mem[0].len() {
        t == s.with_halted() && r == Ok::<Event, UmError>(Event::Halted)
    } else {
        executes(s, decoded(s.mem[0][s.pc as int]), input, (s.pc + 1) as u32, t, r)
    }
}

/// A machine: eight registers, the program counter, the address space and
/// whether it has halted.
pub struct MchState {
    pub regs: [u32; 8],
    pub prog_cntr: u32,
    pub addr_space: AddressSpace,
    pub halted: bool,
}

impl View for MchState {
    type V = MachineView;

    open spec fn view(&self) -> MachineView {
        MachineView { regs: self.regs@, pc: self.prog_cntr, mem: self.addr_space@, halted: self.halted }
    }
}

impl MchState {
    /// The address space is well formed.
    pub open spec fn wf(&self) -> bool {
        self.addr_space.wf()
    }

    /// A machine about to run `program`: the program is segment 0, the
    /// registers and the program counter are zero.
    pub fn new(program: Vec<u32>) -> (r: MchState)
        requires
            program@.len() <= u32::MAX,
        ensures
            r.wf(),
            r@ == (MachineView {
                regs: seq![0u32; 8],
                pc: 0,
                mem: map![0u32 => program@],
                halted: false,
            }),
    {
        let mut addr_space = AddressSpace::new();
        let ghost seg = program@;
        addr_space.insert(0, program);
        let r = MchState { regs: [0u32; 8], prog_cntr: 0, addr_space, halted: false };
        assert(r.regs@ =~= seq![0u32; 8]);
        assert(r.addr_space@ =~= map![0u32 => seg]);
        r
    }

    /// If register `c` is nonzero, copies register `b` into register `a`.
    pub fn cond_move(&mut self, regs: (u32, u32, u32))
        requires
            regs_valid(regs),
        ensures
            final(self).addr_space == old(self).addr_space,
            final(self)@ == (if old(self)@.reg(regs.2) != 0 {
                old(self)@.with_reg(regs.0, old(self)@.reg(regs.1))
            } else {
                old(self)@
            }),
    {
        if self.regs[regs.2 as usize] != 0 {
            self.regs[regs.0 as usize] = self.regs[regs.1 as usize];
        }
        assert(self.regs@ =~= if old(self)@.reg(regs.2) != 0 {
            old(self).regs@.update(regs.0 as int, old(self)@.reg(regs.1))
        } else {
            old(self).regs@
        });
    }

    /// Loads into register `a` the word at index `R[c]` of segment `R[b]`.
    pub fn seg_load(&mut self, regs: (u32, u32, u32)) -> (r: Result<(), UmError>)
        requires
            regs_valid(regs),
        ensures
            final(self).addr_space == old(self).addr_space,
            match read_word(old(self)@.mem, old(self)@.reg(regs.1), old(self)@.reg(regs.2)) {
                Ok(v) => r is Ok && final(self)@ == old(self)@.with_reg(regs.0, v),
                Err(e) => r == Err::<(), UmError>(e) && final(self)@ == old(self)@,
            },
    {
        let id = self.regs[regs.1 as usize];
        let index = self.regs[regs.2 as usize];
        let v = self.addr_space.read(id, index)?;
        self.regs[regs.0 as usize] = v;
        assert(self.regs@ =~= old(self).regs@.update(regs.0 as int, v));
        Ok(())
    }

    /// Stores register `c` at index `R[b]` of segment `R[a]`.
    pub fn seg_store(&mut self, regs: (u32, u32, u32)) -> (r: Result<(), UmError>)
        requires
            old(self).wf(),
            regs_valid(regs),
        ensures
            final(self).wf(),
            match write_word(
                old(self)@.mem,
                old(self)@.reg(regs.0),
                old(self)@.reg(regs.1),
                old(self)@.reg(regs.2),
            ) {
                Ok(m) => r is Ok && final(self)@ == old(self)@.with_mem(m),
                Err(e) => r == Err::<(), UmError>(e) && final(self)@ == old(self)@,
            },
    {
        let id = self.regs[regs.0 as usize];
        let index = self.regs[regs.1 as usize];
        let value = self.regs[regs.2 as usize];
        self.addr_space.write(id, index, value)
    }

    /// Sets register `a` to `R[b] + R[c]` modulo 2^32.
    pub fn add(&mut self, regs: (u32, u32, u32))
        requires
            regs_valid(regs),
        ensures
            final(self).addr_space == old(self).addr_space,
            final(self)@ == old(self)@.with_reg(regs.0, wrap(old(self)@.reg(regs.1) + old(self)@.reg(regs.2))),
    {
        let sum = self.regs[regs.1 as usize] as u64 + self.regs[regs.2 as usize] as u64;
        let v = (sum % 0x1_0000_0000) as u32;
        self.regs[regs.0 as usize] = v;
        assert(self.regs@ =~= old(self).regs@.update(regs.0 as int, v));
    }

    /// Sets register `a` to `R[b] * R[c]` modulo 2^32.
    pub fn multiply(&mut self, regs: (u32, u32, u32))
        requires
            regs_valid(regs),
        ensures
            final(self).addr_space == old(self).addr_space,
            final(self)@ == old(self)@.with_reg(regs.0, wrap(old(self)@.reg(regs.1) * old(self)@.reg(regs.2))),
    {
        let x = self.regs[regs.1 as usize] as u64;
        let y = self.regs[regs.2 as usize] as u64;
        assert(x * y <= u64::MAX) by (nonlinear_arith)
            requires
                x <= u32::MAX,
                y <= u32::MAX,
        ;
        let v = ((x * y) % 0x1_0000_0000) as u32;
        self.regs[regs.0 as usize] = v;
        assert(self.regs@ =~= old(self).regs@.update(regs.0 as int, v));
    }

    /// Sets register `a` to `R[b] / R[c]`, unsigned and rounded toward zero.
    pub fn divide(&mut self, regs: (u32, u32, u32)) -> (r: Result<(), UmError>)
        requires
            regs_valid(regs),
        ensures
            final(self).addr_space == old(self).addr_space,
            old(self)@.reg(regs.2) == 0 ==> r == Err::<(), UmError>(UmError::DivisionByZero)
                && final(self)@ == old(self)@,
            old(self)@.reg(regs.2) != 0 ==> r is Ok && final(self)@ == old(self)@.with_reg(
                regs.0,
                (old(self)@.reg(regs.1) / old(self)@.reg(regs.2)) as u32,
            ),
    {
        let divisor = self.regs[regs.2 as usize];
        if divisor == 0 {
            return Err(UmError::DivisionByZero);
        }
        let v = self.regs[regs.1 as usize] / divisor;
        self.regs[regs.0 as usize] = v;
        assert(self.regs@ =~= old(self).regs@.update(regs.0 as int, v));
        Ok(())
    }

    /// Sets register `a` to the bitwise NAND of registers `b` and `c`.
    pub fn nand(&mut self, regs: (u32, u32, u32))
        requires
            regs_valid(regs),
        ensures
            final(self).addr_space == old(self).addr_space,
            final(self)@ == old(self)@.with_reg(regs.0, !(old(self)@.reg(regs.1) & old(self)@.reg(regs.2))),
    {
        let v = !(self.regs[regs.1 as usize] & self.regs[regs.2 as usize]);
        self.regs[regs.0 as usize] = v;
        assert(self.regs@ =~= old(self).regs@.update(regs.0 as int, v));
    }

    /// Stops the machine.
    pub fn halt(&mut self)
        ensures
            final(self).addr_space == old(self).addr_space,
            final(self)@ == old(self)@.with_halted(),
    {
        self.halted = true;
    }

    /// Maps a new segment of `R[c]` zero words and puts its identifier, which
    /// is neither 0 nor in use, in register `b`.
    pub fn map_seg(&mut self, regs: (u32, u32, u32)) -> (r: Result<(), UmError>)
        requires
            old(self).wf(),
            regs_valid(regs),
        ensures
            final(self).wf(),
            match r {
                Ok(_) => {
                    &&& allocated(old(self)@.mem, final(self)@.mem, final(self)@.reg(regs.1), old(self)@.reg(regs.2) as nat)
                    &&& final(self)@ == old(self)@.with_reg(regs.1, final(self)@.reg(regs.1)).with_mem(final(self)@.mem)
                },
                Err(e) => {
                    &&& e == UmError::SegmentIdsExhausted
                    &&& forall|k: u32| k != 0 ==> #[trigger] old(self)@.mem.contains_key(k)
                    &&& final(self)@ == old(self)@
                },
            },
    {
        let size = self.regs[regs.2 as usize];
        let id = self.addr_space.allocate(size)?;
        self.regs[regs.1 as usize] = id;
        assert(self.regs@ =~= old(self).regs@.update(regs.1 as int, id));
        Ok(())
    }

    /// Unmaps segment `R[c]`.
    pub fn unmap_seg(&mut self, regs: (u32, u32, u32)) -> (r: Result<(), UmError>)
        requires
            old(self).wf(),
            regs_valid(regs),
        ensures
            final(self).wf(),
            match unmapped(old(self)@.mem, old(self)@.reg(regs.2)) {
                Ok(m) => r is Ok && final(self)@ == old(self)@.with_mem(m),
                Err(e) => r == Err::<(), UmError>(e) && final(self)@ == old(self)@,
            },
    {
        let id = self.regs[regs.2 as usize];
        self.addr_space.deallocate(id)
    }

    /// The byte that an output instruction writes: register `c`, which must
    /// not exceed 255.
    pub fn output(&self, regs: (u32, u32, u32)) -> (r: Result<u8, UmError>)
        requires
            regs_valid(regs),
        ensures
            self@.reg(regs.2) > 255 ==> r == Err::<u8, UmError>(UmError::OutputByteRangeError(self@.reg(regs.2))),
            self@.reg(regs.2) <= 255 ==> r == Ok::<u8, UmError>(self@.reg(regs.2) as u8),
    {
        let v = self.regs[regs.2 as usize];
        if v > 255 {
            Err(UmError::OutputByteRangeError(v))
        } else {
            Ok(v as u8)
        }
    }

    /// Stores in register `c` the byte read, or all ones at the end of the
    /// input.
    pub fn input(&mut self, regs: (u32, u32, u32), byte: Option<u8>)
        requires
            regs_valid(regs),
        ensures
            final(self).addr_space == old(self).addr_space,
            final(self)@ == old(self)@.with_reg(regs.2, input_value(byte)),
    {
        let v = match byte {
            Some(b) => b as u32,
            None => u32::MAX,
        };
        self.regs[regs.2 as usize] = v;
        assert(self.regs@ =~= old(self).regs@.update(regs.2 as int, v));
    }

    /// Makes segment 0 a copy of segment `R[b]` (for `R[b]` = 0 it stays as it
    /// is) and sets the program counter to `R[c]`.
    pub fn load_prog(&mut self, regs: (u32, u32, u32)) -> (r: Result<(), UmError>)
        requires
            old(self).wf(),
            regs_valid(regs),
        ensures
            final(self).wf(),
            match program_replaced(old(self)@.mem, old(self)@.reg(regs.1)) {
                Ok(m) => r is Ok && final(self)@ == old(self)@.with_mem(m).with_pc(old(self)@.reg(regs.2)),
                Err(e) => r == Err::<(), UmError>(e) && final(self)@ == old(self)@,
            },
    {
        let id = self.regs[regs.1 as usize];
        self.addr_space.replace_program(id)?;
        self.prog_cntr = self.regs[regs.2 as usize];
        Ok(())
    }

    /// Sets register `reg` to `val`.
    pub fn load_val(&mut self, reg: u32, val: u32)
        requires
            reg < 8,
        ensures
            final(self).addr_space == old(self).addr_space,
            final(self)@ == old(self)@.with_reg(reg, val),
    {
        self.regs[reg as usize] = val;
        assert(self.regs@ =~= old(self).regs@.update(reg as int, val));
    }

    /// The word under the program counter, or `None` when the counter has run
    /// past the end of segment 0.
    fn fetch(&self) -> (r: Result<Option<u32>, UmError>)
        requires
            self.wf(),
        ensures
            !self@.mem.contains_key(0) ==> r == Err::<Option<u32>, UmError>(UmError::UnmappedSegment(0)),
            self@.mem.contains_key(0) ==> r == Ok::<Option<u32>, UmError>(
                if self@.pc < self@.mem[0].len() {
                    Some(self@.mem[0][self@.pc as int])
                } else {
                    None
                },
            ),
            self@.mem.contains_key(0) ==> self@.mem[0].len() <= u32::MAX,
    {
        proof {
            self.addr_space.lemma_lengths();
        }
        match self.addr_space.get(0) {
            None => Err(UmError::UnmappedSegment(0)),
            Some(seg) => {
                if (self.prog_cntr as usize) < seg.len() {
                    Ok(Some(seg[self.prog_cntr as usize]))
                } else {
                    Ok(None)
                }
            },
        }
    }

    /// Whether the next step runs an input instruction, which reads the
    /// `input` argument of `step`.
    pub fn needs_input(&self) -> (r: bool)
        requires
            self.wf(),
        ensures
            r == (!self@.halted && self@.mem.contains_key(0) && self@.pc < self@.mem[0].len()
                && decoded(self@.mem[0][self@.pc as int]) is Input),
    {
        if self.halted {
            return false;
        }
        match self.fetch() {
            Ok(Some(word)) => matches!(decode(word), Instruction::Input(_, _, _)),
            _ => false,
        }
    }

    /// Runs one step: halts when the program counter has run past the end of
    /// segment 0, else decodes and runs the instruction under it. `input` is
    /// the byte an input instruction reads (`None` for the end of the input)
    /// and is otherwise ignored. On a fault nothing changes.
    pub fn step(&mut self, input: Option<u8>) -> (r: Result<Event, UmError>)
        requires
            old(self).wf(),
        ensures
            final(self).wf(),
            step_taken(old(self)@, input, final(self)@, r),
    {
        if self.halted {
            return Ok(Event::Halted);
        }
        let word = match self.fetch()? {
            None => {
                self.halted = true;
                return Ok(Event::Halted);
            },
            Some(word) => word,
        };
        let next_pc = self.prog_cntr + 1;
        match decode(word) {
            Instruction::CondMove(a, b, c) => {
                self.cond_move((a, b, c));
            },
            Instruction::SegLoad(a, b, c) => {
                self.seg_load((a, b, c))?;
            },
            Instruction::SegStore(a, b, c) => {
                self.seg_store((a, b, c))?;
            },
            Instruction::Add(a, b, c) => {
                self.add((a, b, c));
            },
            Instruction::Multiply(a, b, c) => {
                self.multiply((a, b, c));
            },
            Instruction::Divide(a, b, c) => {
                self.divide((a, b, c))?;
            },
            Instruction::Nand(a, b, c) => {
                self.nand((a, b, c));
            },
            Instruction::Halt => {
                self.halt();
                self.prog_cntr = next_pc;
                return Ok(Event::Halted);
            },
            Instruction::MapSeg(a, b, c) => {
                self.map_seg((a, b, c))?;
            },
            Instruction::UnmapSeg(a, b, c) => {
                self.unmap_seg((a, b, c))?;
            },
            Instruction::Output(a, b, c) => {
                let byte = self.output((a, b, c))?;
                self.prog_cntr = next_pc;
                return Ok(Event::Output(byte));
            },
            Instruction::Input(a, b, c) => {
                self.input((a, b, c), input);
            },
            Instruction::LoadProg(a, b, c) => {
                self.load_prog((a, b, c))?;
                return Ok(Event::Continue);
            },
            Instruction::LoadVal(a, v) => {
                self.load_val(a, v);
            },
            Instruction::Invalid(op) => {
                return Err(UmError::InvalidOpcode(op));
            },
        }
        self.prog_cntr = next_pc;
        Ok(Event::Continue)
    }
}

} // verus!
