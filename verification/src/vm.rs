use vstd::prelude::*;

use crate::instruction::opcode_of_byte;
use crate::instruction::Opcode;

verus! {

/// The conditions on which the virtual machine halts with a failure.
#[derive(Copy, Clone, Debug, PartialEq, Eq, Structural)]
pub enum VMError {
    HeaderInvalid,
    DivideByZero,
    IllegalOpcode,
    RegisterIndexOutOfRange,
    ReadOnlyOutOfRange,
}

/// The mathematical content of the machine state.
pub struct VmV {
    pub registers: Seq<i32>,
    pub counter: nat,
    pub program: Seq<u8>,
    pub remainder: u32,
    pub equal_flag: bool,
    pub heap: Seq<u8>,
    pub ro_data: Seq<u8>,
    pub output: Seq<u8>,
    pub last_error: Option<VMError>,
}

/// A 16-bit big-endian value.
pub open spec fn spec_b16(hi: u8, lo: u8) -> int {
    hi * 256 + lo
}

/// A signed 32-bit quotient truncated toward zero; the one overflowing
/// case wraps.
pub open spec fn spec_div(a: i32, b: i32) -> i32
    recommends
        b != 0,
{
    if a == i32::MIN && b == -1 {
        i32::MIN
    } else {
        let x = a as int;
        let d = b as int;
        let q = if x == 0 {
            0int
        } else if x > 0 && d > 0 {
            x / d
        } else if x < 0 && d < 0 {
            (x * -1) / (d * -1)
        } else if x < 0 {
            ((x * -1) / d) * -1
        } else {
            (x / (d * -1)) * -1
        };
        q as i32
    }
}

/// The remainder matching `spec_div`; zero in the overflowing case.
pub open spec fn spec_rem(a: i32, b: i32) -> i32
    recommends
        b != 0,
{
    if a == i32::MIN && b == -1 {
        0
    } else {
        let x = a as int;
        let d = b as int;
        let m = if x == 0 {
            0int
        } else if x > 0 && d > 0 {
            x % d
        } else if x < 0 && d < 0 {
            ((x * -1) % (d * -1)) * -1
        } else if x < 0 {
            ((x * -1) % d) * -1
        } else {
            x % (d * -1)
        };
        m as i32
    }
}

/// Division and remainder of in-range operands, short of the one
/// overflowing pair, stay in range and match what the checked operations
/// return.
pub proof fn lemma_div_rem_in_range(a: i32, b: i32)
    requires
        b != 0,
        !(a == i32::MIN && b == -1),
    ensures
        a.checked_div(b) == Some(spec_div(a, b)),
        a.checked_rem(b) == Some(spec_rem(a, b)),
{
    let x = a as int;
    let d = b as int;
    if x == 0 {
    } else if x > 0 && d > 0 {
        vstd::arithmetic::div_mod::lemma_div_pos_is_pos(x, d);
        vstd::arithmetic::div_mod::lemma_div_nonincreasing(x, d);
        vstd::arithmetic::div_mod::lemma_mod_bound(x, d);
    } else if x < 0 && d < 0 {
        let u = x * -1;
        let e = d * -1;
        vstd::arithmetic::div_mod::lemma_div_pos_is_pos(u, e);
        vstd::arithmetic::div_mod::lemma_div_nonincreasing(u, e);
        vstd::arithmetic::div_mod::lemma_mod_bound(u, e);
        if e == 1 {
            assert(u / 1 == u) by {
                vstd::arithmetic::div_mod::lemma_div_basics(u);
            }
        } else {
            vstd::arithmetic::div_mod::lemma_div_is_ordered_by_denominator(u, 2, e);
            vstd::arithmetic::div_mod::lemma_div_is_ordered(u, 0x8000_0000, 2);
        }
    } else if x < 0 {
        let u = x * -1;
        vstd::arithmetic::div_mod::lemma_div_pos_is_pos(u, d);
        vstd::arithmetic::div_mod::lemma_div_nonincreasing(u, d);
        vstd::arithmetic::div_mod::lemma_mod_bound(u, d);
    } else {
        let e = d * -1;
        vstd::arithmetic::div_mod::lemma_div_pos_is_pos(x, e);
        vstd::arithmetic::div_mod::lemma_div_nonincreasing(x, e);
        vstd::arithmetic::div_mod::lemma_mod_bound(x, e);
    }
}

/// A signed value reinterpreted as its 32-bit two's-complement pattern.
pub open spec fn spec_wrap_u32(x: i32) -> u32 {
    if x >= 0 {
        x as u32
    } else {
        (x + 0x1_0000_0000) as u32
    }
}

/// The position of the first NUL byte at or after `i`, or the end of the
/// buffer.
pub open spec fn spec_find_nul(ro: Seq<u8>, i: int) -> int
    decreases ro.len() - i,
{
    if 0 <= i < ro.len() && ro[i] != 0 {
        spec_find_nul(ro, i + 1)
    } else {
        i
    }
}

/// The state after a halting step: the error is recorded and the counter
/// left in place.
pub open spec fn fail_state(s: VmV, e: VMError) -> VmV {
    VmV { last_error: Some(e), ..s }
}

/// The jump target a register value names: a negative value lies outside
/// every program, so it lands at the end of the buffer.
pub open spec fn spec_jump_target(s: VmV, t: i32) -> nat {
    if t >= 0 {
        t as nat
    } else {
        s.program.len()
    }
}

/// One fetch-decode-execute step. The second component is `None` while
/// execution continues, and the exit code once the machine halts: running
/// past the code buffer or reaching `HLT` exits with 0; `IGL`, a register
/// byte of 32 or more, division by zero, and a bad `PRTS` read exit with 1
/// and record the error. Every surviving instruction advances the counter
/// by exactly four bytes unless it jumps.
pub open spec fn spec_step(s: VmV) -> (VmV, Option<u32>) {
    let pc = s.counter as int;
    if pc >= s.program.len() {
        (s, Some(0))
    } else {
        let op = opcode_of_byte(s.program[pc]);
        if op == Opcode::HLT {
            ((VmV { counter: (pc + 1) as nat, ..s }), Some(0))
        } else if op == Opcode::IGL {
            (
                (VmV {
                    counter: (pc + 1) as nat,
                    last_error: Some(VMError::IllegalOpcode),
                    ..s
                }),
                Some(1),
            )
        } else if pc + 4 > s.program.len() {
            (s, Some(0))
        } else {
            let b1 = s.program[pc + 1];
            let b2 = s.program[pc + 2];
            let b3 = s.program[pc + 3];
            let next = (pc + 4) as nat;
            match op {
                Opcode::LOAD => {
                    if b1 >= 32 {
                        (fail_state(s, VMError::RegisterIndexOutOfRange), Some(1))
                    } else {
                        (
                            (VmV {
                                registers: s.registers.update(b1 as int, spec_b16(b2, b3) as i32),
                                counter: next,
                                ..s
                            }),
                            None,
                        )
                    }
                },
                Opcode::ADD | Opcode::SUB | Opcode::MUL | Opcode::DIV => {
                    if b1 >= 32 || b2 >= 32 || b3 >= 32 {
                        (fail_state(s, VMError::RegisterIndexOutOfRange), Some(1))
                    } else {
                        let ra = s.registers[b1 as int];
                        let rb = s.registers[b2 as int];
                        match op {
                            Opcode::ADD => (
                                (VmV {
                                    registers: s.registers.update(
                                        b3 as int,
                                        vstd::wrapping::i32_specs::wrapping_add(ra, rb),
                                    ),
                                    counter: next,
                                    ..s
                                }),
                                None,
                            ),
                            Opcode::SUB => (
                                (VmV {
                                    registers: s.registers.update(
                                        b3 as int,
                                        vstd::wrapping::i32_specs::wrapping_sub(ra, rb),
                                    ),
                                    counter: next,
                                    ..s
                                }),
                                None,
                            ),
                            Opcode::MUL => (
                                (VmV {
                                    registers: s.registers.update(
                                        b3 as int,
                                        vstd::wrapping::i32_specs::wrapping_mul(ra, rb),
                                    ),
                                    counter: next,
                                    ..s
                                }),
                                None,
                            ),
                            _ => {
                                if rb == 0 {
                                    (fail_state(s, VMError::DivideByZero), Some(1))
                                } else {
                                    (
                                        (VmV {
                                            registers: s.registers.update(
                                                b3 as int,
                                                spec_div(ra, rb),
                                            ),
                                            remainder: spec_wrap_u32(spec_rem(ra, rb)),
                                            counter: next,
                                            ..s
                                        }),
                                        None,
                                    )
                                }
                            },
                        }
                    }
                },
                Opcode::JMP => {
                    if b1 >= 32 {
                        (fail_state(s, VMError::RegisterIndexOutOfRange), Some(1))
                    } else {
                        (
                            (VmV { counter: spec_jump_target(s, s.registers[b1 as int]), ..s }),
                            None,
                        )
                    }
                },
                Opcode::JMPE => {
                    if b1 >= 32 {
                        (fail_state(s, VMError::RegisterIndexOutOfRange), Some(1))
                    } else if s.equal_flag {
                        (
                            (VmV { counter: spec_jump_target(s, s.registers[b1 as int]), ..s }),
                            None,
                        )
                    } else {
                        ((VmV { counter: next, ..s }), None)
                    }
                },
                Opcode::EQ | Opcode::NEQ | Opcode::GT | Opcode::GTE | Opcode::LT | Opcode::LTE => {
                    if b1 >= 32 || b2 >= 32 {
                        (fail_state(s, VMError::RegisterIndexOutOfRange), Some(1))
                    } else {
                        let ra = s.registers[b1 as int];
                        let rb = s.registers[b2 as int];
                        let flag = match op {
                            Opcode::EQ => ra == rb,
                            Opcode::NEQ => ra != rb,
                            Opcode::GT => ra > rb,
                            Opcode::GTE => ra >= rb,
                            Opcode::LT => ra < rb,
                            _ => ra <= rb,
                        };
                        ((VmV { equal_flag: flag, counter: next, ..s }), None)
                    }
                },
                Opcode::NOP => ((VmV { counter: next, ..s }), None),
                Opcode::ALOC => {
                    if b1 >= 32 {
                        (fail_state(s, VMError::RegisterIndexOutOfRange), Some(1))
                    } else {
                        let grow = s.registers[b1 as int];
                        let heap = if grow >= 0 {
                            s.heap + Seq::new(grow as nat, |q: int| 0u8)
                        } else {
                            if s.heap.len() + grow <= 0 {
                                Seq::empty()
                            } else {
                                s.heap.subrange(0, s.heap.len() + grow)
                            }
                        };
                        ((VmV { heap, counter: next, ..s }), None)
                    }
                },
                Opcode::PRTS => {
                    let off = spec_b16(b1, b2);
                    if off > s.ro_data.len() {
                        (fail_state(s, VMError::ReadOnlyOutOfRange), Some(1))
                    } else {
                        let nul = spec_find_nul(s.ro_data, off);
                        if nul >= s.ro_data.len() {
                            (fail_state(s, VMError::ReadOnlyOutOfRange), Some(1))
                        } else {
                            (
                                (VmV {
                                    output: s.output + s.ro_data.subrange(off, nul),
                                    counter: next,
                                    ..s
                                }),
                                None,
                            )
                        }
                    }
                },
                _ => (s, Some(1)),
            }
        }
    }
}

/// The machine run for up to `n` steps from `s`: the state reached and the
/// exit code if it halted within those steps.
pub open spec fn spec_run(s: VmV, n: nat) -> (VmV, Option<u32>)
    decreases n,
{
    if n == 0 {
        (s, None)
    } else {
        let prev = spec_run(s, (n - 1) as nat);
        if prev.1 is Some {
            prev
        } else {
            spec_step(prev.0)
        }
    }
}

/// The state a run starts from: the counter placed just past the header.
pub open spec fn start_state(s: VmV) -> VmV {
    VmV { counter: 64, ..s }
}

/// Whether a program buffer opens with the image magic bytes.
pub open spec fn spec_header_ok(p: Seq<u8>) -> bool {
    p.len() >= 4 && p[0] == 45 && p[1] == 50 && p[2] == 49 && p[3] == 45
}

/// A step halts exactly on the terminal configurations: the counter at or
/// past the code buffer (or a truncated instruction), a `HLT` or `IGL`
/// opcode, a register byte of 32 or more, a division by zero, or a `PRTS`
/// read outside the read-only data. Execution can end no other way.
pub open spec fn spec_halting(s: VmV) -> bool {
    let pc = s.counter as int;
    if pc >= s.program.len() {
        true
    } else {
        let op = opcode_of_byte(s.program[pc]);
        if op == Opcode::HLT || op == Opcode::IGL {
            true
        } else if pc + 4 > s.program.len() {
            true
        } else {
            let b1 = s.program[pc + 1];
            let b2 = s.program[pc + 2];
            let b3 = s.program[pc + 3];
            match op {
                Opcode::LOAD => b1 >= 32,
                Opcode::ADD | Opcode::SUB | Opcode::MUL => b1 >= 32 || b2 >= 32 || b3 >= 32,
                Opcode::DIV => b1 >= 32 || b2 >= 32 || b3 >= 32 || s.registers[b2 as int] == 0,
                Opcode::JMP | Opcode::JMPE | Opcode::ALOC => b1 >= 32,
                Opcode::EQ | Opcode::NEQ | Opcode::GT | Opcode::GTE | Opcode::LT | Opcode::LTE => (
                b1 >= 32 || b2 >= 32),
                Opcode::NOP => false,
                Opcode::PRTS => {
                    let off = spec_b16(b1, b2);
                    off > s.ro_data.len() || spec_find_nul(s.ro_data, off) >= s.ro_data.len()
                },
                _ => true,
            }
        }
    }
}

/// One step of the machine halts exactly when the state is terminal:
/// execution ends only by reaching `HLT` or `IGL`, by an error, or by
/// running past the end of the code buffer.
pub proof fn lemma_step_halts_iff_terminal(s: VmV)
    ensures
        spec_step(s).1 is Some <==> spec_halting(s),
{
}


/// A run halts only by stepping out of a terminal configuration: whenever
/// `n` steps end with an exit code, some earlier point reached a state
/// that `spec_halting` describes, and the final state and code are that
/// state's one halting step.
pub proof fn lemma_run_halts_only_at_terminal(s: VmV, n: nat)
    requires
        spec_run(s, n).1 is Some,
    ensures
        exists|m: nat|
            m < n && #[trigger] spec_run(s, m).1 is None && spec_halting(spec_run(s, m).0)
                && spec_step(spec_run(s, m).0) == spec_run(s, n),
    decreases n,
{
    let prev = spec_run(s, (n - 1) as nat);
    if prev.1 is Some {
        lemma_run_halts_only_at_terminal(s, (n - 1) as nat);
        let m = choose|m: nat|
            m < n - 1 && #[trigger] spec_run(s, m).1 is None && spec_halting(spec_run(s, m).0)
                && spec_step(spec_run(s, m).0) == spec_run(s, (n - 1) as nat);
        assert(spec_run(s, m).1 is None);
    } else {
        lemma_step_halts_iff_terminal(prev.0);
        assert(spec_run(s, (n - 1) as nat).1 is None && spec_halting(
            spec_run(s, (n - 1) as nat).0,
        ) && spec_step(spec_run(s, (n - 1) as nat).0) == spec_run(s, n));
    }
}

/// A run that reaches a terminal configuration halts on the very next
/// step: reaching `HLT`, `IGL`, an error, or the end of the code buffer
/// ends execution.
pub proof fn lemma_run_reaching_terminal_halts(s: VmV, m: nat)
    requires
        spec_run(s, m).1 is None,
        spec_halting(spec_run(s, m).0),
    ensures
        spec_run(s, m + 1).1 is Some,
{
    lemma_step_halts_iff_terminal(spec_run(s, m).0);
}

/// The register machine: 32 signed registers, a program counter, the
/// program bytes, the division remainder, the comparison flag, a growable
/// heap, the read-only data staged beside the image, and the bytes printed
/// so far. The host prints `output`; the machine itself performs no
/// input or output.
pub struct VM {
    /// The 32 general-purpose registers.
    pub registers: [i32; 32],
    /// The program counter, in bytes.
    pub counter: usize,
    /// The loaded image: header then code.
    pub program: Vec<u8>,
    /// The remainder of the last division.
    pub remainder: u32,
    /// The flag written by comparisons and read by `JMPE`.
    pub equal_flag: bool,
    /// The heap grown by `ALOC`.
    pub heap: Vec<u8>,
    /// The read-only data served to `PRTS`.
    pub ro_data: Vec<u8>,
    /// Everything `PRTS` has printed.
    pub output: Vec<u8>,
    /// The error that halted the machine, if one did.
    pub last_error: Option<VMError>,
}

impl View for VM {
    type V = VmV;

    open spec fn view(&self) -> VmV {
        VmV {
            registers: self.registers@,
            counter: self.counter as nat,
            program: self.program@,
            remainder: self.remainder,
            equal_flag: self.equal_flag,
            heap: self.heap@,
            ro_data: self.ro_data@,
            output: self.output@,
            last_error: self.last_error,
        }
    }
}

impl VM {
    /// A fresh machine: all registers zero, the counter at zero, the
    /// equality flag down, and every buffer empty.
    pub fn new() -> (r: VM)
        ensures
            r@.registers == Seq::new(32, |i: int| 0i32),
            r@.counter == 0,
            r@.program == Seq::<u8>::empty(),
            r@.remainder == 0,
            r@.equal_flag == false,
            r@.heap == Seq::<u8>::empty(),
            r@.ro_data == Seq::<u8>::empty(),
            r@.output == Seq::<u8>::empty(),
            r@.last_error is None,
    {
        let r = VM {
            registers: [0;32],
            counter: 0,
            program: Vec::new(),
            remainder: 0,
            equal_flag: false,
            heap: Vec::new(),
            ro_data: Vec::new(),
            output: Vec::new(),
            last_error: None,
        };
        proof {
            assert(r@.registers =~= Seq::new(32, |i: int| 0i32));
        }
        r
    }

    /// Appends one byte to the program buffer.
    pub fn add_byte(&mut self, b: u8)
        ensures
            final(self)@ == (VmV { program: old(self)@.program.push(b), ..old(self)@ }),
    {
        self.program.push(b);
    }

    /// Appends a run of bytes to the program buffer.
    pub fn add_bytes(&mut self, b: Vec<u8>)
        ensures
            final(self)@ == (VmV { program: old(self)@.program + b@, ..old(self)@ }),
    {
        let mut k: usize = 0;
        proof {
            assert(self@.program =~= old(self)@.program + b@.subrange(0, 0));
        }
        while k < b.len()
            invariant
                0 <= k <= b@.len(),
                self@ == (VmV {
                    program: old(self)@.program + b@.subrange(0, k as int),
                    ..old(self)@
                }),
            decreases b@.len() - k,
        {
            self.program.push(b[k]);
            proof {
                assert(self@.program =~= old(self)@.program + b@.subrange(0, k + 1));
            }
            k = k + 1;
        }
        proof {
            assert(b@.subrange(0, b@.len() as int) =~= b@);
        }
    }

    /// Stages the read-only data that `PRTS` reads, replacing what was
    /// there.
    pub fn set_ro_data(&mut self, data: Vec<u8>)
        ensures
            final(self)@ == (VmV { ro_data: data@, ..old(self)@ }),
    {
        self.ro_data = data;
    }

    /// Whether the loaded program opens with the image magic bytes.
    pub fn verify_header(&self) -> (r: bool)
        ensures
            r == spec_header_ok(self@.program),
    {
        self.program.len() >= 4 && self.program[0] == 45 && self.program[1] == 50
            && self.program[2] == 49 && self.program[3] == 45
    }
}

/// Executable form of `spec_wrap_u32`.
fn wrap_u32(x: i32) -> (r: u32)
    ensures
        r == spec_wrap_u32(x),
{
    if x >= 0 {
        x as u32
    } else {
        ((x as i64) + 0x1_0000_0000i64) as u32
    }
}

impl VM {
    /// Reads the opcode byte at the counter and advances past it.
    fn decode_opcode(&mut self) -> (op: Opcode)
        requires
            old(self)@.counter < old(self)@.program.len(),
        ensures
            op == opcode_of_byte(old(self)@.program[old(self)@.counter as int]),
            final(self)@ == (VmV { counter: old(self)@.counter + 1, ..old(self)@ }),
    {
        let n = self.program.len();
        let op = Opcode::from(self.program[self.counter]);
        proof {
            assert(self@.counter < n);
        }
        self.counter = self.counter + 1;
        op
    }

    /// Reads the byte at the counter and advances past it.
    fn next_8_bits(&mut self) -> (b: u8)
        requires
            old(self)@.counter < old(self)@.program.len(),
        ensures
            b == old(self)@.program[old(self)@.counter as int],
            final(self)@ == (VmV { counter: old(self)@.counter + 1, ..old(self)@ }),
    {
        let n = self.program.len();
        let b = self.program[self.counter];
        proof {
            assert(self@.counter < n);
        }
        self.counter = self.counter + 1;
        b
    }

    /// Reads the big-endian 16-bit value at the counter and advances past
    /// it.
    fn next_16_bits(&mut self) -> (v: u16)
        requires
            old(self)@.counter + 2 <= old(self)@.program.len(),
        ensures
            v as int == spec_b16(
                old(self)@.program[old(self)@.counter as int],
                old(self)@.program[old(self)@.counter as int + 1],
            ),
            final(self)@ == (VmV { counter: old(self)@.counter + 2, ..old(self)@ }),
    {
        let n = self.program.len();
        proof {
            assert(self@.counter + 2 <= n);
        }
        let hi = self.program[self.counter];
        let lo = self.program[self.counter + 1];
        self.counter = self.counter + 2;
        (hi as u16) * 256 + (lo as u16)
    }

    /// One fetch-decode-execute step; see `spec_step`. Yields `None` while
    /// execution continues and the exit code once the machine halts.
    #[verifier::rlimit(100)]
    fn execute_instruction(&mut self) -> (r: Option<u32>)
        ensures
            (final(self)@, r) == spec_step(old(self)@),
    {
        if self.counter >= self.program.len() {
            return Some(0);
        }
        let start = self.counter;
        let op = self.decode_opcode();
        match op {
            Opcode::HLT => {
                return Some(0);
            },
            Opcode::IGL => {
                self.last_error = Some(VMError::IllegalOpcode);
                return Some(1);
            },
            _ => {},
        }
        if self.program.len() - start < 4 {
            self.counter = start;
            return Some(0);
        }
        match op {
            Opcode::LOAD => {
                let reg = self.next_8_bits();
                if reg >= 32 {
                    self.counter = start;
                    self.last_error = Some(VMError::RegisterIndexOutOfRange);
                    return Some(1);
                }
                let number = self.next_16_bits();
                self.registers[reg as usize] = number as i32;
                Option::None
            },
            Opcode::ADD | Opcode::SUB | Opcode::MUL | Opcode::DIV => {
                let a = self.next_8_bits();
                let b = self.next_8_bits();
                let d = self.next_8_bits();
                if a >= 32 || b >= 32 || d >= 32 {
                    self.counter = start;
                    self.last_error = Some(VMError::RegisterIndexOutOfRange);
                    return Some(1);
                }
                let ra = self.registers[a as usize];
                let rb = self.registers[b as usize];
                match op {
                    Opcode::ADD => {
                        self.registers[d as usize] = ra.wrapping_add(rb);
                        Option::None
                    },
                    Opcode::SUB => {
                        self.registers[d as usize] = ra.wrapping_sub(rb);
                        Option::None
                    },
                    Opcode::MUL => {
                        self.registers[d as usize] = ra.wrapping_mul(rb);
                        Option::None
                    },
                    _ => {
                        if rb == 0 {
                            self.counter = start;
                            self.last_error = Some(VMError::DivideByZero);
                            return Some(1);
                        }
                        let q: i32;
                        let m: i32;
                        if ra == i32::MIN && rb == -1 {
                            q = i32::MIN;
                            m = 0;
                        } else {
                            proof {
                                lemma_div_rem_in_range(ra, rb);
                            }
                            q = match ra.checked_div(rb) {
                                Some(v) => v,
                                None => 0,
                            };
                            m = match ra.checked_rem(rb) {
                                Some(v) => v,
                                None => 0,
                            };
                        }
                        proof {
                            assert(q == spec_div(ra, rb));
                            assert(m == spec_rem(ra, rb));
                        }
                        self.registers[d as usize] = q;
                        self.remainder = wrap_u32(m);
                        Option::None
                    },
                }
            },
            Opcode::JMP => {
                let reg = self.next_8_bits();
                if reg >= 32 {
                    self.counter = start;
                    self.last_error = Some(VMError::RegisterIndexOutOfRange);
                    return Some(1);
                }
                let target = self.registers[reg as usize];
                if target >= 0 {
                    self.counter = target as usize;
                } else {
                    self.counter = self.program.len();
                }
                Option::None
            },
            Opcode::JMPE => {
                let reg = self.next_8_bits();
                if reg >= 32 {
                    self.counter = start;
                    self.last_error = Some(VMError::RegisterIndexOutOfRange);
                    return Some(1);
                }
                if self.equal_flag {
                    let target = self.registers[reg as usize];
                    if target >= 0 {
                        self.counter = target as usize;
                    } else {
                        self.counter = self.program.len();
                    }
                } else {
                    self.counter = start + 4;
                }
                Option::None
            },
            Opcode::EQ | Opcode::NEQ | Opcode::GT | Opcode::GTE | Opcode::LT | Opcode::LTE => {
                let a = self.next_8_bits();
                let b = self.next_8_bits();
                let _pad = self.next_8_bits();
                if a >= 32 || b >= 32 {
                    self.counter = start;
                    self.last_error = Some(VMError::RegisterIndexOutOfRange);
                    return Some(1);
                }
                let ra = self.registers[a as usize];
                let rb = self.registers[b as usize];
                self.equal_flag = match op {
                    Opcode::EQ => ra == rb,
                    Opcode::NEQ => ra != rb,
                    Opcode::GT => ra > rb,
                    Opcode::GTE => ra >= rb,
                    Opcode::LT => ra < rb,
                    _ => ra <= rb,
                };
                Option::None
            },
            Opcode::NOP => {
                self.counter = start + 4;
                Option::None
            },
            Opcode::ALOC => {
                let reg = self.next_8_bits();
                if reg >= 32 {
                    self.counter = start;
                    self.last_error = Some(VMError::RegisterIndexOutOfRange);
                    return Some(1);
                }
                let grow = self.registers[reg as usize];
                let ghost mid = self@;
                if grow >= 0 {
                    let want = grow as usize;
                    let ghost heap0 = self@.heap;
                    let mut j: usize = 0;
                    proof {
                        assert(self@.heap =~= heap0 + Seq::new(0, |q: int| 0u8));
                    }
                    while j < want
                        invariant
                            0 <= j <= want,
                            self@ == (VmV { heap: heap0 + Seq::new(j as nat, |q: int| 0u8), ..mid }),
                        decreases want - j,
                    {
                        self.heap.push(0);
                        proof {
                            assert(self@.heap =~= heap0 + Seq::new((j + 1) as nat, |q: int| 0u8));
                        }
                        j = j + 1;
                    }
                } else {
                    let neg = (-(grow as i64)) as usize;
                    if neg >= self.heap.len() {
                        self.heap.truncate(0);
                        proof {
                            assert(self@.heap =~= Seq::<u8>::empty());
                        }
                    } else {
                        let keep = self.heap.len() - neg;
                        self.heap.truncate(keep);
                    }
                }
                self.counter = start + 4;
                Option::None
            },
            Opcode::PRTS => {
                let off16 = self.next_16_bits();
                let off = off16 as usize;
                if off > self.ro_data.len() {
                    self.counter = start;
                    self.last_error = Some(VMError::ReadOnlyOutOfRange);
                    return Some(1);
                }
                let mut q = off;
                while q < self.ro_data.len() && self.ro_data[q] != 0
                    invariant
                        off <= q <= self@.ro_data.len(),
                        spec_find_nul(self@.ro_data, off as int) == spec_find_nul(
                            self@.ro_data,
                            q as int,
                        ),
                        self@ == (VmV { counter: (start + 3) as nat, ..old(self)@ }),
                    decreases self@.ro_data.len() - q,
                {
                    q = q + 1;
                }
                if q >= self.ro_data.len() {
                    self.counter = start;
                    self.last_error = Some(VMError::ReadOnlyOutOfRange);
                    return Some(1);
                }
                let ghost out0 = self@.output;
                let mut k = off;
                proof {
                    assert(self@.output =~= out0 + self@.ro_data.subrange(
                        off as int,
                        off as int,
                    ));
                }
                while k < q
                    invariant
                        off <= k <= q <= self@.ro_data.len(),
                        self@.output == out0 + self@.ro_data.subrange(off as int, k as int),
                        self@.ro_data == old(self)@.ro_data,
                        self@.registers == old(self)@.registers,
                        self@.counter == (start + 3) as nat,
                        self@.program == old(self)@.program,
                        self@.remainder == old(self)@.remainder,
                        self@.equal_flag == old(self)@.equal_flag,
                        self@.heap == old(self)@.heap,
                        self@.last_error == old(self)@.last_error,
                        out0 == old(self)@.output,
                    decreases q - k,
                {
                    let byte = self.ro_data[k];
                    self.output.push(byte);
                    proof {
                        assert(self@.output =~= out0 + self@.ro_data.subrange(
                            off as int,
                            k + 1,
                        ));
                    }
                    k = k + 1;
                }
                self.counter = start + 4;
                Option::None
            },
            _ => {
                proof {
                    assert(false);
                }
                Option::None
            },
        }
    }

    /// Executes exactly one instruction, whatever the counter points at.
    pub fn run_once(&mut self)
        ensures
            final(self)@ == spec_step(old(self)@).0,
    {
        let _ = self.execute_instruction();
    }

    /// Executes exactly one instruction and says whether the machine
    /// halted on it.
    pub fn step(&mut self) -> (halted: bool)
        ensures
            final(self)@ == spec_step(old(self)@).0,
            halted == (spec_step(old(self)@).1 is Some),
    {
        self.execute_instruction().is_some()
    }

    /// Loads and runs the staged image: the header is checked, the counter
    /// set past it, and instructions executed until the machine halts.
    /// Returns 0 after `HLT` or after running past the code buffer, and 1
    /// on a bad header, `IGL`, or an error; `last_error` then names it.
    /// The result and final state are those of the finite number of steps
    /// of `spec_step` that ends in a halt. A run that is still going after
    /// `u64::MAX` instructions stops with exit code 1 and no error
    /// recorded.
    pub fn run(&mut self) -> (r: u32)
        ensures
            !spec_header_ok(old(self)@.program) ==> r == 1 && final(self)@ == fail_state(
                old(self)@,
                VMError::HeaderInvalid,
            ),
            spec_header_ok(old(self)@.program) ==> exists|n: nat|
                {
                    let run = #[trigger] spec_run(start_state(old(self)@), n);
                    &&& final(self)@ == run.0
                    &&& (run.1 == Some(r) || (run.1 is None && r == 1 && n == u64::MAX))
                },
    {
        if !self.verify_header() {
            self.last_error = Some(VMError::HeaderInvalid);
            return 1;
        }
        self.counter = 64;
        let ghost start = self@;
        let ghost mut steps: nat = 0nat;
        proof {
            assert(start == start_state(old(self)@));
        }
        let mut budget: u64 = u64::MAX;
        let mut outcome: Option<u32> = Option::None;
        while outcome.is_none() && budget > 0
            invariant
                start == start_state(old(self)@),
                steps + budget == u64::MAX,
                spec_run(start, steps) == (self@, outcome),
            decreases budget,
        {
            let ghost pre = self@;
            outcome = self.execute_instruction();
            proof {
                assert(spec_run(start, steps + 1) == spec_step(pre));
                steps = steps + 1;
            }
            budget = budget - 1;
        }
        match outcome {
            Some(code) => {
                proof {
                    assert(spec_run(start, steps) == (self@, Some(code)));
                }
                code
            },
            None => {
                proof {
                    assert(steps == u64::MAX);
                    assert(spec_run(start, steps) == (self@, None::<u32>));
                }
                1
            },
        }
    }
}

} // verus!
