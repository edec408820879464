pub mod assembler_errors;
pub mod directive_parsers;
pub mod instruction_parsers;
pub mod opcode_parsers;
pub mod operand_parsers;
pub mod program_parsers;
pub mod symbols;

use vstd::prelude::*;
use vstd::string::StrSliceExecFns;
use vstd::string::StringSliceAdditionalSpecFns;

use crate::assembler::assembler_errors::clone_errors;
use crate::assembler::assembler_errors::errors_view;
use crate::assembler::assembler_errors::AssemblerError;
use crate::assembler::assembler_errors::AssemblerErrorV;
use crate::assembler::assembler_errors::OperandIssue;
use crate::assembler::instruction_parsers::count_operands;
use crate::assembler::instruction_parsers::directive_name_of;
use crate::assembler::instruction_parsers::label_name_of;
use crate::assembler::instruction_parsers::string_constant_of;
use crate::assembler::instruction_parsers::AssemblerInstruction;
use crate::assembler::instruction_parsers::InstructionV;
use crate::assembler::program_parsers::spec_encode_program;
use crate::assembler::program_parsers::spec_parse_program;
use crate::assembler::program_parsers::Program;
use crate::assembler::symbols::table_has;
use crate::assembler::symbols::Symbol;
use crate::assembler::symbols::SymbolTable;
use crate::assembler::symbols::SymbolType;
use crate::assembler::symbols::SymbolV;
use crate::instruction::Opcode;

verus! {

/// Length in bytes of the fixed image header.
pub const PIE_HEADER_LENGTH: usize = 64;

/// The mathematical content of a token: names and string payloads are byte
/// strings.
pub enum TokenV {
    Op { code: Opcode },
    Register { reg_num: u8 },
    IntegerOperand { value: i32 },
    LabelDeclaration { name: Seq<u8> },
    LabelUsage { name: Seq<u8> },
    Directive { name: Seq<u8> },
    IrString { name: Seq<u8> },
}

/// One lexical element of the assembly dialect.
#[derive(Clone, Debug, PartialEq)]
pub enum Token {
    Op { code: Opcode },
    Register { reg_num: u8 },
    IntegerOperand { value: i32 },
    LabelDeclaration { name: Vec<u8> },
    LabelUsage { name: Vec<u8> },
    Directive { name: Vec<u8> },
    IrString { name: Vec<u8> },
}

impl View for Token {
    type V = TokenV;

    open spec fn view(&self) -> TokenV {
        match self {
            Token::Op { code } => TokenV::Op { code: *code },
            Token::Register { reg_num } => TokenV::Register { reg_num: *reg_num },
            Token::IntegerOperand { value } => TokenV::IntegerOperand { value: *value },
            Token::LabelDeclaration { name } => TokenV::LabelDeclaration { name: name@ },
            Token::LabelUsage { name } => TokenV::LabelUsage { name: name@ },
            Token::Directive { name } => TokenV::Directive { name: name@ },
            Token::IrString { name } => TokenV::IrString { name: name@ },
        }
    }
}

/// The view of an optional token.
pub open spec fn opt_token_view(t: Option<Token>) -> Option<TokenV> {
    match t {
        Some(tok) => Some(tok@),
        None => None,
    }
}

/// Which pass the assembler is in: symbols and layout are collected in the
/// first, code is emitted in the second.
#[derive(Copy, Clone, Debug, PartialEq, Eq, Structural)]
pub enum AssemblerPhase {
    First,
    Second,
}

/// A section of the source: `.data` holds string constants, `.code` holds
/// instructions. The payload records the instruction index where the
/// section header was seen.
#[derive(Copy, Clone, Debug, PartialEq)]
pub enum AssemblerSection {
    Data { starting_instruction: Option<u32> },
    Code { starting_instruction: Option<u32> },
    Unknown,
}

impl Default for AssemblerSection {
    fn default() -> (r: Self)
        ensures
            r == AssemblerSection::Unknown,
    {
        AssemblerSection::Unknown
    }
}

/// The mathematical content of the assembler's pass-one state.
pub struct Pass1V {
    pub symbols: Seq<SymbolV>,
    pub ro: Seq<u8>,
    pub ro_offset: u32,
    pub sections: Seq<AssemblerSection>,
    pub current_section: Option<AssemblerSection>,
    pub errors: Seq<AssemblerErrorV>,
    pub current_instruction: u32,
}

/// The state a fresh assembler starts from.
pub open spec fn spec_pass1_init() -> Pass1V {
    Pass1V {
        symbols: Seq::empty(),
        ro: Seq::empty(),
        ro_offset: 0,
        sections: Seq::empty(),
        current_section: None,
        errors: Seq::empty(),
        current_instruction: 0,
    }
}

/// The image offset a label at instruction index `cur` resolves to: the
/// 64-byte header plus four bytes per preceding instruction, wrapped to 32
/// bits.
pub open spec fn spec_label_offset(cur: u32) -> u32 {
    (((cur as int) * 4 + 64) % 0x1_0000_0000) as u32
}

/// A counter advanced by one, wrapped to 32 bits.
pub open spec fn spec_inc(c: u32) -> u32 {
    (((c as int) + 1) % 0x1_0000_0000) as u32
}

/// The read-only offset advanced past a string and its terminating NUL,
/// wrapped to 32 bits.
pub open spec fn spec_advance_ro(off: u32, len: nat) -> u32 {
    (((off as int) + len + 1) % 0x1_0000_0000) as u32
}

/// The name of the `.asciiz` directive.
pub open spec fn asciiz_name() -> Seq<u8> {
    seq![97u8, 115, 99, 105, 105, 122]
}

/// The name of the `.data` section header.
pub open spec fn data_name() -> Seq<u8> {
    seq![100u8, 97, 116, 97]
}

/// The name of the `.code` section header.
pub open spec fn code_name() -> Seq<u8> {
    seq![99u8, 111, 100, 101]
}

/// A labelled instruction inside a section: the label is inserted with the
/// offset its instruction index determines, unless the name is already
/// taken.
pub open spec fn spec_label_insert(st: Pass1V, iv: InstructionV) -> Pass1V {
    match label_name_of(iv) {
        Some(name) => if table_has(st.symbols, name) {
            Pass1V { errors: st.errors.push(AssemblerErrorV::SymbolAlreadyDeclared { name }), ..st }
        } else {
            Pass1V {
                symbols: st.symbols.push(
                    SymbolV { name, offset: Some(spec_label_offset(st.current_instruction)) },
                ),
                ..st
            }
        },
        None => Pass1V {
            errors: st.errors.push(
                AssemblerErrorV::StringConstantDeclaredWithoutLabel {
                    instruction: st.current_instruction,
                },
            ),
            ..st
        },
    }
}

/// Label handling in pass one: a label outside any section is an error.
pub open spec fn spec_process_label(st: Pass1V, iv: InstructionV) -> Pass1V {
    if st.current_section is Some {
        spec_label_insert(st, iv)
    } else {
        Pass1V {
            errors: st.errors.push(
                AssemblerErrorV::NoSegmentDeclarationFound { instruction: st.current_instruction },
            ),
            ..st
        }
    }
}

/// The `.asciiz` directive: the declaring label's offset is pointed at the
/// read-only buffer, and the string bytes and a NUL byte are appended.
pub open spec fn spec_handle_asciiz(st: Pass1V, iv: InstructionV) -> Pass1V {
    match label_name_of(iv) {
        None => Pass1V {
            errors: st.errors.push(
                AssemblerErrorV::StringConstantDeclaredWithoutLabel {
                    instruction: st.current_instruction,
                },
            ),
            ..st
        },
        Some(name) => match string_constant_of(iv) {
            None => Pass1V {
                errors: st.errors.push(
                    AssemblerErrorV::InvalidOperand { reason: OperandIssue::MissingString },
                ),
                ..st
            },
            Some(bytes) => Pass1V {
                symbols: crate::assembler::symbols::table_set(st.symbols, name, st.ro_offset),
                ro: st.ro + bytes + seq![0u8],
                ro_offset: spec_advance_ro(st.ro_offset, bytes.len()),
                ..st
            },
        },
    }
}

/// A section header: `.data` and `.code` open their section and record the
/// instruction index; an unknown name is ignored.
pub open spec fn spec_section_header(st: Pass1V, dname: Seq<u8>) -> Pass1V {
    if dname == data_name() {
        let sec = AssemblerSection::Data { starting_instruction: Some(st.current_instruction) };
        Pass1V { sections: st.sections.push(sec), current_section: Some(sec), ..st }
    } else if dname == code_name() {
        let sec = AssemblerSection::Code { starting_instruction: Some(st.current_instruction) };
        Pass1V { sections: st.sections.push(sec), current_section: Some(sec), ..st }
    } else {
        st
    }
}

/// Directive handling: with operands, `.asciiz` lays down a string
/// constant — but only in the first pass, where `first` holds; in any
/// other pass it does nothing, since string data is laid out in pass one
/// alone. Any other name with operands is an error; without operands, the
/// directive is a section header.
pub open spec fn spec_process_directive(st: Pass1V, iv: InstructionV, first: bool) -> Pass1V {
    match directive_name_of(iv) {
        None => st,
        Some(dname) => if count_operands(iv) > 0 {
            if dname == asciiz_name() {
                if first {
                    spec_handle_asciiz(st, iv)
                } else {
                    st
                }
            } else {
                Pass1V {
                    errors: st.errors.push(
                        AssemblerErrorV::UnknownDirectiveFound { directive: dname },
                    ),
                    ..st
                }
            }
        } else {
            spec_section_header(st, dname)
        },
    }
}

/// One instruction of pass one: its label, then its directive, then the
/// instruction counter advances.
pub open spec fn spec_pass1_step(st: Pass1V, iv: InstructionV) -> Pass1V {
    let st1 = if iv.label is Some {
        spec_process_label(st, iv)
    } else {
        st
    };
    let st2 = if iv.directive is Some {
        spec_process_directive(st1, iv, true)
    } else {
        st1
    };
    Pass1V { current_instruction: spec_inc(st2.current_instruction), ..st2 }
}

/// Pass one folded over the instructions from index `k` on.
pub open spec fn spec_pass1(ivs: Seq<InstructionV>, k: int, st: Pass1V) -> Pass1V
    decreases ivs.len() - k,
{
    if 0 <= k < ivs.len() {
        spec_pass1(ivs, k + 1, spec_pass1_step(st, ivs[k]))
    } else {
        st
    }
}

/// The fixed 64-byte image header: the magic bytes and sixty zeros.
pub open spec fn spec_header() -> Seq<u8> {
    seq![45u8, 50, 49, 45] + Seq::new(60, |i: int| 0u8)
}

/// What assembling a source text yields: the header followed by the code
/// segment, or the diagnostics. Pass one collects errors; fewer or more
/// than the two sections is an error at the pass boundary; pass two aborts
/// on its first error.
pub open spec fn spec_assemble(s: Seq<u8>) -> Result<Seq<u8>, Seq<AssemblerErrorV>> {
    match spec_parse_program(s) {
        Err(l) => Err(seq![AssemblerErrorV::ParseError { error: l }]),
        Ok(ivs) => {
            let st = spec_pass1(ivs, 0, spec_pass1_init());
            if st.errors.len() > 0 {
                Err(st.errors)
            } else if st.sections.len() != 2 {
                Err(st.errors.push(AssemblerErrorV::InsufficientSections))
            } else {
                match spec_encode_program(ivs, st.symbols, 0) {
                    Err(e) => Err(seq![e]),
                    Ok(code) => Ok(spec_header() + code),
                }
            }
        },
    }
}

/// Whether a name is `asciiz`.
fn is_asciiz(name: &[u8]) -> (r: bool)
    ensures
        r == (name@ == asciiz_name()),
{
    if name.len() == 6 && name[0] == 97 && name[1] == 115 && name[2] == 99 && name[3] == 105
        && name[4] == 105 && name[5] == 122 {
        proof {
            assert(name@ =~= asciiz_name());
        }
        true
    } else {
        false
    }
}

/// Whether a name is `data`.
fn is_data(name: &[u8]) -> (r: bool)
    ensures
        r == (name@ == data_name()),
{
    if name.len() == 4 && name[0] == 100 && name[1] == 97 && name[2] == 116 && name[3] == 97 {
        proof {
            assert(name@ =~= data_name());
        }
        true
    } else {
        false
    }
}

/// Whether a name is `code`.
fn is_code(name: &[u8]) -> (r: bool)
    ensures
        r == (name@ == code_name()),
{
    if name.len() == 4 && name[0] == 99 && name[1] == 111 && name[2] == 100 && name[3] == 101 {
        proof {
            assert(name@ =~= code_name());
        }
        true
    } else {
        false
    }
}

/// Executable form of `spec_label_offset`.
fn label_offset(cur: u32) -> (r: u32)
    ensures
        r == spec_label_offset(cur),
{
    (((cur as u64) * 4 + 64) % 0x1_0000_0000) as u32
}

/// Executable form of `spec_inc`.
fn inc_u32(c: u32) -> (r: u32)
    ensures
        r == spec_inc(c),
{
    (((c as u64) + 1) % 0x1_0000_0000) as u32
}

/// Executable form of `spec_advance_ro`.
fn advance_ro(off: u32, len: usize) -> (r: u32)
    ensures
        r == spec_advance_ro(off, len as nat),
{
    (((off as u128) + (len as u128) + 1) % 0x1_0000_0000) as u32
}

/// Appends one buffer to another.
fn append_bytes(dst: &mut Vec<u8>, src: &Vec<u8>)
    ensures
        final(dst)@ == old(dst)@ + src@,
{
    let mut k: usize = 0;
    proof {
        assert(dst@ =~= old(dst)@ + src@.subrange(0, 0));
    }
    while k < src.len()
        invariant
            0 <= k <= src@.len(),
            dst@ == old(dst)@ + src@.subrange(0, k as int),
        decreases src@.len() - k,
    {
        dst.push(src[k]);
        proof {
            assert(dst@ =~= old(dst)@ + src@.subrange(0, k + 1));
        }
        k = k + 1;
    }
    proof {
        assert(src@.subrange(0, src@.len() as int) =~= src@);
    }
}

/// The two-pass assembler: pass one collects symbols, sections and the
/// read-only data; pass two lowers instructions to code bytes; the image is
/// the 64-byte header followed by the code segment. The read-only buffer
/// `ro` is staged into the machine alongside the image.
pub struct Assembler {
    /// Which pass the assembler is in.
    pub phase: AssemblerPhase,
    /// The symbols collected in pass one.
    pub symbols: SymbolTable,
    /// The read-only data laid down by `.asciiz` directives.
    pub ro: Vec<u8>,
    /// The code segment emitted by pass two.
    pub bytecode: Vec<u8>,
    /// The next free offset in the read-only buffer.
    pub ro_offset: u32,
    /// Every section header seen, in order.
    pub sections: Vec<AssemblerSection>,
    /// The section subsequent instructions belong to.
    pub current_section: Option<AssemblerSection>,
    /// The index of the instruction being processed.
    pub current_instruction: u32,
    /// The diagnostics collected so far.
    pub errors: Vec<AssemblerError>,
}

impl View for Assembler {
    type V = Pass1V;

    open spec fn view(&self) -> Pass1V {
        Pass1V {
            symbols: self.symbols@,
            ro: self.ro@,
            ro_offset: self.ro_offset,
            sections: self.sections@,
            current_section: self.current_section,
            errors: errors_view(self.errors@),
            current_instruction: self.current_instruction,
        }
    }
}

impl Assembler {
    /// A fresh assembler in its first pass with nothing collected.
    pub fn new() -> (r: Assembler)
        ensures
            r@ == spec_pass1_init(),
            r.phase == AssemblerPhase::First,
            r.bytecode@ == Seq::<u8>::empty(),
    {
        let r = Assembler {
            phase: AssemblerPhase::First,
            symbols: SymbolTable::new(),
            ro: Vec::new(),
            bytecode: Vec::new(),
            ro_offset: 0,
            sections: Vec::new(),
            current_section: None,
            current_instruction: 0,
            errors: Vec::new(),
        };
        proof {
            assert(errors_view(r.errors@) =~= Seq::<AssemblerErrorV>::empty());
        }
        r
    }

    /// Records one diagnostic.
    fn note_error(&mut self, e: AssemblerError)
        ensures
            final(self)@ == (Pass1V { errors: old(self)@.errors.push(e@), ..old(self)@ }),
            final(self).phase == old(self).phase,
            final(self).bytecode == old(self).bytecode,
    {
        let ghost ev = e@;
        self.errors.push(e);
        proof {
            assert(errors_view(self.errors@) =~= errors_view(old(self).errors@).push(ev));
        }
    }

    /// Declares the label an instruction carries, giving it the offset its
    /// instruction index determines; a duplicate name is an error.
    pub fn process_label_declaration(&mut self, i: &AssemblerInstruction)
        ensures
            final(self)@ == spec_label_insert(old(self)@, i@),
            final(self).phase == old(self).phase,
            final(self).bytecode == old(self).bytecode,
    {
        let name = match i.get_label_name() {
            Some(n) => n,
            None => {
                let cur = self.current_instruction;
                self.note_error(
                    AssemblerError::StringConstantDeclaredWithoutLabel { instruction: cur },
                );
                return ;
            },
        };
        if self.symbols.has_symbol(name.as_slice()) {
            self.note_error(AssemblerError::SymbolAlreadyDeclared { name });
            return ;
        }
        let off = label_offset(self.current_instruction);
        self.symbols.add_symbol(Symbol::new_with_offset(name, SymbolType::Label, off));
    }

    /// Lays down an `.asciiz` string constant: the declaring label's offset
    /// is pointed at the read-only buffer, then the string bytes and a NUL
    /// byte are appended. String data is laid out in pass one alone: in
    /// any later phase the assembler is left untouched.
    pub fn handle_asciiz(&mut self, i: &AssemblerInstruction)
        ensures
            old(self).phase == AssemblerPhase::First ==> final(self)@ == spec_handle_asciiz(
                old(self)@,
                i@,
            ),
            old(self).phase != AssemblerPhase::First ==> *final(self) == *old(self),
            final(self).phase == old(self).phase,
            final(self).bytecode == old(self).bytecode,
    {
        match self.phase {
            AssemblerPhase::First => {},
            AssemblerPhase::Second => {
                return ;
            },
        }
        let name = match i.get_label_name() {
            Some(n) => n,
            None => {
                let cur = self.current_instruction;
                self.note_error(
                    AssemblerError::StringConstantDeclaredWithoutLabel { instruction: cur },
                );
                return ;
            },
        };
        let bytes = match i.get_string_constant() {
            Some(b) => b,
            None => {
                self.note_error(
                    AssemblerError::InvalidOperand { reason: OperandIssue::MissingString },
                );
                return ;
            },
        };
        let off = self.ro_offset;
        self.symbols.set_symbol_offset(name.as_slice(), off);
        append_bytes(&mut self.ro, &bytes);
        self.ro.push(0);
        self.ro_offset = advance_ro(off, bytes.len());
        proof {
            assert(self@.ro =~= old(self)@.ro + bytes@ + seq![0u8]);
        }
    }

    /// Opens the section a bare directive names; unknown names are ignored.
    pub fn process_section_header(&mut self, header_name: &[u8])
        ensures
            final(self)@ == spec_section_header(old(self)@, header_name@),
            final(self).phase == old(self).phase,
            final(self).bytecode == old(self).bytecode,
    {
        if is_data(header_name) {
            let sec = AssemblerSection::Data {
                starting_instruction: Some(self.current_instruction),
            };
            self.sections.push(sec);
            self.current_section = Some(sec);
        } else if is_code(header_name) {
            let sec = AssemblerSection::Code {
                starting_instruction: Some(self.current_instruction),
            };
            self.sections.push(sec);
            self.current_section = Some(sec);
        }
    }

    /// Dispatches one directive: with operands, `.asciiz` (effective in
    /// pass one alone) or an unknown name; without, a section header.
    pub fn process_directive(&mut self, i: &AssemblerInstruction)
        ensures
            final(self)@ == spec_process_directive(
                old(self)@,
                i@,
                old(self).phase == AssemblerPhase::First,
            ),
            final(self).phase == old(self).phase,
            final(self).bytecode == old(self).bytecode,
    {
        let dname = match i.get_directive_name() {
            Some(d) => d,
            None => {
                return ;
            },
        };
        if i.has_operands() {
            if is_asciiz(dname.as_slice()) {
                self.handle_asciiz(i);
            } else {
                self.note_error(AssemblerError::UnknownDirectiveFound { directive: dname });
            }
        } else {
            self.process_section_header(dname.as_slice());
        }
    }

    /// Pass one: walks the instructions in order, declaring labels, laying
    /// down data and tracking sections, then moves to the second phase.
    pub fn process_first_phase(&mut self, p: &Program)
        requires
            old(self).phase == AssemblerPhase::First,
        ensures
            final(self)@ == spec_pass1(p@, 0, old(self)@),
            final(self).phase == AssemblerPhase::Second,
            final(self).bytecode == old(self).bytecode,
    {
        let mut idx: usize = 0;
        while idx < p.instructions.len()
            invariant
                0 <= idx <= p.instructions@.len(),
                p@.len() == p.instructions@.len(),
                spec_pass1(p@, 0, old(self)@) == spec_pass1(p@, idx as int, self@),
                self.phase == old(self).phase,
                self.phase == AssemblerPhase::First,
                self.bytecode == old(self).bytecode,
            decreases p.instructions@.len() - idx,
        {
            let instr = &p.instructions[idx];
            proof {
                assert(p@[idx as int] == p.instructions@[idx as int]@);
            }
            let ghost pre = self@;
            if instr.is_label() {
                if self.current_section.is_some() {
                    self.process_label_declaration(instr);
                } else {
                    let cur = self.current_instruction;
                    self.note_error(AssemblerError::NoSegmentDeclarationFound { instruction: cur });
                }
            }
            if instr.is_directive() {
                self.process_directive(instr);
            }
            self.current_instruction = inc_u32(self.current_instruction);
            proof {
                assert(self@ == spec_pass1_step(pre, p@[idx as int]));
            }
            idx = idx + 1;
        }
        self.phase = AssemblerPhase::Second;
    }

    /// Pass two: lowers every instruction of the program against the
    /// symbol table collected in pass one.
    pub fn process_second_phase(&mut self, p: &Program) -> (r: Result<Vec<u8>, AssemblerError>)
        ensures
            match (r, spec_encode_program(p@, old(self)@.symbols, 0)) {
                (Ok(v), Ok(bs)) => v@ == bs,
                (Err(a), Err(ev)) => a@ == ev,
                _ => false,
            },
            *final(self) == *old(self),
    {
        p.to_bytes(&self.symbols)
    }

    /// The symbols collected so far, as pairs of name and optional
    /// offset, in declaration order; meant for diagnostics.
    pub fn symbols_snapshot(&self) -> (r: Vec<(Vec<u8>, Option<u32>)>)
        ensures
            r@.len() == self@.symbols.len(),
            forall|i: int|
                0 <= i < r@.len() ==> #[trigger] r@[i].0@ == self@.symbols[i].name && r@[i].1
                    == self@.symbols[i].offset,
    {
        let mut out: Vec<(Vec<u8>, Option<u32>)> = Vec::new();
        let mut i: usize = 0;
        while i < self.symbols.symbols.len()
            invariant
                0 <= i <= self.symbols.symbols@.len(),
                self@.symbols.len() == self.symbols.symbols@.len(),
                out@.len() == i,
                forall|j: int|
                    0 <= j < i ==> #[trigger] out@[j].0@ == self@.symbols[j].name && out@[j].1
                        == self@.symbols[j].offset,
            decreases self.symbols.symbols@.len() - i,
        {
            let name = vstd::slice::slice_to_vec(self.symbols.symbols[i].name.as_slice());
            let offset = self.symbols.symbols[i].offset;
            out.push((name, offset));
            i = i + 1;
        }
        out
    }

    /// The fixed 64-byte image header: the magic bytes, then zeros.
    pub fn write_pie_header(&self) -> (r: Vec<u8>)
        ensures
            r@ == spec_header(),
    {
        let mut header: Vec<u8> = Vec::new();
        header.push(45);
        header.push(50);
        header.push(49);
        header.push(45);
        while header.len() < 64
            invariant
                4 <= header@.len() <= 64,
                header@[0] == 45u8 && header@[1] == 50u8 && header@[2] == 49u8 && header@[3]
                    == 45u8,
                forall|j: int| 4 <= j < header@.len() ==> header@[j] == 0u8,
            decreases 64 - header@.len(),
        {
            header.push(0);
        }
        proof {
            assert(header@ =~= spec_header());
        }
        header
    }

    /// Assembles a source text into a binary image: the 64-byte header
    /// followed by the code segment; see `spec_assemble`. String constants
    /// are left in `ro`, the symbols in `symbols`, and the code segment in
    /// `bytecode`. A fresh assembler is required: one assembler serves one
    /// assembly.
    pub fn assemble(&mut self, raw: &str) -> (r: Result<Vec<u8>, Vec<AssemblerError>>)
        requires
            old(self)@ == spec_pass1_init(),
            old(self).phase == AssemblerPhase::First,
        ensures
            match (r, spec_assemble(raw.spec_bytes())) {
                (Ok(v), Ok(bs)) => v@ == bs,
                (Err(a), Err(es)) => errors_view(a@) == es,
                _ => false,
            },
            spec_parse_program(raw.spec_bytes()) is Ok ==> ({
                let st = spec_pass1(
                    spec_parse_program(raw.spec_bytes())->Ok_0,
                    0,
                    spec_pass1_init(),
                );
                &&& final(self)@.symbols == st.symbols
                &&& final(self)@.ro == st.ro
                &&& final(self)@.ro_offset == st.ro_offset
                &&& final(self)@.sections == st.sections
                &&& final(self)@.current_section == st.current_section
                &&& final(self)@.current_instruction == st.current_instruction
                &&& final(self)@.errors == (if st.errors.len() == 0 && st.sections.len() != 2 {
                    st.errors.push(AssemblerErrorV::InsufficientSections)
                } else {
                    st.errors
                })
                &&& final(self).phase == AssemblerPhase::Second
            }),
            spec_assemble(raw.spec_bytes()) is Ok ==> final(self).bytecode@ == spec_encode_program(
                spec_parse_program(raw.spec_bytes())->Ok_0,
                spec_pass1(
                    spec_parse_program(raw.spec_bytes())->Ok_0,
                    0,
                    spec_pass1_init(),
                ).symbols,
                0,
            )->Ok_0,
            spec_assemble(raw.spec_bytes()) is Err ==> final(self).bytecode == old(self).bytecode,
            spec_parse_program(raw.spec_bytes()) is Err ==> *final(self) == *old(self),
    {
        let prog = match crate::assembler::program_parsers::program(raw) {
            Ok(p) => p,
            Err(e) => {
                let mut es: Vec<AssemblerError> = Vec::new();
                let ghost ev = e@;
                es.push(e);
                proof {
                    assert(errors_view(es@) =~= seq![ev]);
                }
                return Err(es);
            },
        };
        let header = self.write_pie_header();
        self.process_first_phase(&prog);
        if self.errors.len() > 0 {
            return Err(clone_errors(&self.errors));
        }
        if self.sections.len() != 2 {
            self.note_error(AssemblerError::InsufficientSections);
            return Err(clone_errors(&self.errors));
        }
        let body = match self.process_second_phase(&prog) {
            Ok(b) => b,
            Err(e) => {
                let mut es: Vec<AssemblerError> = Vec::new();
                let ghost ev = e@;
                es.push(e);
                proof {
                    assert(errors_view(es@) =~= seq![ev]);
                }
                return Err(es);
            },
        };
        self.bytecode = vstd::slice::slice_to_vec(body.as_slice());
        let mut image = header;
        append_bytes(&mut image, &body);
        Ok(image)
    }
}

} // verus!
