use vstd::prelude::*;

use crate::assembler::assembler_errors::AssemblerError;
use crate::assembler::assembler_errors::AssemblerErrorV;
use crate::assembler::assembler_errors::OperandIssue;
use crate::assembler::opcode_parsers::parse_opcode;
use crate::assembler::opcode_parsers::spec_parse_opcode;
use crate::assembler::operand_parsers::alpha_byte;
use crate::assembler::operand_parsers::is_alpha;
use crate::assembler::operand_parsers::parse_ident;
use crate::assembler::operand_parsers::parse_operand;
use crate::assembler::operand_parsers::skip_ws;
use crate::assembler::operand_parsers::spec_parse_ident;
use crate::assembler::operand_parsers::spec_parse_operand;
use crate::assembler::operand_parsers::spec_skip_ws;
use crate::assembler::opt_token_view;
use crate::assembler::symbols::table_value;
use crate::assembler::symbols::SymbolTable;
use crate::assembler::symbols::SymbolV;
use crate::assembler::Token;
use crate::assembler::TokenV;
use crate::instruction::opcode_code;
use crate::instruction::operand_limit;
use crate::instruction::slot_is_register;
use crate::instruction::Opcode;

verus! {

/// The mathematical content of one source instruction.
pub struct InstructionV {
    pub opcode: Option<TokenV>,
    pub label: Option<TokenV>,
    pub directive: Option<TokenV>,
    pub operand1: Option<TokenV>,
    pub operand2: Option<TokenV>,
    pub operand3: Option<TokenV>,
}

/// One parsed source line: an optional label, then either an opcode or a
/// directive, and up to three operands.
#[derive(Debug, PartialEq)]
pub struct AssemblerInstruction {
    pub opcode: Option<Token>,
    pub label: Option<Token>,
    pub directive: Option<Token>,
    pub operand1: Option<Token>,
    pub operand2: Option<Token>,
    pub operand3: Option<Token>,
}

impl View for AssemblerInstruction {
    type V = InstructionV;

    open spec fn view(&self) -> InstructionV {
        InstructionV {
            opcode: opt_token_view(self.opcode),
            label: opt_token_view(self.label),
            directive: opt_token_view(self.directive),
            operand1: opt_token_view(self.operand1),
            operand2: opt_token_view(self.operand2),
            operand3: opt_token_view(self.operand3),
        }
    }
}

/// The label name an instruction declares, when its label slot holds a
/// declaration token.
pub open spec fn label_name_of(iv: InstructionV) -> Option<Seq<u8>> {
    match iv.label {
        Some(TokenV::LabelDeclaration { name }) => Some(name),
        _ => None,
    }
}

/// The directive name an instruction carries, when its directive slot holds
/// a directive token.
pub open spec fn directive_name_of(iv: InstructionV) -> Option<Seq<u8>> {
    match iv.directive {
        Some(TokenV::Directive { name }) => Some(name),
        _ => None,
    }
}

/// The string payload of an instruction's first operand, when it is a
/// string literal.
pub open spec fn string_constant_of(iv: InstructionV) -> Option<Seq<u8>> {
    match iv.operand1 {
        Some(TokenV::IrString { name }) => Some(name),
        _ => None,
    }
}

/// How many operand slots are filled.
pub open spec fn count_operands(iv: InstructionV) -> int {
    (if iv.operand1 is Some {
        1int
    } else {
        0int
    }) + (if iv.operand2 is Some {
        1int
    } else {
        0int
    }) + (if iv.operand3 is Some {
        1int
    } else {
        0int
    })
}

impl AssemblerInstruction {
    /// Whether this instruction declares a label.
    pub fn is_label(&self) -> (r: bool)
        ensures
            r == (self@.label is Some),
    {
        self.label.is_some()
    }

    /// Whether this instruction is a directive line.
    pub fn is_directive(&self) -> (r: bool)
        ensures
            r == (self@.directive is Some),
    {
        self.directive.is_some()
    }

    /// Whether this instruction is an opcode line.
    pub fn is_opcode(&self) -> (r: bool)
        ensures
            r == (self@.opcode is Some),
    {
        self.opcode.is_some()
    }

    /// Whether any operand slot is filled.
    pub fn has_operands(&self) -> (r: bool)
        ensures
            r == (count_operands(self@) > 0),
    {
        self.operand1.is_some() || self.operand2.is_some() || self.operand3.is_some()
    }

    /// The declared label's name, copied out.
    pub fn get_label_name(&self) -> (r: Option<Vec<u8>>)
        ensures
            match (r, label_name_of(self@)) {
                (Some(v), Some(n)) => v@ == n,
                (None, None) => true,
                _ => false,
            },
    {
        match &self.label {
            Some(Token::LabelDeclaration { name }) => Some(
                vstd::slice::slice_to_vec(name.as_slice()),
            ),
            _ => None,
        }
    }

    /// The directive's name, copied out.
    pub fn get_directive_name(&self) -> (r: Option<Vec<u8>>)
        ensures
            match (r, directive_name_of(self@)) {
                (Some(v), Some(n)) => v@ == n,
                (None, None) => true,
                _ => false,
            },
    {
        match &self.directive {
            Some(Token::Directive { name }) => Some(vstd::slice::slice_to_vec(name.as_slice())),
            _ => None,
        }
    }

    /// The string payload of the first operand, copied out.
    pub fn get_string_constant(&self) -> (r: Option<Vec<u8>>)
        ensures
            match (r, string_constant_of(self@)) {
                (Some(v), Some(n)) => v@ == n,
                (None, None) => true,
                _ => false,
            },
    {
        match &self.operand1 {
            Some(Token::IrString { name }) => Some(vstd::slice::slice_to_vec(name.as_slice())),
            _ => None,
        }
    }
}

/// A value reduced to its low sixteen bits.
pub open spec fn wrap16(v: int) -> int {
    v % 0x10000
}

/// The big-endian bytes of a signed value truncated to sixteen bits.
fn imm16_bytes(v: i32) -> (r: (u8, u8))
    ensures
        r.0 as int == wrap16(v as int) / 256,
        r.1 as int == wrap16(v as int) % 256,
{
    let u: u32 = if v >= 0 {
        (v as u32) % 65536
    } else {
        proof {
            vstd::arithmetic::div_mod::lemma_mod_multiples_vanish(65536, v as int, 65536);
        }
        (((v as i64) + 0x1_0000_0000i64) as u32) % 65536
    };
    ((u / 256) as u8, (u % 256) as u8)
}

/// The big-endian bytes of an offset truncated to sixteen bits.
fn off16_bytes(off: u32) -> (r: (u8, u8))
    ensures
        r.0 as int == wrap16(off as int) / 256,
        r.1 as int == wrap16(off as int) % 256,
{
    let t = off % 65536;
    ((t / 256) as u8, (t % 256) as u8)
}

/// The code bytes one operand lowers to: a register becomes one byte, an
/// integer two big-endian bytes, and a label usage the two big-endian bytes
/// of its resolved offset. A label usage in a register position, an
/// unresolved label, and any other token are errors.
pub open spec fn spec_encode_operand(t: TokenV, is_reg: bool, sym: Seq<SymbolV>) -> Result<
    Seq<u8>,
    AssemblerErrorV,
> {
    match t {
        TokenV::Register { reg_num } => Ok(seq![reg_num]),
        TokenV::IntegerOperand { value } => Ok(
            seq![
                (wrap16(value as int) / 256) as u8,
                (wrap16(value as int) % 256) as u8,
            ],
        ),
        TokenV::LabelUsage { name } => {
            if is_reg {
                Err(AssemblerErrorV::InvalidOperand { reason: OperandIssue::LabelInRegisterSlot })
            } else {
                match table_value(sym, name) {
                    Some(off) => Ok(
                        seq![
                            (wrap16(off as int) / 256) as u8,
                            (wrap16(off as int) % 256) as u8,
                        ],
                    ),
                    None => Err(
                        AssemblerErrorV::InvalidOperand { reason: OperandIssue::UnresolvedLabel },
                    ),
                }
            }
        },
        _ => Err(AssemblerErrorV::InvalidOperand { reason: OperandIssue::UnexpectedToken }),
    }
}

/// Lowers one operand, appending its bytes.
fn encode_operand(t: &Token, is_reg: bool, symbols: &SymbolTable, out: &mut Vec<u8>) -> (r: Result<
    (),
    AssemblerError,
>)
    ensures
        match (r, spec_encode_operand(t@, is_reg, symbols@)) {
            (Ok(u), Ok(bs)) => final(out)@ == old(out)@ + bs,
            (Err(a), Err(ev)) => a@ == ev && final(out)@ == old(out)@,
            _ => false,
        },
{
    match t {
        Token::Register { reg_num } => {
            let n = *reg_num;
            out.push(n);
            proof {
                assert(out@ =~= old(out)@ + seq![n]);
            }
            Ok(())
        },
        Token::IntegerOperand { value } => {
            let (hi, lo) = imm16_bytes(*value);
            out.push(hi);
            out.push(lo);
            proof {
                assert(out@ =~= old(out)@ + seq![hi, lo]);
            }
            Ok(())
        },
        Token::LabelUsage { name } => {
            if is_reg {
                Err(AssemblerError::InvalidOperand { reason: OperandIssue::LabelInRegisterSlot })
            } else {
                match symbols.symbol_value(name.as_slice()) {
                    Some(off) => {
                        let (hi, lo) = off16_bytes(off);
                        out.push(hi);
                        out.push(lo);
                        proof {
                            assert(out@ =~= old(out)@ + seq![hi, lo]);
                        }
                        Ok(())
                    },
                    None => Err(
                        AssemblerError::InvalidOperand { reason: OperandIssue::UnresolvedLabel },
                    ),
                }
            }
        },
        _ => Err(AssemblerError::InvalidOperand { reason: OperandIssue::UnexpectedToken }),
    }
}

/// The four code bytes an instruction lowers to: the opcode byte, each
/// operand's bytes in order, and zero padding. Operand positions count only
/// filled slots. An instruction with no opcode lowers to nothing; one with
/// more operands than the opcode admits, or whose operand bytes run past
/// four, is refused.
pub open spec fn spec_encode_instruction(iv: InstructionV, sym: Seq<SymbolV>) -> Result<
    Seq<u8>,
    AssemblerErrorV,
> {
    match iv.opcode {
        None => Ok(Seq::empty()),
        Some(TokenV::Op { code }) => {
            if count_operands(iv) > operand_limit(code) {
                Err(AssemblerErrorV::InvalidOperand { reason: OperandIssue::TooManyOperands })
            } else {
                let r1 = match iv.operand1 {
                    Some(t) => spec_encode_operand(t, slot_is_register(code, 0), sym),
                    None => Ok(Seq::empty()),
                };
                match r1 {
                    Err(e) => Err(e),
                    Ok(b1) => {
                        let pos2: int = if iv.operand1 is Some {
                            1
                        } else {
                            0
                        };
                        let r2 = match iv.operand2 {
                            Some(t) => spec_encode_operand(t, slot_is_register(code, pos2), sym),
                            None => Ok(Seq::empty()),
                        };
                        match r2 {
                            Err(e) => Err(e),
                            Ok(b2) => {
                                let pos3: int = pos2 + (if iv.operand2 is Some {
                                    1int
                                } else {
                                    0int
                                });
                                let r3 = match iv.operand3 {
                                    Some(t) => spec_encode_operand(
                                        t,
                                        slot_is_register(code, pos3),
                                        sym,
                                    ),
                                    None => Ok(Seq::empty()),
                                };
                                match r3 {
                                    Err(e) => Err(e),
                                    Ok(b3) => {
                                        let body = seq![opcode_code(code)] + b1 + b2 + b3;
                                        if body.len() > 4 {
                                            Err(
                                                AssemblerErrorV::InvalidOperand {
                                                    reason: OperandIssue::InstructionTooWide,
                                                },
                                            )
                                        } else {
                                            Ok(
                                                body + Seq::new(
                                                    (4 - body.len()) as nat,
                                                    |q: int| 0u8,
                                                ),
                                            )
                                        }
                                    },
                                }
                            },
                        }
                    },
                }
            }
        },
        Some(_) => Err(AssemblerErrorV::InvalidOperand { reason: OperandIssue::UnexpectedToken }),
    }
}

/// Executable form of `operand_limit`.
fn limit_of(code: Opcode) -> (r: usize)
    ensures
        r as int == operand_limit(code),
{
    match code {
        Opcode::LOAD => 2,
        Opcode::ADD => 3,
        Opcode::SUB => 3,
        Opcode::MUL => 3,
        Opcode::DIV => 3,
        Opcode::EQ => 3,
        Opcode::NEQ => 3,
        Opcode::GT => 3,
        Opcode::GTE => 3,
        Opcode::LT => 3,
        Opcode::LTE => 3,
        Opcode::JMP => 1,
        Opcode::JMPE => 1,
        Opcode::ALOC => 1,
        Opcode::PRTS => 1,
        Opcode::HLT => 0,
        Opcode::NOP => 0,
        Opcode::IGL => 0,
    }
}

/// Executable form of `slot_is_register`.
fn slot_reg(code: Opcode, pos: usize) -> (r: bool)
    ensures
        r == slot_is_register(code, pos as int),
{
    match code {
        Opcode::LOAD => pos == 0,
        Opcode::ADD => true,
        Opcode::SUB => true,
        Opcode::MUL => true,
        Opcode::DIV => true,
        Opcode::EQ => true,
        Opcode::NEQ => true,
        Opcode::GT => true,
        Opcode::GTE => true,
        Opcode::LT => true,
        Opcode::LTE => true,
        Opcode::JMP => pos == 0,
        Opcode::JMPE => pos == 0,
        Opcode::ALOC => pos == 0,
        Opcode::PRTS => false,
        Opcode::HLT => false,
        Opcode::NOP => false,
        Opcode::IGL => false,
    }
}

impl AssemblerInstruction {
    /// Lowers this instruction to its code bytes against a symbol table;
    /// see `spec_encode_instruction`. A successful opcode line yields
    /// exactly four bytes; a directive line yields none.
    pub fn to_bytes(&self, symbols: &SymbolTable) -> (r: Result<Vec<u8>, AssemblerError>)
        ensures
            match (r, spec_encode_instruction(self@, symbols@)) {
                (Ok(v), Ok(bs)) => v@ == bs,
                (Err(a), Err(ev)) => a@ == ev,
                _ => false,
            },
            match r {
                Ok(v) => (self@.opcode is Some ==> v@.len() == 4) && (self@.opcode is None
                    ==> v@.len() == 0),
                Err(a) => true,
            },
    {
        let mut results: Vec<u8> = Vec::new();
        let code: Opcode = match &self.opcode {
            None => {
                proof {
                    assert(results@ =~= Seq::<u8>::empty());
                }
                return Ok(results);
            },
            Some(Token::Op { code }) => *code,
            Some(_) => {
                return Err(
                    AssemblerError::InvalidOperand { reason: OperandIssue::UnexpectedToken },
                );
            },
        };
        let mut count: usize = 0;
        if self.operand1.is_some() {
            count = count + 1;
        }
        if self.operand2.is_some() {
            count = count + 1;
        }
        if self.operand3.is_some() {
            count = count + 1;
        }
        if count > limit_of(code) {
            return Err(AssemblerError::InvalidOperand { reason: OperandIssue::TooManyOperands });
        }
        results.push(code.to_byte());
        let mut pos: usize = 0;
        match &self.operand1 {
            Some(t) => {
                match encode_operand(t, slot_reg(code, pos), symbols, &mut results) {
                    Ok(()) => (),
                    Err(e) => {
                        return Err(e);
                    },
                }
                pos = pos + 1;
            },
            None => (),
        }
        match &self.operand2 {
            Some(t) => {
                match encode_operand(t, slot_reg(code, pos), symbols, &mut results) {
                    Ok(()) => (),
                    Err(e) => {
                        return Err(e);
                    },
                }
                pos = pos + 1;
            },
            None => (),
        }
        match &self.operand3 {
            Some(t) => {
                match encode_operand(t, slot_reg(code, pos), symbols, &mut results) {
                    Ok(()) => (),
                    Err(e) => {
                        return Err(e);
                    },
                }
                pos = pos + 1;
            },
            None => (),
        }
        if results.len() > 4 {
            return Err(
                AssemblerError::InvalidOperand { reason: OperandIssue::InstructionTooWide },
            );
        }
        let ghost body = results@;
        while results.len() < 4
            invariant
                body.len() <= results@.len() <= 4,
                results@ == body + Seq::new((results@.len() - body.len()) as nat, |q: int| 0u8),
            decreases 4 - results@.len(),
        {
            results.push(0);
            proof {
                assert(results@ =~= body + Seq::new(
                    (results@.len() - body.len()) as nat,
                    |q: int| 0u8,
                ));
            }
        }
        proof {
            assert(spec_encode_instruction(self@, symbols@) == Ok::<Seq<u8>, AssemblerErrorV>(
                body + Seq::new((4 - body.len()) as nat, |q: int| 0u8),
            ));
        }
        Ok(results)
    }
}

/// The outcome of parsing one source line.
pub enum LineParseV {
    Blank,
    Instr(InstructionV),
    Fail,
}

/// An optional leading label declaration: an identifier followed directly
/// by a colon. Yields the token and the position after it (whitespace
/// skipped), or no token and the starting position.
pub open spec fn spec_parse_label_opt(s: Seq<u8>, i: int, e: int) -> (Option<TokenV>, int) {
    match spec_parse_ident(s, i, e) {
        Some(np) => {
            if np.1 < e && 0 <= np.1 < s.len() && s[np.1] == 58 {
                (Some(TokenV::LabelDeclaration { name: np.0 }), spec_skip_ws(s, np.1 + 1, e))
            } else {
                (None, i)
            }
        },
        None => (None, i),
    }
}

/// Up to three whitespace-separated operands, then the end of the line.
/// Anything left over fails the line.
pub open spec fn spec_parse_operands(
    s: Seq<u8>,
    i: int,
    e: int,
    opc: Option<TokenV>,
    lbl: Option<TokenV>,
    dir: Option<TokenV>,
) -> LineParseV {
    let i1 = spec_skip_ws(s, i, e);
    if i1 == e {
        LineParseV::Instr(
            InstructionV {
                opcode: opc,
                label: lbl,
                directive: dir,
                operand1: None,
                operand2: None,
                operand3: None,
            },
        )
    } else {
        match spec_parse_operand(s, i1, e) {
            None => LineParseV::Fail,
            Some(tp1) => {
                let i2 = spec_skip_ws(s, tp1.1, e);
                if i2 == e {
                    LineParseV::Instr(
                        InstructionV {
                            opcode: opc,
                            label: lbl,
                            directive: dir,
                            operand1: Some(tp1.0),
                            operand2: None,
                            operand3: None,
                        },
                    )
                } else {
                    match spec_parse_operand(s, i2, e) {
                        None => LineParseV::Fail,
                        Some(tp2) => {
                            let i3 = spec_skip_ws(s, tp2.1, e);
                            if i3 == e {
                                LineParseV::Instr(
                                    InstructionV {
                                        opcode: opc,
                                        label: lbl,
                                        directive: dir,
                                        operand1: Some(tp1.0),
                                        operand2: Some(tp2.0),
                                        operand3: None,
                                    },
                                )
                            } else {
                                match spec_parse_operand(s, i3, e) {
                                    None => LineParseV::Fail,
                                    Some(tp3) => {
                                        let i4 = spec_skip_ws(s, tp3.1, e);
                                        if i4 == e {
                                            LineParseV::Instr(
                                                InstructionV {
                                                    opcode: opc,
                                                    label: lbl,
                                                    directive: dir,
                                                    operand1: Some(tp1.0),
                                                    operand2: Some(tp2.0),
                                                    operand3: Some(tp3.0),
                                                },
                                            )
                                        } else {
                                            LineParseV::Fail
                                        }
                                    },
                                }
                            }
                        },
                    }
                }
            },
        }
    }
}

/// One source line of the dialect: optional label declaration, then a
/// directive (a dot and its name) or an instruction (a mnemonic), then up
/// to three operands. A line of nothing but whitespace is blank.
pub open spec fn spec_parse_line(s: Seq<u8>, b: int, e: int) -> LineParseV {
    let i0 = spec_skip_ws(s, b, e);
    if i0 == e {
        LineParseV::Blank
    } else {
        let lbl = spec_parse_label_opt(s, i0, e);
        let i1 = lbl.1;
        if i1 < e && 0 <= i1 < s.len() && s[i1] == 46 {
            match spec_parse_ident(s, i1 + 1, e) {
                Some(dp) => spec_parse_operands(
                    s,
                    dp.1,
                    e,
                    None,
                    lbl.0,
                    Some(TokenV::Directive { name: dp.0 }),
                ),
                None => LineParseV::Fail,
            }
        } else if i1 < e && 0 <= i1 < s.len() && is_alpha(s[i1]) {
            match spec_parse_opcode(s, i1, e) {
                Some(op) => if op.0 == (TokenV::Op { code: Opcode::IGL }) {
                    LineParseV::Fail
                } else {
                    spec_parse_operands(s, op.1, e, Some(op.0), lbl.0, None)
                },
                None => LineParseV::Fail,
            }
        } else {
            LineParseV::Fail
        }
    }
}

/// The executable outcome of parsing one source line.
#[derive(Debug)]
pub enum LineOut {
    Blank,
    Instr(AssemblerInstruction),
    Fail,
}

/// Whether an executable line outcome matches a specification one.
pub open spec fn line_matches(r: LineOut, sr: LineParseV) -> bool {
    match (r, sr) {
        (LineOut::Blank, LineParseV::Blank) => true,
        (LineOut::Instr(a), LineParseV::Instr(v)) => a@ == v,
        (LineOut::Fail, LineParseV::Fail) => true,
        _ => false,
    }
}

/// Parses an optional label declaration at `i`; see `spec_parse_label_opt`.
fn parse_label_opt(s: &Vec<u8>, i: usize, e: usize) -> (r: (Option<Token>, usize))
    requires
        i <= e <= s@.len(),
    ensures
        ({
            let sp = spec_parse_label_opt(s@, i as int, e as int);
            opt_token_view(r.0) == sp.0 && r.1 as int == sp.1 && i <= r.1 <= e
        }),
{
    match parse_ident(s, i, e) {
        Some((name, p)) => {
            if p < e && s[p] == 58 {
                (Some(Token::LabelDeclaration { name }), skip_ws(s, p + 1, e))
            } else {
                (None, i)
            }
        },
        None => (None, i),
    }
}

/// Parses a line's operand list; see `spec_parse_operands`.
fn parse_operands(
    s: &Vec<u8>,
    i: usize,
    e: usize,
    opc: Option<Token>,
    lbl: Option<Token>,
    dir: Option<Token>,
) -> (r: LineOut)
    requires
        i <= e <= s@.len(),
    ensures
        line_matches(
            r,
            spec_parse_operands(
                s@,
                i as int,
                e as int,
                opt_token_view(opc),
                opt_token_view(lbl),
                opt_token_view(dir),
            ),
        ),
{
    let i1 = skip_ws(s, i, e);
    if i1 == e {
        return LineOut::Instr(
            AssemblerInstruction {
                opcode: opc,
                label: lbl,
                directive: dir,
                operand1: None,
                operand2: None,
                operand3: None,
            },
        );
    }
    let (t1, p1) = match parse_operand(s, i1, e) {
        Some(tp) => tp,
        None => {
            return LineOut::Fail;
        },
    };
    let i2 = skip_ws(s, p1, e);
    if i2 == e {
        return LineOut::Instr(
            AssemblerInstruction {
                opcode: opc,
                label: lbl,
                directive: dir,
                operand1: Some(t1),
                operand2: None,
                operand3: None,
            },
        );
    }
    let (t2, p2) = match parse_operand(s, i2, e) {
        Some(tp) => tp,
        None => {
            return LineOut::Fail;
        },
    };
    let i3 = skip_ws(s, p2, e);
    if i3 == e {
        return LineOut::Instr(
            AssemblerInstruction {
                opcode: opc,
                label: lbl,
                directive: dir,
                operand1: Some(t1),
                operand2: Some(t2),
                operand3: None,
            },
        );
    }
    let (t3, p3) = match parse_operand(s, i3, e) {
        Some(tp) => tp,
        None => {
            return LineOut::Fail;
        },
    };
    let i4 = skip_ws(s, p3, e);
    if i4 == e {
        LineOut::Instr(
            AssemblerInstruction {
                opcode: opc,
                label: lbl,
                directive: dir,
                operand1: Some(t1),
                operand2: Some(t2),
                operand3: Some(t3),
            },
        )
    } else {
        LineOut::Fail
    }
}

/// Parses the source line in `[b, e)`; see `spec_parse_line`.
pub fn parse_line(s: &Vec<u8>, b: usize, e: usize) -> (r: LineOut)
    requires
        b <= e <= s@.len(),
    ensures
        line_matches(r, spec_parse_line(s@, b as int, e as int)),
{
    let i0 = skip_ws(s, b, e);
    if i0 == e {
        return LineOut::Blank;
    }
    let (lbl, i1) = parse_label_opt(s, i0, e);
    if i1 < e && s[i1] == 46 {
        match parse_ident(s, i1 + 1, e) {
            Some((dname, p)) => parse_operands(
                s,
                p,
                e,
                None,
                lbl,
                Some(Token::Directive { name: dname }),
            ),
            None => LineOut::Fail,
        }
    } else if i1 < e && alpha_byte(s[i1]) {
        match parse_opcode(s, i1, e) {
            Some((op, p)) => {
                let illegal = match &op {
                    Token::Op { code } => *code == Opcode::IGL,
                    _ => false,
                };
                if illegal {
                    LineOut::Fail
                } else {
                    parse_operands(s, p, e, Some(op), lbl, None)
                }
            },
            None => LineOut::Fail,
        }
    } else {
        LineOut::Fail
    }
}

} // verus!
