use vstd::prelude::*;
use vstd::string::StrSliceExecFns;
use vstd::string::StringSliceAdditionalSpecFns;

use crate::assembler::assembler_errors::AssemblerError;
use crate::assembler::assembler_errors::AssemblerErrorV;
use crate::assembler::instruction_parsers::parse_line;
use crate::assembler::instruction_parsers::spec_encode_instruction;
use crate::assembler::instruction_parsers::spec_parse_line;
use crate::assembler::instruction_parsers::AssemblerInstruction;
use crate::assembler::instruction_parsers::InstructionV;
use crate::assembler::instruction_parsers::LineOut;
use crate::assembler::instruction_parsers::LineParseV;
use crate::assembler::operand_parsers::subvec;
use crate::assembler::symbols::SymbolTable;
use crate::assembler::symbols::SymbolV;

verus! {

/// The views of a list of instructions.
pub open spec fn program_view(v: Seq<AssemblerInstruction>) -> Seq<InstructionV> {
    v.map_values(|x: AssemblerInstruction| x@)
}

/// The position of the first newline at or after `i`, or the end of input.
pub open spec fn spec_find_nl(s: Seq<u8>, i: int) -> int
    decreases s.len() - i,
{
    if 0 <= i < s.len() && s[i] != 10 {
        spec_find_nl(s, i + 1)
    } else {
        i
    }
}

pub proof fn lemma_find_nl(s: Seq<u8>, i: int)
    requires
        0 <= i <= s.len(),
    ensures
        i <= spec_find_nl(s, i) <= s.len(),
    decreases s.len() - i,
{
    if i < s.len() && s[i] != 10 {
        lemma_find_nl(s, i + 1);
    }
}

/// The instructions parsed from the lines starting at `i`: each line runs
/// to the next newline, blank lines are skipped, and the first line that
/// fails to parse aborts with its text.
pub open spec fn spec_parse_instrs(s: Seq<u8>, i: int) -> Result<Seq<InstructionV>, Seq<u8>>
    decreases s.len() - i,
    via spec_parse_instrs_dec
{
    if !(0 <= i < s.len()) {
        Ok(Seq::empty())
    } else {
        let n = spec_find_nl(s, i);
        let next = if n < s.len() {
            n + 1
        } else {
            n
        };
        match spec_parse_line(s, i, n) {
            LineParseV::Blank => spec_parse_instrs(s, next),
            LineParseV::Fail => Err(s.subrange(i, n)),
            LineParseV::Instr(iv) => match spec_parse_instrs(s, next) {
                Ok(tail) => Ok(seq![iv] + tail),
                Err(l) => Err(l),
            },
        }
    }
}

#[via_fn]
proof fn spec_parse_instrs_dec(s: Seq<u8>, i: int) {
    if 0 <= i < s.len() {
        lemma_find_nl(s, i);
    }
}

/// A whole source text parsed to its instruction list. An input with no
/// instruction at all is a parse failure.
pub open spec fn spec_parse_program(s: Seq<u8>) -> Result<Seq<InstructionV>, Seq<u8>> {
    match spec_parse_instrs(s, 0) {
        Ok(ivs) => if ivs.len() == 0 {
            Err(s)
        } else {
            Ok(ivs)
        },
        Err(l) => Err(l),
    }
}

/// Finds the next newline in executable code.
fn find_nl(s: &Vec<u8>, i: usize) -> (r: usize)
    requires
        i <= s@.len(),
    ensures
        r as int == spec_find_nl(s@, i as int),
        i <= r <= s@.len(),
{
    let mut p = i;
    while p < s.len() && s[p] != 10
        invariant
            i <= p <= s@.len(),
            spec_find_nl(s@, i as int) == spec_find_nl(s@, p as int),
        decreases s@.len() - p,
    {
        p = p + 1;
    }
    p
}

/// Parses every line of a source buffer; see `spec_parse_instrs`.
fn parse_instrs(bytes: &Vec<u8>) -> (r: Result<Vec<AssemblerInstruction>, Vec<u8>>)
    ensures
        match (r, spec_parse_instrs(bytes@, 0)) {
            (Ok(v), Ok(ivs)) => program_view(v@) == ivs,
            (Err(l), Err(sl)) => l@ == sl,
            _ => false,
        },
{
    let mut acc: Vec<AssemblerInstruction> = Vec::new();
    let mut i: usize = 0;
    proof {
        assert(program_view(acc@) =~= Seq::<InstructionV>::empty());
        if spec_parse_instrs(bytes@, 0) is Ok {
            assert(program_view(acc@) + spec_parse_instrs(bytes@, 0)->Ok_0 =~= spec_parse_instrs(
                bytes@,
                0,
            )->Ok_0);
        }
    }
    while i < bytes.len()
        invariant
            0 <= i <= bytes@.len(),
            match spec_parse_instrs(bytes@, i as int) {
                Ok(t) => spec_parse_instrs(bytes@, 0) == Ok::<_, Seq<u8>>(
                    program_view(acc@) + t,
                ),
                Err(l) => spec_parse_instrs(bytes@, 0) == Err::<Seq<InstructionV>, _>(l),
            },
        decreases bytes@.len() - i,
    {
        let n = find_nl(bytes, i);
        let ghost pre = acc@;
        let ghost nx: int = if n < bytes@.len() {
            n + 1
        } else {
            n as int
        };
        match parse_line(bytes, i, n) {
            LineOut::Blank => {
            },
            LineOut::Fail => {
                return Err(subvec(bytes, i, n));
            },
            LineOut::Instr(a) => {
                let ghost av = a@;
                acc.push(a);
                proof {
                    assert(program_view(acc@) =~= program_view(pre).push(av));
                    if spec_parse_instrs(bytes@, nx) is Ok {
                        let tail = spec_parse_instrs(bytes@, nx)->Ok_0;
                        assert(program_view(pre).push(av) + tail =~= program_view(pre) + (seq![av]
                            + tail));
                    }
                }
            },
        }
        if n < bytes.len() {
            i = n + 1;
        } else {
            i = n;
        }
    }
    proof {
        assert(spec_parse_instrs(bytes@, i as int) == Ok::<Seq<InstructionV>, Seq<u8>>(
            Seq::empty(),
        ));
        assert(program_view(acc@) + Seq::<InstructionV>::empty() =~= program_view(acc@));
    }
    Ok(acc)
}

/// An ordered list of source instructions; order decides the layout of the
/// code segment and of the read-only data.
#[derive(Debug, PartialEq)]
pub struct Program {
    pub instructions: Vec<AssemblerInstruction>,
}

impl View for Program {
    type V = Seq<InstructionV>;

    open spec fn view(&self) -> Seq<InstructionV> {
        program_view(self.instructions@)
    }
}

/// Parses a whole source text into a program; see `spec_parse_program`.
/// A failing line, or an input with no instruction, is a `ParseError`
/// carrying the offending text.
pub fn program(source: &str) -> (r: Result<Program, AssemblerError>)
    ensures
        match (r, spec_parse_program(source.spec_bytes())) {
            (Ok(p), Ok(ivs)) => p@ == ivs,
            (Err(a), Err(l)) => a@ == AssemblerErrorV::ParseError { error: l },
            _ => false,
        },
{
    let bytes = source.as_bytes_vec();
    match parse_instrs(&bytes) {
        Ok(v) => {
            if v.len() == 0 {
                Err(AssemblerError::ParseError { error: bytes })
            } else {
                Ok(Program { instructions: v })
            }
        },
        Err(l) => Err(AssemblerError::ParseError { error: l }),
    }
}

/// The concatenated code bytes of the instructions from `k` on; the first
/// instruction that fails to lower aborts with its diagnostic.
pub open spec fn spec_encode_program(
    ivs: Seq<InstructionV>,
    sym: Seq<SymbolV>,
    k: int,
) -> Result<Seq<u8>, AssemblerErrorV>
    decreases ivs.len() - k,
{
    if !(0 <= k < ivs.len()) {
        Ok(Seq::empty())
    } else {
        match spec_encode_instruction(ivs[k], sym) {
            Err(e) => Err(e),
            Ok(b) => match spec_encode_program(ivs, sym, k + 1) {
                Ok(rest) => Ok(b + rest),
                Err(e) => Err(e),
            },
        }
    }
}

impl Program {
    /// Lowers every instruction against a symbol table and concatenates
    /// the code bytes; see `spec_encode_program`. Directive lines
    /// contribute nothing.
    pub fn to_bytes(&self, symbols: &SymbolTable) -> (r: Result<Vec<u8>, AssemblerError>)
        ensures
            match (r, spec_encode_program(self@, symbols@, 0)) {
                (Ok(v), Ok(bs)) => v@ == bs,
                (Err(a), Err(ev)) => a@ == ev,
                _ => false,
            },
    {
        let mut out: Vec<u8> = Vec::new();
        let mut i: usize = 0;
        proof {
            assert(out@ =~= Seq::<u8>::empty());
        }
        while i < self.instructions.len()
            invariant
                0 <= i <= self.instructions@.len(),
                self@.len() == self.instructions@.len(),
                match spec_encode_program(self@, symbols@, i as int) {
                    Ok(t) => spec_encode_program(self@, symbols@, 0) == Ok::<_, AssemblerErrorV>(
                        out@ + t,
                    ),
                    Err(e) => spec_encode_program(self@, symbols@, 0) == Err::<Seq<u8>, _>(e),
                },
            decreases self.instructions@.len() - i,
        {
            let ghost pre = out@;
            match self.instructions[i].to_bytes(symbols) {
                Ok(bs) => {
                    proof {
                        assert(self@[i as int] == self.instructions@[i as int]@);
                    }
                    let mut k: usize = 0;
                    while k < bs.len()
                        invariant
                            0 <= k <= bs@.len(),
                            out@ == pre + bs@.subrange(0, k as int),
                        decreases bs@.len() - k,
                    {
                        out.push(bs[k]);
                        proof {
                            assert(out@ =~= pre + bs@.subrange(0, k + 1));
                        }
                        k = k + 1;
                    }
                    proof {
                        assert(bs@.subrange(0, bs@.len() as int) =~= bs@);
                        if spec_encode_program(self@, symbols@, i + 1) is Ok {
                            let tail = spec_encode_program(self@, symbols@, i + 1)->Ok_0;
                            assert((pre + bs@) + tail =~= pre + (bs@ + tail));
                        }
                    }
                },
                Err(e) => {
                    return Err(e);
                },
            }
            i = i + 1;
        }
        proof {
            assert(spec_encode_program(self@, symbols@, i as int) == Ok::<Seq<u8>, AssemblerErrorV>(
                Seq::empty(),
            ));
            assert(out@ + Seq::<u8>::empty() =~= out@);
        }
        Ok(out)
    }
}

} // verus!
