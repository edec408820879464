use vstd::prelude::*;
use vstd::string::StrSliceExecFns;
use vstd::string::StringSliceAdditionalSpecFns;

use crate::assembler::instruction_parsers::parse_line;
use crate::assembler::instruction_parsers::spec_parse_line;
use crate::assembler::instruction_parsers::AssemblerInstruction;
use crate::assembler::instruction_parsers::LineOut;
use crate::assembler::instruction_parsers::LineParseV;
use crate::assembler::operand_parsers::parse_ident;
use crate::assembler::operand_parsers::skip_ws;
use crate::assembler::operand_parsers::spec_parse_ident;
use crate::assembler::operand_parsers::spec_skip_ws;
use crate::assembler::Token;
use crate::assembler::TokenV;

verus! {

/// Parses one directive token from source text: a dot followed by its
/// name, with surrounding whitespace allowed. Yields the token and the
/// position after it.
pub fn directive(s: &str) -> (r: Option<(Token, usize)>)
    ensures
        ({
            let bs = s.spec_bytes();
            let e = bs.len() as int;
            let i0 = spec_skip_ws(bs, 0, e);
            if i0 < e && bs[i0] == 46 {
                match spec_parse_ident(bs, i0 + 1, e) {
                    Some(np) => r is Some && r.unwrap().0@ == (TokenV::Directive { name: np.0 })
                        && r.unwrap().1 as int == spec_skip_ws(bs, np.1, e),
                    None => r is None,
                }
            } else {
                r is None
            }
        }),
{
    let bytes = s.as_bytes_vec();
    let e = bytes.len();
    let i0 = skip_ws(&bytes, 0, e);
    if i0 < e && bytes[i0] == 46 {
        match parse_ident(&bytes, i0 + 1, e) {
            Some((name, p)) => Some((Token::Directive { name }, skip_ws(&bytes, p, e))),
            None => None,
        }
    } else {
        None
    }
}

/// Parses one whole source line that must be a directive form: an optional
/// label declaration, the directive, and up to three operands.
pub fn directive_combined(s: &str) -> (r: Option<AssemblerInstruction>)
    ensures
        ({
            let bs = s.spec_bytes();
            match spec_parse_line(bs, 0, bs.len() as int) {
                LineParseV::Instr(iv) => if iv.directive is Some {
                    r is Some && r.unwrap()@ == iv
                } else {
                    r is None
                },
                _ => r is None,
            }
        }),
{
    let bytes = s.as_bytes_vec();
    let e = bytes.len();
    match parse_line(&bytes, 0, e) {
        LineOut::Instr(a) => {
            if a.directive.is_some() {
                Some(a)
            } else {
                None
            }
        },
        _ => None,
    }
}

} // verus!
