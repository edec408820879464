use vstd::prelude::*;
use vstd::string::StrSliceExecFns;
use vstd::string::StringSliceAdditionalSpecFns;

use crate::assembler::operand_parsers::spec_parse_ident;
use crate::assembler::operand_parsers::spec_skip_ws;
use crate::assembler::operand_parsers::parse_ident;
use crate::assembler::operand_parsers::skip_ws;
use crate::assembler::operand_parsers::token_step_matches;
use crate::assembler::Token;
use crate::assembler::TokenV;
use crate::instruction::Opcode;

verus! {

/// The opcode a lowercase mnemonic names; unknown mnemonics map to `IGL`.
pub open spec fn spec_mnemonic_opcode(n: Seq<u8>) -> Opcode {
    if n == seq![108u8, 111, 97, 100] {
        Opcode::LOAD
    } else if n == seq![97u8, 100, 100] {
        Opcode::ADD
    } else if n == seq![115u8, 117, 98] {
        Opcode::SUB
    } else if n == seq![109u8, 117, 108] {
        Opcode::MUL
    } else if n == seq![100u8, 105, 118] {
        Opcode::DIV
    } else if n == seq![104u8, 108, 116] {
        Opcode::HLT
    } else if n == seq![106u8, 109, 112] {
        Opcode::JMP
    } else if n == seq![101u8, 113] {
        Opcode::EQ
    } else if n == seq![110u8, 101, 113] {
        Opcode::NEQ
    } else if n == seq![103u8, 116] {
        Opcode::GT
    } else if n == seq![103u8, 116, 101] {
        Opcode::GTE
    } else if n == seq![108u8, 116] {
        Opcode::LT
    } else if n == seq![108u8, 116, 101] {
        Opcode::LTE
    } else if n == seq![106u8, 109, 112, 101] {
        Opcode::JMPE
    } else if n == seq![110u8, 111, 112] {
        Opcode::NOP
    } else if n == seq![97u8, 108, 111, 99] {
        Opcode::ALOC
    } else if n == seq![112u8, 114, 116, 115] {
        Opcode::PRTS
    } else {
        Opcode::IGL
    }
}

/// Maps mnemonic bytes to their opcode; anything unrecognised yields `IGL`.
pub fn mnemonic_to_opcode(name: &[u8]) -> (op: Opcode)
    ensures
        op == spec_mnemonic_opcode(name@),
{
    let n = name.len();
    if n == 2 {
        if name[0] == 101 && name[1] == 113 {
            proof {
                assert(name@ =~= seq![101u8, 113]);
            }
            Opcode::EQ
        } else if name[0] == 103 && name[1] == 116 {
            proof {
                assert(name@ =~= seq![103u8, 116]);
            }
            Opcode::GT
        } else if name[0] == 108 && name[1] == 116 {
            proof {
                assert(name@ =~= seq![108u8, 116]);
            }
            Opcode::LT
        } else {
            Opcode::IGL
        }
    } else if n == 3 {
        if name[0] == 97 && name[1] == 100 && name[2] == 100 {
            proof {
                assert(name@ =~= seq![97u8, 100, 100]);
            }
            Opcode::ADD
        } else if name[0] == 115 && name[1] == 117 && name[2] == 98 {
            proof {
                assert(name@ =~= seq![115u8, 117, 98]);
            }
            Opcode::SUB
        } else if name[0] == 109 && name[1] == 117 && name[2] == 108 {
            proof {
                assert(name@ =~= seq![109u8, 117, 108]);
            }
            Opcode::MUL
        } else if name[0] == 100 && name[1] == 105 && name[2] == 118 {
            proof {
                assert(name@ =~= seq![100u8, 105, 118]);
            }
            Opcode::DIV
        } else if name[0] == 104 && name[1] == 108 && name[2] == 116 {
            proof {
                assert(name@ =~= seq![104u8, 108, 116]);
            }
            Opcode::HLT
        } else if name[0] == 106 && name[1] == 109 && name[2] == 112 {
            proof {
                assert(name@ =~= seq![106u8, 109, 112]);
            }
            Opcode::JMP
        } else if name[0] == 110 && name[1] == 101 && name[2] == 113 {
            proof {
                assert(name@ =~= seq![110u8, 101, 113]);
            }
            Opcode::NEQ
        } else if name[0] == 103 && name[1] == 116 && name[2] == 101 {
            proof {
                assert(name@ =~= seq![103u8, 116, 101]);
            }
            Opcode::GTE
        } else if name[0] == 108 && name[1] == 116 && name[2] == 101 {
            proof {
                assert(name@ =~= seq![108u8, 116, 101]);
            }
            Opcode::LTE
        } else if name[0] == 110 && name[1] == 111 && name[2] == 112 {
            proof {
                assert(name@ =~= seq![110u8, 111, 112]);
            }
            Opcode::NOP
        } else {
            Opcode::IGL
        }
    } else if n == 4 {
        if name[0] == 108 && name[1] == 111 && name[2] == 97 && name[3] == 100 {
            proof {
                assert(name@ =~= seq![108u8, 111, 97, 100]);
            }
            Opcode::LOAD
        } else if name[0] == 106 && name[1] == 109 && name[2] == 112 && name[3] == 101 {
            proof {
                assert(name@ =~= seq![106u8, 109, 112, 101]);
            }
            Opcode::JMPE
        } else if name[0] == 97 && name[1] == 108 && name[2] == 111 && name[3] == 99 {
            proof {
                assert(name@ =~= seq![97u8, 108, 111, 99]);
            }
            Opcode::ALOC
        } else if name[0] == 112 && name[1] == 114 && name[2] == 116 && name[3] == 115 {
            proof {
                assert(name@ =~= seq![112u8, 114, 116, 115]);
            }
            Opcode::PRTS
        } else {
            Opcode::IGL
        }
    } else {
        Opcode::IGL
    }
}

/// A mnemonic parsed as an identifier and mapped to its opcode token.
pub open spec fn spec_parse_opcode(s: Seq<u8>, i: int, e: int) -> Option<(TokenV, int)> {
    match spec_parse_ident(s, i, e) {
        Some((mn, p)) => Some((TokenV::Op { code: spec_mnemonic_opcode(mn) }, p)),
        None => None,
    }
}

/// Parses a mnemonic at `i`; see `spec_parse_opcode`.
pub fn parse_opcode(s: &Vec<u8>, i: usize, e: usize) -> (r: Option<(Token, usize)>)
    requires
        i <= e <= s@.len(),
    ensures
        token_step_matches(r, spec_parse_opcode(s@, i as int, e as int)),
        r is Some ==> r.unwrap().1 <= e,
{
    match parse_ident(s, i, e) {
        Some((mn, p)) => Some((Token::Op { code: mnemonic_to_opcode(mn.as_slice()) }, p)),
        None => None,
    }
}

/// Parses one mnemonic from source text, with surrounding whitespace
/// allowed; yields the opcode token and the position after it. Unknown
/// mnemonics yield the `IGL` opcode.
pub fn opcode(s: &str) -> (r: Option<(Token, usize)>)
    ensures
        ({
            let bs = s.spec_bytes();
            let i0 = spec_skip_ws(bs, 0, bs.len() as int);
            match spec_parse_opcode(bs, i0, bs.len() as int) {
                Some(sp) => r is Some && r.unwrap().0@ == sp.0 && r.unwrap().1 as int
                    == spec_skip_ws(bs, sp.1, bs.len() as int),
                None => r is None,
            }
        }),
{
    let bytes = s.as_bytes_vec();
    let e = bytes.len();
    let i0 = skip_ws(&bytes, 0, e);
    match parse_opcode(&bytes, i0, e) {
        Some((t, p)) => Some((t, skip_ws(&bytes, p, e))),
        None => None,
    }
}

} // verus!
