use vstd::prelude::*;

use crate::assembler::instruction_parsers::spec_encode_instruction;
use crate::assembler::instruction_parsers::InstructionV;
use crate::assembler::program_parsers::spec_encode_program;
use crate::assembler::program_parsers::spec_parse_program;
use crate::assembler::spec_assemble;
use crate::assembler::spec_header;
use crate::assembler::spec_pass1;
use crate::assembler::spec_pass1_init;
use crate::assembler::TokenV;
use crate::assembler::instruction_parsers::label_name_of;
use crate::assembler::instruction_parsers::spec_parse_line;
use crate::assembler::instruction_parsers::LineParseV;
use crate::assembler::program_parsers::spec_parse_instrs;
use crate::assembler::spec_label_offset;
use crate::assembler::spec_pass1_step;
use crate::assembler::spec_process_directive;
use crate::assembler::spec_process_label;
use crate::assembler::symbols::lemma_table_set_names;
use crate::assembler::symbols::lemma_table_set_other;
use crate::assembler::symbols::lemma_table_value_push_other;
use crate::assembler::symbols::lemma_table_value_push_same;
use crate::assembler::symbols::lemma_table_value_some_implies_has;
use crate::assembler::symbols::table_has;
use crate::assembler::symbols::table_value;
use crate::assembler::symbols::unique_names;
use crate::assembler::symbols::SymbolV;
use crate::assembler::Pass1V;

verus! {

/// Every image that assembly yields opens with the magic bytes
/// `0x2D 0x32 0x31 0x2D` and is at least 64 bytes long.
pub proof fn lemma_image_magic(s: Seq<u8>)
    ensures
        spec_assemble(s) is Ok ==> {
            let img = spec_assemble(s)->Ok_0;
            &&& img.len() >= 64
            &&& img[0] == 0x2du8
            &&& img[1] == 0x32u8
            &&& img[2] == 0x31u8
            &&& img[3] == 0x2du8
        },
{
    if spec_assemble(s) is Ok {
        let img = spec_assemble(s)->Ok_0;
        assert(img[0] == spec_header()[0]);
        assert(img[1] == spec_header()[1]);
        assert(img[2] == spec_header()[2]);
        assert(img[3] == spec_header()[3]);
    }
}

/// Every instruction that carries an opcode and lowers successfully
/// contributes exactly four bytes to the code segment; a directive row
/// contributes none.
pub proof fn lemma_instruction_width(iv: InstructionV, sym: Seq<SymbolV>)
    ensures
        iv.opcode is Some && spec_encode_instruction(iv, sym) is Ok ==> spec_encode_instruction(
            iv,
            sym,
        )->Ok_0.len() == 4,
        iv.opcode is None ==> spec_encode_instruction(iv, sym) == Ok::<
            Seq<u8>,
            crate::assembler::assembler_errors::AssemblerErrorV,
        >(Seq::empty()),
{
}

/// Assembly is a pure function of the source text: the same bytes in give
/// the same image or diagnostics out, so repeated calls agree.
pub proof fn lemma_assemble_pure(s1: Seq<u8>, s2: Seq<u8>)
    requires
        s1 == s2,
    ensures
        spec_assemble(s1) == spec_assemble(s2),
{
}

/// Whether every label usage among an instruction's operands resolves to a
/// defined offset in the table.
pub open spec fn operand_labels_resolved(iv: InstructionV, sym: Seq<SymbolV>) -> bool {
    &&& match iv.operand1 {
        Some(TokenV::LabelUsage { name }) => table_value(sym, name) is Some,
        _ => true,
    }
    &&& match iv.operand2 {
        Some(TokenV::LabelUsage { name }) => table_value(sym, name) is Some,
        _ => true,
    }
    &&& match iv.operand3 {
        Some(TokenV::LabelUsage { name }) => table_value(sym, name) is Some,
        _ => true,
    }
}

/// When pass two lowers a stretch of instructions without error, every
/// label used as an operand of an opcode instruction resolves.
pub proof fn lemma_encode_ok_resolves(
    ivs: Seq<InstructionV>,
    sym: Seq<SymbolV>,
    k: int,
    i: int,
)
    requires
        spec_encode_program(ivs, sym, k) is Ok,
        0 <= k <= i < ivs.len(),
    ensures
        ivs[i].opcode is Some ==> operand_labels_resolved(ivs[i], sym),
    decreases i - k,
{
    if k < i {
        lemma_encode_ok_resolves(ivs, sym, k + 1, i);
    }
}

/// One pass-one step never discards a diagnostic; when it adds none, the
/// list is exactly what it was.
pub proof fn lemma_step_errors(st: Pass1V, iv: InstructionV)
    ensures
        st.errors.len() <= spec_pass1_step(st, iv).errors.len(),
        st.errors.len() == spec_pass1_step(st, iv).errors.len() ==> spec_pass1_step(
            st,
            iv,
        ).errors == st.errors,
{
}

/// Pass one never discards a diagnostic.
pub proof fn lemma_pass1_errors(ivs: Seq<InstructionV>, k: int, st: Pass1V)
    ensures
        st.errors.len() <= spec_pass1(ivs, k, st).errors.len(),
    decreases ivs.len() - k,
{
    if 0 <= k < ivs.len() {
        lemma_step_errors(st, ivs[k]);
        lemma_pass1_errors(ivs, k + 1, spec_pass1_step(st, ivs[k]));
    }
}

/// A step that adds no diagnostic leaves every declared symbol's lookup
/// unchanged.
pub proof fn lemma_step_keeps_symbol(st: Pass1V, iv: InstructionV, name: Seq<u8>)
    requires
        spec_pass1_step(st, iv).errors.len() == st.errors.len(),
        table_has(st.symbols, name),
    ensures
        table_value(spec_pass1_step(st, iv).symbols, name) == table_value(st.symbols, name),
        table_has(spec_pass1_step(st, iv).symbols, name),
{
    let st1 = if iv.label is Some {
        spec_process_label(st, iv)
    } else {
        st
    };
    let st2 = if iv.directive is Some {
        spec_process_directive(st1, iv, true)
    } else {
        st1
    };
    if iv.label is Some {
        match label_name_of(iv) {
            Some(n) => {
                if st.current_section is Some && !table_has(st.symbols, n) {
                    assert(n != name);
                    lemma_table_value_push_other(
                        st.symbols,
                        SymbolV {
                            name: n,
                            offset: Some(spec_label_offset(st.current_instruction)),
                        },
                        name,
                    );
                }
            },
            None => {},
        }
    }
    if iv.directive is Some {
        match crate::assembler::instruction_parsers::directive_name_of(iv) {
            Some(dname) => {
                if crate::assembler::instruction_parsers::count_operands(iv) > 0 && dname
                    == crate::assembler::asciiz_name() {
                    match label_name_of(iv) {
                        Some(n) => {
                            match crate::assembler::instruction_parsers::string_constant_of(iv) {
                                Some(bytes) => {
                                    assert(n != name);
                                    lemma_table_set_other(st1.symbols, n, st1.ro_offset, name);
                                    lemma_table_set_names(st1.symbols, n, st1.ro_offset);
                                    let u = crate::assembler::symbols::table_set(
                                        st1.symbols,
                                        n,
                                        st1.ro_offset,
                                    );
                                    let w = choose|w: int|
                                        0 <= w < st1.symbols.len() && st1.symbols[w].name == name;
                                    assert(u[w].name == name);
                                },
                                None => {},
                            }
                        },
                        None => {},
                    }
                }
            },
            None => {},
        }
    }
}

/// An error-free stretch of pass one leaves every declared symbol's lookup
/// unchanged.
pub proof fn lemma_pass1_keeps_symbol(
    ivs: Seq<InstructionV>,
    k: int,
    st: Pass1V,
    name: Seq<u8>,
)
    requires
        spec_pass1(ivs, k, st).errors.len() == st.errors.len(),
        table_has(st.symbols, name),
    ensures
        table_value(spec_pass1(ivs, k, st).symbols, name) == table_value(st.symbols, name),
        table_has(spec_pass1(ivs, k, st).symbols, name),
    decreases ivs.len() - k,
{
    if 0 <= k < ivs.len() {
        let st2 = spec_pass1_step(st, ivs[k]);
        lemma_step_errors(st, ivs[k]);
        lemma_pass1_errors(ivs, k + 1, st2);
        lemma_step_keeps_symbol(st, ivs[k], name);
        lemma_pass1_keeps_symbol(ivs, k + 1, st2, name);
    }
}

/// An error-free run of pass one from instruction `k` gives the label
/// declared at instruction `i` the offset `64 + 4 * i`, provided that
/// offset does not wrap and the instruction is not a data directive.
pub proof fn lemma_pass1_declares(ivs: Seq<InstructionV>, k: int, st: Pass1V, i: int)
    requires
        0 <= k <= i < ivs.len(),
        spec_pass1(ivs, k, st).errors.len() == st.errors.len(),
        st.current_instruction as int == k,
        i * 4 + 64 < 0x1_0000_0000,
        ivs[i].label is Some,
        ivs[i].directive is None,
    ensures
        match label_name_of(ivs[i]) {
            Some(nm) => table_value(spec_pass1(ivs, k, st).symbols, nm) == Some(
                (64 + 4 * i) as u32,
            ),
            None => false,
        },
    decreases i - k,
{
    let iv = ivs[k];
    let st2 = spec_pass1_step(st, iv);
    lemma_step_errors(st, iv);
    lemma_pass1_errors(ivs, k + 1, st2);
    assert(st2.errors == st.errors);
    vstd::arithmetic::div_mod::lemma_small_mod((k + 1) as nat, 0x1_0000_0000nat);
    assert(st2.current_instruction as int == k + 1);
    if k < i {
        lemma_pass1_declares(ivs, k + 1, st2, i);
    } else {
        match label_name_of(iv) {
            Some(nm) => {
                assert(st.current_section is Some);
                assert(!table_has(st.symbols, nm));
                let sym = SymbolV {
                    name: nm,
                    offset: Some(spec_label_offset(st.current_instruction)),
                };
                lemma_table_value_push_same(st.symbols, sym);
                vstd::arithmetic::div_mod::lemma_small_mod((i * 4 + 64) as nat, 0x1_0000_0000nat);
                assert(spec_label_offset(st.current_instruction) == (64 + 4 * i) as u32);
                assert(table_value(st2.symbols, nm) == Some((64 + 4 * i) as u32));
                lemma_pass1_keeps_symbol(ivs, k + 1, st2, nm);
            },
            None => {
                assert(false);
            },
        }
    }
}

/// Inserting a fresh name or resolving an offset keeps the table's names
/// distinct.
pub proof fn lemma_step_preserves_unique(st: Pass1V, iv: InstructionV)
    requires
        unique_names(st.symbols),
    ensures
        unique_names(spec_pass1_step(st, iv).symbols),
{
    let st1 = if iv.label is Some {
        spec_process_label(st, iv)
    } else {
        st
    };
    if iv.label is Some {
        match label_name_of(iv) {
            Some(n) => {
                if st.current_section is Some && !table_has(st.symbols, n) {
                    let t = st.symbols;
                    let u = t.push(
                        SymbolV {
                            name: n,
                            offset: Some(spec_label_offset(st.current_instruction)),
                        },
                    );
                    assert forall|a: int, b: int| 0 <= a < b < u.len() implies u[a].name
                        != u[b].name by {
                        if b < t.len() {
                            assert(u[a] == t[a] && u[b] == t[b]);
                        } else {
                            assert(u[a] == t[a]);
                            if t[a].name == n {
                                assert(table_has(t, n));
                            }
                        }
                    }
                }
            },
            None => {},
        }
    }
    if iv.directive is Some {
        match crate::assembler::instruction_parsers::directive_name_of(iv) {
            Some(dname) => {
                if crate::assembler::instruction_parsers::count_operands(iv) > 0 && dname
                    == crate::assembler::asciiz_name() {
                    match label_name_of(iv) {
                        Some(n) => {
                            match crate::assembler::instruction_parsers::string_constant_of(iv) {
                                Some(bytes) => {
                                    lemma_table_set_names(st1.symbols, n, st1.ro_offset);
                                    let u = crate::assembler::symbols::table_set(
                                        st1.symbols,
                                        n,
                                        st1.ro_offset,
                                    );
                                    assert forall|a: int, b: int|
                                        0 <= a < b < u.len() implies u[a].name != u[b].name by {
                                        assert(u[a].name == st1.symbols[a].name);
                                        assert(u[b].name == st1.symbols[b].name);
                                    }
                                },
                                None => {},
                            }
                        },
                        None => {},
                    }
                }
            },
            None => {},
        }
    }
}

/// Pass one keeps the table's names distinct.
pub proof fn lemma_pass1_preserves_unique(ivs: Seq<InstructionV>, k: int, st: Pass1V)
    requires
        unique_names(st.symbols),
    ensures
        unique_names(spec_pass1(ivs, k, st).symbols),
    decreases ivs.len() - k,
{
    if 0 <= k < ivs.len() {
        lemma_step_preserves_unique(st, ivs[k]);
        lemma_pass1_preserves_unique(ivs, k + 1, spec_pass1_step(st, ivs[k]));
    }
}

/// After a successful assembly the symbol table holds each name at most
/// once, and every label used as an operand of an opcode instruction is
/// declared, with its offset defined before pass two reads it.
pub proof fn lemma_symbol_discipline(s: Seq<u8>, i: int)
    requires
        spec_assemble(s) is Ok,
        0 <= i < spec_parse_program(s)->Ok_0.len(),
    ensures
        ({
            let ivs = spec_parse_program(s)->Ok_0;
            let st = spec_pass1(ivs, 0, spec_pass1_init());
            &&& unique_names(st.symbols)
            &&& (ivs[i].opcode is Some ==> operand_labels_resolved(ivs[i], st.symbols))
            &&& (ivs[i].opcode is Some ==> match ivs[i].operand1 {
                Some(TokenV::LabelUsage { name }) => table_has(st.symbols, name),
                _ => true,
            })
        }),
{
    let ivs = spec_parse_program(s)->Ok_0;
    let st = spec_pass1(ivs, 0, spec_pass1_init());
    lemma_pass1_preserves_unique(ivs, 0, spec_pass1_init());
    lemma_encode_ok_resolves(ivs, st.symbols, 0, i);
    if ivs[i].opcode is Some {
        match ivs[i].operand1 {
            Some(TokenV::LabelUsage { name }) => {
                lemma_table_value_some_implies_has(st.symbols, name);
            },
            _ => {},
        }
    }
}

/// The round trip for labels: when assembly succeeds, a label declared at
/// source instruction index `i` on an instruction line resolves to image
/// offset `64 + 4 * i`, as long as that offset fits in 32 bits. This is
/// the convention the interpreter's program counter start of 64 expects.
/// `Assembler::assemble` ensures its final `symbols` are exactly this
/// table, and `SymbolTable::symbol_value` returns exactly `table_value`,
/// so looking the label up on the assembler after a successful assembly
/// yields `Some(64 + 4 * i)`.
pub proof fn lemma_label_round_trip(s: Seq<u8>, i: int)
    requires
        spec_assemble(s) is Ok,
        0 <= i < spec_parse_program(s)->Ok_0.len(),
        spec_parse_program(s)->Ok_0[i].label is Some,
        spec_parse_program(s)->Ok_0[i].directive is None,
        i * 4 + 64 < 0x1_0000_0000,
    ensures
        ({
            let ivs = spec_parse_program(s)->Ok_0;
            let st = spec_pass1(ivs, 0, spec_pass1_init());
            match label_name_of(ivs[i]) {
                Some(nm) => table_value(st.symbols, nm) == Some((64 + 4 * i) as u32),
                None => false,
            }
        }),
{
    let ivs = spec_parse_program(s)->Ok_0;
    lemma_pass1_declares(ivs, 0, spec_pass1_init(), i);
}

/// Whether an instruction respects the data model: exactly one of opcode
/// and directive present, and a present label slot holding a declaration.
pub open spec fn instruction_well_formed(iv: InstructionV) -> bool {
    &&& (iv.opcode is Some <==> iv.directive is None)
    &&& (iv.label is Some ==> label_name_of(iv) is Some)
}

/// Every line the parser accepts respects the data model.
pub proof fn lemma_line_well_formed(s: Seq<u8>, b: int, e: int)
    ensures
        match spec_parse_line(s, b, e) {
            LineParseV::Instr(iv) => instruction_well_formed(iv),
            _ => true,
        },
{
}

/// Every instruction of a parsed stretch of source respects the data
/// model.
pub proof fn lemma_instrs_well_formed(s: Seq<u8>, p: int, i: int)
    requires
        spec_parse_instrs(s, p) is Ok,
        0 <= i < spec_parse_instrs(s, p)->Ok_0.len(),
    ensures
        instruction_well_formed(spec_parse_instrs(s, p)->Ok_0[i]),
    decreases s.len() - p,
{
    if 0 <= p < s.len() {
        let n = crate::assembler::program_parsers::spec_find_nl(s, p);
        let next: int = if n < s.len() {
            n + 1
        } else {
            n
        };
        crate::assembler::program_parsers::lemma_find_nl(s, p);
        match spec_parse_line(s, p, n) {
            LineParseV::Blank => {
                lemma_instrs_well_formed(s, next, i);
            },
            LineParseV::Fail => {},
            LineParseV::Instr(iv) => {
                lemma_line_well_formed(s, p, n);
                if i > 0 {
                    lemma_instrs_well_formed(s, next, i - 1);
                    assert(spec_parse_instrs(s, p)->Ok_0[i] == spec_parse_instrs(
                        s,
                        next,
                    )->Ok_0[i - 1]);
                }
            },
        }
    }
}

/// Every instruction of a parsed program respects the data model: exactly
/// one of opcode and directive is present, and a label slot, when filled,
/// holds a label declaration.
pub proof fn lemma_program_well_formed(s: Seq<u8>, i: int)
    requires
        spec_parse_program(s) is Ok,
        0 <= i < spec_parse_program(s)->Ok_0.len(),
    ensures
        instruction_well_formed(spec_parse_program(s)->Ok_0[i]),
{
    lemma_instrs_well_formed(s, 0, i);
}

} // verus!

