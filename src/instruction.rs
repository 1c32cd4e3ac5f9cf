//! The fixed table of hypervisor instruction templates, the bit-packing of
//! register operands into them, and the stubs emitted for each instruction.
use vstd::prelude::*;

use crate::text::{decimal, push_decimal};

verus! {

pub const HFENCE_GVMA_TEMPLATE: u32 = 0b0110001_00000_00000_000_00000_1110011;
pub const HFENCE_VVMA_TEMPLATE: u32 = 0b0010001_00000_00000_000_00000_1110011;
pub const HLV_B_TEMPLATE: u32 = 0b0110000_00000_00000_100_00000_1110011;
pub const HLV_BU_TEMPLATE: u32 = 0b0110000_00001_00000_100_00000_1110011;
pub const HLV_H_TEMPLATE: u32 = 0b0110010_00000_00000_100_00000_1110011;
pub const HLV_HU_TEMPLATE: u32 = 0b0110010_00001_00000_100_00000_1110011;
pub const HLVX_HU_TEMPLATE: u32 = 0b0110010_00011_00000_100_00000_1110011;
pub const HLV_W_TEMPLATE: u32 = 0b0110100_00000_00000_100_00000_1110011;
pub const HLVX_WU_TEMPLATE: u32 = 0b0110100_00011_00000_100_00000_1110011;
pub const HSV_B_TEMPLATE: u32 = 0b0110001_00000_00000_100_00000_1110011;
pub const HSV_H_TEMPLATE: u32 = 0b0110011_00000_00000_100_00000_1110011;
pub const HSV_W_TEMPLATE: u32 = 0b0110101_00000_00000_100_00000_1110011;
pub const HLV_WU_TEMPLATE: u32 = 0b0110100_00001_00000_100_00000_1110011;
pub const HLV_D_TEMPLATE: u32 = 0b0110110_00000_00000_100_00000_1110011;
pub const HSV_D_TEMPLATE: u32 = 0b0110111_00000_00000_100_00000_1110011;

/// The registers that operands are packed as.
#[derive(Debug, Clone, Copy, PartialEq, Eq, Structural)]
pub enum Register {
    X0,
    A0,
    A1,
}

/// A register's number in an instruction's operand field.
pub open spec fn register_number(r: Register) -> u32 {
    match r {
        Register::X0 => 0,
        Register::A0 => 10,
        Register::A1 => 11,
    }
}

impl Register {
    pub fn number(self) -> (r: u32)
        ensures
            r == register_number(self),
    {
        match self {
            Register::X0 => 0,
            Register::A0 => 10,
            Register::A1 => 11,
        }
    }
}

/// Where an instruction's two operands go.
#[derive(Debug, Clone, Copy, PartialEq, Eq, Structural)]
pub enum OperandShape {
    /// Two sources: bits `[19:15]` and `[24:20]`.
    SourceSource,
    /// A source in bits `[19:15]` and a destination in bits `[11:7]`.
    SourceDestination,
}

/// The word `template` with `rs1` in bits `[19:15]` and `rs2` in bits `[24:20]`.
pub open spec fn encode_rs1_rs2(template: u32, rs1: Register, rs2: Register) -> u32 {
    (register_number(rs2) << 20u32) | (register_number(rs1) << 15u32) | template
}

/// The word `template` with `rs1` in bits `[19:15]` and `rd` in bits `[11:7]`.
pub open spec fn encode_rs1_rd(template: u32, rs1: Register, rd: Register) -> u32 {
    (register_number(rs1) << 15u32) | (register_number(rd) << 7u32) | template
}

/// Packs two source registers into a template; the flag says the second
/// operand is no destination.
pub fn template_rs1_rs2(template: u32, rs1: Register, rs2: Register) -> (r: (u32, bool))
    ensures
        r == (encode_rs1_rs2(template, rs1, rs2), false),
{
    ((rs2.number() << 20u32) | (rs1.number() << 15u32) | template, false)
}

/// Packs a source and a destination register into a template; the flag says
/// the second operand is a destination.
pub fn template_rs1_rd(template: u32, rs1: Register, rd: Register) -> (r: (u32, bool))
    ensures
        r == (encode_rs1_rd(template, rs1, rd), true),
{
    ((rs1.number() << 15u32) | (rd.number() << 7u32) | template, true)
}

/// What a template says.
pub struct TemplateView {
    pub name: Seq<char>,
    pub opcode: u32,
    pub shape: OperandShape,
}

/// A named 32-bit instruction template whose operand bits are zero.
#[derive(Debug, Clone)]
pub struct InstructionTemplate {
    pub name: String,
    pub opcode: u32,
    pub shape: OperandShape,
}

impl View for InstructionTemplate {
    type V = TemplateView;

    open spec fn view(&self) -> TemplateView {
        TemplateView { name: self.name@, opcode: self.opcode, shape: self.shape }
    }
}

/// The hypervisor's memory fence, load and store instructions.
pub open spec fn template_table() -> Seq<TemplateView> {
    seq![
        TemplateView { name: "hfence_gvma"@, opcode: HFENCE_GVMA_TEMPLATE, shape: OperandShape::SourceSource },
        TemplateView { name: "hfence_vvma"@, opcode: HFENCE_VVMA_TEMPLATE, shape: OperandShape::SourceSource },
        TemplateView { name: "hlv_b"@, opcode: HLV_B_TEMPLATE, shape: OperandShape::SourceDestination },
        TemplateView { name: "hlv_bu"@, opcode: HLV_BU_TEMPLATE, shape: OperandShape::SourceDestination },
        TemplateView { name: "hlv_h"@, opcode: HLV_H_TEMPLATE, shape: OperandShape::SourceDestination },
        TemplateView { name: "hlv_hu"@, opcode: HLV_HU_TEMPLATE, shape: OperandShape::SourceDestination },
        TemplateView { name: "hlvx_hu"@, opcode: HLVX_HU_TEMPLATE, shape: OperandShape::SourceDestination },
        TemplateView { name: "hlv_w"@, opcode: HLV_W_TEMPLATE, shape: OperandShape::SourceDestination },
        TemplateView { name: "hlvx_wu"@, opcode: HLVX_WU_TEMPLATE, shape: OperandShape::SourceDestination },
        TemplateView { name: "hsv_b"@, opcode: HSV_B_TEMPLATE, shape: OperandShape::SourceSource },
        TemplateView { name: "hsv_h"@, opcode: HSV_H_TEMPLATE, shape: OperandShape::SourceSource },
        TemplateView { name: "hsv_w"@, opcode: HSV_W_TEMPLATE, shape: OperandShape::SourceSource },
        TemplateView { name: "hlv_wu"@, opcode: HLV_WU_TEMPLATE, shape: OperandShape::SourceDestination },
        TemplateView { name: "hlv_d"@, opcode: HLV_D_TEMPLATE, shape: OperandShape::SourceDestination },
        TemplateView { name: "hsv_d"@, opcode: HSV_D_TEMPLATE, shape: OperandShape::SourceSource },
    ]
}

/// The canonical word of a template: its operands are the first two argument
/// registers (`a0`, `a1`), or `a0` twice for a source and a destination.
pub open spec fn canonical_encoding(t: TemplateView) -> (u32, bool) {
    match t.shape {
        OperandShape::SourceSource => (encode_rs1_rs2(t.opcode, Register::A0, Register::A1), false),
        OperandShape::SourceDestination => (encode_rs1_rd(t.opcode, Register::A0, Register::A0), true),
    }
}

/// The canonical words of a list of templates, in order.
pub open spec fn encoded_table(ts: Seq<TemplateView>) -> Seq<(u32, bool)> {
    ts.map_values(|t: TemplateView| canonical_encoding(t))
}

/// Encoding is a function of the templates alone: equal tables give equal
/// words, however often the encoder runs.
pub proof fn lemma_encoding_deterministic(a: Seq<TemplateView>, b: Seq<TemplateView>)
    requires
        a == b,
    ensures
        encoded_table(a) == encoded_table(b),
        forall|i: int| 0 <= i < a.len() ==> #[trigger] encoded_table(a)[i] == canonical_encoding(b[i]),
{
}

/// The assembly routine of one instruction: a label, the fixed word, a return.
pub open spec fn routine_text(name: Seq<char>, word: u32) -> Seq<char> {
    ".global invoke_insn_"@ + name + "\ninvoke_insn_"@ + name + ":\n    .word "@ + decimal(word as nat)
        + "\n    ret\n"@
}

/// The declaration of one instruction's routine; its second parameter is
/// named by the operand's role.
pub open spec fn decl_text(name: Seq<char>, rd: bool) -> Seq<char> {
    "    pub fn invoke_insn_"@ + name + "(rs1: usize, "@ + (if rd {
        "rd"@
    } else {
        "rs2"@
    }) + ": usize);\n"@
}

/// The routines of a list of templates.
pub open spec fn routine_block(ts: Seq<TemplateView>) -> Seq<char>
    decreases ts.len(),
{
    if ts.len() == 0 {
        Seq::empty()
    } else {
        routine_block(ts.drop_last()) + routine_text(ts.last().name, canonical_encoding(ts.last()).0)
    }
}

/// The declarations of a list of templates.
pub open spec fn decl_block(ts: Seq<TemplateView>) -> Seq<char>
    decreases ts.len(),
{
    if ts.len() == 0 {
        Seq::empty()
    } else {
        decl_block(ts.drop_last()) + decl_text(ts.last().name, canonical_encoding(ts.last()).1)
    }
}

/// The fixed instruction table.
pub fn instruction_table() -> (r: Vec<InstructionTemplate>)
    ensures
        r@.map_values(|t: InstructionTemplate| t@) == template_table(),
{
    let mut t: Vec<InstructionTemplate> = Vec::new();
    t.push(InstructionTemplate { name: String::from_str("hfence_gvma"), opcode: HFENCE_GVMA_TEMPLATE, shape: OperandShape::SourceSource });
    t.push(InstructionTemplate { name: String::from_str("hfence_vvma"), opcode: HFENCE_VVMA_TEMPLATE, shape: OperandShape::SourceSource });
    t.push(InstructionTemplate { name: String::from_str("hlv_b"), opcode: HLV_B_TEMPLATE, shape: OperandShape::SourceDestination });
    t.push(InstructionTemplate { name: String::from_str("hlv_bu"), opcode: HLV_BU_TEMPLATE, shape: OperandShape::SourceDestination });
    t.push(InstructionTemplate { name: String::from_str("hlv_h"), opcode: HLV_H_TEMPLATE, shape: OperandShape::SourceDestination });
    t.push(InstructionTemplate { name: String::from_str("hlv_hu"), opcode: HLV_HU_TEMPLATE, shape: OperandShape::SourceDestination });
    t.push(InstructionTemplate { name: String::from_str("hlvx_hu"), opcode: HLVX_HU_TEMPLATE, shape: OperandShape::SourceDestination });
    t.push(InstructionTemplate { name: String::from_str("hlv_w"), opcode: HLV_W_TEMPLATE, shape: OperandShape::SourceDestination });
    t.push(InstructionTemplate { name: String::from_str("hlvx_wu"), opcode: HLVX_WU_TEMPLATE, shape: OperandShape::SourceDestination });
    t.push(InstructionTemplate { name: String::from_str("hsv_b"), opcode: HSV_B_TEMPLATE, shape: OperandShape::SourceSource });
    t.push(InstructionTemplate { name: String::from_str("hsv_h"), opcode: HSV_H_TEMPLATE, shape: OperandShape::SourceSource });
    t.push(InstructionTemplate { name: String::from_str("hsv_w"), opcode: HSV_W_TEMPLATE, shape: OperandShape::SourceSource });
    t.push(InstructionTemplate { name: String::from_str("hlv_wu"), opcode: HLV_WU_TEMPLATE, shape: OperandShape::SourceDestination });
    t.push(InstructionTemplate { name: String::from_str("hlv_d"), opcode: HLV_D_TEMPLATE, shape: OperandShape::SourceDestination });
    t.push(InstructionTemplate { name: String::from_str("hsv_d"), opcode: HSV_D_TEMPLATE, shape: OperandShape::SourceSource });
    assert(t@.map_values(|t: InstructionTemplate| t@) =~= template_table());
    t
}

/// The canonical word of one template.
pub fn encode(t: &InstructionTemplate) -> (r: (u32, bool))
    ensures
        r == canonical_encoding(t@),
{
    match t.shape {
        OperandShape::SourceSource => template_rs1_rs2(t.opcode, Register::A0, Register::A1),
        OperandShape::SourceDestination => template_rs1_rd(t.opcode, Register::A0, Register::A0),
    }
}

/// The canonical words of a table of templates.
pub fn encode_table(table: &Vec<InstructionTemplate>) -> (r: Vec<(u32, bool)>)
    ensures
        r@ == encoded_table(table@.map_values(|t: InstructionTemplate| t@)),
{
    let ghost ts = table@.map_values(|t: InstructionTemplate| t@);
    let mut r: Vec<(u32, bool)> = Vec::new();
    let mut i: usize = 0;
    while i < table.len()
        invariant
            i <= table.len(),
            ts == table@.map_values(|t: InstructionTemplate| t@),
            r@ == encoded_table(ts.take(i as int)),
        decreases table.len() - i,
    {
        r.push(encode(&table[i]));
        i = i + 1;
        assert(r@ =~= encoded_table(ts.take(i as int)));
    }
    assert(ts.take(i as int) =~= ts);
    r
}

/// Appends one instruction's routine to `writer` and its declaration to
/// `writer_rust`.
pub fn emit_instruction(writer: &mut String, writer_rust: &mut String, name: &str, insn: (u32, bool))
    ensures
        final(writer)@ == old(writer)@ + routine_text(name@, insn.0),
        final(writer_rust)@ == old(writer_rust)@ + decl_text(name@, insn.1),
{
    let ghost w0 = writer@;
    let ghost r0 = writer_rust@;
    writer.append(".global invoke_insn_");
    writer.append(name);
    writer.append("\ninvoke_insn_");
    writer.append(name);
    writer.append(":\n    .word ");
    push_decimal(writer, insn.0 as u64);
    writer.append("\n    ret\n");
    assert(writer@ =~= w0 + routine_text(name@, insn.0));
    writer_rust.append("    pub fn invoke_insn_");
    writer_rust.append(name);
    writer_rust.append("(rs1: usize, ");
    if insn.1 {
        writer_rust.append("rd");
    } else {
        writer_rust.append("rs2");
    }
    writer_rust.append(": usize);\n");
    assert(writer_rust@ =~= r0 + decl_text(name@, insn.1));
}

/// The assembly routines and the matching declarations of every template of
/// a table, in the table's order.
pub fn emit_table(table: &Vec<InstructionTemplate>) -> (r: (String, String))
    ensures
        r.0@ == routine_block(table@.map_values(|t: InstructionTemplate| t@)),
        r.1@ == decl_block(table@.map_values(|t: InstructionTemplate| t@)),
{
    let ghost ts = table@.map_values(|t: InstructionTemplate| t@);
    let mut routines = String::new();
    let mut decls = String::new();
    let mut i: usize = 0;
    while i < table.len()
        invariant
            i <= table.len(),
            ts == table@.map_values(|t: InstructionTemplate| t@),
            routines@ == routine_block(ts.take(i as int)),
            decls@ == decl_block(ts.take(i as int)),
        decreases table.len() - i,
    {
        assert(ts.take(i as int + 1).drop_last() =~= ts.take(i as int));
        assert(ts.take(i as int + 1).last() == table[i as int]@);
        let insn = encode(&table[i]);
        emit_instruction(&mut routines, &mut decls, table[i].name.as_str(), insn);
        i = i + 1;
    }
    assert(ts.take(i as int) =~= ts);
    (routines, decls)
}

/// The routines and declarations of the fixed instruction table.
pub fn instruction_stub_parts() -> (r: (String, String))
    ensures
        r.0@ == routine_block(template_table()),
        r.1@ == decl_block(template_table()),
{
    let table = instruction_table();
    emit_table(&table)
}


/// The operand fields of a template's shape are zero in its word:
/// bits `[24:15]` for two sources, bits `[19:15]` and `[11:7]` for a source
/// and a destination.
pub open spec fn operand_bits_clear(t: TemplateView) -> bool {
    match t.shape {
        OperandShape::SourceSource => t.opcode & 0x01FF_8000u32 == 0,
        OperandShape::SourceDestination => t.opcode & 0x000F_8F80u32 == 0,
    }
}

spec fn word_index(w: u32) -> int {
    if w == 1656029299 {
            0
        } else if w == 582287475 {
            1
        } else if w == 1610958195 {
            2
        } else if w == 1612006771 {
            3
        } else if w == 1678067059 {
            4
        } else if w == 1679115635 {
            5
        } else if w == 1681212787 {
            6
        } else if w == 1745175923 {
            7
        } else if w == 1748321651 {
            8
        } else if w == 1656045683 {
            9
        } else if w == 1723154547 {
            10
        } else if w == 1790263411 {
            11
        } else if w == 1746224499 {
            12
        } else if w == 1812284787 {
            13
        } else if w == 1857372275 {
            14
        } else {
            -1
        }
}

/// Every template of the fixed table has its operand bits zero, and the
/// canonical words of its instructions are pairwise distinct.
pub proof fn lemma_table_well_formed()
    ensures
        forall|i: int| 0 <= i < template_table().len() ==> operand_bits_clear(#[trigger] template_table()[i]),
        forall|i: int, j: int|
            0 <= i < template_table().len() && 0 <= j < template_table().len() && i != j
                ==> #[trigger] encoded_table(template_table())[i].0 != #[trigger] encoded_table(template_table())[j].0,
{
    assert(HFENCE_GVMA_TEMPLATE & 0x01FF_8000u32 == 0 && (11u32 << 20u32) | (10u32 << 15u32) | HFENCE_GVMA_TEMPLATE == 1656029299u32) by (bit_vector);
    assert(HFENCE_VVMA_TEMPLATE & 0x01FF_8000u32 == 0 && (11u32 << 20u32) | (10u32 << 15u32) | HFENCE_VVMA_TEMPLATE == 582287475u32) by (bit_vector);
    assert(HLV_B_TEMPLATE & 0x000F_8F80u32 == 0 && (10u32 << 15u32) | (10u32 << 7u32) | HLV_B_TEMPLATE == 1610958195u32) by (bit_vector);
    assert(HLV_BU_TEMPLATE & 0x000F_8F80u32 == 0 && (10u32 << 15u32) | (10u32 << 7u32) | HLV_BU_TEMPLATE == 1612006771u32) by (bit_vector);
    assert(HLV_H_TEMPLATE & 0x000F_8F80u32 == 0 && (10u32 << 15u32) | (10u32 << 7u32) | HLV_H_TEMPLATE == 1678067059u32) by (bit_vector);
    assert(HLV_HU_TEMPLATE & 0x000F_8F80u32 == 0 && (10u32 << 15u32) | (10u32 << 7u32) | HLV_HU_TEMPLATE == 1679115635u32) by (bit_vector);
    assert(HLVX_HU_TEMPLATE & 0x000F_8F80u32 == 0 && (10u32 << 15u32) | (10u32 << 7u32) | HLVX_HU_TEMPLATE == 1681212787u32) by (bit_vector);
    assert(HLV_W_TEMPLATE & 0x000F_8F80u32 == 0 && (10u32 << 15u32) | (10u32 << 7u32) | HLV_W_TEMPLATE == 1745175923u32) by (bit_vector);
    assert(HLVX_WU_TEMPLATE & 0x000F_8F80u32 == 0 && (10u32 << 15u32) | (10u32 << 7u32) | HLVX_WU_TEMPLATE == 1748321651u32) by (bit_vector);
    assert(HSV_B_TEMPLATE & 0x01FF_8000u32 == 0 && (11u32 << 20u32) | (10u32 << 15u32) | HSV_B_TEMPLATE == 1656045683u32) by (bit_vector);
    assert(HSV_H_TEMPLATE & 0x01FF_8000u32 == 0 && (11u32 << 20u32) | (10u32 << 15u32) | HSV_H_TEMPLATE == 1723154547u32) by (bit_vector);
    assert(HSV_W_TEMPLATE & 0x01FF_8000u32 == 0 && (11u32 << 20u32) | (10u32 << 15u32) | HSV_W_TEMPLATE == 1790263411u32) by (bit_vector);
    assert(HLV_WU_TEMPLATE & 0x000F_8F80u32 == 0 && (10u32 << 15u32) | (10u32 << 7u32) | HLV_WU_TEMPLATE == 1746224499u32) by (bit_vector);
    assert(HLV_D_TEMPLATE & 0x000F_8F80u32 == 0 && (10u32 << 15u32) | (10u32 << 7u32) | HLV_D_TEMPLATE == 1812284787u32) by (bit_vector);
    assert(HSV_D_TEMPLATE & 0x01FF_8000u32 == 0 && (11u32 << 20u32) | (10u32 << 15u32) | HSV_D_TEMPLATE == 1857372275u32) by (bit_vector);
    let tt = template_table();
    let ts = encoded_table(tt);
    assert(tt.len() == 15);
    assert forall|i: int| 0 <= i < tt.len() implies operand_bits_clear(#[trigger] tt[i]) && word_index(ts[i].0) == i by {
        if i == 0 {
            assert(ts[0] == canonical_encoding(tt[0]));
        } else if i == 1 {
            assert(ts[1] == canonical_encoding(tt[1]));
        } else if i == 2 {
            assert(ts[2] == canonical_encoding(tt[2]));
        } else if i == 3 {
            assert(ts[3] == canonical_encoding(tt[3]));
        } else if i == 4 {
            assert(ts[4] == canonical_encoding(tt[4]));
        } else if i == 5 {
            assert(ts[5] == canonical_encoding(tt[5]));
        } else if i == 6 {
            assert(ts[6] == canonical_encoding(tt[6]));
        } else if i == 7 {
            assert(ts[7] == canonical_encoding(tt[7]));
        } else if i == 8 {
            assert(ts[8] == canonical_encoding(tt[8]));
        } else if i == 9 {
            assert(ts[9] == canonical_encoding(tt[9]));
        } else if i == 10 {
            assert(ts[10] == canonical_encoding(tt[10]));
        } else if i == 11 {
            assert(ts[11] == canonical_encoding(tt[11]));
        } else if i == 12 {
            assert(ts[12] == canonical_encoding(tt[12]));
        } else if i == 13 {
            assert(ts[13] == canonical_encoding(tt[13]));
        } else if i == 14 {
            assert(ts[14] == canonical_encoding(tt[14]));
        }
    }
    assert forall|i: int, j: int|
        0 <= i < tt.len() && 0 <= j < tt.len() && i != j implies #[trigger] ts[i].0 != #[trigger] ts[j].0 by {
        assert(word_index(ts[i].0) == i);
        assert(word_index(ts[j].0) == j);
    }
}

/// The whole emitted source of the instruction stubs: the routines'
/// declarations in one foreign block, and the routines in one global block.
pub fn instruction_stub_source() -> (r: String)
    ensures
        r@ == "extern \"C\" {\n"@ + decl_block(template_table()) + "}\nglobal_asm!(r#\"\n"@ + routine_block(template_table()) + "\n\"#);\n"@,
{
    let (routines, decls) = instruction_stub_parts();
    let mut r = String::new();
    r.append("extern \"C\" {\n");
    r.append(decls.as_str());
    r.append("}\nglobal_asm!(r#\"\n");
    r.append(routines.as_str());
    r.append("\n\"#);\n");
    assert(r@ =~= "extern \"C\" {\n"@ + decl_block(template_table()) + "}\nglobal_asm!(r#\"\n"@ + routine_block(template_table()) + "\n\"#);\n"@);
    r
}

} // verus!
