use riscv_hypervisor_codegen::bitfield::BitFieldDescriptor;
use riscv_hypervisor_codegen::csr::{generate_csr_source, CSRDescriptor};
use riscv_hypervisor_codegen::enumeration::EnumerationDescriptor;
use riscv_hypervisor_codegen::instruction::{
    emit_instruction, encode_table, instruction_stub_parts, instruction_table, template_rs1_rd,
    template_rs1_rs2, Register, instruction_stub_source,
};
use riscv_hypervisor_codegen::ParseError;

fn field(line: &str) -> BitFieldDescriptor {
    BitFieldDescriptor::parse(line).unwrap()
}

#[test]
fn mask_is_two_to_the_width_minus_one() {
    for w in 1..64usize {
        let f = BitFieldDescriptor {
            name: "f".to_string(),
            description: String::new(),
            lo: 0,
            hi: w - 1,
            ed: None,
        };
        assert_eq!(f.mask_value(), (1u64 << w) - 1);
        assert_eq!(f.mask(), format!("{}", (1u64 << w) - 1));
    }
    assert_eq!(field("f,63,0,number,d").mask_value(), u64::MAX);
    assert_eq!(field("f,17,12,number,d").mask(), "63");
}

#[test]
fn write_then_read_gives_the_value_back() {
    let f = field("vgein,17,12,number,d");
    for v in 0..64u64 {
        for word in [0u64, u64::MAX, 0x1234_5678_9abc_def0] {
            let w = f.write_value(word, v).unwrap();
            assert_eq!(f.read_value(w), v);
            assert_eq!(w & !(63u64 << 12), word & !(63u64 << 12));
        }
    }
    let top = field("t,63,60,number,d");
    assert_eq!(top.read_value(top.write_value(0, 9).unwrap()), 9);
    assert_eq!(top.write_value(0, 9).unwrap(), 9u64 << 60);
}

#[test]
fn write_past_the_mask_is_refused() {
    for line in ["a,2,2,number,d", "b,17,12,number,d", "c,33,32,E,X;Y,d", "d,62,0,number,d"] {
        let f = field(line);
        let m = f.mask_value();
        assert!(f.write_value(0, m).is_ok());
        assert!(f.write_value(0, m + 1).is_err());
    }
}

#[test]
fn read_write_text_of_a_bit() {
    let f = field("vssie,2,2,number,Software Interrupt");
    let expected = "
#[inline]
pub fn read_vssie(&self)->bool{
    bool::from_usize(((self.0>>2) & 1))
}
#[inline]
pub fn write_vssie(&mut self, val: bool){
    assert_eq!(val as usize & 1, val as usize, \"Too long input for write_vssie!\");
    self.0 = (self.0 & !(1 << 2))|((val as usize) << 2)
}\n";
    assert_eq!(f.generate_read_write(), expected);
}

#[test]
fn bit_set_text_uses_set_and_clear_instructions() {
    let f = field("vstie,6,6,number,Timer Interrupt");
    let expected = "
#[inline]
pub fn set_vstie()->bool{
    unsafe {csr::csrrs(64) & 64 !=0}
}
#[inline]
pub fn clear_vstie()->bool{
    unsafe {csr::csrrc(64) & 64 !=0 }
}\n";
    assert_eq!(f.generate_bit_set(), expected);
}

#[test]
fn enumeration_text() {
    let e = EnumerationDescriptor::parse("Vsxl32=1;Vsxl64").unwrap();
    let expected = "#[derive(Copy, Clone, Debug)]
#[repr(usize)]
pub enum VsxlValues{
    Vsxl32 = 1,
    Vsxl64 = 2,
}
impl VsxlValues{
    #[inline]
    fn from_usize(x: usize)->Self{
        match x{
            1 => Self::Vsxl32,
            2 => Self::Vsxl64,
            _ => unreachable!()
        }
    }
}
";
    assert_eq!(e.generate_enum("VsxlValues"), expected);
    let f = field("vsxl,33,32,VsxlValues,Vsxl32=1;Vsxl64,d");
    assert_eq!(f.generate_enum().unwrap(), expected);
    assert!(field("a,1,1,number,d").generate_enum().is_none());
}

#[test]
fn hie_end_to_end() {
    let text = "Hie
1540
vssie,2,2,number,Software Interrupt
vstie,6,6,number,Timer Interrupt
end
Hypervisor Interrupt Enable Register.";
    let out = generate_csr_source(text).unwrap();
    assert!(out.starts_with("\nuse super::BoolExt;\n/// Hypervisor Interrupt Enable Register.\n"));
    assert!(out.contains("pub struct Hie(pub usize);"));
    assert!(out.contains("pub fn read_vssie(&self)->bool{\n    bool::from_usize(((self.0>>2) & 1))"));
    assert!(out.contains("self.0 = (self.0 & !(1 << 2))|((val as usize) << 2)"));
    assert!(out.contains("pub fn set_vssie()->bool{\n    unsafe {csr::csrrs(4) & 4 !=0}"));
    assert!(out.contains("pub fn clear_vssie()->bool{\n    unsafe {csr::csrrc(4) & 4 !=0 }"));
    assert!(out.contains("pub fn read_vstie(&self)->bool{\n    bool::from_usize(((self.0>>6) & 1))"));
    assert!(out.contains("pub fn set_vstie()->bool{\n    unsafe {csr::csrrs(64) & 64 !=0}"));
    assert!(out.contains("pub fn clear_vstie()->bool{\n    unsafe {csr::csrrc(64) & 64 !=0 }"));
    assert!(out.contains("pub const CSR_ID: usize = 1540;"));
    assert!(out.contains("// enums\n\n// csr mod\n"));
    assert!(!out.contains("pub enum"));
    assert!(out.contains(
        "f.debug_struct(\"Hie\")\n         .field(\"vssie\", &self.read_vssie())\n         .field(\"vstie\", &self.read_vstie())\n\n         .finish()"
    ));
    let again = CSRDescriptor::parse(text).unwrap().generate();
    assert_eq!(out, again);
}

#[test]
fn enum_field_register_emits_enum() {
    let text = "Hstatus
1536
vsxl,33,32,VsxlValues,Vsxl32=1;Vsxl64;Vsxl128,Effective XLEN for VM.
vgein,17,12,number,Virtual Guest External Interrupt Number.
end
HStatus Register.";
    let out = generate_csr_source(text).unwrap();
    assert!(out.contains("pub fn read_vsxl(&self)->VsxlValues{\n    VsxlValues::from_usize(((self.0>>32) & 3))"));
    assert!(out.contains("pub enum VsxlValues{\n    Vsxl32 = 1,\n    Vsxl64 = 2,\n    Vsxl128 = 3,\n}"));
    assert!(out.contains("pub fn read_vgein(&self)->usize{\n    usize::from_usize(((self.0>>12) & 63))"));
    assert!(!out.contains("set_vsxl"));
    assert!(!out.contains("set_vgein"));
    assert_eq!(generate_csr_source("X\n1\n").unwrap_err(), ParseError::MissingEnd);
}

#[test]
fn operand_packing() {
    assert_eq!(template_rs1_rs2(0b0110001_00000_00000_000_00000_1110011, Register::A0, Register::A1), (1656029299, false));
    assert_eq!(template_rs1_rd(0b0110000_00000_00000_100_00000_1110011, Register::A0, Register::A0), (1610958195, true));
    assert_eq!(template_rs1_rs2(0, Register::X0, Register::A1), (11 << 20, false));
    assert_eq!(template_rs1_rd(0, Register::A1, Register::X0), (11 << 15, true));
}

#[test]
fn encoding_is_deterministic() {
    let t = instruction_table();
    assert_eq!(t.len(), 15);
    let a = encode_table(&t);
    let b = encode_table(&instruction_table());
    assert_eq!(a, b);
    assert_eq!(a[0], (1656029299, false));
    assert_eq!(t[11].name, "hsv_w");
    assert_eq!(a[11], (1790263411, false));
    assert_eq!(t[2].name, "hlv_b");
    assert_eq!(a[2], (1610958195, true));
    assert_eq!(a[3], (1612006771, true));
    assert_eq!(instruction_stub_parts(), instruction_stub_parts());
}

#[test]
fn instruction_stub_text() {
    let mut w = String::new();
    let mut d = String::new();
    emit_instruction(&mut w, &mut d, "hfence_gvma", (1656029299, false));
    emit_instruction(&mut w, &mut d, "hlv_b", (1610958195, true));
    assert_eq!(
        w,
        ".global invoke_insn_hfence_gvma\ninvoke_insn_hfence_gvma:\n    .word 1656029299\n    ret\n.global invoke_insn_hlv_b\ninvoke_insn_hlv_b:\n    .word 1610958195\n    ret\n"
    );
    assert_eq!(
        d,
        "    pub fn invoke_insn_hfence_gvma(rs1: usize, rs2: usize);\n    pub fn invoke_insn_hlv_b(rs1: usize, rd: usize);\n"
    );
    let (routines, decls) = instruction_stub_parts();
    assert!(routines.starts_with(".global invoke_insn_hfence_gvma\ninvoke_insn_hfence_gvma:\n    .word 1656029299\n"));
    assert_eq!(decls.lines().count(), 15);
    assert!(decls.contains("invoke_insn_hsv_d(rs1: usize, rs2: usize);"));
    assert!(decls.contains("invoke_insn_hlv_d(rs1: usize, rd: usize);"));
    assert!(decls.contains("invoke_insn_hfence_vvma(rs1: usize, rs2: usize);"));
}

#[test]
fn table_words_are_distinct_and_operand_bits_clear() {
    let t = instruction_table();
    let words: Vec<u32> = encode_table(&t).iter().map(|p| p.0).collect();
    for i in 0..words.len() {
        for j in 0..words.len() {
            if i != j {
                assert_ne!(words[i], words[j]);
            }
        }
    }
    assert_eq!(
        words,
        vec![
            1656029299, 582287475, 1610958195, 1612006771, 1678067059, 1679115635, 1681212787,
            1745175923, 1748321651, 1656045683, 1723154547, 1790263411, 1746224499, 1812284787,
            1857372275
        ]
    );
    for tpl in t.iter() {
        let load = tpl.name.starts_with("hlv");
        let clear = if load { tpl.opcode & 0x000F_8F80 } else { tpl.opcode & 0x01FF_8000 };
        assert_eq!(clear, 0);
    }
}

#[test]
fn stub_source_frames_declarations_and_routines() {
    let (routines, decls) = instruction_stub_parts();
    let src = instruction_stub_source();
    assert_eq!(src, format!("extern \"C\" {{\n{}}}\nglobal_asm!(r#\"\n{}\n\"#);\n", decls, routines));
    assert!(src.contains(".word 1612006771"));
}

#[test]
fn integer_to_variant_takes_first_match() {
    let e = EnumerationDescriptor::parse("A=1;B=1;C").unwrap();
    assert_eq!(e.variant_of(1), Some(0));
    assert_eq!(e.variant_of(2), Some(2));
    assert_eq!(e.variant_of(5), None);
    assert_eq!(EnumerationDescriptor::parse("X").unwrap().variant_of(0), Some(0));
}

#[test]
fn enum_field_write_then_read_round_trip() {
    let f = field("mode,5,4,Mode,Off;On;Auto,d");
    let (_, e) = f.ed.clone().unwrap();
    for (i, (_, v)) in e.enumerations.iter().enumerate() {
        let w = f.write_value(0xffff_0000_0000_00ff, *v as u64).unwrap();
        let back = f.read_value(w);
        assert_eq!(back, *v as u64);
        assert_eq!(e.variant_of(back as usize), Some(i));
    }
    assert!(f.write_value(0, 4).is_err());
}
