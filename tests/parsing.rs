use riscv_hypervisor_codegen::bitfield::BitFieldDescriptor;
use riscv_hypervisor_codegen::csr::CSRDescriptor;
use riscv_hypervisor_codegen::enumeration::EnumerationDescriptor;
use riscv_hypervisor_codegen::ParseError;

fn entries(e: &EnumerationDescriptor) -> Vec<(String, usize)> {
    e.enumerations.clone()
}

fn pairs(v: &[(&str, usize)]) -> Vec<(String, usize)> {
    v.iter().map(|(n, x)| (n.to_string(), *x)).collect()
}

#[test]
fn enumeration_counts_from_zero() {
    let e = EnumerationDescriptor::parse("A;B;C").unwrap();
    assert_eq!(entries(&e), pairs(&[("A", 0), ("B", 1), ("C", 2)]));
}

#[test]
fn enumeration_explicit_value_resets_counter() {
    let e = EnumerationDescriptor::parse("A;B=5;C").unwrap();
    assert_eq!(entries(&e), pairs(&[("A", 0), ("B", 5), ("C", 6)]));
}

#[test]
fn enumeration_values_need_not_increase() {
    let e = EnumerationDescriptor::parse("A=7;B=2;C").unwrap();
    assert_eq!(entries(&e), pairs(&[("A", 7), ("B", 2), ("C", 3)]));
}

#[test]
fn enumeration_single_entry_and_extra_parts() {
    let e = EnumerationDescriptor::parse("Only=3=9").unwrap();
    assert_eq!(entries(&e), pairs(&[("Only", 3)]));
    let e = EnumerationDescriptor::parse("P=+4;Q").unwrap();
    assert_eq!(entries(&e), pairs(&[("P", 4), ("Q", 5)]));
}

#[test]
fn enumeration_bad_value_is_refused() {
    assert_eq!(EnumerationDescriptor::parse("A;B=x").unwrap_err(), ParseError::BadNumber);
    assert_eq!(EnumerationDescriptor::parse("A=-1").unwrap_err(), ParseError::BadNumber);
    assert_eq!(EnumerationDescriptor::parse("A=").unwrap_err(), ParseError::BadNumber);
    assert_eq!(
        EnumerationDescriptor::parse("A=99999999999999999999").unwrap_err(),
        ParseError::BadNumber
    );
}

#[test]
fn enumeration_counter_overflow_is_refused() {
    let max = format!("A={}", usize::MAX);
    assert_eq!(EnumerationDescriptor::parse(&max).unwrap().enumerations[0].1, usize::MAX);
    let over = format!("A={};B", usize::MAX);
    assert_eq!(EnumerationDescriptor::parse(&over).unwrap_err(), ParseError::ValueOverflow);
}

#[test]
fn field_number_single_bit() {
    let f = BitFieldDescriptor::parse("vssie,2,2,number,Software Interrupt").unwrap();
    assert_eq!(f.name, "vssie");
    assert_eq!((f.lo, f.hi), (2, 2));
    assert!(f.ed.is_none());
    assert_eq!(f.description, "Software Interrupt");
    assert_eq!(f.flag_type(), "bool");
}

#[test]
fn field_number_wide() {
    let f = BitFieldDescriptor::parse("vgein,17,12,number,Virtual Guest External Interrupt Number.").unwrap();
    assert_eq!((f.lo, f.hi), (12, 17));
    assert_eq!(f.flag_type(), "usize");
}

#[test]
fn field_bit_order_is_normalized() {
    let a = BitFieldDescriptor::parse("f,3,7,number,desc").unwrap();
    let b = BitFieldDescriptor::parse("f,7,3,number,desc").unwrap();
    assert_eq!((a.lo, a.hi), (3, 7));
    assert_eq!((b.lo, b.hi), (3, 7));
    assert_eq!(a.name, b.name);
    assert_eq!(a.description, b.description);
}

#[test]
fn field_with_enumeration() {
    let f = BitFieldDescriptor::parse(
        "vsxl,33,32,VsxlValues,Vsxl32=1;Vsxl64;Vsxl128,Effective XLEN for VM.",
    )
    .unwrap();
    assert_eq!((f.lo, f.hi), (32, 33));
    let (tag, e) = f.ed.clone().unwrap();
    assert_eq!(tag, "VsxlValues");
    assert_eq!(entries(&e), pairs(&[("Vsxl32", 1), ("Vsxl64", 2), ("Vsxl128", 3)]));
    assert_eq!(f.description, "Effective XLEN for VM.");
    assert_eq!(f.flag_type(), "VsxlValues");
}

#[test]
fn field_single_bit_enumeration_stays_enum() {
    let f = BitFieldDescriptor::parse("m,4,4,Mode,Off;On,a mode").unwrap();
    assert_eq!(f.flag_type(), "Mode");
}

#[test]
fn field_description_keeps_commas() {
    let f = BitFieldDescriptor::parse("x,1,1,number,one, two, three").unwrap();
    assert_eq!(f.description, "one, two, three");
    let g = BitFieldDescriptor::parse("y,3,2,E,A;B,first, second").unwrap();
    assert_eq!(g.description, "first, second");
}

#[test]
fn field_without_description() {
    let f = BitFieldDescriptor::parse("x,1,1,number").unwrap();
    assert_eq!(f.description, "");
}

#[test]
fn field_errors() {
    assert_eq!(BitFieldDescriptor::parse("x,1").unwrap_err(), ParseError::MissingPart);
    assert_eq!(BitFieldDescriptor::parse("").unwrap_err(), ParseError::MissingPart);
    assert_eq!(BitFieldDescriptor::parse("x,1,2,Foo").unwrap_err(), ParseError::MissingPart);
    assert_eq!(BitFieldDescriptor::parse("x,a,2,number,d").unwrap_err(), ParseError::BadNumber);
    assert_eq!(BitFieldDescriptor::parse("x,1,b,number,d").unwrap_err(), ParseError::BadNumber);
    assert_eq!(BitFieldDescriptor::parse("x,64,0,number,d").unwrap_err(), ParseError::BitOutOfRange);
    assert_eq!(BitFieldDescriptor::parse("x,3,2,E,A=z,d").unwrap_err(), ParseError::BadNumber);
}

const HIE: &str = "Hie
1540
vssie,2,2,number,Software Interrupt
vstie,6,6,number,Timer Interrupt
vseie,10,10,number,External Interrupt 
sgeie,12,12,number,Guest External Interrupt 
end
Hypervisor Interrupt Enable Register.";

#[test]
fn csr_block_parses() {
    let c = CSRDescriptor::parse(HIE).unwrap();
    assert_eq!(c.name, "Hie");
    assert_eq!(c.id, 1540);
    assert_eq!(c.bfs.len(), 4);
    assert_eq!(c.bfs[3].name, "sgeie");
    assert_eq!(c.bfs[3].description, "Guest External Interrupt ");
    assert_eq!(c.description, "Hypervisor Interrupt Enable Register.");
}

#[test]
fn csr_description_keeps_later_lines() {
    let c = CSRDescriptor::parse("R\n7\nend\nfirst\nsecond").unwrap();
    assert!(c.bfs.is_empty());
    assert_eq!(c.description, "first\nsecond");
    let d = CSRDescriptor::parse("R\n7\nend").unwrap();
    assert_eq!(d.description, "");
}

#[test]
fn csr_errors() {
    assert_eq!(CSRDescriptor::parse("R").unwrap_err(), ParseError::MissingPart);
    assert_eq!(CSRDescriptor::parse("R\nabc\nend\nd").unwrap_err(), ParseError::BadNumber);
    assert_eq!(CSRDescriptor::parse("R\n1\nx,1,1,number,d\nd").unwrap_err(), ParseError::MissingEnd);
    assert_eq!(CSRDescriptor::parse("R\n1\nx,1\nend\nd").unwrap_err(), ParseError::MissingPart);
}
