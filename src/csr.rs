//! Register descriptors: a name, a numeric id, bitfields and a description,
//! and the register type's source text emitted from them.
use vstd::arithmetic::power2::pow2;
use vstd::prelude::*;

use crate::bitfield::{
    bit_set_text, field_mask, field_spec, field_wf, flag_type_spec, read_write_text,
    BitFieldDescriptor, FieldView,
};
use crate::enumeration::enum_text;
use crate::text::{
    after_separators, chars_after_separators, chars_of, decimal, parse_unsigned, push_decimal,
    split, split_chars, string_of, unsigned_of,
};
use crate::ParseError;

verus! {

/// What a register descriptor says.
pub struct CsrView {
    pub name: Seq<char>,
    pub id: usize,
    pub description: Seq<char>,
    pub bfs: Seq<FieldView>,
}

/// A control/status register: its name (also the emitted type's name), its
/// numeric id, its bitfields in order, and its description.
#[derive(Debug, Clone)]
pub struct CSRDescriptor {
    pub name: String,
    pub id: usize,
    pub description: String,
    pub bfs: Vec<BitFieldDescriptor>,
}

impl View for CSRDescriptor {
    type V = CsrView;

    open spec fn view(&self) -> CsrView {
        CsrView {
            name: self.name@,
            id: self.id,
            description: self.description@,
            bfs: self.bfs@.map_values(|f: BitFieldDescriptor| f@),
        }
    }
}

/// The line that ends a register's field lines.
pub open spec fn end_word() -> Seq<char> {
    seq!['e', 'n', 'd']
}

/// The index of the first `end` line at or after line `i`.
pub open spec fn end_index(lines: Seq<Seq<char>>, i: int) -> Option<int>
    decreases lines.len() - i,
{
    if i < 0 || i >= lines.len() {
        None
    } else if lines[i] == end_word() {
        Some(i)
    } else {
        end_index(lines, i + 1)
    }
}

/// The fields of a list of field lines, or the first line's refusal.
pub open spec fn fields_of(lines: Seq<Seq<char>>) -> Result<Seq<FieldView>, ParseError>
    decreases lines.len(),
{
    if lines.len() == 0 {
        Ok(Seq::empty())
    } else {
        match fields_of(lines.drop_last()) {
            Err(e) => Err(e),
            Ok(prev) => match field_spec(lines.last()) {
                Err(e) => Err(e),
                Ok(f) => Ok(prev.push(f)),
            },
        }
    }
}

/// The register that a block denotes: its name on the first line, its decimal
/// id on the second, field lines up to a line `end`, and after that line the
/// description; or why the block is refused.
pub open spec fn csr_spec(s: Seq<char>) -> Result<CsrView, ParseError> {
    let lines = split(s, '\n');
    if lines.len() < 2 {
        Err(ParseError::MissingPart)
    } else {
        match unsigned_of(lines[1]) {
            None => Err(ParseError::BadNumber),
            Some(id) => match end_index(lines, 2) {
                None => Err(ParseError::MissingEnd),
                Some(e) => match fields_of(lines.subrange(2, e)) {
                    Err(x) => Err(x),
                    Ok(bfs) => Ok(
                        CsrView {
                            name: lines[0],
                            id,
                            description: after_separators(s, '\n', (e + 1) as nat),
                            bfs,
                        },
                    ),
                },
            },
        }
    }
}

/// Once a prefix of the field lines fails, the whole list fails the same way.
pub proof fn lemma_fields_error_stays(lines: Seq<Seq<char>>, k: int, e: ParseError)
    requires
        0 <= k <= lines.len(),
        fields_of(lines.take(k)) == Err::<Seq<FieldView>, _>(e),
    ensures
        fields_of(lines) == Err::<Seq<FieldView>, _>(e),
    decreases lines.len() - k,
{
    if k == lines.len() {
        assert(lines.take(k) =~= lines);
    } else {
        assert(lines.take(k + 1).drop_last() =~= lines.take(k));
        lemma_fields_error_stays(lines, k + 1, e);
    }
}

/// Every field of a register lies within the register word.
pub open spec fn csr_wf(c: CsrView) -> bool {
    forall|i: int| 0 <= i < c.bfs.len() ==> field_wf(#[trigger] c.bfs[i])
}

/// The accessor text of each field in turn: the atomic set and clear
/// operations for a single-bit field, then the read and write accessors.
pub open spec fn impls_text(fs: Seq<FieldView>) -> Seq<char>
    decreases fs.len(),
{
    if fs.len() == 0 {
        Seq::empty()
    } else {
        let f = fs.last();
        impls_text(fs.drop_last()) + (if f.lo == f.hi {
            bit_set_text(f.name, pow2(f.lo as nat))
        } else {
            Seq::empty()
        }) + read_write_text(f.name, flag_type_spec(f), f.lo as nat, decimal(field_mask(f) as nat))
    }
}

/// The enumeration types of the enum-typed fields, in order.
pub open spec fn enums_text(fs: Seq<FieldView>) -> Seq<char>
    decreases fs.len(),
{
    if fs.len() == 0 {
        Seq::empty()
    } else {
        enums_text(fs.drop_last()) + match fs.last().ed {
            Some(p) => enum_text(p.0, p.1),
            None => Seq::empty(),
        }
    }
}

/// One debug-representation line per field, reading it through its accessor.
pub open spec fn debug_text(fs: Seq<FieldView>) -> Seq<char>
    decreases fs.len(),
{
    if fs.len() == 0 {
        Seq::empty()
    } else {
        debug_text(fs.drop_last()) + "         .field(\""@ + fs.last().name + "\", &self.read_"@
            + fs.last().name + "())\n"@
    }
}

/// The low-level access primitives bound to register `id`.
pub open spec fn accessor_text(id: usize) -> Seq<char> {
    "\npub mod csr{\n    pub const CSR_ID: usize = "@ + decimal(id as nat) + ";\n    #[inline]\n    pub unsafe fn csrrw(rs1: usize)->usize{\n        let mut rd;\n        llvm_asm!(\"csrrw $0, $2, $1\" :\"=r\"(rd): \"r\"(rs1), \"i\"(CSR_ID) :: \"volatile\");\n        rd\n    }\n    #[inline]\n    pub unsafe fn csrrw_x0(rs1: usize){\n        llvm_asm!(\"csrrw x0, $1, $0\" :: \"r\"(rs1), \"i\"(CSR_ID) :: \"volatile\");\n    }\n    #[inline]\n    pub unsafe fn csrrs(rs1: usize)->usize{\n        let mut rd;\n        llvm_asm!(\"csrrs $0, $2, $1\" :\"=r\"(rd): \"r\"(rs1), \"i\"(CSR_ID) :: \"volatile\");\n        rd\n    }\n    #[inline]\n    pub unsafe fn csrrs_x0()->usize{\n        let mut rd;\n        llvm_asm!(\"csrrs $0, $1, x0\" :\"=r\"(rd): \"i\"(CSR_ID) :: \"volatile\");\n        rd\n    }\n    #[inline]\n    pub unsafe fn csrrc(rs1: usize)->usize{\n        let mut rd;\n        llvm_asm!(\"csrrc $0, $2, $1\" :\"=r\"(rd): \"r\"(rs1), \"i\"(CSR_ID) :: \"volatile\");\n        rd\n    }\n    #[inline]\n    pub unsafe fn csrrc_x0()->usize{\n        let mut rd;\n        llvm_asm!(\"csrrc $0, $1, x0\" :\"=r\"(rd): \"i\"(CSR_ID) :: \"volatile\");\n        rd\n    }\n}\n"@
}

/// The whole emitted source of a register.
pub open spec fn csr_text(c: CsrView) -> Seq<char> {
    "\nuse super::BoolExt;\n/// "@
        + c.description
        + "\n#[derive(Copy, Clone)]\npub struct "@
        + c.name
        + "(pub usize);\nimpl "@
        + c.name
        + "{\n#[inline]\npub fn read()->Self{\n    "@
        + c.name
        + "(unsafe{csr::csrrs_x0()})\n}\n#[inline]\npub fn write(self){\n    unsafe{csr::csrrw_x0(self.0)};\n}\n#[inline]\npub fn replace(self)->Self{\n    "@
        + c.name
        + "(unsafe{csr::csrrw(self.0)})\n}\n"@
        + impls_text(c.bfs)
        + "\n}\n// enums\n"@
        + enums_text(c.bfs)
        + "\n// csr mod\n"@
        + accessor_text(c.id)
        + "\n// Debug\nimpl core::fmt::Debug for "@
        + c.name
        + " {\n    fn fmt(&self, f: &mut core::fmt::Formatter<'_>) -> core::fmt::Result {\n        f.debug_struct(\""@
        + c.name
        + "\")\n"@
        + debug_text(c.bfs)
        + "\n         .finish()\n    }\n}\n"@
}

impl CSRDescriptor {
    pub open spec fn wf(&self) -> bool {
        csr_wf(self@)
    }

    /// Parses a register block.
    pub fn parse(d: &str) -> (r: Result<CSRDescriptor, ParseError>)
        ensures
            match r {
                Ok(c) => csr_spec(d@) == Ok::<_, ParseError>(c@) && c.wf(),
                Err(e) => csr_spec(d@) == Err::<CsrView, _>(e),
            },
    {
        let s = chars_of(d);
        Self::parse_chars(&s)
    }

    pub fn parse_chars(s: &Vec<char>) -> (r: Result<CSRDescriptor, ParseError>)
        ensures
            match r {
                Ok(c) => csr_spec(s@) == Ok::<_, ParseError>(c@) && c.wf(),
                Err(e) => csr_spec(s@) == Err::<CsrView, _>(e),
            },
    {
        let lines = split_chars(s, '\n');
        let ghost ls = lines.deep_view();
        if lines.len() < 2 {
            return Err(ParseError::MissingPart);
        }
        assert(lines[1]@ == ls[1] && lines[0]@ == ls[0]);
        let id = match parse_unsigned(&lines[1]) {
            Some(id) => id,
            None => {
                return Err(ParseError::BadNumber);
            },
        };
        let mut e: usize = 2;
        while e < lines.len() && !is_end_word(&lines[e])
            invariant
                2 <= e <= lines.len(),
                ls == lines.deep_view(),
                end_index(ls, 2) == end_index(ls, e as int),
            decreases lines.len() - e,
        {
            assert(lines[e as int]@ == ls[e as int]);
            e = e + 1;
        }
        if e == lines.len() {
            return Err(ParseError::MissingEnd);
        }
        assert(lines[e as int]@ == ls[e as int]);
        assert(end_index(ls, 2) == Some(e as int));
        let ghost field_lines = ls.subrange(2, e as int);
        let mut bfs: Vec<BitFieldDescriptor> = Vec::new();
        let mut i: usize = 2;
        assert(field_lines.take(0) =~= Seq::<Seq<char>>::empty());
        assert(bfs@.map_values(|f: BitFieldDescriptor| f@) =~= Seq::<FieldView>::empty());
        while i < e
            invariant
                2 <= i <= e < lines.len(),
                ls == lines.deep_view(),
                ls == split(s@, '\n'),
                unsigned_of(ls[1]) == Some(id),
                end_index(ls, 2) == Some(e as int),
                field_lines == ls.subrange(2, e as int),
                fields_of(field_lines.take(i - 2)) == Ok::<_, ParseError>(
                    bfs@.map_values(|f: BitFieldDescriptor| f@),
                ),
                forall|j: int| 0 <= j < bfs.len() ==> (#[trigger] bfs@[j]).wf(),
            decreases e - i,
        {
            let ghost prev = bfs@.map_values(|f: BitFieldDescriptor| f@);
            assert(field_lines.take(i - 2 + 1).drop_last() =~= field_lines.take(i - 2));
            assert(field_lines.take(i - 2 + 1).last() == lines[i as int]@);
            match BitFieldDescriptor::parse_chars(&lines[i]) {
                Err(x) => {
                    proof {
                        lemma_fields_error_stays(field_lines, i - 2 + 1, x);
                    }
                    return Err(x);
                },
                Ok(f) => {
                    bfs.push(f);
                    assert(bfs@.map_values(|f: BitFieldDescriptor| f@) =~= prev.push(f@));
                },
            }
            i = i + 1;
        }
        assert(field_lines.take(i - 2) =~= field_lines);
        let rest = chars_after_separators(s, '\n', e + 1);
        let description = string_of(rest.as_slice());
        let name = string_of(lines[0].as_slice());
        let c = CSRDescriptor { name, id, description, bfs };
        assert(c.wf());
        Ok(c)
    }

    /// Emits the register type with its whole-register operations, every
    /// field's accessors, the enumeration types, the access primitives bound
    /// to the register's id, and the debug representation.
    pub fn generate(&self) -> (r: String)
        requires
            self.wf(),
        ensures
            r@ == csr_text(self@),
    {
        let mut impls = String::new();
        let mut enums = String::new();
        let mut debug_fields = String::new();
        let ghost fs = self@.bfs;
        let mut i: usize = 0;
        while i < self.bfs.len()
            invariant
                i <= self.bfs.len(),
                fs == self@.bfs,
                self.wf(),
                impls@ == impls_text(fs.take(i as int)),
                enums@ == enums_text(fs.take(i as int)),
                debug_fields@ == debug_text(fs.take(i as int)),
            decreases self.bfs.len() - i,
        {
            let bf = &self.bfs[i];
            assert(fs.take(i as int + 1).drop_last() =~= fs.take(i as int));
            assert(fs.take(i as int + 1).last() == bf@);
            assert(field_wf(fs[i as int]));
            let ghost before = impls@;
            if bf.lo == bf.hi {
                let t = bf.generate_bit_set();
                impls.append(t.as_str());
            } else {
                assert(impls@ =~= before + Seq::<char>::empty());
            }
            let t = bf.generate_read_write();
            impls.append(t.as_str());
            let ghost enums_before = enums@;
            match bf.generate_enum() {
                Some(t) => {
                    enums.append(t.as_str());
                },
                None => {
                    assert(enums@ =~= enums_before + Seq::<char>::empty());
                },
            }
            debug_fields.append("         .field(\"");
            debug_fields.append(bf.name.as_str());
            debug_fields.append("\", &self.read_");
            debug_fields.append(bf.name.as_str());
            debug_fields.append("())\n");
            i = i + 1;
        }
        assert(fs.take(i as int) =~= fs);
        let mut accessor = String::new();
        accessor.append("\npub mod csr{\n    pub const CSR_ID: usize = ");
        push_decimal(&mut accessor, self.id as u64);
        accessor.append(";\n    #[inline]\n    pub unsafe fn csrrw(rs1: usize)->usize{\n        let mut rd;\n        llvm_asm!(\"csrrw $0, $2, $1\" :\"=r\"(rd): \"r\"(rs1), \"i\"(CSR_ID) :: \"volatile\");\n        rd\n    }\n    #[inline]\n    pub unsafe fn csrrw_x0(rs1: usize){\n        llvm_asm!(\"csrrw x0, $1, $0\" :: \"r\"(rs1), \"i\"(CSR_ID) :: \"volatile\");\n    }\n    #[inline]\n    pub unsafe fn csrrs(rs1: usize)->usize{\n        let mut rd;\n        llvm_asm!(\"csrrs $0, $2, $1\" :\"=r\"(rd): \"r\"(rs1), \"i\"(CSR_ID) :: \"volatile\");\n        rd\n    }\n    #[inline]\n    pub unsafe fn csrrs_x0()->usize{\n        let mut rd;\n        llvm_asm!(\"csrrs $0, $1, x0\" :\"=r\"(rd): \"i\"(CSR_ID) :: \"volatile\");\n        rd\n    }\n    #[inline]\n    pub unsafe fn csrrc(rs1: usize)->usize{\n        let mut rd;\n        llvm_asm!(\"csrrc $0, $2, $1\" :\"=r\"(rd): \"r\"(rs1), \"i\"(CSR_ID) :: \"volatile\");\n        rd\n    }\n    #[inline]\n    pub unsafe fn csrrc_x0()->usize{\n        let mut rd;\n        llvm_asm!(\"csrrc $0, $1, x0\" :\"=r\"(rd): \"i\"(CSR_ID) :: \"volatile\");\n        rd\n    }\n}\n");
        let mut r = String::new();
        r.append("\nuse super::BoolExt;\n/// ");
        r.append(self.description.as_str());
        r.append("\n#[derive(Copy, Clone)]\npub struct ");
        r.append(self.name.as_str());
        r.append("(pub usize);\nimpl ");
        r.append(self.name.as_str());
        r.append("{\n#[inline]\npub fn read()->Self{\n    ");
        r.append(self.name.as_str());
        r.append("(unsafe{csr::csrrs_x0()})\n}\n#[inline]\npub fn write(self){\n    unsafe{csr::csrrw_x0(self.0)};\n}\n#[inline]\npub fn replace(self)->Self{\n    ");
        r.append(self.name.as_str());
        r.append("(unsafe{csr::csrrw(self.0)})\n}\n");
        r.append(impls.as_str());
        r.append("\n}\n// enums\n");
        r.append(enums.as_str());
        r.append("\n// csr mod\n");
        r.append(accessor.as_str());
        r.append("\n// Debug\nimpl core::fmt::Debug for ");
        r.append(self.name.as_str());
        r.append(" {\n    fn fmt(&self, f: &mut core::fmt::Formatter<'_>) -> core::fmt::Result {\n        f.debug_struct(\"");
        r.append(self.name.as_str());
        r.append("\")\n");
        r.append(debug_fields.as_str());
        r.append("\n         .finish()\n    }\n}\n");
        assert(r@ =~= csr_text(self@));
        r
    }
}

fn is_end_word(v: &Vec<char>) -> (r: bool)
    ensures
        r == (v@ == end_word()),
{
    let r = v.len() == 3 && v[0] == 'e' && v[1] == 'n' && v[2] == 'd';
    if r {
        assert(v@ =~= end_word());
    }
    r
}

/// Parses a register block and emits its source text.
pub fn generate_csr_source(text: &str) -> (r: Result<String, ParseError>)
    ensures
        match csr_spec(text@) {
            Ok(c) => r is Ok && r->Ok_0@ == csr_text(c),
            Err(e) => r == Err::<String, _>(e),
        },
{
    match CSRDescriptor::parse(text) {
        Ok(c) => Ok(c.generate()),
        Err(e) => Err(e),
    }
}

} // verus!
