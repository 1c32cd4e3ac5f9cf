//! Register bitfields: one comma-separated descriptor line each, the accessor
//! text emitted for them, and the bit arithmetic those accessors perform.
use vstd::arithmetic::power2::{pow2, lemma2_to64, lemma2_to64_rest};
use vstd::bits::lemma_u64_shl_is_mul;
use vstd::prelude::*;

use crate::enumeration::{
    enum_text, enumeration_spec, first_variant, lemma_first_variant, EnumerationDescriptor,
};
use crate::text::{
    after_separators, chars_after_separators, chars_of, decimal, lemma_split_nonempty,
    parse_unsigned, push_decimal, split, split_chars, string_of, unsigned_of, lemma_split_concat,
    lemma_split_whole, lemma_after_separators_concat,
};
use crate::ParseError;

verus! {

/// What a field descriptor says: its name, its bit range `[lo, hi]`, the
/// enumeration it owns if any (type name and entries), and its description.
pub struct FieldView {
    pub name: Seq<char>,
    pub lo: usize,
    pub hi: usize,
    pub ed: Option<(Seq<char>, Seq<(Seq<char>, usize)>)>,
    pub description: Seq<char>,
}

/// A bitfield `[lo, hi]` of a register word.
#[derive(Debug, Clone)]
pub struct BitFieldDescriptor {
    pub name: String,
    pub description: String,
    pub lo: usize,
    pub hi: usize,
    pub ed: Option<(String, EnumerationDescriptor)>,
}

impl View for BitFieldDescriptor {
    type V = FieldView;

    open spec fn view(&self) -> FieldView {
        FieldView {
            name: self.name@,
            lo: self.lo,
            hi: self.hi,
            ed: match self.ed {
                Some(p) => Some((p.0@, p.1@)),
                None => None,
            },
            description: self.description@,
        }
    }
}

/// The type tag that marks a field as a plain number.
pub open spec fn number_tag() -> Seq<char> {
    seq!['n', 'u', 'm', 'b', 'e', 'r']
}

/// A field lies within the 64-bit register word, with `lo <= hi`.
pub open spec fn field_wf(f: FieldView) -> bool {
    f.lo <= f.hi < 64
}

/// The number of bits of a field.
pub open spec fn field_width(f: FieldView) -> nat {
    (f.hi - f.lo + 1) as nat
}

/// The field's mask: its width's worth of low one bits.
pub open spec fn field_mask(f: FieldView) -> int {
    pow2(field_width(f)) - 1
}

/// The field that a descriptor line `name,hi,lo,type[,enum-spec],description`
/// denotes, or why the line is refused. The two bit positions may come in
/// either order; the description is the line's own text after the last
/// structural comma.
pub open spec fn field_spec(s: Seq<char>) -> Result<FieldView, ParseError> {
    let p = split(s, ',');
    if p.len() < 4 {
        Err(ParseError::MissingPart)
    } else {
        match unsigned_of(p[1]) {
            None => Err(ParseError::BadNumber),
            Some(a) => match unsigned_of(p[2]) {
                None => Err(ParseError::BadNumber),
                Some(b) => {
                    let lo = if b < a { b } else { a };
                    let hi = if b < a { a } else { b };
                    if hi >= 64 {
                        Err(ParseError::BitOutOfRange)
                    } else if p[3] == number_tag() {
                        Ok(
                            FieldView {
                                name: p[0],
                                lo,
                                hi,
                                ed: None,
                                description: after_separators(s, ',', 4),
                            },
                        )
                    } else if p.len() < 5 {
                        Err(ParseError::MissingPart)
                    } else {
                        match enumeration_spec(p[4]) {
                            Err(e) => Err(e),
                            Ok(es) => Ok(
                                FieldView {
                                    name: p[0],
                                    lo,
                                    hi,
                                    ed: Some((p[3], es)),
                                    description: after_separators(s, ',', 5),
                                },
                            ),
                        }
                    }
                },
            },
        }
    }
}

/// The descriptor line `name,first,second,rest`.
pub open spec fn field_line(name: Seq<char>, first: Seq<char>, second: Seq<char>, rest: Seq<char>) -> Seq<char> {
    name + seq![','] + first + seq![','] + second + seq![','] + rest
}

/// A field line names its two bit positions in either order: swapping them
/// gives the same field, or the same refusal.
pub proof fn lemma_bit_order_irrelevant(
    name: Seq<char>,
    first: Seq<char>,
    second: Seq<char>,
    rest: Seq<char>,
)
    requires
        !name.contains(','),
        !first.contains(','),
        !second.contains(','),
    ensures
        field_spec(field_line(name, first, second, rest)) == field_spec(
            field_line(name, second, first, rest),
        ),
{
    lemma_line_parts(name, first, second, rest);
    lemma_line_parts(name, second, first, rest);
    lemma_split_nonempty(rest, ',');
    let p1 = split(field_line(name, first, second, rest), ',');
    let p2 = split(field_line(name, second, first, rest), ',');
    assert(p1.len() == p2.len() && p1.len() >= 4);
    assert(p1[0] == name && p2[0] == name);
    assert(p1[1] == first && p2[2] == first);
    assert(p1[2] == second && p2[1] == second);
    assert(p1.skip(3) =~= p2.skip(3));
    assert(p1[3] == p1.skip(3)[0] && p2[3] == p2.skip(3)[0]);
    if p1.len() >= 5 {
        assert(p1[4] == p1.skip(3)[1] && p2[4] == p2.skip(3)[1]);
    }
}

proof fn lemma_line_parts(name: Seq<char>, first: Seq<char>, second: Seq<char>, rest: Seq<char>)
    requires
        !name.contains(','),
        !first.contains(','),
        !second.contains(','),
    ensures
        split(field_line(name, first, second, rest), ',') == seq![name, first, second] + split(
            rest,
            ',',
        ),
        after_separators(field_line(name, first, second, rest), ',', 4) == after_separators(
            rest,
            ',',
            1,
        ),
        after_separators(field_line(name, first, second, rest), ',', 5) == after_separators(
            rest,
            ',',
            2,
        ),
{
    let c = seq![','];
    let tail2 = second + c + rest;
    let tail1 = first + c + tail2;
    assert(field_line(name, first, second, rest) =~= name + c + tail1);
    assert(tail1 =~= first + c + tail2);
    lemma_split_concat(name, ',', tail1);
    lemma_split_concat(first, ',', tail2);
    lemma_split_concat(second, ',', rest);
    lemma_split_whole(name, ',');
    lemma_split_whole(first, ',');
    lemma_split_whole(second, ',');
    assert(seq![name] + (seq![first] + (seq![second] + split(rest, ','))) =~= seq![name, first, second]
        + split(rest, ','));
    lemma_after_separators_concat(name, ',', tail1, 3);
    lemma_after_separators_concat(first, ',', tail2, 2);
    lemma_after_separators_concat(second, ',', rest, 1);
    lemma_after_separators_concat(name, ',', tail1, 4);
    lemma_after_separators_concat(first, ',', tail2, 3);
    lemma_after_separators_concat(second, ',', rest, 2);
}

fn is_number_tag(v: &Vec<char>) -> (r: bool)
    ensures
        r == (v@ == number_tag()),
{
    let r = v.len() == 6 && v[0] == 'n' && v[1] == 'u' && v[2] == 'm' && v[3] == 'b' && v[4] == 'e'
        && v[5] == 'r';
    if r {
        assert(v@ =~= number_tag());
    }
    r
}

impl BitFieldDescriptor {
    pub open spec fn wf(&self) -> bool {
        field_wf(self@)
    }

    /// Parses one field descriptor line.
    pub fn parse(desc: &str) -> (r: Result<BitFieldDescriptor, ParseError>)
        ensures
            match r {
                Ok(f) => field_spec(desc@) == Ok::<_, ParseError>(f@),
                Err(e) => field_spec(desc@) == Err::<FieldView, _>(e),
            },
    {
        let s = chars_of(desc);
        Self::parse_chars(&s)
    }

    pub fn parse_chars(s: &Vec<char>) -> (r: Result<BitFieldDescriptor, ParseError>)
        ensures
            match r {
                Ok(f) => field_spec(s@) == Ok::<_, ParseError>(f@),
                Err(e) => field_spec(s@) == Err::<FieldView, _>(e),
            },
    {
        let parts = split_chars(s, ',');
        let ghost p = parts.deep_view();
        if parts.len() < 4 {
            return Err(ParseError::MissingPart);
        }
        assert(parts[1]@ == p[1] && parts[2]@ == p[2] && parts[3]@ == p[3] && parts[0]@ == p[0]);
        let a = match parse_unsigned(&parts[1]) {
            Some(a) => a,
            None => {
                return Err(ParseError::BadNumber);
            },
        };
        let b = match parse_unsigned(&parts[2]) {
            Some(b) => b,
            None => {
                return Err(ParseError::BadNumber);
            },
        };
        let lo = if b < a { b } else { a };
        let hi = if b < a { a } else { b };
        if hi >= 64 {
            return Err(ParseError::BitOutOfRange);
        }
        let name = string_of(parts[0].as_slice());
        if is_number_tag(&parts[3]) {
            let rest = chars_after_separators(s, ',', 4);
            let description = string_of(rest.as_slice());
            Ok(BitFieldDescriptor { name, description, lo, hi, ed: None })
        } else if parts.len() < 5 {
            Err(ParseError::MissingPart)
        } else {
            assert(parts[4]@ == p[4]);
            match EnumerationDescriptor::parse_chars(&parts[4]) {
                Err(e) => Err(e),
                Ok(es) => {
                    let tag = string_of(parts[3].as_slice());
                    let rest = chars_after_separators(s, ',', 5);
                    let description = string_of(rest.as_slice());
                    Ok(BitFieldDescriptor { name, description, lo, hi, ed: Some((tag, es)) })
                },
            }
        }
    }
}


/// The type that a field's accessors read and write: its enumeration's name,
/// `bool` for a single bit, `usize` otherwise.
pub open spec fn flag_type_spec(f: FieldView) -> Seq<char> {
    match f.ed {
        Some(p) => p.0,
        None => if f.lo == f.hi {
            "bool"@
        } else {
            "usize"@
        },
    }
}

/// The read and write accessors emitted for a field with type `ty` and mask
/// text `m`: the read shifts right by `lo` and masks; the write asserts that
/// the value fits the mask, clears the field's bits and ORs the value in.
pub open spec fn read_write_text(name: Seq<char>, ty: Seq<char>, lo: nat, m: Seq<char>) -> Seq<char> {
    "\n#[inline]\npub fn read_"@ + name + "(&self)->"@ + ty + "{\n    "@ + ty
        + "::from_usize(((self.0>>"@ + decimal(lo) + ") & "@ + m + "))\n}\n#[inline]\npub fn write_"@
        + name + "(&mut self, val: "@ + ty + "){\n    assert_eq!(val as usize & "@ + m
        + ", val as usize, \"Too long input for write_"@ + name + "!\");\n    self.0 = (self.0 & !("@
        + m + " << "@ + decimal(lo) + "))|((val as usize) << "@ + decimal(lo) + ")\n}\n"@
}

/// The atomic test-and-set and test-and-clear operations emitted for the
/// single-bit field `name` whose bit has the value `bit`.
pub open spec fn bit_set_text(name: Seq<char>, bit: nat) -> Seq<char> {
    "\n#[inline]\npub fn set_"@ + name + "()->bool{\n    unsafe {csr::csrrs("@ + decimal(bit) + ") & "@
        + decimal(bit) + " !=0}\n}\n#[inline]\npub fn clear_"@ + name
        + "()->bool{\n    unsafe {csr::csrrc("@ + decimal(bit) + ") & "@ + decimal(bit)
        + " !=0 }\n}\n"@
}

/// The value of the field at bit `lo` with mask `m` in `word`.
pub open spec fn field_get(word: u64, lo: u64, m: u64) -> u64 {
    (word >> lo) & m
}

/// `word` with the field at bit `lo` with mask `m` replaced by `v`.
pub open spec fn field_set(word: u64, lo: u64, m: u64, v: u64) -> u64 {
    (word & !(m << lo)) | (v << lo)
}

/// A value wider than the field it is written to.
#[derive(Debug, Clone, Copy, PartialEq, Eq, Structural)]
pub struct ValueTooWide;

proof fn lemma_mask_bits(w: u64)
    requires
        1 <= w <= 64,
    ensures
        0 <= pow2(w as nat) - 1 <= u64::MAX,
        w < 64 ==> (1u64 << w) as int == pow2(w as nat),
        (pow2(w as nat) - 1) as u64 == if w == 64 {
            0xffff_ffff_ffff_ffffu64
        } else {
            ((1u64 << w) - 1) as u64
        },
{
    lemma2_to64();
    lemma2_to64_rest();
    if w < 64 {
        vstd::bits::lemma_u64_pow2_no_overflow(w as nat);
        lemma_u64_shl_is_mul(1, w);
    }
}

proof fn lemma_write_read_bits(word: u64, lo: u64, w: u64, m: u64, v: u64)
    by (bit_vector)
    requires
        1 <= w <= 64,
        lo <= 64 - w,
        m == if w == 64 {
            0xffff_ffff_ffff_ffffu64
        } else {
            ((1u64 << w) - 1) as u64
        },
        v <= m,
    ensures
        (((word & !(m << lo)) | (v << lo)) >> lo) & m == v,
{
}

/// Writing a value that fits a field and then reading the field gives the
/// value back, whatever the rest of the word holds.
pub proof fn lemma_write_then_read(f: FieldView, word: u64, v: u64)
    requires
        field_wf(f),
        v <= field_mask(f),
    ensures
        field_get(field_set(word, f.lo as u64, field_mask(f) as u64, v), f.lo as u64, field_mask(f) as u64) == v,
{
    let w = field_width(f) as u64;
    lemma_mask_bits(w);
    lemma_write_read_bits(word, f.lo as u64, w, field_mask(f) as u64, v);
}

/// The entries of the enumeration a field owns; empty where it owns none.
pub open spec fn field_entries(f: FieldView) -> Seq<(Seq<char>, usize)> {
    match f.ed {
        Some(p) => p.1,
        None => Seq::empty(),
    }
}

/// Writing an enumeration entry's value to its field, reading the field back
/// and converting the integer gives an entry with the same value: the first
/// one declared with it, which is the entry itself where values are distinct.
pub proof fn lemma_enum_write_then_read(f: FieldView, word: u64, i: int)
    requires
        field_wf(f),
        f.ed is Some,
        0 <= i < field_entries(f).len(),
        field_entries(f)[i].1 <= field_mask(f),
    ensures
        ({
            let es = field_entries(f);
            let m = field_mask(f) as u64;
            let back = field_get(field_set(word, f.lo as u64, m, es[i].1 as u64), f.lo as u64, m);
            &&& back == es[i].1 as u64
            &&& first_variant(es, back as usize) matches Some(j) && j <= i && es[j].1 == es[i].1
        }),
{
    let es = field_entries(f);
    lemma_write_then_read(f, word, es[i].1 as u64);
    lemma_first_variant(es, es[i].1, i);
}

impl BitFieldDescriptor {
    /// The field's mask `2^w - 1` for its width `w`.
    pub fn mask_value(&self) -> (r: u64)
        requires
            self.wf(),
        ensures
            r as int == field_mask(self@),
    {
        let w: u64 = (self.hi - self.lo + 1) as u64;
        proof {
            lemma_mask_bits(w);
        }
        if w == 64 {
            u64::MAX
        } else {
            (1u64 << w) - 1
        }
    }

    /// The decimal text of the field's mask.
    pub fn mask(&self) -> (r: String)
        requires
            self.wf(),
        ensures
            r@ == decimal(field_mask(self@) as nat),
    {
        let mut r = String::new();
        push_decimal(&mut r, self.mask_value());
        assert(r@ =~= decimal(field_mask(self@) as nat));
        r
    }

    /// The type name that the field's accessors use.
    pub fn flag_type(&self) -> (r: &str)
        ensures
            r@ == flag_type_spec(self@),
    {
        match &self.ed {
            Some(p) => p.0.as_str(),
            None => if self.lo == self.hi {
                "bool"
            } else {
                "usize"
            },
        }
    }

    /// The enumeration type the field owns, if it owns one.
    pub fn generate_enum(&self) -> (r: Option<String>)
        ensures
            match self@.ed {
                Some(p) => r is Some && r->0@ == enum_text(p.0, p.1),
                None => r is None,
            },
    {
        match &self.ed {
            Some(p) => Some(p.1.generate_enum(p.0.as_str())),
            None => None,
        }
    }

    /// The field's read and write accessors.
    pub fn generate_read_write(&self) -> (r: String)
        requires
            self.wf(),
        ensures
            r@ == read_write_text(
                self@.name,
                flag_type_spec(self@),
                self.lo as nat,
                decimal(field_mask(self@) as nat),
            ),
    {
        let ty = self.flag_type();
        let m = self.mask();
        let mut r = String::new();
        r.append("\n#[inline]\npub fn read_");
        r.append(self.name.as_str());
        r.append("(&self)->");
        r.append(ty);
        r.append("{\n    ");
        r.append(ty);
        r.append("::from_usize(((self.0>>");
        push_decimal(&mut r, self.lo as u64);
        r.append(") & ");
        r.append(m.as_str());
        r.append("))\n}\n#[inline]\npub fn write_");
        r.append(self.name.as_str());
        r.append("(&mut self, val: ");
        r.append(ty);
        r.append("){\n    assert_eq!(val as usize & ");
        r.append(m.as_str());
        r.append(", val as usize, \"Too long input for write_");
        r.append(self.name.as_str());
        r.append("!\");\n    self.0 = (self.0 & !(");
        r.append(m.as_str());
        r.append(" << ");
        push_decimal(&mut r, self.lo as u64);
        r.append("))|((val as usize) << ");
        push_decimal(&mut r, self.lo as u64);
        r.append(")\n}\n");
        assert(r@ =~= read_write_text(
            self@.name,
            flag_type_spec(self@),
            self.lo as nat,
            decimal(field_mask(self@) as nat),
        ));
        r
    }

    /// The atomic set and clear operations of a single-bit field.
    pub fn generate_bit_set(&self) -> (r: String)
        requires
            self.wf(),
        ensures
            r@ == bit_set_text(self@.name, pow2(self.lo as nat)),
    {
        let bit: u64 = 1u64 << self.lo as u64;
        proof {
            vstd::bits::lemma_u64_pow2_no_overflow(self.lo as nat);
            lemma_u64_shl_is_mul(1, self.lo as u64);
        }
        let mut r = String::new();
        r.append("\n#[inline]\npub fn set_");
        r.append(self.name.as_str());
        r.append("()->bool{\n    unsafe {csr::csrrs(");
        push_decimal(&mut r, bit);
        r.append(") & ");
        push_decimal(&mut r, bit);
        r.append(" !=0}\n}\n#[inline]\npub fn clear_");
        r.append(self.name.as_str());
        r.append("()->bool{\n    unsafe {csr::csrrc(");
        push_decimal(&mut r, bit);
        r.append(") & ");
        push_decimal(&mut r, bit);
        r.append(" !=0 }\n}\n");
        assert(r@ =~= bit_set_text(self@.name, pow2(self.lo as nat)));
        r
    }

    /// The value of this field in a register word.
    pub fn read_value(&self, word: u64) -> (r: u64)
        requires
            self.wf(),
        ensures
            r == field_get(word, self.lo as u64, field_mask(self@) as u64),
    {
        let m = self.mask_value();
        (word >> self.lo as u64) & m
    }

    /// The register word with this field set to `val`; refused where `val`
    /// does not fit the field's mask.
    pub fn write_value(&self, word: u64, val: u64) -> (r: Result<u64, ValueTooWide>)
        requires
            self.wf(),
        ensures
            val > field_mask(self@) <==> r is Err,
            r is Ok ==> r->Ok_0 == field_set(word, self.lo as u64, field_mask(self@) as u64, val),
    {
        let m = self.mask_value();
        if val > m {
            return Err(ValueTooWide);
        }
        let lo = self.lo as u64;
        Ok((word & !(m << lo)) | (val << lo))
    }
}

} // verus!
