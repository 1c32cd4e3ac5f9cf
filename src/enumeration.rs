//! Enumerations written as `Name[=Value]` tokens separated by `;`.
use vstd::prelude::*;

use crate::text::{decimal, push_decimal, chars_of, parse_unsigned, split, split_chars, string_of, unsigned_of, lemma_split_nonempty};
use crate::ParseError;

verus! {

/// An ordered list of named integer constants.
#[derive(Debug, Clone)]
pub struct EnumerationDescriptor {
    pub enumerations: Vec<(String, usize)>,
}

impl View for EnumerationDescriptor {
    type V = Seq<(Seq<char>, usize)>;

    open spec fn view(&self) -> Seq<(Seq<char>, usize)> {
        self.enumerations@.map_values(|e: (String, usize)| (e.0@, e.1))
    }
}

/// The value an entry gets when it names none: one past the previous entry's
/// value, or zero for the first entry.
pub open spec fn next_value(prev: Seq<(Seq<char>, usize)>) -> int {
    if prev.len() == 0 {
        0
    } else {
        prev.last().1 + 1
    }
}

/// The entries that a list of `Name[=Value]` tokens denotes, or the first
/// error among them.
pub open spec fn entries_of(tokens: Seq<Seq<char>>) -> Result<Seq<(Seq<char>, usize)>, ParseError>
    decreases tokens.len(),
{
    if tokens.len() == 0 {
        Ok(Seq::empty())
    } else {
        match entries_of(tokens.drop_last()) {
            Err(e) => Err(e),
            Ok(prev) => {
                let parts = split(tokens.last(), '=');
                if parts.len() >= 2 {
                    match unsigned_of(parts[1]) {
                        Some(v) => Ok(prev.push((parts[0], v))),
                        None => Err(ParseError::BadNumber),
                    }
                } else if next_value(prev) > usize::MAX {
                    Err(ParseError::ValueOverflow)
                } else {
                    Ok(prev.push((parts[0], next_value(prev) as usize)))
                }
            },
        }
    }
}

/// Once a prefix of the tokens fails, the whole list fails the same way.
pub proof fn lemma_entries_error_stays(tokens: Seq<Seq<char>>, k: int, e: ParseError)
    requires
        0 <= k <= tokens.len(),
        entries_of(tokens.take(k)) == Err::<Seq<(Seq<char>, usize)>, _>(e),
    ensures
        entries_of(tokens) == Err::<Seq<(Seq<char>, usize)>, _>(e),
    decreases tokens.len() - k,
{
    if k == tokens.len() {
        assert(tokens.take(k) =~= tokens);
    } else {
        assert(tokens.take(k + 1).drop_last() =~= tokens.take(k));
        lemma_entries_error_stays(tokens, k + 1, e);
    }
}

/// The entries of an enumeration text such as `A;B=5;C`.
pub open spec fn enumeration_spec(s: Seq<char>) -> Result<Seq<(Seq<char>, usize)>, ParseError> {
    entries_of(split(s, ';'))
}

/// One `Name = value,` line per entry of the emitted enumeration type.
pub open spec fn variants_text(es: Seq<(Seq<char>, usize)>) -> Seq<char>
    decreases es.len(),
{
    if es.len() == 0 {
        Seq::empty()
    } else {
        variants_text(es.drop_last()) + "    "@ + es.last().0 + " = "@ + decimal(es.last().1 as nat)
            + ",\n"@
    }
}

/// One `value => Self::Name,` arm per entry of the emitted integer conversion.
pub open spec fn branches_text(es: Seq<(Seq<char>, usize)>) -> Seq<char>
    decreases es.len(),
{
    if es.len() == 0 {
        Seq::empty()
    } else {
        branches_text(es.drop_last()) + "            "@ + decimal(es.last().1 as nat) + " => Self::"@
            + es.last().0 + ",\n"@
    }
}

/// The emitted enumeration type `name` with its integer conversion, whose
/// fallback arm is a fatal fault.
pub open spec fn enum_text(name: Seq<char>, es: Seq<(Seq<char>, usize)>) -> Seq<char> {
    "#[derive(Copy, Clone, Debug)]\n#[repr(usize)]\n"@ + "pub enum "@ + name + "{\n"@ + variants_text(es)
        + "}\nimpl "@ + name + "{\n    #[inline]\n    fn from_usize(x: usize)->Self{\n        match x{\n"@
        + branches_text(es) + "            _ => unreachable!()\n        }\n    }\n}\n"@
}

impl EnumerationDescriptor {
    /// Emits the enumeration type `name` and its conversion from an integer.
    pub fn generate_enum(&self, name: &str) -> (r: String)
        ensures
            r@ == enum_text(name@, self@),
    {
        let mut variants = String::new();
        let mut branches = String::new();
        let mut i: usize = 0;
        while i < self.enumerations.len()
            invariant
                i <= self.enumerations.len(),
                variants@ == variants_text(self@.take(i as int)),
                branches@ == branches_text(self@.take(i as int)),
            decreases self.enumerations.len() - i,
        {
            let ghost es = self@.take(i as int + 1);
            assert(es.drop_last() =~= self@.take(i as int));
            let e = &self.enumerations[i];
            assert(es.last() == (e.0@, e.1));
            variants.append("    ");
            variants.append(e.0.as_str());
            variants.append(" = ");
            push_decimal(&mut variants, e.1 as u64);
            variants.append(",\n");
            branches.append("            ");
            push_decimal(&mut branches, e.1 as u64);
            branches.append(" => Self::");
            branches.append(e.0.as_str());
            branches.append(",\n");
            i = i + 1;
        }
        assert(self@.take(i as int) =~= self@);
        let mut ret = String::new();
        ret.append("#[derive(Copy, Clone, Debug)]\n#[repr(usize)]\n");
        ret.append("pub enum ");
        ret.append(name);
        ret.append("{\n");
        ret.append(variants.as_str());
        ret.append("}\nimpl ");
        ret.append(name);
        ret.append("{\n    #[inline]\n    fn from_usize(x: usize)->Self{\n        match x{\n");
        ret.append(branches.as_str());
        ret.append("            _ => unreachable!()\n        }\n    }\n}\n");
        assert(ret@ =~= enum_text(name@, self@));
        ret
    }

    /// Parses `Name[=Value]` tokens separated by `;`. An explicit value resets
    /// the counter; every entry takes the counter, which then moves up by one.
    pub fn parse(enums: &str) -> (r: Result<EnumerationDescriptor, ParseError>)
        ensures
            match r {
                Ok(e) => enumeration_spec(enums@) == Ok::<_, ParseError>(e@),
                Err(x) => enumeration_spec(enums@) == Err::<Seq<(Seq<char>, usize)>, _>(x),
            },
    {
        let s = chars_of(enums);
        Self::parse_chars(&s)
    }

    pub fn parse_chars(s: &Vec<char>) -> (r: Result<EnumerationDescriptor, ParseError>)
        ensures
            match r {
                Ok(e) => enumeration_spec(s@) == Ok::<_, ParseError>(e@),
                Err(x) => enumeration_spec(s@) == Err::<Seq<(Seq<char>, usize)>, _>(x),
            },
    {
        let tokens = split_chars(s, ';');
        let ghost ts = tokens.deep_view();
        let mut out: Vec<(String, usize)> = Vec::new();
        let mut i: usize = 0;
        assert(ts.take(0) =~= Seq::<Seq<char>>::empty());
        assert((EnumerationDescriptor { enumerations: out })@ =~= Seq::<(Seq<char>, usize)>::empty());
        while i < tokens.len()
            invariant
                i <= tokens.len(),
                ts == tokens.deep_view(),
                ts == split(s@, ';'),
                entries_of(ts.take(i as int)) == Ok::<_, ParseError>(
                    (EnumerationDescriptor { enumerations: out })@,
                ),
            decreases tokens.len() - i,
        {
            let ghost prev = (EnumerationDescriptor { enumerations: out })@;
            assert(ts.take(i as int + 1).drop_last() =~= ts.take(i as int));
            assert(ts.take(i as int + 1).last() == tokens[i as int]@);
            let parts = split_chars(&tokens[i], '=');
            proof {
                lemma_split_nonempty(tokens[i as int]@, '=');
            }
            let value: usize;
            if parts.len() >= 2 {
                assert(parts[1]@ == parts.deep_view()[1]);
                match parse_unsigned(&parts[1]) {
                    Some(v) => {
                        value = v;
                    },
                    None => {
                        proof {
                            lemma_entries_error_stays(ts, i as int + 1, ParseError::BadNumber);
                        }
                        return Err(ParseError::BadNumber);
                    },
                }
            } else if out.len() == 0 {
                value = 0;
            } else {
                let last = out[out.len() - 1].1;
                assert(prev.last().1 == last);
                if last == usize::MAX {
                    proof {
                        lemma_entries_error_stays(ts, i as int + 1, ParseError::ValueOverflow);
                    }
                    return Err(ParseError::ValueOverflow);
                }
                value = last + 1;
            }
            assert(parts[0]@ == parts.deep_view()[0]);
            let name = string_of(parts[0].as_slice());
            out.push((name, value));
            assert((EnumerationDescriptor { enumerations: out })@ =~= prev.push((
                parts.deep_view()[0],
                value,
            )));
            i = i + 1;
        }
        assert(ts.take(i as int) =~= ts);
        Ok(EnumerationDescriptor { enumerations: out })
    }
}

/// The index of the first entry with value `v`: the arm that the emitted
/// integer conversion takes.
pub open spec fn first_variant(es: Seq<(Seq<char>, usize)>, v: usize) -> Option<int>
    decreases es.len(),
{
    if es.len() == 0 {
        None
    } else {
        match first_variant(es.drop_last(), v) {
            Some(j) => Some(j),
            None => if es.last().1 == v {
                Some(es.len() - 1)
            } else {
                None
            },
        }
    }
}

/// Where an entry has value `v`, the conversion finds an entry with that value
/// at or before it; where it finds one, the entry has that value.
pub proof fn lemma_first_variant(es: Seq<(Seq<char>, usize)>, v: usize, i: int)
    ensures
        (first_variant(es, v) matches Some(j) ==> 0 <= j < es.len() && es[j].1 == v),
        0 <= i < es.len() && es[i].1 == v ==> (first_variant(es, v) matches Some(j) && j <= i),
    decreases es.len(),
{
    if es.len() > 0 {
        let p = es.drop_last();
        lemma_first_variant(p, v, i);
        if first_variant(p, v) is Some {
            assert(es[first_variant(p, v)->0] == p[first_variant(p, v)->0]);
        }
        if 0 <= i < p.len() {
            assert(es[i] == p[i]);
        }
    }
}

impl EnumerationDescriptor {
    /// The index of the first entry whose value is `value`, if any.
    pub fn variant_of(&self, value: usize) -> (r: Option<usize>)
        ensures
            match r {
                Some(j) => first_variant(self@, value) == Some(j as int),
                None => first_variant(self@, value) == None::<int>,
            },
    {
        let mut i: usize = 0;
        while i < self.enumerations.len()
            invariant
                i <= self.enumerations.len(),
                first_variant(self@.take(i as int), value) == None::<int>,
            decreases self.enumerations.len() - i,
        {
            assert(self@.take(i as int + 1).drop_last() =~= self@.take(i as int));
            assert(self@.take(i as int + 1).last() == self@[i as int]);
            if self.enumerations[i].1 == value {
                proof {
                    lemma_first_variant_stays(self@, value, i as int + 1);
                }
                return Some(i);
            }
            i = i + 1;
        }
        assert(self@.take(i as int) =~= self@);
        None
    }
}

/// Once a prefix holds an entry with value `v`, the first such entry stays
/// the first.
pub proof fn lemma_first_variant_stays(es: Seq<(Seq<char>, usize)>, v: usize, k: int)
    requires
        0 <= k <= es.len(),
        first_variant(es.take(k), v) is Some,
    ensures
        first_variant(es, v) == first_variant(es.take(k), v),
    decreases es.len() - k,
{
    if k == es.len() {
        assert(es.take(k) =~= es);
    } else {
        assert(es.take(k + 1).drop_last() =~= es.take(k));
        lemma_first_variant_stays(es, v, k + 1);
    }
}

} // verus!
