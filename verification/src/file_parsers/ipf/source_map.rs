//! A tree of named values that describes the fields of a parsed image file, for display.
use vstd::prelude::*;

verus! {

/// The character of a digit value below 36: `0` to `9`, then `A` onwards.
pub open spec fn digit_char(d: nat) -> char {
    if d < 10 {
        (48 + d) as char
    } else {
        (55 + d) as char
    }
}

/// The digits of `v` in base `base`, most significant first, with no leading zeros (a
/// single `0` for zero).
pub open spec fn digits(v: nat, base: nat) -> Seq<char>
    decreases v,
{
    if base < 2 || v < base {
        seq![digit_char(v)]
    } else {
        proof {
            vstd::arithmetic::div_mod::lemma_div_decreases(v as int, base as int);
        }
        digits(v / base, base).push(digit_char(v % base))
    }
}

/// How a number is shown.
#[derive(Clone, Copy, Debug, PartialEq, Eq, Structural)]
pub enum Representation {
    Decimal,
    Hexadecimal,
    Binary,
}

/// The text that shows `value` in representation `r`.
pub open spec fn represent(r: Representation, value: u32) -> Seq<char> {
    match r {
        Representation::Decimal => digits(value as nat, 10),
        Representation::Hexadecimal => "0x"@ + digits(value as nat, 16),
        Representation::Binary => "0b"@ + digits(value as nat, 2),
    }
}

/// The one character text of a digit value below 16.
fn digit_str(d: u32) -> (r: &'static str)
    requires
        d < 16,
    ensures
        r@ == seq![digit_char(d as nat)],
{
    match d {
        0 => { proof { reveal_strlit("0"); } "0" },
        1 => { proof { reveal_strlit("1"); } "1" },
        2 => { proof { reveal_strlit("2"); } "2" },
        3 => { proof { reveal_strlit("3"); } "3" },
        4 => { proof { reveal_strlit("4"); } "4" },
        5 => { proof { reveal_strlit("5"); } "5" },
        6 => { proof { reveal_strlit("6"); } "6" },
        7 => { proof { reveal_strlit("7"); } "7" },
        8 => { proof { reveal_strlit("8"); } "8" },
        9 => { proof { reveal_strlit("9"); } "9" },
        10 => { proof { reveal_strlit("A"); } "A" },
        11 => { proof { reveal_strlit("B"); } "B" },
        12 => { proof { reveal_strlit("C"); } "C" },
        13 => { proof { reveal_strlit("D"); } "D" },
        14 => { proof { reveal_strlit("E"); } "E" },
        _ => { proof { reveal_strlit("F"); } "F" },
    }
}

/// Append the digits of `v` in base `base` (2, 10 or 16) to `s`.
fn push_digits(s: &mut String, v: u32, base: u32)
    requires
        2 <= base <= 16,
    ensures
        final(s)@ == old(s)@ + digits(v as nat, base as nat),
    decreases v,
{
    if v < base {
        s.append(digit_str(v));
    } else {
        assert(v / base < v) by (nonlinear_arith)
            requires v >= base, base >= 2;
        push_digits(s, v / base, base);
        s.append(digit_str(v % base));
        assert(final(s)@ =~= old(s)@ + digits(v as nat, base as nat));
    }
}

/// `prefix` followed by the digits of `value` in base `base`.
fn format_in_base(prefix: &str, value: u32, base: u32) -> (r: String)
    requires
        2 <= base <= 16,
    ensures
        r@ == prefix@ + digits(value as nat, base as nat),
{
    let mut s = String::from_str(prefix);
    push_digits(&mut s, value, base);
    s
}

impl Representation {
    /// The text that shows `value` in this representation.
    pub fn format(&self, value: u32) -> (r: String)
        ensures
            r@ == represent(*self, value),
    {
        match self {
            Representation::Decimal => {
                proof { reveal_strlit(""); }
                format_in_base("", value, 10)
            },
            Representation::Hexadecimal => {
                proof { reveal_strlit("0x"); }
                format_in_base("0x", value, 16)
            },
            Representation::Binary => {
                proof { reveal_strlit("0b"); }
                format_in_base("0b", value, 2)
            },
        }
    }
}

/// A value of a field: a number with the way to show it, or text.
#[derive(Clone, Debug)]
pub enum SourceData {
    U32(u32, Representation),
    U16(u16, Representation),
    U8(u8, Representation),
    String(String),
}

/// The text that shows a value.
pub open spec fn source_data_text(d: SourceData) -> Seq<char> {
    match d {
        SourceData::U32(v, r) => represent(r, v),
        SourceData::U16(v, r) => represent(r, v as u32),
        SourceData::U8(v, r) => represent(r, v as u32),
        SourceData::String(s) => s@,
    }
}

impl SourceData {
    /// The text that shows the value.
    pub fn to_string(&self) -> (r: String)
        ensures
            r@ == source_data_text(*self),
    {
        match self {
            SourceData::U32(v, repr) => repr.format(*v),
            SourceData::U16(v, repr) => repr.format(*v as u32),
            SourceData::U8(v, repr) => repr.format(*v as u32),
            SourceData::String(s) => s.clone(),
        }
    }
}

/// A node of the tree: a named field, its value if it has one, whether the parser found it
/// valid, and the fields under it.
#[derive(Debug)]
pub struct SourceMapNode {
    pub name: String,
    pub data: Option<SourceData>,
    pub valid: bool,
    pub children: Vec<SourceMapNode>,
}

impl SourceMapNode {
    /// A node with no children.
    pub fn new(name: &str, data: Option<SourceData>, valid: bool) -> (r: SourceMapNode)
        ensures
            r.name@ == name@,
            r.data == data,
            r.valid == valid,
            r.children@ == Seq::<SourceMapNode>::empty(),
    {
        SourceMapNode { name: name.to_owned(), data, valid, children: Vec::new() }
    }

    /// Append `child` to the node's children.
    pub fn add_child(&mut self, child: SourceMapNode)
        ensures
            final(self).name == old(self).name,
            final(self).data == old(self).data,
            final(self).valid == old(self).valid,
            final(self).children@ == old(self).children@.push(child),
    {
        self.children.push(child);
    }
}

} // verus!
