//! Ingredients ("indigents") and their dietary categories, and the parsing of
//! bulk-import lines into ingredients.

use vstd::prelude::*;
use vstd::string::StrSliceExecFns;
use crate::text::find_char_from;
use crate::text::str_eq;

verus! {

/// Dietary category of an ingredient.
#[derive(Debug, Clone, Copy, PartialEq, Eq, Structural)]
pub enum IndigentType {
    Vegetable,
    Fruit,
    Seed,
    Dairy,
    Meat,
    Fish,
    Other,
}

/// The category a numeric wire code stands for; every code outside 1..=6 maps
/// to `Other`.
pub open spec fn spec_code_to_type(code: u32) -> IndigentType {
    if code == 1 {
        IndigentType::Vegetable
    } else if code == 2 {
        IndigentType::Fruit
    } else if code == 3 {
        IndigentType::Seed
    } else if code == 4 {
        IndigentType::Dairy
    } else if code == 5 {
        IndigentType::Meat
    } else if code == 6 {
        IndigentType::Fish
    } else {
        IndigentType::Other
    }
}

/// The numeric wire code of a category, 1..=7.
pub open spec fn spec_type_to_code(t: IndigentType) -> u32 {
    match t {
        IndigentType::Vegetable => 1,
        IndigentType::Fruit => 2,
        IndigentType::Seed => 3,
        IndigentType::Dairy => 4,
        IndigentType::Meat => 5,
        IndigentType::Fish => 6,
        IndigentType::Other => 7,
    }
}

impl IndigentType {
    /// Decodes a numeric category code; codes outside 1..=6 fall back to
    /// `Other`.
    pub fn from_u32(input: u32) -> (r: IndigentType)
        ensures
            r == spec_code_to_type(input),
    {
        match input {
            1 => IndigentType::Vegetable,
            2 => IndigentType::Fruit,
            3 => IndigentType::Seed,
            4 => IndigentType::Dairy,
            5 => IndigentType::Meat,
            6 => IndigentType::Fish,
            _ => IndigentType::Other,
        }
    }

    /// Encodes the category as its numeric code.
    pub fn to_u32(&self) -> (r: u32)
        ensures
            r == spec_type_to_code(*self),
    {
        match self {
            IndigentType::Vegetable => 1,
            IndigentType::Fruit => 2,
            IndigentType::Seed => 3,
            IndigentType::Dairy => 4,
            IndigentType::Meat => 5,
            IndigentType::Fish => 6,
            IndigentType::Other => 7,
        }
    }
}

impl Default for IndigentType {
    /// The fallback category.
    fn default() -> (r: Self)
        ensures
            r == IndigentType::Other,
    {
        IndigentType::Other
    }
}

/// Encoding a category and decoding the code again gives the category back:
/// the numeric wire mapping loses nothing.
pub proof fn lemma_type_code_round_trip(t: IndigentType)
    ensures
        spec_code_to_type(spec_type_to_code(t)) == t,
{
}

/// Decoding a code and encoding the result gives the code back for the six
/// named categories; every other code decodes to `Other`, whose code is 7.
pub proof fn lemma_code_type_round_trip(code: u32)
    ensures
        1 <= code <= 6 ==> spec_type_to_code(spec_code_to_type(code)) == code,
        !(1 <= code <= 6) ==> spec_code_to_type(code) == IndigentType::Other,
{
}

/// The category a textual tag stands for. The seven category names are
/// matched case-sensitively, and every other tag maps to `Other`.
pub open spec fn spec_type_of_name(s: Seq<char>) -> IndigentType {
    if s == "Vegetable"@ {
        IndigentType::Vegetable
    } else if s == "Fruit"@ {
        IndigentType::Fruit
    } else if s == "Seed"@ {
        IndigentType::Seed
    } else if s == "Dairy"@ {
        IndigentType::Dairy
    } else if s == "Meat"@ {
        IndigentType::Meat
    } else if s == "Fish"@ {
        IndigentType::Fish
    } else {
        IndigentType::Other
    }
}

impl IndigentType {
    /// Decodes a textual category tag; unrecognized tags fall back to
    /// `Other`.
    pub fn from_name(name: &str) -> (r: IndigentType)
        ensures
            r == spec_type_of_name(name@),
    {
        if str_eq(name, "Vegetable") {
            IndigentType::Vegetable
        } else if str_eq(name, "Fruit") {
            IndigentType::Fruit
        } else if str_eq(name, "Seed") {
            IndigentType::Seed
        } else if str_eq(name, "Dairy") {
            IndigentType::Dairy
        } else if str_eq(name, "Meat") {
            IndigentType::Meat
        } else if str_eq(name, "Fish") {
            IndigentType::Fish
        } else {
            IndigentType::Other
        }
    }
}

/// Why a bulk-import line was rejected. A malformed line is reported as an
/// error rather than skipped, so that a partial data set is never imported
/// unnoticed.
#[derive(Debug, Clone, Copy, PartialEq, Eq, Structural)]
pub enum ParseError {
    /// The line holds no `;` at all.
    NoDelimiter,
    /// The line holds more than one `;`, so it has more than two columns.
    ExtraDelimiter,
}

/// Holds when position `k` carries the one and only `;` of `s`: the line
/// splits into exactly two columns, around `k`.
pub open spec fn is_single_split(s: Seq<char>, k: int) -> bool {
    &&& 0 <= k < s.len()
    &&& s[k] == ';'
    &&& forall|j: int| 0 <= j < s.len() && j != k ==> s[j] != ';'
}

/// A named food ingredient with a dietary category tag, stored and looked up
/// by its numeric identifier.
#[derive(Debug, Clone)]
pub struct Indigent {
    name: String,
    indigent_id: u32,
    indigent_type: IndigentType,
}

impl Indigent {
    /// The ingredient's name, as a sequence of characters.
    pub closed spec fn spec_name(&self) -> Seq<char> {
        self.name@
    }

    /// The ingredient's identifier; 0 is the "unassigned" sentinel.
    pub closed spec fn spec_id(&self) -> u32 {
        self.indigent_id
    }

    /// The ingredient's dietary category.
    pub closed spec fn spec_type(&self) -> IndigentType {
        self.indigent_type
    }

    /// Creates a new ingredient.
    pub fn new(name: &str, indigent_id: u32, indigent_type: IndigentType) -> (r: Indigent)
        ensures
            r.spec_name() == name@,
            r.spec_id() == indigent_id,
            r.spec_type() == indigent_type,
    {
        Indigent { name: name.to_owned(), indigent_id, indigent_type }
    }

    /// The ingredient's name.
    pub fn name(&self) -> (r: &str)
        ensures
            r@ == self.spec_name(),
    {
        self.name.as_str()
    }

    /// The identifier, kept behind an accessor because it is assigned
    /// automatically.
    pub fn indigent_id(&self) -> (r: u32)
        ensures
            r == self.spec_id(),
    {
        self.indigent_id
    }

    /// The ingredient's dietary category.
    pub fn indigent_type(&self) -> (r: IndigentType)
        ensures
            r == self.spec_type(),
    {
        self.indigent_type
    }

    /// Parses one line of a semicolon-delimited two-column bulk-import
    /// source, `name;type`, into an ingredient with identifier 0. The type
    /// column is matched case-sensitively against the seven category names
    /// and falls back to `Other`; a line without exactly two columns is
    /// rejected.
    pub fn from_line(line: &str) -> (r: Result<Indigent, ParseError>)
        ensures
            r is Ok <==> exists|k: int| is_single_split(line@, k),
            r matches Ok(ind) ==> exists|k: int|
                is_single_split(line@, k)
                    && ind.spec_name() == line@.subrange(0, k)
                    && ind.spec_type() == spec_type_of_name(
                        line@.subrange(k + 1, line@.len() as int),
                    )
                    && ind.spec_id() == 0,
            r == Err::<Indigent, ParseError>(ParseError::NoDelimiter)
                <==> (forall|j: int| 0 <= j < line@.len() ==> line@[j] != ';'),
            r == Err::<Indigent, ParseError>(ParseError::ExtraDelimiter)
                <==> (exists|j: int, k: int|
                    0 <= j < k < line@.len() && line@[j] == ';' && line@[k] == ';'),
    {
        let len = line.unicode_len();
        match find_char_from(line, ';', 0) {
            None => {
                proof {
                    assert forall|k: int| !is_single_split(line@, k) by {
                        if 0 <= k < line@.len() {
                            assert(line@[k] != ';');
                        }
                    }
                }
                Err(ParseError::NoDelimiter)
            },
            Some(first) => {
                match find_char_from(line, ';', first + 1) {
                    Some(second) => {
                        proof {
                            assert(line@[first as int] == ';' && line@[second as int] == ';'
                                && first < second < line@.len());
                            assert forall|k: int| !is_single_split(line@, k) by {
                                if is_single_split(line@, k) {
                                    assert(line@[first as int] == ';');
                                    assert(line@[second as int] == ';');
                                }
                            }
                        }
                        Err(ParseError::ExtraDelimiter)
                    },
                    None => {
                        proof {
                            assert forall|j: int|
                                0 <= j < line@.len() && j != first implies line@[j] != ';' by {
                                if j < first {
                                    assert(line@[j] != ';');
                                } else {
                                    assert(first + 1 <= j < line@.len());
                                }
                            }
                            assert(is_single_split(line@, first as int));
                        }
                        let name = line.substring_char(0, first);
                        let tag = line.substring_char(first + 1, len);
                        let ind = Indigent::new(name, 0, IndigentType::from_name(tag));
                        proof {
                            assert forall|j: int, k: int|
                                0 <= j < k < line@.len() implies !(line@[j] == ';'
                                && line@[k] == ';') by {
                                if line@[j] == ';' && line@[k] == ';' {
                                    assert(j == first as int);
                                    assert(k == first as int);
                                }
                            }
                        }
                        Ok(ind)
                    },
                }
            },
        }
    }

    /// Renames the ingredient; the identifier and category stay as they are.
    pub fn set_name(&mut self, name: &str)
        ensures
            final(self).spec_name() == name@,
            final(self).spec_id() == old(self).spec_id(),
            final(self).spec_type() == old(self).spec_type(),
    {
        self.name = name.to_owned();
    }
}

/// Two ingredients are the same ingredient exactly when their identifiers
/// match.
impl PartialEq for Indigent {
    fn eq(&self, other: &Self) -> (r: bool) {
        self.indigent_id == other.indigent_id
    }
}

impl vstd::std_specs::cmp::PartialEqSpecImpl for Indigent {
    open spec fn obeys_eq_spec() -> bool {
        true
    }

    open spec fn eq_spec(&self, other: &Indigent) -> bool {
        self.spec_id() == other.spec_id()
    }
}

} // verus!
