use vstd::prelude::*;
use crate::ast::clone_string;
use crate::error::TailwindError;
use crate::text::{all_digits, digits_value, join_seq, join_strings, parse_usize, str_eq};

verus! {

/// A raw bracketed value carried through resolution, with the shape checks
/// the subsystem resolvers need.
#[derive(Debug)]
pub struct TailwindArbitrary {
    /// The raw text between the brackets.
    pub item: String,
}

/// Whether `s` holds at least one entry whose characters equal `t`.
pub fn str_list_contains(s: &Vec<&str>, t: &str) -> (r: bool)
    ensures
        r == s.deep_view().contains(t@),
{
    let mut i: usize = 0;
    while i < s.len()
        invariant
            0 <= i <= s@.len(),
            forall|j: int| 0 <= j < i ==> s.deep_view()[j] != t@,
        decreases s@.len() - i,
    {
        if str_eq(s[i], t) {
            assert(s.deep_view()[i as int] == t@);
            assert(s.deep_view().contains(t@));
            return true;
        }
        i += 1;
    }
    proof {
        if s.deep_view().contains(t@) {
            let k = choose|k: int| 0 <= k < s.deep_view().len() && s.deep_view()[k] == t@;
            assert(s.deep_view()[k] != t@);
        }
    }
    false
}

impl TailwindArbitrary {
    /// Wraps raw text as an arbitrary value.
    pub fn of_str(s: &str) -> (r: TailwindArbitrary)
        ensures
            r.item@ == s@,
    {
        TailwindArbitrary { item: s.to_owned() }
    }

    /// A copy of another arbitrary value.
    pub fn new(other: &TailwindArbitrary) -> (r: TailwindArbitrary)
        ensures
            r.item@ == other.item@,
    {
        TailwindArbitrary { item: clone_string(&other.item) }
    }

    /// Whether no text was written.
    pub fn is_empty(&self) -> (r: bool)
        ensures
            r == (self.item@.len() == 0),
    {
        self.item.as_str().is_empty()
    }

    /// The raw text.
    pub fn as_str(&self) -> (r: &str)
        ensures
            r@ == self.item@,
    {
        self.item.as_str()
    }

    /// The raw text as an owned class fragment.
    pub fn get_class(&self) -> (r: String)
        ensures
            r@ == self.item@,
    {
        clone_string(&self.item)
    }

    /// Reads the text as an unsigned whole number; any other shape is a
    /// value error.
    pub fn as_integer(&self) -> (r: Result<usize, TailwindError>)
        ensures
            r matches Ok(n) ==> (self.item@.len() > 0 && all_digits(self.item@) && n
                == digits_value(self.item@) && digits_value(self.item@) <= usize::MAX),
            r is Err ==> !(self.item@.len() > 0 && all_digits(self.item@) && digits_value(
                self.item@,
            ) <= usize::MAX),
            r matches Err(e) ==> (e matches TailwindError::Value { message } && message@
                == self.item@),
    {
        match parse_usize(self.item.as_str()) {
            Some(n) => Ok(n),
            None => Err(TailwindError::Value { message: clone_string(&self.item) }),
        }
    }
}

/// A value that is either a keyword from a fixed vocabulary or a raw
/// arbitrary text.
#[derive(Debug)]
pub enum StandardValue {
    Keyword(String),
    Arbitrary(TailwindArbitrary),
}

/// The text a standard value writes into a property.
pub open spec fn standard_value_text(v: StandardValue) -> Seq<char> {
    match v {
        StandardValue::Keyword(s) => s@,
        StandardValue::Arbitrary(a) => a.item@,
    }
}

impl StandardValue {
    /// Reads a suffix for a keyword-only property: an empty suffix takes the
    /// arbitrary value, anything else must be a keyword of `valid` once
    /// joined with `-`. An empty suffix with no arbitrary value, and a
    /// joined suffix outside `valid`, are value errors.
    pub fn parser(id: &str, pattern: &Vec<String>, valid: &Vec<&str>, arbitrary: &TailwindArbitrary)
        -> (r: Result<StandardValue, TailwindError>)
        ensures
            pattern@.len() == 0 && arbitrary.item@.len() > 0 ==> (r matches Ok(v) && v
                matches StandardValue::Arbitrary(a) && a.item@ == arbitrary.item@),
            pattern@.len() == 0 && arbitrary.item@.len() == 0 ==> (r matches Err(e) && e
                matches TailwindError::Value { message } && message@ == id@),
            pattern@.len() > 0 ==> ({
                let joined = join_seq(pattern.deep_view(), "-"@);
                if valid.deep_view().contains(joined) {
                    r matches Ok(v) && v matches StandardValue::Keyword(s) && s@ == joined
                } else {
                    r matches Err(e) && e matches TailwindError::Syntax { message } && message@
                        == id@ + ": "@ + joined
                }
            }),
    {
        if pattern.len() == 0 {
            Self::parse_arbitrary(id, arbitrary)
        } else {
            Self::parse_keyword(pattern, id, valid)
        }
    }

    /// Takes the arbitrary value as it stands; an empty one is a value
    /// error.
    pub fn parse_arbitrary(id: &str, arbitrary: &TailwindArbitrary) -> (r: Result<
        StandardValue,
        TailwindError,
    >)
        ensures
            arbitrary.item@.len() > 0 ==> (r matches Ok(v) && v matches StandardValue::Arbitrary(a)
                && a.item@ == arbitrary.item@),
            arbitrary.item@.len() == 0 ==> (r matches Err(e) && e
                matches TailwindError::Value { message } && message@ == id@),
    {
        if arbitrary.is_empty() {
            Err(TailwindError::Value { message: id.to_owned() })
        } else {
            Ok(StandardValue::Arbitrary(TailwindArbitrary::new(arbitrary)))
        }
    }

    /// Joins the suffix with `-` and accepts it only as a keyword of
    /// `valid`; any other keyword is a syntax error naming the property and
    /// the keyword.
    pub fn parse_keyword(pattern: &Vec<String>, id: &str, valid: &Vec<&str>) -> (r: Result<
        StandardValue,
        TailwindError,
    >)
        ensures
            ({
                let joined = join_seq(pattern.deep_view(), "-"@);
                if valid.deep_view().contains(joined) {
                    r matches Ok(v) && v matches StandardValue::Keyword(s) && s@ == joined
                } else {
                    r matches Err(e) && e matches TailwindError::Syntax { message } && message@
                        == id@ + ": "@ + joined
                }
            }),
    {
        let joined = join_strings(pattern, "-");
        if str_list_contains(valid, joined.as_str()) {
            Ok(StandardValue::Keyword(joined))
        } else {
            let mut message = id.to_owned();
            message.append(": ");
            message.append(joined.as_str());
            Err(TailwindError::Syntax { message })
        }
    }

    /// The text this value writes into a property.
    pub fn get_properties(&self) -> (r: &str)
        ensures
            r@ == standard_value_text(*self),
    {
        match self {
            StandardValue::Keyword(s) => s.as_str(),
            StandardValue::Arbitrary(a) => a.item.as_str(),
        }
    }

    /// The text this value shows in a class name.
    pub fn get_value(&self) -> (r: &str)
        ensures
            r@ == standard_value_text(*self),
    {
        match self {
            StandardValue::Keyword(s) => s.as_str(),
            StandardValue::Arbitrary(a) => a.item.as_str(),
        }
    }

    /// Writes `class-value`, the way this value stands in a full class name.
    pub fn write_class(&self, class: &str) -> (r: String)
        ensures
            r@ == class@ + "-"@ + standard_value_text(*self),
    {
        let mut out = String::new();
        out.append(class);
        out.append("-");
        out.append(self.get_value());
        out
    }
}

/// A keyword-only property instance: the property it writes and the value.
#[derive(Debug)]
pub struct KeywordInstance {
    /// The property this instance writes.
    pub pattern: String,
    /// The value written.
    pub value: StandardValue,
}

impl KeywordInstance {
    /// Reads a keyword-only instance for the property `id`: an empty suffix
    /// takes the arbitrary value, anything else must be a keyword of
    /// `valid`.
    pub fn parse(id: &str, pattern: &Vec<String>, valid: &Vec<&str>, arbitrary: &TailwindArbitrary)
        -> (r: Result<KeywordInstance, TailwindError>)
        ensures
            r matches Ok(k) ==> (k.pattern@ == id@),
            pattern@.len() == 0 && arbitrary.item@.len() > 0 ==> (r matches Ok(k) && k.value
                matches StandardValue::Arbitrary(a) && a.item@ == arbitrary.item@),
            pattern@.len() == 0 && arbitrary.item@.len() == 0 ==> (r matches Err(e) && e
                matches TailwindError::Value { message } && message@ == id@),
            pattern@.len() > 0 ==> ({
                let joined = join_seq(pattern.deep_view(), "-"@);
                if valid.deep_view().contains(joined) {
                    r matches Ok(k) && k.value matches StandardValue::Keyword(s) && s@ == joined
                } else {
                    r matches Err(e) && e matches TailwindError::Syntax { message } && message@
                        == id@ + ": "@ + joined
                }
            }),
    {
        match StandardValue::parser(id, pattern, valid, arbitrary) {
            Ok(value) => Ok(KeywordInstance { pattern: id.to_owned(), value }),
            Err(e) => Err(e),
        }
    }
}

/// A property whose suffix is a whole number, or a raw arbitrary value.
#[derive(Debug)]
pub enum IntegerOnly {
    Number(usize),
    Arbitrary(TailwindArbitrary),
}

impl IntegerOnly {
    /// Reads an integer-only suffix: an empty suffix takes the arbitrary
    /// value, a single entry must be a whole number, and a longer suffix is
    /// a value error.
    pub fn parser(id: &str, pattern: &Vec<String>, arbitrary: &TailwindArbitrary) -> (r: Result<
        IntegerOnly,
        TailwindError,
    >)
        ensures
            pattern@.len() == 0 && arbitrary.item@.len() > 0 ==> (r matches Ok(v) && v
                matches IntegerOnly::Arbitrary(a) && a.item@ == arbitrary.item@),
            pattern@.len() == 0 && arbitrary.item@.len() == 0 ==> (r matches Err(e) && e is Value),
            pattern@.len() == 1 ==> ({
                let digits = pattern.deep_view()[0];
                if digits.len() > 0 && all_digits(digits) && digits_value(digits) <= usize::MAX {
                    r matches Ok(v) && v matches IntegerOnly::Number(n) && n == digits_value(
                        digits,
                    )
                } else {
                    r matches Err(e) && e matches TailwindError::Value { message } && message@
                        == digits
                }
            }),
            pattern@.len() > 1 ==> (r matches Err(e) && e matches TailwindError::Value { message }
                && message@ == id@),
    {
        if pattern.len() == 0 {
            Self::parse_arbitrary(id, arbitrary)
        } else if pattern.len() == 1 {
            let single = TailwindArbitrary::of_str(pattern[0].as_str());
            match single.as_integer() {
                Ok(n) => Ok(IntegerOnly::Number(n)),
                Err(e) => Err(e),
            }
        } else {
            Err(TailwindError::Value { message: id.to_owned() })
        }
    }

    /// Takes the arbitrary value as it stands; an empty one is a value
    /// error.
    pub fn parse_arbitrary(id: &str, arbitrary: &TailwindArbitrary) -> (r: Result<
        IntegerOnly,
        TailwindError,
    >)
        ensures
            arbitrary.item@.len() > 0 ==> (r matches Ok(v) && v matches IntegerOnly::Arbitrary(a)
                && a.item@ == arbitrary.item@),
            arbitrary.item@.len() == 0 ==> (r matches Err(e) && e
                matches TailwindError::Value { message } && message@ == id@),
    {
        if arbitrary.is_empty() {
            Err(TailwindError::Value { message: id.to_owned() })
        } else {
            Ok(IntegerOnly::Arbitrary(TailwindArbitrary::new(arbitrary)))
        }
    }
}

} // verus!
