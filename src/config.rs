//! The input of the `config!` value macro: a string literal naming an option,
//! optionally followed by a comma and a default expression, as in
//! `"theme.black", 0x0C0C0C`.
use vstd::prelude::*;
use vstd::string::{StrSliceExecFns, StringExecFns};

verus! {

/// The unescaped contents of the text, when it is exactly one Rust string
/// literal.
pub uninterp spec fn str_literal_value(text: Seq<char>) -> Option<Seq<char>>;

/// The text is exactly one Rust expression.
pub uninterp spec fn is_expression(text: Seq<char>) -> bool;

/// Relies on syn::parse_str::<syn::LitStr> and syn::LitStr::value: the text
/// parses as one string literal, and the literal's unescaped value comes back.
#[verifier::external_body]
fn str_literal_contents(text: &str) -> (r: Option<String>)
    ensures
        r is Some <==> str_literal_value(text@) is Some,
        r matches Some(v) ==> v@ == str_literal_value(text@).unwrap(),
{
    syn::parse_str::<syn::LitStr>(text).ok().map(|lit| lit.value())
}

/// Relies on syn::parse_str::<syn::Expr>: whether the whole text parses as one
/// expression.
#[verifier::external_body]
fn parses_as_expression(text: &str) -> (r: bool)
    ensures
        r == is_expression(text@),
{
    syn::parse_str::<syn::Expr>(text).is_ok()
}

/// Whitespace between tokens.
pub open spec fn is_space(c: char) -> bool {
    c == ' ' || c == '\t' || c == '\n' || c == '\r'
}

/// The first position at or after `i` that holds no whitespace.
pub open spec fn skip_space(s: Seq<char>, i: int) -> int
    decreases s.len() - i,
{
    if 0 <= i < s.len() && is_space(s[i]) {
        skip_space(s, i + 1)
    } else {
        i
    }
}

/// The position of the quote that closes a string literal whose contents
/// start at `i`; a backslash escapes the character after it.
pub open spec fn closing_quote(s: Seq<char>, i: int) -> Option<int>
    decreases s.len() - i,
{
    if i < 0 || i >= s.len() {
        None
    } else if s[i] == '\\' {
        if i + 1 >= s.len() {
            None
        } else {
            closing_quote(s, i + 2)
        }
    } else if s[i] == '"' {
        Some(i)
    } else {
        closing_quote(s, i + 1)
    }
}

/// The three parts of the macro input.
pub struct ValueMacroParts {
    /// The option's string literal, quotes included.
    pub literal: String,
    /// Character position of the comma, if there is one.
    pub comma: Option<usize>,
    /// The text after the comma, unless it is empty or only whitespace.
    pub default: Option<String>,
}

/// The split of an input into literal, comma and default text, if it has that
/// shape: the literal's text, the comma's position, and the text after the
/// comma unless that is blank.
pub open spec fn spec_split(s: Seq<char>) -> Option<(Seq<char>, Option<int>, Option<Seq<char>>)> {
    let i0 = skip_space(s, 0);
    if i0 >= s.len() || s[i0] != '"' {
        None
    } else {
        match closing_quote(s, i0 + 1) {
            None => None,
            Some(j) => {
                let lit = s.subrange(i0, j + 1);
                let k = skip_space(s, j + 1);
                if k >= s.len() {
                    Some((lit, None, None))
                } else if s[k] == ',' {
                    if skip_space(s, k + 1) >= s.len() {
                        Some((lit, Some(k), None))
                    } else {
                        Some((lit, Some(k), Some(s.subrange(k + 1, s.len() as int))))
                    }
                } else {
                    None
                }
            },
        }
    }
}

/// Whether `c` is whitespace between tokens.
fn is_space_char(c: char) -> (r: bool)
    ensures
        r == is_space(c),
{
    c == ' ' || c == '\t' || c == '\n' || c == '\r'
}

/// The position after the whitespace that starts at `i`.
fn skip_space_from(s: &str, n: usize, i: usize) -> (r: usize)
    requires
        n == s@.len(),
        i <= n,
    ensures
        r as int == skip_space(s@, i as int),
        i <= r <= n,
{
    let mut k = i;
    while k < n && is_space_char(s.get_char(k))
        invariant
            n == s@.len(),
            i <= k <= n,
            skip_space(s@, k as int) == skip_space(s@, i as int),
        decreases n - k,
    {
        k = k + 1;
    }
    k
}

/// The position of the quote that closes a string literal whose contents
/// start at `start`.
fn find_closing_quote(s: &str, n: usize, start: usize) -> (r: Option<usize>)
    requires
        n == s@.len(),
        start <= n,
    ensures
        closing_quote(s@, start as int) == match r {
            Some(j) => Some(j as int),
            None => None,
        },
        r matches Some(j) ==> start <= j < n,
{
    let mut j = start;
    while j < n
        invariant
            n == s@.len(),
            start <= j <= n,
            closing_quote(s@, j as int) == closing_quote(s@, start as int),
        decreases n - j,
    {
        let c = s.get_char(j);
        if c == '"' {
            return Some(j);
        } else if c == '\\' {
            j = if j + 1 < n {
                j + 2
            } else {
                n
            };
        } else {
            j = j + 1;
        }
    }
    None
}

/// Splits the macro input into its literal, its comma and its default text.
/// `None` when the input does not start with a closed string literal, or
/// something other than a comma follows it.
pub fn split_value_macro_input(input: &str) -> (r: Option<ValueMacroParts>)
    ensures
        spec_split(input@) is None <==> r is None,
        r matches Some(p) ==> {
            let (lit, comma, default) = spec_split(input@).unwrap();
            &&& p.literal@ == lit
            &&& comma == match p.comma {
                Some(k) => Some(k as int),
                None => None,
            }
            &&& default == match p.default {
                Some(d) => Some(d@),
                None => None,
            }
        },
{
    let n = input.unicode_len();
    let i0 = skip_space_from(input, n, 0);
    if i0 >= n || input.get_char(i0) != '"' {
        return None;
    }
    let j = match find_closing_quote(input, n, i0 + 1) {
        Some(j) => j,
        None => {
            return None;
        },
    };
    let literal = String::from_str(input.substring_char(i0, j + 1));
    let k = skip_space_from(input, n, j + 1);
    if k >= n {
        return Some(ValueMacroParts { literal, comma: None, default: None });
    }
    if input.get_char(k) != ',' {
        return None;
    }
    let d0 = skip_space_from(input, n, k + 1);
    if d0 >= n {
        Some(ValueMacroParts { literal, comma: Some(k), default: None })
    } else {
        let default = String::from_str(input.substring_char(k + 1, n));
        Some(ValueMacroParts { literal, comma: Some(k), default: Some(default) })
    }
}

/// The option named by the macro: a string literal.
#[derive(Debug)]
pub struct StrLiteral {
    /// The literal as written, quotes included.
    pub text: String,
    /// The literal's unescaped value.
    pub value: String,
}

impl StrLiteral {
    /// The literal's unescaped value.
    pub fn value(&self) -> (r: String)
        ensures
            r@ == self.value@,
    {
        self.value.clone()
    }
}

/// The comma after the option.
#[derive(Clone, Copy, Debug, PartialEq, Eq, Structural)]
pub struct Comma {
    /// Character position of the comma in the input.
    pub offset: usize,
}

/// The default value: an expression, kept as its text.
#[derive(Debug)]
pub struct DefaultExpr {
    pub text: String,
}

/// Input to the `config!` value macro.
#[derive(Debug)]
pub struct ValueMacroInput {
    pub option: StrLiteral,
    pub comma: Option<Comma>,
    pub default: Option<DefaultExpr>,
}

/// Why the macro input was rejected.
#[derive(Clone, Copy, Debug, PartialEq, Eq, Structural)]
pub enum ConfigInputError {
    /// No closed string literal, or something other than a comma after it.
    Shape,
    /// The literal is not a valid Rust string literal.
    Literal,
    /// The text after the comma is not one expression.
    Default,
}

impl ValueMacroInput {
    /// Assembles the input from its split parts, the decoded literal value,
    /// and whether the default text is one expression.
    pub fn from_parts(parts: ValueMacroParts, value: Option<String>, default_is_expr: bool) -> (r: Result<ValueMacroInput, ConfigInputError>)
        ensures
            value is None ==> r == Err::<ValueMacroInput, ConfigInputError>(ConfigInputError::Literal),
            value is Some && parts.default is Some && !default_is_expr ==> r == Err::<
                ValueMacroInput,
                ConfigInputError,
            >(ConfigInputError::Default),
            value is Some && (parts.default is None || default_is_expr) ==> (r matches Ok(m) && {
                &&& m.option.text@ == parts.literal@
                &&& m.option.value@ == value.unwrap()@
                &&& m.comma == match parts.comma {
                    Some(k) => Some(Comma { offset: k }),
                    None => None,
                }
                &&& m.default is Some == parts.default is Some
                &&& m.default matches Some(d) ==> d.text@ == parts.default.unwrap()@
            }),
    {
        let value = match value {
            Some(v) => v,
            None => {
                return Err(ConfigInputError::Literal);
            },
        };
        let default = match parts.default {
            Some(text) => {
                if !default_is_expr {
                    return Err(ConfigInputError::Default);
                }
                Some(DefaultExpr { text })
            },
            None => None,
        };
        let comma = match parts.comma {
            Some(k) => Some(Comma { offset: k }),
            None => None,
        };
        Ok(ValueMacroInput { option: StrLiteral { text: parts.literal, value }, comma, default })
    }

    /// Parses the macro input: a string literal, then optionally a comma and a
    /// default expression.
    pub fn parse_str(input: &str) -> (r: Result<ValueMacroInput, ConfigInputError>)
        ensures
            spec_split(input@) is None ==> r == Err::<ValueMacroInput, ConfigInputError>(
                ConfigInputError::Shape,
            ),
            spec_split(input@) matches Some((lit, comma, default)) ==> {
                &&& str_literal_value(lit) is None ==> r == Err::<ValueMacroInput, ConfigInputError>(
                    ConfigInputError::Literal,
                )
                &&& str_literal_value(lit) is Some && default is Some && !is_expression(default.unwrap()) ==> r
                    == Err::<ValueMacroInput, ConfigInputError>(ConfigInputError::Default)
                &&& str_literal_value(lit) is Some && (default is None || is_expression(default.unwrap()))
                    ==> (r matches Ok(m) && {
                    &&& m.option.text@ == lit
                    &&& m.option.value@ == str_literal_value(lit).unwrap()
                    &&& (m.comma is Some <==> comma is Some)
                    &&& m.comma matches Some(c) ==> c.offset as int == comma.unwrap()
                    &&& (m.default is Some <==> default is Some)
                    &&& m.default matches Some(d) ==> d.text@ == default.unwrap()
                })
            },
    {
        let parts = match split_value_macro_input(input) {
            Some(p) => p,
            None => {
                return Err(ConfigInputError::Shape);
            },
        };
        let value = str_literal_contents(parts.literal.as_str());
        let default_is_expr = match &parts.default {
            Some(d) => parses_as_expression(d.as_str()),
            None => true,
        };
        ValueMacroInput::from_parts(parts, value, default_is_expr)
    }
}

} // verus!
