//! The error that parsing reports, and the text of its messages.

use vstd::prelude::*;
use vstd::string::StringExecFns;

verus! {

/// What `{:?}` writes for a string: the string between double quotes, with
/// escapes in place of the characters that cannot stand there as they are.
pub uninterp spec fn debug_text(s: Seq<char>) -> Seq<char>;

/// The characters of an optional string.
pub open spec fn token_view(token: Option<&str>) -> Option<Seq<char>> {
    match token {
        Some(s) => Some(s@),
        None => None,
    }
}

/// What a call gave, with the value or the error replaced by its view.
pub open spec fn outcome<T: View>(r: Result<T, ParseQueryError>) -> Result<T::V, Seq<char>> {
    match r {
        Ok(value) => Ok(value@),
        Err(e) => Err(e@),
    }
}

/// What `{:?}` writes for an optional value, given what it writes for the
/// value.
pub open spec fn option_text(inner: Option<Seq<char>>) -> Seq<char> {
    match inner {
        Some(text) => "Some("@ + text + ")"@,
        None => "None"@,
    }
}

/// What `{:?}` writes for an optional string.
pub open spec fn debug_option(token: Option<Seq<char>>) -> Seq<char> {
    option_text(
        match token {
            Some(s) => Some(debug_text(s)),
            None => None,
        },
    )
}

/// The message for a token that is no field name.
pub open spec fn field_error(name: Seq<char>) -> Seq<char> {
    "failed to parse field_name: "@ + name
}

/// The message for a clause whose tokens have no accepted shape, given the
/// texts that show the two tokens. It shows the pair, and then each of the
/// two again.
pub open spec fn clause_message(field_text: Seq<char>, order_text: Seq<char>) -> Seq<char> {
    "failed to parse ("@ + field_text + ", "@ + order_text + "): field("@ + field_text
        + ", order("@ + order_text + ")"@
}

/// The message for a clause whose tokens have no accepted shape. It shows the
/// tokens as `{:?}` writes them.
pub open spec fn clause_error(field: Option<Seq<char>>, order: Option<Seq<char>>) -> Seq<char> {
    clause_message(debug_option(field), debug_option(order))
}

/// A query that could not be parsed. It carries a message that names what was
/// refused.
#[derive(Debug)]
pub struct ParseQueryError(String);

impl View for ParseQueryError {
    type V = Seq<char>;

    /// The message.
    closed spec fn view(&self) -> Seq<char> {
        self.0@
    }
}

impl Clone for ParseQueryError {
    fn clone(&self) -> (copy: ParseQueryError)
        ensures
            copy@ == self@,
    {
        ParseQueryError(self.0.clone())
    }
}

/// Formats a string with `{:?}`, which is `<str as Debug>::fmt` of the
/// standard library. The text that comes out depends on the string alone; it
/// is known here only under the name `debug_text`.
#[verifier::external_body]
fn debug_string(s: &str) -> (r: String)
    ensures
        r@ == debug_text(s@),
{
    format!("{:?}", s)
}

/// Writes an optional value as `{:?}` does, given what it writes for the
/// value.
pub fn option_string(inner: Option<&str>) -> (r: String)
    ensures
        r@ == option_text(token_view(inner)),
{
    match inner {
        Some(text) => String::from_str("Some(").concat(text).concat(")"),
        None => String::from_str("None"),
    }
}

/// Writes an optional string as `{:?}` does.
fn debug_option_string(token: Option<&str>) -> (r: String)
    ensures
        r@ == debug_option(token_view(token)),
{
    match token {
        Some(s) => {
            let quoted = debug_string(s);
            option_string(Some(quoted.as_str()))
        },
        None => option_string(None),
    }
}

impl ParseQueryError {
    /// The error for a token that is no field name.
    pub fn invalid_field(name: &str) -> (e: ParseQueryError)
        ensures
            e@ == field_error(name@),
    {
        ParseQueryError(String::from_str("failed to parse field_name: ").concat(name))
    }

    /// The error for a clause whose tokens have no accepted shape, given the
    /// texts that show the two tokens.
    pub fn with_clause_texts(field_text: &str, order_text: &str) -> (e: ParseQueryError)
        ensures
            e@ == clause_message(field_text@, order_text@),
    {
        let mut message = String::from_str("failed to parse (");
        message.append(field_text);
        message.append(", ");
        message.append(order_text);
        message.append("): field(");
        message.append(field_text);
        message.append(", order(");
        message.append(order_text);
        message.append(")");
        ParseQueryError(message)
    }

    /// The error for a clause whose tokens have no accepted shape.
    pub fn invalid_clause(field: Option<&str>, order: Option<&str>) -> (e: ParseQueryError)
        ensures
            e@ == clause_error(token_view(field), token_view(order)),
    {
        let field_text = debug_option_string(field);
        let order_text = debug_option_string(order);
        ParseQueryError::with_clause_texts(field_text.as_str(), order_text.as_str())
    }

    /// The message.
    pub fn to_string(&self) -> (message: String)
        ensures
            message@ == self@,
    {
        self.0.clone()
    }
}

} // verus!
