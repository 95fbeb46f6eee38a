use crate::errors::error::Error;
use crate::variable::value::{Value, Variable};
use vstd::prelude::*;

verus! {

/// What `unescaper::unescape` gives back for a text: the text with its escape
/// sequences replaced, or the message of the error that stopped it.
pub uninterp spec fn unescaped(text: Seq<char>) -> Result<Seq<char>, Seq<char>>;

/// Calls `unescaper::unescape`. Its result, or the message of its error, is
/// `unescaped` of the text. The crate copies every character other than a
/// backslash as it stands, so a text without a backslash comes back unchanged.
#[verifier::external_body]
fn unescape(text: &str) -> (r: Result<String, String>)
    ensures
        r is Ok ==> unescaped(text@) == Ok::<Seq<char>, Seq<char>>(r->Ok_0@),
        r is Err ==> unescaped(text@) == Err::<Seq<char>, Seq<char>>(r->Err_0@),
        !text@.contains('\\') ==> r is Ok && r->Ok_0@ == text@,
{
    match unescaper::unescape(text) {
        Ok(t) => Ok(t),
        Err(e) => Err(e.to_string()),
    }
}

/// The value of a string literal once its text was unescaped: the string, or
/// the error that unescaping reported.
pub fn literal_from_unescaped(unescaped: Result<String, String>) -> (r: Result<Variable, Error>)
    ensures
        match unescaped {
            Ok(t) => r matches Ok(v) && v@ == Value::String(t@),
            Err(m) => r matches Err(Error::CannotUnescapeString(e)) && e@ == m@,
        },
{
    match unescaped {
        Ok(t) => Ok(Variable::String(t)),
        Err(m) => Err(Error::CannotUnescapeString(m)),
    }
}

/// The value of a string literal whose text between the quotes is `text`.
pub fn string_literal(text: &str) -> (r: Result<Variable, Error>)
    ensures
        match unescaped(text@) {
            Ok(t) => r matches Ok(v) && v@ == Value::String(t),
            Err(m) => r matches Err(Error::CannotUnescapeString(e)) && e@ == m,
        },
        !text@.contains('\\') ==> (r matches Ok(v) && v@ == Value::String(text@)),
{
    literal_from_unescaped(unescape(text))
}

} // verus!
