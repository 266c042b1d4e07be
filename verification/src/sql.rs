//! Checking SQL text against the MySQL grammar before it is used.

use vstd::prelude::*;
use sqlparser::dialect::MySqlDialect;
use sqlparser::parser::Parser;
use quote::ToTokens;

verus! {

/// What the `sqlparser` MySQL parser makes of `sql`: accepted, or the text of its error.
pub uninterp spec fn mysql_parse(sql: Seq<char>) -> Result<(), Seq<char>>;

/// `sqlparser::parser::Parser::parse_sql` with `MySqlDialect`, the statements
/// dropped and the error turned into its message. Trusted: the outcome is the
/// named parse result of `sql`; the grammar itself is not stated.
#[verifier::external_body]
fn parse_mysql(sql: &str) -> (r: Result<(), String>)
    ensures
        match r {
            Ok(()) => mysql_parse(sql@) == Ok::<(), Seq<char>>(()),
            Err(m) => mysql_parse(sql@) == Err::<(), Seq<char>>(m@),
        },
{
    match Parser::parse_sql(&MySqlDialect {}, sql) {
        Ok(_) => Ok(()),
        Err(e) => Err(e.to_string()),
    }
}

/// The source text of the Rust string literal that `quote` makes of `s`.
pub uninterp spec fn literal_text(s: Seq<char>) -> Seq<char>;

/// A character that a string literal holds as itself: printable ASCII other
/// than the double quote and the backslash.
pub open spec fn plain_literal_char(c: char) -> bool {
    ' ' <= c <= '~' && c != '"' && c != '\\'
}

/// The text of `s` as a Rust string literal: `quote::ToTokens` on a `str`
/// (`proc_macro2::Literal::string`), printed. Trusted: the result is the named
/// literal text of `s`; it is `s` between double quotes, and when every
/// character of `s` is printable ASCII other than `"` and `\`, nothing is
/// escaped (`char::escape_debug` keeps such characters). How other characters
/// are escaped (`\"`, `\\`, `\n`, `\u{..}`, ...) is only named here.
#[verifier::external_body]
fn string_literal(s: &str) -> (r: String)
    ensures
        r@ == literal_text(s@),
        r@.len() >= 2,
        r@[0] == '"',
        r@.last() == '"',
        (forall|i: int| 0 <= i < s@.len() ==> plain_literal_char(#[trigger] s@[i])) ==> r@ == seq!['"'] + s@ + seq!['"'],
{
    s.to_token_stream().to_string()
}

/// What the `sql` macro expands to once the MySQL parser accepts the SQL text:
/// the text of the string literal holding it, between double quotes and
/// escaped; otherwise the parser's error.
pub fn sql(input: &str) -> (r: Result<String, String>)
    ensures
        match mysql_parse(input@) {
            Ok(_) => r matches Ok(s) && s@ == literal_text(input@),
            Err(m) => r matches Err(e) && e@ == m,
        },
{
    match parse_mysql(input) {
        Ok(()) => Ok(string_literal(input)),
        Err(m) => Err(m),
    }
}

} // verus!
