//! Terminal syntax highlighting of the rendered blocks, through the
//! highlighting engine; a missing syntax definition is the fatal
//! configuration error.

use vstd::prelude::*;
use crate::errors::Error;

verus! {

#[verifier::external_type_specification]
#[verifier::external_body]
pub struct ExSyntaxSet(syntect::parsing::SyntaxSet);

#[verifier::external_type_specification]
#[verifier::external_body]
pub struct ExTheme(syntect::highlighting::Theme);

/// Relies on syntect's find_syntax_by_name, HighlightLines and
/// as_24_bit_terminal_escaped: colors `text` line by line under the
/// named syntax, ending with a reset escape; a line the engine fails to
/// color is carried through uncolored. Nothing comes back exactly when
/// the syntax set has no definition of that name.
#[verifier::external_body]
fn try_highlight(
    ss: &syntect::parsing::SyntaxSet,
    theme: &syntect::highlighting::Theme,
    name: &str,
    text: &[u8],
) -> (r: Option<Vec<u8>>)
{
    let syn = ss.find_syntax_by_name(name)?;
    let mut h = syntect::easy::HighlightLines::new(syn, theme);
    let owned = String::from_utf8_lossy(text).into_owned();
    let mut out = String::new();
    for line in syntect::util::LinesWithEndings::from(&owned) {
        match h.highlight_line(line, ss) {
            Ok(regions) => out.push_str(&syntect::util::as_24_bit_terminal_escaped(&regions, false)),
            Err(_) => out.push_str(line),
        }
    }
    out.push_str("\x1b[0m");
    Some(out.into_bytes())
}

/// Turns a highlighting outcome into colored output or the fatal
/// missing-syntax error naming the syntax.
pub fn highlight_outcome(colored: Option<Vec<u8>>, name: &Vec<u8>) -> (r: Result<Vec<u8>, Error>)
    ensures
        match colored {
            Some(v) => r matches Ok(o) && o@ == v@,
            None => r matches Err(e) && e matches Error::SyntaxLoadError(n) && n@ == name@,
        },
{
    match colored {
        Some(v) => Ok(v),
        None => Err(Error::SyntaxLoadError(crate::session::clone_bytes(name))),
    }
}

/// Highlights a block under the named syntax; failure is exactly the
/// missing-syntax error carrying the name.
pub fn highlight_block(
    ss: &syntect::parsing::SyntaxSet,
    theme: &syntect::highlighting::Theme,
    name: &str,
    name_bytes: &Vec<u8>,
    text: &[u8],
) -> (r: Result<Vec<u8>, Error>)
    ensures
        r matches Err(e) ==> e matches Error::SyntaxLoadError(n) && n@ == name_bytes@,
{
    let colored = try_highlight(ss, theme, name, text);
    highlight_outcome(colored, name_bytes)
}

} // verus!
