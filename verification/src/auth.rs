//! Reading the GitHub token that the `gh auth token` command prints.
use vstd::prelude::*;
use vstd::utf8::{valid_utf8, decode_utf8};
use crate::text::{trimmed, trim_whitespace, is_white_space, lemma_trimmed_edges};

verus! {

/// Why no token could be read from the output of `gh auth token`.
#[derive(Debug, Clone, Copy, PartialEq, Eq, Structural)]
pub enum TokenError {
    /// The command exited with a failure status.
    CommandFailed,
    /// The command printed bytes that are not UTF-8.
    NotUtf8,
    /// The command printed nothing but whitespace.
    Empty,
}

/// Calls `String::from_utf8`. Claimed: it succeeds exactly on valid UTF-8,
/// and then the string holds the decoded characters.
#[verifier::external_body]
fn string_from_utf8(bytes: Vec<u8>) -> (r: Option<String>)
    ensures
        r is Some <==> valid_utf8(bytes@),
        r matches Some(s) ==> s@ == decode_utf8(bytes@),
{
    String::from_utf8(bytes).ok()
}

/// The token that `gh auth token` printed: its output must come from a
/// successful run and be UTF-8; the token is that text trimmed, so it
/// neither begins nor ends with whitespace, and it must not be empty.
pub fn token_from_output(exited_ok: bool, stdout: Vec<u8>) -> (r: Result<String, TokenError>)
    ensures
        !exited_ok ==> r == Err::<String, TokenError>(TokenError::CommandFailed),
        exited_ok && !valid_utf8(stdout@) ==> r == Err::<String, TokenError>(TokenError::NotUtf8),
        exited_ok && valid_utf8(stdout@) ==> match r {
            Ok(token) => {
                &&& token@ == trimmed(decode_utf8(stdout@))
                &&& token@.len() > 0
                &&& !is_white_space(token@[0])
                &&& !is_white_space(token@.last())
            },
            Err(e) => e == TokenError::Empty && trimmed(decode_utf8(stdout@)).len() == 0,
        },
{
    if !exited_ok {
        return Err(TokenError::CommandFailed);
    }
    let text = match string_from_utf8(stdout) {
        Some(text) => text,
        None => return Err(TokenError::NotUtf8),
    };
    let token = trim_whitespace(text.as_str());
    proof {
        lemma_trimmed_edges(text@);
    }
    if token.is_empty() {
        return Err(TokenError::Empty);
    }
    Ok(token.to_owned())
}

} // verus!
