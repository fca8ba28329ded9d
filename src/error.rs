use vstd::prelude::*;

use crate::lexer::TokenSpan;
use crate::text::{digits_of, push_digits, push_str};

verus! {

/// A failure reported by a native function, with the place it is attributed to.
#[derive(Debug, Clone)]
pub struct Error {
    pub token: TokenSpan,
    pub message: String,
}

/// An error with the given message, attributed to `token`.
pub fn err(token: TokenSpan, message: String) -> (r: Error)
    ensures
        r.message == message,
        r.token == token,
{
    Error { token, message }
}

impl Error {
    /// The error as "(line L): message".
    pub fn to_display(&self) -> (r: String)
        ensures
            r@ == "(line "@ + digits_of(self.token.line as nat) + "): "@ + self.message@,
    {
        let mut s = String::new();
        push_str(&mut s, "(line ");
        push_digits(&mut s, self.token.line as u64);
        push_str(&mut s, "): ");
        push_str(&mut s, self.message.as_str());
        proof {
            assert(s@ =~= "(line "@ + digits_of(self.token.line as nat) + "): "@ + self.message@);
        }
        s
    }
}

} // verus!
