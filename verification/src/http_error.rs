//! The HTTP-level error value: a status paired with a message. Conversions
//! from lower-level failures construct one of these where the failure
//! arises.

use crate::http_status::HttpStatus;
use crate::textfmt::{push_char, spec_dec_nat, u64_to_dec};
use vstd::prelude::*;
use vstd::string::StringExecFns;

verus! {

/// An error carrying the status to answer with and a diagnostic message.
#[derive(Debug, Clone, PartialEq, Eq)]
pub struct HttpError {
    pub status: HttpStatus,
    pub message: String,
}

impl HttpError {
    pub fn new(status: HttpStatus, msg: &str) -> (e: HttpError)
        ensures
            e.status == status,
            e.message@ == msg@,
    {
        HttpError { status, message: msg.to_owned() }
    }

    /// The rendered form: `[code] reason: message`.
    pub open spec fn spec_display(self) -> Seq<char> {
        seq!['['] + spec_dec_nat(self.status.spec_code() as nat) + seq![']', ' ']
            + self.status.spec_reason() + seq![':', ' '] + self.message@
    }

    pub fn display_text(&self) -> (r: String)
        ensures
            r@ == self.spec_display(),
    {
        let ghost target: Seq<char> = self.spec_display();
        let mut s = String::new();
        push_char(&mut s, '[');
        let code = u64_to_dec(self.status.code() as u64);
        s.append(code.as_str());
        push_char(&mut s, ']');
        push_char(&mut s, ' ');
        let reason = self.status.reason();
        s.append(reason.as_str());
        push_char(&mut s, ':');
        push_char(&mut s, ' ');
        s.append(self.message.as_str());
        proof {
            assert(s@ =~= target);
        }
        s
    }
}

} // verus!
