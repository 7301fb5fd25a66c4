//! An email address built from text, unchecked or checked for an `@`.
use vstd::prelude::*;
use crate::text::{occurs_in, contains};

verus! {

/// An email address.
#[derive(Debug, PartialEq)]
pub struct EmailAddress {
    pub value: String,
}

/// The error text of an address without `@`.
pub open spec fn missing_at_message() -> Seq<char> {
    "Invalid email: missing @ symbol"@
}

impl From<String> for EmailAddress {
    /// The address `s`, taken as it is.
    fn from(s: String) -> (r: EmailAddress) {
        EmailAddress { value: s }
    }
}

impl vstd::std_specs::convert::FromSpecImpl<String> for EmailAddress {
    open spec fn obeys_from_spec() -> bool {
        true
    }

    open spec fn from_spec(s: String) -> EmailAddress {
        EmailAddress { value: s }
    }
}

impl EmailAddress {
    /// The address `value` when it contains `@`; otherwise the error text.
    pub fn try_from(value: &str) -> (r: Result<EmailAddress, String>)
        ensures
            occurs_in("@"@, value@) ==> (r matches Ok(e) && e.value@ == value@),
            !occurs_in("@"@, value@) ==> (r matches Err(m) && m@ == missing_at_message()),
    {
        if contains(value, "@") {
            Ok(EmailAddress { value: value.to_string() })
        } else {
            Err("Invalid email: missing @ symbol".to_string())
        }
    }
}

} // verus!
