//! Account names.
//!
//! An account of the NEAR protocol is named by 2 to 64 characters: lower-case
//! letters and digits in groups, with a single `-`, `_` or `.` between two
//! groups.

use vstd::prelude::*;
use crate::host;

verus! {

/// Whether the character parts two groups of an account name.
pub open spec fn is_separator(c: char) -> bool {
    c == '-' || c == '_' || c == '.'
}

/// Whether the character may stand in an account name.
pub open spec fn is_name_char(c: char) -> bool {
    ('a' <= c && c <= 'z') || ('0' <= c && c <= '9') || is_separator(c)
}

/// Whether the characters are the name of an account.
pub open spec fn valid_account_name(name: Seq<char>) -> bool {
    &&& 2 <= name.len() <= 64
    &&& forall|i: int| 0 <= i < name.len() ==> is_name_char(#[trigger] name[i])
    &&& !is_separator(name[0])
    &&& !is_separator(name[name.len() - 1])
    &&& forall|i: int|
        0 <= i < name.len() - 1 ==> !(is_separator(#[trigger] name[i]) && is_separator(
            name[i + 1],
        ))
}

/// An account name that has been checked.
#[derive(Debug, PartialEq, Eq)]
pub struct ValidAccountId {
    name: String,
}

impl View for ValidAccountId {
    type V = Seq<char>;

    closed spec fn view(&self) -> Seq<char> {
        self.name@
    }
}

impl ValidAccountId {
    #[verifier::type_invariant]
    spec fn well_formed(self) -> bool {
        valid_account_name(self.name@)
    }

    /// Checks the name, and keeps it if it names an account.
    pub fn try_from(name: String) -> (id: Option<ValidAccountId>)
        ensures
            id.is_some() == valid_account_name(name@),
            id matches Some(i) ==> i@ == name@,
    {
        if host::is_valid_account_id(&name) {
            Some(ValidAccountId { name })
        } else {
            None
        }
    }

    /// A copy of the name.
    pub fn to_string(&self) -> (name: String)
        ensures
            name@ == self@,
            valid_account_name(name@),
    {
        proof {
            use_type_invariant(self);
        }
        self.name.clone()
    }

    /// The name itself.
    pub fn into_string(self) -> (name: String)
        ensures
            name@ == self@,
            valid_account_name(name@),
    {
        proof {
            use_type_invariant(&self);
        }
        self.name
    }
}

} // verus!
