//! The four kinds of work that a rule can apply to.

use vstd::prelude::*;
use vstd::string::StringExecFns;

verus! {

/// The kind of work that a rule applies to.
#[derive(Debug, Clone, Copy, PartialEq, Eq, Hash)]
pub enum Facility {
    Auth,
    Account,
    Session,
    Password,
}

/// The word that stands for a facility: its name in lower case.
pub open spec fn facility_name(facility: Facility) -> Seq<char> {
    match facility {
        Facility::Auth => "auth"@,
        Facility::Account => "account"@,
        Facility::Session => "session"@,
        Facility::Password => "password"@,
    }
}

/// The facility that `s` names. Only the four words do, letter for letter.
pub open spec fn spec_parse_facility(s: Seq<char>) -> Result<Facility, ()> {
    if s == "auth"@ {
        Ok(Facility::Auth)
    } else if s == "account"@ {
        Ok(Facility::Account)
    } else if s == "session"@ {
        Ok(Facility::Session)
    } else if s == "password"@ {
        Ok(Facility::Password)
    } else {
        Err(())
    }
}

/// The word for a facility names that facility.
pub proof fn lemma_parse_facility_name(facility: Facility)
    ensures
        spec_parse_facility(facility_name(facility)) == Ok::<Facility, ()>(facility),
{
    reveal_strlit("auth");
    reveal_strlit("account");
    reveal_strlit("session");
    reveal_strlit("password");
    assert("auth"@.len() == 4 && "account"@.len() == 7 && "session"@.len() == 7
        && "password"@.len() == 8);
    assert("account"@[0] == 'a' && "session"@[0] == 's');
}

impl Facility {
    /// Reads a facility from its word.
    pub fn from_str(s: &str) -> (r: Result<Facility, ()>)
        ensures
            r == spec_parse_facility(s@),
    {
        if s.eq("auth") {
            Ok(Facility::Auth)
        } else if s.eq("account") {
            Ok(Facility::Account)
        } else if s.eq("session") {
            Ok(Facility::Session)
        } else if s.eq("password") {
            Ok(Facility::Password)
        } else {
            Err(())
        }
    }

    /// The word that stands for this facility.
    pub fn name(self) -> (r: &'static str)
        ensures
            r@ == facility_name(self),
    {
        match self {
            Facility::Auth => "auth",
            Facility::Account => "account",
            Facility::Session => "session",
            Facility::Password => "password",
        }
    }

    /// Writes the facility as it stands in a rule.
    pub fn to_string(&self) -> (r: String)
        ensures
            r@ == facility_name(*self),
    {
        String::from_str(self.name())
    }
}

} // verus!
