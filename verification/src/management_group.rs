//! The domain of a rule in a packed or separated configuration.

use vstd::prelude::*;
use vstd::string::StringExecFns;

verus! {

/// The kind of work that a rule applies to.
#[derive(Debug, PartialEq, Eq, Clone, Copy)]
pub enum Domain {
    Account,
    Auth,
    Password,
    Session,
}

/// The word that stands for a domain: its name in lower case.
pub open spec fn domain_name(domain: Domain) -> Seq<char> {
    match domain {
        Domain::Account => "account"@,
        Domain::Auth => "auth"@,
        Domain::Password => "password"@,
        Domain::Session => "session"@,
    }
}

/// The domain that `s` names. Only the four words do, letter for letter.
pub open spec fn spec_parse_domain(s: Seq<char>) -> Result<Domain, ()> {
    if s == "account"@ {
        Ok(Domain::Account)
    } else if s == "auth"@ {
        Ok(Domain::Auth)
    } else if s == "password"@ {
        Ok(Domain::Password)
    } else if s == "session"@ {
        Ok(Domain::Session)
    } else {
        Err(())
    }
}

/// The word for a domain names that domain.
pub proof fn lemma_parse_domain_name(domain: Domain)
    ensures
        spec_parse_domain(domain_name(domain)) == Ok::<Domain, ()>(domain),
{
    reveal_strlit("auth");
    reveal_strlit("account");
    reveal_strlit("session");
    reveal_strlit("password");
    assert("auth"@.len() == 4 && "account"@.len() == 7 && "session"@.len() == 7
        && "password"@.len() == 8);
    assert("account"@[0] == 'a' && "session"@[0] == 's');
}

impl Domain {
    /// Reads a domain from its word.
    pub fn from_str(s: &str) -> (r: Result<Domain, ()>)
        ensures
            r == spec_parse_domain(s@),
    {
        if s.eq("account") {
            Ok(Domain::Account)
        } else if s.eq("auth") {
            Ok(Domain::Auth)
        } else if s.eq("password") {
            Ok(Domain::Password)
        } else if s.eq("session") {
            Ok(Domain::Session)
        } else {
            Err(())
        }
    }

    /// The word that stands for this domain.
    pub fn name(self) -> (r: &'static str)
        ensures
            r@ == domain_name(self),
    {
        match self {
            Domain::Account => "account",
            Domain::Auth => "auth",
            Domain::Password => "password",
            Domain::Session => "session",
        }
    }

    /// Writes the domain as it stands in a rule.
    pub fn to_string(&self) -> (r: String)
        ensures
            r@ == domain_name(*self),
    {
        String::from_str(self.name())
    }
}

} // verus!
