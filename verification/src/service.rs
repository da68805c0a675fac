//! The names of services.

use vstd::prelude::*;
use crate::text::{chars_of, scan_run, run_len, CharClass};

verus! {

/// The name of a service: not empty, and made of letters and digits of ASCII,
/// `_` and `-`.
#[derive(Debug, PartialEq, Eq)]
pub struct Service(String);

/// A name that is none: the place of its first character that no name may
/// hold, or 0 for the empty name, and the name itself.
#[derive(Debug, Clone, PartialEq, Eq)]
pub struct UnproperServiceName(pub usize, pub String);

impl View for Service {
    type V = Seq<char>;

    closed spec fn view(&self) -> Seq<char> {
        self.0@
    }
}

impl View for UnproperServiceName {
    type V = (int, Seq<char>);

    open spec fn view(&self) -> (int, Seq<char>) {
        (self.0 as int, self.1@)
    }
}

/// Whether `s` can name a service.
pub open spec fn is_service_name(s: Seq<char>) -> bool {
    s.len() > 0 && run_len(s, CharClass::Name) == s.len()
}

/// The service that `s` names, or the place where `s` goes wrong.
pub open spec fn spec_parse_service(s: Seq<char>) -> Result<Seq<char>, (int, Seq<char>)> {
    if is_service_name(s) {
        Ok(s)
    } else {
        Err((run_len(s, CharClass::Name) as int, s))
    }
}

/// Tests whether `name` can name a service.
pub fn is_proper_service_name(name: &str) -> (r: bool)
    ensures
        r == is_service_name(name@),
{
    let chars = chars_of(name);
    assert(chars@.skip(0) =~= chars@);
    chars.len() > 0 && scan_run(chars.as_slice(), 0, CharClass::Name) >= chars.len()
}

impl Service {
    #[verifier::type_invariant]
    spec fn well_formed(self) -> bool {
        is_service_name(self.0@)
    }

    /// Takes `value` for the name of a service, if it can be one.
    pub fn try_from(value: String) -> (r: Result<Service, UnproperServiceName>)
        ensures
            match r {
                Ok(service) => spec_parse_service(value@) == Ok::<Seq<char>, (int, Seq<char>)>(
                    service@,
                ),
                Err(e) => spec_parse_service(value@) == Err::<Seq<char>, (int, Seq<char>)>(e@),
            },
    {
        let chars = chars_of(value.as_str());
        assert(chars@.skip(0) =~= chars@);
        let unproper_position = scan_run(chars.as_slice(), 0, CharClass::Name);
        if unproper_position < chars.len() || chars.len() == 0 {
            return Err(UnproperServiceName(unproper_position, value));
        }
        Ok(Service(value))
    }

    /// The name. It is not empty, and every character of it is a letter or
    /// digit of ASCII, `_` or `-`.
    pub fn as_ref(&self) -> (r: &str)
        ensures
            r@ == self@,
            is_service_name(r@),
    {
        proof {
            use_type_invariant(self);
        }
        self.0.as_str()
    }
}

} // verus!
