//! The path of the module that a rule calls.

use vstd::prelude::*;
use vstd::string::StringExecFns;
use vstd::string::StrSliceExecFns;

verus! {

/// Whether a path starts at the root.
#[derive(Debug, Clone, Copy, PartialEq, Eq)]
pub enum ModulePathType {
    Absolute,
    Relative,
}

/// The path of a module. It is never empty.
#[derive(Debug, PartialEq, Eq)]
pub struct ModulePath {
    path_type: ModulePathType,
    path: String,
}

/// A `ModulePath` with its text as a sequence of characters.
pub struct ModulePathView {
    pub path_type: ModulePathType,
    pub path: Seq<char>,
}

impl View for ModulePath {
    type V = ModulePathView;

    closed spec fn view(&self) -> ModulePathView {
        ModulePathView { path_type: self.path_type, path: self.path@ }
    }
}

/// The path that `s` writes: absolute where it starts with `/`, relative
/// otherwise; the empty text writes none.
pub open spec fn spec_parse_module(s: Seq<char>) -> Result<ModulePathView, ()> {
    if s.len() == 0 {
        Err(())
    } else if s[0] == '/' {
        Ok(ModulePathView { path_type: ModulePathType::Absolute, path: s })
    } else {
        Ok(ModulePathView { path_type: ModulePathType::Relative, path: s })
    }
}

impl ModulePath {
    #[verifier::type_invariant]
    spec fn well_formed(self) -> bool {
        spec_parse_module(self.path@) == Ok::<ModulePathView, ()>(self@)
    }

    /// Reads a path. Only the empty text is refused.
    pub fn from_str(s: &str) -> (r: Result<ModulePath, ()>)
        ensures
            match r {
                Ok(module) => spec_parse_module(s@) == Ok::<ModulePathView, ()>(module@),
                Err(_) => spec_parse_module(s@) is Err,
            },
    {
        if s.is_empty() {
            return Err(());
        }
        let path_type = if s.get_char(0) == '/' {
            ModulePathType::Absolute
        } else {
            ModulePathType::Relative
        };
        let path = String::from_str(s);
        Ok(ModulePath { path_type, path })
    }

    /// Whether the path starts at the root: it does exactly where it starts
    /// with `/`.
    pub fn path_type(&self) -> (r: ModulePathType)
        ensures
            r == self@.path_type,
            spec_parse_module(self@.path) == Ok::<ModulePathView, ()>(self@),
    {
        proof {
            use_type_invariant(self);
        }
        self.path_type
    }

    /// The path as it was written. It is not empty.
    pub fn as_str(&self) -> (r: &str)
        ensures
            r@ == self@.path,
            r@.len() > 0,
    {
        proof {
            use_type_invariant(self);
        }
        self.path.as_str()
    }

    /// Writes the path as it stands in a rule.
    pub fn to_string(&self) -> (r: String)
        ensures
            r@ == self@.path,
    {
        self.path.clone()
    }
}

} // verus!
