//! Reading of PAM configuration text: the scanner that cuts text into lines
//! and fields, the decoders of the single fields, the grammar of the control
//! field, and the assembly of rules into named services.
//!
//! Text is modelled as `Seq<char>`. The scanner works on characters; where a
//! function on `&str` hands out an offset, it is the offset in bytes at which
//! the `&str` can be cut.
//!
//! ```text
//! // pam.conf
//! service      type        control         module-path     module-arguments
//!
//! // pam.d/*
//! type         control     module-path     module-arguments
//! ```

pub mod text;
pub mod parsing;
pub mod return_code;
pub mod control;
pub mod control_laws;
pub mod error;
pub mod parse;
pub mod rule;
pub mod facility;
pub mod management_group;
pub mod module;
pub mod module_arguments;
pub mod service;
pub mod pam_rule;
pub mod config;
pub mod status;

pub use crate::config::{PamConfig, PamService};
pub use crate::pam_rule::{PackedRuleIterator, PamRule, SeparatedRuleIterator};
pub use crate::control::{Action, Control, ControlParseError, Selection, SelectionItem, Value};
pub use crate::error::{PamConfigError, PamConfigSyntaxError};
pub use crate::facility::Facility;
pub use crate::management_group::Domain;
pub use crate::module::{ModulePath, ModulePathType};
pub use crate::module_arguments::ModuleArgument;
pub use crate::parse::{
    LineIterator, RuleToken, RuleTokenContent, RuleTokenIterator, StringTokenIterator,
};
pub use crate::return_code::ReturnCode;
pub use crate::rule::{InclusionMethod, Rule, RuleContent, RuleError, RuleIterator};
pub use crate::service::{Service, UnproperServiceName};
pub use crate::status::{
    PamAuthenticateFlags, PamAuthenticateReturnValue, PamEndReturnValue, PamStartReturnValue,
};
