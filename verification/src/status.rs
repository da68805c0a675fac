//! The numbers that go to the PAM library and come back from it, as values of
//! their own.

use vstd::prelude::*;
use crate::return_code::ReturnCode;

verus! {

/// Authentication service should not generate any messages
pub const PAM_SILENT: i32 = 0x8000;

/// The authentication service should return an authentication error if the
/// user has a null authentication token
pub const PAM_DISALLOW_NULL_AUTHTOK: i32 = 0x0001;

/// What starting a transaction returned.
#[derive(Debug, Clone, PartialEq, Eq)]
pub enum PamStartReturnValue {
    Success,
    SystemError,
    ServiceError,
    BufferError,
    /// This error is not documented to be returned, but it is in fact returned by Linux-PAM
    Abort,
    /// A code that starting a transaction is not known to return, cut down
    /// to its lower 16 bits.
    Unexpected(i16),
}

/// What ending a transaction returned.
#[derive(Debug, Clone, PartialEq, Eq)]
pub enum PamEndReturnValue {
    Success,
    SystemError,
    BufferError,
    /// A code that ending a transaction is not known to return, cut down to
    /// its lower 16 bits.
    Unexpected(i16),
}

/// What authenticating a user returned.
#[derive(Debug, Clone, PartialEq, Eq)]
pub enum PamAuthenticateReturnValue {
    Success,
    AuthenticationError,
    InsufficientCredentials,
    AuthenticationInfoUnavailable,
    UserUnknown,
    MaxTries,
    OpenFailure,
    SymbolNotFound,
    ServiceError,
    SystemError,
    BufferError,
    ConversationError,
    PermissionDenied,
    Abort,
    /// A code that authenticating is not known to return, cut down to its
    /// lower 16 bits.
    Unexpected(i16),
}

/// The flags of an authentication.
#[derive(Debug, Clone, Copy, PartialEq, Eq)]
pub struct PamAuthenticateFlags {
    pub silent: bool,
    pub disallow_null_auth_token: bool,
}

/// The value that stands for the code `return_value` of `pam_start`.
pub open spec fn spec_start_return_value(return_value: i32) -> PamStartReturnValue {
    if return_value == ReturnCode::Success.spec_code() {
        PamStartReturnValue::Success
    } else if return_value == ReturnCode::SystemError.spec_code() {
        PamStartReturnValue::SystemError
    } else if return_value == ReturnCode::ServiceError.spec_code() {
        PamStartReturnValue::ServiceError
    } else if return_value == ReturnCode::BufError.spec_code() {
        PamStartReturnValue::BufferError
    } else if return_value == ReturnCode::Abort.spec_code() {
        PamStartReturnValue::Abort
    } else {
        PamStartReturnValue::Unexpected(return_value as i16)
    }
}

/// The value that stands for the code `return_value` of `pam_end`.
pub open spec fn spec_end_return_value(return_value: i32) -> PamEndReturnValue {
    if return_value == ReturnCode::Success.spec_code() {
        PamEndReturnValue::Success
    } else if return_value == ReturnCode::SystemError.spec_code() {
        PamEndReturnValue::SystemError
    } else if return_value == ReturnCode::BufError.spec_code() {
        PamEndReturnValue::BufferError
    } else {
        PamEndReturnValue::Unexpected(return_value as i16)
    }
}

/// The value that stands for the code `return_value` of `pam_authenticate`.
pub open spec fn spec_authenticate_return_value(return_value: i32) -> PamAuthenticateReturnValue {
    if return_value == ReturnCode::Success.spec_code() {
        PamAuthenticateReturnValue::Success
    } else if return_value == ReturnCode::AuthenticationError.spec_code() {
        PamAuthenticateReturnValue::AuthenticationError
    } else if return_value == ReturnCode::CredentialsInsufficient.spec_code() {
        PamAuthenticateReturnValue::InsufficientCredentials
    } else if return_value == ReturnCode::AuthInfoUnavailable.spec_code() {
        PamAuthenticateReturnValue::AuthenticationInfoUnavailable
    } else if return_value == ReturnCode::UserUnknown.spec_code() {
        PamAuthenticateReturnValue::UserUnknown
    } else if return_value == ReturnCode::MaximumTriesReached.spec_code() {
        PamAuthenticateReturnValue::MaxTries
    } else if return_value == ReturnCode::OpenError.spec_code() {
        PamAuthenticateReturnValue::OpenFailure
    } else if return_value == ReturnCode::SymbolError.spec_code() {
        PamAuthenticateReturnValue::SymbolNotFound
    } else if return_value == ReturnCode::ServiceError.spec_code() {
        PamAuthenticateReturnValue::ServiceError
    } else if return_value == ReturnCode::SystemError.spec_code() {
        PamAuthenticateReturnValue::SystemError
    } else if return_value == ReturnCode::BufError.spec_code() {
        PamAuthenticateReturnValue::BufferError
    } else if return_value == ReturnCode::ConversationError.spec_code() {
        PamAuthenticateReturnValue::ConversationError
    } else if return_value == ReturnCode::PermissionDenied.spec_code() {
        PamAuthenticateReturnValue::PermissionDenied
    } else if return_value == ReturnCode::Abort.spec_code() {
        PamAuthenticateReturnValue::Abort
    } else {
        PamAuthenticateReturnValue::Unexpected(return_value as i16)
    }
}

impl PamStartReturnValue {
    /// Decodes what `pam_start` returned.
    pub fn from_code(return_value: i32) -> (r: Self)
        ensures
            r == spec_start_return_value(return_value),
    {
        if return_value == ReturnCode::Success.code() {
            PamStartReturnValue::Success
        } else if return_value == ReturnCode::SystemError.code() {
            PamStartReturnValue::SystemError
        } else if return_value == ReturnCode::ServiceError.code() {
            PamStartReturnValue::ServiceError
        } else if return_value == ReturnCode::BufError.code() {
            PamStartReturnValue::BufferError
        } else if return_value == ReturnCode::Abort.code() {
            PamStartReturnValue::Abort
        } else {
            PamStartReturnValue::Unexpected(#[verifier::truncate] (return_value as i16))
        }
    }
}

impl PamEndReturnValue {
    /// Decodes what `pam_end` returned.
    pub fn from_code(return_value: i32) -> (r: Self)
        ensures
            r == spec_end_return_value(return_value),
    {
        if return_value == ReturnCode::Success.code() {
            PamEndReturnValue::Success
        } else if return_value == ReturnCode::SystemError.code() {
            PamEndReturnValue::SystemError
        } else if return_value == ReturnCode::BufError.code() {
            PamEndReturnValue::BufferError
        } else {
            PamEndReturnValue::Unexpected(#[verifier::truncate] (return_value as i16))
        }
    }
}

impl PamAuthenticateReturnValue {
    /// Decodes what `pam_authenticate` returned.
    pub fn from_code(return_value: i32) -> (r: Self)
        ensures
            r == spec_authenticate_return_value(return_value),
    {
        if return_value == ReturnCode::Success.code() {
            PamAuthenticateReturnValue::Success
        } else if return_value == ReturnCode::AuthenticationError.code() {
            PamAuthenticateReturnValue::AuthenticationError
        } else if return_value == ReturnCode::CredentialsInsufficient.code() {
            PamAuthenticateReturnValue::InsufficientCredentials
        } else if return_value == ReturnCode::AuthInfoUnavailable.code() {
            PamAuthenticateReturnValue::AuthenticationInfoUnavailable
        } else if return_value == ReturnCode::UserUnknown.code() {
            PamAuthenticateReturnValue::UserUnknown
        } else if return_value == ReturnCode::MaximumTriesReached.code() {
            PamAuthenticateReturnValue::MaxTries
        } else if return_value == ReturnCode::OpenError.code() {
            PamAuthenticateReturnValue::OpenFailure
        } else if return_value == ReturnCode::SymbolError.code() {
            PamAuthenticateReturnValue::SymbolNotFound
        } else if return_value == ReturnCode::ServiceError.code() {
            PamAuthenticateReturnValue::ServiceError
        } else if return_value == ReturnCode::SystemError.code() {
            PamAuthenticateReturnValue::SystemError
        } else if return_value == ReturnCode::BufError.code() {
            PamAuthenticateReturnValue::BufferError
        } else if return_value == ReturnCode::ConversationError.code() {
            PamAuthenticateReturnValue::ConversationError
        } else if return_value == ReturnCode::PermissionDenied.code() {
            PamAuthenticateReturnValue::PermissionDenied
        } else if return_value == ReturnCode::Abort.code() {
            PamAuthenticateReturnValue::Abort
        } else {
            PamAuthenticateReturnValue::Unexpected(#[verifier::truncate] (return_value as i16))
        }
    }
}

/// The number that carries `flags` to the library: the sum of the flags that
/// are set.
pub open spec fn spec_flag_bits(flags: PamAuthenticateFlags) -> i32 {
    if flags.silent && flags.disallow_null_auth_token {
        0x8001
    } else if flags.silent {
        0x8000
    } else if flags.disallow_null_auth_token {
        0x0001
    } else {
        0
    }
}

impl From<PamAuthenticateFlags> for i32 {
    fn from(value: PamAuthenticateFlags) -> (int_flags: i32)
    {
        let mut int_flags: i32 = 0;
        if value.silent {
            int_flags = int_flags | PAM_SILENT;
        }
        if value.disallow_null_auth_token {
            int_flags = int_flags | PAM_DISALLOW_NULL_AUTHTOK;
        }
        assert(0i32 | 0x8000i32 == 0x8000i32) by (bit_vector);
        assert(0i32 | 0x0001i32 == 0x0001i32) by (bit_vector);
        assert(0x8000i32 | 0x0001i32 == 0x8001i32) by (bit_vector);
        int_flags
    }
}

impl vstd::std_specs::convert::FromSpecImpl<PamAuthenticateFlags> for i32 {
    open spec fn obeys_from_spec() -> bool {
        true
    }

    open spec fn from_spec(value: PamAuthenticateFlags) -> i32 {
        spec_flag_bits(value)
    }
}

} // verus!
