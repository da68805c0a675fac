//! The codes that a PAM module hands back.

use vstd::prelude::*;

verus! {

/// What a call into a module can return, as Linux-PAM numbers it.
#[derive(Debug, Clone, Copy, PartialEq, Eq)]
pub enum ReturnCode {
    /// Function completed successfully
    Success,
    /// Failed to dynamically load the service module
    OpenError,
    /// Symbol not found in the service module
    SymbolError,
    /// Error in underlying service module
    ServiceError,
    /// System Error
    SystemError,
    /// Memory buffer error
    BufError,
    /// Caller of the library does not have the proper authorization.
    PermissionDenied,
    /// Failure to authenticate
    AuthenticationError,
    /// Cannot access the authentication data due to insufficient credentials
    CredentialsInsufficient,
    /// Authentication service is unable to fetch authentication information
    AuthInfoUnavailable,
    /// User is not known to the authentication module
    UserUnknown,
    /// An authentication service kept a retry count and the maximum retries has been reached.
    MaximumTriesReached,
    /// A new authentication token is required. Usually, this is returned when the security
    /// policies require a new password. It is either because it was not set or because it has
    /// aged.
    NewAuthTokenRequired,
    /// User account is expired
    AccountExpired,
    /// Unable to add or remove an entry for the given session
    SessionError,
    /// Given authentication service is unable to fetch user credentials
    CredentialsUnavailable,
    /// User credentials have expired
    CredentialsExpired,
    /// Failed to set user credentials
    CredentialsError,
    /// No module specific data is present
    NoModuleData,
    /// Conversation Error
    ConversationError,
    /// Failure to manipulate authentication token
    AuthTokenManipulationError,
    /// Failure to recover authentication token
    AuthTokenRecoverError,
    /// Authentication token lock is busy
    AuthTokenLockBusy,
    /// Authentication token aging is disabled
    AuthTokenDisableAging,
    TryAgain,
    Ignore,
    Abort,
    /// User's authentication token is expired
    AuthTokenExpired,
    /// Given module is not known
    ModuleUnknown,
    /// Passed bad item to pam_*_item()
    BadItem,
    /// Data is not available yet
    ConversationAgain,
    /// Conversation is incomplete
    Incomplete,
}

impl ReturnCode {
    /// The number of the code: the variants count up from 0 in the order in
    /// which they are declared.
    pub open spec fn spec_code(self) -> int {
        match self {
            ReturnCode::Success => 0,
            ReturnCode::OpenError => 1,
            ReturnCode::SymbolError => 2,
            ReturnCode::ServiceError => 3,
            ReturnCode::SystemError => 4,
            ReturnCode::BufError => 5,
            ReturnCode::PermissionDenied => 6,
            ReturnCode::AuthenticationError => 7,
            ReturnCode::CredentialsInsufficient => 8,
            ReturnCode::AuthInfoUnavailable => 9,
            ReturnCode::UserUnknown => 10,
            ReturnCode::MaximumTriesReached => 11,
            ReturnCode::NewAuthTokenRequired => 12,
            ReturnCode::AccountExpired => 13,
            ReturnCode::SessionError => 14,
            ReturnCode::CredentialsUnavailable => 15,
            ReturnCode::CredentialsExpired => 16,
            ReturnCode::CredentialsError => 17,
            ReturnCode::NoModuleData => 18,
            ReturnCode::ConversationError => 19,
            ReturnCode::AuthTokenManipulationError => 20,
            ReturnCode::AuthTokenRecoverError => 21,
            ReturnCode::AuthTokenLockBusy => 22,
            ReturnCode::AuthTokenDisableAging => 23,
            ReturnCode::TryAgain => 24,
            ReturnCode::Ignore => 25,
            ReturnCode::Abort => 26,
            ReturnCode::AuthTokenExpired => 27,
            ReturnCode::ModuleUnknown => 28,
            ReturnCode::BadItem => 29,
            ReturnCode::ConversationAgain => 30,
            ReturnCode::Incomplete => 31,
        }
    }

    /// The number of the code.
    pub fn code(self) -> (n: i32)
        ensures
            n == self.spec_code(),
            0 <= n <= 31,
    {
        match self {
            ReturnCode::Success => 0,
            ReturnCode::OpenError => 1,
            ReturnCode::SymbolError => 2,
            ReturnCode::ServiceError => 3,
            ReturnCode::SystemError => 4,
            ReturnCode::BufError => 5,
            ReturnCode::PermissionDenied => 6,
            ReturnCode::AuthenticationError => 7,
            ReturnCode::CredentialsInsufficient => 8,
            ReturnCode::AuthInfoUnavailable => 9,
            ReturnCode::UserUnknown => 10,
            ReturnCode::MaximumTriesReached => 11,
            ReturnCode::NewAuthTokenRequired => 12,
            ReturnCode::AccountExpired => 13,
            ReturnCode::SessionError => 14,
            ReturnCode::CredentialsUnavailable => 15,
            ReturnCode::CredentialsExpired => 16,
            ReturnCode::CredentialsError => 17,
            ReturnCode::NoModuleData => 18,
            ReturnCode::ConversationError => 19,
            ReturnCode::AuthTokenManipulationError => 20,
            ReturnCode::AuthTokenRecoverError => 21,
            ReturnCode::AuthTokenLockBusy => 22,
            ReturnCode::AuthTokenDisableAging => 23,
            ReturnCode::TryAgain => 24,
            ReturnCode::Ignore => 25,
            ReturnCode::Abort => 26,
            ReturnCode::AuthTokenExpired => 27,
            ReturnCode::ModuleUnknown => 28,
            ReturnCode::BadItem => 29,
            ReturnCode::ConversationAgain => 30,
            ReturnCode::Incomplete => 31,
        }
    }
}

} // verus!
