//! The control field: a preset word, or a selection that maps what a module
//! returned to what is done next.

use vstd::prelude::*;
use vstd::string::StringExecFns;
use crate::return_code::ReturnCode;
use crate::text::{
    chars_of, string_of_range, scan_run, run_len, lemma_run_len, CharClass, decimal_value,
    decimal_text, lemma_decimal_value_grows, push_decimal, digit_of,
};

verus! {

/// How the outcome of a module bears on the outcome of its chain.
#[derive(Debug, Clone, PartialEq, Eq)]
pub enum Control {
    Required,
    Requisite,
    Sufficient,
    Optional,
    Include,
    Substack,
    Selection(Selection),
}

/// The items between the brackets of a control field, in their order.
#[derive(Debug, Clone, PartialEq, Eq)]
pub struct Selection(pub Vec<SelectionItem>);

/// One `value=action` pair of a selection.
#[derive(Debug, Clone, Copy, PartialEq, Eq)]
pub struct SelectionItem {
    pub value: Value,
    pub action: Action,
}

/// The left side of a pair: a return code, or `default` for all the others.
#[derive(Debug, Clone, Copy, PartialEq, Eq)]
pub enum Value {
    ReturnCode(ReturnCode),
    Default,
}

/// The right side of a pair. The count of `JumpOver` is never 0 in an action
/// that was read from text.
#[derive(Debug, Clone, Copy, PartialEq, Eq)]
pub enum Action {
    Ignore,
    Bad,
    Die,
    /// The action that the word `ok` names.
    Okay,
    Done,
    JumpOver(u32),
    Reset,
}

/// Why a control field was refused.
#[derive(Debug, Clone, PartialEq, Eq)]
pub enum ControlParseError {
    UnknownPreset(String),
    UnknownValue(String),
    UnknownAction(String),
    ExpectedEquals,
    UnexpectedEnd,
    UnclosedSelection,
    EmptyString,
    ZeroJump,
    ExpectedDigit,
    JumpOverflow,
}

/// A `ControlParseError` with its texts as sequences of characters.
pub enum ControlParseErrorView {
    UnknownPreset(Seq<char>),
    UnknownValue(Seq<char>),
    UnknownAction(Seq<char>),
    ExpectedEquals,
    UnexpectedEnd,
    UnclosedSelection,
    EmptyString,
    ZeroJump,
    ExpectedDigit,
    JumpOverflow,
}

/// A `Control` with its selection as a sequence of items.
pub enum ControlView {
    Required,
    Requisite,
    Sufficient,
    Optional,
    Include,
    Substack,
    Selection(Seq<SelectionItem>),
}

impl View for ControlParseError {
    type V = ControlParseErrorView;

    open spec fn view(&self) -> ControlParseErrorView {
        match self {
            ControlParseError::UnknownPreset(s) => ControlParseErrorView::UnknownPreset(s@),
            ControlParseError::UnknownValue(s) => ControlParseErrorView::UnknownValue(s@),
            ControlParseError::UnknownAction(s) => ControlParseErrorView::UnknownAction(s@),
            ControlParseError::ExpectedEquals => ControlParseErrorView::ExpectedEquals,
            ControlParseError::UnexpectedEnd => ControlParseErrorView::UnexpectedEnd,
            ControlParseError::UnclosedSelection => ControlParseErrorView::UnclosedSelection,
            ControlParseError::EmptyString => ControlParseErrorView::EmptyString,
            ControlParseError::ZeroJump => ControlParseErrorView::ZeroJump,
            ControlParseError::ExpectedDigit => ControlParseErrorView::ExpectedDigit,
            ControlParseError::JumpOverflow => ControlParseErrorView::JumpOverflow,
        }
    }
}

impl View for Selection {
    type V = Seq<SelectionItem>;

    open spec fn view(&self) -> Seq<SelectionItem> {
        self.0@
    }
}

impl View for Control {
    type V = ControlView;

    open spec fn view(&self) -> ControlView {
        match self {
            Control::Required => ControlView::Required,
            Control::Requisite => ControlView::Requisite,
            Control::Sufficient => ControlView::Sufficient,
            Control::Optional => ControlView::Optional,
            Control::Include => ControlView::Include,
            Control::Substack => ControlView::Substack,
            Control::Selection(selection) => ControlView::Selection(selection@),
        }
    }
}

/// The word that stands for a return code in a selection.
pub open spec fn return_code_name(code: ReturnCode) -> Seq<char> {
    match code {
        ReturnCode::Success => "success"@,
        ReturnCode::OpenError => "open_err"@,
        ReturnCode::SymbolError => "symbol_err"@,
        ReturnCode::ServiceError => "service_err"@,
        ReturnCode::SystemError => "system_err"@,
        ReturnCode::BufError => "buf_err"@,
        ReturnCode::PermissionDenied => "perm_denied"@,
        ReturnCode::AuthenticationError => "auth_err"@,
        ReturnCode::CredentialsInsufficient => "cred_insufficient"@,
        ReturnCode::AuthInfoUnavailable => "authinfo_unavail"@,
        ReturnCode::UserUnknown => "user_unknown"@,
        ReturnCode::MaximumTriesReached => "maxtries"@,
        ReturnCode::NewAuthTokenRequired => "new_authtok_reqd"@,
        ReturnCode::AccountExpired => "acct_expired"@,
        ReturnCode::SessionError => "session_err"@,
        ReturnCode::CredentialsUnavailable => "cred_unavail"@,
        ReturnCode::CredentialsExpired => "cred_expired"@,
        ReturnCode::CredentialsError => "cred_err"@,
        ReturnCode::NoModuleData => "no_module_data"@,
        ReturnCode::ConversationError => "conv_err"@,
        ReturnCode::AuthTokenManipulationError => "authtok_err"@,
        ReturnCode::AuthTokenRecoverError => "authtok_recover_err"@,
        ReturnCode::AuthTokenLockBusy => "authtok_lock_busy"@,
        ReturnCode::AuthTokenDisableAging => "authtok_disable_aging"@,
        ReturnCode::TryAgain => "try_again"@,
        ReturnCode::Ignore => "ignore"@,
        ReturnCode::Abort => "abort"@,
        ReturnCode::AuthTokenExpired => "authtok_expired"@,
        ReturnCode::ModuleUnknown => "module_unknown"@,
        ReturnCode::BadItem => "bad_item"@,
        ReturnCode::ConversationAgain => "conv_again"@,
        ReturnCode::Incomplete => "incomplete"@,
    }
}

/// The word that stands for a value in a selection.
pub open spec fn value_name(value: Value) -> Seq<char> {
    match value {
        Value::Default => "default"@,
        Value::ReturnCode(code) => return_code_name(code),
    }
}

/// The value that `s` names: `Ok(v)` where `s` is the word for `v`, an error
/// where it is the word for none.
pub open spec fn spec_parse_value(s: Seq<char>) -> Result<Value, ()> {
    if exists|v: Value| #[trigger] value_name(v) == s {
        Ok(choose|v: Value| #[trigger] value_name(v) == s)
    } else {
        Err(())
    }
}

/// No two values share a word.
pub proof fn lemma_value_names_differ(a: Value, b: Value)
    requires
        value_name(a) == value_name(b),
    ensures
        a == b,
{
    // The length of a word, its second character and its sixth tell it from the others.
    reveal_strlit("default");
    assert("default"@.len() == 7 && "default"@[1] == 'e' && "default"@[5] == 'l');
    reveal_strlit("success");
    assert("success"@.len() == 7 && "success"@[1] == 'u' && "success"@[5] == 's');
    reveal_strlit("open_err");
    assert("open_err"@.len() == 8 && "open_err"@[1] == 'p' && "open_err"@[5] == 'e');
    reveal_strlit("symbol_err");
    assert("symbol_err"@.len() == 10 && "symbol_err"@[1] == 'y' && "symbol_err"@[5] == 'l');
    reveal_strlit("service_err");
    assert("service_err"@.len() == 11 && "service_err"@[1] == 'e' && "service_err"@[5] == 'c');
    reveal_strlit("system_err");
    assert("system_err"@.len() == 10 && "system_err"@[1] == 'y' && "system_err"@[5] == 'm');
    reveal_strlit("buf_err");
    assert("buf_err"@.len() == 7 && "buf_err"@[1] == 'u' && "buf_err"@[5] == 'r');
    reveal_strlit("perm_denied");
    assert("perm_denied"@.len() == 11 && "perm_denied"@[1] == 'e' && "perm_denied"@[5] == 'd');
    reveal_strlit("auth_err");
    assert("auth_err"@.len() == 8 && "auth_err"@[1] == 'u' && "auth_err"@[5] == 'e');
    reveal_strlit("cred_insufficient");
    assert("cred_insufficient"@.len() == 17 && "cred_insufficient"@[1] == 'r' && "cred_insufficient"@[5] == 'i');
    reveal_strlit("authinfo_unavail");
    assert("authinfo_unavail"@.len() == 16 && "authinfo_unavail"@[1] == 'u' && "authinfo_unavail"@[5] == 'n');
    reveal_strlit("user_unknown");
    assert("user_unknown"@.len() == 12 && "user_unknown"@[1] == 's' && "user_unknown"@[5] == 'u');
    reveal_strlit("maxtries");
    assert("maxtries"@.len() == 8 && "maxtries"@[1] == 'a' && "maxtries"@[5] == 'i');
    reveal_strlit("new_authtok_reqd");
    assert("new_authtok_reqd"@.len() == 16 && "new_authtok_reqd"@[1] == 'e' && "new_authtok_reqd"@[5] == 'u');
    reveal_strlit("acct_expired");
    assert("acct_expired"@.len() == 12 && "acct_expired"@[1] == 'c' && "acct_expired"@[5] == 'e');
    reveal_strlit("session_err");
    assert("session_err"@.len() == 11 && "session_err"@[1] == 'e' && "session_err"@[5] == 'o');
    reveal_strlit("cred_unavail");
    assert("cred_unavail"@.len() == 12 && "cred_unavail"@[1] == 'r' && "cred_unavail"@[5] == 'u');
    reveal_strlit("cred_expired");
    assert("cred_expired"@.len() == 12 && "cred_expired"@[1] == 'r' && "cred_expired"@[5] == 'e');
    reveal_strlit("cred_err");
    assert("cred_err"@.len() == 8 && "cred_err"@[1] == 'r' && "cred_err"@[5] == 'e');
    reveal_strlit("no_module_data");
    assert("no_module_data"@.len() == 14 && "no_module_data"@[1] == 'o' && "no_module_data"@[5] == 'd');
    reveal_strlit("conv_err");
    assert("conv_err"@.len() == 8 && "conv_err"@[1] == 'o' && "conv_err"@[5] == 'e');
    reveal_strlit("authtok_err");
    assert("authtok_err"@.len() == 11 && "authtok_err"@[1] == 'u' && "authtok_err"@[5] == 'o');
    reveal_strlit("authtok_recover_err");
    assert("authtok_recover_err"@.len() == 19 && "authtok_recover_err"@[1] == 'u' && "authtok_recover_err"@[5] == 'o');
    reveal_strlit("authtok_lock_busy");
    assert("authtok_lock_busy"@.len() == 17 && "authtok_lock_busy"@[1] == 'u' && "authtok_lock_busy"@[5] == 'o');
    reveal_strlit("authtok_disable_aging");
    assert("authtok_disable_aging"@.len() == 21 && "authtok_disable_aging"@[1] == 'u' && "authtok_disable_aging"@[5] == 'o');
    reveal_strlit("try_again");
    assert("try_again"@.len() == 9 && "try_again"@[1] == 'r' && "try_again"@[5] == 'g');
    reveal_strlit("ignore");
    assert("ignore"@.len() == 6 && "ignore"@[1] == 'g' && "ignore"@[5] == 'e');
    reveal_strlit("abort");
    assert("abort"@.len() == 5 && "abort"@[1] == 'b');
    reveal_strlit("authtok_expired");
    assert("authtok_expired"@.len() == 15 && "authtok_expired"@[1] == 'u' && "authtok_expired"@[5] == 'o');
    reveal_strlit("module_unknown");
    assert("module_unknown"@.len() == 14 && "module_unknown"@[1] == 'o' && "module_unknown"@[5] == 'e');
    reveal_strlit("bad_item");
    assert("bad_item"@.len() == 8 && "bad_item"@[1] == 'a' && "bad_item"@[5] == 't');
    reveal_strlit("conv_again");
    assert("conv_again"@.len() == 10 && "conv_again"@[1] == 'o' && "conv_again"@[5] == 'a');
    reveal_strlit("incomplete");
    assert("incomplete"@.len() == 10 && "incomplete"@[1] == 'n' && "incomplete"@[5] == 'p');
}

/// The word for a value names that value and no other.
pub proof fn lemma_parse_value_name(value: Value)
    ensures
        spec_parse_value(value_name(value)) == Ok::<Value, ()>(value),
{
    let s = value_name(value);
    let found = choose|v: Value| #[trigger] value_name(v) == s;
    lemma_value_names_differ(found, value);
}

impl Value {
    /// The word that stands for this value in a selection.
    pub fn name(self) -> (r: &'static str)
        ensures
            r@ == value_name(self),
    {
        match self {
            Value::Default => "default",
            Value::ReturnCode(ReturnCode::Success) => "success",
            Value::ReturnCode(ReturnCode::OpenError) => "open_err",
            Value::ReturnCode(ReturnCode::SymbolError) => "symbol_err",
            Value::ReturnCode(ReturnCode::ServiceError) => "service_err",
            Value::ReturnCode(ReturnCode::SystemError) => "system_err",
            Value::ReturnCode(ReturnCode::BufError) => "buf_err",
            Value::ReturnCode(ReturnCode::PermissionDenied) => "perm_denied",
            Value::ReturnCode(ReturnCode::AuthenticationError) => "auth_err",
            Value::ReturnCode(ReturnCode::CredentialsInsufficient) => "cred_insufficient",
            Value::ReturnCode(ReturnCode::AuthInfoUnavailable) => "authinfo_unavail",
            Value::ReturnCode(ReturnCode::UserUnknown) => "user_unknown",
            Value::ReturnCode(ReturnCode::MaximumTriesReached) => "maxtries",
            Value::ReturnCode(ReturnCode::NewAuthTokenRequired) => "new_authtok_reqd",
            Value::ReturnCode(ReturnCode::AccountExpired) => "acct_expired",
            Value::ReturnCode(ReturnCode::SessionError) => "session_err",
            Value::ReturnCode(ReturnCode::CredentialsUnavailable) => "cred_unavail",
            Value::ReturnCode(ReturnCode::CredentialsExpired) => "cred_expired",
            Value::ReturnCode(ReturnCode::CredentialsError) => "cred_err",
            Value::ReturnCode(ReturnCode::NoModuleData) => "no_module_data",
            Value::ReturnCode(ReturnCode::ConversationError) => "conv_err",
            Value::ReturnCode(ReturnCode::AuthTokenManipulationError) => "authtok_err",
            Value::ReturnCode(ReturnCode::AuthTokenRecoverError) => "authtok_recover_err",
            Value::ReturnCode(ReturnCode::AuthTokenLockBusy) => "authtok_lock_busy",
            Value::ReturnCode(ReturnCode::AuthTokenDisableAging) => "authtok_disable_aging",
            Value::ReturnCode(ReturnCode::TryAgain) => "try_again",
            Value::ReturnCode(ReturnCode::Ignore) => "ignore",
            Value::ReturnCode(ReturnCode::Abort) => "abort",
            Value::ReturnCode(ReturnCode::AuthTokenExpired) => "authtok_expired",
            Value::ReturnCode(ReturnCode::ModuleUnknown) => "module_unknown",
            Value::ReturnCode(ReturnCode::BadItem) => "bad_item",
            Value::ReturnCode(ReturnCode::ConversationAgain) => "conv_again",
            Value::ReturnCode(ReturnCode::Incomplete) => "incomplete",
        }
    }

    /// Reads a value from its word.
    pub fn from_str(s: &str) -> (r: Result<Value, ()>)
        ensures
            r == spec_parse_value(s@),
    {
        let r = if s.eq("default") {
            Ok(Value::Default)
        } else if s.eq("success") {
            Ok(Value::ReturnCode(ReturnCode::Success))
        } else if s.eq("open_err") {
            Ok(Value::ReturnCode(ReturnCode::OpenError))
        } else if s.eq("symbol_err") {
            Ok(Value::ReturnCode(ReturnCode::SymbolError))
        } else if s.eq("service_err") {
            Ok(Value::ReturnCode(ReturnCode::ServiceError))
        } else if s.eq("system_err") {
            Ok(Value::ReturnCode(ReturnCode::SystemError))
        } else if s.eq("buf_err") {
            Ok(Value::ReturnCode(ReturnCode::BufError))
        } else if s.eq("perm_denied") {
            Ok(Value::ReturnCode(ReturnCode::PermissionDenied))
        } else if s.eq("auth_err") {
            Ok(Value::ReturnCode(ReturnCode::AuthenticationError))
        } else if s.eq("cred_insufficient") {
            Ok(Value::ReturnCode(ReturnCode::CredentialsInsufficient))
        } else if s.eq("authinfo_unavail") {
            Ok(Value::ReturnCode(ReturnCode::AuthInfoUnavailable))
        } else if s.eq("user_unknown") {
            Ok(Value::ReturnCode(ReturnCode::UserUnknown))
        } else if s.eq("maxtries") {
            Ok(Value::ReturnCode(ReturnCode::MaximumTriesReached))
        } else if s.eq("new_authtok_reqd") {
            Ok(Value::ReturnCode(ReturnCode::NewAuthTokenRequired))
        } else if s.eq("acct_expired") {
            Ok(Value::ReturnCode(ReturnCode::AccountExpired))
        } else if s.eq("session_err") {
            Ok(Value::ReturnCode(ReturnCode::SessionError))
        } else if s.eq("cred_unavail") {
            Ok(Value::ReturnCode(ReturnCode::CredentialsUnavailable))
        } else if s.eq("cred_expired") {
            Ok(Value::ReturnCode(ReturnCode::CredentialsExpired))
        } else if s.eq("cred_err") {
            Ok(Value::ReturnCode(ReturnCode::CredentialsError))
        } else if s.eq("no_module_data") {
            Ok(Value::ReturnCode(ReturnCode::NoModuleData))
        } else if s.eq("conv_err") {
            Ok(Value::ReturnCode(ReturnCode::ConversationError))
        } else if s.eq("authtok_err") {
            Ok(Value::ReturnCode(ReturnCode::AuthTokenManipulationError))
        } else if s.eq("authtok_recover_err") {
            Ok(Value::ReturnCode(ReturnCode::AuthTokenRecoverError))
        } else if s.eq("authtok_lock_busy") {
            Ok(Value::ReturnCode(ReturnCode::AuthTokenLockBusy))
        } else if s.eq("authtok_disable_aging") {
            Ok(Value::ReturnCode(ReturnCode::AuthTokenDisableAging))
        } else if s.eq("try_again") {
            Ok(Value::ReturnCode(ReturnCode::TryAgain))
        } else if s.eq("ignore") {
            Ok(Value::ReturnCode(ReturnCode::Ignore))
        } else if s.eq("abort") {
            Ok(Value::ReturnCode(ReturnCode::Abort))
        } else if s.eq("authtok_expired") {
            Ok(Value::ReturnCode(ReturnCode::AuthTokenExpired))
        } else if s.eq("module_unknown") {
            Ok(Value::ReturnCode(ReturnCode::ModuleUnknown))
        } else if s.eq("bad_item") {
            Ok(Value::ReturnCode(ReturnCode::BadItem))
        } else if s.eq("conv_again") {
            Ok(Value::ReturnCode(ReturnCode::ConversationAgain))
        } else if s.eq("incomplete") {
            Ok(Value::ReturnCode(ReturnCode::Incomplete))
        } else {
            Err(())
        };
        proof {
            match r {
                Ok(v) => {
                    lemma_parse_value_name(v);
                },
                Err(_) => {
                    assert forall|v: Value| #[trigger] value_name(v) != s@ by {
                        match v {
                            Value::Default => {},
                            Value::ReturnCode(code) => {},
                        }
                    }
                },
            }
        }
        r
    }
}

/// The text that stands for an action in a selection: its word, or the
/// count of a jump in base ten.
pub open spec fn action_text(action: Action) -> Seq<char> {
    match action {
        Action::Ignore => "ignore"@,
        Action::Bad => "bad"@,
        Action::Die => "die"@,
        Action::Okay => "ok"@,
        Action::Done => "done"@,
        Action::Reset => "reset"@,
        Action::JumpOver(n) => decimal_text(n as nat),
    }
}

/// The action that `s` writes.
///
/// The empty text is refused, the six words name their actions, and anything
/// else is read as a count in base ten, digit by digit from the left: the
/// first digit at which the count leaves `u32`, or the first character that
/// is no digit, whichever comes first, is the error; a count of 0 is refused.
pub open spec fn spec_parse_action(s: Seq<char>) -> Result<Action, ControlParseErrorView> {
    let digits = run_len(s, CharClass::Digit) as int;
    if s.len() == 0 {
        Err(ControlParseErrorView::EmptyString)
    } else if s == "ignore"@ {
        Ok(Action::Ignore)
    } else if s == "bad"@ {
        Ok(Action::Bad)
    } else if s == "die"@ {
        Ok(Action::Die)
    } else if s == "ok"@ {
        Ok(Action::Okay)
    } else if s == "done"@ {
        Ok(Action::Done)
    } else if s == "reset"@ {
        Ok(Action::Reset)
    } else if decimal_value(s.take(digits)) > u32::MAX {
        Err(ControlParseErrorView::JumpOverflow)
    } else if digits < s.len() {
        Err(ControlParseErrorView::ExpectedDigit)
    } else if decimal_value(s) == 0 {
        Err(ControlParseErrorView::ZeroJump)
    } else {
        Ok(Action::JumpOver(decimal_value(s) as u32))
    }
}

impl Action {
    /// Reads an action from its text.
    #[verifier::loop_isolation(false)]
    pub fn from_str(s: &str) -> (r: Result<Action, ControlParseError>)
        ensures
            match r {
                Ok(action) => spec_parse_action(s@) == Ok::<Action, ControlParseErrorView>(action),
                Err(e) => spec_parse_action(s@) == Err::<Action, ControlParseErrorView>(e@),
            },
            r matches Ok(Action::JumpOver(n)) ==> n > 0,
    {
        if s.is_empty() {
            return Err(ControlParseError::EmptyString);
        }
        if s.eq("ignore") {
            return Ok(Action::Ignore);
        }
        if s.eq("bad") {
            return Ok(Action::Bad);
        }
        if s.eq("die") {
            return Ok(Action::Die);
        }
        if s.eq("ok") {
            return Ok(Action::Okay);
        }
        if s.eq("done") {
            return Ok(Action::Done);
        }
        if s.eq("reset") {
            return Ok(Action::Reset);
        }
        let chars = chars_of(s);
        let ghost digits = run_len(s@, CharClass::Digit) as int;
        proof {
            lemma_run_len(s@, CharClass::Digit);
        }
        let mut num: u32 = 0;
        let mut i: usize = 0;
        while i < chars.len()
            invariant
                chars@ == s@,
                i <= chars@.len(),
                i <= digits <= s@.len(),
                digits == run_len(s@, CharClass::Digit),
                num == decimal_value(s@.take(i as int)),
            decreases chars@.len() - i,
        {
            let c = chars[i];
            if !(c >= '0' && c <= '9') {
                proof {
                    lemma_run_len(s@, CharClass::Digit);
                    assert(digits == i);
                }
                return Err(ControlParseError::ExpectedDigit);
            }
            proof {
                lemma_run_len(s@, CharClass::Digit);
                assert(digits > i);
                assert(s@.take(i + 1).drop_last() =~= s@.take(i as int));
                assert(s@.take(i + 1).last() == c);
                lemma_decimal_value_grows(s@, i + 1, digits);
            }
            let digit: u32 = c as u32 - '0' as u32;
            assert(digit == digit_of(c));
            let Some(tens) = num.checked_mul(10) else {
                return Err(ControlParseError::JumpOverflow);
            };
            let Some(next) = tens.checked_add(digit) else {
                return Err(ControlParseError::JumpOverflow);
            };
            num = next;
            i += 1;
        }
        proof {
            assert(s@.take(i as int) =~= s@);
        }
        if num == 0 {
            return Err(ControlParseError::ZeroJump);
        }
        Ok(Action::JumpOver(num))
    }

    /// Writes the action as it stands in a selection.
    pub fn to_string(&self) -> (r: String)
        ensures
            r@ == action_text(*self),
    {
        match self {
            Action::Ignore => String::from_str("ignore"),
            Action::Bad => String::from_str("bad"),
            Action::Die => String::from_str("die"),
            Action::Okay => String::from_str("ok"),
            Action::Done => String::from_str("done"),
            Action::Reset => String::from_str("reset"),
            Action::JumpOver(n) => {
                let mut out = String::new();
                push_decimal(&mut out, *n);
                assert(out@ =~= decimal_text(*n as nat));
                out
            },
        }
    }
}

/// The pair that `s` writes: the value before the first `=` and the action
/// behind it.
pub open spec fn spec_parse_item(s: Seq<char>) -> Result<SelectionItem, ControlParseErrorView> {
    let equals = run_len(s, CharClass::Other('=')) as int;
    let value = s.take(equals);
    let action = s.skip(equals + 1);
    if equals >= s.len() {
        Err(ControlParseErrorView::ExpectedEquals)
    } else {
        match spec_parse_value(value) {
            Err(_) => Err(ControlParseErrorView::UnknownValue(value)),
            Ok(v) => match spec_parse_action(action) {
                Err(_) => Err(ControlParseErrorView::UnknownAction(action)),
                Ok(a) => Ok(SelectionItem { value: v, action: a }),
            },
        }
    }
}

/// The parts of `s` between the occurrences of `separator`: one more than
/// there are occurrences.
pub open spec fn spec_split(s: Seq<char>, separator: char) -> Seq<Seq<char>>
    decreases s.len(),
{
    let p = run_len(s, CharClass::Other(separator)) as int;
    if p < s.len() {
        proof {
            lemma_run_len(s, CharClass::Other(separator));
        }
        seq![s.take(p)] + spec_split(s.skip(p + 1), separator)
    } else {
        seq![s]
    }
}

/// The pairs that `parts` write, or the error of the first part that writes none.
pub open spec fn spec_parse_items(parts: Seq<Seq<char>>) -> Result<
    Seq<SelectionItem>,
    ControlParseErrorView,
>
    decreases parts.len(),
{
    if parts.len() == 0 {
        Ok(Seq::empty())
    } else {
        match spec_parse_item(parts[0]) {
            Err(e) => Err(e),
            Ok(item) => match spec_parse_items(parts.drop_first()) {
                Err(e) => Err(e),
                Ok(rest) => Ok(seq![item] + rest),
            },
        }
    }
}

/// The selection that `s` writes: `[`, pairs with one space between them,
/// and `]`.
pub open spec fn spec_parse_selection(s: Seq<char>) -> Result<
    Seq<SelectionItem>,
    ControlParseErrorView,
> {
    if s.len() == 0 || s[0] != '[' {
        Err(ControlParseErrorView::UnknownPreset(s))
    } else if s.last() != ']' {
        Err(ControlParseErrorView::UnclosedSelection)
    } else {
        spec_parse_items(spec_split(s.subrange(1, s.len() - 1), ' '))
    }
}

/// The control that `s` writes: one of the six preset words, or a selection.
pub open spec fn spec_parse_control(s: Seq<char>) -> Result<ControlView, ControlParseErrorView> {
    if s == "required"@ {
        Ok(ControlView::Required)
    } else if s == "requisite"@ {
        Ok(ControlView::Requisite)
    } else if s == "sufficient"@ {
        Ok(ControlView::Sufficient)
    } else if s == "optional"@ {
        Ok(ControlView::Optional)
    } else if s == "include"@ {
        Ok(ControlView::Include)
    } else if s == "substack"@ {
        Ok(ControlView::Substack)
    } else {
        match spec_parse_selection(s) {
            Ok(items) => Ok(ControlView::Selection(items)),
            Err(e) => Err(e),
        }
    }
}

/// The text of a pair.
pub open spec fn item_text(item: SelectionItem) -> Seq<char> {
    value_name(item.value) + seq!['='] + action_text(item.action)
}

/// The texts of the pairs with one space between each two.
pub open spec fn items_text(items: Seq<SelectionItem>) -> Seq<char>
    decreases items.len(),
{
    if items.len() == 0 {
        Seq::empty()
    } else if items.len() == 1 {
        item_text(items[0])
    } else {
        item_text(items[0]) + seq![' '] + items_text(items.drop_first())
    }
}

/// The text of a control: its word, or its pairs between brackets.
pub open spec fn control_text(control: ControlView) -> Seq<char> {
    match control {
        ControlView::Required => "required"@,
        ControlView::Requisite => "requisite"@,
        ControlView::Sufficient => "sufficient"@,
        ControlView::Optional => "optional"@,
        ControlView::Include => "include"@,
        ControlView::Substack => "substack"@,
        ControlView::Selection(items) => seq!['['] + items_text(items) + seq![']'],
    }
}

impl SelectionItem {
    /// Reads a pair from `value=action`.
    pub fn from_str(s: &str) -> (r: Result<SelectionItem, ControlParseError>)
        ensures
            match r {
                Ok(item) => spec_parse_item(s@) == Ok::<SelectionItem, ControlParseErrorView>(
                    item,
                ),
                Err(e) => spec_parse_item(s@) == Err::<SelectionItem, ControlParseErrorView>(e@),
            },
            r matches Ok(item) ==> (item.action matches Action::JumpOver(n) ==> n > 0),
    {
        let chars = chars_of(s);
        assert(chars@.skip(0) =~= chars@);
        let equals_position = scan_run(chars.as_slice(), 0, CharClass::Other('='));
        if equals_position >= chars.len() {
            return Err(ControlParseError::ExpectedEquals);
        }
        let value = string_of_range(chars.as_slice(), 0, equals_position);
        let action = string_of_range(chars.as_slice(), equals_position + 1, chars.len());
        assert(value@ =~= s@.take(equals_position as int));
        assert(action@ =~= s@.skip(equals_position + 1));
        let Ok(value) = Value::from_str(value.as_str()) else {
            return Err(ControlParseError::UnknownValue(value));
        };
        let Ok(action) = Action::from_str(action.as_str()) else {
            return Err(ControlParseError::UnknownAction(action));
        };
        Ok(SelectionItem { value, action })
    }

    /// Writes the pair as `value=action`.
    pub fn to_string(&self) -> (r: String)
        ensures
            r@ == item_text(*self),
    {
        let mut out = String::from_str(self.value.name());
        out.push('=');
        let action = self.action.to_string();
        out.append(action.as_str());
        assert(out@ =~= item_text(*self));
        out
    }
}

impl Selection {
    /// Reads a selection from `[value=action ...]`.
    #[verifier::loop_isolation(false)]
    pub fn from_str(s: &str) -> (r: Result<Selection, ControlParseError>)
        ensures
            match r {
                Ok(selection) => spec_parse_selection(s@) == Ok::<
                    Seq<SelectionItem>,
                    ControlParseErrorView,
                >(selection@),
                Err(e) => spec_parse_selection(s@) == Err::<
                    Seq<SelectionItem>,
                    ControlParseErrorView,
                >(e@),
            },
    {
        let chars = chars_of(s);
        if chars.len() == 0 || chars[0] != '[' {
            return Err(ControlParseError::UnknownPreset(s.to_owned()));
        }
        if chars[chars.len() - 1] != ']' {
            return Err(ControlParseError::UnclosedSelection);
        }
        let inner: &[char] = &chars.as_slice()[1..chars.len() - 1];
        assert(inner@ =~= s@.subrange(1, s@.len() - 1));
        assert(inner@.skip(0) =~= inner@);
        let ghost whole = spec_parse_items(spec_split(inner@, ' '));
        let mut items: Vec<SelectionItem> = Vec::new();
        let mut start: usize = 0;
        loop
            invariant
                start <= inner@.len(),
                whole == spec_parse_items(spec_split(inner@, ' ')),
                whole == match spec_parse_items(spec_split(inner@.skip(start as int), ' ')) {
                    Ok(rest) => Ok(items@ + rest),
                    Err(e) => Err(e),
                },
            decreases inner@.len() - start,
        {
            let ghost here = inner@.skip(start as int);
            let end = scan_run(inner, start, CharClass::Other(' '));
            let item_str = string_of_range(inner, start, end);
            let ghost parts = spec_split(here, ' ');
            proof {
                lemma_run_len(here, CharClass::Other(' '));
                assert(here.take(end - start) =~= item_str@);
                if end < inner@.len() {
                    assert(here.skip(end - start + 1) =~= inner@.skip(end + 1));
                    let tail = spec_split(inner@.skip(end + 1), ' ');
                    assert(parts == seq![item_str@] + tail);
                    assert(parts[0] == item_str@);
                    assert(parts.drop_first() =~= tail);
                } else {
                    assert(here =~= item_str@);
                    assert(parts == seq![item_str@]);
                    assert(parts[0] == item_str@);
                    assert(parts.drop_first() =~= Seq::<Seq<char>>::empty());
                }
                assert(parts.len() > 0);
            }
            let item = match SelectionItem::from_str(item_str.as_str()) {
                Ok(item) => item,
                Err(e) => {
                    return Err(e);
                },
            };
            let ghost before = items@;
            items.push(item);
            proof {
                let rest = spec_parse_items(parts.drop_first());
                if rest is Ok {
                    assert(items@ + rest->Ok_0 =~= before + (seq![item] + rest->Ok_0));
                }
            }
            if end >= inner.len() {
                assert(items@ + Seq::<SelectionItem>::empty() =~= items@);
                return Ok(Selection(items));
            }
            start = end + 1;
        }
    }

    /// Writes the selection as `[value=action ...]`.
    pub fn to_string(&self) -> (r: String)
        ensures
            r@ == control_text(ControlView::Selection(self@)),
    {
        let mut out = String::from_str("[");
        proof {
            reveal_strlit("[");
            assert(out@ =~= seq!['[']);
        }
        let mut i: usize = 0;
        assert(self.0@.skip(0) =~= self.0@);
        while i < self.0.len()
            invariant
                i <= self.0@.len(),
                out@ + items_text(self.0@.skip(i as int)) == seq!['['] + items_text(self.0@),
            decreases self.0@.len() - i,
        {
            let ghost rest = self.0@.skip(i as int);
            let ghost before = out@;
            let item = self.0[i].to_string();
            out.append(item.as_str());
            proof {
                assert(rest[0] == self.0@[i as int]);
                assert(rest.drop_first() =~= self.0@.skip(i + 1));
            }
            if i != self.0.len() - 1 {
                out.push(' ');
                assert(out@ + items_text(rest.drop_first()) =~= before + (item_text(rest[0])
                    + seq![' '] + items_text(rest.drop_first())));
            } else {
                assert(items_text(rest.drop_first()) =~= Seq::<char>::empty());
                assert(out@ + items_text(rest.drop_first()) =~= before + item_text(rest[0]));
            }
            i += 1;
        }
        proof {
            assert(items_text(self.0@.skip(i as int)) =~= Seq::<char>::empty());
            assert(out@ =~= out@ + items_text(self.0@.skip(i as int)));
        }
        out.push(']');
        out
    }
}

impl Control {
    /// Reads the control field of a rule.
    pub fn from_str(s: &str) -> (r: Result<Control, ControlParseError>)
        ensures
            match r {
                Ok(control) => spec_parse_control(s@) == Ok::<ControlView, ControlParseErrorView>(
                    control@,
                ),
                Err(e) => spec_parse_control(s@) == Err::<ControlView, ControlParseErrorView>(e@),
            },
    {
        if s.eq("required") {
            Ok(Control::Required)
        } else if s.eq("requisite") {
            Ok(Control::Requisite)
        } else if s.eq("sufficient") {
            Ok(Control::Sufficient)
        } else if s.eq("optional") {
            Ok(Control::Optional)
        } else if s.eq("include") {
            Ok(Control::Include)
        } else if s.eq("substack") {
            Ok(Control::Substack)
        } else {
            match Selection::from_str(s) {
                Ok(selection) => Ok(Control::Selection(selection)),
                Err(e) => Err(e),
            }
        }
    }

    /// Writes the control as it stands in a rule.
    pub fn to_string(&self) -> (r: String)
        ensures
            r@ == control_text(self@),
    {
        match self {
            Control::Required => String::from_str("required"),
            Control::Requisite => String::from_str("requisite"),
            Control::Sufficient => String::from_str("sufficient"),
            Control::Optional => String::from_str("optional"),
            Control::Include => String::from_str("include"),
            Control::Substack => String::from_str("substack"),
            Control::Selection(selection) => selection.to_string(),
        }
    }
}

} // verus!
