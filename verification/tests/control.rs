use pamoxide::control::{Action, Control, ControlParseError, Selection, SelectionItem, Value};
use pamoxide::return_code::ReturnCode;

#[test]
fn control() {
    assert_eq!(Control::from_str("required"), Ok(Control::Required));
    assert_eq!(Control::from_str("requisite"), Ok(Control::Requisite));
    assert_eq!(Control::from_str("sufficient"), Ok(Control::Sufficient));
    assert_eq!(Control::from_str("optional"), Ok(Control::Optional));
    assert_eq!(Control::from_str("include"), Ok(Control::Include));
    assert_eq!(Control::from_str("substack"), Ok(Control::Substack));
    assert_eq!(
        Control::from_str("Required"),
        Err(ControlParseError::UnknownPreset("Required".to_string()))
    );
    assert_eq!(Control::from_str(""), Err(ControlParseError::UnknownPreset("".to_string())));
}

#[test]
fn selection() {
    let selection = Selection::from_str("[incomplete=ignore]");
    assert!(selection.is_ok());
    let Selection(items) = selection.unwrap();
    assert_eq!(items.len(), 1);
    let SelectionItem { value, action } = items[0];
    assert_eq!(value, Value::ReturnCode(ReturnCode::Incomplete));
    assert_eq!(action, Action::Ignore);

    assert!(Selection::from_str("default=bad").is_err());
    assert!(Selection::from_str("[=xyz]").is_err());
    assert!(Selection::from_str("[default=xyz]").is_err());
}

fn check_item(s: &str, expected_value: Value, expected_action: Action) {
    let item = SelectionItem::from_str(s);
    assert!(item.is_ok());
    let SelectionItem { value, action } = item.unwrap();
    assert_eq!(value, expected_value);
    assert_eq!(action, expected_action);
}

#[test]
fn selection_item() {
    check_item("incomplete=ignore", Value::ReturnCode(ReturnCode::Incomplete), Action::Ignore);
    check_item("default=bad", Value::Default, Action::Bad);
    assert_eq!(
        SelectionItem::from_str("=xyz"),
        Err(ControlParseError::UnknownValue("".to_string()))
    );
    assert_eq!(
        SelectionItem::from_str("default=xyz"),
        Err(ControlParseError::UnknownAction("xyz".to_string()))
    );
}

#[test]
fn value() {
    assert_eq!(Value::from_str("default"), Result::Ok(Value::Default));
    assert_eq!(
        Value::from_str("auth_err"),
        Result::Ok(Value::ReturnCode(ReturnCode::AuthenticationError))
    );
    assert_eq!(Value::from_str("incomplete"), Result::Ok(Value::ReturnCode(ReturnCode::Incomplete)));

    assert!(Value::from_str("").is_err());
    assert!(Value::from_str("abc").is_err());
}

#[test]
fn action() {
    assert_eq!(Action::from_str("ignore"), Result::Ok(Action::Ignore));
    assert_eq!(Action::from_str("bad"), Result::Ok(Action::Bad));
    assert_eq!(Action::from_str("die"), Result::Ok(Action::Die));
    assert_eq!(Action::from_str("ok"), Result::Ok(Action::Okay));
    assert_eq!(Action::from_str("done"), Result::Ok(Action::Done));
    assert_eq!(Action::from_str("reset"), Result::Ok(Action::Reset));
    assert_eq!(Action::from_str("123"), Result::Ok(Action::JumpOver(123)));

    assert!(Action::from_str("").is_err());
    assert!(Action::from_str("abc").is_err());
    assert!(Action::from_str("-1").is_err());
    assert!(Action::from_str("123a").is_err());
    assert!(Action::from_str("9999999999999").is_err());
}

#[test]
fn action_errors_by_kind() {
    assert_eq!(Action::from_str(""), Err(ControlParseError::EmptyString));
    assert_eq!(Action::from_str("0"), Err(ControlParseError::ZeroJump));
    assert_eq!(Action::from_str("000"), Err(ControlParseError::ZeroJump));
    assert_eq!(Action::from_str("abc"), Err(ControlParseError::ExpectedDigit));
    assert_eq!(Action::from_str("-1"), Err(ControlParseError::ExpectedDigit));
    assert_eq!(Action::from_str("123a"), Err(ControlParseError::ExpectedDigit));
    assert_eq!(Action::from_str("9999999999999"), Err(ControlParseError::JumpOverflow));
    assert_eq!(Action::from_str("4294967296"), Err(ControlParseError::JumpOverflow));
    assert_eq!(Action::from_str("9999999999999a"), Err(ControlParseError::JumpOverflow));
    assert_eq!(Action::from_str("42949672a95"), Err(ControlParseError::ExpectedDigit));
}

#[test]
fn action_reads_the_whole_range_of_counts() {
    assert_eq!(Action::from_str("1"), Ok(Action::JumpOver(1)));
    assert_eq!(Action::from_str("007"), Ok(Action::JumpOver(7)));
    assert_eq!(Action::from_str("4294967295"), Ok(Action::JumpOver(u32::MAX)));
}

#[test]
fn selection_keeps_its_pairs_in_order() {
    let control = Control::from_str("[success=1 default=ignore]");
    assert_eq!(
        control,
        Ok(Control::Selection(Selection(vec![
            SelectionItem { value: Value::ReturnCode(ReturnCode::Success), action: Action::JumpOver(1) },
            SelectionItem { value: Value::Default, action: Action::Ignore },
        ])))
    );
}

#[test]
fn selection_with_unknown_action_is_refused() {
    assert_eq!(
        Control::from_str("[success=1 default=bogus]"),
        Err(ControlParseError::UnknownAction("bogus".to_string()))
    );
}

#[test]
fn selection_errors_by_kind() {
    assert_eq!(Control::from_str("[success=1"), Err(ControlParseError::UnclosedSelection));
    assert_eq!(Control::from_str("["), Err(ControlParseError::UnclosedSelection));
    assert_eq!(Control::from_str("[]"), Err(ControlParseError::ExpectedEquals));
    assert_eq!(Control::from_str("[success]"), Err(ControlParseError::ExpectedEquals));
    assert_eq!(Control::from_str("[success=1  default=ok]"), Err(ControlParseError::ExpectedEquals));
    assert_eq!(
        Control::from_str("[succes=1]"),
        Err(ControlParseError::UnknownValue("succes".to_string()))
    );
    assert_eq!(
        Control::from_str("[success=0]"),
        Err(ControlParseError::UnknownAction("0".to_string()))
    );
    assert_eq!(
        Control::from_str("[success=ok=1]"),
        Err(ControlParseError::UnknownAction("ok=1".to_string()))
    );
    assert_eq!(
        Control::from_str("success=1"),
        Err(ControlParseError::UnknownPreset("success=1".to_string()))
    );
}

#[test]
fn every_value_reads_back_from_its_name() {
    let codes = [
        ReturnCode::Success,
        ReturnCode::OpenError,
        ReturnCode::SymbolError,
        ReturnCode::ServiceError,
        ReturnCode::SystemError,
        ReturnCode::BufError,
        ReturnCode::PermissionDenied,
        ReturnCode::AuthenticationError,
        ReturnCode::CredentialsInsufficient,
        ReturnCode::AuthInfoUnavailable,
        ReturnCode::UserUnknown,
        ReturnCode::MaximumTriesReached,
        ReturnCode::NewAuthTokenRequired,
        ReturnCode::AccountExpired,
        ReturnCode::SessionError,
        ReturnCode::CredentialsUnavailable,
        ReturnCode::CredentialsExpired,
        ReturnCode::CredentialsError,
        ReturnCode::NoModuleData,
        ReturnCode::ConversationError,
        ReturnCode::AuthTokenManipulationError,
        ReturnCode::AuthTokenRecoverError,
        ReturnCode::AuthTokenLockBusy,
        ReturnCode::AuthTokenDisableAging,
        ReturnCode::TryAgain,
        ReturnCode::Ignore,
        ReturnCode::Abort,
        ReturnCode::AuthTokenExpired,
        ReturnCode::ModuleUnknown,
        ReturnCode::BadItem,
        ReturnCode::ConversationAgain,
        ReturnCode::Incomplete,
    ];
    let mut number = 0;
    for code in codes {
        let value = Value::ReturnCode(code);
        assert_eq!(Value::from_str(value.name()), Ok(value));
        assert_eq!(code.code(), number);
        number += 1;
    }
    assert_eq!(Value::from_str(Value::Default.name()), Ok(Value::Default));
    assert_eq!(Value::ReturnCode(ReturnCode::NewAuthTokenRequired).name(), "new_authtok_reqd");
    assert_eq!(Value::ReturnCode(ReturnCode::AuthTokenRecoverError).name(), "authtok_recover_err");
}

#[test]
fn control_reads_back_from_its_text() {
    let texts = [
        "required",
        "requisite",
        "sufficient",
        "optional",
        "include",
        "substack",
        "[success=1 default=ignore]",
        "[default=die]",
        "[success=ok new_authtok_reqd=done ignore=ignore default=bad]",
        "[user_unknown=4294967295 authinfo_unavail=reset]",
    ];
    for text in texts {
        let control = Control::from_str(text).unwrap();
        assert_eq!(control.to_string(), text);
        assert_eq!(Control::from_str(&control.to_string()), Ok(control));
    }
    let control = Control::from_str("[success=0012 default=ok]").unwrap();
    assert_eq!(control.to_string(), "[success=12 default=ok]");
    assert_eq!(Control::from_str(&control.to_string()), Ok(control));
}

#[test]
fn action_writes_its_word_or_its_count() {
    assert_eq!(Action::Okay.to_string(), "ok");
    assert_eq!(Action::Reset.to_string(), "reset");
    assert_eq!(Action::JumpOver(7).to_string(), "7");
    assert_eq!(Action::JumpOver(120).to_string(), "120");
    assert_eq!(Action::JumpOver(u32::MAX).to_string(), "4294967295");
    let item = SelectionItem { value: Value::Default, action: Action::JumpOver(10) };
    assert_eq!(item.to_string(), "default=10");
    assert_eq!(Selection(vec![]).to_string(), "[]");
}
