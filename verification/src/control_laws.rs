//! What holds of the control grammar as a whole: what is written from a
//! control reads back as that control.

use vstd::prelude::*;
use crate::control::{
    Action, ControlParseErrorView, ControlView, SelectionItem, Value, action_text, control_text,
    item_text, items_text, lemma_parse_value_name, spec_parse_action, spec_parse_control,
    spec_parse_item, spec_parse_items, spec_split, value_name,
};
use crate::text::{
    CharClass, decimal_text, decimal_value, digit_char, digit_of, is_digit, lemma_run_len,
    lemma_run_len_is, run_len,
};

verus! {

/// A lower-case letter of ASCII or `_`: what the words of the grammar are made of.
pub open spec fn is_word_char(c: char) -> bool {
    'a' <= c <= 'z' || c == '_'
}

/// A selection that can be read from text: it has a pair, and no jump over
/// nothing.
pub open spec fn readable_items(items: Seq<SelectionItem>) -> bool {
    &&& items.len() > 0
    &&& forall|i: int|
        0 <= i < items.len() ==> ((#[trigger] items[i]).action matches Action::JumpOver(n) ==> n
            > 0)
}

/// A control that can be read from text.
pub open spec fn readable_control(control: ControlView) -> bool {
    control matches ControlView::Selection(items) ==> readable_items(items)
}

/// The word of a value is made of lower-case letters and `_`.
pub proof fn lemma_value_name_chars(value: Value)
    ensures
        value_name(value).len() > 0,
        forall|i: int|
            0 <= i < value_name(value).len() ==> is_word_char(#[trigger] value_name(value)[i]),
{
    assert forall|i: int| 0 <= i < "default"@.len() implies is_word_char(#[trigger] "default"@[i]) by {
        reveal_strlit("default");
    }
    assert forall|i: int| 0 <= i < "success"@.len() implies is_word_char(#[trigger] "success"@[i]) by {
        reveal_strlit("success");
    }
    assert forall|i: int| 0 <= i < "open_err"@.len() implies is_word_char(#[trigger] "open_err"@[i]) by {
        reveal_strlit("open_err");
    }
    assert forall|i: int| 0 <= i < "symbol_err"@.len() implies is_word_char(#[trigger] "symbol_err"@[i]) by {
        reveal_strlit("symbol_err");
    }
    assert forall|i: int| 0 <= i < "service_err"@.len() implies is_word_char(#[trigger] "service_err"@[i]) by {
        reveal_strlit("service_err");
    }
    assert forall|i: int| 0 <= i < "system_err"@.len() implies is_word_char(#[trigger] "system_err"@[i]) by {
        reveal_strlit("system_err");
    }
    assert forall|i: int| 0 <= i < "buf_err"@.len() implies is_word_char(#[trigger] "buf_err"@[i]) by {
        reveal_strlit("buf_err");
    }
    assert forall|i: int| 0 <= i < "perm_denied"@.len() implies is_word_char(#[trigger] "perm_denied"@[i]) by {
        reveal_strlit("perm_denied");
    }
    assert forall|i: int| 0 <= i < "auth_err"@.len() implies is_word_char(#[trigger] "auth_err"@[i]) by {
        reveal_strlit("auth_err");
    }
    assert forall|i: int| 0 <= i < "cred_insufficient"@.len() implies is_word_char(#[trigger] "cred_insufficient"@[i]) by {
        reveal_strlit("cred_insufficient");
    }
    assert forall|i: int| 0 <= i < "authinfo_unavail"@.len() implies is_word_char(#[trigger] "authinfo_unavail"@[i]) by {
        reveal_strlit("authinfo_unavail");
    }
    assert forall|i: int| 0 <= i < "user_unknown"@.len() implies is_word_char(#[trigger] "user_unknown"@[i]) by {
        reveal_strlit("user_unknown");
    }
    assert forall|i: int| 0 <= i < "maxtries"@.len() implies is_word_char(#[trigger] "maxtries"@[i]) by {
        reveal_strlit("maxtries");
    }
    assert forall|i: int| 0 <= i < "new_authtok_reqd"@.len() implies is_word_char(#[trigger] "new_authtok_reqd"@[i]) by {
        reveal_strlit("new_authtok_reqd");
    }
    assert forall|i: int| 0 <= i < "acct_expired"@.len() implies is_word_char(#[trigger] "acct_expired"@[i]) by {
        reveal_strlit("acct_expired");
    }
    assert forall|i: int| 0 <= i < "session_err"@.len() implies is_word_char(#[trigger] "session_err"@[i]) by {
        reveal_strlit("session_err");
    }
    assert forall|i: int| 0 <= i < "cred_unavail"@.len() implies is_word_char(#[trigger] "cred_unavail"@[i]) by {
        reveal_strlit("cred_unavail");
    }
    assert forall|i: int| 0 <= i < "cred_expired"@.len() implies is_word_char(#[trigger] "cred_expired"@[i]) by {
        reveal_strlit("cred_expired");
    }
    assert forall|i: int| 0 <= i < "cred_err"@.len() implies is_word_char(#[trigger] "cred_err"@[i]) by {
        reveal_strlit("cred_err");
    }
    assert forall|i: int| 0 <= i < "no_module_data"@.len() implies is_word_char(#[trigger] "no_module_data"@[i]) by {
        reveal_strlit("no_module_data");
    }
    assert forall|i: int| 0 <= i < "conv_err"@.len() implies is_word_char(#[trigger] "conv_err"@[i]) by {
        reveal_strlit("conv_err");
    }
    assert forall|i: int| 0 <= i < "authtok_err"@.len() implies is_word_char(#[trigger] "authtok_err"@[i]) by {
        reveal_strlit("authtok_err");
    }
    assert forall|i: int| 0 <= i < "authtok_recover_err"@.len() implies is_word_char(#[trigger] "authtok_recover_err"@[i]) by {
        reveal_strlit("authtok_recover_err");
    }
    assert forall|i: int| 0 <= i < "authtok_lock_busy"@.len() implies is_word_char(#[trigger] "authtok_lock_busy"@[i]) by {
        reveal_strlit("authtok_lock_busy");
    }
    assert forall|i: int| 0 <= i < "authtok_disable_aging"@.len() implies is_word_char(#[trigger] "authtok_disable_aging"@[i]) by {
        reveal_strlit("authtok_disable_aging");
    }
    assert forall|i: int| 0 <= i < "try_again"@.len() implies is_word_char(#[trigger] "try_again"@[i]) by {
        reveal_strlit("try_again");
    }
    assert forall|i: int| 0 <= i < "ignore"@.len() implies is_word_char(#[trigger] "ignore"@[i]) by {
        reveal_strlit("ignore");
    }
    assert forall|i: int| 0 <= i < "abort"@.len() implies is_word_char(#[trigger] "abort"@[i]) by {
        reveal_strlit("abort");
    }
    assert forall|i: int| 0 <= i < "authtok_expired"@.len() implies is_word_char(#[trigger] "authtok_expired"@[i]) by {
        reveal_strlit("authtok_expired");
    }
    assert forall|i: int| 0 <= i < "module_unknown"@.len() implies is_word_char(#[trigger] "module_unknown"@[i]) by {
        reveal_strlit("module_unknown");
    }
    assert forall|i: int| 0 <= i < "bad_item"@.len() implies is_word_char(#[trigger] "bad_item"@[i]) by {
        reveal_strlit("bad_item");
    }
    assert forall|i: int| 0 <= i < "conv_again"@.len() implies is_word_char(#[trigger] "conv_again"@[i]) by {
        reveal_strlit("conv_again");
    }
    assert forall|i: int| 0 <= i < "incomplete"@.len() implies is_word_char(#[trigger] "incomplete"@[i]) by {
        reveal_strlit("incomplete");
    }
    reveal_strlit("default");
    reveal_strlit("success");
    reveal_strlit("open_err");
    reveal_strlit("symbol_err");
    reveal_strlit("service_err");
    reveal_strlit("system_err");
    reveal_strlit("buf_err");
    reveal_strlit("perm_denied");
    reveal_strlit("auth_err");
    reveal_strlit("cred_insufficient");
    reveal_strlit("authinfo_unavail");
    reveal_strlit("user_unknown");
    reveal_strlit("maxtries");
    reveal_strlit("new_authtok_reqd");
    reveal_strlit("acct_expired");
    reveal_strlit("session_err");
    reveal_strlit("cred_unavail");
    reveal_strlit("cred_expired");
    reveal_strlit("cred_err");
    reveal_strlit("no_module_data");
    reveal_strlit("conv_err");
    reveal_strlit("authtok_err");
    reveal_strlit("authtok_recover_err");
    reveal_strlit("authtok_lock_busy");
    reveal_strlit("authtok_disable_aging");
    reveal_strlit("try_again");
    reveal_strlit("ignore");
    reveal_strlit("abort");
    reveal_strlit("authtok_expired");
    reveal_strlit("module_unknown");
    reveal_strlit("bad_item");
    reveal_strlit("conv_again");
    reveal_strlit("incomplete");
}

/// A number written in base ten is made of digits, and reads back as itself.
pub proof fn lemma_decimal_text(n: nat)
    ensures
        decimal_text(n).len() > 0,
        forall|i: int| 0 <= i < decimal_text(n).len() ==> is_digit(#[trigger] decimal_text(n)[i]),
        decimal_value(decimal_text(n)) == n,
    decreases n,
{
    if n < 10 {
        let t = decimal_text(n);
        assert(t.drop_last() =~= Seq::<char>::empty());
        assert(decimal_value(t.drop_last()) == 0);
        assert(digit_of(digit_char(n)) == n);
    } else {
        lemma_decimal_text(n / 10);
        let head = decimal_text(n / 10);
        let t = decimal_text(n);
        assert(t.drop_last() =~= head);
        assert(digit_of(digit_char(n % 10)) == n % 10);
        assert forall|i: int| 0 <= i < t.len() implies is_digit(#[trigger] t[i]) by {
            if i < head.len() {
                assert(t[i] == head[i]);
            }
        }
    }
}

/// The text of an action is made of lower-case letters or of digits, and is
/// not empty.
pub proof fn lemma_action_text_chars(action: Action)
    ensures
        action_text(action).len() > 0,
        forall|i: int|
            0 <= i < action_text(action).len() ==> {
                let c = #[trigger] action_text(action)[i];
                is_word_char(c) || is_digit(c)
            },
{
    assert forall|i: int| 0 <= i < "ignore"@.len() implies is_word_char(#[trigger] "ignore"@[i]) by {
        reveal_strlit("ignore");
    }
    assert forall|i: int| 0 <= i < "bad"@.len() implies is_word_char(#[trigger] "bad"@[i]) by {
        reveal_strlit("bad");
    }
    assert forall|i: int| 0 <= i < "die"@.len() implies is_word_char(#[trigger] "die"@[i]) by {
        reveal_strlit("die");
    }
    assert forall|i: int| 0 <= i < "ok"@.len() implies is_word_char(#[trigger] "ok"@[i]) by {
        reveal_strlit("ok");
    }
    assert forall|i: int| 0 <= i < "done"@.len() implies is_word_char(#[trigger] "done"@[i]) by {
        reveal_strlit("done");
    }
    assert forall|i: int| 0 <= i < "reset"@.len() implies is_word_char(#[trigger] "reset"@[i]) by {
        reveal_strlit("reset");
    }
    reveal_strlit("ignore");
    reveal_strlit("bad");
    reveal_strlit("die");
    reveal_strlit("ok");
    reveal_strlit("done");
    reveal_strlit("reset");
    if let Action::JumpOver(n) = action {
        lemma_decimal_text(n as nat);
    }
}

/// An action that was read never jumps over nothing, and the
/// text `0` is refused as such a jump.
pub proof fn lemma_jump_is_positive(s: Seq<char>)
    ensures
        spec_parse_action(s) matches Ok(Action::JumpOver(n)) ==> n > 0,
        spec_parse_action("0"@) == Err::<Action, ControlParseErrorView>(
            ControlParseErrorView::ZeroJump,
        ),
{
    lemma_run_len(s, CharClass::Digit);
    assert(s.take(s.len() as int) =~= s);
    let zero = "0"@;
    reveal_strlit("0");
    reveal_strlit("ignore");
    reveal_strlit("bad");
    reveal_strlit("die");
    reveal_strlit("ok");
    reveal_strlit("done");
    reveal_strlit("reset");
    lemma_run_len_is(zero, CharClass::Digit, 1);
    assert(zero.take(1) =~= zero);
    assert(zero.drop_last() =~= Seq::<char>::empty());
    assert(decimal_value(zero.drop_last()) == 0);
    assert(decimal_value(zero) == 0);
}

/// The text of an action reads back as that action, unless it jumps over
/// nothing.
pub proof fn lemma_action_round_trip(action: Action)
    requires
        action matches Action::JumpOver(n) ==> n > 0,
    ensures
        spec_parse_action(action_text(action)) == Ok::<Action, ControlParseErrorView>(action),
{
    reveal_strlit("ignore");
    reveal_strlit("bad");
    reveal_strlit("die");
    reveal_strlit("ok");
    reveal_strlit("done");
    reveal_strlit("reset");
    assert("ignore"@.len() == 6 && "ignore"@[0] == 'i');
    assert("bad"@.len() == 3 && "bad"@[0] == 'b');
    assert("die"@.len() == 3 && "die"@[0] == 'd');
    assert("ok"@.len() == 2 && "ok"@[0] == 'o');
    assert("done"@.len() == 4 && "done"@[0] == 'd');
    assert("reset"@.len() == 5 && "reset"@[0] == 'r');
    if let Action::JumpOver(n) = action {
        let t = decimal_text(n as nat);
        lemma_decimal_text(n as nat);
        assert(is_digit(t[0]));
        lemma_run_len_is(t, CharClass::Digit, t.len() as int);
        assert(t.take(t.len() as int) =~= t);
    }
}

/// The text of a pair reads back as that pair.
pub proof fn lemma_item_round_trip(item: SelectionItem)
    requires
        item.action matches Action::JumpOver(n) ==> n > 0,
    ensures
        spec_parse_item(item_text(item)) == Ok::<SelectionItem, ControlParseErrorView>(item),
        forall|i: int| 0 <= i < item_text(item).len() ==> #[trigger] item_text(item)[i] != ' ',
{
    let name = value_name(item.value);
    let action = action_text(item.action);
    let t = item_text(item);
    lemma_value_name_chars(item.value);
    lemma_action_text_chars(item.action);
    lemma_parse_value_name(item.value);
    lemma_action_round_trip(item.action);
    assert forall|i: int| 0 <= i < name.len() implies CharClass::Other('=').has(#[trigger] t[i]) by {
        assert(t[i] == name[i]);
    }
    assert(t[name.len() as int] == '=');
    lemma_run_len_is(t, CharClass::Other('='), name.len() as int);
    assert(t.take(name.len() as int) =~= name);
    assert(t.skip(name.len() as int + 1) =~= action);
    assert forall|i: int| 0 <= i < t.len() implies #[trigger] t[i] != ' ' by {
        if i < name.len() {
            assert(t[i] == name[i]);
        } else if i > name.len() {
            assert(t[i] == action[i - name.len() - 1]);
        }
    }
}

/// The texts of the pairs, one by one.
pub open spec fn item_texts(items: Seq<SelectionItem>) -> Seq<Seq<char>> {
    Seq::new(items.len(), |i: int| item_text(items[i]))
}

/// Cutting the text of a selection at its spaces gives the texts of its pairs.
pub proof fn lemma_split_items_text(items: Seq<SelectionItem>)
    requires
        readable_items(items),
    ensures
        spec_split(items_text(items), ' ') == item_texts(items),
    decreases items.len(),
{
    let first = item_text(items[0]);
    let t = items_text(items);
    lemma_item_round_trip(items[0]);
    if items.len() == 1 {
        lemma_run_len_is(t, CharClass::Other(' '), t.len() as int);
        assert(spec_split(t, ' ') =~= item_texts(items));
    } else {
        let rest = items.drop_first();
        assert forall|i: int| 0 <= i < rest.len() implies ((#[trigger] rest[i]).action matches Action::JumpOver(
            n,
        ) ==> n > 0) by {
            assert(rest[i] == items[i + 1]);
        }
        lemma_split_items_text(rest);
        assert forall|i: int| 0 <= i < first.len() implies CharClass::Other(' ').has(
            #[trigger] t[i],
        ) by {
            assert(t[i] == first[i]);
        }
        assert(t[first.len() as int] == ' ');
        lemma_run_len_is(t, CharClass::Other(' '), first.len() as int);
        assert(t.take(first.len() as int) =~= first);
        assert(t.skip(first.len() as int + 1) =~= items_text(rest));
        assert(spec_split(t, ' ') =~= item_texts(items)) by {
            let parts = spec_split(t, ' ');
            assert(parts == seq![first] + item_texts(rest));
            assert forall|i: int| 0 <= i < parts.len() implies parts[i] == item_texts(items)[i] by {
                if i > 0 {
                    assert(parts[i] == item_texts(rest)[i - 1]);
                    assert(rest[i - 1] == items[i]);
                }
            }
        }
    }
}

/// The texts of the pairs read back as the pairs.
pub proof fn lemma_parse_item_texts(items: Seq<SelectionItem>)
    requires
        forall|i: int|
            0 <= i < items.len() ==> ((#[trigger] items[i]).action matches Action::JumpOver(n) ==> n
                > 0),
    ensures
        spec_parse_items(item_texts(items)) == Ok::<Seq<SelectionItem>, ControlParseErrorView>(
            items,
        ),
    decreases items.len(),
{
    let parts = item_texts(items);
    if items.len() == 0 {
        assert(items =~= Seq::<SelectionItem>::empty());
    } else {
        let rest = items.drop_first();
        assert forall|i: int| 0 <= i < rest.len() implies ((#[trigger] rest[i]).action matches Action::JumpOver(
            n,
        ) ==> n > 0) by {
            assert(rest[i] == items[i + 1]);
        }
        lemma_parse_item_texts(rest);
        assert(spec_parse_item(parts[0]) == Ok::<SelectionItem, ControlParseErrorView>(items[0]))
            by {
            lemma_item_round_trip(items[0]);
        }
        assert(parts.drop_first() =~= item_texts(rest));
        assert(seq![items[0]] + rest =~= items);
    }
}

/// The text that is written from a control reads back as that
/// control. This holds of the six presets and of every selection that has a
/// pair and no jump over nothing.
pub proof fn lemma_control_round_trip(control: ControlView)
    requires
        readable_control(control),
    ensures
        spec_parse_control(control_text(control)) == Ok::<ControlView, ControlParseErrorView>(
            control,
        ),
{
    reveal_strlit("required");
    reveal_strlit("requisite");
    reveal_strlit("sufficient");
    reveal_strlit("optional");
    reveal_strlit("include");
    reveal_strlit("substack");
    match control {
        ControlView::Selection(items) => {
            let inner = items_text(items);
            let t = control_text(control);
            assert(t[0] == '[');
            assert(t.last() == ']');
            assert(t.subrange(1, t.len() - 1) =~= inner);
            lemma_split_items_text(items);
            lemma_parse_item_texts(items);
        },
        ControlView::Required => {},
        ControlView::Requisite => {
            assert("required"@[5] != "requisite"@[5]);
        },
        ControlView::Sufficient => {},
        ControlView::Optional => {},
        ControlView::Include => {},
        ControlView::Substack => {},
    }
}

/// The pairs that were read are as many as the parts they were read from, and
/// none of them jumps over nothing.
pub proof fn lemma_parsed_items(parts: Seq<Seq<char>>)
    ensures
        spec_parse_items(parts) matches Ok(items) ==> items.len() == parts.len() && forall|i: int|
            0 <= i < items.len() ==> ((#[trigger] items[i]).action matches Action::JumpOver(n) ==> n
                > 0),
    decreases parts.len(),
{
    if parts.len() > 0 {
        lemma_parsed_items(parts.drop_first());
        if let Ok(items) = spec_parse_items(parts) {
            let first = spec_parse_item(parts[0])->Ok_0;
            let rest = spec_parse_items(parts.drop_first())->Ok_0;
            let e = run_len(parts[0], CharClass::Other('=')) as int;
            lemma_jump_is_positive(parts[0].skip(e + 1));
            assert forall|i: int| 0 <= i < items.len() implies ((#[trigger] items[i]).action matches Action::JumpOver(
                n,
            ) ==> n > 0) by {
                if i > 0 {
                    assert(items[i] == rest[i - 1]);
                }
            }
        }
    }
}

/// Where `s` reads as a control, the text written
/// from that control reads as the same control.
pub proof fn lemma_parsed_control_round_trip(s: Seq<char>)
    ensures
        spec_parse_control(s) matches Ok(control) ==> spec_parse_control(control_text(control))
            == Ok::<ControlView, ControlParseErrorView>(control),
{
    if let Ok(control) = spec_parse_control(s) {
        if let ControlView::Selection(items) = control {
            let parts = spec_split(s.subrange(1, s.len() - 1), ' ');
            lemma_parsed_items(parts);
            lemma_run_len(s.subrange(1, s.len() - 1), CharClass::Other(' '));
        }
        lemma_control_round_trip(control);
    }
}

} // verus!
