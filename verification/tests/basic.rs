use membrane_macro::emit::extern_symbol;
use membrane_macro::numstr::{u128_from_decimal, u128_to_decimal};
use membrane_macro::strutil::mixed_case;
use membrane_macro::task::{SerializedCall, TaskHandle, TaskState};

#[test]
fn symbol_is_derived_from_namespace_and_name() {
    assert_eq!(extern_symbol("accounts", "contact"), "membrane_accounts_contact");
}

#[test]
fn client_name_is_camel_cased() {
    assert_eq!(mixed_case("user_id"), "userId");
    assert_eq!(mixed_case("contact"), "contact");
}

#[test]
fn u128_decimal_round_trip() {
    let v: u128 = 34028236692093846346337460743176821;
    let s = u128_to_decimal(v);
    assert_eq!(s, "34028236692093846346337460743176821");
    assert_eq!(u128_from_decimal(&s), Some(v));
    assert_eq!(u128_to_decimal(0), "0");
    assert_eq!(u128_from_decimal("0"), Some(0));
    assert_eq!(u128_from_decimal(""), None);
    assert_eq!(u128_from_decimal("12a"), None);
    assert_eq!(u128_from_decimal("340282366920938463463374607431768211456"), None);
    assert_eq!(
        u128_from_decimal("340282366920938463463374607431768211455"),
        Some(u128::MAX)
    );
}

#[test]
fn cancel_is_idempotent() {
    let mut h = TaskHandle::new();
    h.cancel();
    assert!(matches!(h.state, TaskState::Cancelled));
    h.cancel();
    assert!(matches!(h.state, TaskState::Cancelled));
    let mut c = SerializedCall::new();
    let delivered = c.complete();
    assert!(delivered);
    c.cancel();
    c.cancel();
    assert_eq!(c.delivered, 1);
}
