use rpc_subscriptions::text::decimal_string;
use rpc_subscriptions::{Error, Id, SubscriptionId};

#[test]
fn random_bytes_make_a_version_4_uuid() {
    let bytes = [70, 235, 208, 238, 14, 109, 67, 201, 185, 13, 204, 195, 90, 145, 63, 62];
    let id = SubscriptionId::from_random_bytes(bytes);
    assert_eq!(id.to_string(), "46ebd0ee-0e6d-43c9-b90d-ccc35a913f3e");
}

#[test]
fn version_and_variant_overwrite_the_random_bits() {
    let zeros = SubscriptionId::from_random_bytes([0; 16]);
    assert_eq!(zeros.to_string(), "00000000-0000-4000-8000-000000000000");
    let ones = SubscriptionId::from_random_bytes([0xff; 16]);
    assert_eq!(ones.to_string(), "ffffffff-ffff-4fff-bfff-ffffffffffff");
}

#[test]
fn default_id_is_a_fresh_uuid_text() {
    let a = SubscriptionId::default();
    let b = SubscriptionId::new_random();
    assert_ne!(a, b);
    for id in [a, b] {
        let text = id.to_string();
        let chars: Vec<char> = text.chars().collect();
        assert_eq!(chars.len(), 36);
        for (i, c) in chars.iter().enumerate() {
            if i == 8 || i == 13 || i == 18 || i == 23 {
                assert_eq!(*c, '-');
            } else {
                assert!(c.is_ascii_digit() || ('a'..='f').contains(c));
            }
        }
        assert_eq!(chars[14], '4');
        assert!(matches!(chars[19], '8' | '9' | 'a' | 'b'));
    }
}

#[test]
fn text_round_trip() {
    for s in ["46ebd0ee-0e6d-43c9-b90d-ccc35a913f3e", "", "not a uuid", "42"] {
        let id = SubscriptionId::from_string(s);
        assert_eq!(id.to_string(), s);
        assert_eq!(id.as_str(), s);
    }
}

#[test]
fn equality_is_equality_of_text() {
    let a = SubscriptionId::from_string("abc");
    assert_eq!(a, SubscriptionId::from_string("abc"));
    assert_ne!(a, SubscriptionId::from_string("abd"));
    assert_eq!(a.clone(), a);
}

#[test]
fn rpc_id_round_trip() {
    let id = SubscriptionId::from_random_bytes([7; 16]);
    let rpc_id = id.clone().to_rpc_id();
    assert_eq!(rpc_id, Id::Str(id.to_string()));
    assert_eq!(SubscriptionId::try_from_rpc_id(rpc_id), Ok(id));
}

#[test]
fn numeric_rpc_id_is_rendered_in_decimal() {
    assert_eq!(SubscriptionId::try_from_rpc_id(Id::Num(0)), Ok(SubscriptionId::from_string("0")));
    assert_eq!(
        SubscriptionId::try_from_rpc_id(Id::Num(1234567890)),
        Ok(SubscriptionId::from_string("1234567890"))
    );
}

#[test]
fn absent_rpc_id_is_refused() {
    assert_eq!(SubscriptionId::try_from_rpc_id(Id::Absent), Err(Error::IdConversion));
}

#[test]
fn decimal_text_of_numbers() {
    assert_eq!(decimal_string(0), "0");
    assert_eq!(decimal_string(9), "9");
    assert_eq!(decimal_string(10), "10");
    assert_eq!(decimal_string(907), "907");
    assert_eq!(decimal_string(u64::MAX), "18446744073709551615");
}
