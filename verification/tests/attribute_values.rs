use session_store::values::{AttributeKind, AttributeValue, SessionValue};

#[test]
fn kinds_of_attributes() {
    assert_eq!(AttributeValue::Bool(true).kind(), AttributeKind::Bool);
    assert_eq!(AttributeValue::Integer(-3).kind(), AttributeKind::Integer);
    assert_eq!(AttributeValue::Text(String::from("t")).kind(), AttributeKind::Text);
    assert_eq!(AttributeValue::Bytes(vec![1, 2]).kind(), AttributeKind::Bytes);
}

#[test]
fn values_come_back_from_their_own_shape() {
    assert_eq!(bool::from_attribute(&true.into_attribute()), Some(true));
    assert_eq!(i64::from_attribute(&i64::MIN.into_attribute()), Some(i64::MIN));
    let text = String::from("héllo");
    assert_eq!(String::from_attribute(&text.clone().into_attribute()), Some(text));
    let bytes: Vec<u8> = vec![0, 255, 7];
    assert_eq!(Vec::<u8>::from_attribute(&bytes.clone().into_attribute()), Some(bytes));
}

#[test]
fn values_do_not_come_back_from_another_shape() {
    let flag = AttributeValue::Bool(true);
    let number = AttributeValue::Integer(1);
    let text = AttributeValue::Text(String::from("1"));
    let bytes = AttributeValue::Bytes(vec![1]);
    assert_eq!(i64::from_attribute(&flag), None);
    assert_eq!(String::from_attribute(&flag), None);
    assert_eq!(Vec::<u8>::from_attribute(&flag), None);
    assert_eq!(bool::from_attribute(&number), None);
    assert_eq!(String::from_attribute(&number), None);
    assert_eq!(bool::from_attribute(&text), None);
    assert_eq!(i64::from_attribute(&text), None);
    assert_eq!(Vec::<u8>::from_attribute(&text), None);
    assert_eq!(String::from_attribute(&bytes), None);
    assert_eq!(i64::from_attribute(&bytes), None);
}
