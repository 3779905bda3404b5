use std::collections::HashMap;

use android_keyring::android_log::{SpanPrefix, Visitor};
use android_keyring::methods::{make_signature, ClassDecl, SignatureComp};
use android_keyring::store::{generate_instance_id, u64_to_decimal};
use android_keyring::{KeyringError, Store};

#[test]
fn signature_components_render() {
    assert_eq!(SignatureComp::Boolean.as_str(), "Z");
    assert_eq!(SignatureComp::Int.as_str(), "I");
    assert_eq!(SignatureComp::Void.as_str(), "V");
    assert_eq!(SignatureComp::ArrayByte.as_str(), "[B");
    assert_eq!(SignatureComp::Class(ClassDecl("Ljava/lang/String;")).as_str(), "Ljava/lang/String;");
}

#[test]
fn class_find_names() {
    assert_eq!(ClassDecl("Ljava/lang/String;").for_finding(), "java/lang/String");
    assert_eq!(ClassDecl("Ljavax/crypto/Cipher;").for_finding(), "javax/crypto/Cipher");
    assert_eq!(ClassDecl("[B").for_finding(), "[B");
    assert_eq!(SignatureComp::Class(ClassDecl("[Ljava/lang/String;")).for_finding(), "[Ljava/lang/String;");
    assert_eq!(SignatureComp::Long.for_finding(), "J");
}

#[test]
fn signatures_are_assembled() {
    let params = [
        SignatureComp::Class(ClassDecl("Ljava/lang/String;")),
        SignatureComp::Int,
    ];
    assert_eq!(make_signature(&params, SignatureComp::Boolean), "(Ljava/lang/String;I)Z");
    assert_eq!(make_signature(&[], SignatureComp::Void), "()V");
    let one = [SignatureComp::ArrayByte];
    assert_eq!(
        make_signature(&one, SignatureComp::Class(ClassDecl("Ljava/lang/Object;"))),
        "([B)Ljava/lang/Object;"
    );
}

#[test]
fn span_prefix_renders() {
    let empty = SpanPrefix::new("setup".to_string());
    assert_eq!(empty.render(), "setup:");
    let mut with_values = SpanPrefix::new("request".to_string());
    let mut v = Visitor::new();
    v.record_str("id", "17");
    v.record_str("kind", "read");
    with_values.values = v.output;
    assert_eq!(with_values.render(), "request{id=17 kind=read}:");
}

#[test]
fn visitor_separates_fields_and_hides_message_name() {
    let mut v = Visitor::new();
    v.record_field("alpha");
    assert_eq!(v.output, "alpha=");
    v.record_field("beta");
    assert_eq!(v.output, "alpha= beta=");
    let mut m = Visitor::new();
    m.record_str("message", "hello");
    assert_eq!(m.output, "hello");
}

#[test]
fn decimal_rendering() {
    assert_eq!(u64_to_decimal(0), "0");
    assert_eq!(u64_to_decimal(7), "7");
    assert_eq!(u64_to_decimal(1234567890123), "1234567890123");
    assert_eq!(u64_to_decimal(u64::MAX), "18446744073709551615");
}

#[test]
fn instance_ids_carry_the_prefix() {
    let id = generate_instance_id();
    assert!(id.starts_with("Crate version 0.1.0, Instantiated at "));
    assert!(id.contains('.'));
}

#[test]
fn store_accepts_no_configuration() {
    let empty: HashMap<&str, &str> = HashMap::new();
    let store = Store::new_with_configuration(&empty).unwrap();
    assert!(!store.id().is_empty());
    assert_eq!(store.vendor(), "Android SharedPreferences/KeyStore");

    let mut options: HashMap<&str, &str> = HashMap::new();
    options.insert("color", "blue");
    assert!(matches!(
        Store::new_with_configuration(&options),
        Err(KeyringError::NotSupportedByStore(_))
    ));
}

#[test]
fn store_builds_credentials() {
    let store = Store::new();
    let cred = store.build("svc", "usr", None).unwrap();
    let (service, user) = cred.get_specifiers().unwrap();
    assert_eq!(service, "svc");
    assert_eq!(user, "usr");

    let empty: HashMap<&str, &str> = HashMap::new();
    assert!(store.build("svc", "usr", Some(&empty)).is_ok());

    let mut modifiers: HashMap<&str, &str> = HashMap::new();
    modifiers.insert("ttl", "60");
    assert!(matches!(
        store.build("svc", "usr", Some(&modifiers)),
        Err(KeyringError::NotSupportedByStore(_))
    ));
}

#[test]
fn errors_describe_themselves() {
    assert!(!KeyringError::NoEntry.describe().is_empty());
    assert!(!KeyringError::PlatformFailure("x".to_string()).describe().is_empty());
}
