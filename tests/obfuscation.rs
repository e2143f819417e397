use idlemmo::obfuscation::{decimal_chars, generate_obfuscated_data, obfuscate_email, obfuscate_with};

#[test]
fn known_value_and_key() {
    assert_eq!(obfuscate_with(450, "fair-maiden"), "UlRZ");
    assert_ne!(obfuscate_with(451, "fair-maiden"), obfuscate_with(450, "fair-maiden"));
    assert_eq!(obfuscate_with(450, "k"), {
        let b: Vec<u8> = "450".bytes().map(|c| c ^ b'k').collect();
        assert_eq!(b, vec![95, 94, 91]);
        "X15b".to_string()
    });
}

#[test]
fn generated_values_are_fresh() {
    let outputs: Vec<String> = (0..40).map(|_| generate_obfuscated_data(None)).collect();
    assert!(outputs.iter().all(|o| o.len() == 4));
    assert!(outputs.iter().any(|o| o != &outputs[0]));
    assert_eq!(generate_obfuscated_data(Some("key")).len(), 4);
}

#[test]
fn decimal_digits() {
    assert_eq!(decimal_chars(0), vec!['0']);
    assert_eq!(decimal_chars(507), vec!['5', '0', '7']);
    assert_eq!(decimal_chars(u64::MAX).len(), 20);
}

#[test]
fn email_masking() {
    assert_eq!(obfuscate_email("johndoe@example.com"), "joh****.@example.com");
    assert_eq!(obfuscate_email("abc@x.io"), "abc.@x.io");
    assert_eq!(obfuscate_email("a@b@c"), "a.@b");
    assert_eq!(obfuscate_email("noat"), "noa*.@");
}
