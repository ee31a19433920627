use parity_scale_codec::Encode;

use poe::Student;
use poe::hashing::encode_content;
use poe::hashing::identity_of;

#[test]
fn identity_matches_reference_digest() {
    let student = Student { id: vec![0; 10], name: vec![1; 10], age: 20 };
    // Compact(10) is the single byte 40, so the serialized content is spelled
    // out here by hand.
    let mut expected_bytes: Vec<u8> = Vec::new();
    expected_bytes.push(40);
    expected_bytes.extend_from_slice(&[0u8; 10]);
    expected_bytes.push(40);
    expected_bytes.extend_from_slice(&[1u8; 10]);
    expected_bytes.push(20);
    assert_eq!(encode_content(&student), expected_bytes);
    assert_eq!(identity_of(&student), sp_crypto_hashing::blake2_256(&expected_bytes));
}

#[test]
fn encoding_matches_scale_codec() {
    let cases: Vec<(Vec<u8>, Vec<u8>, u8)> = vec![
        (vec![], vec![], 0),
        (vec![0; 10], vec![1; 10], 20),
        (vec![7; 100], vec![8; 3], 255),
        (vec![9; 20000], vec![10; 16384], 1),
    ];
    for (id, name, age) in cases {
        let student = Student { id: id.clone(), name: name.clone(), age };
        let reference = (id, name, age).encode();
        assert_eq!(encode_content(&student), reference);
        assert_eq!(identity_of(&student), sp_crypto_hashing::blake2_256(&reference));
    }
}

#[test]
fn identity_is_deterministic() {
    let student = Student { id: vec![0; 10], name: vec![1; 10], age: 20 };
    let again = Student { id: vec![0; 10], name: vec![1; 10], age: 20 };
    assert_eq!(identity_of(&student), identity_of(&again));
}

#[test]
fn identity_differs_when_any_field_differs() {
    let base = Student { id: vec![0; 10], name: vec![1; 10], age: 20 };
    let other_age = Student { id: vec![0; 10], name: vec![1; 10], age: 21 };
    let other_name = Student { id: vec![0; 10], name: vec![2; 10], age: 20 };
    let other_id = Student { id: vec![3; 10], name: vec![1; 10], age: 20 };
    assert_ne!(identity_of(&base), identity_of(&other_age));
    assert_ne!(identity_of(&base), identity_of(&other_name));
    assert_ne!(identity_of(&base), identity_of(&other_id));
}

#[test]
fn field_boundaries_are_unambiguous() {
    // Moving a byte across the field boundary must change the identity.
    let left = Student { id: vec![1, 2, 3], name: vec![4], age: 0 };
    let right = Student { id: vec![1, 2], name: vec![3, 4], age: 0 };
    assert_ne!(identity_of(&left), identity_of(&right));
}
