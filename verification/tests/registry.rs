use poe::Error;
use poe::Event;
use poe::Pallet;
use poe::Student;

use poe::hashing::identity_of;

#[test]
fn it_works_for_default_value() {
    let mut pallet = Pallet::new();
    pallet.set_block_number(1);
    let student = Student { id: vec![0; 10], name: vec![1; 10], age: 20 };
    assert!(pallet
        .create_student(1, student.id.clone(), student.name.clone(), student.age)
        .is_ok());
    assert_eq!(pallet.delete_student(1, student.id, student.name, student.age), Ok(()));
}

#[test]
fn correct_error_for_none_value() {
    let mut pallet = Pallet::new();
    pallet.set_block_number(1);
    let student = Student { id: vec![0; 10], name: vec![1; 10], age: 20 };
    assert_eq!(
        pallet.delete_student(1, student.id, student.name, student.age),
        Err(Error::StudentNotExist)
    );
    assert!(pallet.events().is_empty());
}

#[test]
fn create_twice_fails_with_student_exist() {
    let mut pallet = Pallet::new();
    pallet.set_block_number(1);
    let id = vec![0u8; 10];
    let name = vec![1u8; 10];
    assert_eq!(pallet.create_student(1, id.clone(), name.clone(), 20), Ok(()));
    assert_eq!(pallet.create_student(1, id, name, 20), Err(Error::StudentExist));
    assert_eq!(pallet.events().len(), 1);
}

#[test]
fn recreate_after_delete_succeeds() {
    let mut pallet = Pallet::new();
    pallet.set_block_number(1);
    let id = vec![0u8; 10];
    let name = vec![1u8; 10];
    assert_eq!(pallet.create_student(1, id.clone(), name.clone(), 20), Ok(()));
    assert_eq!(pallet.delete_student(1, id.clone(), name.clone(), 20), Ok(()));
    assert_eq!(pallet.create_student(2, id.clone(), name.clone(), 20), Ok(()));
    let key = identity_of(&Student { id, name, age: 20 });
    assert_eq!(pallet.students(&key), Some((2, 1)));
}

#[test]
fn delete_by_non_owner_fails_and_changes_nothing() {
    let mut pallet = Pallet::new();
    pallet.set_block_number(7);
    let id = vec![0u8; 10];
    let name = vec![1u8; 10];
    assert_eq!(pallet.create_student(1, id.clone(), name.clone(), 20), Ok(()));
    assert_eq!(pallet.delete_student(2, id.clone(), name.clone(), 20), Err(Error::NotStudentOwner));
    let key = identity_of(&Student { id, name, age: 20 });
    assert_eq!(pallet.students(&key), Some((1, 7)));
    assert_eq!(pallet.events().len(), 1);
}

#[test]
fn transfer_to_self_fails_and_keeps_owner() {
    let mut pallet = Pallet::new();
    pallet.set_block_number(3);
    let id = vec![0u8; 10];
    let name = vec![1u8; 10];
    assert_eq!(pallet.create_student(1, id.clone(), name.clone(), 20), Ok(()));
    assert_eq!(
        pallet.transfer_student(1, 1, id.clone(), name.clone(), 20),
        Err(Error::TransferToSelf)
    );
    let key = identity_of(&Student { id, name, age: 20 });
    assert_eq!(pallet.students(&key), Some((1, 3)));
}

#[test]
fn transfer_moves_ownership_and_refreshes_height() {
    let mut pallet = Pallet::new();
    pallet.set_block_number(3);
    let id = vec![0u8; 10];
    let name = vec![1u8; 10];
    assert_eq!(pallet.create_student(1, id.clone(), name.clone(), 20), Ok(()));
    pallet.set_block_number(9);
    assert_eq!(pallet.transfer_student(1, 2, id.clone(), name.clone(), 20), Ok(()));
    let key = identity_of(&Student { id: id.clone(), name: name.clone(), age: 20 });
    assert_eq!(pallet.students(&key), Some((2, 9)));
    assert_eq!(pallet.delete_student(1, id.clone(), name.clone(), 20), Err(Error::NotStudentOwner));
    assert_eq!(pallet.delete_student(2, id, name, 20), Ok(()));
    assert_eq!(pallet.students(&key), None);
}

#[test]
fn transfer_of_missing_record_fails() {
    let mut pallet = Pallet::new();
    pallet.set_block_number(1);
    assert_eq!(
        pallet.transfer_student(1, 2, vec![0u8; 10], vec![1u8; 10], 20),
        Err(Error::StudentNotExist)
    );
}

#[test]
fn end_to_end_scenario_with_events() {
    let mut pallet = Pallet::new();
    pallet.set_block_number(1);
    let id = vec![0u8; 10];
    let name = vec![1u8; 10];
    let key = identity_of(&Student { id: id.clone(), name: name.clone(), age: 20 });
    assert_eq!(pallet.create_student(1, id.clone(), name.clone(), 20), Ok(()));
    assert_eq!(pallet.events(), &vec![Event::CreateStudent(1, key)]);
    assert_eq!(pallet.delete_student(1, id.clone(), name.clone(), 20), Ok(()));
    assert_eq!(
        pallet.events(),
        &vec![Event::CreateStudent(1, key), Event::DeleteStudent(1, key)]
    );
    assert_eq!(pallet.delete_student(1, id, name, 20), Err(Error::StudentNotExist));
    assert_eq!(pallet.events().len(), 2);
}

#[test]
fn empty_content_fields_are_a_valid_record() {
    let mut pallet = Pallet::new();
    pallet.set_block_number(2);
    assert_eq!(pallet.create_student(1, vec![], vec![], 0), Ok(()));
    let key = identity_of(&Student { id: vec![], name: vec![], age: 0 });
    assert_eq!(pallet.students(&key), Some((1, 2)));
    assert_eq!(pallet.create_student(1, vec![], vec![], 0), Err(Error::StudentExist));
    assert_eq!(pallet.delete_student(1, vec![], vec![], 0), Ok(()));
    assert_eq!(pallet.students(&key), None);
}

#[test]
fn records_differing_only_in_age_are_independent() {
    let mut pallet = Pallet::new();
    pallet.set_block_number(1);
    let id = vec![0u8; 10];
    let name = vec![1u8; 10];
    assert_eq!(pallet.create_student(1, id.clone(), name.clone(), 20), Ok(()));
    assert_eq!(pallet.create_student(2, id.clone(), name.clone(), 21), Ok(()));
    let key20 = identity_of(&Student { id: id.clone(), name: name.clone(), age: 20 });
    let key21 = identity_of(&Student { id, name, age: 21 });
    assert_ne!(key20, key21);
    assert_eq!(pallet.students(&key20), Some((1, 1)));
    assert_eq!(pallet.students(&key21), Some((2, 1)));
}
