use chat_modrpc::registry::{ChatRegistry, MAX_MESSAGE_LEN, MAX_USERS};
use chat_modrpc::{DecodeError, RegisterError, RegisterSuccess, SendMessageError, SendMessageSuccess};

#[test]
fn registration_claims_alias_and_is_idempotent() {
    let mut reg = ChatRegistry::new();
    assert_eq!(reg.register(1, Ok("ann")), Ok(RegisterSuccess {}));
    assert_eq!(reg.claimed_count(), 1);
    assert_eq!(reg.holder_of("ann"), Some(1));
    assert_eq!(reg.user(1).unwrap().alias, "ann");
    // Same endpoint, same alias: accepted, nothing changes.
    assert_eq!(reg.register(1, Ok("ann")), Ok(RegisterSuccess {}));
    assert_eq!(reg.claimed_count(), 1);
    // Another endpoint may not take it.
    assert_eq!(reg.register(2, Ok("ann")), Err(RegisterError::UserAlreadyExists));
    assert!(reg.user(2).is_none());
    assert_eq!(reg.registered_users().len(), 1);
}

#[test]
fn undecodable_alias_is_internal_error() {
    let mut reg = ChatRegistry::new();
    assert_eq!(reg.register(1, Err(DecodeError)), Err(RegisterError::Internal));
    assert_eq!(reg.claimed_count(), 0);
}

#[test]
fn full_chat_refuses_before_reading_alias() {
    let mut reg = ChatRegistry::new();
    for i in 0..MAX_USERS {
        let alias = format!("user{}", i);
        assert_eq!(reg.register(i as u64, Ok(alias.as_str())), Ok(RegisterSuccess {}));
    }
    assert_eq!(reg.claimed_count(), 1000);
    assert_eq!(reg.register(5000, Ok("late")), Err(RegisterError::ChatFull));
    assert_eq!(reg.register(5000, Err(DecodeError)), Err(RegisterError::ChatFull));
    assert_eq!(reg.register(0, Ok("user0")), Err(RegisterError::ChatFull));
}

#[test]
fn message_admission() {
    let mut reg = ChatRegistry::new();
    reg.register(7, Ok("bea")).unwrap();
    assert_eq!(reg.admit_message(7, Ok("hello")), Ok(SendMessageSuccess {}));
    assert_eq!(reg.admit_message(8, Ok("hello")), Err(SendMessageError::NotRegistered));
    assert_eq!(reg.admit_message(7, Err(DecodeError)), Err(SendMessageError::Internal));
    let longest = "a".repeat(MAX_MESSAGE_LEN);
    assert_eq!(reg.admit_message(7, Ok(longest.as_str())), Ok(SendMessageSuccess {}));
    let too_long = "a".repeat(MAX_MESSAGE_LEN + 1);
    assert_eq!(reg.admit_message(7, Ok(too_long.as_str())), Err(SendMessageError::MessageTooLong));
    // Length counts bytes: 250 two-byte characters fit, 251 do not.
    let wide = "é".repeat(251);
    assert_eq!(reg.admit_message(7, Ok(wide.as_str())), Err(SendMessageError::MessageTooLong));
    assert_eq!(reg.admit_message(8, Ok(too_long.as_str())), Err(SendMessageError::MessageTooLong));
}

#[test]
fn disconnect_frees_alias() {
    let mut reg = ChatRegistry::new();
    reg.register(1, Ok("cal")).unwrap();
    reg.register(2, Ok("dee")).unwrap();
    let gone = reg.disconnect(1).unwrap();
    assert_eq!(gone.endpoint, 1);
    assert_eq!(gone.alias, "cal");
    assert_eq!(reg.holder_of("cal"), None);
    assert_eq!(reg.holder_of("dee"), Some(2));
    assert_eq!(reg.claimed_count(), 1);
    assert!(reg.disconnect(1).is_none());
    assert_eq!(reg.register(3, Ok("cal")), Ok(RegisterSuccess {}));
    assert_eq!(reg.holder_of("cal"), Some(3));
}
