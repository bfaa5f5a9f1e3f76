use turbo_vision::views::lookup_validator::{LookupValidator, LookupValidatorBuilder};
use turbo_vision::views::validator::Validator;

#[test]
fn test_lookup_validator_case_sensitive() {
    let validator = LookupValidator::new(vec![
        "Red".to_string(),
        "Green".to_string(),
        "Blue".to_string(),
    ]);

    // Valid values
    assert!(validator.is_valid("Red"));
    assert!(validator.is_valid("Green"));
    assert!(validator.is_valid("Blue"));

    // Invalid values
    assert!(!validator.is_valid("red"));
    assert!(!validator.is_valid("RED"));
    assert!(!validator.is_valid("Yellow"));

    // Empty is allowed
    assert!(validator.is_valid(""));
}

#[test]
fn test_lookup_validator_case_insensitive() {
    let validator = LookupValidator::new_case_insensitive(vec![
        "Red".to_string(),
        "Green".to_string(),
        "Blue".to_string(),
    ]);

    // Valid values (any case)
    assert!(validator.is_valid("Red"));
    assert!(validator.is_valid("red"));
    assert!(validator.is_valid("RED"));
    assert!(validator.is_valid("Green"));
    assert!(validator.is_valid("green"));
    assert!(validator.is_valid("BLUE"));

    // Invalid values
    assert!(!validator.is_valid("Yellow"));
    assert!(!validator.is_valid("yellow"));

    // Empty is allowed
    assert!(validator.is_valid(""));
}

#[test]
fn test_lookup_validator_add_remove() {
    let mut validator = LookupValidator::new(vec![
        "Apple".to_string(),
        "Banana".to_string(),
    ]);

    // Initial state
    assert!(validator.is_valid("Apple"));
    assert!(!validator.is_valid("Orange"));

    // Add value
    validator.add_value("Orange".to_string());
    assert!(validator.is_valid("Orange"));

    // Remove value
    assert!(validator.remove_value("Banana"));
    assert!(!validator.is_valid("Banana"));

    // Remove non-existent value
    assert!(!validator.remove_value("NonExistent"));
}

#[test]
fn test_lookup_validator_contains() {
    let validator = LookupValidator::new(vec![
        "One".to_string(),
        "Two".to_string(),
        "Three".to_string(),
    ]);

    assert!(validator.contains("One"));
    assert!(validator.contains("Two"));
    assert!(validator.contains("Three"));
    assert!(!validator.contains("Four"));
    assert!(!validator.contains("one")); // Case-sensitive
}

#[test]
fn test_lookup_validator_contains_case_insensitive() {
    let validator = LookupValidator::new_case_insensitive(vec![
        "One".to_string(),
        "Two".to_string(),
        "Three".to_string(),
    ]);

    assert!(validator.contains("One"));
    assert!(validator.contains("one"));
    assert!(validator.contains("ONE"));
    assert!(validator.contains("Two"));
    assert!(validator.contains("two"));
    assert!(!validator.contains("Four"));
}

#[test]
fn test_lookup_validator_set_case_sensitive() {
    let mut validator = LookupValidator::new(vec![
        "Test".to_string(),
    ]);

    // Initially case-sensitive
    assert!(validator.is_valid("Test"));
    assert!(!validator.is_valid("test"));

    // Switch to case-insensitive
    validator.set_case_sensitive(false);
    assert!(validator.is_valid("Test"));
    assert!(validator.is_valid("test"));
    assert!(validator.is_valid("TEST"));

    // Switch back to case-sensitive
    validator.set_case_sensitive(true);
    assert!(validator.is_valid("Test"));
    assert!(!validator.is_valid("test"));
}

#[test]
fn test_lookup_validator_valid_values() {
    let validator = LookupValidator::new(vec![
        "A".to_string(),
        "B".to_string(),
        "C".to_string(),
    ]);

    let values = validator.valid_values();
    assert_eq!(values.len(), 3);
    assert_eq!(values[0], "A");
    assert_eq!(values[1], "B");
    assert_eq!(values[2], "C");
}

#[test]
fn test_lookup_validator_is_valid_input() {
    let validator = LookupValidator::new(vec!["Test".to_string()]);

    // All characters are allowed (validation is on complete string)
    assert!(validator.is_valid_input("a", true));
    assert!(validator.is_valid_input("Z", true));
    assert!(validator.is_valid_input("0", true));
    assert!(validator.is_valid_input(" ", true));
    assert!(validator.is_valid_input("!", true));
}

#[test]
fn test_lookup_validator_builder() {
    let validator = LookupValidatorBuilder::new()
        .add_value("Red")
        .add_value("Green")
        .add_value("Blue")
        .build();

    assert!(validator.is_valid("Red"));
    assert!(validator.is_valid("Green"));
    assert!(validator.is_valid("Blue"));
    assert!(!validator.is_valid("Yellow"));
}

#[test]
fn test_lookup_validator_builder_case_insensitive() {
    let validator = LookupValidatorBuilder::new()
        .values(vec!["One".to_string(), "Two".to_string()])
        .case_sensitive(false)
        .build();

    assert!(validator.is_valid("One"));
    assert!(validator.is_valid("one"));
    assert!(validator.is_valid("TWO"));
}
