use turbo_vision::views::picture_validator::PictureValidator;
use turbo_vision::views::validator::Validator;

#[test]
fn test_phone_number_mask() {
    let validator = PictureValidator::new("(###) ###-####");

    // Valid complete input
    assert!(validator.is_valid("(555) 123-4567"));

    // Invalid - wrong format
    assert!(!validator.is_valid("555-123-4567"));
    assert!(!validator.is_valid("(abc) def-ghij"));
}

#[test]
fn test_date_mask() {
    let validator = PictureValidator::new("##/##/####");

    // Valid dates
    assert!(validator.is_valid("12/25/2023"));
    assert!(validator.is_valid("01/01/2000"));

    // Invalid dates
    assert!(!validator.is_valid("12-25-2023")); // Wrong separator
    assert!(!validator.is_valid("1/1/2023"));   // Missing leading zeros
}

#[test]
fn test_format_phone_number() {
    let validator = PictureValidator::new("(###) ###-####");

    // Format digits only
    assert_eq!(validator.format("5551234567"), "(555) 123-4567");
    assert_eq!(validator.format("555 123 4567"), "(555) 123-4567");
}

#[test]
fn test_format_date() {
    let validator = PictureValidator::new("##/##/####");

    assert_eq!(validator.format("12252023"), "12/25/2023");
    assert_eq!(validator.format("01012000"), "01/01/2000");
}

#[test]
fn test_alpha_mask() {
    let validator = PictureValidator::new("@@@@-####");

    assert!(validator.is_valid("ABCD-1234"));
    assert!(!validator.is_valid("1234-ABCD")); // Wrong order
}

#[test]
fn test_optional_section() {
    let validator = PictureValidator::new("###*-####");

    // With optional dash
    assert!(validator.is_valid("123-4567"));
    // Without optional dash (not fully supported yet)
    // This test shows the current limitation
}

#[test]
fn test_any_character_mask() {
    let validator = PictureValidator::new("!!!-!!!!");

    assert!(validator.is_valid("abc-123d"));
    assert!(validator.is_valid("XYZ-ABCD"));
}

#[test]
fn test_partial_input_validation() {
    let validator = PictureValidator::new("(###) ###-####");

    // Partial inputs should be valid during typing
    assert!(validator.is_valid_input("(5", false));
    assert!(validator.is_valid_input("(55", false));
    assert!(validator.is_valid_input("(555", false));
    assert!(validator.is_valid_input("(555) ", false));
    assert!(validator.is_valid_input("(555) 1", false));
}

#[test]
fn test_empty_input() {
    let validator = PictureValidator::new("##/##/####");
    assert!(validator.is_valid("")); // Empty is valid
}

#[test]
fn test_validator_trait() {
    let validator = PictureValidator::new("(###) ###-####");
    assert!(validator.valid("(555) 123-4567"));
    assert!(!validator.valid("invalid"));
}

#[test]
fn the_error_message_names_the_mask() {
    let validator = PictureValidator::new("##-##");
    assert_eq!(validator.error_message(), "Input must match format: ##-##");
}
