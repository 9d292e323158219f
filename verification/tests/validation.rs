use base64::{engine::general_purpose, Engine as _};
use haircut_backend::validation::{
    check_image, contains_blocked, validate_image_data, validate_prompt, ValidationError,
    MAX_IMAGE_BYTES, MAX_PROMPT_CHARS,
};

// Helper function to create valid base64 data
fn create_valid_base64(size_kb: usize) -> String {
    let data = vec![65u8; size_kb * 1024]; // 'A' repeated
    general_purpose::STANDARD.encode(&data)
}

// Helper function to create invalid base64 data
fn create_invalid_base64() -> String {
    "invalid-base64-data!@#$%".to_string()
}

// ===== IMAGE VALIDATION TESTS =====

#[test]
fn test_validate_image_data_valid() {
    let valid_base64 = create_valid_base64(100); // 100KB
    assert!(validate_image_data(&valid_base64).is_ok());
}

#[test]
fn test_validate_image_data_invalid_base64() {
    let invalid_base64 = create_invalid_base64();
    assert!(validate_image_data(&invalid_base64).is_err());
    assert_eq!(
        validate_image_data(&invalid_base64).unwrap_err().message(),
        "Invalid image data format"
    );
}

#[test]
fn test_validate_image_data_too_large() {
    let large_base64 = create_valid_base64(10240); // ~10MB (should fail)
    assert!(validate_image_data(&large_base64).is_err());
    assert_eq!(
        validate_image_data(&large_base64).unwrap_err().message(),
        "Image too large (max 10MB)"
    );
}

#[test]
fn test_validate_image_data_boundary_size() {
    let boundary_base64 = create_valid_base64(8192); // ~8MB (should pass)
    assert!(validate_image_data(&boundary_base64).is_ok());
}

// ===== PROMPT VALIDATION TESTS =====

#[test]
fn test_validate_prompt_valid() {
    let valid_prompt = "Low taper fade with textured top";
    assert!(validate_prompt(valid_prompt).is_ok());
}

#[test]
fn test_validate_prompt_empty() {
    let empty_prompt = "";
    assert!(validate_prompt(empty_prompt).is_err());
    assert_eq!(validate_prompt(empty_prompt).unwrap_err().message(), "Prompt cannot be empty");
}

#[test]
fn test_validate_prompt_whitespace_only() {
    let whitespace_prompt = "   \n\t   ";
    assert!(validate_prompt(whitespace_prompt).is_err());
    assert_eq!(
        validate_prompt(whitespace_prompt).unwrap_err().message(),
        "Prompt cannot be empty"
    );
}

#[test]
fn test_validate_prompt_too_long() {
    let long_prompt = "a".repeat(501);
    assert!(validate_prompt(&long_prompt).is_err());
    assert_eq!(
        validate_prompt(&long_prompt).unwrap_err().message(),
        "Prompt too long (max 500 characters)"
    );
}

#[test]
fn test_validate_prompt_boundary_length() {
    let boundary_prompt = "a".repeat(500);
    assert!(validate_prompt(&boundary_prompt).is_ok());
}

#[test]
fn test_validate_prompt_blocked_words() {
    let blocked_prompts = vec![
        "I want a <script> haircut",
        "javascript injection attempt",
        "HTML styling please",
        "CSS changes needed",
        "Visit http://evil.com",
        "Check www.malicious.com",
    ];

    for prompt in blocked_prompts {
        assert!(validate_prompt(prompt).is_err(), "Prompt '{}' should be blocked", prompt);
        assert_eq!(
            validate_prompt(prompt).unwrap_err().message(),
            "Prompt contains invalid content"
        );
    }
}

#[test]
fn test_validate_prompt_case_insensitive() {
    let mixed_case_prompt = "I want a JaVaScRiPt haircut";
    assert!(validate_prompt(mixed_case_prompt).is_err());
    assert_eq!(
        validate_prompt(mixed_case_prompt).unwrap_err().message(),
        "Prompt contains invalid content"
    );
}

#[test]
fn test_validate_prompt_allowed_content() {
    let allowed_prompts = vec![
        "Low taper fade with textured top",
        "Classic crew cut, very short",
        "Pompadour with volume on top",
        "French crop with longer fringe",
        "Caesar cut with textured sides",
    ];

    for prompt in allowed_prompts {
        assert!(validate_prompt(prompt).is_ok(), "Prompt '{}' should be allowed", prompt);
    }
}

// ===== FURTHER CASES =====

#[test]
fn limits_have_their_values() {
    assert_eq!(MAX_PROMPT_CHARS, 500);
    assert_eq!(MAX_IMAGE_BYTES, 10 * 1024 * 1024);
    assert_eq!(MAX_IMAGE_BYTES, 10_485_760);
}

#[test]
fn each_reason_has_its_message() {
    assert_eq!(ValidationError::Empty.message(), "Prompt cannot be empty");
    assert_eq!(ValidationError::TooLong.message(), "Prompt too long (max 500 characters)");
    assert_eq!(ValidationError::BlockedContent.message(), "Prompt contains invalid content");
    assert_eq!(ValidationError::InvalidFormat.message(), "Invalid image data format");
    assert_eq!(ValidationError::TooLarge.message(), "Image too large (max 10MB)");
}

#[test]
fn prompt_verdicts_by_variant() {
    assert_eq!(validate_prompt(""), Err(ValidationError::Empty));
    assert_eq!(validate_prompt("   "), Err(ValidationError::Empty));
    assert_eq!(validate_prompt(&"a".repeat(501)), Err(ValidationError::TooLong));
    assert_eq!(validate_prompt(&"a".repeat(500)), Ok(()));
    assert_eq!(validate_prompt("visit http://x"), Err(ValidationError::BlockedContent));
    assert_eq!(validate_prompt("JaVaScRiPt"), Err(ValidationError::BlockedContent));
}

#[test]
fn blank_prompt_in_unicode_white_space() {
    assert_eq!(validate_prompt("\u{a0}\u{2003}\u{3000}\u{85}"), Err(ValidationError::Empty));
    // a zero width space is no white space
    assert_eq!(validate_prompt("\u{200b}"), Ok(()));
}

#[test]
fn checks_come_in_order() {
    // blank wins over long
    assert_eq!(validate_prompt(&" ".repeat(600)), Err(ValidationError::Empty));
    // long wins over blocked
    let long_and_blocked = format!("{}<script>", "a".repeat(500));
    assert_eq!(validate_prompt(&long_and_blocked), Err(ValidationError::TooLong));
    // blocked at exactly the limit
    let blocked_at_limit = format!("{}www", "a".repeat(497));
    assert_eq!(validate_prompt(&blocked_at_limit), Err(ValidationError::BlockedContent));
}

#[test]
fn prompt_length_counts_characters() {
    // 500 characters of two bytes each
    assert_eq!(validate_prompt(&"é".repeat(500)), Ok(()));
    assert_eq!(validate_prompt(&"é".repeat(501)), Err(ValidationError::TooLong));
}

#[test]
fn every_blocked_word_is_found() {
    for word in ["script", "javascript", "html", "css", "<", ">", "http", "www"] {
        assert!(contains_blocked(word), "{}", word);
        assert!(contains_blocked(&format!("a{}b", word)), "{}", word);
        assert_eq!(validate_prompt(&format!("cut {}", word)), Err(ValidationError::BlockedContent));
        assert_eq!(
            validate_prompt(&format!("cut {}", word.to_uppercase())),
            Err(ValidationError::BlockedContent)
        );
    }
}

#[test]
fn blocked_word_inside_another_word() {
    assert_eq!(validate_prompt("a short description"), Err(ValidationError::BlockedContent));
    assert_eq!(validate_prompt("wwwave"), Err(ValidationError::BlockedContent));
}

#[test]
fn contains_blocked_takes_the_text_as_it_is() {
    assert!(!contains_blocked("HTML"));
    assert!(!contains_blocked("scrip t"));
    assert!(!contains_blocked("ww w"));
    assert!(!contains_blocked(""));
    assert!(contains_blocked("a > b"));
}

#[test]
fn image_verdicts_by_variant() {
    assert_eq!(validate_image_data("not base64!"), Err(ValidationError::InvalidFormat));
    assert_eq!(validate_image_data("aGVsbG8"), Err(ValidationError::InvalidFormat));
    assert_eq!(validate_image_data("aGVsbG8="), Ok(()));
    assert_eq!(validate_image_data(""), Ok(()));
    assert_eq!(validate_image_data(&create_valid_base64(10240)), Err(ValidationError::TooLarge));
}

#[test]
fn invalid_format_wins_over_size() {
    let long_and_invalid = "!".repeat(20_000_000);
    assert_eq!(validate_image_data(&long_and_invalid), Err(ValidationError::InvalidFormat));
}

#[test]
fn size_estimate_at_the_limit() {
    // 13981012 characters are estimated at 10485759 bytes, 13981016 at 10485762
    assert_eq!(validate_image_data(&"A".repeat(13_981_012)), Ok(()));
    assert_eq!(validate_image_data(&"A".repeat(13_981_016)), Err(ValidationError::TooLarge));
    assert_eq!(check_image(true, 13_981_014), Ok(()));
    assert_eq!(check_image(true, 13_981_015), Err(ValidationError::TooLarge));
    assert_eq!(check_image(true, 0), Ok(()));
    assert_eq!(check_image(true, usize::MAX), Err(ValidationError::TooLarge));
    assert_eq!(check_image(false, 0), Err(ValidationError::InvalidFormat));
    assert_eq!(check_image(false, usize::MAX), Err(ValidationError::InvalidFormat));
}

#[test]
fn photo_of_exactly_ten_megabytes_is_estimated_over_the_limit() {
    let photo = vec![0u8; 10 * 1024 * 1024];
    let text = general_purpose::STANDARD.encode(&photo);
    assert_eq!(text.len(), 13_981_016);
    assert_eq!(validate_image_data(&text), Err(ValidationError::TooLarge));
    // the largest photo that passes
    let photo = vec![0u8; 10 * 1024 * 1024 - 1];
    let text = general_purpose::STANDARD.encode(&photo);
    assert_eq!(text.len(), 13_981_012);
    assert_eq!(validate_image_data(&text), Ok(()));
}
