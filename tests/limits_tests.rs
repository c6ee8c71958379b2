use typst_count::check_limits;
use typst_count::cli::{Cli, CountMode, DisplayMode, OutputFormat};
use typst_count::counter::Count;

fn make_test_cli() -> Cli {
    Cli {
        input: vec![],
        format: OutputFormat::Human,
        mode: CountMode::Both,
        output: None,
        display: DisplayMode::Auto,
        exclude_imports: false,
        max_words: None,
        min_words: None,
        max_characters: None,
        min_characters: None,
    }
}

#[test]
fn test_check_limits_no_limits() {
    let args = make_test_cli();
    let count = Count {
        words: 100,
        characters: 500,
    };

    assert!(check_limits(&args, &count).is_ok());
}

#[test]
fn test_check_limits_max_words_ok() {
    let mut args = make_test_cli();
    args.max_words = Some(200);
    let count = Count {
        words: 100,
        characters: 500,
    };

    assert!(check_limits(&args, &count).is_ok());
}

#[test]
fn test_check_limits_max_words_exceeded() {
    let mut args = make_test_cli();
    args.max_words = Some(50);
    let count = Count {
        words: 100,
        characters: 500,
    };

    let result = check_limits(&args, &count);
    assert!(result.is_err());
    let errors = result.unwrap_err();
    assert_eq!(errors.len(), 1);
    assert!(errors[0].contains("exceeds maximum"));
    assert!(errors[0].contains("100 > 50"));
}

#[test]
fn test_check_limits_min_words_ok() {
    let mut args = make_test_cli();
    args.min_words = Some(50);
    let count = Count {
        words: 100,
        characters: 500,
    };

    assert!(check_limits(&args, &count).is_ok());
}

#[test]
fn test_check_limits_min_words_below() {
    let mut args = make_test_cli();
    args.min_words = Some(200);
    let count = Count {
        words: 100,
        characters: 500,
    };

    let result = check_limits(&args, &count);
    assert!(result.is_err());
    let errors = result.unwrap_err();
    assert_eq!(errors.len(), 1);
    assert!(errors[0].contains("below minimum"));
    assert!(errors[0].contains("100 < 200"));
}

#[test]
fn test_check_limits_max_characters_ok() {
    let mut args = make_test_cli();
    args.max_characters = Some(1000);
    let count = Count {
        words: 100,
        characters: 500,
    };

    assert!(check_limits(&args, &count).is_ok());
}

#[test]
fn test_check_limits_max_characters_exceeded() {
    let mut args = make_test_cli();
    args.max_characters = Some(300);
    let count = Count {
        words: 100,
        characters: 500,
    };

    let result = check_limits(&args, &count);
    assert!(result.is_err());
    let errors = result.unwrap_err();
    assert_eq!(errors.len(), 1);
    assert!(errors[0].contains("exceeds maximum"));
    assert!(errors[0].contains("500 > 300"));
}

#[test]
fn test_check_limits_min_characters_ok() {
    let mut args = make_test_cli();
    args.min_characters = Some(100);
    let count = Count {
        words: 100,
        characters: 500,
    };

    assert!(check_limits(&args, &count).is_ok());
}

#[test]
fn test_check_limits_min_characters_below() {
    let mut args = make_test_cli();
    args.min_characters = Some(1000);
    let count = Count {
        words: 100,
        characters: 500,
    };

    let result = check_limits(&args, &count);
    assert!(result.is_err());
    let errors = result.unwrap_err();
    assert_eq!(errors.len(), 1);
    assert!(errors[0].contains("below minimum"));
    assert!(errors[0].contains("500 < 1000"));
}

#[test]
fn test_check_limits_multiple_violations() {
    let mut args = make_test_cli();
    args.max_words = Some(50);
    args.min_words = Some(200);
    args.max_characters = Some(300);
    args.min_characters = Some(1000);
    let count = Count {
        words: 100,
        characters: 500,
    };

    let result = check_limits(&args, &count);
    assert!(result.is_err());
    let errors = result.unwrap_err();
    // Should have 4 violations: max_words exceeded, min_words not met,
    // max_characters exceeded, min_characters not met
    assert_eq!(errors.len(), 4);
}

#[test]
fn test_check_limits_boundary_values() {
    let mut args = make_test_cli();
    args.max_words = Some(100);
    args.min_words = Some(100);
    let count = Count {
        words: 100,
        characters: 500,
    };

    // Exactly at the boundary should be OK
    assert!(check_limits(&args, &count).is_ok());
}

#[test]
fn test_check_limits_mixed_ok_and_violations() {
    let mut args = make_test_cli();
    args.max_words = Some(200); // OK
    args.min_words = Some(50); // OK
    args.max_characters = Some(300); // Violation
    args.min_characters = Some(100); // OK
    let count = Count {
        words: 100,
        characters: 500,
    };

    let result = check_limits(&args, &count);
    assert!(result.is_err());
    let errors = result.unwrap_err();
    assert_eq!(errors.len(), 1);
    assert!(errors[0].contains("Character count exceeds maximum"));
}
