use typst_count::cli::{CountMode, DisplayMode};
use typst_count::counter::Count;
use typst_count::output::human::{
    format_header, format_row, format_separator, format_single, format_table,
};

#[test]
fn human_test_format_single_both() {
    let count = Count {
        words: 100,
        characters: 500,
    };
    let output = format_single(&count, false, CountMode::Both);
    assert!(output.contains("100"));
    assert!(output.contains("500"));
    assert!(output.contains("Words"));
    assert!(output.contains("Characters"));
}

#[test]
fn human_test_format_single_words_only() {
    let count = Count {
        words: 100,
        characters: 500,
    };
    let output = format_single(&count, false, CountMode::Words);
    assert!(output.contains("100"));
    assert!(!output.contains("500"));
    assert!(output.contains("Words"));
}

#[test]
fn human_test_format_single_characters_only() {
    let count = Count {
        words: 100,
        characters: 500,
    };
    let output = format_single(&count, false, CountMode::Characters);
    assert!(!output.contains("100"));
    assert!(output.contains("500"));
    assert!(output.contains("Characters"));
}

#[test]
fn test_format_single_quiet() {
    let count = Count {
        words: 100,
        characters: 500,
    };
    let output = format_single(&count, true, CountMode::Both);
    assert_eq!(output, "100 500");
}

#[test]
fn test_format_single_quiet_words() {
    let count = Count {
        words: 42,
        characters: 500,
    };
    let output = format_single(&count, true, CountMode::Words);
    assert_eq!(output, "42");
}

#[test]
fn test_format_table_multiple_files() {
    let results = vec![
        (
            "file1.typ".to_string(),
            Count {
                words: 100,
                characters: 500,
            },
        ),
        (
            "file2.typ".to_string(),
            Count {
                words: 200,
                characters: 1000,
            },
        ),
    ];
    let output = format_table(&results, false, CountMode::Both);
    assert!(output.contains("file1.typ"));
    assert!(output.contains("file2.typ"));
    assert!(output.contains("100"));
    assert!(output.contains("200"));
    assert!(output.contains("500"));
    assert!(output.contains("1000"));
    assert!(output.contains("Total"));
    assert!(output.contains("300")); // total words
    assert!(output.contains("1500")); // total characters
}

#[test]
fn test_format_table_quiet() {
    let results = vec![
        (
            "file1.typ".to_string(),
            Count {
                words: 100,
                characters: 500,
            },
        ),
        (
            "file2.typ".to_string(),
            Count {
                words: 200,
                characters: 1000,
            },
        ),
    ];
    let output = format_table(&results, true, CountMode::Both);
    assert!(!output.contains("File"));
    assert!(!output.contains("Total"));
    assert!(output.contains("100 500"));
    assert!(output.contains("200 1000"));
}

#[test]
fn human_test_format_header_both() {
    let header = format_header(10, CountMode::Both);
    assert!(header.contains("File"));
    assert!(header.contains("Words"));
    assert!(header.contains("Characters"));
}

#[test]
fn human_test_format_header_words_only() {
    let header = format_header(10, CountMode::Words);
    assert!(header.contains("File"));
    assert!(header.contains("Words"));
    assert!(!header.contains("Characters"));
}

#[test]
fn test_format_separator() {
    let sep = format_separator(10, CountMode::Both);
    assert!(sep.contains("─"));
    // Each "─" character is 3 bytes in UTF-8
    // Total width = 10 + 26 = 36 characters, but 108 bytes
    assert_eq!(sep.chars().count(), 36); // 36 characters

    let sep_words = format_separator(10, CountMode::Words);
    assert_eq!(sep_words.chars().count(), 23); // 23 characters
}

#[test]
fn test_format_row_normal() {
    let count = Count {
        words: 100,
        characters: 500,
    };
    let row = format_row("test.typ", &count, 10, false, CountMode::Both);
    assert!(row.contains("test.typ"));
    assert!(row.contains("100"));
    assert!(row.contains("500"));
}

#[test]
fn test_format_row_quiet() {
    let count = Count {
        words: 100,
        characters: 500,
    };
    let row = format_row("test.typ", &count, 10, true, CountMode::Both);
    assert_eq!(row, "100 500");
    assert!(!row.contains("test.typ"));
}

#[test]
fn test_format_display_mode_auto_single_file() {
    let results = vec![(
        "test.typ".to_string(),
        Count {
            words: 100,
            characters: 500,
        },
    )];
    let output = typst_count::output::human::format(&results, DisplayMode::Auto, CountMode::Both);
    // Should use simple format for single file
    assert!(output.contains("100"));
    assert!(output.contains("500"));
    assert!(!output.contains("Total")); // No total line for single file
}

#[test]
fn test_format_display_mode_auto_multiple_files() {
    let results = vec![
        (
            "file1.typ".to_string(),
            Count {
                words: 100,
                characters: 500,
            },
        ),
        (
            "file2.typ".to_string(),
            Count {
                words: 200,
                characters: 1000,
            },
        ),
    ];
    let output = typst_count::output::human::format(&results, DisplayMode::Auto, CountMode::Both);
    // Should use table format for multiple files
    assert!(output.contains("file1.typ"));
    assert!(output.contains("file2.typ"));
    assert!(output.contains("Total"));
}

#[test]
fn test_format_display_mode_detailed() {
    let results = vec![(
        "test.typ".to_string(),
        Count {
            words: 100,
            characters: 500,
        },
    )];
    let output = typst_count::output::human::format(&results, DisplayMode::Detailed, CountMode::Both);
    // Should use table format even for single file
    assert!(output.contains("test.typ"));
    assert!(output.contains("Total"));
}

#[test]
fn human_test_format_display_mode_total() {
    let results = vec![
        (
            "file1.typ".to_string(),
            Count {
                words: 100,
                characters: 500,
            },
        ),
        (
            "file2.typ".to_string(),
            Count {
                words: 200,
                characters: 1000,
            },
        ),
    ];
    let output = typst_count::output::human::format(&results, DisplayMode::Total, CountMode::Both);
    // Should show only total, no breakdown
    assert!(!output.contains("file1.typ"));
    assert!(!output.contains("file2.typ"));
    assert!(output.contains("300")); // total words
    assert!(output.contains("1500")); // total characters
}

#[test]
fn test_format_display_mode_quiet() {
    let results = vec![
        (
            "file1.typ".to_string(),
            Count {
                words: 100,
                characters: 500,
            },
        ),
        (
            "file2.typ".to_string(),
            Count {
                words: 200,
                characters: 1000,
            },
        ),
    ];
    let output = typst_count::output::human::format(&results, DisplayMode::Quiet, CountMode::Both);
    // Should show only numbers, no labels
    assert_eq!(output.trim(), "300 1500");
}
