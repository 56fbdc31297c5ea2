use loom_md::block_detection::{is_in_code_block, is_in_math_block};

#[test]
fn test_code_block_detection() {
    let lines = vec![
        "# Header".to_string(),
        "```rust".to_string(),
        "fn main() {}".to_string(),
        "```".to_string(),
        "More text".to_string(),
    ];

    let (in_block, is_start, is_end) = is_in_code_block(0, &lines);
    assert!(!in_block && !is_start && !is_end);

    let (in_block, is_start, is_end) = is_in_code_block(1, &lines);
    assert!(is_start && !is_end);

    let (in_block, is_start, is_end) = is_in_code_block(2, &lines);
    assert!(in_block && !is_start && !is_end);

    let (in_block, is_start, is_end) = is_in_code_block(3, &lines);
    assert!(is_end && !is_start);

    let (in_block, is_start, is_end) = is_in_code_block(4, &lines);
    assert!(!in_block && !is_start && !is_end);
}

#[test]
fn test_math_block_detection() {
    let lines = vec![
        "Text".to_string(),
        "$$".to_string(),
        "x^2 + y^2 = z^2".to_string(),
        "$$".to_string(),
        "More text".to_string(),
    ];

    let (in_block, is_start, is_end) = is_in_math_block(0, &lines);
    assert!(!in_block && !is_start && !is_end);

    let (in_block, is_start, is_end) = is_in_math_block(1, &lines);
    assert!(is_start && !is_end);

    let (in_block, is_start, is_end) = is_in_math_block(2, &lines);
    assert!(in_block && !is_start && !is_end);

    let (in_block, is_start, is_end) = is_in_math_block(3, &lines);
    assert!(is_end && !is_start);

    let (in_block, is_start, is_end) = is_in_math_block(4, &lines);
    assert!(!in_block && !is_start && !is_end);
}

#[test]
fn test_fence_line_exactly_start_or_end() {
    // every fence line is a boundary of exactly one kind: start or end
    let lines = vec![
        "```".to_string(),
        "a".to_string(),
        "```".to_string(),
        "```".to_string(),
        "```".to_string(),
    ];
    for i in [0usize, 2, 3, 4] {
        let (in_block, is_start, is_end) = is_in_code_block(i, &lines);
        assert!(in_block);
        assert!(is_start != is_end);
    }
}

#[test]
fn test_unterminated_fence_stays_open() {
    // an odd number of fence markers leaves every later line inside
    let lines = vec![
        "```".to_string(),
        "a".to_string(),
        "b".to_string(),
    ];
    for i in [1usize, 2] {
        let (in_block, is_start, is_end) = is_in_code_block(i, &lines);
        assert!(in_block && !is_start && !is_end);
    }
}

#[test]
fn test_classification_idempotent() {
    // the same snapshot classifies the same way on every call
    let lines = vec![
        "```rust".to_string(),
        "let x = 1;".to_string(),
        "```".to_string(),
        "$$".to_string(),
        "e = mc^2".to_string(),
    ];
    for i in 0..lines.len() {
        assert_eq!(is_in_code_block(i, &lines), is_in_code_block(i, &lines));
        assert_eq!(is_in_math_block(i, &lines), is_in_math_block(i, &lines));
    }
}

#[test]
fn test_classification_ignores_suffix() {
    // classification of line i never looks past line i
    let short = vec!["```".to_string(), "a".to_string()];
    let long = vec!["```".to_string(), "a".to_string(), "```".to_string()];
    assert_eq!(is_in_code_block(0, &short), is_in_code_block(0, &long));
    assert_eq!(is_in_code_block(1, &short), is_in_code_block(1, &long));
}

#[test]
fn test_indented_fence_detected() {
    // fences are recognised on the trimmed line
    let lines = vec!["   ```   ".to_string(), "x".to_string()];
    let (_, is_start, _) = is_in_code_block(0, &lines);
    assert!(is_start);
    let (in_block, _, _) = is_in_code_block(1, &lines);
    assert!(in_block);
}
