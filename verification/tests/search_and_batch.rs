use loom_md::config::{get_default_dark_theme_config, get_default_light_theme_config,
    get_loom_dir, load_theme, theme_file_path, theme_file_stem};
use loom_md::file_tree::{sort_entries, FileEntry};
use loom_md::file_watcher::file_event;
use loom_md::images::{decode_clipboard_image, image_filename};
use loom_md::markdown::{render_markdown_batch, RenderRequest};
use loom_md::search::{replace_in_content, search_in_content, SearchOptions};

#[test]
fn test_search_case_sensitive() {
    let content = "Hello World\nhello world".to_string();
    let options = SearchOptions {
        case_sensitive: true,
        whole_word: false,
        use_regex: false,
    };

    let matches = search_in_content("Hello".to_string(), content, options).unwrap();
    assert_eq!(matches.len(), 1);
    assert_eq!(matches[0].line, 1);
}

#[test]
fn test_search_case_insensitive() {
    let content = "Hello World\nhello world".to_string();
    let options = SearchOptions {
        case_sensitive: false,
        whole_word: false,
        use_regex: false,
    };

    let matches = search_in_content("hello".to_string(), content, options).unwrap();
    assert_eq!(matches.len(), 2);
}

#[test]
fn test_search_whole_word() {
    let content = "hello helloworld".to_string();
    let options = SearchOptions {
        case_sensitive: false,
        whole_word: true,
        use_regex: false,
    };

    let matches = search_in_content("hello".to_string(), content, options).unwrap();
    assert_eq!(matches.len(), 1);
}

#[test]
fn test_replace() {
    let content = "Hello World\nHello Universe".to_string();
    let options = SearchOptions {
        case_sensitive: false,
        whole_word: false,
        use_regex: false,
    };

    let result = replace_in_content(
        "Hello".to_string(),
        "Hi".to_string(),
        content,
        options,
    ).unwrap();

    assert_eq!(result.replaced_count, 2);
    assert_eq!(result.new_content, "Hi World\nHi Universe");
}

#[test]
fn test_search_empty_query() {
    let options = SearchOptions {
        case_sensitive: true,
        whole_word: false,
        use_regex: false,
    };
    let matches = search_in_content(String::new(), "anything".to_string(), options).unwrap();
    assert!(matches.is_empty());
}

#[test]
fn test_search_reports_positions() {
    let options = SearchOptions {
        case_sensitive: true,
        whole_word: false,
        use_regex: false,
    };
    let matches =
        search_in_content("b".to_string(), "ab\ncbd".to_string(), options).unwrap();
    assert_eq!(matches.len(), 2);
    assert_eq!(matches[0].line, 1);
    assert_eq!(matches[0].column, 2);
    assert_eq!(matches[0].length, 1);
    assert_eq!(matches[0].text, "b");
    assert_eq!(matches[0].line_text, "ab");
    assert_eq!(matches[1].line, 2);
    assert_eq!(matches[1].column, 2);
    assert_eq!(matches[1].line_text, "cbd");
}

#[test]
fn test_search_splits_crlf_lines() {
    // a carriage return before the line feed belongs to the line ending
    let options = SearchOptions {
        case_sensitive: true,
        whole_word: false,
        use_regex: false,
    };
    let matches =
        search_in_content("a".to_string(), "ab\r\ncd\r\na".to_string(), options).unwrap();
    assert_eq!(matches.len(), 2);
    assert_eq!(matches[0].line_text, "ab");
    assert_eq!(matches[1].line, 3);
    assert_eq!(matches[1].line_text, "a");
}

#[test]
fn test_search_escapes_literal_query() {
    // a dot in a literal query matches only a dot, not any character
    let options = SearchOptions {
        case_sensitive: true,
        whole_word: false,
        use_regex: false,
    };
    let matches = search_in_content(".".to_string(), "a.b axb".to_string(), options).unwrap();
    assert_eq!(matches.len(), 1);
    assert_eq!(matches[0].column, 2);
}

#[test]
fn test_search_invalid_regex_is_error() {
    let options = SearchOptions {
        case_sensitive: true,
        whole_word: false,
        use_regex: true,
    };
    assert!(search_in_content("(".to_string(), "text".to_string(), options.clone()).is_err());
    assert!(replace_in_content(
        "(".to_string(),
        "x".to_string(),
        "text".to_string(),
        options,
    )
    .is_err());
}

#[test]
fn test_replace_empty_query() {
    let options = SearchOptions {
        case_sensitive: true,
        whole_word: false,
        use_regex: false,
    };
    let r = replace_in_content(
        String::new(),
        "x".to_string(),
        "abc".to_string(),
        options,
    )
    .unwrap();
    assert_eq!(r.new_content, "abc");
    assert_eq!(r.replaced_count, 0);
}

fn batch_requests(n: usize) -> Vec<RenderRequest> {
    let lines: Vec<String> = (0..n).map(|i| format!("line {}", i)).collect();
    (0..n)
        .map(|i| RenderRequest {
            line: lines[i].clone(),
            line_index: i,
            all_lines: lines.clone(),
            is_editing: false,
        })
        .collect()
}

#[test]
fn test_batch_preserves_order() {
    // sequential path (up to 50 entries) and parallel path (more than 50)
    for n in [1usize, 50, 51, 1000] {
        let results = render_markdown_batch(batch_requests(n));
        assert_eq!(results.len(), n);
        for i in 0..n {
            assert_eq!(results[i].html, format!("line {}", i));
            assert!(!results[i].is_code_block_boundary);
        }
    }
}

fn entry(name: &str, is_dir: bool) -> FileEntry {
    FileEntry {
        name: name.to_string(),
        path: format!("/d/{}", name),
        is_dir,
    }
}

#[test]
fn test_sort_entries_display_order() {
    let sorted = sort_entries(vec![
        entry("zeta.md", false),
        entry("Beta", true),
        entry("alpha.md", false),
        entry("gamma", true),
        entry("Alpha.md", false),
    ]);
    let names: Vec<&str> = sorted.iter().map(|e| e.name.as_str()).collect();
    // directories first, then files, alphabetically without regard to case
    assert_eq!(names, vec!["Beta", "gamma", "alpha.md", "Alpha.md", "zeta.md"]);
}

#[test]
fn test_default_themes() {
    let dark = get_default_dark_theme_config();
    assert_eq!(dark.name, "Dark");
    assert_eq!(dark.author.as_deref(), Some("Loom.md"));
    assert_eq!(dark.version.as_deref(), Some("1.0.0"));
    assert_eq!(dark.variables.len(), 24);
    assert!(dark
        .variables
        .iter()
        .any(|(k, v)| k.as_str() == "bg-primary" && v.as_str() == "#1e1e1e"));

    let light = get_default_light_theme_config();
    assert_eq!(light.name, "Light");
    assert_eq!(light.variables.len(), 24);
    assert!(light
        .variables
        .iter()
        .any(|(k, v)| k.as_str() == "bg-primary" && v.as_str() == "#ffffff"));
}

#[test]
fn test_get_loom_dir() {
    assert_eq!(
        get_loom_dir(None, false, false),
        Err("No folder path provided".to_string())
    );
    assert_eq!(
        get_loom_dir(Some("/tmp/notes".to_string()), false, false),
        Err("Folder does not exist".to_string())
    );
    assert_eq!(
        get_loom_dir(Some("/tmp/notes".to_string()), true, false),
        Err("Path is not a directory".to_string())
    );
    assert_eq!(
        get_loom_dir(Some("/tmp/notes".to_string()), true, true),
        Ok("/tmp/notes/.loom".to_string())
    );
    assert_eq!(
        get_loom_dir(Some("/tmp/notes/".to_string()), true, true),
        Ok("/tmp/notes/.loom".to_string())
    );
}

#[test]
fn test_theme_file_path() {
    assert_eq!(
        theme_file_path("/n/.loom", true, "dark"),
        "/n/.loom/themes/built-in/dark.json"
    );
    assert_eq!(
        theme_file_path("/n/.loom", false, "mine"),
        "/n/.loom/themes/custom/mine.json"
    );
}

#[test]
fn test_theme_file_stem() {
    assert_eq!(theme_file_stem("dark.json"), Some("dark".to_string()));
    assert_eq!(theme_file_stem("my.theme.json"), Some("my.theme".to_string()));
    assert_eq!(theme_file_stem(".json"), None);
    assert_eq!(theme_file_stem("dark.jsonx"), None);
    assert_eq!(theme_file_stem("dark"), None);
    assert_eq!(theme_file_stem("notes.txt"), None);
}

#[test]
fn test_load_theme_preference() {
    assert_eq!(
        load_theme("dark", Some("builtin".to_string()), Some("custom".to_string())),
        Ok("builtin".to_string())
    );
    assert_eq!(
        load_theme("dark", None, Some("custom".to_string())),
        Ok("custom".to_string())
    );
    assert_eq!(
        load_theme("dusk", None, None),
        Err("Theme 'dusk' not found".to_string())
    );
}

#[test]
fn test_decode_clipboard_image() {
    assert_eq!(decode_clipboard_image("aGk="), Ok(vec![b'h', b'i']));
    let err = decode_clipboard_image("not base64!").unwrap_err();
    assert!(err.starts_with("Failed to decode base64: "));
}

#[test]
fn test_image_filename() {
    assert_eq!(image_filename(None, 123), "image-123.png");
    assert_eq!(
        image_filename(Some("shot".to_string()), 1700000000000),
        "shot-1700000000000.png"
    );
}

#[test]
fn test_file_event_filters_hidden() {
    assert!(file_event(
        "create".to_string(),
        "/d/.hidden".to_string(),
        Some(".hidden".to_string()),
    )
    .is_none());
    let ev = file_event(
        "delete".to_string(),
        "/d/note.md".to_string(),
        Some("note.md".to_string()),
    )
    .unwrap();
    assert_eq!(ev.event_type, "delete");
    assert_eq!(ev.path, "/d/note.md");
}
