use loom_md::inline_rendering::{render_inline_markdown, render_inline_markdown_with_markers};
use loom_md::markdown::{render_markdown_line, LineRenderResult, RenderRequest};

fn render_one(line: &str, editing: bool) -> LineRenderResult {
    render_markdown_line(RenderRequest {
        line: line.to_string(),
        line_index: 0,
        all_lines: vec![line.to_string()],
        is_editing: editing,
    })
}

#[test]
fn inline_rendering_test_inline_markdown() {
    let text = "This is **bold** and *italic* and `code`";
    let result = render_inline_markdown(text);
    assert!(result.contains("<strong>bold</strong>"));
    assert!(result.contains("<em>italic</em>"));
    assert!(result.contains("<code>code</code>"));
}

#[test]
fn test_inline_markdown_with_markers() {
    let text = "This is **bold** and *italic*";
    let result = render_inline_markdown_with_markers(text);
    assert!(result.contains("<strong>**bold**</strong>"));
    assert!(result.contains("<em>*italic*</em>"));
}

#[test]
fn test_bold_italic_combination() {
    let text = "This is ***bold and italic***";
    let result = render_inline_markdown(text);
    assert!(result.contains("<strong><em>bold and italic</em></strong>"));
}

#[test]
fn test_links() {
    let text = "Check out [this link](https://example.com)";
    let result = render_inline_markdown(text);
    assert!(result.contains("<a href=\"https://example.com\">this link</a>"));
}

#[test]
fn test_strikethrough() {
    let text = "This is ~~strikethrough~~";
    let result = render_inline_markdown(text);
    assert!(result.contains("<del>strikethrough</del>"));
}

#[test]
fn test_underscore_emphasis() {
    let result = render_inline_markdown("__wide__ and _narrow_");
    assert_eq!(result, "<strong>wide</strong> and <em>narrow</em>");
}

#[test]
fn test_triple_marker_exact() {
    assert_eq!(render_inline_markdown("***x***"), "<strong><em>x</em></strong>");
    assert_eq!(
        render_inline_markdown_with_markers("***x***"),
        "<strong><em>***x***</em></strong>"
    );
}

#[test]
fn test_marker_variants_same_nesting() {
    // the two variants differ only by the literal punctuation in the tags
    assert_eq!(render_inline_markdown("**b**"), "<strong>b</strong>");
    assert_eq!(render_inline_markdown_with_markers("**b**"), "<strong>**b**</strong>");
    assert_eq!(render_inline_markdown("*i*"), "<em>i</em>");
    assert_eq!(render_inline_markdown_with_markers("*i*"), "<em>*i*</em>");
    assert_eq!(render_inline_markdown("~~s~~"), "<del>s</del>");
    assert_eq!(render_inline_markdown_with_markers("~~s~~"), "<del>~~s~~</del>");
    assert_eq!(render_inline_markdown("`c`"), "<code>c</code>");
    assert_eq!(render_inline_markdown_with_markers("`c`"), "<code>`c`</code>");
    assert_eq!(render_inline_markdown("[t](u)"), "<a href=\"u\">t</a>");
    assert_eq!(render_inline_markdown_with_markers("[t](u)"), "<a href=\"u\">[t](u)</a>");
}

#[test]
fn markdown_test_header_rendering() {
    let request = RenderRequest {
        line: "# Hello World".to_string(),
        line_index: 0,
        all_lines: vec!["# Hello World".to_string()],
        is_editing: false,
    };
    let result = render_markdown_line(request);
    assert!(result.html.contains("heading h1"));
    assert!(result.html.contains("Hello World"));
}

#[test]
fn mod_test_header_rendering() {
    let request = RenderRequest {
        line: "# Hello World".to_string(),
        line_index: 0,
        all_lines: vec!["# Hello World".to_string()],
        is_editing: false,
    };
    let result = render_markdown_line(request);
    assert!(result.html.contains("heading h1"));
    assert!(result.html.contains("Hello World"));
}

#[test]
fn markdown_test_code_block() {
    let lines = vec![
        "```rust".to_string(),
        "fn main() {}".to_string(),
        "```".to_string(),
    ];

    let result0 = render_markdown_line(RenderRequest {
        line: lines[0].clone(),
        line_index: 0,
        all_lines: lines.clone(),
        is_editing: false,
    });
    assert!(result0.html.contains("code-block-start"));

    let result1 = render_markdown_line(RenderRequest {
        line: lines[1].clone(),
        line_index: 1,
        all_lines: lines.clone(),
        is_editing: false,
    });
    assert!(result1.html.contains("code-block-line"));
    assert!(result1.html.contains("fn main() {}"));
}

#[test]
fn mod_test_code_block() {
    let lines = vec![
        "```rust".to_string(),
        "fn main() {}".to_string(),
        "```".to_string(),
    ];

    let result0 = render_markdown_line(RenderRequest {
        line: lines[0].clone(),
        line_index: 0,
        all_lines: lines.clone(),
        is_editing: false,
    });
    assert!(result0.html.contains("code-block-start"));

    let result1 = render_markdown_line(RenderRequest {
        line: lines[1].clone(),
        line_index: 1,
        all_lines: lines.clone(),
        is_editing: false,
    });
    assert!(result1.html.contains("code-block-line"));
    assert!(result1.html.contains("fn main() {}"));
}

#[test]
fn markdown_test_inline_markdown() {
    let text = "This is **bold** and *italic* and `code`";
    let result = render_inline_markdown(text);
    assert!(result.contains("<strong>bold</strong>"));
    assert!(result.contains("<em>italic</em>"));
    assert!(result.contains("<code>code</code>"));
}

#[test]
fn test_header_hides_markers_in_preview() {
    let result = render_one("# Hello World", false);
    assert_eq!(result.html, "<span class=\"heading h1\">Hello World</span>");
    assert!(!result.html.contains('#'));
    assert!(!result.is_code_block_boundary);
}

#[test]
fn test_header_keeps_markers_in_editing() {
    let result = render_one("## Title", true);
    assert_eq!(result.html, "<span class=\"heading h2\">## Title</span>");
}

#[test]
fn test_code_fence_language_token() {
    let lines = vec![
        "```rust".to_string(),
        "fn main() {}".to_string(),
        "```".to_string(),
    ];
    let mk = |i: usize| RenderRequest {
        line: lines[i].clone(),
        line_index: i,
        all_lines: lines.clone(),
        is_editing: false,
    };
    let r0 = render_markdown_line(mk(0));
    assert_eq!(r0.html, "<span class=\"code-block-start\" data-lang=\"rust\"></span>");
    assert!(r0.is_code_block_boundary);
    let r1 = render_markdown_line(mk(1));
    assert_eq!(r1.html, "<code class=\"code-block-line\">fn main() {}</code>");
    assert!(!r1.is_code_block_boundary);
    let r2 = render_markdown_line(mk(2));
    assert_eq!(r2.html, "<span class=\"code-block-end\"></span>");
    assert!(r2.is_code_block_boundary);
}

#[test]
fn test_code_interior_escapes_html() {
    let lines = vec!["```".to_string(), "<b> & co".to_string(), "```".to_string()];
    let r = render_markdown_line(RenderRequest {
        line: lines[1].clone(),
        line_index: 1,
        all_lines: lines.clone(),
        is_editing: false,
    });
    assert_eq!(r.html, "<code class=\"code-block-line\">&lt;b&gt; &amp; co</code>");
}

#[test]
fn test_code_fence_editing_shows_fence() {
    let lines = vec!["```rust".to_string(), "```".to_string()];
    let r = render_markdown_line(RenderRequest {
        line: lines[0].clone(),
        line_index: 0,
        all_lines: lines.clone(),
        is_editing: true,
    });
    assert_eq!(
        r.html,
        "<span class=\"code-block-start\" data-lang=\"rust\">```rust</span>"
    );
}

#[test]
fn test_math_block_rendering() {
    let lines = vec!["$$".to_string(), "e = mc^2".to_string(), "$$".to_string()];
    let mk = |i: usize, editing: bool| RenderRequest {
        line: lines[i].clone(),
        line_index: i,
        all_lines: lines.clone(),
        is_editing: editing,
    };
    let r0 = render_markdown_line(mk(0, false));
    assert_eq!(r0.html, "<span class=\"math-block-start\"></span>");
    assert!(r0.is_code_block_boundary);
    let r1 = render_markdown_line(mk(1, false));
    assert_eq!(r1.html, "<span class=\"math-block-line\">e = mc^2</span>");
    assert!(!r1.is_code_block_boundary);
    let r1e = render_markdown_line(mk(1, true));
    assert_eq!(r1e.html, "<span class=\"math-block-line-editing\">e = mc^2</span>");
    let r2 = render_markdown_line(mk(2, false));
    assert_eq!(r2.html, "<span class=\"math-block-end\"></span>");
    assert!(r2.is_code_block_boundary);
}

#[test]
fn test_blank_line() {
    let result = render_one("   ", false);
    assert_eq!(result.html, "<br>");
    assert!(!result.is_code_block_boundary);
}

#[test]
fn test_horizontal_rule() {
    let preview = render_one("---", false);
    assert_eq!(
        preview.html,
        "<span class=\"hr\">───────────────────────────────────────</span>"
    );
    let editing = render_one("***", true);
    assert_eq!(editing.html, "<span class=\"hr\">***</span>");
}

#[test]
fn test_unordered_list_item() {
    let preview = render_one("  - item", false);
    assert_eq!(
        preview.html,
        "<span class=\"list-item\" style=\"padding-left: 40px\">\
         <span class=\"list-marker unordered\">•</span>item</span>"
    );
    let editing = render_one("  - item", true);
    assert_eq!(editing.html, "<span class=\"list-item\">  - item</span>");
}

#[test]
fn test_ordered_list_item() {
    let preview = render_one("12. item", false);
    assert_eq!(
        preview.html,
        "<span class=\"list-item\" style=\"padding-left: 0px\">\
         <span class=\"list-marker ordered\">12.</span>item</span>"
    );
}

#[test]
fn test_blockquote_rendering() {
    let preview = render_one("> quoted", false);
    assert_eq!(preview.html, "<span class=\"blockquote\">quoted</span>");
    let editing = render_one("> quoted", true);
    assert_eq!(editing.html, "<span class=\"blockquote\">&gt; quoted</span>");
}

#[test]
fn test_paragraph_fallback() {
    let result = render_one("just text", false);
    assert_eq!(result.html, "just text");
    assert!(!result.is_code_block_boundary);
}

#[test]
fn test_header_with_inline_emphasis() {
    let preview = render_one("# Hello **W**", false);
    assert_eq!(preview.html, "<span class=\"heading h1\">Hello <strong>W</strong></span>");
    let editing = render_one("# Hello **W**", true);
    assert_eq!(
        editing.html,
        "<span class=\"heading h1\"># Hello <strong>**W**</strong></span>"
    );
}

#[test]
fn test_plain_text_identical_in_both_modes() {
    let preview = render_one("nothing special here", false);
    let editing = render_one("nothing special here", true);
    assert_eq!(preview.html, "nothing special here");
    assert_eq!(editing.html, "nothing special here");
}

#[test]
fn test_code_fence_priority_over_header() {
    // a line that looks like a header inside a code block stays code
    let lines = vec!["```".to_string(), "# not a header".to_string(), "```".to_string()];
    let r = render_markdown_line(RenderRequest {
        line: lines[1].clone(),
        line_index: 1,
        all_lines: lines.clone(),
        is_editing: false,
    });
    assert!(r.html.contains("code-block-line"));
    assert!(!r.html.contains("heading"));
}
