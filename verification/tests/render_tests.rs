use mdvi::RenderLine;
use mdvi::RenderedDoc;
use mdvi::render_markdown;

fn line_text(line: &RenderLine) -> String {
    let mut s = String::new();
    for run in line.runs.iter() {
        s.push_str(&run.text);
    }
    s
}

fn all_texts(doc: &RenderedDoc) -> Vec<String> {
    doc.lines.iter().map(line_text).collect()
}

#[test]
fn markdown_images_are_extracted_for_runtime_rendering() {
    let doc = render_markdown("![Alt Text](images/sample.png)");
    assert_eq!(doc.images.len(), 1);
    assert_eq!(doc.images[0].src, "images/sample.png");

    let caption_line = &doc.lines[doc.images[0].line_index];
    let caption_text = line_text(caption_line);
    assert!(caption_text.contains("[image]"));
}

#[test]
fn html_img_tags_are_extracted_for_runtime_rendering() {
    let input = r#"<img alt="Preview" src="https://example.com/preview.png" />"#;
    let doc = render_markdown(input);
    assert_eq!(doc.images.len(), 1);
    assert_eq!(doc.images[0].src, "https://example.com/preview.png");

    let caption_line = &doc.lines[doc.images[0].line_index];
    let caption_text = line_text(caption_line);
    assert!(caption_text.contains("Preview"));
}

#[test]
fn markdown_image_caption_holds_alt_text_and_uri() {
    let doc = render_markdown("![Alt Text](images/sample.png)");
    let caption = line_text(&doc.lines[doc.images[0].line_index]);
    assert!(caption.contains("Alt Text"));
    assert!(caption.contains("(images/sample.png)"));
}

#[test]
fn empty_alt_caption_shows_uri() {
    let doc = render_markdown("![](x.png)");
    assert_eq!(doc.images.len(), 1);
    assert_eq!(doc.images[0].src, "x.png");
    let caption = line_text(&doc.lines[doc.images[0].line_index]);
    assert!(caption.contains("[image]"));
    assert!(caption.contains("x.png"));
}

#[test]
fn whitespace_only_alt_counts_as_empty() {
    let doc = render_markdown("![   ](pad.png)");
    assert_eq!(doc.images.len(), 1);
    let caption = line_text(&doc.lines[doc.images[0].line_index]);
    assert!(caption.contains("pad.png"));
}

#[test]
fn html_img_single_quoted_and_unquoted_attrs() {
    let single = render_markdown("<img alt='Preview' src='https://example.com/preview.png' />");
    assert_eq!(single.images.len(), 1);
    assert_eq!(single.images[0].src, "https://example.com/preview.png");
    assert!(line_text(&single.lines[single.images[0].line_index]).contains("Preview"));

    let bare = render_markdown("<img alt=Preview src=https://example.com/preview.png />");
    assert_eq!(bare.images.len(), 1);
    assert_eq!(bare.images[0].src, "https://example.com/preview.png");
    assert!(line_text(&bare.lines[bare.images[0].line_index]).contains("Preview"));
}

#[test]
fn html_img_attr_order_does_not_matter() {
    let doc = render_markdown(r#"<img src="https://example.com/preview.png" alt="Preview" />"#);
    assert_eq!(doc.images.len(), 1);
    assert_eq!(doc.images[0].src, "https://example.com/preview.png");
    assert!(line_text(&doc.lines[doc.images[0].line_index]).contains("Preview"));
}

#[test]
fn html_payload_with_many_imgs_yields_all_in_order() {
    let input = "<div><img src=\"a.png\" alt=\"one\"><img src=\"b.png\"><img src=\"c.png\" alt=\"three\"></div>";
    let doc = render_markdown(input);
    assert_eq!(doc.images.len(), 3);
    assert_eq!(doc.images[0].src, "a.png");
    assert_eq!(doc.images[1].src, "b.png");
    assert_eq!(doc.images[2].src, "c.png");
    for text in all_texts(&doc) {
        assert!(!text.contains("<img"));
        assert!(!text.contains("div"));
    }
}

#[test]
fn html_img_without_src_is_dropped() {
    let doc = render_markdown("<img alt=\"nothing\"> <img src=\"\" alt=\"empty\">");
    assert_eq!(doc.images.len(), 0);
}

#[test]
fn html_without_imgs_is_rendered_verbatim_dim() {
    let doc = render_markdown("<span>hello</span>");
    let joined = all_texts(&doc).join("\n");
    assert!(joined.contains("<span>hello</span>"));
    assert_eq!(doc.images.len(), 0);
}

#[test]
fn block_quote_lines_carry_depth_prefix() {
    let doc = render_markdown("> outer\n>\n> > inner\n");
    let texts = all_texts(&doc);
    let outer = texts.iter().find(|t| t.contains("outer")).expect("outer line");
    assert!(outer.starts_with("│ "));
    let inner = texts.iter().find(|t| t.contains("inner")).expect("inner line");
    assert!(inner.starts_with("  │ "));
}

#[test]
fn ordered_list_counts_from_start_number() {
    let doc = render_markdown("3. alpha\n4. beta\n5. gamma\n");
    let texts = all_texts(&doc);
    assert!(texts.iter().any(|t| t.starts_with("3. ") && t.contains("alpha")));
    assert!(texts.iter().any(|t| t.starts_with("4. ") && t.contains("beta")));
    assert!(texts.iter().any(|t| t.starts_with("5. ") && t.contains("gamma")));
}

#[test]
fn nested_list_counters_are_independent() {
    let doc = render_markdown("1. a\n   1. x\n   2. y\n2. b\n");
    let texts = all_texts(&doc);
    assert!(texts.iter().any(|t| t.starts_with("1. ") && t.contains("a")));
    assert!(texts.iter().any(|t| t.starts_with("  1. ") && t.contains("x")));
    assert!(texts.iter().any(|t| t.starts_with("  2. ") && t.contains("y")));
    assert!(texts.iter().any(|t| t.starts_with("2. ") && t.contains("b")));
}

#[test]
fn ordered_markers_grow_past_one_digit() {
    let doc = render_markdown("9. nine\n10. ten\n");
    let texts = all_texts(&doc);
    assert!(texts.iter().any(|t| t.starts_with("9. ")));
    assert!(texts.iter().any(|t| t.starts_with("10. ")));
}

#[test]
fn unordered_list_uses_bullets() {
    let doc = render_markdown("- one\n- two\n");
    let texts = all_texts(&doc);
    assert!(texts.iter().any(|t| t.starts_with("• ") && t.contains("one")));
    assert!(texts.iter().any(|t| t.starts_with("• ") && t.contains("two")));
}

#[test]
fn empty_input_yields_placeholder() {
    let doc = render_markdown("");
    assert_eq!(doc.lines.len(), 1);
    assert_eq!(line_text(&doc.lines[0]), "(empty markdown file)");
    assert!(doc.lines[0].runs[0].style.dim);
    assert_eq!(doc.images.len(), 0);
}

#[test]
fn trailing_blank_content_is_trimmed() {
    let doc = render_markdown("hello\n\n\n\n");
    assert!(!doc.lines.is_empty());
    let last = doc.lines.last().expect("at least one line");
    assert!(!last.runs.is_empty());
}

#[test]
fn image_anchor_survives_trailing_trim() {
    let doc = render_markdown("![x](a.png)\n\n\n");
    assert_eq!(doc.images.len(), 1);
    let idx = doc.images[0].line_index;
    assert!(idx < doc.lines.len());
    assert!(line_text(&doc.lines[idx]).contains("[image]"));
    let last = doc.lines.last().expect("at least one line");
    assert!(!last.runs.is_empty());
}

#[test]
fn heading_level_one_is_bold_underlined() {
    let doc = render_markdown("# Title\n");
    let texts = all_texts(&doc);
    let idx = texts.iter().position(|t| t.contains("Title")).expect("title line");
    let run = doc.lines[idx]
        .runs
        .iter()
        .find(|r| r.text.contains("Title"))
        .expect("title run");
    assert!(run.style.bold);
    assert!(run.style.underline);
}

#[test]
fn code_block_is_fenced_and_indented() {
    let doc = render_markdown("```rust\nlet x = 1;\n```\n");
    let texts = all_texts(&doc);
    assert!(texts.iter().any(|t| t == "```rust"));
    assert!(texts.iter().any(|t| t == "  let x = 1;"));
    assert!(texts.iter().any(|t| t == "```"));
    let idx = texts.iter().position(|t| t == "  let x = 1;").expect("code line");
    assert!(doc.lines[idx].runs[0].style.dim);
}

#[test]
fn inline_code_is_backticked_bold() {
    let doc = render_markdown("use `code` here\n");
    let texts = all_texts(&doc);
    let idx = texts.iter().position(|t| t.contains("`code`")).expect("code line");
    let run = doc.lines[idx]
        .runs
        .iter()
        .find(|r| r.text == "`code`")
        .expect("code run");
    assert!(run.style.bold);
}

#[test]
fn link_destination_is_appended_dim() {
    let doc = render_markdown("[text](http://example.com)\n");
    let texts = all_texts(&doc);
    let idx = texts.iter().position(|t| t.contains("text")).expect("link line");
    let line = &doc.lines[idx];
    let dest = line
        .runs
        .iter()
        .find(|r| r.text == " (http://example.com)")
        .expect("dest run");
    assert!(dest.style.dim);
    let label = line.runs.iter().find(|r| r.text == "text").expect("label run");
    assert!(label.style.underline);
}

#[test]
fn task_list_markers_render_checkboxes() {
    let doc = render_markdown("- [x] done\n- [ ] todo\n");
    let texts = all_texts(&doc);
    assert!(texts.iter().any(|t| t.contains("[x] ") && t.contains("done")));
    assert!(texts.iter().any(|t| t.contains("[ ] ") && t.contains("todo")));
}

#[test]
fn horizontal_rule_is_seventy_two_columns() {
    let doc = render_markdown("above\n\n---\n\nbelow\n");
    let texts = all_texts(&doc);
    let rule = texts.iter().find(|t| t.starts_with("─")).expect("rule line");
    assert_eq!(rule.chars().count(), 72);
    assert!(rule.chars().all(|c| c == '─'));
}

#[test]
fn table_rows_are_joined_with_bars() {
    let doc = render_markdown("|a|b|\n|-|-|\n|c|d|\n");
    let texts = all_texts(&doc);
    assert!(texts.iter().any(|t| t.contains("c │ d")));
}

#[test]
fn soft_break_joins_with_space() {
    let doc = render_markdown("one\ntwo\n");
    let texts = all_texts(&doc);
    assert!(texts.iter().any(|t| t == "one two"));
}

#[test]
fn footnote_reference_and_definition_render() {
    let doc = render_markdown("body[^n]\n\n[^n]: the note\n");
    let texts = all_texts(&doc);
    assert!(texts.iter().any(|t| t.contains("[^n]") && t.contains("body")));
    assert!(texts.iter().any(|t| t.starts_with("[^n] ") && t.contains("the note")));
}

#[test]
fn emphasis_styles_are_applied() {
    let doc = render_markdown("*it* **bold** ~~gone~~\n");
    let mut saw_italic = false;
    let mut saw_bold = false;
    let mut saw_strike = false;
    for line in doc.lines.iter() {
        for run in line.runs.iter() {
            if run.text == "it" {
                saw_italic = run.style.italic;
            }
            if run.text == "bold" {
                saw_bold = run.style.bold;
            }
            if run.text == "gone" {
                saw_strike = run.style.strikethrough;
            }
        }
    }
    assert!(saw_italic);
    assert!(saw_bold);
    assert!(saw_strike);
}

#[test]
fn html_block_inside_document_yields_caption() {
    let doc = render_markdown("before\n\n<div>\n<img src=\"z.png\" alt=\"zed\">\n</div>\n\nafter\n");
    assert_eq!(doc.images.len(), 1);
    assert_eq!(doc.images[0].src, "z.png");
    let caption = line_text(&doc.lines[doc.images[0].line_index]);
    assert!(caption.contains("[image]"));
    assert!(caption.contains("zed"));
    let texts = all_texts(&doc);
    assert!(texts.iter().any(|t| t.contains("before")));
    assert!(texts.iter().any(|t| t.contains("after")));
}
