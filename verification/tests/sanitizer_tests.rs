use flask_app_builder::sanitizer::clean_llm_output;

#[test]
fn strips_fence_markers_and_inner_blanks() {
    let input = "```python\nprint('hi')\n\nx\n```\nafter";
    assert_eq!(clean_llm_output(input), "print('hi')\nx\nafter");
}

#[test]
fn keeps_blank_lines_outside_fences() {
    let input = "a\n\nb";
    assert_eq!(clean_llm_output(input), "a\n\nb");
}

#[test]
fn tolerates_unterminated_fence() {
    let input = "```\ncode\n\nmore";
    assert_eq!(clean_llm_output(input), "code\nmore");
}

#[test]
fn fence_marker_may_be_indented() {
    let input = "  ```rust\nx\n  ```";
    assert_eq!(clean_llm_output(input), "x");
}

#[test]
fn text_before_backticks_is_no_fence() {
    let input = "x ```\ny";
    assert_eq!(clean_llm_output(input), "x ```\ny");
}

#[test]
fn second_pass_changes_nothing() {
    let input = "```\nhello\n```\nworld";
    let once = clean_llm_output(input);
    assert_eq!(once, "hello\nworld");
    assert_eq!(clean_llm_output(&once), once);
}

#[test]
fn empty_input_stays_empty() {
    assert_eq!(clean_llm_output(""), "");
}

#[test]
fn trailing_newline_is_not_kept() {
    assert_eq!(clean_llm_output("abc\n"), "abc");
}

#[test]
fn crlf_line_endings_become_lf() {
    assert_eq!(clean_llm_output("a\r\nb"), "a\nb");
}

#[test]
fn two_fences_in_a_row_cancel() {
    let input = "```\n```\nkept\n\nalso";
    assert_eq!(clean_llm_output(input), "kept\n\nalso");
}

#[test]
fn blank_line_division_can_shrink_on_repeat() {
    // The one shape on which a second pass still shortens the text: a kept
    // trailing blank line vanishes behind the final separator when rejoined.
    let once = clean_llm_output("a\n\n");
    assert_eq!(once, "a\n");
    assert_eq!(clean_llm_output(&once), "a");
}
