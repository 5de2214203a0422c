use node_supervisor::output::strip_ansi_escapes;
use node_supervisor::output::OutputStreamProcessor;
use node_supervisor::text::chars_to_string;
use node_supervisor::text::str_chars;

fn strip(s: &str) -> String {
    chars_to_string(&strip_ansi_escapes(&str_chars(s)))
}

#[test]
fn plain_text_is_unchanged() {
    assert_eq!(strip("hello world"), "hello world");
}

#[test]
fn csi_color_codes_are_removed() {
    assert_eq!(strip("\u{1b}[31mred\u{1b}[0m plain"), "red plain");
}

#[test]
fn csi_cursor_codes_are_removed() {
    assert_eq!(strip("a\u{1b}[2Kb\u{1b}[10;20Hc"), "abc");
}

#[test]
fn osc_title_sequence_bel_terminated() {
    assert_eq!(strip("\u{1b}]0;my title\u{7}text"), "text");
}

#[test]
fn osc_sequence_st_terminated() {
    assert_eq!(strip("\u{1b}]8;;link\u{1b}\\text"), "text");
}

#[test]
fn lone_escape_drops_following_character() {
    assert_eq!(strip("a\u{1b}cb"), "ab");
}

#[test]
fn trailing_escape_is_dropped() {
    assert_eq!(strip("done\u{1b}"), "done");
}

#[test]
fn unterminated_csi_strips_to_end() {
    assert_eq!(strip("x\u{1b}[12;"), "x");
}

#[test]
fn multibyte_characters_survive_stripping() {
    assert_eq!(strip("h\u{e9}llo\u{1b}[1m!\u{4e16}\u{754c}"), "h\u{e9}llo!\u{4e16}\u{754c}");
}

#[test]
fn lines_split_on_line_feed() {
    let mut p = OutputStreamProcessor::new();
    let lines = p.push_chunk(&str_chars("one\ntwo\nthr"));
    let texts: Vec<String> = lines.iter().map(|l| chars_to_string(l)).collect();
    assert_eq!(texts, vec!["one".to_string(), "two".to_string()]);
    let more = p.push_chunk(&str_chars("ee\n"));
    let texts2: Vec<String> = more.iter().map(|l| chars_to_string(l)).collect();
    assert_eq!(texts2, vec!["three".to_string()]);
}

#[test]
fn line_buffered_until_terminator_arrives() {
    let mut p = OutputStreamProcessor::new();
    assert!(p.push_chunk(&str_chars("partial")).is_empty());
    assert!(p.push_chunk(&str_chars(" line")).is_empty());
    let lines = p.push_chunk(&str_chars("!\n"));
    assert_eq!(lines.len(), 1);
    assert_eq!(chars_to_string(&lines[0]), "partial line!");
}

#[test]
fn final_fragment_is_flushed_at_stream_end() {
    let mut p = OutputStreamProcessor::new();
    let lines = p.push_chunk(&str_chars("complete\ntail"));
    assert_eq!(lines.len(), 1);
    let frag = p.take_fragment().unwrap();
    assert_eq!(chars_to_string(&frag), "tail");
    assert!(p.take_fragment().is_none());
}

#[test]
fn empty_stream_flushes_nothing() {
    let mut p = OutputStreamProcessor::new();
    assert!(p.push_chunk(&str_chars("")).is_empty());
    assert!(p.take_fragment().is_none());
}
