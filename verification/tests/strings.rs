use patto_mobile::files::{ensure_note_extension, is_hidden_name, is_note_file_name};
use patto_mobile::notes::{file_extension, image_data_url, mime_for_extension};
use patto_mobile::render::{extract_youtube_id, get_line_class, html_escape, LineProperty, MobileHtmlRenderer, NoteTaskStatus};
use patto_mobile::strutil::{contains_sub, decimal_string, ends_with_str, find_char_from, find_sub, rfind_char, starts_with_str, str_eq};

#[test]
fn html_escape_replaces_the_active_characters() {
    assert_eq!(html_escape("a<b&c>\"d"), "a&lt;b&amp;c&gt;&quot;d");
    assert_eq!(html_escape(""), "");
    assert_eq!(html_escape("plain"), "plain");
    assert_eq!(html_escape("<<>>"), "&lt;&lt;&gt;&gt;");
}

#[test]
fn youtube_watch_urls() {
    assert_eq!(
        extract_youtube_id("https://www.youtube.com/watch?v=abc123"),
        Some("abc123".to_string())
    );
    assert_eq!(
        extract_youtube_id("https://www.youtube.com/watch?v=abc123&t=10s"),
        Some("abc123".to_string())
    );
}

#[test]
fn youtube_short_urls() {
    assert_eq!(extract_youtube_id("https://youtu.be/xyz789"), Some("xyz789".to_string()));
    assert_eq!(extract_youtube_id("https://youtu.be/xyz789?t=5"), Some("xyz789".to_string()));
}

#[test]
fn youtube_unrelated_urls_give_nothing() {
    assert_eq!(extract_youtube_id("https://example.com/page"), None);
}

#[test]
fn image_paths_resolve_against_the_workspace() {
    let r = MobileHtmlRenderer::new(Some("/data/notes".to_string()));
    assert_eq!(r.resolve_image_path("img/cat.png"), "asset://localhost//data/notes/img/cat.png");
    assert_eq!(r.resolve_image_path("https://example.com/cat.png"), "https://example.com/cat.png");
    assert_eq!(r.resolve_image_path("http://example.com/cat.png"), "http://example.com/cat.png");
    let bare = MobileHtmlRenderer::new(None);
    assert_eq!(bare.resolve_image_path("img/cat.png"), "img/cat.png");
}

#[test]
fn data_urls_carry_the_encoded_bytes() {
    // 0x00 0x01 0x02 encodes as AAEC; a data URL that merely echoed the
    // bytes would fail this.
    assert_eq!(image_data_url("png", &vec![0u8, 1, 2]), "data:image/png;base64,AAEC");
    assert_eq!(image_data_url("txt", &vec![]), "data:application/octet-stream;base64,");
    assert_eq!(image_data_url("jpg", &vec![255u8]), "data:image/jpeg;base64,/w==");
}

#[test]
fn mime_types_by_extension() {
    assert_eq!(mime_for_extension("png"), "image/png");
    assert_eq!(mime_for_extension("jpg"), "image/jpeg");
    assert_eq!(mime_for_extension("jpeg"), "image/jpeg");
    assert_eq!(mime_for_extension("gif"), "image/gif");
    assert_eq!(mime_for_extension("webp"), "image/webp");
    assert_eq!(mime_for_extension("svg"), "image/svg+xml");
    assert_eq!(mime_for_extension("bin"), "application/octet-stream");
}

#[test]
fn extensions_come_from_the_last_segment() {
    assert_eq!(file_extension("a/b.png"), Some("png".to_string()));
    assert_eq!(file_extension("archive.tar.gz"), Some("gz".to_string()));
    assert_eq!(file_extension("/x/.gitignore"), None);
    assert_eq!(file_extension("noext"), None);
    assert_eq!(file_extension("dotted.dir/plain"), None);
}

#[test]
fn note_names_get_their_extension_once() {
    assert_eq!(ensure_note_extension("daily".to_string()), "daily.pn");
    assert_eq!(ensure_note_extension("daily.pn".to_string()), "daily.pn");
    assert!(is_note_file_name("daily.pn"));
    assert!(!is_note_file_name("daily.txt"));
    assert!(is_hidden_name(".git"));
    assert!(!is_hidden_name("notes"));
    assert!(!is_hidden_name(""));
}

#[test]
fn search_helpers_find_first_and_last() {
    assert!(str_eq("abc", "abc"));
    assert!(!str_eq("abc", "abd"));
    assert!(starts_with_str("prefix rest", "prefix"));
    assert!(!starts_with_str("pre", "prefix"));
    assert!(ends_with_str("file.pn", ".pn"));
    assert!(!ends_with_str("file.txt", ".pn"));
    assert_eq!(find_sub("one two two", "two"), Some(4));
    assert_eq!(find_sub("one", "two"), None);
    assert!(contains_sub("youtu.be/id", "youtu.be/"));
    assert_eq!(find_char_from("a&b&c", '&', 2), Some(3));
    assert_eq!(rfind_char("a/b/c", '/'), Some(3));
    assert_eq!(rfind_char("abc", '/'), None);
}

#[test]
fn line_classes_concatenate_in_order() {
    assert_eq!(get_line_class(&vec![]), "");
    assert_eq!(
        get_line_class(&vec![LineProperty::Task { status: NoteTaskStatus::Todo }]),
        " task todo"
    );
    assert_eq!(
        get_line_class(&vec![
            LineProperty::Task { status: NoteTaskStatus::Done },
            LineProperty::Anchor,
        ]),
        " task done has-anchor"
    );
    assert_eq!(
        get_line_class(&vec![LineProperty::Task { status: NoteTaskStatus::Doing }]),
        " task doing"
    );
}

#[test]
fn decimal_rendering_is_exact() {
    assert_eq!(decimal_string(0), "0");
    assert_eq!(decimal_string(7), "7");
    assert_eq!(decimal_string(10), "10");
    assert_eq!(decimal_string(105), "105");
    assert_eq!(decimal_string(98765), "98765");
    assert_eq!(decimal_string(1000000), "1000000");
}
