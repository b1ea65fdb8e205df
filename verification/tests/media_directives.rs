use nineclaw::media_directives::{
    build_media_directive_line, parse_markdown_media_reference, parse_media_directive_fields,
    parse_plain_media_path_reference,
};

#[test]
fn parses_directive_with_quoted_space_path() {
    let parsed = parse_media_directive_fields(
        r#"::nc-media{type="file" path="/tmp/weekly report.pdf" name="weekly report.pdf" label="文件"}"#,
    )
    .expect("directive");

    assert_eq!(parsed.media_type.as_deref(), Some("file"));
    assert_eq!(parsed.path, "/tmp/weekly report.pdf");
    assert_eq!(parsed.name.as_deref(), Some("weekly report.pdf"));
    assert_eq!(parsed.label.as_deref(), Some("文件"));
}

#[test]
fn decodes_percent_encoded_directive_values() {
    let parsed = parse_media_directive_fields(
        r#"::nc-media{type="file" path="/tmp/weekly%20report.pdf" name="weekly%20report.pdf"}"#,
    )
    .expect("directive");

    assert_eq!(parsed.path, "/tmp/weekly report.pdf");
    assert_eq!(parsed.name.as_deref(), Some("weekly report.pdf"));
}

#[test]
fn decodes_percent_encoded_markdown_path() {
    let parsed =
        parse_markdown_media_reference("[日报](/tmp/weekly%20report.pdf)").expect("markdown");

    assert_eq!(parsed.label, "日报");
    assert_eq!(parsed.path, "/tmp/weekly report.pdf");
}

#[test]
fn builds_directive_line_with_encoded_values() {
    let line = build_media_directive_line(
        "file",
        "/tmp/weekly report.pdf",
        Some("weekly report.pdf"),
        Some("文件"),
    );

    assert_eq!(
        line,
        "::nc-media{type=\"file\" path=\"/tmp/weekly%20report.pdf\" name=\"weekly%20report.pdf\" label=\"%E6%96%87%E4%BB%B6\"}"
    );
}

#[test]
fn parses_plain_bullet_media_path_reference() {
    let parsed = parse_plain_media_path_reference("- /tmp/weekly report.pdf").expect("path");
    assert_eq!(parsed.path, "/tmp/weekly report.pdf");
}

#[test]
fn parses_plain_quoted_media_path_reference() {
    let parsed =
        parse_plain_media_path_reference("`/Users/demo/Desktop/test image.png`").expect("path");
    assert_eq!(parsed.path, "/Users/demo/Desktop/test image.png");
}

#[test]
fn does_not_parse_plain_instruction_text_with_slash_as_path() {
    assert!(parse_plain_media_path_reference("压缩/裁剪这张").is_none());
}

#[test]
fn does_not_parse_slash_command_help_as_plain_media_path() {
    assert!(parse_plain_media_path_reference("/new - 开启一个新的会话").is_none());
    assert!(parse_plain_media_path_reference("/help - 显示可用指令").is_none());
}

#[test]
fn directive_without_path_is_rejected() {
    assert!(parse_media_directive_fields(r#"::nc-media{type="file" name="a.pdf"}"#).is_none());
    assert!(parse_media_directive_fields("not a directive").is_none());
}

#[test]
fn directive_later_attribute_wins_and_single_quotes_work() {
    let parsed = parse_media_directive_fields(
        "  ::nc-media{path='/a/b.png' junk path=/c/d.png =x type=image}  ",
    )
    .expect("directive");
    assert_eq!(parsed.path, "/c/d.png");
    assert_eq!(parsed.media_type.as_deref(), Some("image"));
    assert_eq!(parsed.name, None);
}

#[test]
fn directive_round_trips_through_builder() {
    let line = build_media_directive_line("video", "C:\\clips\\a b.mp4", Some(" 片段 "), Some(""));
    let parsed = parse_media_directive_fields(&line).expect("directive");
    assert_eq!(parsed.media_type.as_deref(), Some("video"));
    assert_eq!(parsed.path, "C:\\clips\\a b.mp4");
    assert_eq!(parsed.name.as_deref(), Some("片段"));
    assert_eq!(parsed.label, None);
}

#[test]
fn markdown_requires_label_and_target() {
    assert!(parse_markdown_media_reference("[](/tmp/a.png)").is_none());
    assert!(parse_markdown_media_reference("[x]()").is_none());
    let image = parse_markdown_media_reference("![ 封面 ]( /tmp/c.png )").expect("image");
    assert_eq!(image.label, "封面");
    assert_eq!(image.path, "/tmp/c.png");
}

#[test]
fn plain_paths_with_numbering_and_drive_letters() {
    assert_eq!(
        parse_plain_media_path_reference("2. D:\\docs\\report.docx").unwrap().path,
        "D:\\docs\\report.docx"
    );
    assert_eq!(parse_plain_media_path_reference("\"photo (1).jpg\"").unwrap().path, "photo (1).jpg");
    assert!(parse_plain_media_path_reference("archive.verylongextension").is_none());
    assert!(parse_plain_media_path_reference("   ").is_none());
}
