use nineclaw::replies::{
    build_turn_prompt_with_multimodal_summary, normalize_summary_text,
    prepend_multimodal_summary_context, record_multimodal_summary, render_multimodal_summary_context,
    MultimodalSummaryEntry,
};
use nineclaw::desktop_media::{
    build_desktop_outbound_display_text, split_desktop_text_and_media, DesktopParsedMediaItem,
    MediaType,
};
use nineclaw::mime::{detect_media_mime_from_bytes, infer_media_mime_type};
use nineclaw::provider::{
    desktop_incomplete_reply_error, is_provider_image_block_rejection_error,
    is_provider_reasoning_history_rejection_error, resolve_context_window_from_sources,
    should_retry_text_only_after_image_rejection, ProviderRuntimeConfig,
};
use nineclaw::replies::assistant_text_fragment_to_append;

#[test]
fn desktop_outbound_display_text_rebuilds_media_directives() {
    let display_text = build_desktop_outbound_display_text(
        "这是文件",
        &[DesktopParsedMediaItem {
            media_type: MediaType::File,
            file_name: "weekly report.pdf".to_string(),
            file_path: "/tmp/weekly report.pdf".to_string(),
        }],
    );

    assert_eq!(
        display_text,
        "这是文件\n::nc-media{type=\"file\" path=\"/tmp/weekly%20report.pdf\" name=\"weekly%20report.pdf\" label=\"%E6%96%87%E4%BB%B6\"}"
    );
}

#[test]
fn desktop_incomplete_reply_error_prefers_partial_assistant_message() {
    let provider = ProviderRuntimeConfig {
        provider_id: "openai".to_string(),
        api_format: "openai".to_string(),
        base_url: "https://api.openai.com/v1".to_string(),
        api_key: "secret".to_string(),
        model: "gpt-4.1".to_string(),
    };
    let reason = desktop_incomplete_reply_error(Some(&provider), true, true, true, "openai")
        .expect("partial reply reason");
    assert!(reason.contains("部分 assistant 内容"));
}

#[test]
fn desktop_incomplete_reply_error_reports_missing_provider_fields() {
    let provider = ProviderRuntimeConfig {
        provider_id: "openai".to_string(),
        api_format: "openai".to_string(),
        base_url: String::new(),
        api_key: "secret".to_string(),
        model: "gpt-4.1".to_string(),
    };

    let reason = desktop_incomplete_reply_error(Some(&provider), true, true, false, "openai")
        .expect("missing provider reason");
    assert!(reason.contains("没有关联完整的 Provider 配置"));
}

#[test]
fn desktop_incomplete_reply_error_names_provider_and_model() {
    let provider = ProviderRuntimeConfig {
        provider_id: " custom ".to_string(),
        api_format: "openai".to_string(),
        base_url: "https://example.com/v1".to_string(),
        api_key: "secret".to_string(),
        model: " glm ".to_string(),
    };
    let reason = desktop_incomplete_reply_error(Some(&provider), true, false, false, "openai-completions")
        .unwrap();
    assert!(reason.contains("provider=custom (openai-completions)，model=glm）"));
    let none = desktop_incomplete_reply_error(None, false, false, false, "").unwrap();
    assert!(none.contains("没有传入 Provider 配置"));
    let silent = desktop_incomplete_reply_error(Some(&provider), false, false, false, "x").unwrap();
    assert!(silent.contains("pi 已启动但没有产生任何输出（provider=custom，model=glm）"));
}

#[test]
fn detects_provider_image_url_text_only_rejection() {
    let error = "400 Failed to deserialize the JSON body into the target type: messages[39]: unknown variant `image_url`, expected `text` at line 1 column 1325060";
    assert!(is_provider_image_block_rejection_error(error));
    assert!(!is_provider_image_block_rejection_error(
        "429 rate limit exceeded"
    ));
}

#[test]
fn current_visual_turn_does_not_retry_with_text_only_history() {
    assert!(!should_retry_text_only_after_image_rejection(
        0,
        true,
        "messages[39]: unknown variant `image_url`, expected `text`"
    ));
    assert!(should_retry_text_only_after_image_rejection(
        0,
        false,
        "messages[39]: unknown variant `image_url`, expected `text`"
    ));
    assert!(!should_retry_text_only_after_image_rejection(
        1,
        false,
        "messages[39]: unknown variant `image_url`, expected `text`"
    ));
}

#[test]
fn detects_provider_reasoning_history_rejection() {
    assert!(is_provider_reasoning_history_rejection_error(
        "400 The reasoning_content in the thinking mode must be passed back to the API."
    ));
    assert!(!is_provider_reasoning_history_rejection_error(
        "400 invalid api key"
    ));
}

#[test]
fn resolve_context_window_prefers_auto() {
    let (tokens, source) = resolve_context_window_from_sources(Some(128000), Some(64000));
    assert_eq!(tokens, Some(128000));
    assert_eq!(source, "auto");
}

#[test]
fn resolve_context_window_falls_back_to_manual() {
    let (tokens, source) = resolve_context_window_from_sources(None, Some(64000));
    assert_eq!(tokens, Some(64000));
    assert_eq!(source, "manual");
}

#[test]
fn resolve_context_window_unknown_when_both_absent() {
    let (tokens, source) = resolve_context_window_from_sources(None, None);
    assert_eq!(tokens, None);
    assert_eq!(source, "unknown");
}

#[test]
fn resolve_context_window_ignores_zero_auto() {
    let (tokens, source) = resolve_context_window_from_sources(Some(0), Some(64000));
    assert_eq!(tokens, Some(64000));
    assert_eq!(source, "manual");
}

#[test]
fn infer_media_mime_type_prefers_magic_bytes_over_misleading_extension() {
    let header = [0xFF, 0xD8, 0xFF, 0xE0, 0x00, 0x10, b'J', b'F'];
    let sniffed = detect_media_mime_from_bytes(&header);
    let mime = infer_media_mime_type("/tmp/photo.png", None, sniffed);
    assert_eq!(mime, "image/jpeg");
}

#[test]
fn infer_media_mime_type_detects_png_from_header() {
    let header = [0x89, b'P', b'N', b'G', 0x0D, 0x0A, 0x1A, 0x0A, 0, 0];
    let mime = infer_media_mime_type("/tmp/file.bin", None, detect_media_mime_from_bytes(&header));
    assert_eq!(mime, "image/png");
}

#[test]
fn mime_falls_back_to_hint_then_extension() {
    assert_eq!(infer_media_mime_type("/a/b.MP3", Some("  audio/x  "), None), "audio/x");
    assert_eq!(infer_media_mime_type("/a/b.MP3", Some("  "), None), "audio/mpeg");
    assert_eq!(infer_media_mime_type("/a/b", None, None), "application/octet-stream");
    assert_eq!(detect_media_mime_from_bytes(b"%PDF-1.7"), Some("application/pdf"));
    assert_eq!(detect_media_mime_from_bytes(b"\x1aE\xdf\xa3....WebM"), Some("video/webm"));
    assert_eq!(detect_media_mime_from_bytes(b"....ftypqt  "), Some("video/quicktime"));
    assert_eq!(detect_media_mime_from_bytes(b"hello"), None);
}

#[test]
fn split_reply_separates_media_lines() {
    let content = "结果如下\n::nc-media{type=\"image\" path=\"/tmp/a.png\"}\n![图](/tmp/b.jpg)\n- /tmp/c.mp3\n谢谢\n";
    let (text, items) = split_desktop_text_and_media(content);
    assert_eq!(text, "结果如下\n谢谢");
    assert_eq!(items.len(), 3);
    assert_eq!(items[0].media_type, MediaType::Image);
    assert_eq!(items[0].file_name, "a.png");
    assert_eq!(items[1].media_type, MediaType::Image);
    assert_eq!(items[2].media_type, MediaType::Audio);
    assert_eq!(items[2].file_path, "/tmp/c.mp3");
}

#[test]
fn stream_fragment_handles_prefixes_and_whitespace() {
    assert_eq!(assistant_text_fragment_to_append("", "abc"), "abc");
    assert_eq!(assistant_text_fragment_to_append("ab", "abc"), "c");
    assert_eq!(assistant_text_fragment_to_append("abc", "abc"), "");
    assert_eq!(assistant_text_fragment_to_append("ab \n", "ab\n"), "");
    assert_eq!(assistant_text_fragment_to_append("ab ", "abc"), "c");
    assert_eq!(assistant_text_fragment_to_append("ab  ", "ab cd"), " cd");
    assert_eq!(assistant_text_fragment_to_append("xy", ""), "");
}

fn summary_of(entries: &[MultimodalSummaryEntry]) -> Option<String> {
    render_multimodal_summary_context(entries)
}

#[test]
fn multimodal_summary_context_roundtrip() {
    let entries = record_multimodal_summary(Vec::new(), "第一张图里有什么", "这是封面页，标题是季度复盘", 1);
    let entries = record_multimodal_summary(entries, "第二张图里有什么", "这是目录页，包含三部分", 2);
    let context = summary_of(&entries).expect("summary context exists");
    assert!(context.contains("第一张图里有什么"));
    assert!(context.contains("这是目录页"));
    let prompt = prepend_multimodal_summary_context("继续看第三张图", Some(&context));
    assert!(prompt.contains("原始图片/视频已从主会话上下文移除"));
    assert!(prompt.contains("继续看第三张图"));
}

#[test]
fn visual_turn_skips_previous_multimodal_summary_context() {
    let entries = record_multimodal_summary(Vec::new(), "第一张图是什么", "这是上一张图的摘要", 1);
    let context = summary_of(&entries);
    let prompt = build_turn_prompt_with_multimodal_summary("识别这张新图片", context.as_deref(), true);
    assert_eq!(prompt, "识别这张新图片");
    assert!(!prompt.contains("上一张图的摘要"));
}

#[test]
fn text_only_turn_keeps_previous_multimodal_summary_context() {
    let entries = record_multimodal_summary(Vec::new(), "第一张图是什么", "这是上一张图的摘要", 1);
    let context = summary_of(&entries);
    let prompt = build_turn_prompt_with_multimodal_summary("继续分析刚才那张图", context.as_deref(), false);
    assert!(prompt.contains("原始图片/视频已从主会话上下文移除"));
    assert!(prompt.contains("这是上一张图的摘要"));
    assert!(prompt.contains("继续分析刚才那张图"));
}

#[test]
fn summaries_keep_the_last_eight_turns_and_skip_empty_ones() {
    let mut entries = Vec::new();
    for i in 0..10i64 {
        entries = record_multimodal_summary(entries, &format!("问题 {i}"), &format!("回答  {i}"), i);
    }
    assert_eq!(entries.len(), 8);
    assert_eq!(entries[0].timestamp_ms, 2);
    assert_eq!(entries[7].user_prompt, "问题 9");
    assert_eq!(entries[7].assistant_response, "回答 9");
    let same = record_multimodal_summary(entries.clone(), "   ", "answer", 11);
    assert_eq!(same, entries);
    let context = summary_of(&entries).unwrap();
    assert!(context.contains("- 用户: 问题 6"));
    assert!(!context.contains("问题 5"));
    assert_eq!(context.lines().count(), 9);
    assert_eq!(normalize_summary_text("  a \n b  ", 2), "a …");
    assert_eq!(normalize_summary_text("abc", 3), "abc");
}
