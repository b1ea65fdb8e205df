use nineclaw::compat_extension::{
    build_desktop_anthropic_compat_extension_source, compat_extension_source_from_literals,
    format_js_error_with_cause,
};

#[test]
fn anthropic_compat_extension_defends_against_url_only_image_blocks() {
    let source = build_desktop_anthropic_compat_extension_source(
        "/tmp/pi-ai/index.js",
        "provider",
        "API_KEY",
        "https://example.com",
        "model",
        true,
        false,
    )
    .expect("extension source");

    assert!(source.contains("imageBlockPlaceholder"));
    assert!(source.contains("image_url"));
    assert!(source.contains("input: ['text']"));
    assert!(source.contains("URL-only image block is not replayable"));
}

#[test]
fn anthropic_compat_extension_uses_serialized_import_path_and_multimodal_input() {
    let source = build_desktop_anthropic_compat_extension_source(
        "/tmp/pi runtime/pi-ai/index.js",
        "provider-id",
        "API_KEY",
        "https://example.com/base/",
        "model-name",
        false,
        false,
    )
    .expect("extension source");

    assert!(source.contains("\"/tmp/pi runtime/pi-ai/index.js\""));
    assert!(source.contains("input: ['text', 'image']"));
    assert!(source.contains("provider-id"));
    assert!(source.contains("https://example.com/base/"));
    assert!(source.contains("model-name"));
}

#[test]
fn anthropic_compat_extension_marks_mimo_models_as_reasoning_capable() {
    let source = build_desktop_anthropic_compat_extension_source(
        "/tmp/pi-ai/index.js",
        "provider",
        "API_KEY",
        "https://example.com/base/",
        "mimo-v2.5-pro",
        false,
        true,
    )
    .expect("extension source");

    assert!(source.contains("reasoning: true"));
    assert!(source.contains("REQUIRES_REASONING_CONTENT_REPLAY = true"));
    assert!(source.contains("assistantMessage.reasoning_content"));
    assert!(source.contains("type: 'thinking', thinking: sanitizedReasoningContent"));
    assert!(source.contains("payload.thinking"));
    assert!(source.contains("thinkingSignature: 'reasoning_content'"));
}

#[test]
fn anthropic_compat_extension_preserves_error_causes() {
    let source = build_desktop_anthropic_compat_extension_source(
        "/tmp/pi-ai/index.js",
        "provider",
        "API_KEY",
        "https://example.com/base/",
        "mimo-v2.5-pro",
        false,
        true,
    )
    .expect("extension source");

    assert!(source.contains("function formatErrorWithCause(error)"));
    assert!(source.contains("error.cause"));
    assert!(source.contains("output.errorMessage = formatErrorWithCause(error);"));
}

#[test]
fn extension_literals_are_escaped_json_strings() {
    let source = build_desktop_anthropic_compat_extension_source(
        "/tmp/a\"b\\c/index.js",
        "p",
        "K",
        "https://x",
        "m",
        true,
        false,
    )
    .expect("extension source");
    assert!(source.starts_with(
        "import { createAssistantMessageEventStream, calculateCost, parseStreamingJson } from \"/tmp/a\\\"b\\\\c/index.js\";\n\n"
    ));
    assert!(source.contains("REQUIRES_REASONING_CONTENT_REPLAY = false;"));
    assert!(source.contains("pi.registerProvider(\"p\", {\n    baseUrl: \"https://x\",\n    apiKey: \"K\","));
    assert!(source.contains("id: \"m\",\n      name: \"m\",\n      reasoning: false,\n      input: ['text'],"));
    assert!(source.ends_with("streamNineclawAnthropicCompat,\n  });\n}\n"));
}

#[test]
fn extension_source_from_literals_places_each_literal() {
    let source = compat_extension_source_from_literals("IMP", "PID", "KEY", "URL", "MOD", false, true);
    assert!(source.starts_with(
        "import { createAssistantMessageEventStream, calculateCost, parseStreamingJson } from IMP;\n\n"
    ));
    assert!(source.contains(format_js_error_with_cause()));
    assert!(source.contains("pi.registerProvider(PID, {\n    baseUrl: URL,\n    apiKey: KEY,"));
    assert!(source.contains("id: MOD,\n      name: MOD,\n      reasoning: true,\n      input: ['text', 'image'],"));
    assert!(format_js_error_with_cause().starts_with("function formatErrorWithCause(error) {"));
}
