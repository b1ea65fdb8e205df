//! Provider configuration checks, error classification and runtime identifiers.
use vstd::prelude::*;
use crate::digest::{md5_hex, md5_hex_of, utf8_bytes};
use crate::text::{
    ascii_lower, ascii_upper, chars_to_string, contains, contains_chars, push_all, push_str,
    str_chars, to_ascii_lower, to_ascii_upper, trim, trimmed_chars,
};
use vstd::utf8::encode_utf8;
use crate::json_value::{JsonValue, JsonModel, fields_model, items_model};

verus! {

/// The provider a desktop session runs against.
#[derive(Debug, Clone, PartialEq, Eq)]
pub struct ProviderRuntimeConfig {
    pub provider_id: String,
    pub api_format: String,
    pub base_url: String,
    pub api_key: String,
    pub model: String,
}

/// Why a provider configuration cannot start a runtime, if it cannot.
pub open spec fn provider_config_problem(
    provider_id: Seq<char>,
    base_url: Seq<char>,
    model: Seq<char>,
) -> Option<Seq<char>> {
    if trim(provider_id).len() == 0 {
        Some("当前会话的 Provider ID 为空，请重新选择一个已配置模型。"@)
    } else if trim(base_url).len() == 0 {
        Some("当前会话使用的 Provider「"@ + trim(provider_id)
            + "」未填写 Base URL，无法启动 pi。请在设置中补全后重试。"@)
    } else if trim(model).len() == 0 {
        Some("当前会话使用的 Provider「"@ + trim(provider_id)
            + "」未填写模型名，无法启动 pi。请在设置中补全后重试。"@)
    } else {
        None
    }
}

/// Checks that a provider has an id, a base URL and a model.
pub fn validate_desktop_provider_config(provider_config: &ProviderRuntimeConfig) -> (r: Result<
    (),
    String,
>)
    ensures
        match provider_config_problem(
            provider_config.provider_id@,
            provider_config.base_url@,
            provider_config.model@,
        ) {
            Some(msg) => r matches Err(e) && e@ == msg,
            None => r is Ok,
        },
{
    let id = trimmed_chars(provider_config.provider_id.as_str());
    if id.len() == 0 {
        return Err("当前会话的 Provider ID 为空，请重新选择一个已配置模型。".to_owned());
    }
    let base = trimmed_chars(provider_config.base_url.as_str());
    if base.len() == 0 {
        let mut m = str_chars("当前会话使用的 Provider「");
        push_all(&mut m, &id);
        push_str(&mut m, "」未填写 Base URL，无法启动 pi。请在设置中补全后重试。");
        return Err(chars_to_string(&m));
    }
    let model = trimmed_chars(provider_config.model.as_str());
    if model.len() == 0 {
        let mut m = str_chars("当前会话使用的 Provider「");
        push_all(&mut m, &id);
        push_str(&mut m, "」未填写模型名，无法启动 pi。请在设置中补全后重试。");
        return Err(chars_to_string(&m));
    }
    Ok(())
}

/// The error text of a provider, trimmed and ASCII lower-cased.
pub open spec fn lowered_error(error: Seq<char>) -> Seq<char> {
    ascii_lower(trim(error))
}

/// A provider refusing image blocks because it only takes text.
pub open spec fn is_image_block_rejection(error: Seq<char>) -> bool {
    let l = lowered_error(error);
    (contains(l, "image_url"@) || contains(l, "input_image"@) || contains(l, "unknown variant `image"@)
        || contains(l, "unknown variant image"@)) && (contains(l, "expected `text`"@) || contains(
        l,
        "expected text"@,
    ) || contains(l, "messages["@) || contains(l, "deserialize"@))
}

/// A provider asking for reasoning content it was not sent back.
pub open spec fn is_reasoning_history_rejection(error: Seq<char>) -> bool {
    let l = lowered_error(error);
    (contains(l, "reasoning_content"@) || contains(l, "reasoning content"@) || contains(
        l,
        "thinking mode"@,
    ) || contains(l, "reasoning mode"@)) && (contains(l, "must be passed back"@) || contains(
        l,
        "pass back"@,
    ) || contains(l, "missing"@) || contains(l, "required"@))
}

fn has(l: &[char], needle: &str) -> (b: bool)
    ensures
        b == contains(l@, needle@),
{
    let n = str_chars(needle);
    contains_chars(l, &n)
}

/// Whether an error says the provider rejected image content.
pub fn is_provider_image_block_rejection_error(error: &str) -> (b: bool)
    ensures
        b == is_image_block_rejection(error@),
{
    let t = trimmed_chars(error);
    let l = to_ascii_lower(&t);
    (has(&l, "image_url") || has(&l, "input_image") || has(&l, "unknown variant `image") || has(
        &l,
        "unknown variant image",
    )) && (has(&l, "expected `text`") || has(&l, "expected text") || has(&l, "messages[") || has(
        &l,
        "deserialize",
    ))
}

/// Whether an error says the provider wants earlier reasoning content replayed.
pub fn is_provider_reasoning_history_rejection_error(error: &str) -> (b: bool)
    ensures
        b == is_reasoning_history_rejection(error@),
{
    let t = trimmed_chars(error);
    let l = to_ascii_lower(&t);
    (has(&l, "reasoning_content") || has(&l, "reasoning content") || has(&l, "thinking mode")
        || has(&l, "reasoning mode")) && (has(&l, "must be passed back") || has(&l, "pass back")
        || has(&l, "missing") || has(&l, "required"))
}

/// A first attempt without images in the current turn whose history images were refused is
/// retried as text only.
pub fn should_retry_text_only_after_image_rejection(
    attempt: usize,
    current_turn_has_visual_context: bool,
    error: &str,
) -> (b: bool)
    ensures
        b == (attempt == 0 && !current_turn_has_visual_context && is_image_block_rejection(
            error@,
        )),
{
    attempt == 0 && !current_turn_has_visual_context && is_provider_image_block_rejection_error(
        error,
    )
}

/// The context window to use: a positive auto-detected size, else a positive configured one.
pub open spec fn context_window_choice(auto_detected: Option<u64>, manual_config: Option<u64>) -> (
    Option<u64>,
    Seq<char>,
) {
    if auto_detected matches Some(a) && a > 0 {
        (Some(auto_detected.unwrap()), "auto"@)
    } else if manual_config matches Some(m) && m > 0 {
        (Some(manual_config.unwrap()), "manual"@)
    } else {
        (None, "unknown"@)
    }
}

/// Picks the context window size and names where it came from.
pub fn resolve_context_window_from_sources(
    auto_detected: Option<u64>,
    manual_config: Option<u64>,
) -> (r: (Option<u64>, &'static str))
    ensures
        (r.0, r.1@) == context_window_choice(auto_detected, manual_config),
{
    if let Some(auto) = auto_detected {
        if auto > 0 {
            return (Some(auto), "auto");
        }
    }
    if let Some(manual) = manual_config {
        if manual > 0 {
            return (Some(manual), "manual");
        }
    }
    (None, "unknown")
}

/// The first twelve hex digits of the MD5 of the trimmed provider id, or `provider` for a
/// blank id.
pub open spec fn provider_suffix(provider_id: Seq<char>) -> Seq<char> {
    if trim(provider_id).len() == 0 {
        "provider"@
    } else {
        md5_hex(encode_utf8(trim(provider_id))).take(12)
    }
}

fn digest_prefix(id: &[char]) -> (r: Vec<char>)
    ensures
        r@ == md5_hex(encode_utf8(id@)).take(12),
{
    let bytes = utf8_bytes(id);
    let h = md5_hex_of(&bytes);
    crate::text::slice_to_vec(&h, 0, 12)
}

/// Identifier suffix derived from a provider id.
pub fn runtime_provider_suffix(provider_id: &str) -> (r: String)
    ensures
        r@ == provider_suffix(provider_id@),
{
    let t = trimmed_chars(provider_id);
    if t.len() == 0 {
        return "provider".to_owned();
    }
    let d = digest_prefix(&t);
    chars_to_string(&d)
}

/// The provider id used inside the runtime.
pub open spec fn runtime_provider_id_spec(provider_id: Seq<char>) -> Seq<char> {
    if trim(provider_id).len() == 0 {
        "nineclaw-runtime-provider"@
    } else {
        "nineclaw-runtime-"@ + md5_hex(encode_utf8(trim(provider_id))).take(12)
    }
}

/// The provider id registered with the runtime.
pub fn runtime_provider_id(provider_id: &str) -> (r: String)
    ensures
        r@ == runtime_provider_id_spec(provider_id@),
{
    let t = trimmed_chars(provider_id);
    if t.len() == 0 {
        return "nineclaw-runtime-provider".to_owned();
    }
    let d = digest_prefix(&t);
    let mut out = str_chars("nineclaw-runtime-");
    push_all(&mut out, &d);
    chars_to_string(&out)
}

/// The provider id of the Anthropic compatibility extension.
pub fn anthropic_compat_provider_id(provider_id: &str) -> (r: String)
    ensures
        r@ == "nineclaw-compat-"@ + provider_suffix(provider_id@),
{
    let s = runtime_provider_suffix(provider_id);
    let mut out = str_chars("nineclaw-compat-");
    push_str(&mut out, s.as_str());
    chars_to_string(&out)
}

/// The environment variable that carries the compatibility extension's API key.
pub fn anthropic_compat_api_key_env(provider_id: &str) -> (r: String)
    ensures
        r@ == "NINECLAW_PI_COMPAT_API_KEY_"@ + ascii_upper(provider_suffix(provider_id@)),
{
    let s = runtime_provider_suffix(provider_id);
    let sv = str_chars(s.as_str());
    let up = to_ascii_upper(&sv);
    let mut out = str_chars("NINECLAW_PI_COMPAT_API_KEY_");
    push_all(&mut out, &up);
    chars_to_string(&out)
}

} // verus!

verus! {

pub open spec fn msg_no_provider() -> Seq<char> {
    "当前会话没有传入 Provider 配置，NineClaw 只能依赖系统 pi 默认模型；这次默认配置没有返回 assistant 回复。请在设置中启用至少一个 Provider，或先在终端确认 `pi --mode rpc` 能独立工作。"@
}

pub open spec fn msg_partial_reply() -> Seq<char> {
    "pi 已输出部分 assistant 内容，但没有返回完成事件。请重试；若持续出现，请检查当前 pi 版本是否变更了 RPC 输出行为。"@
}

pub open spec fn msg_incomplete_provider() -> Seq<char> {
    "pi 已接收消息，但当前桌面会话没有关联完整的 Provider 配置，因此没有返回 assistant 回复。请在设置中补全 Base URL、API Key 和模型后重试。"@
}

/// The provider named in a report: its id, with the normalised API format when one is set.
pub open spec fn provider_label(config: ProviderRuntimeConfig, normalized_api_format: Seq<char>) -> Seq<
    char,
> {
    if trim(config.api_format@).len() == 0 {
        trim(config.provider_id@)
    } else {
        trim(config.provider_id@) + " ("@ + normalized_api_format + ")"@
    }
}

/// Why a desktop turn ended without a complete assistant reply.
pub open spec fn incomplete_reply_reason(
    provider_config: Option<ProviderRuntimeConfig>,
    saw_prompt_response: bool,
    saw_any_output: bool,
    saw_assistant_activity: bool,
    normalized_api_format: Seq<char>,
) -> Seq<char> {
    match provider_config {
        None => msg_no_provider(),
        Some(c) => if saw_assistant_activity {
            msg_partial_reply()
        } else if !saw_prompt_response && !saw_any_output {
            match provider_config_problem(c.provider_id@, c.base_url@, c.model@) {
                Some(e) => e,
                None => "pi 已启动但没有产生任何输出（provider="@ + trim(c.provider_id@) + "，model="@
                    + trim(c.model@)
                    + "）。请检查该 Provider 的 Base URL、模型可用性，以及当前 pi 版本是否支持该 RPC 运行方式。"@,
            }
        } else if trim(c.provider_id@).len() == 0 || trim(c.base_url@).len() == 0 || trim(
            c.model@,
        ).len() == 0 {
            msg_incomplete_provider()
        } else {
            "pi 已接收消息，但没有返回 assistant 回复（provider="@ + provider_label(
                c,
                normalized_api_format,
            ) + "，model="@ + trim(c.model@)
                + "）。请检查 Provider 配置或确认当前 pi 版本是否变更了 RPC 输出行为。"@
        },
    }
}

/// Explains why a desktop turn produced no complete reply. `normalized_api_format` is the
/// provider's API format as the provider runtime normalises it, used in the final report.
pub fn desktop_incomplete_reply_error(
    provider_config: Option<&ProviderRuntimeConfig>,
    saw_prompt_response: bool,
    saw_any_output: bool,
    saw_assistant_activity: bool,
    normalized_api_format: &str,
) -> (r: Option<String>)
    ensures
        r matches Some(m) && m@ == incomplete_reply_reason(
            match provider_config {
                Some(c) => Some(*c),
                None => None,
            },
            saw_prompt_response,
            saw_any_output,
            saw_assistant_activity,
            normalized_api_format@,
        ),
{
    let config = match provider_config {
        None => {
            return Some(
                "当前会话没有传入 Provider 配置，NineClaw 只能依赖系统 pi 默认模型；这次默认配置没有返回 assistant 回复。请在设置中启用至少一个 Provider，或先在终端确认 `pi --mode rpc` 能独立工作。".to_owned(),
            );
        },
        Some(c) => c,
    };
    if saw_assistant_activity {
        return Some(
            "pi 已输出部分 assistant 内容，但没有返回完成事件。请重试；若持续出现，请检查当前 pi 版本是否变更了 RPC 输出行为。".to_owned(),
        );
    }
    let id = trimmed_chars(config.provider_id.as_str());
    let model = trimmed_chars(config.model.as_str());
    if !saw_prompt_response && !saw_any_output {
        if let Err(error) = validate_desktop_provider_config(config) {
            return Some(error);
        }
        let mut m = str_chars("pi 已启动但没有产生任何输出（provider=");
        push_all(&mut m, &id);
        push_str(&mut m, "，model=");
        push_all(&mut m, &model);
        push_str(
            &mut m,
            "）。请检查该 Provider 的 Base URL、模型可用性，以及当前 pi 版本是否支持该 RPC 运行方式。",
        );
        return Some(chars_to_string(&m));
    }
    let base = trimmed_chars(config.base_url.as_str());
    if id.len() == 0 || base.len() == 0 || model.len() == 0 {
        return Some(
            "pi 已接收消息，但当前桌面会话没有关联完整的 Provider 配置，因此没有返回 assistant 回复。请在设置中补全 Base URL、API Key 和模型后重试。".to_owned(),
        );
    }
    let fmt = trimmed_chars(config.api_format.as_str());
    let mut label = id.clone();
    if fmt.len() > 0 {
        push_str(&mut label, " (");
        push_str(&mut label, normalized_api_format);
        push_str(&mut label, ")");
    }
    assert(label@ == provider_label(*config, normalized_api_format@));
    let mut m = str_chars("pi 已接收消息，但没有返回 assistant 回复（provider=");
    push_all(&mut m, &label);
    push_str(&mut m, "，model=");
    push_all(&mut m, &model);
    push_str(&mut m, "）。请检查 Provider 配置或确认当前 pi 版本是否变更了 RPC 输出行为。");
    Some(chars_to_string(&m))
}

/// Whether a provider goes through the Anthropic compatibility extension: its API format (as the
/// provider runtime normalises it) is `anthropic` and it is not Anthropic itself.
pub fn should_use_desktop_anthropic_compat_extension(provider_id: &str, normalized_api_format: &str) -> (b:
    bool)
    ensures
        b == (normalized_api_format@ == "anthropic"@ && trim(provider_id@) != "anthropic"@),
{
    let id = trimmed_chars(provider_id);
    crate::text::chars_eq_str(&str_chars(normalized_api_format), "anthropic") && !crate::text::chars_eq_str(&id, "anthropic")
}

} // verus!

verus! {

/// What the provider runtime rules say of a provider and its model: the API format and base URL
/// as they normalise them, and the model's reasoning quirks (it needs thinking switched off
/// explicitly, it needs its reasoning text replayed, it accepts a reasoning effort).
#[derive(Debug, Clone, PartialEq, Eq)]
pub struct ProviderModelTraits {
    pub normalized_api_format: String,
    pub normalized_base_url: String,
    pub requires_explicit_thinking_disable: bool,
    pub requires_reasoning_content_replay: bool,
    pub supports_reasoning_effort: bool,
}

/// The input kinds a model takes: text, and images unless the input is text only.
pub open spec fn model_input_json(text_only_input: bool) -> JsonModel {
    if text_only_input {
        JsonModel::Array(seq![JsonModel::Str("text"@)])
    } else {
        JsonModel::Array(seq![JsonModel::Str("text"@), JsonModel::Str("image"@)])
    }
}

/// Whether the model is declared reasoning-capable: not when the reasoning effort is switched
/// off (unless its reasoning text must be replayed), else when it accepts a reasoning effort,
/// needs thinking switched off explicitly, or needs its reasoning text replayed.
pub open spec fn model_reasoning(t: ProviderModelTraits, disable_reasoning_effort: bool) -> bool {
    let effective_disable = disable_reasoning_effort && !t.requires_reasoning_content_replay;
    !effective_disable && (t.supports_reasoning_effort || t.requires_explicit_thinking_disable
        || t.requires_reasoning_content_replay)
}

/// The one model entry of a provider.
pub open spec fn model_entry_json(model: Seq<char>, api: Seq<char>, input: JsonModel, reasoning: bool) -> JsonModel {
    JsonModel::Object(
        seq![
            ("id"@, JsonModel::Str(model)),
            ("api"@, JsonModel::Str(api)),
            ("input"@, input),
            ("reasoning"@, JsonModel::Bool(reasoning)),
        ],
    )
}

/// The OpenAI compatibility settings: no developer role; the reasoning effort only for a
/// reasoning model that does not need thinking switched off; the `qwen` thinking format for one
/// that does; and for a model whose reasoning text is replayed, that requirement and the
/// `deepseek` thinking format (which then wins).
pub open spec fn compat_json(t: ProviderModelTraits, disable_reasoning_effort: bool) -> JsonModel {
    let base = seq![
        ("supportsDeveloperRole"@, JsonModel::Bool(false)),
        (
            "supportsReasoningEffort"@,
            JsonModel::Bool(model_reasoning(t, disable_reasoning_effort) && !t.requires_explicit_thinking_disable),
        ),
    ];
    if t.requires_reasoning_content_replay {
        JsonModel::Object(
            base + seq![
                ("requiresReasoningContentOnAssistantMessages"@, JsonModel::Bool(true)),
                ("thinkingFormat"@, JsonModel::Str("deepseek"@)),
            ],
        )
    } else if t.requires_explicit_thinking_disable {
        JsonModel::Object(base + seq![("thinkingFormat"@, JsonModel::Str("qwen"@))])
    } else {
        JsonModel::Object(base)
    }
}

/// The key a provider is configured with: its trimmed key, or `DUMMY_KEY` when that is blank.
pub open spec fn provider_api_key(api_key: Seq<char>) -> Seq<char> {
    if trim(api_key).len() == 0 {
        "DUMMY_KEY"@
    } else {
        trim(api_key)
    }
}

/// The members of a provider's entry in Pi's `models.json`: its normalised base URL, its key,
/// and for the Anthropic format the Anthropic messages API with the bearer header and a model
/// that reasons when its reasoning text is replayed; for any other format the OpenAI
/// completions API with its compatibility settings (see `compat_json`, `model_reasoning`).
pub open spec fn provider_object_json(
    c: ProviderRuntimeConfig,
    t: ProviderModelTraits,
    text_only_input: bool,
    disable_reasoning_effort: bool,
) -> Seq<(Seq<char>, JsonModel)> {
    let head = seq![
        ("baseUrl"@, JsonModel::Str(t.normalized_base_url@)),
        ("apiKey"@, JsonModel::Str(provider_api_key(c.api_key@))),
    ];
    let input = model_input_json(text_only_input);
    let model = trim(c.model@);
    if t.normalized_api_format@ == "anthropic"@ {
        head + seq![
            ("api"@, JsonModel::Str("anthropic-messages"@)),
            ("authHeader"@, JsonModel::Bool(true)),
            (
                "models"@,
                JsonModel::Array(
                    seq![
                        model_entry_json(
                            model,
                            "anthropic-messages"@,
                            input,
                            t.requires_reasoning_content_replay,
                        ),
                    ],
                ),
            ),
        ]
    } else {
        head + seq![
            ("api"@, JsonModel::Str("openai-completions"@)),
            ("compat"@, compat_json(t, disable_reasoning_effort)),
            (
                "models"@,
                JsonModel::Array(
                    seq![
                        model_entry_json(
                            model,
                            "openai-completions"@,
                            input,
                            model_reasoning(t, disable_reasoning_effort),
                        ),
                    ],
                ),
            ),
        ]
    }
}

/// Pi's `models.json` for a provider: `{"providers": {<runtime id>: <entry>}}`, or nothing when
/// the trimmed provider id, the normalised base URL or the trimmed model is empty.
pub open spec fn provider_models_config(
    c: ProviderRuntimeConfig,
    t: ProviderModelTraits,
    text_only_input: bool,
    disable_reasoning_effort: bool,
) -> Option<JsonModel> {
    if trim(c.provider_id@).len() == 0 || t.normalized_base_url@.len() == 0 || trim(c.model@).len()
        == 0 {
        None
    } else {
        Some(
            JsonModel::Object(
                seq![
                    (
                        "providers"@,
                        JsonModel::Object(
                            seq![
                                (
                                    runtime_provider_id_spec(trim(c.provider_id@)),
                                    JsonModel::Object(
                                        provider_object_json(c, t, text_only_input, disable_reasoning_effort),
                                    ),
                                ),
                            ],
                        ),
                    ),
                ],
            ),
        )
    }
}

fn model_input(text_only_input: bool) -> (r: JsonValue)
    ensures
        r@ == model_input_json(text_only_input),
{
    let items = if text_only_input {
        vec![JsonValue::Str("text".to_owned())]
    } else {
        vec![JsonValue::Str("text".to_owned()), JsonValue::Str("image".to_owned())]
    };
    proof {
        reveal_with_fuel(items_model, 3);
    }
    assert(items_model(items@) =~= model_input_json(text_only_input)->Array_0);
    JsonValue::Array(items)
}

fn model_entry(model: &Vec<char>, api: &str, text_only_input: bool, reasoning: bool) -> (r: JsonValue)
    ensures
        r@ == model_entry_json(model@, api@, model_input_json(text_only_input), reasoning),
{
    let fields = vec![
        ("id".to_owned(), JsonValue::Str(chars_to_string(model))),
        ("api".to_owned(), JsonValue::Str(api.to_owned())),
        ("input".to_owned(), model_input(text_only_input)),
        ("reasoning".to_owned(), JsonValue::Bool(reasoning)),
    ];
    proof {
        reveal_with_fuel(fields_model, 5);
    }
    assert(fields_model(fields@) =~= model_entry_json(
        model@,
        api@,
        model_input_json(text_only_input),
        reasoning,
    )->Object_0);
    JsonValue::Object(fields)
}

fn compat_object(t: &ProviderModelTraits, disable_reasoning_effort: bool) -> (r: JsonValue)
    ensures
        r@ == compat_json(*t, disable_reasoning_effort),
{
    let effective_disable = disable_reasoning_effort && !t.requires_reasoning_content_replay;
    let reasoning = !effective_disable && (t.supports_reasoning_effort || t.requires_explicit_thinking_disable
        || t.requires_reasoning_content_replay);
    let mut fields = vec![
        ("supportsDeveloperRole".to_owned(), JsonValue::Bool(false)),
        (
            "supportsReasoningEffort".to_owned(),
            JsonValue::Bool(reasoning && !t.requires_explicit_thinking_disable),
        ),
    ];
    let ghost base = fields_model(fields@);
    proof {
        reveal_with_fuel(fields_model, 3);
    }
    if t.requires_reasoning_content_replay {
        let ghost before = fields@;
        fields.push(("requiresReasoningContentOnAssistantMessages".to_owned(), JsonValue::Bool(true)));
        fields.push(("thinkingFormat".to_owned(), JsonValue::Str("deepseek".to_owned())));
        assert(fields@.drop_last().drop_last() =~= before);
        assert(fields@.drop_last() =~= before.push(fields@[2]));
    } else if t.requires_explicit_thinking_disable {
        let ghost before = fields@;
        fields.push(("thinkingFormat".to_owned(), JsonValue::Str("qwen".to_owned())));
        assert(fields@.drop_last() =~= before);
    }
    assert(fields_model(fields@) =~= compat_json(*t, disable_reasoning_effort)->Object_0);
    JsonValue::Object(fields)
}

/// The members of a provider's entry in Pi's `models.json` (see `provider_object_json`); the
/// provider runtime rules' verdicts on the provider and its model are given in `traits`.
pub fn custom_provider_object(
    provider_config: &ProviderRuntimeConfig,
    traits: &ProviderModelTraits,
    text_only_input: bool,
    disable_reasoning_effort: bool,
) -> (r: Vec<(String, JsonValue)>)
    ensures
        fields_model(r@) == provider_object_json(
            *provider_config,
            *traits,
            text_only_input,
            disable_reasoning_effort,
        ),
{
    let key_chars = trimmed_chars(provider_config.api_key.as_str());
    let api_key = if key_chars.len() == 0 {
        "DUMMY_KEY".to_owned()
    } else {
        chars_to_string(&key_chars)
    };
    let model = trimmed_chars(provider_config.model.as_str());
    let format = str_chars(traits.normalized_api_format.as_str());
    let mut fields = vec![
        ("baseUrl".to_owned(), JsonValue::Str(traits.normalized_base_url.clone())),
        ("apiKey".to_owned(), JsonValue::Str(api_key)),
    ];
    let ghost head = fields@;
    if crate::text::chars_eq_str(&format, "anthropic") {
        let entry = model_entry(&model, "anthropic-messages", text_only_input, traits.requires_reasoning_content_replay);
        let models = vec![entry];
        proof {
            reveal_with_fuel(items_model, 2);
        }
        fields.push(("api".to_owned(), JsonValue::Str("anthropic-messages".to_owned())));
        fields.push(("authHeader".to_owned(), JsonValue::Bool(true)));
        fields.push(("models".to_owned(), JsonValue::Array(models)));
    } else {
        let effective_disable = disable_reasoning_effort && !traits.requires_reasoning_content_replay;
        let reasoning = !effective_disable && (traits.supports_reasoning_effort
            || traits.requires_explicit_thinking_disable || traits.requires_reasoning_content_replay);
        let entry = model_entry(&model, "openai-completions", text_only_input, reasoning);
        let models = vec![entry];
        proof {
            reveal_with_fuel(items_model, 2);
        }
        fields.push(("api".to_owned(), JsonValue::Str("openai-completions".to_owned())));
        fields.push(("compat".to_owned(), compat_object(traits, disable_reasoning_effort)));
        fields.push(("models".to_owned(), JsonValue::Array(models)));
    }
    proof {
        reveal_with_fuel(fields_model, 6);
    }
    assert(fields_model(fields@) =~= provider_object_json(
        *provider_config,
        *traits,
        text_only_input,
        disable_reasoning_effort,
    ));
    fields
}

/// Pi's `models.json` for a provider (see `provider_models_config`).
pub fn build_provider_models_config_with_input(
    provider_config: &ProviderRuntimeConfig,
    traits: &ProviderModelTraits,
    text_only_input: bool,
    disable_reasoning_effort: bool,
) -> (r: Option<JsonValue>)
    ensures
        match provider_models_config(*provider_config, *traits, text_only_input, disable_reasoning_effort) {
            Some(m) => r matches Some(v) && v@ == m,
            None => r is None,
        },
{
    let provider_id = trimmed_chars(provider_config.provider_id.as_str());
    let model = trimmed_chars(provider_config.model.as_str());
    if provider_id.len() == 0 || traits.normalized_base_url.as_str().is_empty() || model.len() == 0 {
        return None;
    }
    let pid = chars_to_string(&provider_id);
    let id = runtime_provider_id(pid.as_str());
    proof {
        crate::text::lemma_trim_idempotent(provider_config.provider_id@);
    }
    let entry = custom_provider_object(provider_config, traits, text_only_input, disable_reasoning_effort);
    let providers = vec![(id, JsonValue::Object(entry))];
    let top = vec![("providers".to_owned(), JsonValue::Object(providers))];
    proof {
        reveal_with_fuel(fields_model, 2);
    }
    assert(fields_model(providers@) =~= seq![
        (runtime_provider_id_spec(trim(provider_config.provider_id@)), JsonModel::Object(
            provider_object_json(*provider_config, *traits, text_only_input, disable_reasoning_effort),
        )),
    ]);
    assert(fields_model(top@) =~= seq![("providers"@, JsonModel::Object(fields_model(providers@)))]);
    Some(JsonValue::Object(top))
}

} // verus!
