//! The Pi extension that streams an Anthropic-compatible gateway through Pi's own event
//! stream: its JavaScript source, built around JSON string literals of the provider settings.
use vstd::prelude::*;
use crate::text::{chars_to_string, push_str};
use crate::digest::hex_digit_lower;

verus! {

/// How a character is written inside a JSON string literal: `"` and `\` and the control
/// characters below U+0020 are escaped (`\b`, `\t`, `\n`, `\f`, `\r`, else `\u00` and two lower-case
/// hex digits); every other character stands as it is.
pub open spec fn json_escape_char(c: char) -> Seq<char> {
    if c == '"' {
        seq!['\\', '"']
    } else if c == '\\' {
        seq!['\\', '\\']
    } else if c == '\x08' {
        seq!['\\', 'b']
    } else if c == '\t' {
        seq!['\\', 't']
    } else if c == '\n' {
        seq!['\\', 'n']
    } else if c == '\x0C' {
        seq!['\\', 'f']
    } else if c == '\r' {
        seq!['\\', 'r']
    } else if (c as u32) < 0x20 {
        seq![
            '\\',
            'u',
            '0',
            '0',
            hex_digit_lower(((c as u32) / 16) as u8),
            hex_digit_lower(((c as u32) % 16) as u8),
        ]
    } else {
        seq![c]
    }
}

/// The escaped characters of a text, in order.
pub open spec fn json_escaped(s: Seq<char>) -> Seq<char>
    decreases s.len(),
{
    if s.len() == 0 {
        Seq::empty()
    } else {
        json_escaped(s.drop_last()) + json_escape_char(s.last())
    }
}

/// The JSON string literal of a text: its escaped characters between double quotes.
pub open spec fn json_string_literal(s: Seq<char>) -> Seq<char> {
    seq!['"'] + json_escaped(s) + seq!['"']
}

/// Calls `serde_json::to_string` on a string. Written to a growing byte vector, which cannot
/// fail, it always gives the JSON string literal of `value` (see `json_string_literal`).
#[verifier::external_body]
pub(crate) fn js_string_literal(value: &str) -> (r: Result<String, String>)
    ensures
        r is Ok,
        r matches Ok(s) ==> s@ == json_string_literal(value@),
{
    serde_json::to_string(value).map_err(|error| error.to_string())
}

/// A message made of a fixed head and a detail.
pub(crate) fn message_with(head: &str, detail: &str) -> (r: String)
    ensures
        r@ == head@ + detail@,
{
    let mut out: Vec<char> = Vec::new();
    push_str(&mut out, head);
    push_str(&mut out, detail);
    chars_to_string(&out)
}

/// A JSON string literal for the extension source.
fn extension_literal(value: &str) -> (r: Result<String, String>)
    ensures
        r matches Ok(s) && s@ == json_string_literal(value@),
{
    match js_string_literal(value) {
        Ok(s) => Ok(s),
        Err(detail) => {
            Err(message_with("序列化 JS 字面量失败: ", detail.as_str()))
        },
    }
}

/// The JavaScript helper that formats an error together with its cause.
pub const ERROR_WITH_CAUSE: &'static str = r##"function formatErrorWithCause(error) {
  if (!(error instanceof Error)) {
    try {
      return JSON.stringify(error);
    } catch {
      return String(error);
    }
  }

  let message = error.message || String(error);
  const cause = error.cause;
  if (cause instanceof Error) {
    const causeMessage = cause.message || String(cause);
    if (causeMessage && !message.includes(causeMessage)) {
      message += `; cause: ${causeMessage}`;
    }
  } else if (cause != null) {
    let causeText = '';
    try {
      causeText = typeof cause === 'string' ? cause : JSON.stringify(cause);
    } catch {
      causeText = String(cause);
    }
    if (causeText && !message.includes(causeText)) {
      message += `; cause: ${causeText}`;
    }
  }

  return message;
}
"##;

/// The extension's opening import statement, up to the import path.
pub const IMPORT_HEAD: &'static str = r##"import { createAssistantMessageEventStream, calculateCost, parseStreamingJson } from "##;

/// What follows the import path, before the error formatting helper.
pub const IMPORT_TAIL: &'static str = r##";

"##;

/// The stream helpers, up to the value of the reasoning replay flag.
pub const REPLAY_FLAG_HEAD: &'static str = r##"

function sanitizeSurrogates(text) {
  // 仅替换未成对的 UTF-16 代理项。旧实现会误伤所有 BMP 外字符（emoji 等），全部变成 U+FFFD。
  return String(text ?? '').replace(
    /[\uD800-\uDBFF](?![\uDC00-\uDFFF])|(?<![\uD800-\uDBFF])[\uDC00-\uDFFF]/g,
    '\uFFFD',
  );
}

function anthropicMessagesUrl(baseUrl) {
  const trimmed = String(baseUrl ?? '').trim().replace(/\/+$/, '');
  return trimmed.endsWith('/v1') ? trimmed + '/messages' : trimmed + '/v1/messages';
}

const REQUIRES_REASONING_CONTENT_REPLAY = "##;

/// The stream implementation and the provider registration, up to the provider id.
pub const PROVIDER_HEAD: &'static str = r##";

function convertContentBlocks(content) {
  const items = Array.isArray(content) ? content : [];
  const hasImages = items.some((block) => block?.type === 'image' && block.data && block.mimeType);
  if (!hasImages) {
    return sanitizeSurrogates(items.map((block) => block?.text || imageBlockPlaceholder(block)).filter(Boolean).join('\n'));
  }

  const blocks = items.flatMap((block) => {
    if (block.type === 'text') {
      const text = sanitizeSurrogates(block.text);
      return text.trim() ? [{ type: 'text', text }] : [];
    }

    if (block.type === 'image' && block.data && block.mimeType) {
      return [{
        type: 'image',
        source: {
          type: 'base64',
          media_type: block.mimeType,
          data: block.data,
        },
      }];
    }

    const placeholder = imageBlockPlaceholder(block);
    return placeholder ? [{ type: 'text', text: sanitizeSurrogates(placeholder) }] : [];
  });

  if (!blocks.some((block) => block.type === 'text')) {
    blocks.unshift({ type: 'text', text: '(see attached image)' });
  }

  return blocks;
}

function imageBlockPlaceholder(block) {
  if (!block || typeof block !== 'object') return '';
  if (block.type === 'image_url' || block.image_url) return '[image omitted: URL-only image block is not replayable in this runtime]';
  if (block.type === 'input_image' || block.image_url) return '[image omitted: URL-only image block is not replayable in this runtime]';
  if (block.type === 'image') return '[image omitted: image block was missing base64 data or mime type]';
  return '';
}

function convertMessages(messages) {
  const params = [];

  for (let i = 0; i < messages.length; i += 1) {
    const message = messages[i];

    if (message.role === 'user') {
      if (typeof message.content === 'string') {
        if (message.content.trim()) {
          params.push({ role: 'user', content: sanitizeSurrogates(message.content) });
        }
      } else {
        const blocks = (Array.isArray(message.content) ? message.content : []).flatMap((item) => {
          if (item.type === 'text') {
            const text = sanitizeSurrogates(item.text);
            return text.trim() ? [{ type: 'text', text }] : [];
          }
          if (item.type === 'image' && item.data && item.mimeType) {
            return [{
                type: 'image',
                source: {
                  type: 'base64',
                  media_type: item.mimeType,
                  data: item.data,
                },
              }];
          }
          const placeholder = imageBlockPlaceholder(item);
          return placeholder ? [{ type: 'text', text: sanitizeSurrogates(placeholder) }] : [];
        });
        if (blocks.length > 0) {
          params.push({ role: 'user', content: blocks });
        }
      }
      continue;
    }

    if (message.role === 'assistant') {
      const blocks = [];
      const reasoningBlocks = [];
      for (const block of message.content) {
        if (block.type === 'text' && block.text.trim()) {
          blocks.push({ type: 'text', text: sanitizeSurrogates(block.text) });
        } else if (block.type === 'thinking' && block.thinking.trim()) {
          if (REQUIRES_REASONING_CONTENT_REPLAY) {
            reasoningBlocks.push(block.thinking);
          } else {
            blocks.push({ type: 'text', text: sanitizeSurrogates(block.thinking) });
          }
        } else if (block.type === 'toolCall') {
          blocks.push({
            type: 'tool_use',
            id: block.id,
            name: block.name,
            input: block.arguments,
          });
        }
      }
      if (blocks.length > 0) {
        const assistantMessage = { role: 'assistant', content: blocks };
        const reasoningContent = reasoningBlocks.join('\n').trim();
        if (REQUIRES_REASONING_CONTENT_REPLAY && reasoningContent) {
          const sanitizedReasoningContent = sanitizeSurrogates(reasoningContent);
          assistantMessage.content = [
            { type: 'thinking', thinking: sanitizedReasoningContent },
            ...blocks,
          ];
          assistantMessage.reasoning_content = sanitizedReasoningContent;
        }
        params.push(assistantMessage);
      }
      continue;
    }

    if (message.role === 'toolResult') {
      const toolResults = [{
        type: 'tool_result',
        tool_use_id: message.toolCallId,
        content: convertContentBlocks(message.content),
        is_error: message.isError,
      }];

      let nextIndex = i + 1;
      while (nextIndex < messages.length && messages[nextIndex].role === 'toolResult') {
        const nextMessage = messages[nextIndex];
        toolResults.push({
          type: 'tool_result',
          tool_use_id: nextMessage.toolCallId,
          content: convertContentBlocks(nextMessage.content),
          is_error: nextMessage.isError,
        });
        nextIndex += 1;
      }

      i = nextIndex - 1;
      params.push({ role: 'user', content: toolResults });
    }
  }

  if (params.length > 0) {
    const last = params[params.length - 1];
    if (last.role === 'user' && Array.isArray(last.content)) {
      const lastBlock = last.content[last.content.length - 1];
      if (lastBlock) {
        lastBlock.cache_control = { type: 'ephemeral' };
      }
    }
  }

  return params;
}

function convertTools(tools) {
  return tools.map((tool) => ({
    name: tool.name,
    description: tool.description,
    input_schema: {
      type: 'object',
      properties: tool.parameters?.properties || {},
      required: tool.parameters?.required || [],
    },
  }));
}

function mapStopReason(reason) {
  if (reason == null || reason === '') {
    return 'stop';
  }
  const normalized = String(reason);
  switch (normalized) {
    case 'end_turn':
    case 'pause_turn':
    case 'stop_sequence':
    case 'stop':
      return 'stop';
    case 'max_tokens':
      return 'length';
    case 'tool_use':
    case 'tool_calls':
      return 'toolUse';
    // 部分网关/兼容层会返回非标准 finish_reason，流已正常结束时不宜当成硬错误。
    case 'unexpected_state':
    case 'paused':
      return 'stop';
    default:
      if (/unexpected/i.test(normalized)) {
        return 'stop';
      }
      return 'error';
  }
}

function thinkingBudgetTokens(level, maxTokens) {
  const budgets = {
    minimal: 1024,
    low: 2048,
    medium: 4096,
    high: 8192,
    xhigh: 12000,
  };
  const requested = budgets[level] || budgets.medium;
  return Math.max(1024, Math.min(requested, Math.max(1024, maxTokens - 1024)));
}

async function* parseSSE(response) {
  if (!response.body) {
    return;
  }

  const reader = response.body.getReader();
  const decoder = new TextDecoder();
  let buffer = '';

  try {
    while (true) {
      const { done, value } = await reader.read();
      if (done) {
        break;
      }

      buffer += decoder.decode(value, { stream: true }).replace(/\r\n/g, '\n');
      let splitIndex = buffer.indexOf('\n\n');
      while (splitIndex !== -1) {
        const chunk = buffer.slice(0, splitIndex);
        buffer = buffer.slice(splitIndex + 2);
        const dataLines = chunk
          .split('\n')
          .filter((line) => line.startsWith('data:'))
          .map((line) => line.slice(5).trim());
        if (dataLines.length > 0) {
          const data = dataLines.join('\n').trim();
          if (data && data !== '[DONE]') {
            try {
              yield JSON.parse(data);
            } catch {}
          }
        }
        splitIndex = buffer.indexOf('\n\n');
      }
    }

    buffer += decoder.decode().replace(/\r\n/g, '\n');
    if (buffer.trim()) {
      const dataLines = buffer
        .split('\n')
        .filter((line) => line.startsWith('data:'))
        .map((line) => line.slice(5).trim());
      if (dataLines.length > 0) {
        const data = dataLines.join('\n').trim();
        if (data && data !== '[DONE]') {
          try {
            yield JSON.parse(data);
          } catch {}
        }
      }
    }
  } finally {
    try {
      await reader.cancel();
    } catch {}
    try {
      reader.releaseLock();
    } catch {}
  }
}

function streamNineclawAnthropicCompat(model, context, options) {
  const stream = createAssistantMessageEventStream();

  (async () => {
    const output = {
      role: 'assistant',
      content: [],
      api: model.api,
      provider: model.provider,
      model: model.id,
      usage: {
        input: 0,
        output: 0,
        cacheRead: 0,
        cacheWrite: 0,
        totalTokens: 0,
        cost: { input: 0, output: 0, cacheRead: 0, cacheWrite: 0, total: 0 },
      },
      stopReason: 'stop',
      timestamp: Date.now(),
    };

    try {
      const apiKey = options?.apiKey ?? '';
      const headers = Object.assign(
        {
          'content-type': 'application/json',
          accept: 'text/event-stream',
          'anthropic-version': '2023-06-01',
          'x-api-key': apiKey,
          Authorization: 'Bearer ' + apiKey,
        },
        model.headers || {},
        options?.headers || {},
      );

      const payload = {
        model: model.id,
        messages: convertMessages(context.messages),
        max_tokens: options?.maxTokens || Math.floor(model.maxTokens / 3),
        stream: true,
      };

      if (model.reasoning && options?.reasoning && options.reasoning !== 'off') {
        payload.thinking = {
          type: 'enabled',
          budget_tokens: thinkingBudgetTokens(options.reasoning, payload.max_tokens),
        };
      }

      if (context.systemPrompt) {
        payload.system = [{
          type: 'text',
          text: sanitizeSurrogates(context.systemPrompt),
          cache_control: { type: 'ephemeral' },
        }];
      }

      if (context.tools?.length) {
        payload.tools = convertTools(context.tools);
      }

      const response = await fetch(anthropicMessagesUrl(model.baseUrl), {
        method: 'POST',
        headers,
        body: JSON.stringify(payload),
        signal: options?.signal,
      });

      if (!response.ok) {
        throw new Error(await response.text());
      }

      stream.push({ type: 'start', partial: output });
      const blocks = output.content;
      let sawMessageStop = false;

      for await (const event of parseSSE(response)) {
        if (event.type === 'message_start') {
          output.responseId = event.message?.id;
          output.usage.input = event.message?.usage?.input_tokens || 0;
          output.usage.output = event.message?.usage?.output_tokens || 0;
          output.usage.cacheRead = event.message?.usage?.cache_read_input_tokens || 0;
          output.usage.cacheWrite = event.message?.usage?.cache_creation_input_tokens || 0;
          output.usage.totalTokens =
            output.usage.input + output.usage.output + output.usage.cacheRead + output.usage.cacheWrite;
          calculateCost(model, output.usage);
        } else if (event.type === 'content_block_start') {
          if (event.content_block?.type === 'text') {
            output.content.push({ type: 'text', text: '', index: event.index });
            stream.push({ type: 'text_start', contentIndex: output.content.length - 1, partial: output });
          } else if (
            event.content_block?.type === 'thinking' ||
            event.content_block?.type === 'reasoning' ||
            event.content_block?.type === 'reasoning_content'
          ) {
            output.content.push({ type: 'thinking', thinking: '', thinkingSignature: 'reasoning_content', index: event.index });
            stream.push({ type: 'thinking_start', contentIndex: output.content.length - 1, partial: output });
          } else if (event.content_block?.type === 'tool_use') {
            output.content.push({
              type: 'toolCall',
              id: event.content_block.id,
              name: event.content_block.name,
              arguments: event.content_block.input || {},
              partialJson: '',
              index: event.index,
            });
            stream.push({ type: 'toolcall_start', contentIndex: output.content.length - 1, partial: output });
          }
        } else if (event.type === 'content_block_delta') {
          const contentIndex = blocks.findIndex((block) => block.index === event.index);
          const block = blocks[contentIndex];
          if (!block) {
            continue;
          }

          if (event.delta?.type === 'text_delta' && block.type === 'text') {
            block.text += event.delta.text;
            stream.push({ type: 'text_delta', contentIndex, delta: event.delta.text, partial: output });
          } else if (
            block.type === 'thinking' &&
            (
              event.delta?.type === 'thinking_delta' ||
              event.delta?.type === 'reasoning_delta' ||
              event.delta?.type === 'reasoning_content_delta' ||
              event.delta?.reasoning_content != null ||
              event.delta?.thinking != null ||
              event.delta?.text != null
            )
          ) {
            const thinkingDelta = event.delta?.text ?? event.delta?.reasoning_content ?? event.delta?.thinking ?? '';
            if (thinkingDelta) {
              block.thinking += thinkingDelta;
              stream.push({ type: 'thinking_delta', contentIndex, delta: thinkingDelta, partial: output });
            }
          } else if (event.delta?.type === 'input_json_delta' && block.type === 'toolCall') {
            block.partialJson += event.delta.partial_json;
            block.arguments = parseStreamingJson(block.partialJson);
            stream.push({
              type: 'toolcall_delta',
              contentIndex,
              delta: event.delta.partial_json,
              partial: output,
            });
          }
        } else if (event.type === 'content_block_stop') {
          const contentIndex = blocks.findIndex((block) => block.index === event.index);
          const block = blocks[contentIndex];
          if (!block) {
            continue;
          }

          delete block.index;
          if (block.type === 'text') {
            stream.push({ type: 'text_end', contentIndex, content: block.text, partial: output });
          } else if (block.type === 'thinking') {
            stream.push({ type: 'thinking_end', contentIndex, content: block.thinking, partial: output });
          } else if (block.type === 'toolCall') {
            block.arguments = parseStreamingJson(block.partialJson);
            delete block.partialJson;
            stream.push({ type: 'toolcall_end', contentIndex, toolCall: block, partial: output });
          }
        } else if (event.type === 'message_delta') {
          if (event.delta?.stop_reason) {
            output.stopReason = mapStopReason(event.delta.stop_reason);
          }
          if (event.usage?.input_tokens != null) {
            output.usage.input = event.usage.input_tokens;
          }
          if (event.usage?.output_tokens != null) {
            output.usage.output = event.usage.output_tokens;
          }
          if (event.usage?.cache_read_input_tokens != null) {
            output.usage.cacheRead = event.usage.cache_read_input_tokens;
          }
          if (event.usage?.cache_creation_input_tokens != null) {
            output.usage.cacheWrite = event.usage.cache_creation_input_tokens;
          }
          output.usage.totalTokens =
            output.usage.input + output.usage.output + output.usage.cacheRead + output.usage.cacheWrite;
          calculateCost(model, output.usage);
        } else if (event.type === 'message_stop') {
          sawMessageStop = true;
          break;
        }
      }

      if (options?.signal?.aborted) {
        throw new Error('Request was aborted');
      }
      if (!sawMessageStop) {
        throw new Error('Anthropic-compatible stream ended before message_stop');
      }
      if (output.stopReason === 'aborted' || output.stopReason === 'error') {
        const hasRenderable = output.content.some((block) =>
          (block.type === 'text' && String(block.text || '').trim().length > 0) ||
          block.type === 'toolCall',
        );
        if (hasRenderable) {
          output.stopReason = 'stop';
          output.errorMessage = undefined;
        } else {
          throw new Error('Anthropic-compatible stream ended without a valid stop reason');
        }
      }

      stream.push({ type: 'done', reason: output.stopReason, message: output });
      stream.end();
    } catch (error) {
      for (const block of output.content) {
        delete block.index;
      }
      output.stopReason = options?.signal?.aborted ? 'aborted' : 'error';
      output.errorMessage = formatErrorWithCause(error);
      stream.push({ type: 'error', reason: output.stopReason, error: output });
      stream.end();
    }
  })();

  return stream;
}

export default function(pi) {
  pi.registerProvider("##;

/// The registration up to the base URL.
pub const BASE_URL_HEAD: &'static str = r##", {
    baseUrl: "##;

/// The registration up to the API key variable.
pub const API_KEY_HEAD: &'static str = r##",
    apiKey: "##;

/// The registration up to the model id.
pub const MODEL_ID_HEAD: &'static str = r##",
    api: 'nineclaw-anthropic-compat',
    models: [{
      id: "##;

/// The model entry up to its name.
pub const MODEL_NAME_HEAD: &'static str = r##",
      name: "##;

/// The model entry up to its reasoning flag.
pub const MODEL_REASONING_HEAD: &'static str = r##",
      reasoning: "##;

/// The model entry up to its input kinds.
pub const MODEL_INPUT_HEAD: &'static str = r##",
      input: "##;

/// The rest of the model entry and of the registration.
pub const EXTENSION_TAIL: &'static str = r##",
      cost: { input: 0, output: 0, cacheRead: 0, cacheWrite: 0 },
      contextWindow: 200000,
      maxTokens: 16384,
    }],
    streamSimple: streamNineclawAnthropicCompat,
  });
}
"##;

/// The JavaScript helper that formats an error together with its cause.
pub fn format_js_error_with_cause() -> (r: &'static str)
    ensures
        r@ == ERROR_WITH_CAUSE@,
{
    ERROR_WITH_CAUSE
}

/// The model input kinds: text only, or text and images.
pub open spec fn model_input_text(text_only_input: bool) -> Seq<char> {
    if text_only_input {
        "['text']"@
    } else {
        "['text', 'image']"@
    }
}

/// A JavaScript boolean.
pub open spec fn js_bool(b: bool) -> Seq<char> {
    if b {
        "true"@
    } else {
        "false"@
    }
}

/// The extension source with the given JavaScript literals filled in.
pub open spec fn compat_extension_source(
    import_path: Seq<char>,
    provider_id: Seq<char>,
    api_key_env: Seq<char>,
    base_url: Seq<char>,
    model: Seq<char>,
    text_only_input: bool,
    requires_reasoning_content_replay: bool,
) -> Seq<char> {
    IMPORT_HEAD@ + import_path + IMPORT_TAIL@ + ERROR_WITH_CAUSE@ + REPLAY_FLAG_HEAD@ + js_bool(
        requires_reasoning_content_replay,
    ) + PROVIDER_HEAD@ + provider_id + BASE_URL_HEAD@ + base_url + API_KEY_HEAD@ + api_key_env
        + MODEL_ID_HEAD@ + model + MODEL_NAME_HEAD@ + model + MODEL_REASONING_HEAD@ + js_bool(
        requires_reasoning_content_replay,
    ) + MODEL_INPUT_HEAD@ + model_input_text(text_only_input) + EXTENSION_TAIL@
}

/// Fills the extension source with literals already written as JavaScript (see
/// `compat_extension_source`).
pub fn compat_extension_source_from_literals(
    import_path: &str,
    provider_id: &str,
    api_key_env: &str,
    base_url: &str,
    model: &str,
    text_only_input: bool,
    requires_reasoning_content_replay: bool,
) -> (r: String)
    ensures
        r@ == compat_extension_source(
            import_path@,
            provider_id@,
            api_key_env@,
            base_url@,
            model@,
            text_only_input,
            requires_reasoning_content_replay,
        ),
{
    let input = if text_only_input {
        "['text']"
    } else {
        "['text', 'image']"
    };
    let reasoning = if requires_reasoning_content_replay {
        "true"
    } else {
        "false"
    };
    let mut out: Vec<char> = Vec::new();
    push_str(&mut out, IMPORT_HEAD);
    push_str(&mut out, import_path);
    push_str(&mut out, IMPORT_TAIL);
    push_str(&mut out, format_js_error_with_cause());
    push_str(&mut out, REPLAY_FLAG_HEAD);
    push_str(&mut out, reasoning);
    push_str(&mut out, PROVIDER_HEAD);
    push_str(&mut out, provider_id);
    push_str(&mut out, BASE_URL_HEAD);
    push_str(&mut out, base_url);
    push_str(&mut out, API_KEY_HEAD);
    push_str(&mut out, api_key_env);
    push_str(&mut out, MODEL_ID_HEAD);
    push_str(&mut out, model);
    push_str(&mut out, MODEL_NAME_HEAD);
    push_str(&mut out, model);
    push_str(&mut out, MODEL_REASONING_HEAD);
    push_str(&mut out, reasoning);
    push_str(&mut out, MODEL_INPUT_HEAD);
    push_str(&mut out, input);
    push_str(&mut out, EXTENSION_TAIL);
    chars_to_string(&out)
}

/// The source of the Anthropic-compatible streaming extension for a provider: the pi-ai import
/// path, provider id, API key variable, base URL and model are written as JSON string literals;
/// the model takes text only or text and images, and is marked as reasoning when the model
/// needs its reasoning content replayed. It always succeeds.
pub fn build_desktop_anthropic_compat_extension_source(
    pi_ai_import_path: &str,
    provider_id: &str,
    api_key_env: &str,
    base_url: &str,
    model: &str,
    text_only_input: bool,
    requires_reasoning_content_replay: bool,
) -> (r: Result<String, String>)
    ensures
        r matches Ok(s) && s@ == compat_extension_source(
            json_string_literal(pi_ai_import_path@),
            json_string_literal(provider_id@),
            json_string_literal(api_key_env@),
            json_string_literal(base_url@),
            json_string_literal(model@),
            text_only_input,
            requires_reasoning_content_replay,
        ),
{
    let import_path = match extension_literal(pi_ai_import_path) {
        Ok(s) => s,
        Err(e) => {
            return Err(e);
        },
    };
    let provider_id = match extension_literal(provider_id) {
        Ok(s) => s,
        Err(e) => {
            return Err(e);
        },
    };
    let api_key_env = match extension_literal(api_key_env) {
        Ok(s) => s,
        Err(e) => {
            return Err(e);
        },
    };
    let base_url = match extension_literal(base_url) {
        Ok(s) => s,
        Err(e) => {
            return Err(e);
        },
    };
    let model = match extension_literal(model) {
        Ok(s) => s,
        Err(e) => {
            return Err(e);
        },
    };
    Ok(
        compat_extension_source_from_literals(
            import_path.as_str(),
            provider_id.as_str(),
            api_key_env.as_str(),
            base_url.as_str(),
            model.as_str(),
            text_only_input,
            requires_reasoning_content_replay,
        ),
    )
}

} // verus!
