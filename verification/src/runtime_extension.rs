//! The managed runtime's Pi extension: its JavaScript source, which registers NineClaw's tools
//! and prompt additions, built around the JSON string literal of the TypeBox import path.
use vstd::prelude::*;
use crate::text::{chars_to_string, push_str};
use crate::compat_extension::{json_string_literal, js_string_literal, message_with};

verus! {

/// The extension source up to the TypeBox import path.
pub const RUNTIME_EXTENSION_HEAD: &'static str = r##"import fs from "node:fs";
import * as fsPromises from "node:fs/promises";
import * as path from "node:path";
import * as os from "node:os";
import * as crypto from "node:crypto";
import http from "node:http";
import { execFile as execFileCallback } from "node:child_process";
import { promisify } from "node:util";
import { fileURLToPath } from "node:url";
import { Type } from "##;

/// The extension source after the TypeBox import path.
pub const RUNTIME_EXTENSION_TAIL: &'static str = r##";
import {
  formatSize,
  truncateHead,
  withFileMutationQueue,
} from "@mariozechner/pi-coding-agent";
import { createWebSearchTool } from "./{MANAGED_RUNTIME_WEB_SEARCH_FILE}";
import { createWebFetchTool } from "./{MANAGED_RUNTIME_WEB_FETCH_FILE}";
import { createImageGenerationTool } from "./{MANAGED_RUNTIME_IMAGE_GENERATION_FILE}";
import { createImageTaskQueryTool } from "./{MANAGED_RUNTIME_IMAGE_TASK_QUERY_FILE}";
import { createAgentDelegateTool } from "./{MANAGED_RUNTIME_AGENT_DELEGATE_FILE}";
import { createAskUserTool } from "./{MANAGED_RUNTIME_ASK_USER_FILE}";
import { createMcpTool } from "./{MANAGED_RUNTIME_MCP_TOOL_FILE}";
import { createMcpConfigTool } from "./{MANAGED_RUNTIME_MCP_CONFIG_FILE}";
import { createMemoryUpdateTool } from "./{MANAGED_RUNTIME_MEMORY_UPDATE_FILE}";
import { createMemorySearchTool } from "./{MANAGED_RUNTIME_MEMORY_SEARCH_FILE}";
import { createMemoryReadTool } from "./{MANAGED_RUNTIME_MEMORY_READ_FILE}";
import { createMemoryDeleteTool } from "./{MANAGED_RUNTIME_MEMORY_DELETE_FILE}";
import { createMemoryStoreTool } from "./{MANAGED_RUNTIME_MEMORY_STORE_FILE}";
import { createMemorySaveTool } from "./{MANAGED_RUNTIME_MEMORY_SAVE_FILE}";
import { createMemoryGetTool } from "./{MANAGED_RUNTIME_MEMORY_GET_FILE}";
import { createMemoryForgetTool } from "./{MANAGED_RUNTIME_MEMORY_FORGET_FILE}";
import { createMemoryListTool } from "./{MANAGED_RUNTIME_MEMORY_LIST_FILE}";
import { createChatSearchTool } from "./{MANAGED_RUNTIME_CHAT_SEARCH_FILE}";
import { createCreateScheduledTaskTool } from "./{MANAGED_RUNTIME_CREATE_TASK_FILE}";
import { createQueryScheduledTaskTool } from "./{MANAGED_RUNTIME_QUERY_TASK_FILE}";
import { createQueryScheduledTaskInfoTool } from "./{MANAGED_RUNTIME_QUERY_TASK_INFO_FILE}";
import { createSkillCreatorTool } from "./{MANAGED_RUNTIME_SKILL_CREATOR_FILE}";
import { createSkillEvolutionRuntime } from "./{MANAGED_RUNTIME_SKILL_EVOLUTION_FILE}";

const execFile = promisify(execFileCallback);

// node:http based POST for localhost proxy calls — bypasses undici fetch
// which can emit UND_ERR_SOCKET on some Node.js builds.
function localHttpPost(url, options) {
  return new Promise((resolve, reject) => {
    const urlObj = new URL(url);
    const body = options?.body;
    const headers = { ...(options?.headers || {}) };
    if (body != null && !headers["content-length"] && !headers["Content-Length"]) {
      headers["content-length"] = String(Buffer.byteLength(body));
    }
    const req = http.request({
      hostname: urlObj.hostname,
      port: urlObj.port,
      path: urlObj.pathname,
      method: options?.method || "POST",
      headers,
    }, (res) => {
      const chunks = [];
      res.on("data", (c) => chunks.push(c));
      res.on("end", () => {
        const text = Buffer.concat(chunks).toString("utf8");
        resolve({
          ok: res.statusCode >= 200 && res.statusCode < 300,
          status: res.statusCode,
          text: () => Promise.resolve(text),
          json: () => { try { return Promise.resolve(JSON.parse(text)); } catch(e) { return Promise.reject(e); } },
        });
      });
    });
    req.on("error", reject);
    if (options?.signal) {
      const onAbort = () => req.destroy(Object.assign(new Error("Aborted"), { name: "AbortError" }));
      if (options.signal.aborted) { onAbort(); return; }
      options.signal.addEventListener("abort", onAbort, { once: true });
    }
    if (body != null) req.write(body);
    req.end();
  });
}

const HTTP_PARAMS = Type.Object({
  alias: Type.String({ description: "Configured external API alias" }),
  method: Type.String({ description: "HTTP method, e.g. GET/POST" }),
  path: Type.Optional(Type.String({ description: "Path appended to the configured base URL" })),
  query: Type.Optional(Type.Record(Type.String(), Type.String())),
  headers: Type.Optional(Type.Record(Type.String(), Type.String())),
  body: Type.Optional(Type.String({ description: "Optional raw request body" }))
});

function readHarness() {
  const file = process.env.NINECLAW_HARNESS_FILE?.trim();
  if (!file) return {};
  try {
    return JSON.parse(fs.readFileSync(file, "utf8"));
  } catch {
    return {};
  }
}

function applyHarness(pi, harness) {
  const active = Array.isArray(harness.activeTools) ? harness.activeTools.filter(Boolean) : [];
  const hasExplicitActiveTools = active.length > 0;
  if (hasExplicitActiveTools) {
    const unique = [...new Set(active)];
    pi.setActiveTools(unique);
  }
}

function proxyUrl() {
  const base = process.env.NINECLAW_PROXY_BASE_URL?.trim();
  const token = process.env.NINECLAW_PROXY_SESSION_TOKEN?.trim();
  if (!base || !token) return null;
  return `${base}/external/${token}/dispatch`;
}

const TOOL_REPEAT_LIMIT = 3;
const TOOL_LOOP_GUARD_REASON_PREFIX = "[NineClaw loop guard]";
const NINECLAW_SYSTEM_PROMPT_APPEND = [
  "When you use ask_user and the user submits an answer, treat that tool result as clarification, not as the end of the turn.",
  "After a successful ask_user result, continue the task immediately and answer the user using the submitted information.",
  "Do not stop at the tool result unless the user explicitly asked you to only collect the answer.",
].join("\\n");

function stableToolInput(value) {
  if (Array.isArray(value)) {
    return value.map((item) => stableToolInput(item));
  }
  if (value && typeof value === "object") {
    const out = {};
    for (const key of Object.keys(value).sort()) {
      const item = value[key];
      if (item !== undefined) {
        out[key] = stableToolInput(item);
      }
    }
    return out;
  }
  return value;
}

function stableToolSignature(toolName, input) {
  return `${String(toolName ?? "")}\n${JSON.stringify(stableToolInput(input ?? {}))}`;
}

function buildSystemPromptAppend(harness) {
  const sections = [NINECLAW_SYSTEM_PROMPT_APPEND];
  const promptAppend = typeof harness.promptAppend === "string" ? harness.promptAppend.trim() : "";
  if (promptAppend) {
    sections.push(`# Active Harness\n\n${promptAppend}`);
  }
  return sections.filter(Boolean).join("\n\n");
}

export default function(pi) {
  let externalToolRegistered = false;
  let webSearchToolRegistered = false;
  let webFetchToolRegistered = false;
  let imageGenerationToolRegistered = false;
  let imageTaskQueryToolRegistered = false;
  let agentDelegateToolRegistered = false;
  let askUserToolRegistered = false;
  let mcpToolRegistered = false;
  let mcpConfigToolRegistered = false;
  let memoryUpdateToolRegistered = false;
  let memorySearchToolRegistered = false;
  let memoryReadToolRegistered = false;
  let memoryDeleteToolRegistered = false;
  let memoryStoreToolRegistered = false;
  let memorySaveToolRegistered = false;
  let memoryGetToolRegistered = false;
  let memoryForgetToolRegistered = false;
  let memoryListToolRegistered = false;
  let chatSearchToolRegistered = false;
  let createScheduledTaskToolRegistered = false;
  let queryScheduledTaskToolRegistered = false;
  let queryScheduledTaskInfoToolRegistered = false;
  let skillCreatorToolRegistered = false;
  let lastToolSignature = "";
  let repeatedToolSignatureCount = 0;
  const extensionPath = fileURLToPath(import.meta.url);
  const extensionDir = path.dirname(extensionPath);
  const skillEvolution = createSkillEvolutionRuntime({
    fsSync: fs,
    fsPromises,
    pathApi: path,
    processApi: process,
    consoleApi: console,
    pi,
    extensionPath,
    autoCreationPromptPath: path.join(extensionDir, "{MANAGED_RUNTIME_SKILL_AUTO_CREATION_PROMPT_FILE}"),
    reflectionPromptPath: path.join(extensionDir, "{MANAGED_RUNTIME_SKILL_REFLECTION_PROMPT_FILE}"),
  });

  function ensureWebSearchTool() {
    if (webSearchToolRegistered) return;
    webSearchToolRegistered = true;
    pi.registerTool(
      createWebSearchTool({
        Type,
        fetchImpl: fetch,
        execFileImpl: execFile,
        fsPromises,
        fsConstants: fs.constants,
        fsSync: fs,
        pathApi: path,
        osApi: os,
        cryptoApi: crypto,
        processApi: process,
        withFileMutationQueue,
        truncateHead,
        formatSize,
      })
    );
  }

  function ensureWebFetchTool() {
    if (webFetchToolRegistered) return;
    webFetchToolRegistered = true;
    pi.registerTool(
      createWebFetchTool({
        Type,
        execFileImpl: execFile,
        fsPromises,
        fsConstants: fs.constants,
        fsSync: fs,
        pathApi: path,
        osApi: os,
        cryptoApi: crypto,
        processApi: process,
        withFileMutationQueue,
      })
    );
  }

  function ensureImageGenerationTool() {
    if (imageGenerationToolRegistered) return;
    imageGenerationToolRegistered = true;
    pi.registerTool(
      createImageGenerationTool({
        Type,
        fetchImpl: localHttpPost,
        fsPromises,
        pathApi: path,
        osApi: os,
        cryptoApi: crypto,
        processApi: process,
        withFileMutationQueue,
      })
    );
  }

  function ensureImageTaskQueryTool() {
    if (imageTaskQueryToolRegistered) return;
    imageTaskQueryToolRegistered = true;
    pi.registerTool(
      createImageTaskQueryTool({
        Type,
        fetchImpl: localHttpPost,
        fsPromises,
        pathApi: path,
        osApi: os,
        cryptoApi: crypto,
        processApi: process,
        withFileMutationQueue,
      })
    );
  }

  function ensureAgentDelegateTool() {
    if (agentDelegateToolRegistered) return;
    agentDelegateToolRegistered = true;
    pi.registerTool(
      createAgentDelegateTool({
        Type,
        fetchImpl: localHttpPost,
        processApi: process,
      })
    );
  }

  function ensureAskUserTool() {
    if (askUserToolRegistered) return;
    askUserToolRegistered = true;
    pi.registerTool(
      createAskUserTool({
        Type,
        fetchImpl: localHttpPost,
        processApi: process,
      })
    );
  }

  function ensureMcpTool() {
    if (mcpToolRegistered) return;
    mcpToolRegistered = true;
    pi.registerTool(
      createMcpTool({
        Type,
        fsSync: fs,
        fetchImpl: fetch,
        processApi: process,
      })
    );
  }

  function ensureMcpConfigTool() {
    if (mcpConfigToolRegistered) return;
    mcpConfigToolRegistered = true;
    pi.registerTool(
      createMcpConfigTool({
        Type,
        fsSync: fs,
        fetchImpl: localHttpPost,
        processApi: process,
      })
    );
  }

  function ensureMemoryUpdateTool() {
    if (memoryUpdateToolRegistered) return;
    memoryUpdateToolRegistered = true;
    pi.registerTool(createMemoryUpdateTool({ Type }));
  }

  function ensureMemorySearchTool() {
    if (memorySearchToolRegistered) return;
    memorySearchToolRegistered = true;
    pi.registerTool(createMemorySearchTool({ Type }));
  }

  function ensureMemoryReadTool() {
    if (memoryReadToolRegistered) return;
    memoryReadToolRegistered = true;
    pi.registerTool(createMemoryReadTool({ Type }));
  }

  function ensureMemoryDeleteTool() {
    if (memoryDeleteToolRegistered) return;
    memoryDeleteToolRegistered = true;
    pi.registerTool(createMemoryDeleteTool({ Type }));
  }

  function ensureMemoryStoreTool() {
    if (memoryStoreToolRegistered) return;
    memoryStoreToolRegistered = true;
    pi.registerTool(createMemoryStoreTool({ Type }));
  }

  function ensureMemorySaveTool() {
    if (memorySaveToolRegistered) return;
    memorySaveToolRegistered = true;
    pi.registerTool(createMemorySaveTool({ Type }));
  }

  function ensureMemoryGetTool() {
    if (memoryGetToolRegistered) return;
    memoryGetToolRegistered = true;
    pi.registerTool(createMemoryGetTool({ Type }));
  }

  function ensureMemoryForgetTool() {
    if (memoryForgetToolRegistered) return;
    memoryForgetToolRegistered = true;
    pi.registerTool(createMemoryForgetTool({ Type }));
  }

  function ensureMemoryListTool() {
    if (memoryListToolRegistered) return;
    memoryListToolRegistered = true;
    pi.registerTool(createMemoryListTool({ Type }));
  }

  function ensureChatSearchTool() {
    if (chatSearchToolRegistered) return;
    chatSearchToolRegistered = true;
    pi.registerTool(createChatSearchTool({ Type, fetchImpl: localHttpPost, processApi: process }));
  }

  function ensureCreateScheduledTaskTool() {
    if (createScheduledTaskToolRegistered) return;
    createScheduledTaskToolRegistered = true;
    pi.registerTool(createCreateScheduledTaskTool({ Type, fetchImpl: localHttpPost, processApi: process }));
  }

  function ensureQueryScheduledTaskTool() {
    if (queryScheduledTaskToolRegistered) return;
    queryScheduledTaskToolRegistered = true;
    pi.registerTool(createQueryScheduledTaskTool({ Type, fetchImpl: localHttpPost, processApi: process }));
  }

  function ensureQueryScheduledTaskInfoTool() {
    if (queryScheduledTaskInfoToolRegistered) return;
    queryScheduledTaskInfoToolRegistered = true;
    pi.registerTool(createQueryScheduledTaskInfoTool({ Type, fetchImpl: localHttpPost, processApi: process }));
  }

  function ensureSkillCreatorTool() {
    if (skillCreatorToolRegistered) return;
    skillCreatorToolRegistered = true;
    pi.registerTool(createSkillCreatorTool({
      Type,
      fsSync: fs,
      fsPromises,
      pathApi: path,
      processApi: process,
    }));
  }

  function ensureExternalTool() {
    if (externalToolRegistered) return;
    externalToolRegistered = true;
    pi.registerTool({
      name: "nineclaw_external_api",
      label: "NineClaw External API Proxy",
      description: "Call an external HTTP API through NineClaw's credential proxy.",
      promptSnippet: "Call configured external APIs without exposing real credentials.",
      promptGuidelines: [
        "Use this tool for authenticated external HTTP APIs instead of embedding API keys in bash/curl."
      ],
      parameters: HTTP_PARAMS,
      async execute(_toolCallId, params) {
        const target = proxyUrl();
        if (!target) {
          return {
            content: [{ type: "text", text: "Credential proxy is not available for this session." }],
            details: {},
          };
        }

        const response = await localHttpPost(target, {
          method: "POST",
          headers: { "content-type": "application/json" },
          body: JSON.stringify(params ?? {})
        });
        const text = await response.text();
        return {
          content: [{ type: "text", text }],
          details: {
            status: response.status
          }
        };
      }
    });
  }

  pi.on("session_start", async () => {
    const harness = readHarness();
    ensureWebSearchTool();
    ensureWebFetchTool();
    ensureImageGenerationTool();
    ensureImageTaskQueryTool();
    ensureAgentDelegateTool();
    ensureAskUserTool();
    ensureMcpTool();
    ensureMcpConfigTool();
    ensureMemoryUpdateTool();
    ensureMemorySearchTool();
    ensureMemoryReadTool();
    ensureMemoryDeleteTool();
    ensureMemoryStoreTool();
    ensureMemorySaveTool();
    ensureMemoryGetTool();
    ensureMemoryForgetTool();
    ensureMemoryListTool();
    ensureChatSearchTool();
    ensureCreateScheduledTaskTool();
    ensureQueryScheduledTaskTool();
    ensureQueryScheduledTaskInfoTool();
    ensureSkillCreatorTool();
    if (harness.enableExternalApiProxy) {
      ensureExternalTool();
    }
    applyHarness(pi, harness);
  });

  pi.on("before_agent_start", async (event) => {
    const harness = readHarness();
    ensureWebSearchTool();
    ensureWebFetchTool();
    ensureImageGenerationTool();
    ensureImageTaskQueryTool();
    ensureAgentDelegateTool();
    ensureAskUserTool();
    ensureMcpTool();
    ensureMcpConfigTool();
    ensureMemoryUpdateTool();
    ensureMemorySearchTool();
    ensureMemoryReadTool();
    ensureMemoryDeleteTool();
    ensureMemoryStoreTool();
    ensureMemorySaveTool();
    ensureMemoryGetTool();
    ensureMemoryForgetTool();
    ensureMemoryListTool();
    ensureChatSearchTool();
    ensureCreateScheduledTaskTool();
    ensureQueryScheduledTaskTool();
    ensureQueryScheduledTaskInfoTool();
    ensureSkillCreatorTool();
    if (harness.enableExternalApiProxy) {
      ensureExternalTool();
    }
    applyHarness(pi, harness);
    const promptAppend = buildSystemPromptAppend(harness);
    skillEvolution.reset(event.prompt);
    return {
      systemPrompt: `${event.systemPrompt}\n\n${promptAppend}`
    };
  });

  pi.on("turn_end", async () => {
    skillEvolution.noteTurnEnd();
  });

  pi.on("tool_call", async (event) => {
    skillEvolution.noteToolCall(event);
    const signature = stableToolSignature(event.toolName, event.input);
    if (signature === lastToolSignature) {
      repeatedToolSignatureCount += 1;
    } else {
      lastToolSignature = signature;
      repeatedToolSignatureCount = 1;
    }
    if (repeatedToolSignatureCount >= TOOL_REPEAT_LIMIT) {
      return {
        block: true,
        reason: `${TOOL_LOOP_GUARD_REASON_PREFIX} 检测到连续 ${TOOL_REPEAT_LIMIT} 次调用相同工具且参数一致，已拦截本次操作，防止进入死循环。工具：${String(event.toolName ?? "unknown_tool")}`
      };
    }

    if (event.toolName !== "bash") {
      return undefined;
    }
    const command = String(event.input?.command ?? "");
    if (!command.trim()) {
      return undefined;
    }
    if (/(authorization\\s*:\\s*bearer|x-api-key|api[_-]?key\\s*=|token\\s*=)/i.test(command)) {
      return {
        block: true,
        reason: "Detected inline credential usage in bash. Use nineclaw_external_api or the credential proxy instead."
      };
    }
    return undefined;
  });

  pi.on("agent_end", async (event, ctx) => {
    await skillEvolution.maybeRunAfterAgent(event, ctx);
  });
}
"##;

/// The extension source importing TypeBox from the given JavaScript literal.
pub open spec fn runtime_extension_source(import_literal: Seq<char>) -> Seq<char> {
    RUNTIME_EXTENSION_HEAD@ + import_literal + RUNTIME_EXTENSION_TAIL@
}

/// Fills the extension source with an import path already written as a JavaScript literal.
pub fn runtime_extension_source_from_literal(import_literal: &str) -> (r: String)
    ensures
        r@ == runtime_extension_source(import_literal@),
{
    let mut out: Vec<char> = Vec::new();
    push_str(&mut out, RUNTIME_EXTENSION_HEAD);
    push_str(&mut out, import_literal);
    push_str(&mut out, RUNTIME_EXTENSION_TAIL);
    chars_to_string(&out)
}

/// The managed runtime extension source, importing TypeBox from the JSON string literal of its
/// path. It always succeeds.
pub fn build_managed_runtime_extension_source(typebox_import_path: &str) -> (r: Result<String, String>)
    ensures
        r matches Ok(s) && s@ == runtime_extension_source(json_string_literal(typebox_import_path@)),
{
    match js_string_literal(typebox_import_path) {
        Ok(literal) => Ok(runtime_extension_source_from_literal(literal.as_str())),
        Err(detail) => {
            Err(message_with("序列化 typebox 路径失败: ", detail.as_str()))
        },
    }
}

} // verus!
