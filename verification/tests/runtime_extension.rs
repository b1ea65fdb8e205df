use nineclaw::runtime_extension::{
    build_managed_runtime_extension_source, runtime_extension_source_from_literal,
};

fn assert_contains_all(source: &str, needles: &[&str]) {
    for needle in needles {
        assert!(source.contains(needle), "missing {needle}");
    }
}

#[test]
fn extension_source_registers_tools_and_prompt_guards() {
    let source = build_managed_runtime_extension_source("/tmp/typebox/index.mjs").expect("source");
    assert_contains_all(
        &source,
        &[
            "ensureWebSearchTool",
            "ensureWebFetchTool",
            "ensureImageGenerationTool",
            "ensureImageTaskQueryTool",
            "ensureAskUserTool",
            "ensureMcpTool",
            "ensureMcpConfigTool",
            "NINECLAW_SYSTEM_PROMPT_APPEND",
            "After a successful ask_user result, continue the task immediately and answer the user using the submitted information.",
            "buildSystemPromptAppend",
            "const hasExplicitActiveTools = active.length > 0",
            "if (hasExplicitActiveTools)",
            "const TOOL_REPEAT_LIMIT = 3",
            "stableToolSignature(event.toolName, event.input)",
            "[NineClaw loop guard]",
            "import { Type } from \"/tmp/typebox/index.mjs\";",
            "from \"@mariozechner/pi-coding-agent\";",
            "createAgentDelegateTool",
            "createAskUserTool",
            "createMcpTool",
            "createMcpConfigTool",
            "createSkillCreatorTool",
            "createSkillEvolutionRuntime",
            "skillEvolution.reset(event.prompt)",
            "skillEvolution.maybeRunAfterAgent",
            "ensureCreateScheduledTaskTool",
            "createCreateScheduledTaskTool",
            "ensureQueryScheduledTaskTool",
            "ensureQueryScheduledTaskInfoTool",
            "createQueryScheduledTaskTool",
            "createQueryScheduledTaskInfoTool",
        ],
    );
}

#[test]
fn extension_import_path_is_a_json_literal() {
    let source = build_managed_runtime_extension_source("C:\\typebox \"x\"/index.mjs").expect("source");
    assert!(source.contains("import { Type } from \"C:\\\\typebox \\\"x\\\"/index.mjs\";"));
    let plain = runtime_extension_source_from_literal("TYPEBOX");
    assert!(plain.contains("import { Type } from TYPEBOX;"));
    assert!(plain.starts_with("import fs from \"node:fs\";\n"));
    assert_eq!(
        plain.len() + "\"/tmp/typebox/index.mjs\"".len() - "TYPEBOX".len(),
        build_managed_runtime_extension_source("/tmp/typebox/index.mjs").unwrap().len()
    );
}
