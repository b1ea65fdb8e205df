use nineclaw::json_value::{as_array, as_bool, as_str, get, JsonValue};
use nineclaw::mcp_settings::{
    normalize_settings, remove_server, runtime_settings_snapshot, set_server_enabled,
    upsert_servers, validate_server, McpServerConfig, McpSettings, McpTransportType,
};

fn http_server(id: &str, url: &str) -> McpServerConfig {
    McpServerConfig {
        id: id.into(),
        transport: McpTransportType::StreamableHttp,
        enabled: true,
        url: url.into(),
        ..McpServerConfig::default()
    }
}

#[test]
fn upsert_adds_new_and_updates_existing() {
    let base = McpSettings {
        servers: vec![http_server("alpha", "https://a.example/mcp")],
    };

    let merged = upsert_servers(
        &base,
        vec![
            http_server("beta", "https://b.example/mcp"),
            // Update alpha's url
            http_server("alpha", "https://a2.example/mcp"),
        ],
    )
    .expect("upsert");

    assert_eq!(merged.servers.len(), 2);
    let alpha = merged.servers.iter().find(|s| s.id == "alpha").unwrap();
    assert_eq!(alpha.url, "https://a2.example/mcp");
    assert!(merged.servers.iter().any(|s| s.id == "beta"));
}

#[test]
fn upsert_rejects_invalid_server() {
    let base = McpSettings::default();
    let err = upsert_servers(
        &base,
        vec![McpServerConfig {
            id: "broken".into(),
            transport: McpTransportType::Sse,
            url: String::new(),
            ..McpServerConfig::default()
        }],
    )
    .unwrap_err();
    assert!(err.contains("url"));
}

#[test]
fn remove_server_drops_matching_id() {
    let base = McpSettings {
        servers: vec![
            http_server("alpha", "https://a.example/mcp"),
            http_server("beta", "https://b.example/mcp"),
        ],
    };
    let (after, removed) = remove_server(&base, "alpha");
    assert!(removed);
    assert_eq!(after.servers.len(), 1);
    assert_eq!(after.servers[0].id, "beta");

    let (after2, removed2) = remove_server(&after, "ghost");
    assert!(!removed2);
    assert_eq!(after2.servers.len(), 1);
}

#[test]
fn set_server_enabled_toggles_flag() {
    let base = McpSettings {
        servers: vec![http_server("alpha", "https://a.example/mcp")],
    };
    let (after, found) = set_server_enabled(&base, "alpha", false);
    assert!(found);
    assert!(!after.servers[0].enabled);

    let (_after2, missing) = set_server_enabled(&after, "ghost", true);
    assert!(!missing);
}

#[test]
fn normalizes_and_dedupes_servers() {
    let settings = normalize_settings(McpSettings {
        servers: vec![
            McpServerConfig {
                id: "  alpha  ".into(),
                name: "  Alpha  ".into(),
                transport: McpTransportType::Stdio,
                enabled: true,
                command: "  npx  ".into(),
                args: vec!["  -y ".into(), "".into()],
                env: vec![(" TOKEN ".into(), " abc ".into())],
                cwd: "  /tmp  ".into(),
                url: String::new(),
                headers: Vec::new(),
            },
            McpServerConfig {
                id: "alpha".into(),
                ..McpServerConfig::default()
            },
        ],
    });

    assert_eq!(settings.servers.len(), 1);
    assert_eq!(settings.servers[0].id, "alpha");
    assert_eq!(settings.servers[0].name, "Alpha");
    assert_eq!(settings.servers[0].command, "npx");
    assert_eq!(settings.servers[0].args, vec!["-y"]);
    assert_eq!(
        settings.servers[0].env,
        vec![("TOKEN".to_string(), "abc".to_string())]
    );
    assert_eq!(settings.servers[0].cwd, "/tmp");
}

#[test]
fn validate_reports_each_problem() {
    let mut stdio = http_server("s", "");
    stdio.transport = McpTransportType::Stdio;
    assert!(validate_server(&stdio).unwrap_err().contains("command"));
    assert!(validate_server(&http_server("x", "ftp://host/mcp"))
        .unwrap_err()
        .contains("只支持 http / https"));
    assert!(validate_server(&http_server("x", "not a url"))
        .unwrap_err()
        .contains("非法"));
    assert!(validate_server(&http_server("", "https://a")).unwrap_err().contains("id 不能为空"));
    assert!(validate_server(&http_server("ok", "http://127.0.0.1:25424/mcp")).is_ok());
}

#[test]
fn upsert_rejects_blank_id_and_trims_incoming() {
    let base = McpSettings::default();
    assert!(upsert_servers(&base, vec![http_server("  ", "https://a")]).is_err());
    let merged = upsert_servers(&base, vec![http_server(" gamma ", " https://g.example ")]).unwrap();
    assert_eq!(merged.servers[0].id, "gamma");
    assert_eq!(merged.servers[0].url, "https://g.example");
}

#[test]
fn remove_server_trims_target() {
    let base = McpSettings {
        servers: vec![http_server("alpha", "https://a.example/mcp")],
    };
    let (after, removed) = remove_server(&base, "  alpha ");
    assert!(removed);
    assert!(after.servers.is_empty());
}

fn at<'a>(v: &'a JsonValue, path: &[&str]) -> Option<&'a JsonValue> {
    let mut cur = v;
    for key in path {
        cur = get(cur, key)?;
    }
    Some(cur)
}

#[test]
fn writes_runtime_snapshot_in_standard_shape() {
    let settings = McpSettings {
        servers: vec![McpServerConfig {
            id: "miview".into(),
            name: "MiView".into(),
            transport: McpTransportType::StreamableHttp,
            enabled: true,
            url: "http://127.0.0.1:25424/mcp".into(),
            headers: vec![("Authorization".to_string(), "Bearer token".to_string())],
            ..McpServerConfig::default()
        }],
    };
    let parsed = runtime_settings_snapshot(&settings);
    assert_eq!(
        at(&parsed, &["mcpServers", "miview", "url"]).and_then(as_str),
        Some("http://127.0.0.1:25424/mcp")
    );
    assert_eq!(
        at(&parsed, &["mcpServers", "miview", "transport"]).and_then(as_str),
        Some("streamable_http")
    );
}

#[test]
fn runtime_snapshot_lists_every_field_of_each_server() {
    let stdio = McpServerConfig {
        id: "fs".into(),
        name: "Files".into(),
        transport: McpTransportType::Stdio,
        enabled: false,
        command: "npx".into(),
        args: vec!["-y".to_string(), "server-fs".to_string()],
        env: vec![("TOKEN".to_string(), "abc".to_string())],
        cwd: "/tmp".into(),
        ..McpServerConfig::default()
    };
    let sse = McpServerConfig { id: "events".into(), transport: McpTransportType::Sse, ..McpServerConfig::default() };
    let snap = runtime_settings_snapshot(&McpSettings { servers: vec![stdio, sse] });
    assert_eq!(at(&snap, &["mcpServers", "fs", "transport"]).and_then(as_str), Some("stdio"));
    assert_eq!(at(&snap, &["mcpServers", "fs", "enabled"]).and_then(as_bool), Some(false));
    assert_eq!(at(&snap, &["mcpServers", "fs", "command"]).and_then(as_str), Some("npx"));
    assert_eq!(at(&snap, &["mcpServers", "fs", "args"]).and_then(as_array).map(|a| a.len()), Some(2));
    assert_eq!(at(&snap, &["mcpServers", "fs", "env", "TOKEN"]).and_then(as_str), Some("abc"));
    assert_eq!(at(&snap, &["mcpServers", "fs", "cwd"]).and_then(as_str), Some("/tmp"));
    assert_eq!(at(&snap, &["mcpServers", "events", "transport"]).and_then(as_str), Some("sse"));
    assert_eq!(at(&snap, &["mcpServers", "events", "name"]).and_then(as_str), Some(""));
    assert!(at(&snap, &["mcpServers", "events", "headers"]).is_some());
    assert!(at(&snap, &["mcpServers", "missing"]).is_none());
}

#[test]
fn upsert_keeps_id_order_and_the_last_incoming_wins() {
    let base = McpSettings {
        servers: vec![
            http_server("alpha", "https://a.example/mcp"),
            http_server("beta", "https://b.example/mcp"),
        ],
    };
    let merged = upsert_servers(
        &base,
        vec![
            http_server("gamma", "https://g1.example/mcp"),
            http_server(" beta ", "https://b2.example/mcp"),
            http_server("delta", "https://d.example/mcp"),
            http_server("gamma", "https://g2.example/mcp"),
        ],
    )
    .expect("upsert");
    let ids: Vec<&str> = merged.servers.iter().map(|s| s.id.as_str()).collect();
    assert_eq!(ids, vec!["alpha", "beta", "gamma", "delta"]);
    assert_eq!(merged.servers[0].url, "https://a.example/mcp");
    assert_eq!(merged.servers[1].url, "https://b2.example/mcp");
    assert_eq!(merged.servers[2].url, "https://g2.example/mcp");
}
