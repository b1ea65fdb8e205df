use nineclaw::desktop_session::{
    abort_command, check_workspace_member, desktop_pi_after_stdout_eof_exit_wait_secs,
    im_auto_start_plan, parse_env_u64, stop_session_id, ImStart,
};
use nineclaw::json_value::JsonValue;
use nineclaw::memory_tools::merged_memory_content;
use nineclaw::runtime_extension::build_managed_runtime_extension_source;

#[test]
fn team_members_and_the_supervisor_may_speak() {
    let members = vec!["agent_a".to_string(), "agent_b".to_string()];
    assert!(check_workspace_member(" agent_a ", "ws", Some("boss"), &members).is_ok());
    assert!(check_workspace_member("boss", "ws", Some("boss"), &members).is_ok());
    assert!(check_workspace_member("  ", "ws", Some("boss"), &members).is_ok());
    assert!(check_workspace_member("stranger", "ws", None, &members).is_ok());
}

#[test]
fn outsiders_are_refused_in_team_sessions() {
    let members = vec!["agent_a".to_string()];
    assert_eq!(
        check_workspace_member(" stranger ", "ws-1", Some("boss"), &members),
        Err("WORKSPACE_MEMBER_ONLY: 智能体 `stranger` 不是团队 `ws-1` 的成员，无法在该团队会话中发言".to_string())
    );
}

#[test]
fn stopping_needs_a_session_id() {
    assert_eq!(stop_session_id(Some("  s-1 ")), Ok("s-1".to_string()));
    assert_eq!(stop_session_id(Some("   ")), Err("缺少要停止的会话 ID".to_string()));
    assert_eq!(stop_session_id(None), Err("缺少要停止的会话 ID".to_string()));
}

#[test]
fn abort_command_names_the_session() {
    match abort_command("s-1") {
        JsonValue::Object(fields) => {
            assert_eq!(fields.len(), 2);
            assert_eq!(fields[0].0, "id");
            assert!(matches!(&fields[0].1, JsonValue::Str(s) if s == "abort-s-1"));
            assert_eq!(fields[1].0, "type");
            assert!(matches!(&fields[1].1, JsonValue::Str(s) if s == "abort"));
        }
        _ => panic!("abort command is an object"),
    }
}

#[test]
fn env_numbers_parse_as_unsigned_integers() {
    assert_eq!(parse_env_u64(" 42 "), Some(42));
    assert_eq!(parse_env_u64("+7"), Some(7));
    assert_eq!(parse_env_u64("007"), Some(7));
    assert_eq!(parse_env_u64("18446744073709551615"), Some(u64::MAX));
    assert_eq!(parse_env_u64("18446744073709551616"), None);
    assert_eq!(parse_env_u64("-1"), None);
    assert_eq!(parse_env_u64("+"), None);
    assert_eq!(parse_env_u64(""), None);
    assert_eq!(parse_env_u64("1 2"), None);
}

#[test]
fn eof_exit_wait_is_clamped() {
    assert_eq!(desktop_pi_after_stdout_eof_exit_wait_secs(None), 600);
    assert_eq!(desktop_pi_after_stdout_eof_exit_wait_secs(Some("30")), 30);
    assert_eq!(desktop_pi_after_stdout_eof_exit_wait_secs(Some("1")), 5);
    assert_eq!(desktop_pi_after_stdout_eof_exit_wait_secs(Some("100000")), 600);
    assert_eq!(desktop_pi_after_stdout_eof_exit_wait_secs(Some("soon")), 600);
}

#[test]
fn wechat_channels_start_with_a_token() {
    match im_auto_start_plan("a1", "wechat", false, Some(" tok "), "", "https://wx.example", None, Some("rt")) {
        Some(ImStart::Wechat { channel_id, agent_id, token, base_url, route_tag }) => {
            assert_eq!(route_tag.as_deref(), Some("rt"));
            assert_eq!(channel_id, "wechat:a1");
            assert_eq!(agent_id, "a1");
            assert_eq!(token, " tok ");
            assert_eq!(base_url.as_deref(), Some("https://wx.example"));
        }
        _ => panic!("wechat channel starts"),
    }
    match im_auto_start_plan("a1", "wechat", false, Some("tok"), "", "  ", Some("https://cfg"), None) {
        Some(ImStart::Wechat { base_url, .. }) => assert_eq!(base_url.as_deref(), Some("https://cfg")),
        _ => panic!("wechat channel starts"),
    }
    match im_auto_start_plan("a1", "wechat", false, Some("tok"), "", "  ", None, None) {
        Some(ImStart::Wechat { base_url, .. }) => assert_eq!(base_url, None),
        _ => panic!("wechat channel starts"),
    }
    assert!(im_auto_start_plan("a1", "wechat", false, Some("  "), "", "", None, None).is_none());
    assert!(im_auto_start_plan("a1", "wechat", false, None, "", "", None, None).is_none());
    assert!(im_auto_start_plan("a1", "wechat", true, Some("tok"), "", "", None, None).is_none());
}

#[test]
fn lark_channels_start_with_trimmed_credentials() {
    match im_auto_start_plan("a2", "lark", false, None, " id ", " secret ", None, None) {
        Some(ImStart::Lark { channel_id, agent_id, app_id, app_secret }) => {
            assert_eq!(channel_id, "lark:a2");
            assert_eq!(agent_id, "a2");
            assert_eq!(app_id, "id");
            assert_eq!(app_secret, "secret");
        }
        _ => panic!("lark channel starts"),
    }
    assert!(im_auto_start_plan("a2", "lark", false, None, " ", "secret", None, None).is_none());
    assert!(im_auto_start_plan("a2", "slack", false, Some("tok"), "id", "secret", None, None).is_none());
}

#[test]
fn runtime_extension_escapes_control_characters_in_the_path() {
    let source = build_managed_runtime_extension_source("/tmp/a\u{1}b\tc\"d\\e/index.mjs").expect("source");
    assert!(source.contains(r#""/tmp/a\u0001b\tc\"d\\e/index.mjs""#));
}

#[test]
fn memory_updates_append_on_a_new_line_or_replace() {
    assert_eq!(merged_memory_content("a", "b", "append"), "a\nb");
    assert_eq!(merged_memory_content("a\n", "b", "append"), "a\nb");
    assert_eq!(merged_memory_content("", "b", "append"), "b");
    assert_eq!(merged_memory_content("a", "b", "replace"), "b");
}
