//! Decisions around desktop Pi sessions and bound chat channels: who may speak in a team
//! session, how a stream is stopped, how long Pi may linger after its output ends, and which
//! bound IM channels start by themselves.
use vstd::prelude::*;
use crate::text::{chars_eq, chars_eq_str, chars_to_string, push_all, push_str, str_chars, trim, trimmed_chars};
use crate::json_value::{JsonValue, JsonModel, digits_value, is_digit, fields_model};
use crate::media_directives::all_digits;

verus! {

/// Why an agent may not speak in a team session.
pub open spec fn member_only_error(agent_id: Seq<char>, workspace_id: Seq<char>) -> Seq<char> {
    "WORKSPACE_MEMBER_ONLY: 智能体 `"@ + agent_id + "` 不是团队 `"@ + workspace_id
        + "` 的成员，无法在该团队会话中发言"@
}

/// Whether an agent may speak in a team session: always when its trimmed id is blank or the team
/// is unknown (`supervisor` is `None`); else when it is the team's supervisor or a member.
pub open spec fn may_speak_in_team(
    agent_id: Seq<char>,
    supervisor: Option<Seq<char>>,
    members: Seq<Seq<char>>,
) -> bool {
    let a = trim(agent_id);
    match supervisor {
        None => true,
        Some(s) => a.len() == 0 || s == a || members.contains(a),
    }
}

/// Checks that an agent belongs to the team of a team session (see `may_speak_in_team`); the
/// error names the trimmed agent id and the team.
pub fn check_workspace_member(
    agent_id: &str,
    workspace_id: &str,
    supervisor_agent_id: Option<&str>,
    member_agent_ids: &Vec<String>,
) -> (r: Result<(), String>)
    ensures
        ({
            let members = member_agent_ids@.map_values(|m: String| m@);
            let sup = match supervisor_agent_id {
                Some(s) => Some(s@),
                None => None,
            };
            if may_speak_in_team(agent_id@, sup, members) {
                r is Ok
            } else {
                r matches Err(e) && e@ == member_only_error(trim(agent_id@), workspace_id@)
            }
        }),
{
    let ghost members = member_agent_ids@.map_values(|m: String| m@);
    let a = trimmed_chars(agent_id);
    let sup = match supervisor_agent_id {
        Some(s) => s,
        None => {
            return Ok(());
        },
    };
    if a.len() == 0 || chars_eq(&str_chars(sup), &a) {
        return Ok(());
    }
    let mut i: usize = 0;
    while i < member_agent_ids.len()
        invariant
            i <= member_agent_ids.len(),
            a@ == trim(agent_id@),
            members == member_agent_ids@.map_values(|m: String| m@),
            forall|j: int| 0 <= j < i ==> members[j] != a@,
        decreases member_agent_ids.len() - i,
    {
        if chars_eq(&str_chars(member_agent_ids[i].as_str()), &a) {
            assert(members[i as int] == a@);
            return Ok(());
        }
        i = i + 1;
    }
    assert(!members.contains(a@));
    let mut msg = str_chars("WORKSPACE_MEMBER_ONLY: 智能体 `");
    push_all(&mut msg, &a);
    push_str(&mut msg, "` 不是团队 `");
    push_str(&mut msg, workspace_id);
    push_str(&mut msg, "` 的成员，无法在该团队会话中发言");
    Err(chars_to_string(&msg))
}

/// The session to stop: the trimmed session id, which must not be blank.
pub fn stop_session_id(session_id: Option<&str>) -> (r: Result<String, String>)
    ensures
        match session_id {
            Some(s) if trim(s@).len() > 0 => r matches Ok(t) && t@ == trim(s@),
            _ => r matches Err(e) && e@ == "缺少要停止的会话 ID"@,
        },
{
    match session_id {
        Some(s) => {
            let t = trimmed_chars(s);
            if t.len() > 0 {
                return Ok(chars_to_string(&t));
            }
        },
        None => {},
    }
    Err("缺少要停止的会话 ID".to_owned())
}

/// The RPC command that asks Pi to abort a session's run: `{"id": "abort-<session>", "type":
/// "abort"}`.
pub open spec fn abort_command_model(session_id: Seq<char>) -> JsonModel {
    JsonModel::Object(
        seq![
            ("id"@, JsonModel::Str("abort-"@ + session_id)),
            ("type"@, JsonModel::Str("abort"@)),
        ],
    )
}

/// Builds the RPC abort command for a session (see `abort_command_model`).
pub fn abort_command(session_id: &str) -> (r: JsonValue)
    ensures
        r@ == abort_command_model(session_id@),
{
    let mut id = str_chars("abort-");
    push_str(&mut id, session_id);
    let members = vec![
        ("id".to_owned(), JsonValue::Str(chars_to_string(&id))),
        ("type".to_owned(), JsonValue::Str("abort".to_owned())),
    ];
    proof {
        reveal_with_fuel(fields_model, 3);
    }
    assert(fields_model(members@) =~= abort_command_model(session_id@)->Object_0);
    JsonValue::Object(members)
}

/// The value of a decimal integer as Rust's unsigned `from_str` reads it: an optional `+` and at
/// least one digit (leading zeros allowed); `None` for anything else.
pub open spec fn decimal_text_value(t: Seq<char>) -> Option<nat> {
    let d = unsigned_part(t);
    if d.len() > 0 && all_digits(d) {
        Some(digits_value(d))
    } else {
        None
    }
}

/// The text after an optional leading `+`.
pub open spec fn unsigned_part(t: Seq<char>) -> Seq<char> {
    if t.len() > 0 && t[0] == '+' {
        t.drop_first()
    } else {
        t
    }
}

proof fn lemma_digits_prefix_le(t: Seq<char>, j: int)
    requires
        0 <= j <= t.len(),
        forall|i: int| 0 <= i < t.len() ==> is_digit(#[trigger] t[i]),
    ensures
        digits_value(t.take(j)) <= digits_value(t),
    decreases t.len() - j,
{
    if j < t.len() {
        assert(t.take(j + 1).drop_last() =~= t.take(j));
        assert(is_digit(t[j]));
        lemma_digits_prefix_le(t, j + 1);
    } else {
        assert(t.take(j) =~= t);
    }
}

/// Reads a trimmed environment value as an unsigned 64-bit number: `Some` when it is a decimal
/// integer (see `decimal_text_value`) that fits.
pub fn parse_env_u64(raw: &str) -> (r: Option<u64>)
    ensures
        r == (match decimal_text_value(trim(raw@)) {
            Some(v) => if v <= u64::MAX {
                Some(v as u64)
            } else {
                None
            },
            None => None,
        }),
{
    let t = trimmed_chars(raw);
    let start: usize = if t.len() > 0 && t[0] == '+' {
        1
    } else {
        0
    };
    let ghost d = unsigned_part(t@);
    assert(d =~= t@.skip(start as int));
    if start >= t.len() {
        return None;
    }
    let mut i = start;
    while i < t.len()
        invariant
            start <= i <= t.len(),
            t@ == trim(raw@),
            start == (if t@.len() > 0 && t@[0] == '+' { 1int } else { 0int }),
            d == t@.skip(start as int),
            d == unsigned_part(t@),
            forall|k: int| 0 <= k < i - start ==> is_digit(#[trigger] d[k]),
        decreases t.len() - i,
    {
        if !('0' <= t[i] && t[i] <= '9') {
            assert(d[i - start] == t@[i as int]);
            assert(!is_digit(d[i - start]));

            return None;
        }
        i = i + 1;
    }
    let mut acc: u64 = 0;
    let mut j = start;
    while j < t.len()
        invariant
            start <= j <= t.len(),
            t@ == trim(raw@),
            d == t@.skip(start as int),
            d == unsigned_part(t@),
            d.len() > 0,
            forall|k: int| 0 <= k < d.len() ==> is_digit(#[trigger] d[k]),
            acc as nat == digits_value(d.take(j - start)),
        decreases t.len() - j,
    {
        assert(d.take(j + 1 - start).drop_last() =~= d.take(j - start));
        assert(d[j - start] == t@[j as int]);
        assert(is_digit(d[j - start]));
        let dig: u64 = (t[j] as u32 - 48) as u64;
        assert(dig as nat == (d[j - start] as nat - 48) as nat);
        assert(digits_value(d.take(j + 1 - start)) == acc * 10 + dig);
        match acc.checked_mul(10) {
            Some(m) => match m.checked_add(dig) {
                Some(next) => {
                    acc = next;
                },
                None => {
                    proof {
                        lemma_digits_prefix_le(d, j + 1 - start);
                    }
                    return None;
                },
            },
            None => {
                proof {
                    lemma_digits_prefix_le(d, j + 1 - start);
                }
                return None;
            },
        }
        j = j + 1;
    }
    assert(d.take(d.len() as int) =~= d);
    Some(acc)
}

/// How long Pi may keep running after its output closed, in seconds: the configured value when
/// it reads as a number, else 600, kept between 5 and 600.
pub open spec fn eof_exit_wait_secs(raw: Option<Seq<char>>) -> u64 {
    let v: u64 = match raw {
        Some(t) => match decimal_text_value(trim(t)) {
            Some(n) => if n <= u64::MAX {
                n as u64
            } else {
                600
            },
            None => 600,
        },
        None => 600,
    };
    if v < 5 {
        5
    } else if v > 600 {
        600
    } else {
        v
    }
}

/// The wait after Pi's output closes (see `eof_exit_wait_secs`), from the configured value.
pub fn desktop_pi_after_stdout_eof_exit_wait_secs(raw: Option<&str>) -> (r: u64)
    ensures
        r == eof_exit_wait_secs(
            match raw {
                Some(t) => Some(t@),
                None => None,
            },
        ),
{
    let v: u64 = match raw {
        Some(t) => match parse_env_u64(t) {
            Some(n) => n,
            None => 600,
        },
        None => 600,
    };
    if v < 5 {
        5
    } else if v > 600 {
        600
    } else {
        v
    }
}

/// A bound IM channel to start.
pub enum ImStart {
    /// A WeChat channel with its bot token, optional base URL and route tag.
    Wechat {
        channel_id: String,
        agent_id: String,
        token: String,
        base_url: Option<String>,
        route_tag: Option<String>,
    },
    /// A Lark channel with its trimmed app id and secret.
    Lark { channel_id: String, agent_id: String, app_id: String, app_secret: String },
}

pub open spec fn opt_string_view(o: Option<String>) -> Option<Seq<char>> {
    match o {
        Some(s) => Some(s@),
        None => None,
    }
}

pub open spec fn opt_view(o: Option<&str>) -> Option<Seq<char>> {
    match o {
        Some(s) => Some(s@),
        None => None,
    }
}

/// Whether a bound channel starts by itself: it is not paused and its credentials are there (a
/// non-blank WeChat token; a non-blank Lark app id and secret).
pub open spec fn im_starts(
    channel: Seq<char>,
    paused: bool,
    token: Option<Seq<char>>,
    client_id: Seq<char>,
    client_secret: Seq<char>,
) -> bool {
    !paused && ((channel == "wechat"@ && token is Some && trim(token.unwrap()).len() > 0) || (
    channel == "lark"@ && trim(client_id).len() > 0 && trim(client_secret).len() > 0))
}

/// What to start for an agent's bound channel, if anything (see `im_starts`). A WeChat channel
/// keeps its token as given and takes the configured base URL, or else the client secret when
/// that is not blank; a Lark channel takes the trimmed app id and secret. The channel id is the
/// channel name, `:` and the agent id; a WeChat channel passes its route tag on. The caller
/// still checks the agent's LLM runtime first.
pub fn im_auto_start_plan(
    agent_id: &str,
    channel: &str,
    paused: bool,
    token: Option<&str>,
    client_id: &str,
    client_secret: &str,
    base_url: Option<&str>,
    route_tag: Option<&str>,
) -> (r: Option<ImStart>)
    ensures
        r is Some == im_starts(channel@, paused, opt_view(token), client_id@, client_secret@),
        r matches Some(ImStart::Wechat { channel_id, agent_id: a, token: t, base_url: b, route_tag: g }) ==> {
            &&& channel@ == "wechat"@
            &&& channel_id@ == "wechat:"@ + agent_id@
            &&& a@ == agent_id@
            &&& Some(t@) == opt_view(token)
            &&& opt_string_view(g) == opt_view(route_tag)
            &&& match base_url {
                Some(u) => b matches Some(v) && v@ == u@,
                None => if trim(client_secret@).len() > 0 {
                    b matches Some(v) && v@ == client_secret@
                } else {
                    b is None
                },
            }
        },
        r matches Some(ImStart::Lark { channel_id, agent_id: a, app_id, app_secret }) ==> {
            &&& channel@ == "lark"@
            &&& channel_id@ == "lark:"@ + agent_id@
            &&& a@ == agent_id@
            &&& app_id@ == trim(client_id@)
            &&& app_secret@ == trim(client_secret@)
        },
{
    proof {
        reveal_strlit("wechat");
        reveal_strlit("lark");
    }
    if paused {
        return None;
    }
    let ch = str_chars(channel);
    if chars_eq_str(&ch, "wechat") {
        assert("wechat"@.len() == 6 && "lark"@.len() == 4);
        assert(channel@ != "lark"@);
        let t = match token {
            Some(t) => t,
            None => {
                return None;
            },
        };
        if trimmed_chars(t).len() == 0 {
            return None;
        }
        let b = match base_url {
            Some(u) => Some(u.to_owned()),
            None => if trimmed_chars(client_secret).len() > 0 {
                Some(client_secret.to_owned())
            } else {
                None
            },
        };
        let mut id = str_chars("wechat:");
        push_str(&mut id, agent_id);
        return Some(
            ImStart::Wechat {
                channel_id: chars_to_string(&id),
                agent_id: agent_id.to_owned(),
                token: t.to_owned(),
                base_url: b,
                route_tag: match route_tag {
                    Some(g) => Some(g.to_owned()),
                    None => None,
                },
            },
        );
    }
    if chars_eq_str(&ch, "lark") {
        let app_id = trimmed_chars(client_id);
        let app_secret = trimmed_chars(client_secret);
        if app_id.len() == 0 || app_secret.len() == 0 {
            return None;
        }
        let mut id = str_chars("lark:");
        push_str(&mut id, agent_id);
        return Some(
            ImStart::Lark {
                channel_id: chars_to_string(&id),
                agent_id: agent_id.to_owned(),
                app_id: chars_to_string(&app_id),
                app_secret: chars_to_string(&app_secret),
            },
        );
    }
    None
}

} // verus!
