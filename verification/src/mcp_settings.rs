//! MCP server settings: normalising, validating and editing the server list.
use vstd::prelude::*;
use crate::json_value::{JsonValue, JsonModel, fields_model, items_model};
use crate::text::{chars_eq, chars_to_string, push_all, push_str, str_chars, trim, trimmed_chars};

verus! {

/// How the runtime talks to an MCP server.
#[derive(Debug, Clone, Copy, PartialEq, Eq, Structural, Default)]
pub enum McpTransportType {
    Stdio,
    #[default]
    StreamableHttp,
    Sse,
}

/// One configured MCP server. `env` and `headers` are name/value pairs with distinct names.
#[derive(Debug, Clone, PartialEq, Eq, Default)]
pub struct McpServerConfig {
    pub id: String,
    pub name: String,
    pub transport: McpTransportType,
    pub enabled: bool,
    pub command: String,
    pub args: Vec<String>,
    pub env: Vec<(String, String)>,
    pub cwd: String,
    pub url: String,
    pub headers: Vec<(String, String)>,
}

/// The configured MCP servers, in order.
#[derive(Debug, Clone, PartialEq, Eq, Default)]
pub struct McpSettings {
    pub servers: Vec<McpServerConfig>,
}

/// The abstract content of a server entry.
pub struct ServerView {
    pub id: Seq<char>,
    pub name: Seq<char>,
    pub transport: McpTransportType,
    pub enabled: bool,
    pub command: Seq<char>,
    pub args: Seq<Seq<char>>,
    pub env: Seq<(Seq<char>, Seq<char>)>,
    pub cwd: Seq<char>,
    pub url: Seq<char>,
    pub headers: Seq<(Seq<char>, Seq<char>)>,
}

pub open spec fn record_view(r: Seq<(String, String)>) -> Seq<(Seq<char>, Seq<char>)> {
    r.map_values(|p: (String, String)| (p.0@, p.1@))
}

pub open spec fn strings_view(v: Seq<String>) -> Seq<Seq<char>> {
    v.map_values(|s: String| s@)
}

impl View for McpServerConfig {
    type V = ServerView;

    open spec fn view(&self) -> ServerView {
        ServerView {
            id: self.id@,
            name: self.name@,
            transport: self.transport,
            enabled: self.enabled,
            command: self.command@,
            args: strings_view(self.args@),
            env: record_view(self.env@),
            cwd: self.cwd@,
            url: self.url@,
            headers: record_view(self.headers@),
        }
    }
}

pub open spec fn servers_view(v: Seq<McpServerConfig>) -> Seq<ServerView> {
    v.map_values(|s: McpServerConfig| s@)
}

impl View for McpSettings {
    type V = Seq<ServerView>;

    open spec fn view(&self) -> Seq<ServerView> {
        servers_view(self.servers@)
    }
}

/// Position of the entry named `k`, or -1.
pub open spec fn key_index(m: Seq<(Seq<char>, Seq<char>)>, k: Seq<char>) -> int
    decreases m.len(),
{
    if m.len() == 0 {
        -1
    } else if m.last().0 == k {
        m.len() - 1
    } else {
        key_index(m.drop_last(), k)
    }
}

/// `m` with `k` set to `v`: an existing entry keeps its place, a new one goes last.
pub open spec fn record_insert(m: Seq<(Seq<char>, Seq<char>)>, k: Seq<char>, v: Seq<char>) -> Seq<
    (Seq<char>, Seq<char>),
> {
    if key_index(m, k) >= 0 {
        m.update(key_index(m, k), (k, v))
    } else {
        m.push((k, v))
    }
}

/// Entries with blank names or values dropped and the rest trimmed; a name that recurs after
/// trimming keeps its last value.
pub open spec fn trimmed_record(entries: Seq<(Seq<char>, Seq<char>)>) -> Seq<(Seq<char>, Seq<char>)>
    decreases entries.len(),
{
    if entries.len() == 0 {
        Seq::empty()
    } else {
        let prev = trimmed_record(entries.drop_last());
        let k = trim(entries.last().0);
        let v = trim(entries.last().1);
        if k.len() == 0 || v.len() == 0 {
            prev
        } else {
            record_insert(prev, k, v)
        }
    }
}

/// The names in a record are distinct.
pub open spec fn distinct_keys(m: Seq<(Seq<char>, Seq<char>)>) -> bool {
    forall|i: int, j: int| 0 <= i < j < m.len() ==> m[i].0 != m[j].0
}

/// The non-empty trimmed arguments, in order.
pub open spec fn trimmed_args(args: Seq<Seq<char>>) -> Seq<Seq<char>>
    decreases args.len(),
{
    if args.len() == 0 {
        Seq::empty()
    } else {
        let prev = trimmed_args(args.drop_last());
        if trim(args.last()).len() == 0 {
            prev
        } else {
            prev.push(trim(args.last()))
        }
    }
}

/// A server entry with every text field trimmed and empty arguments and blank env/header
/// entries removed.
pub open spec fn normalized(s: ServerView) -> ServerView {
    ServerView {
        id: trim(s.id),
        name: trim(s.name),
        transport: s.transport,
        enabled: s.enabled,
        command: trim(s.command),
        args: trimmed_args(s.args),
        env: trimmed_record(s.env),
        cwd: trim(s.cwd),
        url: trim(s.url),
        headers: trimmed_record(s.headers),
    }
}

pub proof fn lemma_key_index_bounds(m: Seq<(Seq<char>, Seq<char>)>, k: Seq<char>)
    ensures
        -1 <= key_index(m, k) < m.len(),
        key_index(m, k) >= 0 ==> m[key_index(m, k)].0 == k,
        key_index(m, k) < 0 ==> forall|i: int| 0 <= i < m.len() ==> m[i].0 != k,
    decreases m.len(),
{
    if m.len() > 0 {
        lemma_key_index_bounds(m.drop_last(), k);
        if key_index(m, k) < 0 {
            assert forall|i: int| 0 <= i < m.len() implies m[i].0 != k by {
                if i < m.len() - 1 {
                    assert(m[i] == m.drop_last()[i]);
                }
            }
        }
    }
}

pub proof fn lemma_trimmed_record_distinct(entries: Seq<(Seq<char>, Seq<char>)>)
    ensures
        distinct_keys(trimmed_record(entries)),
    decreases entries.len(),
{
    if entries.len() > 0 {
        let prev = trimmed_record(entries.drop_last());
        lemma_trimmed_record_distinct(entries.drop_last());
        lemma_key_index_bounds(prev, trim(entries.last().0));
    }
}

fn find_key(m: &Vec<(String, String)>, k: &[char]) -> (r: Option<usize>)
    ensures
        match r {
            Some(i) => i as int == key_index(record_view(m@), k@),
            None => key_index(record_view(m@), k@) < 0,
        },
{
    let ghost mv = record_view(m@);
    let mut j: usize = m.len();
    assert(mv.take(j as int) =~= mv);
    while j > 0
        invariant
            j <= m.len(),
            mv == record_view(m@),
            key_index(mv.take(j as int), k@) == key_index(mv, k@),
        decreases j,
    {
        let name = str_chars(m[j - 1].0.as_str());
        assert(mv.take(j as int).last() == mv[j - 1]);
        if chars_eq(&name, k) {
            return Some(j - 1);
        }
        assert(mv.take(j as int).drop_last() =~= mv.take(j - 1));
        j = j - 1;
    }
    None
}

/// Trims a name/value record and drops blank entries.
pub fn trim_record(value: Vec<(String, String)>) -> (r: Vec<(String, String)>)
    ensures
        record_view(r@) == trimmed_record(record_view(value@)),
        distinct_keys(record_view(r@)),
{
    let ghost vv = record_view(value@);
    let mut out: Vec<(String, String)> = Vec::new();
    let mut i: usize = 0;
    while i < value.len()
        invariant
            i <= value.len(),
            vv == record_view(value@),
            record_view(out@) == trimmed_record(vv.take(i as int)),
        decreases value.len() - i,
    {
        assert(vv.take(i + 1).drop_last() =~= vv.take(i as int));
        assert(vv.take(i + 1).last() == vv[i as int]);
        let k = trimmed_chars(value[i].0.as_str());
        let v = trimmed_chars(value[i].1.as_str());
        if k.len() > 0 && v.len() > 0 {
            let ghost before = record_view(out@);
            let ks = chars_to_string(&k);
            let vs = chars_to_string(&v);
            proof {
                lemma_key_index_bounds(before, k@);
            }
            match find_key(&out, &k) {
                Some(idx) => {
                    out.set(idx, (ks, vs));
                    assert(record_view(out@) =~= before.update(idx as int, (k@, v@)));
                },
                None => {
                    out.push((ks, vs));
                    assert(record_view(out@) =~= before.push((k@, v@)));
                },
            }
        }
        i = i + 1;
    }
    assert(vv.take(value.len() as int) =~= vv);
    proof {
        lemma_trimmed_record_distinct(vv);
    }
    out
}

fn trim_args(args: &Vec<String>) -> (r: Vec<String>)
    ensures
        strings_view(r@) == trimmed_args(strings_view(args@)),
{
    let ghost av = strings_view(args@);
    let mut out: Vec<String> = Vec::new();
    let mut i: usize = 0;
    while i < args.len()
        invariant
            i <= args.len(),
            av == strings_view(args@),
            strings_view(out@) == trimmed_args(av.take(i as int)),
        decreases args.len() - i,
    {
        assert(av.take(i + 1).drop_last() =~= av.take(i as int));
        let t = trimmed_chars(args[i].as_str());
        if t.len() > 0 {
            let ghost before = strings_view(out@);
            out.push(chars_to_string(&t));
            assert(strings_view(out@) =~= before.push(t@));
        }
        i = i + 1;
    }
    assert(av.take(args.len() as int) =~= av);
    out
}

fn trim_string(s: &String) -> (r: String)
    ensures
        r@ == trim(s@),
{
    let t = trimmed_chars(s.as_str());
    chars_to_string(&t)
}

/// Trims every field of a server entry.
pub fn normalize_server(server: McpServerConfig) -> (r: McpServerConfig)
    ensures
        r@ == normalized(server@),
{
    let args = trim_args(&server.args);
    let env = trim_record(server.env);
    let headers = trim_record(server.headers);
    McpServerConfig {
        id: trim_string(&server.id),
        name: trim_string(&server.name),
        transport: server.transport,
        enabled: server.enabled,
        command: trim_string(&server.command),
        args,
        env,
        cwd: trim_string(&server.cwd),
        url: trim_string(&server.url),
        headers,
    }
}

} // verus!

verus! {

/// What parsing a URL with `reqwest::Url::parse` yields: its scheme, or the parse error's text.
pub uninterp spec fn url_parse(s: Seq<char>) -> Result<Seq<char>, Seq<char>>;

pub open spec fn result_view(r: Result<String, String>) -> Result<Seq<char>, Seq<char>> {
    match r {
        Ok(s) => Ok(s@),
        Err(e) => Err(e@),
    }
}

/// Calls `reqwest::Url::parse` and returns the parsed URL's scheme, or the error's message.
#[verifier::external_body]
fn parse_url_scheme(url: &str) -> (r: Result<String, String>)
    ensures
        result_view(r) == url_parse(url@),
{
    match reqwest::Url::parse(url) {
        Ok(parsed) => Ok(parsed.scheme().to_string()),
        Err(error) => Err(error.to_string()),
    }
}

pub open spec fn msg_empty_id() -> Seq<char> {
    "MCP server id 不能为空"@
}

/// What is wrong with a server entry, if anything: no id; a stdio server without a command;
/// an HTTP server without a URL, with a URL that does not parse, or with a scheme other than
/// `http`/`https`.
pub open spec fn server_problem(s: ServerView) -> Option<Seq<char>> {
    if s.id.len() == 0 {
        Some(msg_empty_id())
    } else {
        match s.transport {
            McpTransportType::Stdio => if s.command.len() == 0 {
                Some("MCP server `"@ + s.id + "` 的 command 不能为空"@)
            } else {
                None
            },
            _ => if s.url.len() == 0 {
                Some("MCP server `"@ + s.id + "` 的 url 不能为空"@)
            } else {
                match url_parse(s.url) {
                    Err(e) => Some("MCP server `"@ + s.id + "` 的 url 非法: "@ + e),
                    Ok(scheme) => if scheme != "http"@ && scheme != "https"@ {
                        Some("MCP server `"@ + s.id + "` 的 url 只支持 http / https"@)
                    } else {
                        None
                    },
                }
            },
        }
    }
}

fn server_message(id: &String, tail: &str) -> (r: String)
    ensures
        r@ == "MCP server `"@ + id@ + tail@,
{
    let mut m = str_chars("MCP server `");
    push_str(&mut m, id.as_str());
    push_str(&mut m, tail);
    chars_to_string(&m)
}

/// Checks one server entry.
pub fn validate_server(server: &McpServerConfig) -> (r: Result<(), String>)
    ensures
        match server_problem(server@) {
            Some(e) => r matches Err(m) && m@ == e,
            None => r is Ok,
        },
{
    if server.id.as_str().is_empty() {
        return Err("MCP server id 不能为空".to_owned());
    }
    match server.transport {
        McpTransportType::Stdio => {
            if server.command.as_str().is_empty() {
                return Err(server_message(&server.id, "` 的 command 不能为空"));
            }
        },
        McpTransportType::StreamableHttp | McpTransportType::Sse => {
            if server.url.as_str().is_empty() {
                return Err(server_message(&server.id, "` 的 url 不能为空"));
            }
            match parse_url_scheme(server.url.as_str()) {
                Err(error) => {
                    let mut m = str_chars("MCP server `");
                    push_str(&mut m, server.id.as_str());
                    push_str(&mut m, "` 的 url 非法: ");
                    push_str(&mut m, error.as_str());
                    return Err(chars_to_string(&m));
                },
                Ok(scheme) => {
                    let sc = str_chars(scheme.as_str());
                    if !crate::text::chars_eq_str(&sc, "http") && !crate::text::chars_eq_str(
                        &sc,
                        "https",
                    ) {
                        return Err(server_message(&server.id, "` 的 url 只支持 http / https"));
                    }
                },
            }
        },
    }
    Ok(())
}

/// Whether some entry has the id `id`.
pub open spec fn has_id(v: Seq<ServerView>, id: Seq<char>) -> bool {
    exists|i: int| 0 <= i < v.len() && v[i].id == id
}

/// Normalised entries in order, skipping those without an id and later repeats of an id.
pub open spec fn deduped(raw: Seq<ServerView>) -> Seq<ServerView>
    decreases raw.len(),
{
    if raw.len() == 0 {
        Seq::empty()
    } else {
        let prev = deduped(raw.drop_last());
        let n = normalized(raw.last());
        if n.id.len() == 0 || has_id(prev, n.id) {
            prev
        } else {
            prev.push(n)
        }
    }
}

fn contains_id(v: &Vec<McpServerConfig>, id: &String) -> (b: bool)
    ensures
        b == has_id(v@.map_values(|s: McpServerConfig| s@), id@),
{
    let ghost vv = v@.map_values(|s: McpServerConfig| s@);
    let target = str_chars(id.as_str());
    let mut i: usize = 0;
    while i < v.len()
        invariant
            i <= v.len(),
            vv == v@.map_values(|s: McpServerConfig| s@),
            target@ == id@,
            forall|j: int| 0 <= j < i ==> vv[j].id != id@,
        decreases v.len() - i,
    {
        let other = str_chars(v[i].id.as_str());
        assert(vv[i as int].id == v@[i as int].id@);
        if chars_eq(&other, &target) {
            return true;
        }
        i = i + 1;
    }
    false
}

/// Normalises every entry and drops entries without an id and repeated ids (the first wins).
pub fn normalize_settings(settings: McpSettings) -> (r: McpSettings)
    ensures
        r@ == deduped(settings@),
{
    let ghost sv = settings@;
    let mut servers: Vec<McpServerConfig> = Vec::new();
    let mut rest = settings.servers;
    let ghost all = rest@;
    let mut i: usize = 0;
    let n = rest.len();
    while i < n
        invariant
            i <= n,
            n == all.len(),
            sv == servers_view(all),
            servers_view(servers@) == deduped(sv.take(i as int)),
            rest@ == all,
        decreases n - i,
    {
        assert(sv.take(i + 1).drop_last() =~= sv.take(i as int));
        assert(sv.take(i + 1).last() == all[i as int]@);
        let raw = rest[i].clone_config();
        let normalized_server = normalize_server(raw);
        let ghost before = servers_view(servers@);
        if !normalized_server.id.as_str().is_empty() && !contains_id(&servers, &normalized_server.id) {
            servers.push(normalized_server);
            assert(servers_view(servers@) =~= before.push(normalized(all[i as int]@)));
        }
        i = i + 1;
    }
    assert(sv.take(n as int) =~= sv);
    McpSettings { servers }
}

/// The first problem among the entries, in order.
pub open spec fn settings_problem(v: Seq<ServerView>) -> Option<Seq<char>>
    decreases v.len(),
{
    if v.len() == 0 {
        None
    } else {
        match server_problem(v[0]) {
            Some(e) => Some(e),
            None => settings_problem(v.drop_first()),
        }
    }
}

/// Checks every entry and reports the first problem.
pub fn validate_settings(settings: &McpSettings) -> (r: Result<(), String>)
    ensures
        match settings_problem(settings@) {
            Some(e) => r matches Err(m) && m@ == e,
            None => r is Ok,
        },
{
    let ghost sv = settings@;
    let mut i: usize = 0;
    assert(sv.skip(0) =~= sv);
    while i < settings.servers.len()
        invariant
            i <= settings.servers.len(),
            sv == settings@,
            settings_problem(sv.skip(i as int)) == settings_problem(sv),
        decreases settings.servers.len() - i,
    {
        assert(sv.skip(i as int)[0] == settings.servers@[i as int]@);
        assert(sv.skip(i as int).drop_first() =~= sv.skip(i + 1));
        validate_server(&settings.servers[i])?;
        i = i + 1;
    }
    Ok(())
}

impl McpServerConfig {
    /// A copy of this entry.
    pub fn clone_config(&self) -> (r: McpServerConfig)
        ensures
            r@ == self@,
    {
        McpServerConfig {
            id: self.id.clone(),
            name: self.name.clone(),
            transport: self.transport,
            enabled: self.enabled,
            command: self.command.clone(),
            args: clone_strings(&self.args),
            env: copy_record(&self.env),
            cwd: self.cwd.clone(),
            url: self.url.clone(),
            headers: copy_record(&self.headers),
        }
    }
}

fn clone_strings(v: &Vec<String>) -> (r: Vec<String>)
    ensures
        strings_view(r@) == strings_view(v@),
{
    let mut out: Vec<String> = Vec::new();
    let mut i: usize = 0;
    while i < v.len()
        invariant
            i <= v.len(),
            strings_view(out@) =~= strings_view(v@.take(i as int)),
        decreases v.len() - i,
    {
        let c = v[i].clone();
        let ghost before = strings_view(out@);
        out.push(c);
        assert(strings_view(out@) =~= before.push(v@[i as int]@));
        assert(strings_view(v@.take(i + 1)) =~= strings_view(v@.take(i as int)).push(
            v@[i as int]@,
        ));
        i = i + 1;
    }
    assert(v@.take(v.len() as int) =~= v@);
    out
}

pub fn copy_record(v: &Vec<(String, String)>) -> (r: Vec<(String, String)>)
    ensures
        record_view(r@) == record_view(v@),
{
    let mut out: Vec<(String, String)> = Vec::new();
    let mut i: usize = 0;
    while i < v.len()
        invariant
            i <= v.len(),
            record_view(out@) =~= record_view(v@.take(i as int)),
        decreases v.len() - i,
    {
        let a = v[i].0.clone();
        let b = v[i].1.clone();
        let ghost before = record_view(out@);
        out.push((a, b));
        assert(record_view(out@) =~= before.push((v@[i as int].0@, v@[i as int].1@)));
        assert(record_view(v@.take(i + 1)) =~= record_view(v@.take(i as int)).push(
            (v@[i as int].0@, v@[i as int].1@),
        ));
        i = i + 1;
    }
    assert(v@.take(v.len() as int) =~= v@);
    out
}

} // verus!

verus! {

/// Position of the first entry with id `id`, or -1.
pub open spec fn first_id_index(v: Seq<ServerView>, id: Seq<char>) -> int
    decreases v.len(),
{
    if v.len() == 0 {
        -1
    } else if v[0].id == id {
        0
    } else {
        let r = first_id_index(v.drop_first(), id);
        if r < 0 {
            -1
        } else {
            r + 1
        }
    }
}

/// `v` with `n` in place of the first entry that has its id, or with `n` added at the end.
pub open spec fn placed(v: Seq<ServerView>, n: ServerView) -> Seq<ServerView> {
    if first_id_index(v, n.id) >= 0 {
        v.update(first_id_index(v, n.id), n)
    } else {
        v.push(n)
    }
}

/// Applies incoming entries one by one: each is normalised and checked (stopping at the first
/// problem) and then replaces the entry with its id or is added.
pub open spec fn merged_servers(v: Seq<ServerView>, incoming: Seq<ServerView>) -> Result<
    Seq<ServerView>,
    Seq<char>,
>
    decreases incoming.len(),
{
    if incoming.len() == 0 {
        Ok(v)
    } else {
        let n = normalized(incoming[0]);
        if n.id.len() == 0 {
            Err(msg_empty_id())
        } else {
            match server_problem(n) {
                Some(e) => Err(e),
                None => merged_servers(placed(v, n), incoming.drop_first()),
            }
        }
    }
}

/// The settings after inserting or updating servers by id, normalised and checked.
pub open spec fn upserted(v: Seq<ServerView>, incoming: Seq<ServerView>) -> Result<
    Seq<ServerView>,
    Seq<char>,
> {
    match merged_servers(v, incoming) {
        Err(e) => Err(e),
        Ok(m) => {
            let d = deduped(m);
            match settings_problem(d) {
                Some(e) => Err(e),
                None => Ok(d),
            }
        },
    }
}

pub proof fn lemma_first_id_index(v: Seq<ServerView>, id: Seq<char>)
    ensures
        -1 <= first_id_index(v, id) < v.len(),
        first_id_index(v, id) >= 0 ==> v[first_id_index(v, id)].id == id,
        forall|j: int| 0 <= j < first_id_index(v, id) ==> v[j].id != id,
        first_id_index(v, id) < 0 ==> forall|j: int| 0 <= j < v.len() ==> v[j].id != id,
    decreases v.len(),
{
    if v.len() > 0 && v[0].id != id {
        lemma_first_id_index(v.drop_first(), id);
        assert forall|j: int| 1 <= j < v.len() implies v[j] == v.drop_first()[j - 1] by {}
    }
}

fn find_server(v: &Vec<McpServerConfig>, id: &String) -> (r: Option<usize>)
    ensures
        match r {
            Some(i) => i as int == first_id_index(servers_view(v@), id@) && i < v.len(),
            None => first_id_index(servers_view(v@), id@) < 0,
        },
{
    let ghost vv = servers_view(v@);
    proof {
        lemma_first_id_index(vv, id@);
    }
    let target = str_chars(id.as_str());
    let mut i: usize = 0;
    while i < v.len()
        invariant
            i <= v.len(),
            vv == servers_view(v@),
            target@ == id@,
            forall|j: int| 0 <= j < i ==> vv[j].id != id@,
            -1 <= first_id_index(vv, id@) < vv.len(),
            first_id_index(vv, id@) >= 0 ==> vv[first_id_index(vv, id@)].id == id@,
            forall|j: int| 0 <= j < first_id_index(vv, id@) ==> vv[j].id != id@,
            first_id_index(vv, id@) < 0 ==> forall|j: int| 0 <= j < vv.len() ==> vv[j].id != id@,
        decreases v.len() - i,
    {
        let other = str_chars(v[i].id.as_str());
        assert(vv[i as int].id == v@[i as int].id@);
        if chars_eq(&other, &target) {
            return Some(i);
        }
        i = i + 1;
    }
    None
}

/// Inserts or updates the given servers (matched by id), then normalises and checks the result.
pub fn upsert_servers(settings: &McpSettings, incoming: Vec<McpServerConfig>) -> (r: Result<
    McpSettings,
    String,
>)
    ensures
        match upserted(settings@, servers_view(incoming@)) {
            Ok(v) => r matches Ok(s) && s@ == v,
            Err(e) => r matches Err(m) && m@ == e,
        },
{
    let mut servers: Vec<McpServerConfig> = Vec::new();
    let mut k: usize = 0;
    while k < settings.servers.len()
        invariant
            k <= settings.servers.len(),
            servers_view(servers@) =~= servers_view(settings.servers@.take(k as int)),
        decreases settings.servers.len() - k,
    {
        let c = settings.servers[k].clone_config();
        let ghost before = servers_view(servers@);
        servers.push(c);
        assert(servers_view(servers@) =~= before.push(settings.servers@[k as int]@));
        assert(servers_view(settings.servers@.take(k + 1)) =~= servers_view(
            settings.servers@.take(k as int),
        ).push(settings.servers@[k as int]@));
        k = k + 1;
    }
    assert(settings.servers@.take(settings.servers.len() as int) =~= settings.servers@);
    let ghost iv = servers_view(incoming@);
    let mut i: usize = 0;
    assert(iv.skip(0) =~= iv);
    while i < incoming.len()
        invariant
            i <= incoming.len(),
            iv == servers_view(incoming@),
            merged_servers(settings@, iv) == merged_servers(servers_view(servers@), iv.skip(i as int)),
        decreases incoming.len() - i,
    {
        assert(iv.skip(i as int)[0] == incoming@[i as int]@);
        assert(iv.skip(i as int).drop_first() =~= iv.skip(i + 1));
        let raw = incoming[i].clone_config();
        let normalized_server = normalize_server(raw);
        if normalized_server.id.as_str().is_empty() {
            return Err("MCP server id 不能为空".to_owned());
        }
        validate_server(&normalized_server)?;
        let ghost before = servers_view(servers@);
        proof {
            lemma_first_id_index(before, normalized_server.id@);
        }
        match find_server(&servers, &normalized_server.id) {
            Some(idx) => {
                servers.set(idx, normalized_server);
                assert(servers_view(servers@) =~= before.update(idx as int, normalized(iv[i as int])));
            },
            None => {
                servers.push(normalized_server);
                assert(servers_view(servers@) =~= before.push(normalized(iv[i as int])));
            },
        }
        i = i + 1;
    }
    assert(iv.skip(incoming.len() as int) =~= Seq::<ServerView>::empty());
    let merged = normalize_settings(McpSettings { servers });
    validate_settings(&merged)?;
    Ok(merged)
}

/// The entries whose id is not `id`, in order.
pub open spec fn without_id(v: Seq<ServerView>, id: Seq<char>) -> Seq<ServerView> {
    v.filter(|s: ServerView| s.id != id)
}

/// Removes the servers with the given (trimmed) id; also says whether any was removed.
pub fn remove_server(settings: &McpSettings, server_id: &str) -> (r: (McpSettings, bool))
    ensures
        r.0@ == without_id(settings@, trim(server_id@)),
        r.1 == (without_id(settings@, trim(server_id@)).len() != settings@.len()),
        r.1 == has_id(settings@, trim(server_id@)),
{
    let target = trimmed_chars(server_id);
    let ghost t = target@;
    let ghost sv = settings@;
    let mut servers: Vec<McpServerConfig> = Vec::new();
    let mut i: usize = 0;
    while i < settings.servers.len()
        invariant
            i <= settings.servers.len(),
            sv == settings@,
            t == target@,
            servers_view(servers@) == without_id(sv.take(i as int), t),
            servers@.len() <= i,
            (servers@.len() == i) == !has_id(sv.take(i as int), t),
        decreases settings.servers.len() - i,
    {
        let ghost before = servers_view(servers@);
        assert(sv.take(i + 1).drop_last() =~= sv.take(i as int));
        assert(sv.take(i + 1).last() == settings.servers@[i as int]@);
        reveal_with_fuel(Seq::filter, 1);
        let id = str_chars(settings.servers[i].id.as_str());
        if !chars_eq(&id, &target) {
            let c = settings.servers[i].clone_config();
            servers.push(c);
            assert(servers_view(servers@) =~= before.push(sv[i as int]));
        }
        proof {
            if has_id(sv.take(i + 1), t) && !has_id(sv.take(i as int), t) {
                let j = choose|j: int| #![trigger sv.take(i + 1)[j]] 0 <= j < i + 1 && sv.take(i + 1)[j].id == t;
                if j < i {
                    assert(sv.take(i as int)[j] == sv.take(i + 1)[j]);
                }
            }
            if has_id(sv.take(i as int), t) {
                let j = choose|j: int| #![trigger sv.take(i as int)[j]] 0 <= j < i && sv.take(i as int)[j].id == t;
                assert(sv.take(i + 1)[j] == sv.take(i as int)[j]);
            }
            if sv[i as int].id == t {
                assert(sv.take(i + 1)[i as int].id == t);
            }
        }
        i = i + 1;
    }
    assert(sv.take(settings.servers.len() as int) =~= sv);
    let removed = servers.len() != settings.servers.len();
    (McpSettings { servers }, removed)
}

/// An entry with `enabled` set when its id is `id`.
pub open spec fn with_enabled(s: ServerView, id: Seq<char>, enabled: bool) -> ServerView {
    if s.id == id {
        ServerView { enabled: enabled, ..s }
    } else {
        s
    }
}

/// Sets the `enabled` flag of the servers with the given (trimmed) id; also says whether any
/// server has that id.
pub fn set_server_enabled(settings: &McpSettings, server_id: &str, enabled: bool) -> (r: (
    McpSettings,
    bool,
))
    ensures
        r.0@ == settings@.map_values(|s: ServerView| with_enabled(s, trim(server_id@), enabled)),
        r.1 == has_id(settings@, trim(server_id@)),
{
    let target = trimmed_chars(server_id);
    let ghost t = target@;
    let ghost sv = settings@;
    let mut servers: Vec<McpServerConfig> = Vec::new();
    let mut found = false;
    let mut i: usize = 0;
    while i < settings.servers.len()
        invariant
            i <= settings.servers.len(),
            sv == settings@,
            t == target@,
            servers_view(servers@) =~= sv.take(i as int).map_values(
                |s: ServerView| with_enabled(s, t, enabled),
            ),
            found == has_id(sv.take(i as int), t),
        decreases settings.servers.len() - i,
    {
        let ghost before = servers_view(servers@);
        let mut c = settings.servers[i].clone_config();
        let id = str_chars(c.id.as_str());
        if chars_eq(&id, &target) {
            c.enabled = enabled;
            found = true;
        }
        servers.push(c);
        assert(servers_view(servers@) =~= before.push(with_enabled(sv[i as int], t, enabled)));
        assert(sv.take(i + 1).map_values(|s: ServerView| with_enabled(s, t, enabled)) =~= sv.take(
            i as int,
        ).map_values(|s: ServerView| with_enabled(s, t, enabled)).push(
            with_enabled(sv[i as int], t, enabled),
        ));
        proof {
            if has_id(sv.take(i + 1), t) && !has_id(sv.take(i as int), t) {
                let j = choose|j: int| #![trigger sv.take(i + 1)[j]] 0 <= j < i + 1 && sv.take(i + 1)[j].id == t;
                if j < i {
                    assert(sv.take(i as int)[j] == sv.take(i + 1)[j]);
                }
            }
            if has_id(sv.take(i as int), t) {
                let j = choose|j: int| #![trigger sv.take(i as int)[j]] 0 <= j < i && sv.take(i as int)[j].id == t;
                assert(sv.take(i + 1)[j] == sv.take(i as int)[j]);
            }
            if sv[i as int].id == t {
                assert(sv.take(i + 1)[i as int].id == t);
            }
        }
        i = i + 1;
    }
    assert(sv.take(settings.servers.len() as int) =~= sv);
    (McpSettings { servers }, found)
}

} // verus!

verus! {

/// Removing a server id leaves no server with that id and keeps every server with another id.
pub proof fn lemma_remove_server_drops_id(v: Seq<ServerView>, id: Seq<char>)
    ensures
        !has_id(without_id(v, id), id),
        forall|i: int| 0 <= i < v.len() && v[i].id != id ==> #[trigger] without_id(v, id).contains(v[i]),
{
    broadcast use vstd::seq_lib::group_filter_ensures;

    let w = without_id(v, id);
    if has_id(w, id) {
        let j = choose|j: int| 0 <= j < w.len() && w[j].id == id;
        assert(w[j].id != id);
    }
}

/// Setting a server's flag keeps every server's id and place: the servers with that id get the
/// flag and the others are unchanged.
pub proof fn lemma_set_enabled_keeps_ids(v: Seq<ServerView>, id: Seq<char>, enabled: bool)
    ensures
        ({
            let r = v.map_values(|s: ServerView| with_enabled(s, id, enabled));
            &&& r.len() == v.len()
            &&& forall|i: int| 0 <= i < v.len() ==> #[trigger] r[i].id == v[i].id
            &&& forall|i: int| 0 <= i < v.len() && v[i].id == id ==> #[trigger] r[i].enabled == enabled
            &&& forall|i: int| 0 <= i < v.len() && v[i].id != id ==> #[trigger] r[i] == v[i]
        }),
{
}

proof fn lemma_trimmed_args_idem(a: Seq<Seq<char>>)
    ensures
        trimmed_args(trimmed_args(a)) == trimmed_args(a),
    decreases a.len(),
{
    if a.len() > 0 {
        lemma_trimmed_args_idem(a.drop_last());
        let prev = trimmed_args(a.drop_last());
        let x = trim(a.last());
        crate::text::lemma_trim_idempotent(a.last());
        if x.len() > 0 {
            assert(prev.push(x).drop_last() =~= prev);
        }
    }
}

/// Every entry of a trimmed record has a non-blank, trimmed name and value.
pub open spec fn clean_record(m: Seq<(Seq<char>, Seq<char>)>) -> bool {
    forall|i: int|
        0 <= i < m.len() ==> (#[trigger] m[i]).0.len() > 0 && trim(m[i].0) == m[i].0 && m[i].1.len() > 0
            && trim(m[i].1) == m[i].1
}

proof fn lemma_trimmed_record_clean(e: Seq<(Seq<char>, Seq<char>)>)
    ensures
        clean_record(trimmed_record(e)),
    decreases e.len(),
{
    if e.len() > 0 {
        lemma_trimmed_record_clean(e.drop_last());
        crate::text::lemma_trim_idempotent(e.last().0);
        crate::text::lemma_trim_idempotent(e.last().1);
        let prev = trimmed_record(e.drop_last());
        lemma_key_index_bounds(prev, trim(e.last().0));
    }
}

proof fn lemma_trimmed_record_fixed(m: Seq<(Seq<char>, Seq<char>)>)
    requires
        distinct_keys(m),
        clean_record(m),
    ensures
        trimmed_record(m) == m,
    decreases m.len(),
{
    if m.len() > 0 {
        let d = m.drop_last();
        assert forall|i: int, j: int| 0 <= i < j < d.len() implies d[i].0 != d[j].0 by {
            assert(d[i] == m[i] && d[j] == m[j]);
        }
        assert forall|i: int| 0 <= i < d.len() implies (#[trigger] d[i]).0.len() > 0 && trim(d[i].0) == d[i].0
            && d[i].1.len() > 0 && trim(d[i].1) == d[i].1 by {
            assert(d[i] == m[i]);
        }
        lemma_trimmed_record_fixed(d);
        let last = m[m.len() - 1];
        assert(last == m.last());
        lemma_key_index_bounds(d, last.0);
        if key_index(d, last.0) >= 0 {
            let k = key_index(d, last.0);
            assert(d[k] == m[k]);
        }
        assert(d.push(last) =~= m);
    }
}

proof fn lemma_trimmed_record_idem(e: Seq<(Seq<char>, Seq<char>)>)
    ensures
        trimmed_record(trimmed_record(e)) == trimmed_record(e),
{
    lemma_trimmed_record_distinct(e);
    lemma_trimmed_record_clean(e);
    lemma_trimmed_record_fixed(trimmed_record(e));
}

/// Normalising a server entry twice is normalising it once.
pub proof fn lemma_normalized_idempotent(s: ServerView)
    ensures
        normalized(normalized(s)) == normalized(s),
{
    crate::text::lemma_trim_idempotent(s.id);
    crate::text::lemma_trim_idempotent(s.name);
    crate::text::lemma_trim_idempotent(s.command);
    crate::text::lemma_trim_idempotent(s.cwd);
    crate::text::lemma_trim_idempotent(s.url);
    lemma_trimmed_args_idem(s.args);
    lemma_trimmed_record_idem(s.env);
    lemma_trimmed_record_idem(s.headers);
}

/// Settings whose entries are normalised and have distinct, non-empty ids.
pub open spec fn well_normalized(v: Seq<ServerView>) -> bool {
    &&& forall|i: int| 0 <= i < v.len() ==> (#[trigger] v[i]).id.len() > 0 && normalized(v[i]) == v[i]
    &&& forall|i: int, j: int| #![trigger v[i], v[j]] 0 <= i < j < v.len() ==> v[i].id != v[j].id
}

proof fn lemma_deduped_well(raw: Seq<ServerView>)
    ensures
        well_normalized(deduped(raw)),
    decreases raw.len(),
{
    if raw.len() > 0 {
        lemma_deduped_well(raw.drop_last());
        let prev = deduped(raw.drop_last());
        let n = normalized(raw.last());
        lemma_normalized_idempotent(raw.last());
        if !(n.id.len() == 0 || has_id(prev, n.id)) {
            let d = prev.push(n);
            assert forall|i: int, j: int| #![trigger d[i], d[j]] 0 <= i < j < d.len() implies d[i].id != d[j].id by {
                if j == prev.len() {
                    assert(d[i] == prev[i]);
                    assert(!(prev[i].id == n.id));
                } else {
                    assert(d[i] == prev[i] && d[j] == prev[j]);
                }
            }
            assert forall|i: int| 0 <= i < d.len() implies (#[trigger] d[i]).id.len() > 0 && normalized(d[i]) == d[i] by {
                if i < prev.len() {
                    assert(d[i] == prev[i]);
                }
            }
        }
    }
}

proof fn lemma_deduped_fixed(w: Seq<ServerView>)
    requires
        well_normalized(w),
    ensures
        deduped(w) == w,
    decreases w.len(),
{
    if w.len() > 0 {
        let d = w.drop_last();
        assert forall|i: int| 0 <= i < d.len() implies (#[trigger] d[i]).id.len() > 0 && normalized(d[i]) == d[i] by {
            assert(d[i] == w[i]);
        }
        assert forall|i: int, j: int| #![trigger d[i], d[j]] 0 <= i < j < d.len() implies d[i].id != d[j].id by {
            assert(d[i] == w[i] && d[j] == w[j]);
        }
        lemma_deduped_fixed(d);
        let last = w[w.len() - 1];
        assert(last == w.last());
        if has_id(d, last.id) {
            let k = choose|k: int| 0 <= k < d.len() && d[k].id == last.id;
            assert(d[k] == w[k]);
        }
        assert(d.push(last) =~= w);
    }
}

/// Normalising settings twice is normalising them once, and normalised settings have distinct,
/// non-empty ids.
pub proof fn lemma_normalize_settings_idempotent(raw: Seq<ServerView>)
    ensures
        deduped(deduped(raw)) == deduped(raw),
        well_normalized(deduped(raw)),
{
    lemma_deduped_well(raw);
    lemma_deduped_fixed(deduped(raw));
}

/// Upserting a server into normalised settings, when accepted, leaves that server (normalised)
/// in them and keeps them normalised.
pub proof fn lemma_upsert_keeps_incoming(v: Seq<ServerView>, s: ServerView)
    requires
        well_normalized(v),
    ensures
        upserted(v, seq![s]) matches Ok(r) ==> r.contains(normalized(s)) && well_normalized(r),
{
    let n = normalized(s);
    lemma_normalized_idempotent(s);
    if n.id.len() > 0 && server_problem(n) is None {
        assert(seq![s][0] == s);
        assert(seq![s].drop_first() =~= Seq::<ServerView>::empty());
        lemma_first_id_index(v, n.id);
        let p = placed(v, n);
        let k = first_id_index(v, n.id);
        assert forall|i: int| 0 <= i < p.len() implies (#[trigger] p[i]).id.len() > 0 && normalized(p[i]) == p[i] by {
            if i < v.len() && i != k {
                assert(p[i] == v[i]);
            }
        }
        assert forall|i: int, j: int| #![trigger p[i], p[j]] 0 <= i < j < p.len() implies p[i].id != p[j].id by {
            if i < v.len() && i != k {
                assert(p[i] == v[i]);
            }
            if j < v.len() && j != k {
                assert(p[j] == v[j]);
            }
            if k >= 0 && i == k {
                assert(v[k].id == n.id);
            }
            if k >= 0 && j == k {
                assert(v[k].id == n.id);
            }
        }
        lemma_deduped_fixed(p);
        assert(merged_servers(p, Seq::<ServerView>::empty()) == Ok::<Seq<ServerView>, Seq<char>>(p));
        assert(merged_servers(v, seq![s]) == merged_servers(p, seq![s].drop_first()));
        if k >= 0 {
            assert(p[k] == n);
        } else {
            assert(p[v.len() as int] == n);
        }
    }
}

/// No incoming entry, once normalised, has the id `id`.
pub open spec fn id_untouched(incoming: Seq<ServerView>, id: Seq<char>) -> bool {
    forall|j: int| 0 <= j < incoming.len() ==> normalized(#[trigger] incoming[j]).id != id
}

/// Incoming entry `j` is the last one with its (normalised) id.
pub open spec fn last_of_id(incoming: Seq<ServerView>, j: int) -> bool {
    forall|k: int| j < k < incoming.len() ==> normalized(#[trigger] incoming[k]).id != normalized(
        incoming[j],
    ).id
}

/// Some incoming entry, once normalised, has the id `id`.
pub open spec fn id_incoming(incoming: Seq<ServerView>, id: Seq<char>) -> bool {
    exists|j: int| 0 <= j < incoming.len() && normalized(#[trigger] incoming[j]).id == id
}

/// Position of the first incoming entry whose normalised id is `id` (the length when none is).
pub open spec fn first_incoming(incoming: Seq<ServerView>, id: Seq<char>) -> nat
    decreases incoming.len(),
{
    if incoming.len() == 0 {
        0
    } else if normalized(incoming[0]).id == id {
        0
    } else {
        1 + first_incoming(incoming.drop_first(), id)
    }
}

/// The entries from position `from` on come in the order in which their ids first occur among
/// the incoming entries.
pub open spec fn in_first_occurrence_order(m: Seq<ServerView>, from: int, incoming: Seq<ServerView>) -> bool {
    forall|a: int, b: int|
        #![trigger m[a], m[b]]
        from <= a < b < m.len() ==> first_incoming(incoming, m[a].id) < first_incoming(incoming, m[b].id)
}

/// Entries whose ids are non-empty, already trimmed and distinct.
pub open spec fn clean_ids(v: Seq<ServerView>) -> bool {
    &&& forall|i: int| 0 <= i < v.len() ==> (#[trigger] v[i]).id.len() > 0 && trim(v[i].id) == v[i].id
    &&& forall|i: int, j: int| #![trigger v[i], v[j]] 0 <= i < j < v.len() ==> v[i].id != v[j].id
}

/// What placing the incoming entries one by one keeps of `w` (before the result is normalised).
pub open spec fn merge_keeps(w: Seq<ServerView>, incoming: Seq<ServerView>, m: Seq<ServerView>) -> bool {
    &&& clean_ids(m)
    &&& m.len() >= w.len()
    &&& forall|i: int| 0 <= i < w.len() ==> (#[trigger] m[i]).id == w[i].id
    &&& forall|i: int| 0 <= i < w.len() && id_untouched(incoming, w[i].id) ==> #[trigger] m[i] == w[i]
    &&& forall|j: int| 0 <= j < incoming.len() && #[trigger] last_of_id(incoming, j) ==> m.contains(
        normalized(incoming[j]),
    )
    &&& forall|i: int| w.len() <= i < m.len() ==> id_incoming(incoming, (#[trigger] m[i]).id)
    &&& in_first_occurrence_order(m, w.len() as int, incoming)
}

/// What an accepted upsert keeps of settings `v` whose ids are non-empty, trimmed and distinct:
/// the result is normalised with distinct ids; it starts with the ids of `v` in their order; an
/// entry of `v` whose id no incoming entry has is kept, normalised; the last incoming entry with
/// each id is in the result (normalised); and every entry after those of `v` has an incoming id,
/// these new ids coming in the order in which they first occur among the incoming entries.
pub open spec fn upsert_keeps(v: Seq<ServerView>, incoming: Seq<ServerView>, m: Seq<ServerView>) -> bool {
    &&& well_normalized(m)
    &&& m.len() >= v.len()
    &&& forall|i: int| 0 <= i < v.len() ==> (#[trigger] m[i]).id == v[i].id
    &&& forall|i: int| 0 <= i < v.len() && id_untouched(incoming, v[i].id) ==> #[trigger] m[i]
        == normalized(v[i])
    &&& forall|j: int| 0 <= j < incoming.len() && #[trigger] last_of_id(incoming, j) ==> m.contains(
        normalized(incoming[j]),
    )
    &&& forall|i: int| v.len() <= i < m.len() ==> id_incoming(incoming, (#[trigger] m[i]).id)
    &&& in_first_occurrence_order(m, v.len() as int, incoming)
}

proof fn lemma_placed(w: Seq<ServerView>, n: ServerView)
    requires
        clean_ids(w),
        n.id.len() > 0,
        normalized(n) == n,
    ensures
        clean_ids(placed(w, n)),
        w.len() <= placed(w, n).len() <= w.len() + 1,
        forall|i: int| 0 <= i < w.len() ==> (#[trigger] placed(w, n)[i]).id == w[i].id,
        forall|i: int| 0 <= i < w.len() && w[i].id != n.id ==> #[trigger] placed(w, n)[i] == w[i],
        forall|i: int| w.len() <= i < placed(w, n).len() ==> #[trigger] placed(w, n)[i] == n,
        placed(w, n).contains(n),
{
    lemma_first_id_index(w, n.id);
    let p = placed(w, n);
    let k = first_id_index(w, n.id);
    assert forall|i: int| 0 <= i < p.len() implies (#[trigger] p[i]).id.len() > 0 && trim(p[i].id) == p[i].id by {
        if i < w.len() && i != k {
            assert(p[i] == w[i]);
        } else {
            assert(p[i] == n);
            assert(trim(n.id) == normalized(n).id);
        }
    }
    assert forall|i: int, j: int| #![trigger p[i], p[j]] 0 <= i < j < p.len() implies p[i].id != p[j].id by {
        if i < w.len() && i != k {
            assert(p[i] == w[i]);
        }
        if j < w.len() && j != k {
            assert(p[j] == w[j]);
        }
        if k >= 0 && i == k {
            assert(w[k].id == n.id);
        }
        if k >= 0 && j == k {
            assert(w[k].id == n.id);
        }
    }
    if k >= 0 {
        assert(p[k] == n);
    } else {
        assert(p[w.len() as int] == n);
    }
}

proof fn lemma_merged_keeps(w: Seq<ServerView>, incoming: Seq<ServerView>)
    requires
        clean_ids(w),
    ensures
        merged_servers(w, incoming) matches Ok(m) ==> merge_keeps(w, incoming, m),
    decreases incoming.len(),
{
    if incoming.len() == 0 {
        return;
    }
    let n = normalized(incoming[0]);
    lemma_normalized_idempotent(incoming[0]);
    if n.id.len() == 0 || server_problem(n) is Some {
        return;
    }
    let rest = incoming.drop_first();
    let w2 = placed(w, n);
    lemma_placed(w, n);
    lemma_merged_keeps(w2, rest);
    if let Ok(m) = merged_servers(w, incoming) {
        assert(merged_servers(w, incoming) == merged_servers(w2, rest));
        assert(merge_keeps(w2, rest, m));
        assert forall|i: int| 0 <= i < w.len() implies (#[trigger] m[i]).id == w[i].id by {
            assert(m[i].id == w2[i].id);
        }
        assert forall|i: int| 0 <= i < w.len() && id_untouched(incoming, w[i].id) implies #[trigger] m[i]
            == w[i] by {
            assert(normalized(incoming[0]).id != w[i].id);
            assert(w2[i] == w[i]);
            assert forall|j: int| 0 <= j < rest.len() implies normalized(#[trigger] rest[j]).id
                != w2[i].id by {
                assert(rest[j] == incoming[j + 1]);
            }
        }
        assert forall|j: int| 0 <= j < incoming.len() && #[trigger] last_of_id(incoming, j) implies m.contains(
            normalized(incoming[j]),
        ) by {
            if j == 0 {
                let p = choose|p: int| 0 <= p < w2.len() && w2[p] == n;
                assert forall|k: int| 0 <= k < rest.len() implies normalized(#[trigger] rest[k]).id
                    != w2[p].id by {
                    assert(rest[k] == incoming[k + 1]);
                }
                assert(m[p] == w2[p]);
            } else {
                assert forall|k: int| j - 1 < k < rest.len() implies normalized(#[trigger] rest[k]).id
                    != normalized(rest[j - 1]).id by {
                    assert(rest[k] == incoming[k + 1]);
                }
                assert(rest[j - 1] == incoming[j]);
                assert(last_of_id(rest, j - 1));
            }
        }
        assert forall|i: int| w.len() <= i < m.len() implies id_incoming(incoming, (#[trigger] m[i]).id) by {
            if i < w2.len() {
                assert(w2[i] == n);
                assert(m[i].id == w2[i].id);
                assert(normalized(incoming[0]).id == m[i].id);
            } else {
                assert(id_incoming(rest, m[i].id));
                let j = choose|j: int| 0 <= j < rest.len() && normalized(#[trigger] rest[j]).id == m[i].id;
                assert(rest[j] == incoming[j + 1]);
            }
        }
        assert forall|a: int, b: int| #![trigger m[a], m[b]] w.len() <= a < b < m.len() implies first_incoming(
            incoming,
            m[a].id,
        ) < first_incoming(incoming, m[b].id) by {
            assert(m[b].id != m[a].id);
            if a < w2.len() {
                assert(w2[a] == n);
                assert(m[a].id == n.id);
                assert(first_incoming(incoming, m[a].id) == 0);
            } else {
                if b < w2.len() {
                    assert(false);
                }
                lemma_first_id_index(w, n.id);
                let k = first_id_index(w, n.id);
                if k >= 0 {
                    assert(m[k].id == w[k].id);
                    assert(m[k].id != m[a].id && m[k].id != m[b].id);
                    assert(m[a].id != n.id && m[b].id != n.id);
                } else {
                    assert(w2.len() == w.len() + 1);
                    assert(m[w.len() as int].id == w2[w.len() as int].id);
                    assert(w2[w.len() as int] == n);
                    assert(m[a].id != n.id && m[b].id != n.id);
                }
                assert(first_incoming(rest, m[a].id) < first_incoming(rest, m[b].id));
            }
        }
    }
}

/// Entries with non-empty, trimmed, distinct ids come out of `deduped` all kept, each normalised.
proof fn lemma_deduped_clean(w: Seq<ServerView>)
    requires
        clean_ids(w),
    ensures
        deduped(w) == w.map_values(|s: ServerView| normalized(s)),
    decreases w.len(),
{
    if w.len() > 0 {
        let d = w.drop_last();
        assert forall|i: int| 0 <= i < d.len() implies (#[trigger] d[i]).id.len() > 0 && trim(d[i].id) == d[i].id by {
            assert(d[i] == w[i]);
        }
        assert forall|i: int, j: int| #![trigger d[i], d[j]] 0 <= i < j < d.len() implies d[i].id != d[j].id by {
            assert(d[i] == w[i] && d[j] == w[j]);
        }
        lemma_deduped_clean(d);
        let prev = deduped(d);
        let last = w[w.len() - 1];
        assert(last == w.last());
        assert(normalized(last).id == last.id);
        if has_id(prev, last.id) {
            let k = choose|k: int| 0 <= k < prev.len() && prev[k].id == last.id;
            assert(prev[k] == normalized(d[k]));
            assert(d[k] == w[k]);
        }
        assert(prev.push(normalized(last)) =~= w.map_values(|s: ServerView| normalized(s)));
    }
}

proof fn lemma_same_ids_same_order(m0: Seq<ServerView>, m: Seq<ServerView>, from: int, incoming: Seq<ServerView>)
    requires
        0 <= from,
        m.len() == m0.len(),
        forall|i: int| 0 <= i < m.len() ==> (#[trigger] m[i]).id == m0[i].id,
        in_first_occurrence_order(m0, from, incoming),
    ensures
        in_first_occurrence_order(m, from, incoming),
{
    assert forall|a: int, b: int| #![trigger m[a], m[b]] from <= a < b < m.len() implies first_incoming(
        incoming,
        m[a].id,
    ) < first_incoming(incoming, m[b].id) by {
        assert(m[a].id == m0[a].id && m[b].id == m0[b].id);
        assert(first_incoming(incoming, m0[a].id) < first_incoming(incoming, m0[b].id));
    }
}

/// Upserting servers into settings whose ids are non-empty, trimmed and distinct, when accepted,
/// keeps the order of the ids already there and appends new ids after them, keeps untouched
/// servers (normalised), and leaves the last incoming server of each id in place (see
/// `upsert_keeps`).
pub proof fn lemma_upsert_order_last_wins(v: Seq<ServerView>, incoming: Seq<ServerView>)
    requires
        clean_ids(v),
    ensures
        upserted(v, incoming) matches Ok(m) ==> upsert_keeps(v, incoming, m),
{
    lemma_merged_keeps(v, incoming);
    if let Ok(m0) = merged_servers(v, incoming) {
        lemma_deduped_clean(m0);
        let m = deduped(m0);
        assert(m.len() == m0.len());
        assert forall|i: int| 0 <= i < m.len() implies #[trigger] m[i] == normalized(m0[i]) && m[i].id
            == m0[i].id by {
            assert(trim(m0[i].id) == m0[i].id);
        }
        assert forall|i: int| 0 <= i < m.len() implies (#[trigger] m[i]).id.len() > 0 && normalized(m[i])
            == m[i] by {
            lemma_normalized_idempotent(m0[i]);
        }
        assert forall|i: int, j: int| #![trigger m[i], m[j]] 0 <= i < j < m.len() implies m[i].id != m[j].id by {
            assert(m0[i].id != m0[j].id);
        }
        assert(well_normalized(m));
        assert forall|j: int| 0 <= j < incoming.len() && #[trigger] last_of_id(incoming, j) implies m.contains(
            normalized(incoming[j]),
        ) by {
            assert(m0.contains(normalized(incoming[j])));
            let p = choose|p: int| 0 <= p < m0.len() && m0[p] == normalized(incoming[j]);
            lemma_normalized_idempotent(incoming[j]);
            assert(m[p] == normalized(incoming[j]));
        }
        lemma_same_ids_same_order(m0, m, v.len() as int, incoming);
    }
}

/// The name a transport has in runtime configuration.
pub open spec fn transport_name(t: McpTransportType) -> Seq<char> {
    match t {
        McpTransportType::Stdio => "stdio"@,
        McpTransportType::StreamableHttp => "streamable_http"@,
        McpTransportType::Sse => "sse"@,
    }
}

/// Name/value pairs as a JSON object of strings.
pub open spec fn record_json(r: Seq<(Seq<char>, Seq<char>)>) -> JsonModel {
    JsonModel::Object(r.map_values(|p: (Seq<char>, Seq<char>)| (p.0, JsonModel::Str(p.1))))
}

/// The runtime entry of a server.
pub open spec fn server_snapshot(s: ServerView) -> JsonModel {
    JsonModel::Object(
        seq![
            ("name"@, JsonModel::Str(s.name)),
            ("transport"@, JsonModel::Str(transport_name(s.transport))),
            ("enabled"@, JsonModel::Bool(s.enabled)),
            ("command"@, JsonModel::Str(s.command)),
            ("args"@, JsonModel::Array(s.args.map_values(|a: Seq<char>| JsonModel::Str(a)))),
            ("env"@, record_json(s.env)),
            ("cwd"@, JsonModel::Str(s.cwd)),
            ("url"@, JsonModel::Str(s.url)),
            ("headers"@, record_json(s.headers)),
        ],
    )
}

/// The runtime snapshot of MCP settings: `{"mcpServers": {<id>: <entry>, ...}}`, servers in
/// order.
pub open spec fn settings_snapshot(servers: Seq<ServerView>) -> JsonModel {
    JsonModel::Object(
        seq![
            (
                "mcpServers"@,
                JsonModel::Object(servers.map_values(|s: ServerView| (s.id, server_snapshot(s)))),
            ),
        ],
    )
}

fn text_json(s: &String) -> (r: JsonValue)
    ensures
        r@ == JsonModel::Str(s@),
{
    JsonValue::Str(s.clone())
}

fn record_json_value(r: &Vec<(String, String)>) -> (out: JsonValue)
    ensures
        out@ == record_json(record_view(r@)),
{
    let mut members: Vec<(String, JsonValue)> = Vec::new();
    let ghost target = record_view(r@).map_values(
        |p: (Seq<char>, Seq<char>)| (p.0, JsonModel::Str(p.1)),
    );
    let mut i: usize = 0;
    while i < r.len()
        invariant
            i <= r.len(),
            target == record_view(r@).map_values(
                |p: (Seq<char>, Seq<char>)| (p.0, JsonModel::Str(p.1)),
            ),
            fields_model(members@) == target.take(i as int),
        decreases r.len() - i,
    {
        let ghost before = members@;
        members.push((r[i].0.clone(), text_json(&r[i].1)));
        assert(members@.drop_last() =~= before);
        assert(target.take(i + 1) =~= target.take(i as int).push(target[i as int]));
        i = i + 1;
    }
    assert(target.take(r.len() as int) =~= target);
    JsonValue::Object(members)
}

fn strings_json(v: &Vec<String>) -> (out: JsonValue)
    ensures
        out@ == JsonModel::Array(strings_view(v@).map_values(|a: Seq<char>| JsonModel::Str(a))),
{
    let mut items: Vec<JsonValue> = Vec::new();
    let ghost target = strings_view(v@).map_values(|a: Seq<char>| JsonModel::Str(a));
    let mut i: usize = 0;
    while i < v.len()
        invariant
            i <= v.len(),
            target == strings_view(v@).map_values(|a: Seq<char>| JsonModel::Str(a)),
            items_model(items@) == target.take(i as int),
        decreases v.len() - i,
    {
        let ghost before = items@;
        items.push(text_json(&v[i]));
        assert(items@.drop_last() =~= before);
        assert(target.take(i + 1) =~= target.take(i as int).push(target[i as int]));
        i = i + 1;
    }
    assert(target.take(v.len() as int) =~= target);
    JsonValue::Array(items)
}

fn transport_json(t: McpTransportType) -> (r: JsonValue)
    ensures
        r@ == JsonModel::Str(transport_name(t)),
{
    let name = match t {
        McpTransportType::Stdio => "stdio",
        McpTransportType::StreamableHttp => "streamable_http",
        McpTransportType::Sse => "sse",
    };
    JsonValue::Str(name.to_owned())
}

fn member(key: &str, value: JsonValue) -> (r: (String, JsonValue))
    ensures
        r.0@ == key@,
        r.1 == value,
{
    (key.to_owned(), value)
}

fn server_json(s: &McpServerConfig) -> (r: JsonValue)
    ensures
        r@ == server_snapshot(s@),
{
    let members = vec![
        member("name", text_json(&s.name)),
        member("transport", transport_json(s.transport)),
        member("enabled", JsonValue::Bool(s.enabled)),
        member("command", text_json(&s.command)),
        member("args", strings_json(&s.args)),
        member("env", record_json_value(&s.env)),
        member("cwd", text_json(&s.cwd)),
        member("url", text_json(&s.url)),
        member("headers", record_json_value(&s.headers)),
    ];
    let r = JsonValue::Object(members);
    proof {
        reveal_with_fuel(fields_model, 10);
    }
    assert(fields_model(members@) =~= server_snapshot(s@)->Object_0);
    r
}

/// The runtime snapshot of MCP settings (see `settings_snapshot`).
pub fn runtime_settings_snapshot(settings: &McpSettings) -> (r: JsonValue)
    ensures
        r@ == settings_snapshot(settings@),
{
    let mut entries: Vec<(String, JsonValue)> = Vec::new();
    let ghost target = servers_view(settings.servers@).map_values(
        |s: ServerView| (s.id, server_snapshot(s)),
    );
    let mut i: usize = 0;
    while i < settings.servers.len()
        invariant
            i <= settings.servers.len(),
            target == servers_view(settings.servers@).map_values(
                |s: ServerView| (s.id, server_snapshot(s)),
            ),
            fields_model(entries@) == target.take(i as int),
        decreases settings.servers.len() - i,
    {
        let ghost before = entries@;
        let server = &settings.servers[i];
        entries.push((server.id.clone(), server_json(server)));
        assert(entries@.drop_last() =~= before);
        assert(target.take(i + 1) =~= target.take(i as int).push(target[i as int]));
        i = i + 1;
    }
    assert(target.take(settings.servers.len() as int) =~= target);
    let inner = JsonValue::Object(entries);
    assert(inner@ == JsonModel::Object(target));
    let root = vec![member("mcpServers", inner)];
    proof {
        reveal_with_fuel(fields_model, 2);
    }
    assert(fields_model(root@) =~= seq![("mcpServers"@, JsonModel::Object(target))]);
    JsonValue::Object(root)
}

} // verus!

verus! {

/// In the runtime snapshot, the entry of a server (whose id no later server repeats) is found
/// under its id in `mcpServers`, and holds the server's own fields: its name, transport,
/// enabled flag, command, arguments, working directory and URL, its environment under `env`
/// and its headers under `headers`, each as a JSON object of its name/value pairs.
pub proof fn lemma_snapshot_entry_of_server(v: Seq<ServerView>, i: int)
    requires
        0 <= i < v.len(),
        forall|j: int| i < j < v.len() ==> (#[trigger] v[j]).id != v[i].id,
    ensures
        crate::json_value::get_member(settings_snapshot(v), "mcpServers"@) matches Some(servers)
            && crate::json_value::get_member(servers, v[i].id) matches Some(entry) && {
            let at = |k: Seq<char>| crate::json_value::get_member(entry, k);
            &&& at("headers"@) == Some(record_json(v[i].headers))
            &&& at("env"@) == Some(record_json(v[i].env))
            &&& at("url"@) == Some(JsonModel::Str(v[i].url))
            &&& at("cwd"@) == Some(JsonModel::Str(v[i].cwd))
            &&& at("command"@) == Some(JsonModel::Str(v[i].command))
            &&& at("name"@) == Some(JsonModel::Str(v[i].name))
            &&& at("enabled"@) == Some(JsonModel::Bool(v[i].enabled))
            &&& at("transport"@) == Some(JsonModel::Str(transport_name(v[i].transport)))
            &&& at("args"@) == Some(JsonModel::Array(v[i].args.map_values(|a: Seq<char>| JsonModel::Str(a))))
        },
{
    reveal_strlit("mcpServers");
    reveal_strlit("name");
    reveal_strlit("transport");
    reveal_strlit("enabled");
    reveal_strlit("command");
    reveal_strlit("args");
    reveal_strlit("env");
    reveal_strlit("cwd");
    reveal_strlit("url");
    reveal_strlit("headers");
    let top = seq![
        ("mcpServers"@, JsonModel::Object(v.map_values(|s: ServerView| (s.id, server_snapshot(s))))),
    ];
    crate::json_value::lemma_member(top, "mcpServers"@, 0);
    let f = v.map_values(|s: ServerView| (s.id, server_snapshot(s)));
    assert forall|j: int| i < j < f.len() implies f[j].0 != v[i].id by {
        assert(f[j].0 == v[j].id);
    }
    crate::json_value::lemma_member(f, v[i].id, i);
    let e = server_snapshot(v[i]);
    let fs = e->Object_0;
    assert(fs.len() == 9);
    assert forall|k: int| 0 <= k < 9 implies fs[k].0.len() != 0 by {}
    assert("cwd"@[0] != "url"@[0] && "env"@[0] != "url"@[0] && "env"@[0] != "cwd"@[0]);
    assert("cwd"@ != "url"@ && "env"@ != "url"@ && "env"@ != "cwd"@);
    assert("command"@[0] != "headers"@[0] && "enabled"@[0] != "headers"@[0] && "enabled"@[0] != "command"@[0]);
    assert("command"@ != "headers"@ && "enabled"@ != "headers"@ && "enabled"@ != "command"@);
    assert("name"@[0] != "args"@[0]);
    assert("name"@ != "args"@);
    crate::json_value::lemma_member(fs, "headers"@, 8);
    crate::json_value::lemma_member(fs, "url"@, 7);
    crate::json_value::lemma_member(fs, "cwd"@, 6);
    crate::json_value::lemma_member(fs, "env"@, 5);
    crate::json_value::lemma_member(fs, "args"@, 4);
    crate::json_value::lemma_member(fs, "command"@, 3);
    crate::json_value::lemma_member(fs, "enabled"@, 2);
    crate::json_value::lemma_member(fs, "transport"@, 1);
    crate::json_value::lemma_member(fs, "name"@, 0);
}

} // verus!
