//! Which kinds of memory a classifier's reply asks to write, and route name aliases.
use vstd::prelude::*;
use crate::text::{chars_eq_str, to_ascii_lower, trimmed_chars, ascii_lower, trim};
use crate::json_value::{JsonValue, JsonModel, get, get_member, as_bool, model_bool};

verus! {

/// The boolean member `key` of a verdict object, if it is a boolean.
pub open spec fn member_bool(gate: JsonModel, key: Seq<char>) -> Option<bool> {
    match get_member(gate, key) {
        Some(v) => model_bool(v),
        None => None,
    }
}

/// A flag read from `key`: its boolean, else `false`.
pub open spec fn flag(gate: JsonModel, key: Seq<char>) -> bool {
    member_bool(gate, key) == Some(true)
}

/// A flag read from `key`, or from `alias` when `key` is absent (a non-boolean `key` reads false).
pub open spec fn flag_or_alias(gate: JsonModel, key: Seq<char>, alias: Seq<char>) -> bool {
    match get_member(gate, key) {
        Some(v) => model_bool(v) == Some(true),
        None => flag(gate, alias),
    }
}

/// Which memory routes a verdict enables.
#[derive(Debug, Clone, Default, PartialEq, Eq)]
pub struct MemoryGate {
    pub should_write: bool,
    pub decision: bool,
    pub constraint: bool,
    pub fact: bool,
    pub preference: bool,
    pub resource: bool,
    pub plan: bool,
    pub risk: bool,
    pub workflow: bool,
    pub people: bool,
    pub user_profile: bool,
    pub relationship: bool,
    pub commitment: bool,
    pub pitfall: bool,
    pub emotional_event: bool,
}

fn read_flag(gate: &JsonValue, key: &str) -> (b: bool)
    ensures
        b == flag(gate@, key@),
{
    match get(gate, key) {
        Some(v) => as_bool(v) == Some(true),
        None => false,
    }
}

fn read_flag_or_alias(gate: &JsonValue, key: &str, alias: &str) -> (b: bool)
    ensures
        b == flag_or_alias(gate@, key@, alias@),
{
    match get(gate, key) {
        Some(v) => as_bool(v) == Some(true),
        None => read_flag(gate, alias),
    }
}

/// The routing a verdict describes: `should_write` (alias `worthy`, used when `should_write` is not
/// a boolean) and each route flag (`relationship`, `commitment`, `pitfall` also accept their
/// plural names when the singular is absent); missing or non-boolean flags read false.
pub open spec fn gate_of(m: JsonModel) -> MemoryGate {
    MemoryGate {
        should_write: match member_bool(m, "should_write"@) {
            Some(b) => b,
            None => flag(m, "worthy"@),
        },
        decision: flag(m, "decision"@),
        constraint: flag(m, "constraint"@),
        fact: flag(m, "fact"@),
        preference: flag(m, "preference"@),
        resource: flag(m, "resource"@),
        plan: flag(m, "plan"@),
        risk: flag(m, "risk"@),
        workflow: flag(m, "workflow"@),
        people: flag(m, "people"@),
        user_profile: flag(m, "user_profile"@),
        relationship: flag_or_alias(m, "relationship"@, "relationships"@),
        commitment: flag_or_alias(m, "commitment"@, "commitments"@),
        pitfall: flag_or_alias(m, "pitfall"@, "pitfalls"@),
        emotional_event: flag(m, "emotional_event"@),
    }
}

/// `[name]` when `on`, else nothing.
pub open spec fn route_if(on: bool, name: Seq<char>) -> Seq<Seq<char>> {
    if on {
        seq![name]
    } else {
        Seq::empty()
    }
}

pub open spec fn routes_view(r: Seq<&'static str>) -> Seq<Seq<char>> {
    r.map_values(|s: &'static str| s@)
}

fn push_route(routes: &mut Vec<&'static str>, on: bool, name: &'static str)
    ensures
        routes_view(final(routes)@) == routes_view(old(routes)@) + route_if(on, name@),
{
    let ghost before = routes_view(routes@);
    if on {
        routes.push(name);
        assert(routes_view(routes@) =~= before + route_if(on, name@));
    } else {
        assert(routes_view(routes@) =~= before + route_if(on, name@));
    }
}

impl MemoryGate {
    /// Reads the routing flags from the `gate` member of a classifier reply; `None` when the
    /// reply has no such member.
    pub fn from_json_value(value: &JsonValue) -> (r: Option<Self>)
        ensures
            match get_member(value@, "gate"@) {
                Some(g) => r == Some(gate_of(g)),
                None => r is None,
            },
    {
        let gate = match get(value, "gate") {
            Some(g) => g,
            None => {
                return None;
            },
        };
        let should_write = match get(gate, "should_write") {
            Some(v) => match as_bool(v) {
                Some(b) => b,
                None => read_flag(gate, "worthy"),
            },
            None => read_flag(gate, "worthy"),
        };
        Some(
            MemoryGate {
                should_write,
                decision: read_flag(gate, "decision"),
                constraint: read_flag(gate, "constraint"),
                fact: read_flag(gate, "fact"),
                preference: read_flag(gate, "preference"),
                resource: read_flag(gate, "resource"),
                plan: read_flag(gate, "plan"),
                risk: read_flag(gate, "risk"),
                workflow: read_flag(gate, "workflow"),
                people: read_flag(gate, "people"),
                user_profile: read_flag(gate, "user_profile"),
                relationship: read_flag_or_alias(gate, "relationship", "relationships"),
                commitment: read_flag_or_alias(gate, "commitment", "commitments"),
                pitfall: read_flag_or_alias(gate, "pitfall", "pitfalls"),
                emotional_event: read_flag(gate, "emotional_event"),
            },
        )
    }

    /// The shared routes the flags enable, in a fixed order.
    pub open spec fn spec_shared_routes(self) -> Seq<Seq<char>> {
        route_if(self.decision, "decision"@) + route_if(self.constraint, "constraint"@) + route_if(
            self.fact,
            "fact"@,
        ) + route_if(self.preference, "preference"@) + route_if(self.resource, "resource"@)
            + route_if(self.plan, "plan"@) + route_if(self.risk, "risk"@) + route_if(
            self.workflow,
            "workflow"@,
        ) + route_if(self.people, "people"@)
    }

    /// The private routes the flags enable, in a fixed order.
    pub open spec fn spec_private_routes(self) -> Seq<Seq<char>> {
        route_if(self.user_profile, "user_profile"@) + route_if(self.relationship, "relationship"@)
            + route_if(self.commitment, "commitment"@) + route_if(self.pitfall, "pitfall"@)
            + route_if(self.emotional_event, "emotional_event"@)
    }

    /// Whether any route flag is set.
    pub open spec fn spec_any_route(self) -> bool {
        self.decision || self.constraint || self.fact || self.preference || self.resource
            || self.plan || self.risk || self.workflow || self.people || self.user_profile
            || self.relationship || self.commitment || self.pitfall || self.emotional_event
    }

    /// The shared (team-visible) routes that are enabled.
    pub fn shared_routes(&self) -> (r: Vec<&'static str>)
        ensures
            routes_view(r@) == self.spec_shared_routes(),
    {
        let mut routes: Vec<&'static str> = Vec::new();
        assert(routes_view(routes@) =~= Seq::<Seq<char>>::empty());
        push_route(&mut routes, self.decision, "decision");
        push_route(&mut routes, self.constraint, "constraint");
        push_route(&mut routes, self.fact, "fact");
        push_route(&mut routes, self.preference, "preference");
        push_route(&mut routes, self.resource, "resource");
        push_route(&mut routes, self.plan, "plan");
        push_route(&mut routes, self.risk, "risk");
        push_route(&mut routes, self.workflow, "workflow");
        push_route(&mut routes, self.people, "people");
        assert(Seq::<Seq<char>>::empty() + route_if(self.decision, "decision"@) =~= route_if(
            self.decision,
            "decision"@,
        ));
        routes
    }

    /// The private (agent-only) routes that are enabled.
    pub fn private_routes(&self) -> (r: Vec<&'static str>)
        ensures
            routes_view(r@) == self.spec_private_routes(),
    {
        let mut routes: Vec<&'static str> = Vec::new();
        assert(routes_view(routes@) =~= Seq::<Seq<char>>::empty());
        push_route(&mut routes, self.user_profile, "user_profile");
        push_route(&mut routes, self.relationship, "relationship");
        push_route(&mut routes, self.commitment, "commitment");
        push_route(&mut routes, self.pitfall, "pitfall");
        push_route(&mut routes, self.emotional_event, "emotional_event");
        assert(Seq::<Seq<char>>::empty() + route_if(self.user_profile, "user_profile"@) =~= route_if(
            self.user_profile,
            "user_profile"@,
        ));
        routes
    }

    /// Whether any route is enabled.
    pub fn any_route_enabled(&self) -> (b: bool)
        ensures
            b == self.spec_any_route(),
            b == (self.spec_shared_routes().len() > 0 || self.spec_private_routes().len() > 0),
    {
        let shared = self.shared_routes();
        let private = self.private_routes();
        proof {
            self.lemma_route_counts();
        }
        shared.len() > 0 || private.len() > 0
    }

    /// The route lists are non-empty exactly when some flag of their kind is set.
    pub proof fn lemma_route_counts(self)
        ensures
            (self.spec_shared_routes().len() > 0) == (self.decision || self.constraint || self.fact
                || self.preference || self.resource || self.plan || self.risk || self.workflow
                || self.people),
            (self.spec_private_routes().len() > 0) == (self.user_profile || self.relationship
                || self.commitment || self.pitfall || self.emotional_event),
    {
        let a = route_if(self.decision, "decision"@).len() + route_if(self.constraint, "constraint"@).len()
            + route_if(self.fact, "fact"@).len() + route_if(self.preference, "preference"@).len()
            + route_if(self.resource, "resource"@).len() + route_if(self.plan, "plan"@).len()
            + route_if(self.risk, "risk"@).len() + route_if(self.workflow, "workflow"@).len()
            + route_if(self.people, "people"@).len();
        assert(self.spec_shared_routes().len() == a);
        let b = route_if(self.user_profile, "user_profile"@).len() + route_if(
            self.relationship,
            "relationship"@,
        ).len() + route_if(self.commitment, "commitment"@).len() + route_if(self.pitfall, "pitfall"@).len()
            + route_if(self.emotional_event, "emotional_event"@).len();
        assert(self.spec_private_routes().len() == b);
    }

    /// Whether memory should be written: asked for directly, or implied by an enabled route.
    pub fn inferred_should_write(&self) -> (b: bool)
        ensures
            b == (self.should_write || self.spec_any_route()),
    {
        self.should_write || self.any_route_enabled()
    }
}

} // verus!

verus! {

/// The canonical memory route an alias names (English singular/plural or Chinese), compared
/// after trimming and ASCII lower-casing.
pub open spec fn canonical_route(route: Seq<char>) -> Option<Seq<char>> {
    let k = ascii_lower(trim(route));
    if k == "decision"@ || k == "决策"@ {
        Some("decision"@)
    } else if k == "constraint"@ || k == "constraints"@ || k == "约束"@ || k == "限制"@ {
        Some("constraint"@)
    } else if k == "fact"@ || k == "facts"@ || k == "事实"@ {
        Some("fact"@)
    } else if k == "preference"@ || k == "preferences"@ || k == "偏好"@ {
        Some("preference"@)
    } else if k == "resource"@ || k == "resources"@ || k == "资料"@ || k == "资源"@ {
        Some("resource"@)
    } else if k == "plan"@ || k == "plans"@ || k == "计划"@ {
        Some("plan"@)
    } else if k == "risk"@ || k == "risks"@ || k == "风险"@ {
        Some("risk"@)
    } else if k == "workflow"@ || k == "workflows"@ || k == "流程"@ || k == "工作流"@ {
        Some("workflow"@)
    } else if k == "people"@ || k == "person"@ || k == "成员"@ || k == "人员"@ {
        Some("people"@)
    } else if k == "user_profile"@ || k == "profile"@ || k == "画像"@ || k == "用户画像"@ {
        Some("user_profile"@)
    } else if k == "relationship"@ || k == "relationships"@ || k == "关系"@ || k == "关系图"@ {
        Some("relationship"@)
    } else if k == "commitment"@ || k == "commitments"@ || k == "承诺"@ || k == "待办"@ {
        Some("commitment"@)
    } else if k == "pitfall"@ || k == "pitfalls"@ || k == "坑点"@ || k == "纠正"@ {
        Some("pitfall"@)
    } else if k == "emotional_event"@ || k == "emotion"@ || k == "affect"@ || k == "情感事件"@ {
        Some("emotional_event"@)
    } else {
        None
    }
}

/// Maps a route alias to its canonical route name.
pub fn canonical_memory_route(route: &str) -> (r: Option<String>)
    ensures
        match canonical_route(route@) {
            Some(c) => r matches Some(s) && s@ == c,
            None => r is None,
        },
{
    let t = trimmed_chars(route);
    let k = to_ascii_lower(&t);
    let is = |w: &str| -> (b: bool)
        ensures
            b == (k@ == w@),
        { chars_eq_str(&k, w) };
    if is("decision") || is("决策") {
        Some("decision".to_owned())
    } else if is("constraint") || is("constraints") || is("约束") || is("限制") {
        Some("constraint".to_owned())
    } else if is("fact") || is("facts") || is("事实") {
        Some("fact".to_owned())
    } else if is("preference") || is("preferences") || is("偏好") {
        Some("preference".to_owned())
    } else if is("resource") || is("resources") || is("资料") || is("资源") {
        Some("resource".to_owned())
    } else if is("plan") || is("plans") || is("计划") {
        Some("plan".to_owned())
    } else if is("risk") || is("risks") || is("风险") {
        Some("risk".to_owned())
    } else if is("workflow") || is("workflows") || is("流程") || is("工作流") {
        Some("workflow".to_owned())
    } else if is("people") || is("person") || is("成员") || is("人员") {
        Some("people".to_owned())
    } else if is("user_profile") || is("profile") || is("画像") || is("用户画像") {
        Some("user_profile".to_owned())
    } else if is("relationship") || is("relationships") || is("关系") || is("关系图") {
        Some("relationship".to_owned())
    } else if is("commitment") || is("commitments") || is("承诺") || is("待办") {
        Some("commitment".to_owned())
    } else if is("pitfall") || is("pitfalls") || is("坑点") || is("纠正") {
        Some("pitfall".to_owned())
    } else if is("emotional_event") || is("emotion") || is("affect") || is("情感事件") {
        Some("emotional_event".to_owned())
    } else {
        None
    }
}

} // verus!

verus! {

/// What a flag of a verdict reads: the member's boolean when it is one, else `false`.
pub open spec fn json_flag(gate: JsonModel, key: Seq<char>) -> bool {
    get_member(gate, key) == Some(JsonModel::Bool(true))
}

/// A verdict is read member by member: `should_write` is the boolean member `should_write`
/// when there is one, else the boolean member `worthy` (false when neither is a boolean); every
/// route flag is its boolean member (false when missing or not a boolean), where
/// `relationship`, `commitment` and `pitfall` fall back to their plural names only when the
/// singular member is missing.
pub proof fn lemma_gate_reads_its_members(g: JsonModel)
    ensures
        get_member(g, "should_write"@) matches Some(JsonModel::Bool(b)) ==> gate_of(g).should_write == b,
        !(get_member(g, "should_write"@) matches Some(JsonModel::Bool(_))) ==> gate_of(g).should_write
            == json_flag(g, "worthy"@),
        gate_of(g).decision == json_flag(g, "decision"@),
        gate_of(g).constraint == json_flag(g, "constraint"@),
        gate_of(g).fact == json_flag(g, "fact"@),
        gate_of(g).preference == json_flag(g, "preference"@),
        gate_of(g).resource == json_flag(g, "resource"@),
        gate_of(g).plan == json_flag(g, "plan"@),
        gate_of(g).risk == json_flag(g, "risk"@),
        gate_of(g).workflow == json_flag(g, "workflow"@),
        gate_of(g).people == json_flag(g, "people"@),
        gate_of(g).user_profile == json_flag(g, "user_profile"@),
        gate_of(g).emotional_event == json_flag(g, "emotional_event"@),
        gate_of(g).relationship == if get_member(g, "relationship"@) is Some {
            json_flag(g, "relationship"@)
        } else {
            json_flag(g, "relationships"@)
        },
        gate_of(g).commitment == if get_member(g, "commitment"@) is Some {
            json_flag(g, "commitment"@)
        } else {
            json_flag(g, "commitments"@)
        },
        gate_of(g).pitfall == if get_member(g, "pitfall"@) is Some {
            json_flag(g, "pitfall"@)
        } else {
            json_flag(g, "pitfalls"@)
        },
{
}

} // verus!

verus! {

/// The characters of the route words.
proof fn lemma_route_words()
    ensures
        "decision"@ =~= seq!['d', 'e', 'c', 'i', 's', 'i', 'o', 'n'],
        "决策"@ =~= seq!['决', '策'],
        "constraint"@ =~= seq!['c', 'o', 'n', 's', 't', 'r', 'a', 'i', 'n', 't'],
        "constraints"@ =~= seq!['c', 'o', 'n', 's', 't', 'r', 'a', 'i', 'n', 't', 's'],
        "约束"@ =~= seq!['约', '束'],
        "限制"@ =~= seq!['限', '制'],
        "fact"@ =~= seq!['f', 'a', 'c', 't'],
        "facts"@ =~= seq!['f', 'a', 'c', 't', 's'],
        "事实"@ =~= seq!['事', '实'],
        "preference"@ =~= seq!['p', 'r', 'e', 'f', 'e', 'r', 'e', 'n', 'c', 'e'],
        "preferences"@ =~= seq!['p', 'r', 'e', 'f', 'e', 'r', 'e', 'n', 'c', 'e', 's'],
        "偏好"@ =~= seq!['偏', '好'],
        "resource"@ =~= seq!['r', 'e', 's', 'o', 'u', 'r', 'c', 'e'],
        "resources"@ =~= seq!['r', 'e', 's', 'o', 'u', 'r', 'c', 'e', 's'],
        "资料"@ =~= seq!['资', '料'],
        "资源"@ =~= seq!['资', '源'],
        "plan"@ =~= seq!['p', 'l', 'a', 'n'],
        "plans"@ =~= seq!['p', 'l', 'a', 'n', 's'],
        "计划"@ =~= seq!['计', '划'],
        "risk"@ =~= seq!['r', 'i', 's', 'k'],
        "risks"@ =~= seq!['r', 'i', 's', 'k', 's'],
        "风险"@ =~= seq!['风', '险'],
        "workflow"@ =~= seq!['w', 'o', 'r', 'k', 'f', 'l', 'o', 'w'],
        "workflows"@ =~= seq!['w', 'o', 'r', 'k', 'f', 'l', 'o', 'w', 's'],
        "流程"@ =~= seq!['流', '程'],
        "工作流"@ =~= seq!['工', '作', '流'],
        "people"@ =~= seq!['p', 'e', 'o', 'p', 'l', 'e'],
        "person"@ =~= seq!['p', 'e', 'r', 's', 'o', 'n'],
        "成员"@ =~= seq!['成', '员'],
        "人员"@ =~= seq!['人', '员'],
        "user_profile"@ =~= seq!['u', 's', 'e', 'r', '_', 'p', 'r', 'o', 'f', 'i', 'l', 'e'],
        "profile"@ =~= seq!['p', 'r', 'o', 'f', 'i', 'l', 'e'],
        "画像"@ =~= seq!['画', '像'],
        "用户画像"@ =~= seq!['用', '户', '画', '像'],
        "relationship"@ =~= seq!['r', 'e', 'l', 'a', 't', 'i', 'o', 'n', 's', 'h', 'i', 'p'],
        "relationships"@ =~= seq!['r', 'e', 'l', 'a', 't', 'i', 'o', 'n', 's', 'h', 'i', 'p', 's'],
        "关系"@ =~= seq!['关', '系'],
        "关系图"@ =~= seq!['关', '系', '图'],
        "commitment"@ =~= seq!['c', 'o', 'm', 'm', 'i', 't', 'm', 'e', 'n', 't'],
        "commitments"@ =~= seq!['c', 'o', 'm', 'm', 'i', 't', 'm', 'e', 'n', 't', 's'],
        "承诺"@ =~= seq!['承', '诺'],
        "待办"@ =~= seq!['待', '办'],
        "pitfall"@ =~= seq!['p', 'i', 't', 'f', 'a', 'l', 'l'],
        "pitfalls"@ =~= seq!['p', 'i', 't', 'f', 'a', 'l', 'l', 's'],
        "坑点"@ =~= seq!['坑', '点'],
        "纠正"@ =~= seq!['纠', '正'],
        "emotional_event"@ =~= seq!['e', 'm', 'o', 't', 'i', 'o', 'n', 'a', 'l', '_', 'e', 'v', 'e', 'n', 't'],
        "emotion"@ =~= seq!['e', 'm', 'o', 't', 'i', 'o', 'n'],
        "affect"@ =~= seq!['a', 'f', 'f', 'e', 'c', 't'],
        "情感事件"@ =~= seq!['情', '感', '事', '件'],
{
    reveal_strlit("decision");
    reveal_strlit("决策");
    reveal_strlit("constraint");
    reveal_strlit("constraints");
    reveal_strlit("约束");
    reveal_strlit("限制");
    reveal_strlit("fact");
    reveal_strlit("facts");
    reveal_strlit("事实");
    reveal_strlit("preference");
    reveal_strlit("preferences");
    reveal_strlit("偏好");
    reveal_strlit("resource");
    reveal_strlit("resources");
    reveal_strlit("资料");
    reveal_strlit("资源");
    reveal_strlit("plan");
    reveal_strlit("plans");
    reveal_strlit("计划");
    reveal_strlit("risk");
    reveal_strlit("risks");
    reveal_strlit("风险");
    reveal_strlit("workflow");
    reveal_strlit("workflows");
    reveal_strlit("流程");
    reveal_strlit("工作流");
    reveal_strlit("people");
    reveal_strlit("person");
    reveal_strlit("成员");
    reveal_strlit("人员");
    reveal_strlit("user_profile");
    reveal_strlit("profile");
    reveal_strlit("画像");
    reveal_strlit("用户画像");
    reveal_strlit("relationship");
    reveal_strlit("relationships");
    reveal_strlit("关系");
    reveal_strlit("关系图");
    reveal_strlit("commitment");
    reveal_strlit("commitments");
    reveal_strlit("承诺");
    reveal_strlit("待办");
    reveal_strlit("pitfall");
    reveal_strlit("pitfalls");
    reveal_strlit("坑点");
    reveal_strlit("纠正");
    reveal_strlit("emotional_event");
    reveal_strlit("emotion");
    reveal_strlit("affect");
    reveal_strlit("情感事件");
}

proof fn lemma_plain_key(n: Seq<char>)
    requires
        n.len() > 0,
        forall|i: int| 0 <= i < n.len() ==> crate::text::ascii_lower_char(#[trigger] n[i]) == n[i],
        !crate::text::is_ws(n[0]),
        !crate::text::is_ws(n.last()),
    ensures
        ascii_lower(trim(n)) == n,
{
    crate::text::lemma_trim_untouched(n);
    assert(ascii_lower(n) =~= n);
}

proof fn lemma_canonical_decision()
    ensures
        canonical_route("decision"@) == Some("decision"@),
{
    lemma_route_words();
    lemma_plain_key("decision"@);

}

proof fn lemma_canonical_constraint()
    ensures
        canonical_route("constraint"@) == Some("constraint"@),
{
    lemma_route_words();
    lemma_plain_key("constraint"@);

}

proof fn lemma_canonical_fact()
    ensures
        canonical_route("fact"@) == Some("fact"@),
{
    lemma_route_words();
    lemma_plain_key("fact"@);

}

proof fn lemma_canonical_preference()
    ensures
        canonical_route("preference"@) == Some("preference"@),
{
    lemma_route_words();
    lemma_plain_key("preference"@);
    assert("preference"@[0] != "constraint"@[0]);
    assert("preference"@ != "constraint"@);
}

proof fn lemma_canonical_resource()
    ensures
        canonical_route("resource"@) == Some("resource"@),
{
    lemma_route_words();
    lemma_plain_key("resource"@);
    assert("resource"@[0] != "decision"@[0]);
    assert("resource"@ != "decision"@);
}

proof fn lemma_canonical_plan()
    ensures
        canonical_route("plan"@) == Some("plan"@),
{
    lemma_route_words();
    lemma_plain_key("plan"@);
    assert("plan"@[0] != "fact"@[0]);
    assert("plan"@ != "fact"@);
}

proof fn lemma_canonical_risk()
    ensures
        canonical_route("risk"@) == Some("risk"@),
{
    lemma_route_words();
    lemma_plain_key("risk"@);
    assert("risk"@[0] != "fact"@[0]);
    assert("risk"@ != "fact"@);
    assert("risk"@[0] != "plan"@[0]);
    assert("risk"@ != "plan"@);
}

proof fn lemma_canonical_workflow()
    ensures
        canonical_route("workflow"@) == Some("workflow"@),
{
    lemma_route_words();
    lemma_plain_key("workflow"@);
    assert("workflow"@[0] != "decision"@[0]);
    assert("workflow"@ != "decision"@);
    assert("workflow"@[0] != "resource"@[0]);
    assert("workflow"@ != "resource"@);
}

proof fn lemma_canonical_people()
    ensures
        canonical_route("people"@) == Some("people"@),
{
    lemma_route_words();
    lemma_plain_key("people"@);

}

proof fn lemma_canonical_user_profile()
    ensures
        canonical_route("user_profile"@) == Some("user_profile"@),
{
    lemma_route_words();
    lemma_plain_key("user_profile"@);

}

proof fn lemma_canonical_relationship()
    ensures
        canonical_route("relationship"@) == Some("relationship"@),
{
    lemma_route_words();
    lemma_plain_key("relationship"@);
    assert("relationship"@[0] != "user_profile"@[0]);
    assert("relationship"@ != "user_profile"@);
}

proof fn lemma_canonical_commitment()
    ensures
        canonical_route("commitment"@) == Some("commitment"@),
{
    lemma_route_words();
    lemma_plain_key("commitment"@);
    assert("commitment"@[2] != "constraint"@[2]);
    assert("commitment"@ != "constraint"@);
    assert("commitment"@[0] != "preference"@[0]);
    assert("commitment"@ != "preference"@);
}

proof fn lemma_canonical_pitfall()
    ensures
        canonical_route("pitfall"@) == Some("pitfall"@),
{
    lemma_route_words();
    lemma_plain_key("pitfall"@);
    assert("pitfall"@[1] != "profile"@[1]);
    assert("pitfall"@ != "profile"@);
}

proof fn lemma_canonical_emotional_event()
    ensures
        canonical_route("emotional_event"@) == Some("emotional_event"@),
{
    lemma_route_words();
    lemma_plain_key("emotional_event"@);

}

/// The names of all memory routes, as a verdict's routing lists them.
pub open spec fn all_route_names() -> Seq<Seq<char>> {
    let all = MemoryGate {
        should_write: true,
        decision: true,
        constraint: true,
        fact: true,
        preference: true,
        resource: true,
        plan: true,
        risk: true,
        workflow: true,
        people: true,
        user_profile: true,
        relationship: true,
        commitment: true,
        pitfall: true,
        emotional_event: true,
    };
    all.spec_shared_routes() + all.spec_private_routes()
}

proof fn lemma_alias_1()
    ensures
        canonical_route("决策"@) == Some("decision"@),
{
    lemma_route_words();
    lemma_plain_key("决策"@);

}

proof fn lemma_alias_2()
    ensures
        canonical_route("constraints"@) == Some("constraint"@),
{
    lemma_route_words();
    lemma_plain_key("constraints"@);

}

proof fn lemma_alias_3()
    ensures
        canonical_route("约束"@) == Some("constraint"@),
{
    lemma_route_words();
    lemma_plain_key("约束"@);
    assert("约束"@[0] != "决策"@[0]);
    assert("约束"@ != "决策"@);
}

proof fn lemma_alias_4()
    ensures
        canonical_route("限制"@) == Some("constraint"@),
{
    lemma_route_words();
    lemma_plain_key("限制"@);
    assert("限制"@[0] != "决策"@[0]);
    assert("限制"@ != "决策"@);
}

proof fn lemma_alias_5()
    ensures
        canonical_route("facts"@) == Some("fact"@),
{
    lemma_route_words();
    lemma_plain_key("facts"@);

}

proof fn lemma_alias_6()
    ensures
        canonical_route("事实"@) == Some("fact"@),
{
    lemma_route_words();
    lemma_plain_key("事实"@);
    assert("事实"@[0] != "决策"@[0]);
    assert("事实"@ != "决策"@);
    assert("事实"@[0] != "约束"@[0]);
    assert("事实"@ != "约束"@);
    assert("事实"@[0] != "限制"@[0]);
    assert("事实"@ != "限制"@);
}

proof fn lemma_alias_7()
    ensures
        canonical_route("preferences"@) == Some("preference"@),
{
    lemma_route_words();
    lemma_plain_key("preferences"@);
    assert("preferences"@[0] != "constraints"@[0]);
    assert("preferences"@ != "constraints"@);
}

proof fn lemma_alias_8()
    ensures
        canonical_route("偏好"@) == Some("preference"@),
{
    lemma_route_words();
    lemma_plain_key("偏好"@);
    assert("偏好"@[0] != "决策"@[0]);
    assert("偏好"@ != "决策"@);
    assert("偏好"@[0] != "约束"@[0]);
    assert("偏好"@ != "约束"@);
    assert("偏好"@[0] != "限制"@[0]);
    assert("偏好"@ != "限制"@);
    assert("偏好"@[0] != "事实"@[0]);
    assert("偏好"@ != "事实"@);
}

proof fn lemma_alias_9()
    ensures
        canonical_route("resources"@) == Some("resource"@),
{
    lemma_route_words();
    lemma_plain_key("resources"@);

}

proof fn lemma_alias_10()
    ensures
        canonical_route("资料"@) == Some("resource"@),
{
    lemma_route_words();
    lemma_plain_key("资料"@);
    assert("资料"@[0] != "决策"@[0]);
    assert("资料"@ != "决策"@);
    assert("资料"@[0] != "约束"@[0]);
    assert("资料"@ != "约束"@);
    assert("资料"@[0] != "限制"@[0]);
    assert("资料"@ != "限制"@);
    assert("资料"@[0] != "事实"@[0]);
    assert("资料"@ != "事实"@);
    assert("资料"@[0] != "偏好"@[0]);
    assert("资料"@ != "偏好"@);
}

proof fn lemma_alias_11()
    ensures
        canonical_route("资源"@) == Some("resource"@),
{
    lemma_route_words();
    lemma_plain_key("资源"@);
    assert("资源"@[0] != "决策"@[0]);
    assert("资源"@ != "决策"@);
    assert("资源"@[0] != "约束"@[0]);
    assert("资源"@ != "约束"@);
    assert("资源"@[0] != "限制"@[0]);
    assert("资源"@ != "限制"@);
    assert("资源"@[0] != "事实"@[0]);
    assert("资源"@ != "事实"@);
    assert("资源"@[0] != "偏好"@[0]);
    assert("资源"@ != "偏好"@);
}

proof fn lemma_alias_12()
    ensures
        canonical_route("plans"@) == Some("plan"@),
{
    lemma_route_words();
    lemma_plain_key("plans"@);
    assert("plans"@[0] != "facts"@[0]);
    assert("plans"@ != "facts"@);
}

proof fn lemma_alias_13()
    ensures
        canonical_route("计划"@) == Some("plan"@),
{
    lemma_route_words();
    lemma_plain_key("计划"@);
    assert("计划"@[0] != "决策"@[0]);
    assert("计划"@ != "决策"@);
    assert("计划"@[0] != "约束"@[0]);
    assert("计划"@ != "约束"@);
    assert("计划"@[0] != "限制"@[0]);
    assert("计划"@ != "限制"@);
    assert("计划"@[0] != "事实"@[0]);
    assert("计划"@ != "事实"@);
    assert("计划"@[0] != "偏好"@[0]);
    assert("计划"@ != "偏好"@);
    assert("计划"@[0] != "资料"@[0]);
    assert("计划"@ != "资料"@);
    assert("计划"@[0] != "资源"@[0]);
    assert("计划"@ != "资源"@);
}

proof fn lemma_alias_14()
    ensures
        canonical_route("risks"@) == Some("risk"@),
{
    lemma_route_words();
    lemma_plain_key("risks"@);
    assert("risks"@[0] != "facts"@[0]);
    assert("risks"@ != "facts"@);
    assert("risks"@[0] != "plans"@[0]);
    assert("risks"@ != "plans"@);
}

proof fn lemma_alias_15()
    ensures
        canonical_route("风险"@) == Some("risk"@),
{
    lemma_route_words();
    lemma_plain_key("风险"@);
    assert("风险"@[0] != "决策"@[0]);
    assert("风险"@ != "决策"@);
    assert("风险"@[0] != "约束"@[0]);
    assert("风险"@ != "约束"@);
    assert("风险"@[0] != "限制"@[0]);
    assert("风险"@ != "限制"@);
    assert("风险"@[0] != "事实"@[0]);
    assert("风险"@ != "事实"@);
    assert("风险"@[0] != "偏好"@[0]);
    assert("风险"@ != "偏好"@);
    assert("风险"@[0] != "资料"@[0]);
    assert("风险"@ != "资料"@);
    assert("风险"@[0] != "资源"@[0]);
    assert("风险"@ != "资源"@);
    assert("风险"@[0] != "计划"@[0]);
    assert("风险"@ != "计划"@);
}

proof fn lemma_alias_16()
    ensures
        canonical_route("workflows"@) == Some("workflow"@),
{
    lemma_route_words();
    lemma_plain_key("workflows"@);
    assert("workflows"@[0] != "resources"@[0]);
    assert("workflows"@ != "resources"@);
}

proof fn lemma_alias_17()
    ensures
        canonical_route("流程"@) == Some("workflow"@),
{
    lemma_route_words();
    lemma_plain_key("流程"@);
    assert("流程"@[0] != "决策"@[0]);
    assert("流程"@ != "决策"@);
    assert("流程"@[0] != "约束"@[0]);
    assert("流程"@ != "约束"@);
    assert("流程"@[0] != "限制"@[0]);
    assert("流程"@ != "限制"@);
    assert("流程"@[0] != "事实"@[0]);
    assert("流程"@ != "事实"@);
    assert("流程"@[0] != "偏好"@[0]);
    assert("流程"@ != "偏好"@);
    assert("流程"@[0] != "资料"@[0]);
    assert("流程"@ != "资料"@);
    assert("流程"@[0] != "资源"@[0]);
    assert("流程"@ != "资源"@);
    assert("流程"@[0] != "计划"@[0]);
    assert("流程"@ != "计划"@);
    assert("流程"@[0] != "风险"@[0]);
    assert("流程"@ != "风险"@);
}

proof fn lemma_alias_18()
    ensures
        canonical_route("工作流"@) == Some("workflow"@),
{
    lemma_route_words();
    lemma_plain_key("工作流"@);

}

proof fn lemma_alias_19()
    ensures
        canonical_route("person"@) == Some("people"@),
{
    lemma_route_words();
    lemma_plain_key("person"@);

}

proof fn lemma_alias_20()
    ensures
        canonical_route("成员"@) == Some("people"@),
{
    lemma_route_words();
    lemma_plain_key("成员"@);
    assert("成员"@[0] != "决策"@[0]);
    assert("成员"@ != "决策"@);
    assert("成员"@[0] != "约束"@[0]);
    assert("成员"@ != "约束"@);
    assert("成员"@[0] != "限制"@[0]);
    assert("成员"@ != "限制"@);
    assert("成员"@[0] != "事实"@[0]);
    assert("成员"@ != "事实"@);
    assert("成员"@[0] != "偏好"@[0]);
    assert("成员"@ != "偏好"@);
    assert("成员"@[0] != "资料"@[0]);
    assert("成员"@ != "资料"@);
    assert("成员"@[0] != "资源"@[0]);
    assert("成员"@ != "资源"@);
    assert("成员"@[0] != "计划"@[0]);
    assert("成员"@ != "计划"@);
    assert("成员"@[0] != "风险"@[0]);
    assert("成员"@ != "风险"@);
    assert("成员"@[0] != "流程"@[0]);
    assert("成员"@ != "流程"@);
}

proof fn lemma_alias_21()
    ensures
        canonical_route("人员"@) == Some("people"@),
{
    lemma_route_words();
    lemma_plain_key("人员"@);
    assert("人员"@[0] != "决策"@[0]);
    assert("人员"@ != "决策"@);
    assert("人员"@[0] != "约束"@[0]);
    assert("人员"@ != "约束"@);
    assert("人员"@[0] != "限制"@[0]);
    assert("人员"@ != "限制"@);
    assert("人员"@[0] != "事实"@[0]);
    assert("人员"@ != "事实"@);
    assert("人员"@[0] != "偏好"@[0]);
    assert("人员"@ != "偏好"@);
    assert("人员"@[0] != "资料"@[0]);
    assert("人员"@ != "资料"@);
    assert("人员"@[0] != "资源"@[0]);
    assert("人员"@ != "资源"@);
    assert("人员"@[0] != "计划"@[0]);
    assert("人员"@ != "计划"@);
    assert("人员"@[0] != "风险"@[0]);
    assert("人员"@ != "风险"@);
    assert("人员"@[0] != "流程"@[0]);
    assert("人员"@ != "流程"@);
}

proof fn lemma_alias_22()
    ensures
        canonical_route("profile"@) == Some("user_profile"@),
{
    lemma_route_words();
    lemma_plain_key("profile"@);

}

proof fn lemma_alias_23()
    ensures
        canonical_route("画像"@) == Some("user_profile"@),
{
    lemma_route_words();
    lemma_plain_key("画像"@);
    assert("画像"@[0] != "决策"@[0]);
    assert("画像"@ != "决策"@);
    assert("画像"@[0] != "约束"@[0]);
    assert("画像"@ != "约束"@);
    assert("画像"@[0] != "限制"@[0]);
    assert("画像"@ != "限制"@);
    assert("画像"@[0] != "事实"@[0]);
    assert("画像"@ != "事实"@);
    assert("画像"@[0] != "偏好"@[0]);
    assert("画像"@ != "偏好"@);
    assert("画像"@[0] != "资料"@[0]);
    assert("画像"@ != "资料"@);
    assert("画像"@[0] != "资源"@[0]);
    assert("画像"@ != "资源"@);
    assert("画像"@[0] != "计划"@[0]);
    assert("画像"@ != "计划"@);
    assert("画像"@[0] != "风险"@[0]);
    assert("画像"@ != "风险"@);
    assert("画像"@[0] != "流程"@[0]);
    assert("画像"@ != "流程"@);
    assert("画像"@[0] != "成员"@[0]);
    assert("画像"@ != "成员"@);
    assert("画像"@[0] != "人员"@[0]);
    assert("画像"@ != "人员"@);
}

proof fn lemma_alias_24()
    ensures
        canonical_route("用户画像"@) == Some("user_profile"@),
{
    lemma_route_words();
    lemma_plain_key("用户画像"@);
    assert("用户画像"@[0] != "fact"@[0]);
    assert("用户画像"@ != "fact"@);
    assert("用户画像"@[0] != "plan"@[0]);
    assert("用户画像"@ != "plan"@);
    assert("用户画像"@[0] != "risk"@[0]);
    assert("用户画像"@ != "risk"@);
}

proof fn lemma_alias_25()
    ensures
        canonical_route("relationships"@) == Some("relationship"@),
{
    lemma_route_words();
    lemma_plain_key("relationships"@);

}

proof fn lemma_alias_26()
    ensures
        canonical_route("关系"@) == Some("relationship"@),
{
    lemma_route_words();
    lemma_plain_key("关系"@);
    assert("关系"@[0] != "决策"@[0]);
    assert("关系"@ != "决策"@);
    assert("关系"@[0] != "约束"@[0]);
    assert("关系"@ != "约束"@);
    assert("关系"@[0] != "限制"@[0]);
    assert("关系"@ != "限制"@);
    assert("关系"@[0] != "事实"@[0]);
    assert("关系"@ != "事实"@);
    assert("关系"@[0] != "偏好"@[0]);
    assert("关系"@ != "偏好"@);
    assert("关系"@[0] != "资料"@[0]);
    assert("关系"@ != "资料"@);
    assert("关系"@[0] != "资源"@[0]);
    assert("关系"@ != "资源"@);
    assert("关系"@[0] != "计划"@[0]);
    assert("关系"@ != "计划"@);
    assert("关系"@[0] != "风险"@[0]);
    assert("关系"@ != "风险"@);
    assert("关系"@[0] != "流程"@[0]);
    assert("关系"@ != "流程"@);
    assert("关系"@[0] != "成员"@[0]);
    assert("关系"@ != "成员"@);
    assert("关系"@[0] != "人员"@[0]);
    assert("关系"@ != "人员"@);
    assert("关系"@[0] != "画像"@[0]);
    assert("关系"@ != "画像"@);
}

proof fn lemma_alias_27()
    ensures
        canonical_route("关系图"@) == Some("relationship"@),
{
    lemma_route_words();
    lemma_plain_key("关系图"@);
    assert("关系图"@[0] != "工作流"@[0]);
    assert("关系图"@ != "工作流"@);
}

proof fn lemma_alias_28()
    ensures
        canonical_route("commitments"@) == Some("commitment"@),
{
    lemma_route_words();
    lemma_plain_key("commitments"@);
    assert("commitments"@[2] != "constraints"@[2]);
    assert("commitments"@ != "constraints"@);
    assert("commitments"@[0] != "preferences"@[0]);
    assert("commitments"@ != "preferences"@);
}

proof fn lemma_alias_29()
    ensures
        canonical_route("承诺"@) == Some("commitment"@),
{
    lemma_route_words();
    lemma_plain_key("承诺"@);
    assert("承诺"@[0] != "决策"@[0]);
    assert("承诺"@ != "决策"@);
    assert("承诺"@[0] != "约束"@[0]);
    assert("承诺"@ != "约束"@);
    assert("承诺"@[0] != "限制"@[0]);
    assert("承诺"@ != "限制"@);
    assert("承诺"@[0] != "事实"@[0]);
    assert("承诺"@ != "事实"@);
    assert("承诺"@[0] != "偏好"@[0]);
    assert("承诺"@ != "偏好"@);
    assert("承诺"@[0] != "资料"@[0]);
    assert("承诺"@ != "资料"@);
    assert("承诺"@[0] != "资源"@[0]);
    assert("承诺"@ != "资源"@);
    assert("承诺"@[0] != "计划"@[0]);
    assert("承诺"@ != "计划"@);
    assert("承诺"@[0] != "风险"@[0]);
    assert("承诺"@ != "风险"@);
    assert("承诺"@[0] != "流程"@[0]);
    assert("承诺"@ != "流程"@);
    assert("承诺"@[0] != "成员"@[0]);
    assert("承诺"@ != "成员"@);
    assert("承诺"@[0] != "人员"@[0]);
    assert("承诺"@ != "人员"@);
    assert("承诺"@[0] != "画像"@[0]);
    assert("承诺"@ != "画像"@);
    assert("承诺"@[0] != "关系"@[0]);
    assert("承诺"@ != "关系"@);
}

proof fn lemma_alias_30()
    ensures
        canonical_route("待办"@) == Some("commitment"@),
{
    lemma_route_words();
    lemma_plain_key("待办"@);
    assert("待办"@[0] != "决策"@[0]);
    assert("待办"@ != "决策"@);
    assert("待办"@[0] != "约束"@[0]);
    assert("待办"@ != "约束"@);
    assert("待办"@[0] != "限制"@[0]);
    assert("待办"@ != "限制"@);
    assert("待办"@[0] != "事实"@[0]);
    assert("待办"@ != "事实"@);
    assert("待办"@[0] != "偏好"@[0]);
    assert("待办"@ != "偏好"@);
    assert("待办"@[0] != "资料"@[0]);
    assert("待办"@ != "资料"@);
    assert("待办"@[0] != "资源"@[0]);
    assert("待办"@ != "资源"@);
    assert("待办"@[0] != "计划"@[0]);
    assert("待办"@ != "计划"@);
    assert("待办"@[0] != "风险"@[0]);
    assert("待办"@ != "风险"@);
    assert("待办"@[0] != "流程"@[0]);
    assert("待办"@ != "流程"@);
    assert("待办"@[0] != "成员"@[0]);
    assert("待办"@ != "成员"@);
    assert("待办"@[0] != "人员"@[0]);
    assert("待办"@ != "人员"@);
    assert("待办"@[0] != "画像"@[0]);
    assert("待办"@ != "画像"@);
    assert("待办"@[0] != "关系"@[0]);
    assert("待办"@ != "关系"@);
}

proof fn lemma_alias_31()
    ensures
        canonical_route("pitfalls"@) == Some("pitfall"@),
{
    lemma_route_words();
    lemma_plain_key("pitfalls"@);
    assert("pitfalls"@[0] != "decision"@[0]);
    assert("pitfalls"@ != "decision"@);
    assert("pitfalls"@[0] != "resource"@[0]);
    assert("pitfalls"@ != "resource"@);
    assert("pitfalls"@[0] != "workflow"@[0]);
    assert("pitfalls"@ != "workflow"@);
}

proof fn lemma_alias_32()
    ensures
        canonical_route("坑点"@) == Some("pitfall"@),
{
    lemma_route_words();
    lemma_plain_key("坑点"@);
    assert("坑点"@[0] != "决策"@[0]);
    assert("坑点"@ != "决策"@);
    assert("坑点"@[0] != "约束"@[0]);
    assert("坑点"@ != "约束"@);
    assert("坑点"@[0] != "限制"@[0]);
    assert("坑点"@ != "限制"@);
    assert("坑点"@[0] != "事实"@[0]);
    assert("坑点"@ != "事实"@);
    assert("坑点"@[0] != "偏好"@[0]);
    assert("坑点"@ != "偏好"@);
    assert("坑点"@[0] != "资料"@[0]);
    assert("坑点"@ != "资料"@);
    assert("坑点"@[0] != "资源"@[0]);
    assert("坑点"@ != "资源"@);
    assert("坑点"@[0] != "计划"@[0]);
    assert("坑点"@ != "计划"@);
    assert("坑点"@[0] != "风险"@[0]);
    assert("坑点"@ != "风险"@);
    assert("坑点"@[0] != "流程"@[0]);
    assert("坑点"@ != "流程"@);
    assert("坑点"@[0] != "成员"@[0]);
    assert("坑点"@ != "成员"@);
    assert("坑点"@[0] != "人员"@[0]);
    assert("坑点"@ != "人员"@);
    assert("坑点"@[0] != "画像"@[0]);
    assert("坑点"@ != "画像"@);
    assert("坑点"@[0] != "关系"@[0]);
    assert("坑点"@ != "关系"@);
    assert("坑点"@[0] != "承诺"@[0]);
    assert("坑点"@ != "承诺"@);
    assert("坑点"@[0] != "待办"@[0]);
    assert("坑点"@ != "待办"@);
}

proof fn lemma_alias_33()
    ensures
        canonical_route("纠正"@) == Some("pitfall"@),
{
    lemma_route_words();
    lemma_plain_key("纠正"@);
    assert("纠正"@[0] != "决策"@[0]);
    assert("纠正"@ != "决策"@);
    assert("纠正"@[0] != "约束"@[0]);
    assert("纠正"@ != "约束"@);
    assert("纠正"@[0] != "限制"@[0]);
    assert("纠正"@ != "限制"@);
    assert("纠正"@[0] != "事实"@[0]);
    assert("纠正"@ != "事实"@);
    assert("纠正"@[0] != "偏好"@[0]);
    assert("纠正"@ != "偏好"@);
    assert("纠正"@[0] != "资料"@[0]);
    assert("纠正"@ != "资料"@);
    assert("纠正"@[0] != "资源"@[0]);
    assert("纠正"@ != "资源"@);
    assert("纠正"@[0] != "计划"@[0]);
    assert("纠正"@ != "计划"@);
    assert("纠正"@[0] != "风险"@[0]);
    assert("纠正"@ != "风险"@);
    assert("纠正"@[0] != "流程"@[0]);
    assert("纠正"@ != "流程"@);
    assert("纠正"@[0] != "成员"@[0]);
    assert("纠正"@ != "成员"@);
    assert("纠正"@[0] != "人员"@[0]);
    assert("纠正"@ != "人员"@);
    assert("纠正"@[0] != "画像"@[0]);
    assert("纠正"@ != "画像"@);
    assert("纠正"@[0] != "关系"@[0]);
    assert("纠正"@ != "关系"@);
    assert("纠正"@[0] != "承诺"@[0]);
    assert("纠正"@ != "承诺"@);
    assert("纠正"@[0] != "待办"@[0]);
    assert("纠正"@ != "待办"@);
}

proof fn lemma_alias_34()
    ensures
        canonical_route("emotion"@) == Some("emotional_event"@),
{
    lemma_route_words();
    lemma_plain_key("emotion"@);
    assert("emotion"@[0] != "profile"@[0]);
    assert("emotion"@ != "profile"@);
    assert("emotion"@[0] != "pitfall"@[0]);
    assert("emotion"@ != "pitfall"@);
}

proof fn lemma_alias_35()
    ensures
        canonical_route("affect"@) == Some("emotional_event"@),
{
    lemma_route_words();
    lemma_plain_key("affect"@);
    assert("affect"@[0] != "people"@[0]);
    assert("affect"@ != "people"@);
    assert("affect"@[0] != "person"@[0]);
    assert("affect"@ != "person"@);
}

proof fn lemma_alias_36()
    ensures
        canonical_route("情感事件"@) == Some("emotional_event"@),
{
    lemma_route_words();
    lemma_plain_key("情感事件"@);
    assert("情感事件"@[0] != "fact"@[0]);
    assert("情感事件"@ != "fact"@);
    assert("情感事件"@[0] != "plan"@[0]);
    assert("情感事件"@ != "plan"@);
    assert("情感事件"@[0] != "risk"@[0]);
    assert("情感事件"@ != "risk"@);
    assert("情感事件"@[0] != "用户画像"@[0]);
    assert("情感事件"@ != "用户画像"@);
}

/// Every alias names its route: the plural and other English names and the Chinese names.
pub proof fn lemma_route_aliases()
    ensures
        canonical_route("决策"@) == Some("decision"@),
        canonical_route("constraints"@) == Some("constraint"@),
        canonical_route("约束"@) == Some("constraint"@),
        canonical_route("限制"@) == Some("constraint"@),
        canonical_route("facts"@) == Some("fact"@),
        canonical_route("事实"@) == Some("fact"@),
        canonical_route("preferences"@) == Some("preference"@),
        canonical_route("偏好"@) == Some("preference"@),
        canonical_route("resources"@) == Some("resource"@),
        canonical_route("资料"@) == Some("resource"@),
        canonical_route("资源"@) == Some("resource"@),
        canonical_route("plans"@) == Some("plan"@),
        canonical_route("计划"@) == Some("plan"@),
        canonical_route("risks"@) == Some("risk"@),
        canonical_route("风险"@) == Some("risk"@),
        canonical_route("workflows"@) == Some("workflow"@),
        canonical_route("流程"@) == Some("workflow"@),
        canonical_route("工作流"@) == Some("workflow"@),
        canonical_route("person"@) == Some("people"@),
        canonical_route("成员"@) == Some("people"@),
        canonical_route("人员"@) == Some("people"@),
        canonical_route("profile"@) == Some("user_profile"@),
        canonical_route("画像"@) == Some("user_profile"@),
        canonical_route("用户画像"@) == Some("user_profile"@),
        canonical_route("relationships"@) == Some("relationship"@),
        canonical_route("关系"@) == Some("relationship"@),
        canonical_route("关系图"@) == Some("relationship"@),
        canonical_route("commitments"@) == Some("commitment"@),
        canonical_route("承诺"@) == Some("commitment"@),
        canonical_route("待办"@) == Some("commitment"@),
        canonical_route("pitfalls"@) == Some("pitfall"@),
        canonical_route("坑点"@) == Some("pitfall"@),
        canonical_route("纠正"@) == Some("pitfall"@),
        canonical_route("emotion"@) == Some("emotional_event"@),
        canonical_route("affect"@) == Some("emotional_event"@),
        canonical_route("情感事件"@) == Some("emotional_event"@),
{
    lemma_alias_1();
    lemma_alias_2();
    lemma_alias_3();
    lemma_alias_4();
    lemma_alias_5();
    lemma_alias_6();
    lemma_alias_7();
    lemma_alias_8();
    lemma_alias_9();
    lemma_alias_10();
    lemma_alias_11();
    lemma_alias_12();
    lemma_alias_13();
    lemma_alias_14();
    lemma_alias_15();
    lemma_alias_16();
    lemma_alias_17();
    lemma_alias_18();
    lemma_alias_19();
    lemma_alias_20();
    lemma_alias_21();
    lemma_alias_22();
    lemma_alias_23();
    lemma_alias_24();
    lemma_alias_25();
    lemma_alias_26();
    lemma_alias_27();
    lemma_alias_28();
    lemma_alias_29();
    lemma_alias_30();
    lemma_alias_31();
    lemma_alias_32();
    lemma_alias_33();
    lemma_alias_34();
    lemma_alias_35();
    lemma_alias_36();
}

proof fn lemma_all_route_names()
    ensures
        all_route_names() == seq![
        "decision"@,
        "constraint"@,
        "fact"@,
        "preference"@,
        "resource"@,
        "plan"@,
        "risk"@,
        "workflow"@,
        "people"@,
        "user_profile"@,
        "relationship"@,
        "commitment"@,
        "pitfall"@,
        "emotional_event"@,
    ],
{
    assert(all_route_names() =~= seq![
        "decision"@,
        "constraint"@,
        "fact"@,
        "preference"@,
        "resource"@,
        "plan"@,
        "risk"@,
        "workflow"@,
        "people"@,
        "user_profile"@,
        "relationship"@,
        "commitment"@,
        "pitfall"@,
        "emotional_event"@,
    ]);
}

/// Every route name a verdict's routing can list is its own canonical name.
pub proof fn lemma_route_names_are_canonical()
    ensures
        all_route_names().len() == 14,
        forall|i: int| 0 <= i < all_route_names().len() ==> canonical_route(#[trigger] all_route_names()[i])
            == Some(all_route_names()[i]),
{
    lemma_all_route_names();
    lemma_canonical_decision();
    lemma_canonical_constraint();
    lemma_canonical_fact();
    lemma_canonical_preference();
    lemma_canonical_resource();
    lemma_canonical_plan();
    lemma_canonical_risk();
    lemma_canonical_workflow();
    lemma_canonical_people();
    lemma_canonical_user_profile();
    lemma_canonical_relationship();
    lemma_canonical_commitment();
    lemma_canonical_pitfall();
    lemma_canonical_emotional_event();
    let names = all_route_names();
    assert forall|i: int| 0 <= i < names.len() implies canonical_route(#[trigger] names[i]) == Some(names[i]) by {
    }
}

/// Whatever a route alias maps to is the name of a route.
pub proof fn lemma_canonical_route_is_a_route_name(r: Seq<char>)
    ensures
        canonical_route(r) matches Some(c) ==> all_route_names().contains(c),
{
    lemma_all_route_names();
    let names = all_route_names();
    if let Some(c) = canonical_route(r) {
        if c == "decision"@ {
            assert(names[0] == c);
        } else if c == "constraint"@ {
            assert(names[1] == c);
        } else if c == "fact"@ {
            assert(names[2] == c);
        } else if c == "preference"@ {
            assert(names[3] == c);
        } else if c == "resource"@ {
            assert(names[4] == c);
        } else if c == "plan"@ {
            assert(names[5] == c);
        } else if c == "risk"@ {
            assert(names[6] == c);
        } else if c == "workflow"@ {
            assert(names[7] == c);
        } else if c == "people"@ {
            assert(names[8] == c);
        } else if c == "user_profile"@ {
            assert(names[9] == c);
        } else if c == "relationship"@ {
            assert(names[10] == c);
        } else if c == "commitment"@ {
            assert(names[11] == c);
        } else if c == "pitfall"@ {
            assert(names[12] == c);
        } else if c == "emotional_event"@ {
            assert(names[13] == c);
        }
    }
}

} // verus!
