//! JSON values as the library holds them, and the removal of provider replay state (reasoning
//! text and signatures) from recorded session messages.
use vstd::prelude::*;
use crate::text::{chars_eq_str, decimal, str_chars};

verus! {

/// A JSON value. A number is held as its JSON text; an object's members keep their order and
/// no key occurs twice.
pub enum JsonValue {
    Null,
    Bool(bool),
    Number(String),
    Str(String),
    Array(Vec<JsonValue>),
    Object(Vec<(String, JsonValue)>),
}

/// The mathematical form of a JSON value.
pub enum JsonModel {
    Null,
    Bool(bool),
    Number(Seq<char>),
    Str(Seq<char>),
    Array(Seq<JsonModel>),
    Object(Seq<(Seq<char>, JsonModel)>),
}

/// The model of a value.
pub open spec fn json_model(v: JsonValue) -> JsonModel
    decreases v,
{
    match v {
        JsonValue::Null => JsonModel::Null,
        JsonValue::Bool(b) => JsonModel::Bool(b),
        JsonValue::Number(n) => JsonModel::Number(n@),
        JsonValue::Str(s) => JsonModel::Str(s@),
        JsonValue::Array(items) => JsonModel::Array(items_model(items@)),
        JsonValue::Object(fields) => JsonModel::Object(fields_model(fields@)),
    }
}

/// The models of a sequence of values.
pub open spec fn items_model(s: Seq<JsonValue>) -> Seq<JsonModel>
    decreases s,
{
    if s.len() == 0 {
        Seq::empty()
    } else {
        items_model(s.drop_last()).push(json_model(s.last()))
    }
}

/// The models of a sequence of object members.
pub open spec fn fields_model(s: Seq<(String, JsonValue)>) -> Seq<(Seq<char>, JsonModel)>
    decreases s,
{
    if s.len() == 0 {
        Seq::empty()
    } else {
        fields_model(s.drop_last()).push((s.last().0@, json_model(s.last().1)))
    }
}

impl View for JsonValue {
    type V = JsonModel;

    open spec fn view(&self) -> JsonModel {
        json_model(*self)
    }
}

/// Keys under which providers keep reasoning text and signatures.
pub open spec fn is_replay_key(k: Seq<char>) -> bool {
    ||| k == "reasoning_content"@
    ||| k == "reasoningContent"@
    ||| k == "reasoning_details"@
    ||| k == "reasoningDetails"@
    ||| k == "reasoning"@
    ||| k == "thinkingSignature"@
    ||| k == "thoughtSignature"@
}

/// Content block types that carry reasoning.
pub open spec fn is_thinking_kind(k: Seq<char>) -> bool {
    ||| k == "thinking"@
    ||| k == "reasoning"@
    ||| k == "reasoning_content"@
    ||| k == "reasoningContent"@
    ||| k == "redacted_thinking"@
}

/// The value of the member `key`, if there is one (the last one, should the key occur twice,
/// as a JSON parser keeps it).
pub open spec fn member(fields: Seq<(Seq<char>, JsonModel)>, key: Seq<char>) -> Option<JsonModel>
    decreases fields.len(),
{
    if fields.len() == 0 {
        None
    } else if fields.last().0 == key {
        Some(fields.last().1)
    } else {
        member(fields.drop_last(), key)
    }
}

/// An object whose `type` member is a string naming a reasoning block.
pub open spec fn is_thinking_block(m: JsonModel) -> bool {
    match m {
        JsonModel::Object(fields) => match member(fields, "type"@) {
            Some(JsonModel::Str(kind)) => is_thinking_kind(kind),
            _ => false,
        },
        _ => false,
    }
}

/// A value without its replay state: objects lose their replay keys, arrays lose their
/// reasoning blocks, and what is left is stripped in turn.
pub open spec fn stripped(m: JsonModel) -> JsonModel
    decreases m,
{
    match m {
        JsonModel::Array(items) => JsonModel::Array(stripped_items(items)),
        JsonModel::Object(fields) => JsonModel::Object(stripped_fields(fields)),
        _ => m,
    }
}

/// The items kept, each stripped.
pub open spec fn stripped_items(s: Seq<JsonModel>) -> Seq<JsonModel>
    decreases s,
{
    if s.len() == 0 {
        Seq::empty()
    } else if is_thinking_block(s.last()) {
        stripped_items(s.drop_last())
    } else {
        stripped_items(s.drop_last()).push(stripped(s.last()))
    }
}

/// The members kept, each value stripped.
pub open spec fn stripped_fields(s: Seq<(Seq<char>, JsonModel)>) -> Seq<(Seq<char>, JsonModel)>
    decreases s,
{
    if s.len() == 0 {
        Seq::empty()
    } else if is_replay_key(s.last().0) {
        stripped_fields(s.drop_last())
    } else {
        stripped_fields(s.drop_last()).push((s.last().0, stripped(s.last().1)))
    }
}

/// Whether a value holds any replay state to remove.
pub open spec fn has_replay_state(m: JsonModel) -> bool
    decreases m,
{
    match m {
        JsonModel::Array(items) => items_have_replay_state(items),
        JsonModel::Object(fields) => fields_have_replay_state(fields),
        _ => false,
    }
}

/// Whether an item is a reasoning block or holds replay state.
pub open spec fn items_have_replay_state(s: Seq<JsonModel>) -> bool
    decreases s,
{
    if s.len() == 0 {
        false
    } else {
        items_have_replay_state(s.drop_last()) || is_thinking_block(s.last()) || has_replay_state(
            s.last(),
        )
    }
}

/// Whether a member has a replay key or a value holding replay state.
pub open spec fn fields_have_replay_state(s: Seq<(Seq<char>, JsonModel)>) -> bool
    decreases s,
{
    if s.len() == 0 {
        false
    } else {
        fields_have_replay_state(s.drop_last()) || is_replay_key(s.last().0) || has_replay_state(
            s.last().1,
        )
    }
}

/// A member's model, position by position.
pub proof fn lemma_fields_model(s: Seq<(String, JsonValue)>)
    ensures
        fields_model(s).len() == s.len(),
        forall|i: int|
            0 <= i < s.len() ==> #[trigger] fields_model(s)[i] == (s[i].0@, json_model(s[i].1)),
    decreases s.len(),
{
    if s.len() > 0 {
        lemma_fields_model(s.drop_last());
        assert forall|i: int| 0 <= i < s.len() implies #[trigger] fields_model(s)[i] == (
            s[i].0@,
            json_model(s[i].1),
        ) by {
            if i < s.len() - 1 {
                assert(s.drop_last()[i] == s[i]);
            }
        }
    }
}

/// `member` finds the last member with the key.
pub proof fn lemma_member(f: Seq<(Seq<char>, JsonModel)>, key: Seq<char>, i: int)
    requires
        -1 <= i < f.len(),
        forall|j: int| i < j < f.len() ==> f[j].0 != key,
    ensures
        i >= 0 && f[i].0 == key ==> member(f, key) == Some(f[i].1),
        i == -1 ==> member(f, key) is None,
    decreases f.len(),
{
    if i < f.len() - 1 {
        let g = f.drop_last();
        assert forall|j: int| i < j < g.len() implies g[j].0 != key by {
            assert(g[j] == f[j]);
        }
        lemma_member(g, key, i);
        if i >= 0 {
            assert(g[i] == f[i]);
        }
    }
}

fn replay_key(k: &str) -> (b: bool)
    ensures
        b == is_replay_key(k@),
{
    let c = str_chars(k);
    chars_eq_str(&c, "reasoning_content") || chars_eq_str(&c, "reasoningContent") || chars_eq_str(
        &c,
        "reasoning_details",
    ) || chars_eq_str(&c, "reasoningDetails") || chars_eq_str(&c, "reasoning") || chars_eq_str(
        &c,
        "thinkingSignature",
    ) || chars_eq_str(&c, "thoughtSignature")
}

fn thinking_kind(k: &str) -> (b: bool)
    ensures
        b == is_thinking_kind(k@),
{
    let c = str_chars(k);
    chars_eq_str(&c, "thinking") || chars_eq_str(&c, "reasoning") || chars_eq_str(
        &c,
        "reasoning_content",
    ) || chars_eq_str(&c, "reasoningContent") || chars_eq_str(&c, "redacted_thinking")
}

/// The value of an object's member `key`, if there is one.
pub fn member_of<'a>(fields: &'a Vec<(String, JsonValue)>, key: &str) -> (r: Option<&'a JsonValue>)
    ensures
        match r {
            Some(v) => member(fields_model(fields@), key@) == Some(json_model(*v)),
            None => member(fields_model(fields@), key@) is None,
        },
{
    proof {
        lemma_fields_model(fields@);
    }
    let target = str_chars(key);
    let mut i: usize = fields.len();
    while i > 0
        invariant
            i <= fields.len(),
            target@ == key@,
            fields_model(fields@).len() == fields@.len(),
            forall|k: int|
                0 <= k < fields@.len() ==> #[trigger] fields_model(fields@)[k] == (
                    fields@[k].0@,
                    json_model(fields@[k].1),
                ),
            forall|j: int| i <= j < fields@.len() ==> fields_model(fields@)[j].0 != key@,
        decreases i,
    {
        let name = str_chars(fields[i - 1].0.as_str());
        if crate::text::chars_eq(&name, &target) {
            proof {
                lemma_member(fields_model(fields@), key@, i - 1);
            }
            return Some(&fields[i - 1].1);
        }
        assert(fields_model(fields@)[i - 1].0 != key@);
        i = i - 1;
    }
    proof {
        lemma_member(fields_model(fields@), key@, -1);
    }
    None
}

/// Whether a value is a reasoning block: an object whose `type` is a reasoning kind.
pub fn is_thinking_item(v: &JsonValue) -> (b: bool)
    ensures
        b == is_thinking_block(v@),
{
    match v {
        JsonValue::Object(fields) => match member_of(fields, "type") {
            Some(JsonValue::Str(kind)) => thinking_kind(kind.as_str()),
            _ => false,
        },
        _ => false,
    }
}

/// Removes the replay state of a value (see `stripped`), and says whether there was any.
pub fn strip_provider_replay_state(value: &JsonValue) -> (r: (JsonValue, bool))
    ensures
        r.0@ == stripped(value@),
        r.1 == has_replay_state(value@),
    decreases value,
{
    match value {
        JsonValue::Array(items) => {
            let mut out: Vec<JsonValue> = Vec::new();
            let mut changed = false;
            let mut i: usize = 0;
            while i < items.len()
                invariant
                    i <= items.len(),
                    *value == JsonValue::Array(*items),
                    items_model(out@) == stripped_items(items_model(items@.take(i as int))),
                    changed == items_have_replay_state(items_model(items@.take(i as int))),
                decreases items.len() - i,
            {
                assert(items@.take(i + 1).drop_last() =~= items@.take(i as int));
                assert(items@.take(i + 1).last() == items@[i as int]);
                let ghost pre = items_model(items@.take(i as int));
                let ghost m = json_model(items@[i as int]);
                assert(items_model(items@.take(i + 1)) == pre.push(m));
                assert(pre.push(m).drop_last() =~= pre);
                if is_thinking_item(&items[i]) {
                    changed = true;
                } else {
                    proof {
                        assert(decreases_to!(items@ => items@[i as int]));
                        assert(decreases_to!(*items => items@));
                        assert(decreases_to!(*value => value->Array_0));
                    }
                    let (child, child_changed) = strip_provider_replay_state(&items[i]);
                    let ghost before = out@;
                    out.push(child);
                    assert(out@.drop_last() =~= before);
                    assert(items_model(out@) == items_model(before).push(json_model(child)));
                    if child_changed {
                        changed = true;
                    }
                }
                i = i + 1;
            }
            assert(items@.take(items.len() as int) =~= items@);
            (JsonValue::Array(out), changed)
        },
        JsonValue::Object(fields) => {
            let mut out: Vec<(String, JsonValue)> = Vec::new();
            let mut changed = false;
            let mut i: usize = 0;
            while i < fields.len()
                invariant
                    i <= fields.len(),
                    *value == JsonValue::Object(*fields),
                    fields_model(out@) == stripped_fields(fields_model(fields@.take(i as int))),
                    changed == fields_have_replay_state(fields_model(fields@.take(i as int))),
                decreases fields.len() - i,
            {
                assert(fields@.take(i + 1).drop_last() =~= fields@.take(i as int));
                assert(fields@.take(i + 1).last() == fields@[i as int]);
                let ghost pre = fields_model(fields@.take(i as int));
                let ghost m = (fields@[i as int].0@, json_model(fields@[i as int].1));
                assert(fields_model(fields@.take(i + 1)) == pre.push(m));
                assert(pre.push(m).drop_last() =~= pre);
                if replay_key(fields[i].0.as_str()) {
                    changed = true;
                } else {
                    proof {
                        assert(decreases_to!(fields@[i as int] => fields@[i as int].1));
                        assert(decreases_to!(fields@ => fields@[i as int]));
                        assert(decreases_to!(*fields => fields@));
                        assert(decreases_to!(*value => value->Object_0));
                    }
                    let (child, child_changed) = strip_provider_replay_state(&fields[i].1);
                    let key = fields[i].0.clone();
                    let ghost before = out@;
                    out.push((key, child));
                    assert(out@.drop_last() =~= before);
                    assert(fields_model(out@) == fields_model(before).push((key@, json_model(child))));
                    if child_changed {
                        changed = true;
                    }
                }
                i = i + 1;
            }
            assert(fields@.take(fields.len() as int) =~= fields@);
            (JsonValue::Object(out), changed)
        },
        JsonValue::Null => (JsonValue::Null, false),
        JsonValue::Bool(b) => (JsonValue::Bool(*b), false),
        JsonValue::Number(n) => (JsonValue::Number(n.clone()), false),
        JsonValue::Str(t) => (JsonValue::Str(t.clone()), false),
    }
}

/// Stripping keeps a member that is not a replay key, stripped.
pub proof fn lemma_member_stripped(fs: Seq<(Seq<char>, JsonModel)>, key: Seq<char>)
    requires
        !is_replay_key(key),
    ensures
        member(stripped_fields(fs), key) == match member(fs, key) {
            Some(v) => Some(stripped(v)),
            None => None::<JsonModel>,
        },
    decreases fs.len(),
{
    if fs.len() > 0 {
        lemma_member_stripped(fs.drop_last(), key);
        let prev = stripped_fields(fs.drop_last());
        if !is_replay_key(fs.last().0) {
            let item = (fs.last().0, stripped(fs.last().1));
            assert(prev.push(item).drop_last() =~= prev);
        }
    }
}

/// Stripping neither makes nor unmakes a reasoning block.
pub proof fn lemma_thinking_stripped(m: JsonModel)
    ensures
        is_thinking_block(stripped(m)) == is_thinking_block(m),
{
    if let JsonModel::Object(fs) = m {
        reveal_strlit("type");
        reveal_strlit("reasoning_content");
        reveal_strlit("reasoningContent");
        reveal_strlit("reasoning_details");
        reveal_strlit("reasoningDetails");
        reveal_strlit("reasoning");
        reveal_strlit("thinkingSignature");
        reveal_strlit("thoughtSignature");
        assert("type"@.len() == 4);
        assert(!is_replay_key("type"@));
        lemma_member_stripped(fs, "type"@);
    }
}

proof fn lemma_stripped_items_clean(s: Seq<JsonModel>)
    ensures
        stripped_items(stripped_items(s)) == stripped_items(s),
        !items_have_replay_state(stripped_items(s)),
    decreases s,
{
    if s.len() > 0 {
        lemma_stripped_items_clean(s.drop_last());
        if !is_thinking_block(s.last()) {
            let prev = stripped_items(s.drop_last());
            let y = stripped(s.last());
            lemma_stripped_clean(s.last());
            lemma_thinking_stripped(s.last());
            assert(prev.push(y).drop_last() =~= prev);
        }
    }
}

proof fn lemma_stripped_fields_clean(s: Seq<(Seq<char>, JsonModel)>)
    ensures
        stripped_fields(stripped_fields(s)) == stripped_fields(s),
        !fields_have_replay_state(stripped_fields(s)),
    decreases s,
{
    if s.len() > 0 {
        lemma_stripped_fields_clean(s.drop_last());
        if !is_replay_key(s.last().0) {
            let prev = stripped_fields(s.drop_last());
            let y = (s.last().0, stripped(s.last().1));
            lemma_stripped_clean(s.last().1);
            assert(prev.push(y).drop_last() =~= prev);
        }
    }
}

proof fn lemma_stripped_clean(m: JsonModel)
    ensures
        stripped(stripped(m)) == stripped(m),
        !has_replay_state(stripped(m)),
    decreases m,
{
    match m {
        JsonModel::Array(items) => lemma_stripped_items_clean(items),
        JsonModel::Object(fields) => lemma_stripped_fields_clean(fields),
        _ => {},
    }
}

proof fn lemma_clean_items_unchanged(s: Seq<JsonModel>)
    requires
        !items_have_replay_state(s),
    ensures
        stripped_items(s) == s,
    decreases s,
{
    if s.len() > 0 {
        lemma_clean_items_unchanged(s.drop_last());
        lemma_clean_unchanged(s.last());
        assert(s.drop_last().push(s.last()) =~= s);
    }
}

proof fn lemma_clean_fields_unchanged(s: Seq<(Seq<char>, JsonModel)>)
    requires
        !fields_have_replay_state(s),
    ensures
        stripped_fields(s) == s,
    decreases s,
{
    if s.len() > 0 {
        lemma_clean_fields_unchanged(s.drop_last());
        lemma_clean_unchanged(s.last().1);
        assert(s.drop_last().push((s.last().0, s.last().1)) =~= s);
    }
}

proof fn lemma_clean_unchanged(m: JsonModel)
    requires
        !has_replay_state(m),
    ensures
        stripped(m) == m,
    decreases m,
{
    match m {
        JsonModel::Array(items) => lemma_clean_items_unchanged(items),
        JsonModel::Object(fields) => lemma_clean_fields_unchanged(fields),
        _ => {},
    }
}

/// Stripping replay state is idempotent and leaves none behind; a value changes exactly when it
/// held replay state.
pub proof fn lemma_strip_replay_state(m: JsonModel)
    ensures
        stripped(stripped(m)) == stripped(m),
        !has_replay_state(stripped(m)),
        has_replay_state(m) <==> stripped(m) != m,
{
    lemma_stripped_clean(m);
    if !has_replay_state(m) {
        lemma_clean_unchanged(m);
    }
}

} // verus!

verus! {

/// A member of an object (none for a value that is not an object).
pub open spec fn get_member(m: JsonModel, key: Seq<char>) -> Option<JsonModel> {
    match m {
        JsonModel::Object(fields) => member(fields, key),
        _ => None,
    }
}

/// The text of a string value.
pub open spec fn model_str(m: JsonModel) -> Option<Seq<char>> {
    match m {
        JsonModel::Str(s) => Some(s),
        _ => None,
    }
}

pub open spec fn is_digit(c: char) -> bool {
    '0' <= c <= '9'
}

/// The value of a string of decimal digits.
pub open spec fn digits_value(t: Seq<char>) -> nat
    decreases t.len(),
{
    if t.len() == 0 {
        0
    } else {
        digits_value(t.drop_last()) * 10 + (t.last() as nat - 48) as nat
    }
}

/// Decimal digits without a leading zero (but for zero itself).
pub open spec fn canonical_digits(t: Seq<char>) -> bool {
    &&& t.len() > 0
    &&& forall|i: int| 0 <= i < t.len() ==> is_digit(#[trigger] t[i])
    &&& (t.len() == 1 || t[0] != '0')
}

/// The unsigned integer a JSON number's text stands for, when it is one that fits in 64 bits.
pub open spec fn number_u64(t: Seq<char>) -> Option<u64> {
    if canonical_digits(t) && digits_value(t) <= u64::MAX {
        Some(digits_value(t) as u64)
    } else {
        None
    }
}

/// The unsigned integer held by a value.
pub open spec fn model_u64(m: JsonModel) -> Option<u64> {
    match m {
        JsonModel::Number(t) => number_u64(t),
        _ => None,
    }
}

proof fn lemma_digits_value_positive(t: Seq<char>)
    requires
        canonical_digits(t),
        t[0] != '0',
    ensures
        digits_value(t) >= 1,
    decreases t.len(),
{
    if t.len() > 1 {
        let d = t.drop_last();
        assert(d[0] == t[0]);
        assert forall|i: int| 0 <= i < d.len() implies is_digit(#[trigger] d[i]) by {
            assert(d[i] == t[i]);
        }
        lemma_digits_value_positive(d);
    } else {
        assert(is_digit(t[0]));
    }
}

proof fn lemma_digit_char(n: nat)
    requires
        n < 10,
    ensures
        is_digit((48 + n) as char),
        ((48 + n) as char) as nat == 48 + n,
{
}

/// The decimal rendering of a number is canonical and reads back as the number; it starts
/// with `0` only for zero.
pub proof fn lemma_decimal_digits(n: nat)
    ensures
        canonical_digits(decimal(n)),
        digits_value(decimal(n)) == n,
        (decimal(n)[0] == '0') == (n == 0),
    decreases n,
{
    let t = decimal(n);
    if n < 10 {
        lemma_digit_char(n);
        assert(t.drop_last() =~= Seq::<char>::empty());
        assert(digits_value(t.drop_last()) == 0);
        assert(t.last() == (48 + n) as char);
    } else {
        lemma_decimal_digits(n / 10);
        lemma_digit_char(n % 10);
        let h = decimal(n / 10);
        assert(t.drop_last() =~= h);
        assert(t[0] == h[0]);
        assert(t.last() == (48 + n % 10) as char);
        assert forall|i: int| 0 <= i < t.len() implies is_digit(#[trigger] t[i]) by {
            if i < h.len() {
                assert(t[i] == h[i]);
            }
        }
        assert(n / 10 * 10 + n % 10 == n);
    }
}

/// Canonical digits are the decimal rendering of their value.
pub proof fn lemma_canonical_is_decimal(t: Seq<char>)
    requires
        canonical_digits(t),
    ensures
        decimal(digits_value(t)) == t,
    decreases t.len(),
{
    assert(is_digit(t[0]));
    if t.len() == 1 {
        let v = digits_value(t);
        assert(t.drop_last() =~= Seq::<char>::empty());
        assert(digits_value(t.drop_last()) == 0);
        assert(v == t[0] as nat - 48);
        lemma_digit_char(v);
        assert(((48 + v) as char) as nat == t[0] as nat);
        assert(decimal(v) =~= t);
    } else {
        let d = t.drop_last();
        assert(d[0] == t[0]);
        assert forall|i: int| 0 <= i < d.len() implies is_digit(#[trigger] d[i]) by {
            assert(d[i] == t[i]);
        }
        lemma_canonical_is_decimal(d);
        lemma_digits_value_positive(d);
        assert(is_digit(t.last()));
        let v = digits_value(t);
        let last = (t.last() as nat - 48) as nat;
        assert(v == digits_value(d) * 10 + last);
        assert(v / 10 == digits_value(d) && v % 10 == last) by (nonlinear_arith)
            requires
                v == digits_value(d) * 10 + last,
                0 <= last < 10,
        ;
        lemma_digit_char(last);
        assert(((48 + last) as char) as nat == t.last() as nat);
        assert(decimal(v) =~= t);
    }
}

/// A number's decimal rendering reads back as that number.
pub proof fn lemma_number_u64_decimal(n: u64)
    ensures
        number_u64(decimal(n as nat)) == Some(n),
{
    lemma_decimal_digits(n as nat);
}

proof fn lemma_digits_value_prefix(t: Seq<char>, j: int)
    requires
        0 <= j <= t.len(),
        forall|i: int| 0 <= i < t.len() ==> is_digit(#[trigger] t[i]),
    ensures
        digits_value(t.take(j)) <= digits_value(t),
    decreases t.len() - j,
{
    if j < t.len() {
        let u = t.take(j + 1);
        assert(u.drop_last() =~= t.take(j));
        assert(is_digit(t[j]));
        lemma_digits_value_prefix(t, j + 1);
    } else {
        assert(t.take(j) =~= t);
    }
}

/// Reads a JSON number's text as an unsigned integer (see `number_u64`).
pub fn parse_number_u64(text: &str) -> (r: Option<u64>)
    ensures
        r == number_u64(text@),
{
    let c = str_chars(text);
    let n = c.len();
    if n == 0 {
        return None;
    }
    let mut i: usize = 0;
    while i < n
        invariant
            n == c@.len(),
            c@ == text@,
            i <= n,
            forall|k: int| 0 <= k < i ==> is_digit(#[trigger] c@[k]),
        decreases n - i,
    {
        if !('0' <= c[i] && c[i] <= '9') {
            assert(!is_digit(c@[i as int]));
            assert(!canonical_digits(c@));
            return None;
        }
        i = i + 1;
    }
    if n > 1 && c[0] == '0' {
        return None;
    }
    assert(canonical_digits(c@));
    let mut acc: u64 = 0;
    let mut j: usize = 0;
    while j < n
        invariant
            n == c@.len(),
            c@ == text@,
            j <= n,
            canonical_digits(c@),
            acc as nat == digits_value(c@.take(j as int)),
        decreases n - j,
    {
        assert(c@.take(j + 1).drop_last() =~= c@.take(j as int));
        assert(is_digit(c@[j as int]));
        let d: u64 = (c[j] as u32 - 48) as u64;
        assert(d as nat == (c@[j as int] as nat - 48) as nat);
        assert(digits_value(c@.take(j + 1)) == acc * 10 + d);
        match acc.checked_mul(10) {
            Some(m) => match m.checked_add(d) {
                Some(next) => {
                    acc = next;
                },
                None => {
                    proof {
                        lemma_digits_value_prefix(c@, j + 1);
                    }
                    return None;
                },
            },
            None => {
                proof {
                    lemma_digits_value_prefix(c@, j + 1);
                }
                return None;
            },
        }
        j = j + 1;
    }
    assert(c@.take(n as int) =~= c@);
    Some(acc)
}

/// The member `key` of an object value.
pub fn get<'a>(v: &'a JsonValue, key: &str) -> (r: Option<&'a JsonValue>)
    ensures
        match r {
            Some(x) => get_member(v@, key@) == Some(x@),
            None => get_member(v@, key@) is None,
        },
{
    match v {
        JsonValue::Object(fields) => member_of(fields, key),
        _ => None,
    }
}

/// The text of a string value.
pub fn as_str(v: &JsonValue) -> (r: Option<&str>)
    ensures
        match r {
            Some(s) => model_str(v@) == Some(s@),
            None => model_str(v@) is None,
        },
{
    match v {
        JsonValue::Str(s) => Some(s.as_str()),
        _ => None,
    }
}

/// The unsigned integer held by a value.
pub fn as_u64(v: &JsonValue) -> (r: Option<u64>)
    ensures
        r == model_u64(v@),
{
    match v {
        JsonValue::Number(t) => parse_number_u64(t.as_str()),
        _ => None,
    }
}

/// The boolean held by a value.
pub open spec fn model_bool(m: JsonModel) -> Option<bool> {
    match m {
        JsonModel::Bool(b) => Some(b),
        _ => None,
    }
}

/// The items of an array value.
pub open spec fn model_array(m: JsonModel) -> Option<Seq<JsonModel>> {
    match m {
        JsonModel::Array(items) => Some(items),
        _ => None,
    }
}

/// The boolean held by a value.
pub fn as_bool(v: &JsonValue) -> (r: Option<bool>)
    ensures
        r == model_bool(v@),
{
    match v {
        JsonValue::Bool(b) => Some(*b),
        _ => None,
    }
}

/// The items of an array value.
pub fn as_array(v: &JsonValue) -> (r: Option<&Vec<JsonValue>>)
    ensures
        match r {
            Some(items) => model_array(v@) == Some(items_model(items@)),
            None => model_array(v@) is None,
        },
{
    match v {
        JsonValue::Array(items) => Some(items),
        _ => None,
    }
}

/// An item's model, position by position.
pub proof fn lemma_items_model(s: Seq<JsonValue>)
    ensures
        items_model(s).len() == s.len(),
        forall|i: int| 0 <= i < s.len() ==> #[trigger] items_model(s)[i] == json_model(s[i]),
    decreases s.len(),
{
    if s.len() > 0 {
        lemma_items_model(s.drop_last());
        assert forall|i: int| 0 <= i < s.len() implies #[trigger] items_model(s)[i] == json_model(s[i]) by {
            if i < s.len() - 1 {
                assert(s.drop_last()[i] == s[i]);
            }
        }
    }
}

/// A copy of a value.
pub fn clone_json(value: &JsonValue) -> (r: JsonValue)
    ensures
        r@ == value@,
    decreases value,
{
    match value {
        JsonValue::Array(items) => {
            let mut out: Vec<JsonValue> = Vec::new();
            let mut i: usize = 0;
            while i < items.len()
                invariant
                    i <= items.len(),
                    *value == JsonValue::Array(*items),
                    items_model(out@) == items_model(items@.take(i as int)),
                decreases items.len() - i,
            {
                assert(items@.take(i + 1).drop_last() =~= items@.take(i as int));
                assert(items@.take(i + 1).last() == items@[i as int]);
                proof {
                    assert(decreases_to!(items@ => items@[i as int]));
                    assert(decreases_to!(*items => items@));
                    assert(decreases_to!(*value => value->Array_0));
                }
                let child = clone_json(&items[i]);
                let ghost before = out@;
                out.push(child);
                assert(out@.drop_last() =~= before);
                i = i + 1;
            }
            assert(items@.take(items.len() as int) =~= items@);
            JsonValue::Array(out)
        },
        JsonValue::Object(fields) => {
            let mut out: Vec<(String, JsonValue)> = Vec::new();
            let mut i: usize = 0;
            while i < fields.len()
                invariant
                    i <= fields.len(),
                    *value == JsonValue::Object(*fields),
                    fields_model(out@) == fields_model(fields@.take(i as int)),
                decreases fields.len() - i,
            {
                assert(fields@.take(i + 1).drop_last() =~= fields@.take(i as int));
                assert(fields@.take(i + 1).last() == fields@[i as int]);
                proof {
                    assert(decreases_to!(fields@[i as int] => fields@[i as int].1));
                    assert(decreases_to!(fields@ => fields@[i as int]));
                    assert(decreases_to!(*fields => fields@));
                    assert(decreases_to!(*value => value->Object_0));
                }
                let child = clone_json(&fields[i].1);
                let key = fields[i].0.clone();
                let ghost before = out@;
                out.push((key, child));
                assert(out@.drop_last() =~= before);
                i = i + 1;
            }
            assert(fields@.take(fields.len() as int) =~= fields@);
            JsonValue::Object(out)
        },
        JsonValue::Null => JsonValue::Null,
        JsonValue::Bool(b) => JsonValue::Bool(*b),
        JsonValue::Number(n) => JsonValue::Number(n.clone()),
        JsonValue::Str(t) => JsonValue::Str(t.clone()),
    }
}

} // verus!

