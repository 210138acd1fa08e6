//! JSON values as the guardrails and verifications read them.

use vstd::prelude::*;

use crate::text::is_text;

verus! {

/// A JSON document: the data that actions are judged on.
///
/// Numbers are kept as their JSON text; object members keep their order.
/// An object may hold two members of one name: [`JsonValue::get`] finds the
/// first of them, while the JSON text of the value keeps the last (see
/// [`ActionResult`]).
#[derive(Debug)]
pub enum JsonValue {
    Null,
    Bool(bool),
    Number(String),
    String(String),
    Array(Vec<JsonValue>),
    Object(Vec<(String, JsonValue)>),
}

/// The mathematical value of a [`JsonValue`].
pub enum JsonModel {
    Null,
    Bool(bool),
    Number(Seq<char>),
    Text(Seq<char>),
    Array(Seq<JsonModel>),
    Object(Seq<(Seq<char>, JsonModel)>),
}

impl JsonValue {
    pub open spec fn model(&self) -> JsonModel
        decreases self,
    {
        match self {
            JsonValue::Null => JsonModel::Null,
            JsonValue::Bool(b) => JsonModel::Bool(*b),
            JsonValue::Number(n) => JsonModel::Number(n@),
            JsonValue::String(s) => JsonModel::Text(s@),
            JsonValue::Array(items) => JsonModel::Array(items_model(items@)),
            JsonValue::Object(members) => JsonModel::Object(members_model(members@)),
        }
    }
}

/// The models of a sequence of values.
pub open spec fn items_model(items: Seq<JsonValue>) -> Seq<JsonModel>
    decreases items,
{
    if items.len() == 0 {
        Seq::empty()
    } else {
        seq![items[0].model()] + items_model(items.drop_first())
    }
}

/// The models of a sequence of object members.
pub open spec fn members_model(members: Seq<(String, JsonValue)>) -> Seq<(Seq<char>, JsonModel)>
    decreases members,
{
    if members.len() == 0 {
        Seq::empty()
    } else {
        seq![(members[0].0@, members[0].1.model())] + members_model(members.drop_first())
    }
}

impl View for JsonValue {
    type V = JsonModel;

    open spec fn view(&self) -> JsonModel {
        self.model()
    }
}

/// Each item's model stands at its index.
pub proof fn lemma_items_model(items: Seq<JsonValue>)
    ensures
        items_model(items).len() == items.len(),
        forall|i: int| 0 <= i < items.len() ==> #[trigger] items_model(items)[i] == items[i].model(),
    decreases items.len(),
{
    if items.len() > 0 {
        lemma_items_model(items.drop_first());
        assert forall|i: int| 0 <= i < items.len() implies #[trigger] items_model(items)[i] == items[i].model() by {
            if i > 0 {
                assert(items.drop_first()[i - 1] == items[i]);
            }
        }
    }
}

/// The model of an array or object has as many entries as the value.
pub proof fn lemma_items_model_len(v: JsonValue)
    ensures
        v matches JsonValue::Array(items) ==> items_model(items@).len() == items@.len(),
        v matches JsonValue::Object(members) ==> members_model(members@).len() == members@.len(),
{
    match v {
        JsonValue::Array(items) => lemma_items_model(items@),
        JsonValue::Object(members) => lemma_members_model(members@),
        _ => {},
    }
}

/// Each member's model stands at its index.
pub proof fn lemma_members_model(members: Seq<(String, JsonValue)>)
    ensures
        members_model(members).len() == members.len(),
        forall|i: int| 0 <= i < members.len() ==> #[trigger] members_model(members)[i] == (members[i].0@, members[i].1.model()),
    decreases members.len(),
{
    if members.len() > 0 {
        lemma_members_model(members.drop_first());
        assert forall|i: int| 0 <= i < members.len() implies #[trigger] members_model(members)[i] == (members[i].0@, members[i].1.model()) by {
            if i > 0 {
                assert(members.drop_first()[i - 1] == members[i]);
            }
        }
    }
}

/// The value of the first member named `key`, from index `i` on.
pub open spec fn lookup_from(members: Seq<(Seq<char>, JsonModel)>, key: Seq<char>, i: int) -> Option<JsonModel>
    decreases members.len() - i,
{
    if i < 0 || i >= members.len() {
        None
    } else if members[i].0 == key {
        Some(members[i].1)
    } else {
        lookup_from(members, key, i + 1)
    }
}

impl JsonModel {
    /// What `get(key)` returns: the first member's value for an object,
    /// nothing for any other value.
    pub open spec fn member(self, key: Seq<char>) -> Option<JsonModel> {
        match self {
            JsonModel::Object(members) => lookup_from(members, key, 0),
            _ => None,
        }
    }
}

impl JsonValue {
    /// A copy of this value.
    pub fn duplicate(&self) -> (r: JsonValue)
        ensures
            r@ == self@,
        decreases self,
    {
        match self {
            JsonValue::Null => JsonValue::Null,
            JsonValue::Bool(b) => JsonValue::Bool(*b),
            JsonValue::Number(n) => JsonValue::Number(n.clone()),
            JsonValue::String(s) => JsonValue::String(s.clone()),
            JsonValue::Array(items) => {
                let mut out: Vec<JsonValue> = Vec::new();
                let mut i: usize = 0;
                while i < items.len()
                    invariant
                        *self == JsonValue::Array(*items),
                        i <= items@.len(),
                        out@.len() == i,
                        forall|k: int| 0 <= k < i ==> #[trigger] out@[k].model() == items@[k].model(),
                    decreases items@.len() - i,
                {
                    proof {
                        assert(decreases_to!(*self => self->Array_0));
                        assert(decreases_to!(*items => items@[i as int]));
                    }
                    let item = items[i].duplicate();
                    out.push(item);
                    i = i + 1;
                }
                proof {
                    lemma_items_model(out@);
                    lemma_items_model(items@);
                    assert(items_model(out@) =~= items_model(items@));
                }
                JsonValue::Array(out)
            },
            JsonValue::Object(members) => {
                let mut out: Vec<(String, JsonValue)> = Vec::new();
                let mut i: usize = 0;
                while i < members.len()
                    invariant
                        *self == JsonValue::Object(*members),
                        i <= members@.len(),
                        out@.len() == i,
                        forall|k: int| 0 <= k < i ==> #[trigger] out@[k].0@ == members@[k].0@,
                        forall|k: int| 0 <= k < i ==> #[trigger] out@[k].1.model() == members@[k].1.model(),
                    decreases members@.len() - i,
                {
                    proof {
                        assert(decreases_to!(*self => self->Object_0));
                        assert(decreases_to!(*members => members@[i as int]));
                        assert(decreases_to!(members@[i as int] => members@[i as int].1));
                    }
                    let key = members[i].0.clone();
                    let value = members[i].1.duplicate();
                    out.push((key, value));
                    i = i + 1;
                }
                proof {
                    lemma_members_model(out@);
                    lemma_members_model(members@);
                    assert(members_model(out@) =~= members_model(members@));
                }
                JsonValue::Object(out)
            },
        }
    }

    /// Looks up a member of an object by name.
    pub fn get(&self, key: &str) -> (r: Option<&JsonValue>)
        ensures
            match r {
                Some(v) => self@.member(key@) == Some(v@),
                None => self@.member(key@) is None,
            },
    {
        match self {
            JsonValue::Object(members) => {
                let ghost mm = members_model(members@);
                proof { lemma_members_model(members@); }
                let mut i: usize = 0;
                while i < members.len()
                    invariant
                        *self == JsonValue::Object(*members),
                        i <= members@.len(),
                        mm == members_model(members@),
                        mm.len() == members@.len(),
                        forall|k: int| 0 <= k < members@.len() ==> #[trigger] mm[k] == (members@[k].0@, members@[k].1.model()),
                        lookup_from(mm, key@, 0) == lookup_from(mm, key@, i as int),
                    decreases members@.len() - i,
                {
                    if is_text(&members[i].0, key) {
                        assert(mm[i as int].0 == key@);
                        assert(lookup_from(mm, key@, i as int) == Some(mm[i as int].1));
                        assert(self.model() == JsonModel::Object(members_model(members@)));
                        return Some(&members[i].1);
                    }
                    i = i + 1;
                }
                None
            },
            _ => None,
        }
    }

    /// The boolean held by this value, if it is one.
    pub fn as_bool(&self) -> (r: Option<bool>)
        ensures
            r == (match self@ {
                JsonModel::Bool(b) => Some(b),
                _ => None,
            }),
    {
        match self {
            JsonValue::Bool(b) => Some(*b),
            _ => None,
        }
    }

    /// The text held by this value, if it is a string.
    pub fn as_str(&self) -> (r: Option<&str>)
        ensures
            match r {
                Some(s) => self@ == JsonModel::Text(s@),
                None => !(self@ is Text),
            },
    {
        match self {
            JsonValue::String(s) => Some(s.as_str()),
            _ => None,
        }
    }
}

#[verifier::external_type_specification]
#[verifier::external_body]
pub struct ExSerdeValue(serde_json::Value);

/// What `serde_json::Value::to_string` writes for the value with this model:
/// its compact JSON text.
pub uninterp spec fn spec_json_text(v: JsonModel) -> Seq<char>;

/// The `serde_json::Value` that a JSON value stands for, built one variant
/// for one; it only converts the argument of [`json_text`]. A number is
/// parsed back with `Number::from_str`, and number text that does not parse
/// becomes a JSON string with that text. Object members go into a
/// `serde_json::Map`, which orders them by name and keeps the last of
/// members that share a name.
#[verifier::external_body]
fn serde_value(v: &JsonValue) -> serde_json::Value {
    match v {
        JsonValue::Null => serde_json::Value::Null,
        JsonValue::Bool(b) => serde_json::Value::Bool(*b),
        JsonValue::Number(t) => t.parse::<serde_json::Number>().map_or(serde_json::Value::String(t.clone()), serde_json::Value::Number),
        JsonValue::String(s) => serde_json::Value::String(s.clone()),
        JsonValue::Array(items) => serde_json::Value::Array(items.iter().map(serde_value).collect()),
        JsonValue::Object(members) => serde_json::Value::Object(members.iter().map(|(k, m)| (k.clone(), serde_value(m))).collect()),
    }
}

/// The compact JSON text of a value, as `serde_json::Value::to_string`
/// writes it. The text is named, not restated: it depends on the value alone
/// (serde_json's `Display` for `Value`, with its string escaping, number
/// formatting and member order).
#[verifier::external_body]
pub(crate) fn json_text(v: &JsonValue) -> (r: String)
    ensures
        r@ == spec_json_text(v@),
{
    serde_value(v).to_string()
}

/// An action's result as the verifications see it: its JSON value, together
/// with the compact JSON text of that value.
#[derive(Debug)]
pub struct ActionResult {
    value: JsonValue,
    text: String,
}

impl ActionResult {
    #[verifier::type_invariant]
    spec fn text_matches(self) -> bool {
        self.text@ == spec_json_text(self.value@)
    }

    /// The result that holds `value`, with its JSON text.
    pub fn new(value: JsonValue) -> (r: ActionResult)
        ensures
            r@ == value@,
    {
        let text = json_text(&value);
        ActionResult { value, text }
    }

    /// The result's JSON value.
    pub fn value(&self) -> (r: &JsonValue)
        ensures
            r@ == self@,
    {
        &self.value
    }

    /// The result's compact JSON text.
    pub fn text(&self) -> (r: &str)
        ensures
            r@ == spec_json_text(self@),
    {
        proof {
            use_type_invariant(self);
        }
        self.text.as_str()
    }
}

impl View for ActionResult {
    type V = JsonModel;

    closed spec fn view(&self) -> JsonModel {
        self.value@
    }
}

} // verus!
