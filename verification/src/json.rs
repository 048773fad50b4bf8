//! JSON values as the gateway reads and writes them.
//!
//! `Json` is the value that the rules work on, `JsonView` its mathematical model.
//! The grammar itself is `serde_json`'s: `Json::parse` and `Json::to_text` hand
//! the text over to it and move its `Value` into a `Json` or out of one.

use vstd::prelude::*;

use crate::text::{decimal, same};

verus! {

/// The text that `serde_json` writes for a number with a fraction or an exponent.
#[derive(Debug)]
pub struct FloatText {
    text: String,
}

/// Whether `serde_json::Number` prints `text` of some number with a fraction or an
/// exponent.
pub uninterp spec fn float_text(text: Seq<char>) -> bool;

impl FloatText {
    #[verifier::type_invariant]
    spec fn printed(self) -> bool {
        float_text(self.text@)
    }
}

/// A JSON value.
///
/// The members of an object stand in a list. Where a name occurs more than once,
/// the last member of that name counts.
#[derive(Debug)]
pub enum Json {
    Null,
    Bool(bool),
    Unsigned(u64),
    Signed(i64),
    Float(FloatText),
    String(String),
    Array(Vec<Json>),
    Object(Vec<(String, Json)>),
}

/// The model of a JSON value.
pub enum JsonView {
    Null,
    Bool(bool),
    Integer(int),
    Float(Seq<char>),
    Text(Seq<char>),
    Array(Seq<JsonView>),
    Object(Map<Seq<char>, JsonView>),
}

impl View for FloatText {
    type V = Seq<char>;

    /// The digits, as written.
    closed spec fn view(&self) -> Seq<char> {
        self.text@
    }
}

/// The models of the values in a list.
pub open spec fn items_view(items: Seq<Json>) -> Seq<JsonView>
    decreases items,
{
    if items.len() == 0 {
        Seq::empty()
    } else {
        items_view(items.drop_last()).push(json_view(items.last()))
    }
}

/// The members of an object by their names; the last one of a name counts.
pub open spec fn members_view(members: Seq<(String, Json)>) -> Map<Seq<char>, JsonView>
    decreases members,
{
    if members.len() == 0 {
        Map::empty()
    } else {
        members_view(members.drop_last()).insert(members.last().0@, json_view(members.last().1))
    }
}

/// The model of a value.
pub open spec fn json_view(json: Json) -> JsonView
    decreases json,
{
    match json {
        Json::Null => JsonView::Null,
        Json::Bool(b) => JsonView::Bool(b),
        Json::Unsigned(n) => JsonView::Integer(n as int),
        Json::Signed(n) => JsonView::Integer(n as int),
        Json::Float(f) => JsonView::Float(f@),
        Json::String(s) => JsonView::Text(s@),
        Json::Array(items) => JsonView::Array(items_view(items@)),
        Json::Object(members) => JsonView::Object(members_view(members@)),
    }
}

impl View for Json {
    type V = JsonView;

    open spec fn view(&self) -> JsonView {
        json_view(*self)
    }
}

impl JsonView {
    /// The member `name`, where the value is an object that has one.
    pub open spec fn member(self, name: Seq<char>) -> Option<JsonView> {
        match self {
            JsonView::Object(members) => if members.contains_key(name) {
                Some(members[name])
            } else {
                None
            },
            _ => None,
        }
    }

    /// The member `name` of the member `outer`.
    pub open spec fn member_of(self, outer: Seq<char>, name: Seq<char>) -> Option<JsonView> {
        match self.member(outer) {
            Some(inner) => inner.member(name),
            None => None,
        }
    }
}

/// The truth value that `value` is, if it is there and is one.
pub open spec fn bool_in(value: Option<JsonView>) -> Option<bool> {
    match value {
        Some(JsonView::Bool(b)) => Some(b),
        _ => None,
    }
}

/// The text that `value` is, if it is there and is one.
pub open spec fn text_in(value: Option<JsonView>) -> Option<Seq<char>> {
    match value {
        Some(JsonView::Text(s)) => Some(s),
        _ => None,
    }
}

/// The natural number that `value` is, if it is there and is one.
pub open spec fn natural_in(value: Option<JsonView>) -> Option<int> {
    match value {
        Some(JsonView::Integer(n)) => if n >= 0 {
            Some(n)
        } else {
            None
        },
        _ => None,
    }
}

/// The model of an optional value.
pub open spec fn option_view(value: Option<&Json>) -> Option<JsonView> {
    match value {
        Some(json) => Some(json@),
        None => None,
    }
}

/// A list of values is modelled value by value.
pub proof fn lemma_items(items: Seq<Json>)
    ensures
        items_view(items).len() == items.len(),
        forall|i: int| 0 <= i < items.len() ==> #[trigger] items_view(items)[i] == items[i]@,
    decreases items.len(),
{
    if items.len() > 0 {
        lemma_items(items.drop_last());
        assert forall|i: int| 0 <= i < items.len() implies #[trigger] items_view(items)[i]
            == items[i]@ by {
            if i < items.len() - 1 {
                assert(items_view(items.drop_last())[i] == items.drop_last()[i]@);
            }
        }
    }
}

/// Adds the member `name` to the members of an object, or replaces it.
pub fn put(members: &mut Vec<(String, Json)>, name: &str, value: Json)
    ensures
        members_view(final(members)@) == members_view(old(members)@).insert(name@, value@),
{
    let ghost before = members@;
    members.push((name.to_owned(), value));
    proof {
        assert(members@.drop_last() =~= before);
    }
}

impl Json {
    /// The member `name`, where the value is an object that has one.
    pub fn get(&self, name: &str) -> (member: Option<&Json>)
        ensures
            option_view(member) == self@.member(name@),
    {
        match self {
            Json::Object(members) => {
                let mut i: usize = members.len();
                proof {
                    assert(members@.take(i as int) =~= members@);
                }
                while i > 0
                    invariant
                        i <= members@.len(),
                        self@ == JsonView::Object(members_view(members@)),
                        JsonView::Object(members_view(members@.take(i as int))).member(name@)
                            == JsonView::Object(members_view(members@)).member(name@),
                    decreases i,
                {
                    proof {
                        assert(members@.take(i as int).drop_last() =~= members@.take(i - 1));
                    }
                    if same(members[i - 1].0.as_str(), name) {
                        return Some(&members[i - 1].1);
                    }
                    i = i - 1;
                }
                None
            },
            _ => None,
        }
    }

    /// The truth value that this is, if it is one.
    pub fn as_bool(&self) -> (b: Option<bool>)
        ensures
            b == bool_in(Some(self@)),
    {
        match self {
            Json::Bool(b) => Some(*b),
            _ => None,
        }
    }

    /// The text that this is, if it is one.
    pub fn as_str(&self) -> (s: Option<&str>)
        ensures
            s.is_some() == text_in(Some(self@)).is_some(),
            s.is_some() ==> s.unwrap()@ == text_in(Some(self@)).unwrap(),
    {
        match self {
            Json::String(s) => Some(s.as_str()),
            _ => None,
        }
    }

    /// The natural number that this is, if it is one.
    pub fn as_u64(&self) -> (n: Option<u64>)
        ensures
            n.is_some() == natural_in(Some(self@)).is_some(),
            n.is_some() ==> n.unwrap() == natural_in(Some(self@)).unwrap(),
    {
        match self {
            Json::Unsigned(n) => Some(*n),
            Json::Signed(n) => if *n >= 0 {
                Some(*n as u64)
            } else {
                None
            },
            _ => None,
        }
    }
}

/// An integer in decimal, with a minus sign where it is negative.
pub open spec fn signed_decimal(n: int) -> Seq<char> {
    if n < 0 {
        seq!['-'] + decimal((-n) as nat)
    } else {
        decimal(n as nat)
    }
}

/// `serde_json::Value`, carried between the parser, the printer and `Json`.
#[verifier::external_type_specification]
#[verifier::external_body]
pub struct ExValue(serde_json::Value);

/// `serde_json::Error`, what the parser returns for a text that is no document.
#[verifier::external_type_specification]
#[verifier::external_body]
pub struct ExError(serde_json::Error);

/// What a `serde_json::Value` holds.
pub uninterp spec fn value_view(value: serde_json::Value) -> JsonView;

/// The document that `serde_json::from_slice` reads from `bytes`, if they are one.
pub uninterp spec fn document(bytes: Seq<u8>) -> Option<JsonView>;

/// What `serde_json::Value` prints of a value: the compact form. The members of an
/// object are printed in the order of their names, in which `serde_json::Map` keeps
/// them unless the feature `preserve_order` is on; here it is off.
pub uninterp spec fn compact(value: JsonView) -> Seq<char>;

/// `serde_json::from_slice` at the type `serde_json::Value`. Claims that it
/// succeeds on the byte strings that are documents, and that the value it
/// returns holds the document that the bytes are.
#[verifier::external_body]
fn value_from_slice(bytes: &[u8]) -> (value: Result<serde_json::Value, serde_json::Error>)
    ensures
        value.is_ok() == document(bytes@).is_some(),
        value.is_ok() ==> value_view(value.unwrap()) == document(bytes@).unwrap(),
{
    serde_json::from_slice(bytes)
}

/// One level of a `serde_json::Value`: the values inside it are still
/// `serde_json`'s.
enum Level {
    Null,
    Bool(bool),
    Unsigned(u64),
    Signed(i64),
    Float(FloatText),
    String(String),
    Array(Vec<serde_json::Value>),
    Object(Vec<(String, serde_json::Value)>),
}

/// What the values in a list hold.
spec fn values_view(values: Seq<serde_json::Value>) -> Seq<JsonView> {
    values.map_values(|v: serde_json::Value| value_view(v))
}

/// What the values in a list hold, by their names; the last one of a name counts.
spec fn entries_view(entries: Seq<(String, serde_json::Value)>) -> Map<Seq<char>, JsonView>
    decreases entries.len(),
{
    if entries.len() == 0 {
        Map::empty()
    } else {
        entries_view(entries.drop_last()).insert(entries.last().0@, value_view(entries.last().1))
    }
}

/// Whether no name occurs twice.
spec fn distinct(entries: Seq<(String, serde_json::Value)>) -> bool {
    forall|i: int, j: int|
        0 <= i < j < entries.len() ==> (#[trigger] entries[i]).0@ != (#[trigger] entries[j]).0@
}

/// What a level and the values inside it hold.
spec fn level_view(level: Level) -> JsonView {
    match level {
        Level::Null => JsonView::Null,
        Level::Bool(b) => JsonView::Bool(b),
        Level::Unsigned(n) => JsonView::Integer(n as int),
        Level::Signed(n) => JsonView::Integer(n as int),
        Level::Float(f) => JsonView::Float(f@),
        Level::String(s) => JsonView::Text(s@),
        Level::Array(values) => JsonView::Array(values_view(values@)),
        Level::Object(entries) => JsonView::Object(entries_view(entries@)),
    }
}

/// The parts of a level hold what stands in them, nothing less.
proof fn lemma_levels(
    b: bool,
    u: u64,
    n: i64,
    f: FloatText,
    s: String,
    values: Vec<serde_json::Value>,
    entries: Vec<(String, serde_json::Value)>,
    i: int,
    name: Seq<char>,
)
    ensures
        level_view(Level::Null) == JsonView::Null,
        level_view(Level::Bool(b)) == JsonView::Bool(b),
        level_view(Level::Unsigned(u)) == JsonView::Integer(u as int),
        level_view(Level::Signed(n)) == JsonView::Integer(n as int),
        level_view(Level::Float(f)) == JsonView::Float(f.text@),
        level_view(Level::String(s)) == JsonView::Text(s@),
        level_view(Level::Array(values)) matches JsonView::Array(held) && held.len()
            == values@.len(),
        0 <= i < values@.len() ==> level_view(Level::Array(values))->Array_0[i] == value_view(
            values@[i],
        ),
        distinct(entries@) && 0 <= i < entries@.len() ==> level_view(
            Level::Object(entries),
        )->Object_0.contains_key(entries@[i].0@) && level_view(
            Level::Object(entries),
        )->Object_0[entries@[i].0@] == value_view(entries@[i].1),
        level_view(Level::Object(entries)) is Object,
        distinct(entries@) && !named(entries@, name) ==> !level_view(
            Level::Object(entries),
        )->Object_0.contains_key(name),
{
    if distinct(entries@) {
        lemma_entries(entries@);
    }
}

/// Takes a `serde_json::Value` apart by its variant; of a number,
/// `Number::as_u64`, `Number::as_i64` and its printed form tell which of the three
/// sorts it is. Claims that the parts hold what the value holds, that no name occurs
/// twice among the members of an object, and that the text of a number with a
/// fraction or an exponent is one that `Number` prints.
#[verifier::external_body]
fn level_of_value(value: serde_json::Value) -> (level: Level)
    ensures
        level_view(level) == value_view(value),
        level matches Level::Object(entries) ==> distinct(entries@),
        level matches Level::Float(f) ==> float_text(f@),
{
    match value {
        serde_json::Value::Null => Level::Null,
        serde_json::Value::Bool(b) => Level::Bool(b),
        serde_json::Value::Number(n) => match (n.as_u64(), n.as_i64()) {
            (Some(u), _) => Level::Unsigned(u),
            (None, Some(i)) => Level::Signed(i),
            (None, None) => Level::Float(FloatText { text: n.to_string() }),
        },
        serde_json::Value::String(s) => Level::String(s),
        serde_json::Value::Array(values) => Level::Array(values),
        serde_json::Value::Object(members) => Level::Object(members.into_iter().collect()),
    }
}

/// Puts a `serde_json::Value` together, the variant that the level names: an
/// integer by `Value::from`, a number with a fraction or an exponent by
/// `Number::from_f64` on what its text reads as, and the members of an object by
/// collecting them into a `serde_json::Map`. Asks that such a number's text be one
/// that `Number` prints, which reads as the number it was printed of, and that no
/// name occur twice among the members. Claims that the value holds what the parts
/// hold.
#[verifier::external_body]
fn value_of_level(level: Level) -> (value: serde_json::Value)
    requires
        level matches Level::Float(f) ==> float_text(f@),
        level matches Level::Object(entries) ==> distinct(entries@),
    ensures
        value_view(value) == level_view(level),
{
    match level {
        Level::Null => serde_json::Value::Null,
        Level::Bool(b) => serde_json::Value::Bool(b),
        Level::Unsigned(n) => serde_json::Value::from(n),
        Level::Signed(n) => serde_json::Value::from(n),
        Level::Float(f) => f.text.parse().ok().and_then(serde_json::Number::from_f64).into(),
        Level::String(s) => serde_json::Value::String(s),
        Level::Array(values) => serde_json::Value::Array(values),
        Level::Object(entries) => serde_json::Value::Object(entries.into_iter().collect()),
    }
}

/// Where no name occurs twice, each value is the member of its name.
proof fn lemma_entries(entries: Seq<(String, serde_json::Value)>)
    requires
        distinct(entries),
    ensures
        entries_view(entries).dom().finite(),
        forall|k: Seq<char>| #[trigger]
            entries_view(entries).contains_key(k) ==> exists|i: int|
                0 <= i < entries.len() && (#[trigger] entries[i]).0@ == k,
        forall|i: int|
            0 <= i < entries.len() ==> {
                &&& entries_view(entries).contains_key((#[trigger] entries[i]).0@)
                &&& entries_view(entries)[entries[i].0@] == value_view(entries[i].1)
            },
    decreases entries.len(),
{
    if entries.len() > 0 {
        let rest = entries.drop_last();
        lemma_entries(rest);
        assert forall|k: Seq<char>| #[trigger]
            entries_view(entries).contains_key(k) implies exists|i: int|
            0 <= i < entries.len() && (#[trigger] entries[i]).0@ == k by {
            if k == entries.last().0@ {
                assert(entries[entries.len() - 1].0@ == k);
            } else {
                assert(entries_view(rest).contains_key(k));
                let i = choose|i: int| 0 <= i < rest.len() && (#[trigger] rest[i]).0@ == k;
                assert(entries[i].0@ == k);
            }
        }
        assert forall|i: int| 0 <= i < entries.len() implies {
            &&& entries_view(entries).contains_key((#[trigger] entries[i]).0@)
            &&& entries_view(entries)[entries[i].0@] == value_view(entries[i].1)
        } by {
            if i < rest.len() {
                assert(rest[i] == entries[i]);
                assert(entries[i].0@ != entries[entries.len() - 1].0@);
            }
        }
    }
}

/// Moves a `serde_json::Value` into a `Json`.
fn json_of_value(value: serde_json::Value) -> (json: Json)
    ensures
        json@ == value_view(value),
    decreases value_view(value),
{
    let ghost whole = value_view(value);
    match level_of_value(value) {
        Level::Null => Json::Null,
        Level::Bool(b) => Json::Bool(b),
        Level::Unsigned(n) => Json::Unsigned(n),
        Level::Signed(n) => Json::Signed(n),
        Level::Float(f) => Json::Float(f),
        Level::String(s) => Json::String(s),
        Level::Array(values) => {
            let ghost held = values_view(values@);
            let mut items: Vec<Json> = Vec::new();
            proof {
                assert(items_view(items@) =~= held.take(0));
            }
            for v in it: values.into_iter()
                invariant
                    whole == value_view(value),
                    whole == JsonView::Array(held),
                    held == values_view(it.seq()),
                    items_view(items@) == held.take(it.index() as int),
            {
                let ghost i = it.index() as int;
                let ghost before = items@;
                proof {
                    assert(held[i] == value_view(v));
                    assert(decreases_to!(whole => whole->Array_0));
                    assert(decreases_to!(held => held[i]));
                }
                items.push(json_of_value(v));
                proof {
                    assert(items@.drop_last() =~= before);
                    assert(held.take(i + 1) =~= held.take(i).push(held[i]));
                }
            }
            proof {
                assert(held.take(held.len() as int) =~= held);
            }
            Json::Array(items)
        },
        Level::Object(entries) => {
            let ghost held = entries_view(entries@);
            let mut members: Vec<(String, Json)> = Vec::new();
            proof {
                lemma_entries(entries@);
                assert(entries@.take(0) =~= Seq::<(String, serde_json::Value)>::empty());
            }
            for entry in it: entries.into_iter()
                invariant
                    whole == value_view(value),
                    whole == JsonView::Object(held),
                    held == entries_view(it.seq()),
                    held.dom().finite(),
                    distinct(it.seq()),
                    members_view(members@) == entries_view(it.seq().take(it.index() as int)),
            {
                let ghost i = it.index() as int;
                let ghost before = members@;
                let (name, v) = entry;
                proof {
                    lemma_entries(it.seq());
                    assert(it.seq()[i] == entry);
                    assert(held[name@] == value_view(v));
                    assert(decreases_to!(whole => whole->Object_0));
                    assert(decreases_to!(held => held[name@]));
                }
                members.push((name, json_of_value(v)));
                proof {
                    assert(members@.drop_last() =~= before);
                    assert(it.seq().take(i + 1).drop_last() =~= it.seq().take(i));
                }
            }
            proof {
                assert(entries@.take(entries@.len() as int) =~= entries@);
            }
            Json::Object(members)
        },
    }
}

/// Whether a value of that name is there.
spec fn named(entries: Seq<(String, serde_json::Value)>, name: Seq<char>) -> bool {
    exists|e: int| 0 <= e < entries.len() && (#[trigger] entries[e]).0@ == name
}

/// Tells whether a value of that name is there.
fn is_named(entries: &Vec<(String, serde_json::Value)>, name: &str) -> (yes: bool)
    ensures
        yes == named(entries@, name@),
{
    let mut i: usize = 0;
    while i < entries.len()
        invariant
            i <= entries@.len(),
            forall|e: int| 0 <= e < i ==> (#[trigger] entries@[e]).0@ != name@,
        decreases entries.len() - i,
    {
        if same(entries[i].0.as_str(), name) {
            return true;
        }
        i = i + 1;
    }
    false
}

/// A member that no later one has the name of is the one that counts.
pub proof fn lemma_last_counts(members: Seq<(String, Json)>, at: int)
    requires
        0 <= at < members.len(),
        forall|j: int| at < j < members.len() ==> (#[trigger] members[j]).0@ != members[at].0@,
    ensures
        members_view(members).contains_key(members[at].0@),
        members_view(members)[members[at].0@] == members[at].1@,
    decreases members.len(),
{
    if at < members.len() - 1 {
        let rest = members.drop_last();
        assert(members[members.len() - 1].0@ != members[at].0@);
        assert forall|j: int| at < j < rest.len() implies (#[trigger] rest[j]).0@ != rest[at].0@ by {
            assert(rest[j] == members[j]);
        }
        lemma_last_counts(rest, at);
    }
}

/// A name of an object is the name of one of its members.
pub proof fn lemma_member_is_there(members: Seq<(String, Json)>, name: Seq<char>)
    requires
        members_view(members).contains_key(name),
    ensures
        exists|j: int| 0 <= j < members.len() && (#[trigger] members[j]).0@ == name,
    decreases members.len(),
{
    let rest = members.drop_last();
    if members.last().0@ == name {
        assert(members[members.len() - 1].0@ == name);
    } else {
        lemma_member_is_there(rest, name);
        let j = choose|j: int| 0 <= j < rest.len() && (#[trigger] rest[j]).0@ == name;
        assert(members[j].0@ == name);
    }
}

/// Copies a `Json` into a `serde_json::Value`, the last member of each name.
fn value_of_json(json: &Json) -> (value: serde_json::Value)
    ensures
        value_view(value) == json@,
    decreases json,
{
    let level = match json {
        Json::Null => Level::Null,
        Json::Bool(b) => Level::Bool(*b),
        Json::Unsigned(n) => Level::Unsigned(*n),
        Json::Signed(n) => Level::Signed(*n),
        Json::Float(f) => {
            proof {
                use_type_invariant(f);
            }
            Level::Float(FloatText { text: f.text.clone() })
        },
        Json::String(s) => Level::String(s.clone()),
        Json::Array(items) => {
            let mut values: Vec<serde_json::Value> = Vec::new();
            let mut i: usize = 0;
            proof {
                lemma_items(items@);
            }
            while i < items.len()
                invariant
                    i <= items@.len(),
                    json == Json::Array(*items),
                    values@.len() == i,
                    forall|j: int| 0 <= j < i ==> value_view(#[trigger] values@[j]) == items@[j]@,
                decreases items.len() - i,
            {
                proof {
                    assert(decreases_to!(json => json->Array_0));
                    assert(decreases_to!(items => items@));
                    assert(decreases_to!(items@ => items@[i as int]));
                }
                values.push(value_of_json(&items[i]));
                i = i + 1;
            }
            proof {
                assert(values_view(values@) =~= items_view(items@));
            }
            Level::Array(values)
        },
        Json::Object(members) => {
            let mut entries: Vec<(String, serde_json::Value)> = Vec::new();
            let ghost wanted = members_view(members@);
            let mut i: usize = members.len();
            while i > 0
                invariant
                    i <= members@.len(),
                    json == Json::Object(*members),
                    wanted == members_view(members@),
                    distinct(entries@),
                    forall|e: int|
                        0 <= e < entries@.len() ==> {
                            &&& wanted.contains_key((#[trigger] entries@[e]).0@)
                            &&& wanted[entries@[e].0@] == value_view(entries@[e].1)
                        },
                    forall|j: int|
                        i <= j < members@.len() ==> named(entries@, (#[trigger] members@[j]).0@),
                decreases i,
            {
                i = i - 1;
                let name = members[i].0.as_str();
                if !is_named(&entries, name) {
                    let ghost before = entries@;
                    proof {
                        assert(decreases_to!(json => json->Object_0));
                        assert(decreases_to!(members => members@));
                        assert(decreases_to!(members@ => members@[i as int]));
                        assert(decreases_to!(members@[i as int] => members@[i as int].1));
                        lemma_last_counts(members@, i as int);
                    }
                    entries.push((name.to_owned(), value_of_json(&members[i].1)));
                    proof {
                        assert forall|k: Seq<char>| named(before, k) || k == name@ implies named(
                            entries@,
                            k,
                        ) by {
                            if named(before, k) {
                                let e = choose|e: int|
                                    0 <= e < before.len() && (#[trigger] before[e]).0@ == k;
                                assert(entries@[e].0@ == k);
                            } else {
                                assert(entries@[before.len() as int].0@ == k);
                            }
                        }
                    }
                }
            }
            proof {
                lemma_entries(entries@);
                assert forall|k: Seq<char>| #[trigger] wanted.contains_key(k) implies entries_view(
                    entries@,
                ).contains_key(k) by {
                    lemma_member_is_there(members@, k);
                    let j = choose|j: int| 0 <= j < members@.len() && (#[trigger] members@[j]).0@ == k;
                    assert(named(entries@, members@[j].0@));
                }
                assert(entries_view(entries@) =~= wanted);
            }
            Level::Object(entries)
        },
    };
    value_of_level(level)
}

/// `to_string` of a `serde_json::Value`. Claims that the text is the compact form
/// of what the value holds, and that this form is `null`, `true` or `false`, the
/// decimal digits, or the number's own text, where the value is null, a truth value,
/// an integer, or a number with a fraction or an exponent.
#[verifier::external_body]
fn value_text(value: &serde_json::Value) -> (text: String)
    ensures
        text@ == compact(value_view(*value)),
        value_view(*value) is Null ==> text@ == "null"@,
        value_view(*value) == JsonView::Bool(true) ==> text@ == "true"@,
        value_view(*value) == JsonView::Bool(false) ==> text@ == "false"@,
        value_view(*value) matches JsonView::Integer(n) ==> text@ == signed_decimal(n),
        value_view(*value) matches JsonView::Float(s) ==> text@ == s,
{
    value.to_string()
}

impl Json {
    /// Reads a JSON document.
    pub fn parse(bytes: &[u8]) -> (json: Option<Json>)
        ensures
            json.is_some() == document(bytes@).is_some(),
            json.is_some() ==> json.unwrap()@ == document(bytes@).unwrap(),
    {
        match value_from_slice(bytes) {
            Ok(value) => Some(json_of_value(value)),
            Err(_) => None,
        }
    }

    /// Writes the value in its compact form.
    pub fn to_text(&self) -> (text: String)
        ensures
            text@ == compact(self@),
            self@ is Null ==> text@ == "null"@,
            self@ == JsonView::Bool(true) ==> text@ == "true"@,
            self@ == JsonView::Bool(false) ==> text@ == "false"@,
            self@ matches JsonView::Integer(n) ==> text@ == signed_decimal(n),
            self@ matches JsonView::Float(s) ==> text@ == s,
    {
        value_text(&value_of_json(self))
    }
}

} // verus!
