//! JSON documents: a tree of plain values, and how one is read from text.

use vstd::prelude::*;
use vstd::string::*;
use crate::text::same_text;

verus! {

/// A JSON value.
///
/// A number is held as the text that writes it, and an object as its members in order.
#[derive(Debug, PartialEq)]
pub enum Json {
    Null,
    Bool(bool),
    Number(String),
    Str(String),
    Array(Vec<Json>),
    Object(Vec<(String, Json)>),
}

/// What a [`Json`] stands for: the same tree over sequences.
pub enum JsonV {
    Null,
    Bool(bool),
    Number(Seq<char>),
    Str(Seq<char>),
    Array(Seq<JsonV>),
    Object(Seq<(Seq<char>, JsonV)>),
}

/// The tree that `j` holds.
pub open spec fn json_view(j: Json) -> JsonV
    decreases j,
{
    match j {
        Json::Null => JsonV::Null,
        Json::Bool(b) => JsonV::Bool(b),
        Json::Number(n) => JsonV::Number(n@),
        Json::Str(s) => JsonV::Str(s@),
        Json::Array(items) => JsonV::Array(
            Seq::new(
                items@.len(),
                |i: int|
                    if 0 <= i < items@.len() {
                        json_view(items@[i])
                    } else {
                        JsonV::Null
                    },
            ),
        ),
        Json::Object(members) => JsonV::Object(
            Seq::new(
                members@.len(),
                |i: int|
                    if 0 <= i < members@.len() {
                        (members@[i].0@, json_view(members@[i].1))
                    } else {
                        (Seq::empty(), JsonV::Null)
                    },
            ),
        ),
    }
}

impl View for Json {
    type V = JsonV;

    open spec fn view(&self) -> JsonV {
        json_view(*self)
    }
}

/// The trees that some values hold.
pub open spec fn trees(v: Seq<Json>) -> Seq<JsonV> {
    v.map_values(|j: Json| j@)
}

/// The members that some pairs hold.
pub open spec fn member_trees(v: Seq<(String, Json)>) -> Seq<(Seq<char>, JsonV)> {
    v.map_values(|m: (String, Json)| (m.0@, m.1@))
}

/// The tree of an array is the array of the trees, and likewise for an object.
pub proof fn lemma_view(j: Json)
    ensures
        j matches Json::Array(items) ==> j@ == JsonV::Array(trees(items@)),
        j matches Json::Object(members) ==> j@ == JsonV::Object(member_trees(members@)),
{
    match j {
        Json::Array(items) => {
            assert(j@->Array_0 =~= trees(items@));
        },
        Json::Object(members) => {
            assert(j@->Object_0 =~= member_trees(members@));
        },
        _ => {},
    }
}

/// No key comes twice among the members.
pub open spec fn distinct_keys(members: Seq<(Seq<char>, JsonV)>) -> bool {
    forall|i: int, j: int|
        0 <= i < j < members.len() ==> #[trigger] members[i].0 != #[trigger] members[j].0
}

/// No object anywhere in the tree has a key twice.
pub open spec fn well_formed(j: JsonV) -> bool
    decreases j,
{
    match j {
        JsonV::Array(items) => forall|i: int|
            0 <= i < items.len() ==> well_formed(#[trigger] items[i]),
        JsonV::Object(members) => {
            &&& distinct_keys(members)
            &&& forall|i: int| 0 <= i < members.len() ==> well_formed((#[trigger] members[i]).1)
        },
        _ => true,
    }
}

/// The value of the first member called `key`.
pub open spec fn lookup(members: Seq<(Seq<char>, JsonV)>, key: Seq<char>) -> Option<JsonV>
    decreases members.len(),
{
    if members.len() == 0 {
        None
    } else if members[0].0 == key {
        Some(members[0].1)
    } else {
        lookup(members.drop_first(), key)
    }
}

/// The member of `j` called `key`; only objects have members.
pub open spec fn member(j: JsonV, key: Seq<char>) -> Option<JsonV> {
    match j {
        JsonV::Object(members) => lookup(members, key),
        _ => None,
    }
}

/// The text that `j` holds, where it is a text.
pub open spec fn text_in(j: Option<JsonV>) -> Option<Seq<char>> {
    match j {
        Some(JsonV::Str(s)) => Some(s),
        _ => None,
    }
}

/// The members with `key` set to `value`: in its place where it is there, else at the end.
pub open spec fn with_member(
    members: Seq<(Seq<char>, JsonV)>,
    key: Seq<char>,
    value: JsonV,
) -> Seq<(Seq<char>, JsonV)>
    decreases members.len(),
{
    if members.len() == 0 {
        seq![(key, value)]
    } else if members[0].0 == key {
        seq![(key, value)] + members.drop_first()
    } else {
        seq![members[0]] + with_member(members.drop_first(), key, value)
    }
}

/// A parsed document as `serde_json` holds it.
#[verifier::external_type_specification]
#[verifier::external_body]
pub struct ExValue(serde_json::Value);

/// Why `serde_json` rejects a text.
#[verifier::external_type_specification]
#[verifier::external_body]
pub struct ExError(serde_json::Error);

/// The tree that a `serde_json::Value` holds.
pub uninterp spec fn value_view(v: serde_json::Value) -> JsonV;

/// The tree that `serde_json` reads from a text, or `None` where it rejects the text.
pub uninterp spec fn json_text(text: Seq<char>) -> Option<JsonV>;

/// The outermost layer of a `serde_json::Value`.
enum Layer {
    Null,
    Bool(bool),
    Number(String),
    Str(String),
    Array(Vec<serde_json::Value>),
    Object(Vec<(String, serde_json::Value)>),
}

spec fn layer_members(members: Seq<(String, serde_json::Value)>) -> Seq<(Seq<char>, JsonV)> {
    members.map_values(|m: (String, serde_json::Value)| (m.0@, value_view(m.1)))
}

spec fn layer_view(l: Layer) -> JsonV {
    match l {
        Layer::Null => JsonV::Null,
        Layer::Bool(b) => JsonV::Bool(b),
        Layer::Number(n) => JsonV::Number(n@),
        Layer::Str(s) => JsonV::Str(s@),
        Layer::Array(items) => JsonV::Array(items@.map_values(|v: serde_json::Value| value_view(v))),
        Layer::Object(members) => JsonV::Object(layer_members(members@)),
    }
}

/// Takes one layer off a `serde_json::Value`: its variant with the fields moved out, a
/// `serde_json::Number` as what its `Display` writes, and a `serde_json::Map` as the pairs that its
/// `into_iter` gives. A `serde_json::Map` holds a key once.
#[verifier::external_body]
fn layer_of(v: serde_json::Value) -> (l: Layer)
    ensures
        value_view(v) == layer_view(l),
        l matches Layer::Object(members) ==> distinct_keys(layer_members(members@)),
{
    match v {
        serde_json::Value::Null => Layer::Null,
        serde_json::Value::Bool(b) => Layer::Bool(b),
        serde_json::Value::Number(n) => Layer::Number(n.to_string()),
        serde_json::Value::String(s) => Layer::Str(s),
        serde_json::Value::Array(items) => Layer::Array(items),
        serde_json::Value::Object(members) => Layer::Object(members.into_iter().collect()),
    }
}

/// Calls `serde_json::from_str` for a `serde_json::Value`. What it reads from a text, and whether
/// it reads the text at all, is named by [`json_text`].
#[verifier::external_body]
fn read_value(text: &str) -> (r: Result<serde_json::Value, serde_json::Error>)
    ensures
        r is Ok <==> json_text(text@) is Some,
        r matches Ok(v) ==> json_text(text@) == Some(value_view(v)),
{
    serde_json::from_str::<serde_json::Value>(text)
}

/// The tree of a `serde_json::Value`, layer by layer.
fn unfold(v: serde_json::Value) -> (j: Json)
    ensures
        j@ == value_view(v),
        well_formed(j@),
    decreases value_view(v),
{
    match layer_of(v) {
        Layer::Null => Json::Null,
        Layer::Bool(b) => Json::Bool(b),
        Layer::Number(n) => Json::Number(n),
        Layer::Str(s) => Json::Str(s),
        Layer::Array(items) => {
            let ghost parts = items@;
            let ghost views = parts.map_values(|v: serde_json::Value| value_view(v));
            let mut out: Vec<Json> = Vec::new();
            for item in it: items
                invariant
                    it.seq() == parts,
                    views == parts.map_values(|v: serde_json::Value| value_view(v)),
                    value_view(v) == JsonV::Array(views),
                    out@.len() == it.index(),
                    forall|k: int| 0 <= k < out@.len() ==> #[trigger] out@[k]@ == views[k],
                    forall|k: int| 0 <= k < out@.len() ==> well_formed(#[trigger] views[k]),
            {
                assert(item == parts[it.index() as int]);
                assert(decreases_to!(value_view(v) => value_view(v)->Array_0[it.index() as int]));
                out.push(unfold(item));
            }
            let j = Json::Array(out);
            proof {
                lemma_view(j);
                assert(trees(out@) =~= views);
            }
            j
        },
        Layer::Object(members) => {
            let ghost parts = members@;
            let ghost views = layer_members(parts);
            let mut out: Vec<(String, Json)> = Vec::new();
            for item in it: members
                invariant
                    it.seq() == parts,
                    views == layer_members(parts),
                    value_view(v) == JsonV::Object(views),
                    out@.len() == it.index(),
                    forall|k: int|
                        0 <= k < out@.len() ==> ((#[trigger] out@[k]).0@, out@[k].1@) == views[k],
                    forall|k: int| 0 <= k < out@.len() ==> well_formed((#[trigger] views[k]).1),
            {
                assert(item == parts[it.index() as int]);
                assert(decreases_to!(value_view(v) => value_view(v)->Object_0[it.index() as int].1));
                out.push((item.0, unfold(item.1)));
            }
            let j = Json::Object(out);
            proof {
                lemma_view(j);
                assert(member_trees(out@) =~= views);
            }
            j
        },
    }
}

/// The document that `text` writes, where it writes one.
pub fn parse(text: &str) -> (r: Option<Json>)
    ensures
        match r {
            Some(j) => json_text(text@) == Some(j@) && well_formed(j@),
            None => json_text(text@) is None,
        },
{
    match read_value(text) {
        Ok(v) => Some(unfold(v)),
        Err(_) => None,
    }
}

/// Skipping members that are not called `key` does not change what `key` finds.
proof fn lemma_lookup_skip(members: Seq<(Seq<char>, JsonV)>, key: Seq<char>, i: int)
    requires
        0 <= i <= members.len(),
        forall|k: int| 0 <= k < i ==> (#[trigger] members[k]).0 != key,
    ensures
        lookup(members, key) == lookup(members.skip(i), key),
    decreases i,
{
    if i > 0 {
        lemma_lookup_skip(members.drop_first(), key, i - 1);
        assert(members.drop_first().skip(i - 1) =~= members.skip(i));
    } else {
        assert(members.skip(0) =~= members);
    }
}

/// Setting `key` where it first stands, or at the end where it does not stand.
proof fn lemma_with_member(
    members: Seq<(Seq<char>, JsonV)>,
    key: Seq<char>,
    value: JsonV,
    i: int,
)
    requires
        0 <= i <= members.len(),
        forall|k: int| 0 <= k < i ==> (#[trigger] members[k]).0 != key,
        i < members.len() ==> members[i].0 == key,
    ensures
        with_member(members, key, value) == (if i < members.len() {
            members.update(i, (key, value))
        } else {
            members.push((key, value))
        }),
    decreases i,
{
    if i == 0 {
        if members.len() > 0 {
            assert(seq![(key, value)] + members.drop_first() =~= members.update(0, (key, value)));
        } else {
            assert(members.push((key, value)) =~= seq![(key, value)]);
        }
    } else {
        let rest = members.drop_first();
        lemma_with_member(rest, key, value, i - 1);
        if i < members.len() {
            assert(seq![members[0]] + rest.update(i - 1, (key, value)) =~= members.update(
                i,
                (key, value),
            ));
        } else {
            assert(seq![members[0]] + rest.push((key, value)) =~= members.push((key, value)));
        }
    }
}

/// A member that was set is found again with the value that was set, every other member is found
/// as before, and no key comes to stand twice.
pub proof fn law_set_then_get(
    members: Seq<(Seq<char>, JsonV)>,
    key: Seq<char>,
    value: JsonV,
    other: Seq<char>,
)
    ensures
        lookup(with_member(members, key, value), key) == Some(value),
        other != key ==> lookup(with_member(members, key, value), other) == lookup(members, other),
        distinct_keys(members) ==> distinct_keys(with_member(members, key, value)),
    decreases members.len(),
{
    let after = with_member(members, key, value);
    if members.len() == 0 {
        assert(after.drop_first() =~= Seq::empty());
        assert(lookup(after.drop_first(), other) is None);
    } else if members[0].0 == key {
        assert(after.drop_first() =~= members.drop_first());
        assert(after[0] == (key, value));
        if distinct_keys(members) {
            assert forall|i: int, j: int|
                0 <= i < j < after.len() implies #[trigger] after[i].0 != #[trigger] after[j].0 by {
                assert(after[i].0 == members[i].0);
                assert(after[j].0 == members[j].0);
            }
        }
    } else {
        let rest = members.drop_first();
        law_set_then_get(rest, key, value, other);
        let done = with_member(rest, key, value);
        assert(after.drop_first() =~= done);
        assert(after[0] == members[0]);
        assert(members[0].0 != other ==> lookup(after, other) == lookup(done, other));
        assert(members[0].0 != other ==> lookup(members, other) == lookup(rest, other));
        if distinct_keys(members) {
            assert forall|i: int, j: int|
                0 <= i < j < rest.len() implies #[trigger] rest[i].0 != #[trigger] rest[j].0 by {
                assert(rest[i] == members[i + 1]);
                assert(rest[j] == members[j + 1]);
            }
            assert(distinct_keys(rest));
            lemma_members_after_set(rest, key, value);
            assert forall|i: int, j: int|
                0 <= i < j < after.len() implies #[trigger] after[i].0 != #[trigger] after[j].0 by {
                assert(after[j] == done[j - 1]);
                if i == 0 {
                    if done[j - 1] != (key, value) {
                        let k = choose|k: int| 0 <= k < rest.len() && rest[k] == done[j - 1];
                        assert(members[k + 1] == rest[k]);
                        assert(members[0].0 != members[k + 1].0);
                    }
                } else {
                    assert(after[i] == done[i - 1]);
                }
            }
        }
    }
}

/// After a member is set, each member is that one or one that was there before.
proof fn lemma_members_after_set(members: Seq<(Seq<char>, JsonV)>, key: Seq<char>, value: JsonV)
    ensures
        forall|j: int|
            #![trigger with_member(members, key, value)[j]]
            0 <= j < with_member(members, key, value).len() ==> (with_member(members, key, value)[j]
                == (key, value) || members.contains(with_member(members, key, value)[j])),
    decreases members.len(),
{
    let after = with_member(members, key, value);
    if members.len() > 0 {
        let rest = members.drop_first();
        lemma_members_after_set(rest, key, value);
        assert forall|j: int| 0 <= j < after.len() implies #[trigger] after[j] == (key, value)
            || members.contains(after[j]) by {
            if members[0].0 == key {
                if j > 0 {
                    assert(after[j] == members[j]);
                }
            } else if j == 0 {
                assert(after[0] == members[0]);
            } else {
                let done = with_member(rest, key, value);
                assert(after[j] == done[j - 1]);
                if done[j - 1] != (key, value) {
                    assert(rest.contains(done[j - 1]));
                    let k = choose|k: int| 0 <= k < rest.len() && rest[k] == done[j - 1];
                    assert(members[k + 1] == rest[k]);
                }
            }
        }
    }
}

/// Setting a member of a well-formed object to a well-formed value leaves it well-formed.
pub proof fn law_set_keeps_well_formed(
    members: Seq<(Seq<char>, JsonV)>,
    key: Seq<char>,
    value: JsonV,
)
    requires
        well_formed(JsonV::Object(members)),
        well_formed(value),
    ensures
        well_formed(JsonV::Object(with_member(members, key, value))),
{
    let after = with_member(members, key, value);
    law_set_then_get(members, key, value, key);
    lemma_members_after_set(members, key, value);
    assert forall|j: int| 0 <= j < after.len() implies well_formed((#[trigger] after[j]).1) by {
        if after[j] != (key, value) {
            let k = choose|k: int| 0 <= k < members.len() && members[k] == after[j];
            assert(well_formed(members[k].1));
        }
    }
}

/// What is found in a well-formed value is well-formed.
pub proof fn law_found_is_well_formed(j: JsonV, key: Seq<char>)
    requires
        well_formed(j),
    ensures
        member(j, key) matches Some(v) ==> well_formed(v),
{
    if let JsonV::Object(members) = j {
        lemma_lookup_is_a_member(members, key);
        if let Some(v) = lookup(members, key) {
            let k = choose|k: int| 0 <= k < members.len() && members[k] == (key, v);
            assert(well_formed(members[k].1));
        }
    }
}

proof fn lemma_lookup_is_a_member(members: Seq<(Seq<char>, JsonV)>, key: Seq<char>)
    ensures
        lookup(members, key) matches Some(v) ==> members.contains((key, v)),
    decreases members.len(),
{
    if members.len() > 0 {
        if members[0].0 == key {
            assert(members[0] == (key, members[0].1));
        } else {
            let rest = members.drop_first();
            lemma_lookup_is_a_member(rest, key);
            if let Some(v) = lookup(rest, key) {
                let k = choose|k: int| 0 <= k < rest.len() && rest[k] == (key, v);
                assert(members[k + 1] == rest[k]);
            }
        }
    }
}

/// The position of the first member called `key`, or the number of members.
fn position(members: &Vec<(String, Json)>, key: &str) -> (i: usize)
    ensures
        i <= members@.len(),
        forall|k: int| 0 <= k < i ==> (#[trigger] members@[k]).0@ != key@,
        i < members@.len() ==> members@[i as int].0@ == key@,
{
    let mut i: usize = 0;
    while i < members.len()
        invariant
            i <= members@.len(),
            forall|k: int| 0 <= k < i ==> (#[trigger] members@[k]).0@ != key@,
        decreases members@.len() - i,
    {
        if same_text(members[i].0.as_str(), key) {
            return i;
        }
        i = i + 1;
    }
    i
}

impl Json {
    /// The member called `key`; only objects have members.
    pub fn get(&self, key: &str) -> (r: Option<&Json>)
        ensures
            match r {
                Some(j) => member(self@, key@) == Some(j@),
                None => member(self@, key@) is None,
            },
    {
        match self {
            Json::Object(members) => {
                let i = position(members, key);
                proof {
                    lemma_view(*self);
                    let views = member_trees(members@);
                    assert(forall|k: int| 0 <= k < i ==> (#[trigger] views[k]).0 == members@[k].0@);
                    lemma_lookup_skip(views, key@, i as int);
                    if i < members@.len() {
                        assert(views.skip(i as int)[0] == views[i as int]);
                    }
                }
                if i < members.len() {
                    Some(&members[i].1)
                } else {
                    None
                }
            },
            _ => None,
        }
    }

    /// The text that this value holds, where it is a text.
    pub fn as_str(&self) -> (r: Option<&str>)
        ensures
            match r {
                Some(s) => self@ == JsonV::Str(s@),
                None => !(self@ is Str),
            },
    {
        match self {
            Json::Str(s) => Some(s.as_str()),
            _ => None,
        }
    }

    /// The items of this value, where it is an array.
    pub fn as_array(&self) -> (r: Option<&Vec<Json>>)
        ensures
            match r {
                Some(items) => self@ == JsonV::Array(trees(items@)),
                None => !(self@ is Array),
            },
    {
        proof {
            lemma_view(*self);
        }
        match self {
            Json::Array(items) => Some(items),
            _ => None,
        }
    }

    /// A copy of this value.
    pub fn duplicate(&self) -> (r: Json)
        ensures
            r@ == self@,
        decreases self,
    {
        match self {
            Json::Null => Json::Null,
            Json::Bool(b) => Json::Bool(*b),
            Json::Number(n) => Json::Number(n.clone()),
            Json::Str(s) => Json::Str(s.clone()),
            Json::Array(items) => {
                let mut out: Vec<Json> = Vec::new();
                let mut i: usize = 0;
                while i < items.len()
                    invariant
                        *self == Json::Array(*items),
                        i <= items@.len(),
                        out@.len() == i,
                        forall|k: int| 0 <= k < i ==> #[trigger] out@[k]@ == items@[k]@,
                    decreases items@.len() - i,
                {
                    assert(decreases_to!(*self => self->Array_0@[i as int]));
                    out.push(items[i].duplicate());
                    i = i + 1;
                }
                let r = Json::Array(out);
                proof {
                    lemma_view(*self);
                    lemma_view(r);
                    assert(trees(out@) =~= trees(items@));
                }
                r
            },
            Json::Object(members) => {
                let mut out: Vec<(String, Json)> = Vec::new();
                let mut i: usize = 0;
                while i < members.len()
                    invariant
                        *self == Json::Object(*members),
                        i <= members@.len(),
                        out@.len() == i,
                        forall|k: int|
                            0 <= k < i ==> (#[trigger] out@[k]).0@ == members@[k].0@ && out@[k].1@
                                == members@[k].1@,
                    decreases members@.len() - i,
                {
                    assert(decreases_to!(*self => self->Object_0@[i as int].1));
                    out.push((members[i].0.clone(), members[i].1.duplicate()));
                    i = i + 1;
                }
                let r = Json::Object(out);
                proof {
                    lemma_view(*self);
                    lemma_view(r);
                    assert(member_trees(out@) =~= member_trees(members@));
                }
                r
            },
        }
    }
}

/// The members with `key` set to `value`.
pub fn set_member(members: Vec<(String, Json)>, key: &str, value: Json) -> (r: Vec<(String, Json)>)
    ensures
        member_trees(r@) == with_member(member_trees(members@), key@, value@),
{
    let i = position(&members, key);
    let ghost before = members@;
    let ghost views = member_trees(before);
    proof {
        assert(forall|k: int| 0 <= k < i ==> (#[trigger] views[k]).0 == members@[k].0@);
        lemma_with_member(views, key@, value@, i as int);
    }
    let mut r = members;
    let ghost pair = (key@, value@);
    if i < r.len() {
        r.set(i, (key.to_owned(), value));
        assert(member_trees(r@) =~= views.update(i as int, pair));
    } else {
        r.push((key.to_owned(), value));
        assert(member_trees(r@) =~= views.push(pair));
    }
    r
}

/// The tree of a value is the value itself, item by item and member by member, in order.
pub proof fn law_tree_of_a_value(j: Json, i: int)
    ensures
        j is Null <==> j@ is Null,
        j matches Json::Bool(b) ==> j@ == JsonV::Bool(b),
        j matches Json::Number(n) ==> j@ == JsonV::Number(n@),
        j matches Json::Str(t) ==> j@ == JsonV::Str(t@),
        j matches Json::Array(items) ==> (j@ matches JsonV::Array(parts) && parts.len()
            == items@.len() && (0 <= i < parts.len() ==> parts[i] == items@[i]@)),
        j matches Json::Object(members) ==> (j@ matches JsonV::Object(parts) && parts.len()
            == members@.len() && (0 <= i < parts.len() ==> parts[i].0 == members@[i].0@
            && parts[i].1 == members@[i].1@)),
{
}

/// The first member with a key is the one that the key finds, whatever comes after it; a key that no
/// member has finds nothing.
pub proof fn law_first_member_is_found(
    before: Seq<(Seq<char>, JsonV)>,
    key: Seq<char>,
    value: JsonV,
    after: Seq<(Seq<char>, JsonV)>,
)
    requires
        forall|i: int| 0 <= i < before.len() ==> (#[trigger] before[i]).0 != key,
    ensures
        member(JsonV::Object(before.push((key, value)) + after), key) == Some(value),
        member(JsonV::Object(before), key) is None,
{
    let all = before.push((key, value)) + after;
    let n = before.len() as int;
    assert forall|k: int| 0 <= k < n implies (#[trigger] all[k]).0 != key by {
        assert(all[k] == before[k]);
    }
    lemma_lookup_skip(all, key, n);
    assert(all.skip(n)[0] == (key, value));
    lemma_lookup_skip(before, key, n);
    assert(before.skip(n).len() == 0);
}

/// Where no key comes twice, a key finds a value exactly where the two are a member.
pub proof fn law_found_is_a_member(members: Seq<(Seq<char>, JsonV)>, key: Seq<char>, value: JsonV)
    requires
        distinct_keys(members),
    ensures
        member(JsonV::Object(members), key) == Some(value) <==> members.contains((key, value)),
{
    lemma_lookup_is_a_member(members, key);
    if members.contains((key, value)) {
        let k = choose|k: int| 0 <= k < members.len() && members[k] == (key, value);
        let before = members.take(k);
        assert forall|i: int| 0 <= i < before.len() implies (#[trigger] before[i]).0 != key by {
            assert(before[i] == members[i]);
            assert(members[i].0 != members[k].0);
        }
        law_first_member_is_found(before, key, value, members.skip(k + 1));
        assert(members =~= before.push((key, value)) + members.skip(k + 1));
    }
}

/// A member is set in its place where it is there, and else at the end; all others stay where they
/// are.
pub proof fn law_member_is_set_in_place(
    before: Seq<(Seq<char>, JsonV)>,
    key: Seq<char>,
    value: JsonV,
    earlier: JsonV,
    after: Seq<(Seq<char>, JsonV)>,
)
    requires
        forall|i: int| 0 <= i < before.len() ==> (#[trigger] before[i]).0 != key,
    ensures
        with_member(before.push((key, earlier)) + after, key, value) == before.push((key, value))
            + after,
        with_member(before, key, value) == before.push((key, value)),
{
    let all = before.push((key, earlier)) + after;
    let n = before.len() as int;
    assert forall|k: int| 0 <= k < n implies (#[trigger] all[k]).0 != key by {
        assert(all[k] == before[k]);
    }
    lemma_with_member(all, key, value, n);
    assert(all.update(n, (key, value)) =~= before.push((key, value)) + after);
    lemma_with_member(before, key, value, n);
}

/// Only an object has members, and only a text is a text.
pub proof fn law_only_objects_have_members(j: JsonV, key: Seq<char>, t: Seq<char>)
    ensures
        !(j is Object) ==> member(j, key) is None,
        text_in(Some(j)) == Some(t) <==> j == JsonV::Str(t),
        text_in(None) is None,
{
}

} // verus!
