//! JSON documents as trees of plain values.
//!
//! Reading and writing JSON text is left to `serde_json`. Its values are
//! taken apart and put together one node at a time, through its own
//! accessors and constructors; everything the codec decides is decided on a
//! tree of the library's own.

use vstd::prelude::*;

verus! {

/// A JSON document.
#[derive(Debug, PartialEq, Eq)]
pub enum Json {
    Null,
    Bool(bool),
    /// A number that is an integer.
    Int(i128),
    /// A number that is not an integer. Which number it is, is not kept.
    Real,
    Str(String),
    Array(Vec<Json>),
    /// Members in document order.
    Object(Vec<(String, Json)>),
}

/// Mathematical model of a [`Json`] tree.
pub enum JsonValue {
    Null,
    Bool(bool),
    Int(int),
    Real,
    Str(Seq<char>),
    Array(Seq<JsonValue>),
    Object(Seq<(Seq<char>, JsonValue)>),
}

/// The tree that a [`Json`] value stands for.
pub open spec fn tree_of(json: Json) -> JsonValue
    decreases json,
{
    match json {
        Json::Null => JsonValue::Null,
        Json::Bool(b) => JsonValue::Bool(b),
        Json::Int(i) => JsonValue::Int(i as int),
        Json::Real => JsonValue::Real,
        Json::Str(s) => JsonValue::Str(s@),
        Json::Array(items) => JsonValue::Array(
            Seq::new(
                items.len() as nat,
                |i: int|
                    if 0 <= i < items.len() {
                        tree_of(items[i])
                    } else {
                        JsonValue::Null
                    },
            ),
        ),
        Json::Object(members) => JsonValue::Object(
            Seq::new(
                members.len() as nat,
                |i: int|
                    if 0 <= i < members.len() {
                        (members[i].0@, tree_of(members[i].1))
                    } else {
                        (Seq::empty(), JsonValue::Null)
                    },
            ),
        ),
    }
}

impl View for Json {
    type V = JsonValue;

    open spec fn view(&self) -> JsonValue {
        tree_of(*self)
    }
}

/// The value of the first member named `key`, if there is one.
pub open spec fn member(members: Seq<(Seq<char>, JsonValue)>, key: Seq<char>) -> Option<JsonValue>
    decreases members.len(),
{
    if members.len() == 0 {
        None
    } else if members[0].0 == key {
        Some(members[0].1)
    } else {
        member(members.drop_first(), key)
    }
}

/// The kind of a JSON value.
#[derive(Debug, Clone, Copy, PartialEq, Eq, Structural)]
pub enum JsonKind {
    Null,
    Bool,
    Number,
    Str,
    Array,
    Object,
}

/// No two members have the same name.
pub open spec fn distinct_names(members: Seq<(Seq<char>, JsonValue)>) -> bool {
    forall|i: int, j: int|
        0 <= i < j < members.len() ==> (#[trigger] members[i]).0 != (#[trigger] members[j]).0
}

impl JsonValue {
    pub open spec fn kind(self) -> JsonKind {
        match self {
            JsonValue::Null => JsonKind::Null,
            JsonValue::Bool(_) => JsonKind::Bool,
            JsonValue::Int(_) => JsonKind::Number,
            JsonValue::Real => JsonKind::Number,
            JsonValue::Str(_) => JsonKind::Str,
            JsonValue::Array(_) => JsonKind::Array,
            JsonValue::Object(_) => JsonKind::Object,
        }
    }

    /// Whether the tree can be written as text: every number is an integer
    /// that a JSON number of `serde_json` can hold, at least `i64::MIN` and
    /// at most `u64::MAX`, and no object has two members of one name.
    pub open spec fn printable(self) -> bool
        decreases self,
    {
        match self {
            JsonValue::Int(i) => -0x8000_0000_0000_0000 <= i <= 0xffff_ffff_ffff_ffff,
            JsonValue::Real => false,
            JsonValue::Array(items) => forall|i: int|
                0 <= i < items.len() ==> (#[trigger] items[i]).printable(),
            JsonValue::Object(members) => distinct_names(members) && forall|i: int|
                0 <= i < members.len() ==> (#[trigger] members[i]).1.printable(),
            _ => true,
        }
    }

    /// The member `key` of an object; `None` for anything but an object.
    pub open spec fn get(self, key: Seq<char>) -> Option<JsonValue> {
        match self {
            JsonValue::Object(members) => member(members, key),
            _ => None,
        }
    }
}

/// Whether two strings hold the same characters.
pub fn str_eq(a: &str, b: &str) -> (r: bool)
    ensures
        r == (a@ == b@),
{
    let left = a.to_owned();
    let right = b.to_owned();
    left == right
}

proof fn lemma_member_skip(members: Seq<(Seq<char>, JsonValue)>, key: Seq<char>, i: int)
    requires
        0 <= i < members.len(),
        forall|k: int| 0 <= k < i ==> (#[trigger] members[k]).0 != key,
    ensures
        member(members, key) == member(members.skip(i), key),
    decreases i,
{
    if i == 0 {
        assert(members.skip(0) =~= members);
    } else {
        lemma_member_skip(members, key, i - 1);
        let rest = members.skip(i - 1);
        assert(rest[0] == members[i - 1]);
        assert(rest.drop_first() =~= members.skip(i));
    }
}

proof fn lemma_member_absent(members: Seq<(Seq<char>, JsonValue)>, key: Seq<char>)
    requires
        forall|k: int| 0 <= k < members.len() ==> (#[trigger] members[k]).0 != key,
    ensures
        member(members, key) is None,
    decreases members.len(),
{
    if members.len() > 0 {
        lemma_member_absent(members.drop_first(), key);
    }
}

/// A member whose name none of the members before it has is the member that
/// a lookup of its name finds.
pub proof fn lemma_member_at(members: Seq<(Seq<char>, JsonValue)>, i: int)
    requires
        0 <= i < members.len(),
        forall|k: int| 0 <= k < i ==> (#[trigger] members[k]).0 != members[i].0,
    ensures
        member(members, members[i].0) == Some(members[i].1),
{
    lemma_member_skip(members, members[i].0, i);
    assert(members.skip(i)[0] == members[i]);
}

impl Json {
    /// The member `key` of an object, by reference.
    pub fn get(&self, key: &str) -> (r: Option<&Json>)
        ensures
            match r {
                Some(j) => self@.get(key@) == Some(j@),
                None => self@.get(key@) is None,
            },
    {
        match self {
            Json::Object(members) => {
                let mut i: usize = 0;
                while i < members.len()
                    invariant
                        i <= members.len(),
                        self@ is Object,
                        self@->Object_0.len() == members.len(),
                        forall|k: int|
                            0 <= k < members.len() ==> #[trigger] self@->Object_0[k] == (
                                members[k].0@,
                                members[k].1@,
                            ),
                        forall|k: int| 0 <= k < i ==> (#[trigger] self@->Object_0[k]).0 != key@,
                    decreases members.len() - i,
                {
                    if str_eq(members[i].0.as_str(), key) {
                        proof {
                            let all = self@->Object_0;
                            lemma_member_skip(all, key@, i as int);
                            assert(all.skip(i as int)[0] == all[i as int]);
                        }
                        return Some(&members[i].1);
                    }
                    i += 1;
                }
                proof {
                    lemma_member_absent(self@->Object_0, key@);
                }
                None
            },
            _ => None,
        }
    }
}

/// The tree of a `serde_json::Value`: what it holds, node by node, the
/// members of an object in the order in which the value keeps them.
pub uninterp spec fn document_tree(value: serde_json::Value) -> JsonValue;

/// The tree of the value that `serde_json` reads from a text: `None` where
/// the text is not one JSON document.
pub uninterp spec fn json_parse(text: Seq<char>) -> Option<JsonValue>;

/// The compact text that `serde_json` writes for a value with a given tree,
/// where the tree is printable.
pub uninterp spec fn json_text(tree: JsonValue) -> Seq<char>;

#[verifier::external_type_specification]
#[verifier::external_body]
pub struct ExSerdeValue(serde_json::Value);

/// The trees of a run of values, in order.
pub open spec fn document_trees(values: Seq<serde_json::Value>) -> Seq<JsonValue> {
    values.map_values(|v: serde_json::Value| document_tree(v))
}

/// The names and trees of a run of borrowed members, in order.
pub open spec fn borrowed_members(members: Seq<(&String, &serde_json::Value)>) -> Seq<
    (Seq<char>, JsonValue),
> {
    members.map_values(|m: (&String, &serde_json::Value)| (m.0@, document_tree(*m.1)))
}

/// The names and trees of a run of members, in order.
pub open spec fn owned_members(members: Seq<(String, serde_json::Value)>) -> Seq<
    (Seq<char>, JsonValue),
> {
    members.map_values(|m: (String, serde_json::Value)| (m.0@, document_tree(m.1)))
}

/// `serde_json::from_str` at type `serde_json::Value`: the value that the
/// text holds, or nothing where the text is not one JSON document. The
/// value's tree is a function of the text alone, named [`json_parse`].
#[verifier::external_body]
fn parse_value(text: &str) -> (r: Option<serde_json::Value>)
    ensures
        match r {
            Some(value) => json_parse(text@) == Some(document_tree(value)),
            None => json_parse(text@) is None,
        },
{
    serde_json::from_str::<serde_json::Value>(text).ok()
}

/// Which of the six variants a `serde_json::Value` is.
#[verifier::external_body]
fn kind_of(value: &serde_json::Value) -> (r: JsonKind)
    ensures
        r == document_tree(*value).kind(),
{
    match value {
        serde_json::Value::Null => JsonKind::Null,
        serde_json::Value::Bool(_) => JsonKind::Bool,
        serde_json::Value::Number(_) => JsonKind::Number,
        serde_json::Value::String(_) => JsonKind::Str,
        serde_json::Value::Array(_) => JsonKind::Array,
        serde_json::Value::Object(_) => JsonKind::Object,
    }
}

/// `Value::as_bool`: the boolean of a `Bool`, nothing for anything else.
#[verifier::external_body]
fn bool_of(value: &serde_json::Value) -> (r: Option<bool>)
    ensures
        r == (match document_tree(*value) {
            JsonValue::Bool(b) => Some(b),
            _ => None,
        }),
{
    value.as_bool()
}

/// `Value::as_number`, then `Number::as_i128`: the integer of a number that
/// is one, nothing for a number that is not, and for anything else.
#[verifier::external_body]
fn integer_of(value: &serde_json::Value) -> (r: Option<i128>)
    ensures
        match r {
            Some(n) => document_tree(*value) == JsonValue::Int(n as int),
            None => !(document_tree(*value) is Int),
        },
{
    value.as_number().and_then(|n| n.as_i128())
}

/// `Value::as_str`: the text of a `String`, nothing for anything else.
#[verifier::external_body]
fn text_of(value: &serde_json::Value) -> (r: Option<&str>)
    ensures
        match r {
            Some(s) => document_tree(*value) == JsonValue::Str(s@),
            None => !(document_tree(*value) is Str),
        },
{
    value.as_str()
}

/// `Value::as_array`: the items of an `Array`, nothing for anything else.
#[verifier::external_body]
fn items_of(value: &serde_json::Value) -> (r: Option<&Vec<serde_json::Value>>)
    ensures
        match r {
            Some(items) => document_tree(*value) == JsonValue::Array(document_trees(items@)),
            None => !(document_tree(*value) is Array),
        },
{
    value.as_array()
}

/// `Value::as_object`, then `Map::iter`: the members of an `Object` in the
/// order in which the map keeps them, nothing for anything else.
#[verifier::external_body]
fn members_of(value: &serde_json::Value) -> (r: Option<Vec<(&String, &serde_json::Value)>>)
    ensures
        match r {
            Some(members) => document_tree(*value) == JsonValue::Object(borrowed_members(members@)),
            None => !(document_tree(*value) is Object),
        },
{
    value.as_object().map(|o| o.iter().collect())
}

/// `Value::Null`.
#[verifier::external_body]
fn null_value() -> (r: serde_json::Value)
    ensures
        document_tree(r) == JsonValue::Null,
{
    serde_json::Value::Null
}

/// `Value::Bool`.
#[verifier::external_body]
fn bool_value(b: bool) -> (r: serde_json::Value)
    ensures
        document_tree(r) == JsonValue::Bool(b),
{
    serde_json::Value::Bool(b)
}

/// `Number::from_i128`, then `Value::Number`: the number of an integer
/// from `i64::MIN` to `u64::MAX`. Those are the integers that `from_i128`
/// takes.
#[verifier::external_body]
fn integer_value(n: i128) -> (r: serde_json::Value)
    requires
        -0x8000_0000_0000_0000 <= n <= 0xffff_ffff_ffff_ffff,
    ensures
        document_tree(r) == JsonValue::Int(n as int),
{
    serde_json::Number::from_i128(n).map_or(serde_json::Value::Null, serde_json::Value::Number)
}

/// `Value::String`.
#[verifier::external_body]
fn text_value(text: String) -> (r: serde_json::Value)
    ensures
        document_tree(r) == JsonValue::Str(text@),
{
    serde_json::Value::String(text)
}

/// `Value::Array`.
#[verifier::external_body]
fn array_value(items: Vec<serde_json::Value>) -> (r: serde_json::Value)
    ensures
        document_tree(r) == JsonValue::Array(document_trees(items@)),
{
    serde_json::Value::Array(items)
}

/// `Map::from_iter`, then `Value::Object`: the object with the given
/// members. The names are all different, so none replaces another; and the
/// map keeps its members in the order in which they come, which is what the
/// feature `preserve_order` of `serde_json` is for.
#[verifier::external_body]
fn object_value(members: Vec<(String, serde_json::Value)>) -> (r: serde_json::Value)
    requires
        distinct_names(owned_members(members@)),
    ensures
        document_tree(r) == JsonValue::Object(owned_members(members@)),
{
    serde_json::Value::Object(members.into_iter().collect())
}

/// `serde_json::to_string`: the compact text of a value, a function of
/// what the value holds, named [`json_text`]. The value holds no number
/// that is not an integer: of such a number the tree says too little to
/// tell what is written. Writing a value to a string does not fail.
#[verifier::external_body]
fn print_value(value: &serde_json::Value) -> (text: String)
    requires
        document_tree(*value).printable(),
    ensures
        text@ == json_text(document_tree(*value)),
{
    serde_json::to_string(value).unwrap_or_default()
}

/// Copies what a `serde_json::Value` holds into a tree.
pub fn from_value(value: &serde_json::Value) -> (r: Json)
    ensures
        r@ == document_tree(*value),
    decreases document_tree(*value),
{
    match kind_of(value) {
        JsonKind::Null => Json::Null,
        JsonKind::Bool => match bool_of(value) {
            Some(b) => Json::Bool(b),
            None => Json::Null,
        },
        JsonKind::Number => match integer_of(value) {
            Some(n) => Json::Int(n),
            None => Json::Real,
        },
        JsonKind::Str => match text_of(value) {
            Some(s) => Json::Str(s.to_owned()),
            None => Json::Null,
        },
        JsonKind::Array => match items_of(value) {
            Some(items) => {
                let mut out: Vec<Json> = Vec::new();
                let mut i: usize = 0;
                while i < items.len()
                    invariant
                        i <= items.len(),
                        out.len() == i,
                        document_tree(*value) == JsonValue::Array(document_trees(items@)),
                        forall|k: int| 0 <= k < i ==> (#[trigger] out[k])@ == document_tree(items[k]),
                    decreases items.len() - i,
                {
                    proof {
                        let tree = document_tree(*value);
                        let all = tree->Array_0;
                        assert(all[i as int] == document_tree(items[i as int]));
                        assert(decreases_to!(tree => all));
                        assert(decreases_to!(all => all[i as int]));
                    }
                    let item = from_value(&items[i]);
                    out.push(item);
                    i += 1;
                }
                let r = Json::Array(out);
                assert(r@->Array_0 =~= document_trees(items@));
                r
            },
            None => Json::Null,
        },
        JsonKind::Object => match members_of(value) {
            Some(members) => {
                let mut out: Vec<(String, Json)> = Vec::new();
                let mut i: usize = 0;
                while i < members.len()
                    invariant
                        i <= members.len(),
                        out.len() == i,
                        document_tree(*value) == JsonValue::Object(borrowed_members(members@)),
                        forall|k: int|
                            0 <= k < i ==> (#[trigger] out[k]).0@ == members[k].0@ && out[k].1@
                                == document_tree(*members[k].1),
                    decreases members.len() - i,
                {
                    proof {
                        let tree = document_tree(*value);
                        let all = tree->Object_0;
                        assert(all[i as int] == (
                            members[i as int].0@,
                            document_tree(*members[i as int].1),
                        ));
                        assert(decreases_to!(tree => all));
                        assert(decreases_to!(all => all[i as int]));
                        assert(decreases_to!(all[i as int] => all[i as int].1));
                    }
                    let member_value = from_value(members[i].1);
                    out.push((members[i].0.clone(), member_value));
                    i += 1;
                }
                let r = Json::Object(out);
                assert(r@->Object_0 =~= borrowed_members(members@));
                r
            },
            None => Json::Null,
        },
    }
}

/// Builds the `serde_json::Value` that holds what a tree holds.
pub fn to_value(tree: &Json) -> (r: serde_json::Value)
    requires
        tree@.printable(),
    ensures
        document_tree(r) == tree@,
    decreases tree,
{
    match tree {
        Json::Null => null_value(),
        Json::Bool(b) => bool_value(*b),
        Json::Int(n) => integer_value(*n),
        Json::Real => null_value(),
        Json::Str(s) => text_value(s.clone()),
        Json::Array(items) => {
            let mut out: Vec<serde_json::Value> = Vec::new();
            let mut i: usize = 0;
            assert(tree@->Array_0.len() == items.len());
            while i < items.len()
                invariant
                    i <= items.len(),
                    out.len() == i,
                    tree@ is Array,
                    tree@->Array_0.len() == items.len(),
                    *tree == Json::Array(*items),
                    forall|k: int|
                        0 <= k < items.len() ==> #[trigger] tree@->Array_0[k] == items[k]@,
                    tree@.printable(),
                    forall|k: int| 0 <= k < i ==> document_tree(#[trigger] out[k]) == items[k]@,
                decreases items.len() - i,
            {
                assert(tree@->Array_0[i as int].printable());
                let item = to_value(&items[i]);
                out.push(item);
                i += 1;
            }
            assert(document_trees(out@) =~= tree@->Array_0);
            array_value(out)
        },
        Json::Object(members) => {
            let mut out: Vec<(String, serde_json::Value)> = Vec::new();
            let mut i: usize = 0;
            assert(tree@->Object_0.len() == members.len());
            while i < members.len()
                invariant
                    i <= members.len(),
                    out.len() == i,
                    tree@ is Object,
                    tree@->Object_0.len() == members.len(),
                    *tree == Json::Object(*members),
                    forall|k: int|
                        0 <= k < members.len() ==> #[trigger] tree@->Object_0[k] == (
                            members[k].0@,
                            members[k].1@,
                        ),
                    tree@.printable(),
                    forall|k: int|
                        0 <= k < i ==> (#[trigger] out[k]).0@ == members[k].0@ && document_tree(
                            out[k].1,
                        ) == members[k].1@,
                decreases members.len() - i,
            {
                assert(tree@->Object_0[i as int].1.printable());
                let member_value = to_value(&members[i].1);
                out.push((members[i].0.clone(), member_value));
                i += 1;
            }
            assert(owned_members(out@) =~= tree@->Object_0);
            object_value(out)
        },
    }
}

/// Whether no two members have the same name.
fn names_differ(members: &Vec<(String, Json)>) -> (r: bool)
    ensures
        r == (forall|i: int, j: int|
            0 <= i < j < members.len() ==> (#[trigger] members[i]).0@ != (#[trigger] members[j]).0@),
{
    let mut j: usize = 0;
    while j < members.len()
        invariant
            j <= members.len(),
            forall|a: int, b: int|
                0 <= a < b < j ==> (#[trigger] members[a]).0@ != (#[trigger] members[b]).0@,
        decreases members.len() - j,
    {
        let mut i: usize = 0;
        while i < j
            invariant
                i <= j,
                j < members.len(),
                forall|a: int| 0 <= a < i ==> (#[trigger] members[a]).0@ != members[j as int].0@,
            decreases j - i,
        {
            if str_eq(members[i].0.as_str(), members[j].0.as_str()) {
                assert(members[i as int].0@ == members[j as int].0@);
                return false;
            }
            i += 1;
        }
        j += 1;
    }
    true
}

impl Json {
    /// Whether the tree can be written as text: see
    /// [`JsonValue::printable`].
    pub fn is_printable(&self) -> (r: bool)
        ensures
            r == self@.printable(),
        decreases self,
    {
        match self {
            Json::Null => true,
            Json::Bool(_) => true,
            Json::Int(n) => -0x8000_0000_0000_0000 <= *n && *n <= 0xffff_ffff_ffff_ffff,
            Json::Real => false,
            Json::Str(_) => true,
            Json::Array(items) => {
                let mut i: usize = 0;
                assert(self@->Array_0.len() == items.len());
                while i < items.len()
                    invariant
                        i <= items.len(),
                        self@ is Array,
                        self@->Array_0.len() == items.len(),
                        *self == Json::Array(*items),
                        forall|k: int|
                            0 <= k < items.len() ==> #[trigger] self@->Array_0[k] == items[k]@,
                        forall|k: int| 0 <= k < i ==> (#[trigger] self@->Array_0[k]).printable(),
                    decreases items.len() - i,
                {
                    if !items[i].is_printable() {
                        assert(!self@->Array_0[i as int].printable());
                        return false;
                    }
                    i += 1;
                }
                true
            },
            Json::Object(members) => {
                assert(self@->Object_0.len() == members.len());
                assert(forall|k: int|
                    0 <= k < members.len() ==> #[trigger] self@->Object_0[k] == (
                        members[k].0@,
                        members[k].1@,
                    ));
                if !names_differ(members) {
                    let ghost all = self@->Object_0;
                    assert(!distinct_names(all)) by {
                        if distinct_names(all) {
                            assert forall|a: int, b: int| 0 <= a < b < members.len() implies (
                            #[trigger] members[a]).0@ != (#[trigger] members[b]).0@ by {
                                assert(all[a].0 != all[b].0);
                            }
                        }
                    }
                    return false;
                }
                assert(distinct_names(self@->Object_0)) by {
                    let all = self@->Object_0;
                    assert forall|a: int, b: int| 0 <= a < b < all.len() implies (#[trigger] all[a]).0
                        != (#[trigger] all[b]).0 by {
                        assert(members[a].0@ != members[b].0@);
                    }
                }
                let mut i: usize = 0;
                while i < members.len()
                    invariant
                        i <= members.len(),
                        self@ is Object,
                        self@->Object_0.len() == members.len(),
                        *self == Json::Object(*members),
                        forall|k: int|
                            0 <= k < members.len() ==> #[trigger] self@->Object_0[k] == (
                                members[k].0@,
                                members[k].1@,
                            ),
                        distinct_names(self@->Object_0),
                        forall|k: int| 0 <= k < i ==> (#[trigger] self@->Object_0[k]).1.printable(),
                    decreases members.len() - i,
                {
                    if !members[i].1.is_printable() {
                        assert(!self@->Object_0[i as int].1.printable());
                        return false;
                    }
                    i += 1;
                }
                true
            },
        }
    }
}

/// Reads the text of a JSON document into a tree. The text is read by
/// `serde_json`; the contract goes through [`json_parse`], the name of what
/// it reads.
pub fn parse_json(text: &str) -> (r: Option<Json>)
    ensures
        match r {
            Some(tree) => json_parse(text@) == Some(tree@),
            None => json_parse(text@) is None,
        },
{
    match parse_value(text) {
        Some(value) => Some(from_value(&value)),
        None => None,
    }
}

/// Writes a tree as the text of a JSON document. The text is written by
/// `serde_json`; the contract goes through [`json_text`], the name of what
/// it writes.
pub fn print_json(tree: &Json) -> (text: String)
    requires
        tree@.printable(),
    ensures
        text@ == json_text(tree@),
{
    let value = to_value(tree);
    print_value(&value)
}

/// Writes a tree as the text of a JSON document, where it can be written:
/// nothing for a tree that is not printable.
pub fn try_print_json(tree: &Json) -> (r: Option<String>)
    ensures
        match r {
            Some(text) => tree@.printable() && text@ == json_text(tree@),
            None => !tree@.printable(),
        },
{
    if tree.is_printable() {
        Some(print_json(tree))
    } else {
        None
    }
}

} // verus!
