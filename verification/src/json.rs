//! JSON values as the wire protocol reads and writes them.
//!
//! Text is read and written by `serde_json`; the tree that the protocol logic
//! looks at is [`Json`], a plain data type of this crate.

use crate::text::same;
use vstd::prelude::*;

verus! {

/// `serde_json::Value`, carried through opaquely.
#[verifier::external_type_specification]
#[verifier::external_body]
pub struct ExValue(serde_json::Value);

/// `serde_json::Number`, carried through opaquely.
#[verifier::external_type_specification]
#[verifier::external_body]
pub struct ExNumber(serde_json::Number);

/// A JSON value.
///
/// An integer is `Unsigned`, `Signed`, or a `Number` that happens to be one;
/// they spell the same value where they hold the same integer. Where an object
/// names a key twice, the last one counts.
#[derive(Debug)]
pub enum Json {
    Null,
    Bool(bool),
    Unsigned(u64),
    Signed(i64),
    Number(serde_json::Number),
    Str(String),
    Array(Vec<Json>),
    Object(Vec<(String, Json)>),
}

/// What a JSON value is, with the spelling of integers and the order of an
/// object's keys forgotten.
pub enum JsonView {
    Null,
    Bool(bool),
    Integer(int),
    Float(serde_json::Number),
    Str(Seq<char>),
    Array(Seq<JsonView>),
    Object(Map<Seq<char>, JsonView>),
}

/// One level of a `serde_json::Value`, its children still opaque.
pub enum Node {
    Null,
    Bool(bool),
    Unsigned(u64),
    Signed(i64),
    Number(serde_json::Number),
    Str(String),
    Array(Vec<serde_json::Value>),
    Object(Vec<(String, serde_json::Value)>),
}

/// What a `serde_json::Value` holds.
pub uninterp spec fn contents(value: serde_json::Value) -> JsonView;

/// The integer that a `serde_json::Number` is, `None` where it is none.
pub uninterp spec fn integer_value(n: serde_json::Number) -> Option<i128>;

/// What `serde_json` reads `text` as: a value, or the text of its complaint.
pub uninterp spec fn parsed(text: Seq<char>) -> Result<JsonView, Seq<char>>;

/// The compact text that `serde_json` writes for a value.
pub uninterp spec fn json_text(value: JsonView) -> Seq<char>;

/// The contents of the values of `s`, in order.
pub open spec fn all_contents(s: Seq<serde_json::Value>) -> Seq<JsonView> {
    s.map_values(|v: serde_json::Value| contents(v))
}

/// The map that `s` spells, the last of two equal keys counting.
pub open spec fn object_contents(s: Seq<(String, serde_json::Value)>) -> Map<Seq<char>, JsonView>
    decreases s.len(),
{
    if s.len() == 0 {
        Map::empty()
    } else {
        object_contents(s.drop_last()).insert(s.last().0@, contents(s.last().1))
    }
}

/// No key occurs twice in `s`.
pub open spec fn distinct_keys(s: Seq<(String, serde_json::Value)>) -> bool {
    forall|i: int, j: int| 0 <= i < j < s.len() ==> s[i].0@ != s[j].0@
}

/// An integer, or a number that is none.
pub open spec fn number_contents(n: serde_json::Number) -> JsonView {
    match integer_value(n) {
        Some(i) => JsonView::Integer(i as int),
        None => JsonView::Float(n),
    }
}

/// What one level of a value stands for.
pub open spec fn node_contents(node: Node) -> JsonView {
    match node {
        Node::Null => JsonView::Null,
        Node::Bool(b) => JsonView::Bool(b),
        Node::Unsigned(n) => JsonView::Integer(n as int),
        Node::Signed(n) => JsonView::Integer(n as int),
        Node::Number(n) => number_contents(n),
        Node::Str(s) => JsonView::Str(s@),
        Node::Array(items) => JsonView::Array(all_contents(items@)),
        Node::Object(fields) => JsonView::Object(object_contents(fields@)),
    }
}

/// `text` is read as `value`.
pub open spec fn reads_as(text: Seq<char>, value: JsonView) -> bool {
    parsed(text) == Ok::<JsonView, Seq<char>>(value)
}

/// An object all of whose values are texts.
pub open spec fn flat(value: JsonView) -> bool {
    value matches JsonView::Object(fields) && forall|key: Seq<char>| #[trigger]
        fields.contains_key(key) ==> fields[key] is Str
}

/// Opens one level of a `serde_json::Value` by its public variants. An object
/// comes as its entries, each key once.
#[verifier::external_body]
fn into_node(value: serde_json::Value) -> (r: Node)
    ensures
        node_contents(r) == contents(value),
        r matches Node::Object(fields) ==> distinct_keys(fields@),
{
    match value {
        serde_json::Value::Null => Node::Null,
        serde_json::Value::Bool(b) => Node::Bool(b),
        serde_json::Value::Number(n) => Node::Number(n),
        serde_json::Value::String(s) => Node::Str(s),
        serde_json::Value::Array(items) => Node::Array(items),
        serde_json::Value::Object(fields) => Node::Object(fields.into_iter().collect()),
    }
}

/// Builds a `serde_json::Value` by its public variants, and by its
/// conversions from `u64` and `i64`. An object is made of entries with
/// different keys.
#[verifier::external_body]
fn of_node(node: Node) -> (r: serde_json::Value)
    requires
        node matches Node::Object(fields) ==> distinct_keys(fields@),
    ensures
        contents(r) == node_contents(node),
{
    match node {
        Node::Null => serde_json::Value::Null,
        Node::Bool(b) => serde_json::Value::Bool(b),
        Node::Unsigned(n) => serde_json::Value::from(n),
        Node::Signed(n) => serde_json::Value::from(n),
        Node::Number(n) => serde_json::Value::Number(n),
        Node::Str(s) => serde_json::Value::String(s),
        Node::Array(items) => serde_json::Value::Array(items),
        Node::Object(fields) => serde_json::Value::Object(fields.into_iter().collect()),
    }
}

/// `serde_json::Map::insert` on the entries of an object: the key has the
/// value afterwards, whether it was there before or not, and the other entries
/// stay.
#[verifier::external_body]
fn with_field(object: serde_json::Value, key: String, value: serde_json::Value) -> (r:
    serde_json::Value)
    requires
        contents(object) is Object,
    ensures
        contents(r) == JsonView::Object(
            contents(object)->Object_0.insert(key@, contents(value)),
        ),
{
    match object {
        serde_json::Value::Object(mut fields) => {
            fields.insert(key, value);
            serde_json::Value::Object(fields)
        },
        other => other,
    }
}

/// `serde_json::Number::as_i128`: the integer that the number is, where it is
/// one. A number holds no integer outside of `i64` and `u64`.
pub assume_specification[ serde_json::Number::as_i128 ](n: &serde_json::Number) -> (r: Option<i128>)
    ensures
        r == integer_value(*n),
        r matches Some(i) ==> i64::MIN <= i <= u64::MAX,
;

/// The `Clone` of `serde_json::Number`: the same number.
pub assume_specification[ <serde_json::Number as Clone>::clone ](n: &serde_json::Number) -> (r:
    serde_json::Number)
    ensures
        r == *n,
;

/// `serde_json::from_str`: reads one JSON value, or says in words why `text`
/// is none.
#[verifier::external_body]
fn read_value(text: &str) -> (r: Result<serde_json::Value, String>)
    ensures
        match r {
            Ok(value) => parsed(text@) == Ok::<JsonView, Seq<char>>(contents(value)),
            Err(complaint) => parsed(text@) == Err::<JsonView, Seq<char>>(complaint@),
        },
{
    match serde_json::from_str::<serde_json::Value>(text) {
        Ok(value) => Ok(value),
        Err(e) => Err(e.to_string()),
    }
}

/// The `Display` of `serde_json::Value`: compact JSON. It holds no line
/// break, and an object of texts reads back as it was.
#[verifier::external_body]
fn write_value(value: &serde_json::Value) -> (r: String)
    ensures
        r@ == json_text(contents(*value)),
        !r@.contains('\n'),
        flat(contents(*value)) ==> reads_as(r@, contents(*value)),
{
    value.to_string()
}

pub open spec fn json_view(j: Json) -> JsonView
    decreases j,
{
    match j {
        Json::Null => JsonView::Null,
        Json::Bool(b) => JsonView::Bool(b),
        Json::Unsigned(n) => JsonView::Integer(n as int),
        Json::Signed(n) => JsonView::Integer(n as int),
        Json::Number(n) => number_contents(n),
        Json::Str(s) => JsonView::Str(s@),
        Json::Array(items) => JsonView::Array(array_view(items@)),
        Json::Object(fields) => JsonView::Object(object_view(fields@)),
    }
}

/// The views of the values of `s`, in order.
pub open spec fn array_view(s: Seq<Json>) -> Seq<JsonView>
    decreases s,
{
    if s.len() == 0 {
        Seq::empty()
    } else {
        array_view(s.drop_last()).push(json_view(s.last()))
    }
}

/// The map that `s` spells, the last of two equal keys counting.
pub open spec fn object_view(s: Seq<(String, Json)>) -> Map<Seq<char>, JsonView>
    decreases s,
{
    if s.len() == 0 {
        Map::empty()
    } else {
        object_view(s.drop_last()).insert(s.last().0@, json_view(s.last().1))
    }
}

impl View for Json {
    type V = JsonView;

    open spec fn view(&self) -> JsonView {
        json_view(*self)
    }
}

/// A list's view is the list of the views.
pub proof fn lemma_array_view(s: Seq<Json>)
    ensures
        array_view(s).len() == s.len(),
        forall|i: int| 0 <= i < s.len() ==> #[trigger] array_view(s)[i] == s[i]@,
    decreases s.len(),
{
    if s.len() > 0 {
        lemma_array_view(s.drop_last());
    }
}

/// The key `k` is in the object that `s` spells exactly if `s` names it.
proof fn lemma_object_view_keys(s: Seq<(String, Json)>, k: Seq<char>)
    ensures
        object_view(s).contains_key(k) <==> exists|i: int|
            0 <= i < s.len() && #[trigger] s[i].0@ == k,
    decreases s.len(),
{
    if s.len() > 0 {
        lemma_object_view_keys(s.drop_last(), k);
        if exists|i: int| 0 <= i < s.len() && #[trigger] s[i].0@ == k {
            let i = choose|i: int| 0 <= i < s.len() && #[trigger] s[i].0@ == k;
            if i < s.len() - 1 {
                assert(s.drop_last()[i].0@ == k);
            }
        }
        if object_view(s.drop_last()).contains_key(k) {
            let i = choose|i: int|
                0 <= i < s.drop_last().len() && #[trigger] s.drop_last()[i].0@ == k;
            assert(s[i].0@ == k);
        }
        assert(s[s.len() - 1].0@ == s.last().0@);
    }
}

/// The last entry with a key is the one that counts.
proof fn lemma_object_view_last(s: Seq<(String, Json)>, i: int)
    requires
        0 <= i < s.len(),
        forall|j: int| i < j < s.len() ==> s[j].0@ != s[i].0@,
    ensures
        object_view(s).contains_key(s[i].0@),
        object_view(s)[s[i].0@] == s[i].1@,
    decreases s.len(),
{
    if i < s.len() - 1 {
        let rest = s.drop_last();
        assert(rest[i] == s[i]);
        assert forall|j: int| i < j < rest.len() implies rest[j].0@ != rest[i].0@ by {
            assert(rest[j] == s[j]);
        }
        lemma_object_view_last(rest, i);
        assert(s[s.len() - 1].0@ != s[i].0@);
    }
}

proof fn lemma_object_contents(s: Seq<(String, serde_json::Value)>, i: int)
    requires
        distinct_keys(s),
        0 <= i < s.len(),
    ensures
        object_contents(s).contains_key(s[i].0@),
        object_contents(s)[s[i].0@] == contents(s[i].1),
        object_contents(s).dom().finite(),
    decreases s.len(),
{
    let rest = s.drop_last();
    lemma_object_contents_finite(rest);
    if i < s.len() - 1 {
        assert(distinct_keys(rest)) by {
            assert forall|a: int, b: int| 0 <= a < b < rest.len() implies rest[a].0@
                != rest[b].0@ by {
                assert(s[a].0@ != s[b].0@);
            }
        }
        lemma_object_contents(rest, i);
        assert(s[i].0@ != s[s.len() - 1].0@);
    }
}

proof fn lemma_object_contents_finite(s: Seq<(String, serde_json::Value)>)
    ensures
        object_contents(s).dom().finite(),
    decreases s.len(),
{
    if s.len() > 0 {
        lemma_object_contents_finite(s.drop_last());
    }
}

/// Takes a whole `serde_json::Value` apart.
#[verifier::loop_isolation(false)]
fn lift(value: serde_json::Value) -> (r: Json)
    ensures
        r@ == contents(value),
    decreases contents(value),
{
    let ghost whole = contents(value);
    match into_node(value) {
        Node::Null => Json::Null,
        Node::Bool(b) => Json::Bool(b),
        Node::Unsigned(n) => Json::Unsigned(n),
        Node::Signed(n) => Json::Signed(n),
        Node::Number(n) => Json::Number(n),
        Node::Str(s) => Json::Str(s),
        Node::Array(items) => {
            let ghost all = items@;
            let mut out: Vec<Json> = Vec::new();
            for item in it: items
                invariant
                    it.seq() == all,
                    whole == JsonView::Array(all_contents(all)),
                    array_view(out@) == all_contents(all).take(it.index()),
            {
                let ghost k = it.index();
                let ghost before = out@;
                assert(whole->Array_0[k] == contents(item));
                out.push(lift(item));
                assert(out@.drop_last() =~= before);
                assert(all_contents(all).take(k + 1) =~= all_contents(all).take(k).push(
                    all_contents(all)[k],
                ));
            }
            assert(all_contents(all).take(all.len() as int) =~= all_contents(all));
            Json::Array(out)
        },
        Node::Object(fields) => {
            let ghost all = fields@;
            let mut out: Vec<(String, Json)> = Vec::new();
            assert(all.take(0) =~= Seq::empty());
            for field in it: fields
                invariant
                    it.seq() == all,
                    whole == JsonView::Object(object_contents(all)),
                    distinct_keys(all),
                    object_view(out@) == object_contents(all.take(it.index())),
            {
                let ghost k = it.index();
                let ghost before = out@;
                proof {
                    lemma_object_contents(all, k);
                }
                assert(whole->Object_0[field.0@] == contents(field.1));
                out.push((field.0, lift(field.1)));
                assert(out@.drop_last() =~= before);
                assert(all.take(k + 1).drop_last() =~= all.take(k));
            }
            assert(all.take(all.len() as int) =~= all);
            Json::Object(out)
        },
    }
}

/// Builds a whole `serde_json::Value`.
#[verifier::loop_isolation(false)]
fn lower(j: &Json) -> (r: serde_json::Value)
    ensures
        contents(r) == j@,
    decreases *j,
{
    match j {
        Json::Null => of_node(Node::Null),
        Json::Bool(b) => of_node(Node::Bool(*b)),
        Json::Unsigned(n) => of_node(Node::Unsigned(*n)),
        Json::Signed(n) => of_node(Node::Signed(*n)),
        Json::Number(n) => of_node(Node::Number(n.clone())),
        Json::Str(s) => of_node(Node::Str(s.clone())),
        Json::Array(items) => {
            let mut out: Vec<serde_json::Value> = Vec::new();
            let mut i: usize = 0;
            while i < items.len()
                invariant
                    *j == Json::Array(*items),
                    i <= items@.len(),
                    out@.len() == i,
                    all_contents(out@) == array_view(items@.take(i as int)),
                decreases items@.len() - i,
            {
                let ghost before = out@;
                out.push(lower(&items[i]));
                i = i + 1;
                assert(items@.take(i as int).drop_last() =~= items@.take(i - 1));
                assert(all_contents(out@) =~= all_contents(before).push(contents(out@.last())));
            }
            assert(items@.take(items@.len() as int) =~= items@);
            of_node(Node::Array(out))
        },
        Json::Object(fields) => {
            let mut out = of_node(Node::Object(Vec::new()));
            let mut i: usize = 0;
            while i < fields.len()
                invariant
                    *j == Json::Object(*fields),
                    i <= fields@.len(),
                    contents(out) == JsonView::Object(object_view(fields@.take(i as int))),
                decreases fields@.len() - i,
            {
                out = with_field(out, fields[i].0.clone(), lower(&fields[i].1));
                i = i + 1;
                assert(fields@.take(i as int).drop_last() =~= fields@.take(i - 1));
            }
            assert(fields@.take(fields@.len() as int) =~= fields@);
            out
        },
    }
}

/// Reads one JSON value from `text`.
pub fn parse(text: &str) -> (r: Result<Json, String>)
    ensures
        match r {
            Ok(value) => parsed(text@) == Ok::<JsonView, Seq<char>>(value@),
            Err(complaint) => parsed(text@) == Err::<JsonView, Seq<char>>(complaint@),
        },
{
    match read_value(text) {
        Ok(value) => Ok(lift(value)),
        Err(complaint) => Err(complaint),
    }
}

/// Writes `value` as compact JSON on one line.
pub fn render(value: &Json) -> (r: String)
    ensures
        r@ == json_text(value@),
        !r@.contains('\n'),
        flat(value@) ==> reads_as(r@, value@),
{
    let tree = lower(value);
    write_value(&tree)
}

impl JsonView {
    /// The value under `key`; `Null` where this is no object or lacks the key.
    pub open spec fn field(self, key: Seq<char>) -> JsonView {
        match self {
            JsonView::Object(fields) => if fields.contains_key(key) {
                fields[key]
            } else {
                JsonView::Null
            },
            _ => JsonView::Null,
        }
    }

    pub open spec fn as_str(self) -> Option<Seq<char>> {
        match self {
            JsonView::Str(s) => Some(s),
            _ => None,
        }
    }

    pub open spec fn as_bool(self) -> Option<bool> {
        match self {
            JsonView::Bool(b) => Some(b),
            _ => None,
        }
    }

    pub open spec fn as_u64(self) -> Option<u64> {
        match self {
            JsonView::Integer(i) => if 0 <= i <= u64::MAX {
                Some(i as u64)
            } else {
                None
            },
            _ => None,
        }
    }

    pub open spec fn as_i64(self) -> Option<i64> {
        match self {
            JsonView::Integer(i) => if i64::MIN <= i <= i64::MAX {
                Some(i as i64)
            } else {
                None
            },
            _ => None,
        }
    }

    pub open spec fn as_array(self) -> Option<Seq<JsonView>> {
        match self {
            JsonView::Array(items) => Some(items),
            _ => None,
        }
    }
}

impl Json {
    /// The value under `key`; `None` where this is no object or lacks the key.
    pub fn field(&self, key: &str) -> (r: Option<&Json>)
        ensures
            match r {
                Some(v) => self@ is Object && self@->Object_0.contains_key(key@) && v@
                    == self@.field(key@),
                None => self@ is Object ==> !self@->Object_0.contains_key(key@),
            },
            r is None ==> self@.field(key@) == JsonView::Null,
    {
        match self {
            Json::Object(fields) => {
                let mut i: usize = fields.len();
                while i > 0
                    invariant
                        *self == Json::Object(*fields),
                        i <= fields@.len(),
                        forall|j: int| i <= j < fields@.len() ==> fields@[j].0@ != key@,
                    decreases i,
                {
                    i = i - 1;
                    if same(fields[i].0.as_str(), key) {
                        proof {
                            lemma_object_view_last(fields@, i as int);
                        }
                        return Some(&fields[i].1);
                    }
                }
                proof {
                    lemma_object_view_keys(fields@, key@);
                }
                None
            },
            _ => None,
        }
    }

    fn integer(&self) -> (r: Option<i128>)
        ensures
            match r {
                Some(i) => self@ == JsonView::Integer(i as int) && i64::MIN <= i <= u64::MAX,
                None => !(self@ is Integer),
            },
    {
        match self {
            Json::Unsigned(n) => Some(*n as i128),
            Json::Signed(n) => Some(*n as i128),
            Json::Number(n) => n.as_i128(),
            _ => None,
        }
    }

    /// The text under `key`, where there is one.
    pub fn str_field(&self, key: &str) -> (r: Option<&String>)
        ensures
            match r {
                Some(s) => self@.field(key@).as_str() == Some(s@),
                None => self@.field(key@).as_str() is None,
            },
    {
        match self.field(key) {
            Some(Json::Str(s)) => Some(s),
            _ => None,
        }
    }

    /// The truth value under `key`, where there is one.
    pub fn bool_field(&self, key: &str) -> (r: Option<bool>)
        ensures
            r == self@.field(key@).as_bool(),
    {
        match self.field(key) {
            Some(Json::Bool(b)) => Some(*b),
            _ => None,
        }
    }

    /// The integer under `key`, where it fits `u64`.
    pub fn u64_field(&self, key: &str) -> (r: Option<u64>)
        ensures
            r == self@.field(key@).as_u64(),
    {
        match self.field(key) {
            Some(v) => match v.integer() {
                Some(i) => if i >= 0 {
                    Some(i as u64)
                } else {
                    None
                },
                None => None,
            },
            None => None,
        }
    }

    /// The integer under `key`, where it fits `i64`.
    pub fn i64_field(&self, key: &str) -> (r: Option<i64>)
        ensures
            r == self@.field(key@).as_i64(),
    {
        match self.field(key) {
            Some(v) => match v.integer() {
                Some(i) => if i <= 0x7fff_ffff_ffff_ffff {
                    Some(i as i64)
                } else {
                    None
                },
                None => None,
            },
            None => None,
        }
    }

    /// The list under `key`, where there is one.
    pub fn array_field(&self, key: &str) -> (r: Option<&Vec<Json>>)
        ensures
            match r {
                Some(items) => self@.field(key@).as_array() == Some(array_view(items@)),
                None => self@.field(key@).as_array() is None,
            },
    {
        match self.field(key) {
            Some(Json::Array(items)) => Some(items),
            _ => None,
        }
    }
}

/// A value stands for what it holds: integers by their value however they are
/// written, a list by its items in order, and an object by its entries, of which
/// the last with a key counts.
pub proof fn values_stand_for_what_they_hold(
    b: bool,
    n: u64,
    i: i64,
    s: String,
    items: Vec<Json>,
    fields: Vec<(String, Json)>,
    k: int,
)
    requires
        0 <= k < fields@.len(),
        forall|j: int| k < j < fields@.len() ==> fields@[j].0@ != fields@[k].0@,
    ensures
        Json::Null@ == JsonView::Null,
        Json::Bool(b)@ == JsonView::Bool(b),
        Json::Unsigned(n)@ == JsonView::Integer(n as int),
        Json::Signed(i)@ == JsonView::Integer(i as int),
        Json::Str(s)@ == JsonView::Str(s@),
        Json::Array(items)@ matches JsonView::Array(views) && views.len() == items@.len()
            && forall|j: int| 0 <= j < items@.len() ==> #[trigger] views[j] == items@[j]@,
        Json::Object(fields)@ matches JsonView::Object(m) && m.contains_key(fields@[k].0@)
            && m[fields@[k].0@] == fields@[k].1@,
        Json::Object(fields)@ matches JsonView::Object(m) && forall|key: Seq<char>| #[trigger]
            m.contains_key(key) <==> exists|j: int|
                0 <= j < fields@.len() && #[trigger] fields@[j].0@ == key,
{
    lemma_array_view(items@);
    lemma_object_view_last(fields@, k);
    assert forall|key: Seq<char>| #[trigger] object_view(fields@).contains_key(key) <==> exists|
        j: int,
    | 0 <= j < fields@.len() && #[trigger] fields@[j].0@ == key by {
        lemma_object_view_keys(fields@, key);
    }
}

/// A value is read as text, as a truth value, as a list or as an integer
/// exactly if it is one, and an integer only where it fits.
pub proof fn values_are_read_by_their_kind(v: JsonView)
    ensures
        match v {
            JsonView::Str(s) => v.as_str() == Some(s),
            _ => v.as_str() is None,
        },
        match v {
            JsonView::Bool(b) => v.as_bool() == Some(b),
            _ => v.as_bool() is None,
        },
        match v {
            JsonView::Array(items) => v.as_array() == Some(items),
            _ => v.as_array() is None,
        },
        match v.as_u64() {
            Some(n) => v == JsonView::Integer(n as int),
            None => v matches JsonView::Integer(i) ==> i < 0 || i > 0xffff_ffff_ffff_ffff,
        },
        match v.as_i64() {
            Some(n) => v == JsonView::Integer(n as int),
            None => v matches JsonView::Integer(i) ==> i < -0x8000_0000_0000_0000 || i
                > 0x7fff_ffff_ffff_ffff,
        },
{
}

/// A field is read under its own key, by its kind.
pub proof fn fields_are_read_under_their_keys(
    json: Json,
    key: &str,
    text: Option<&String>,
    flag: Option<bool>,
    natural: Option<u64>,
    integer: Option<i64>,
)
    requires
        call_ensures(Json::str_field, (&json, key), text),
        call_ensures(Json::bool_field, (&json, key), flag),
        call_ensures(Json::u64_field, (&json, key), natural),
        call_ensures(Json::i64_field, (&json, key), integer),
    ensures
        match json@ {
            JsonView::Object(m) if m.contains_key(key@) => {
                &&& match m[key@] {
                    JsonView::Str(s) => text is Some && text->Some_0@ == s,
                    _ => text is None,
                }
                &&& match m[key@] {
                    JsonView::Bool(b) => flag == Some(b),
                    _ => flag is None,
                }
                &&& match m[key@] {
                    JsonView::Integer(i) => {
                        &&& 0 <= i <= 0xffff_ffff_ffff_ffff ==> natural is Some && natural->Some_0
                            == i
                        &&& i < 0 || i > 0xffff_ffff_ffff_ffff ==> natural is None
                        &&& -0x8000_0000_0000_0000 <= i <= 0x7fff_ffff_ffff_ffff ==> integer is Some
                            && integer->Some_0 == i
                        &&& i < -0x8000_0000_0000_0000 || i > 0x7fff_ffff_ffff_ffff ==> integer
                            is None
                    },
                    _ => natural is None && integer is None,
                }
            },
            _ => text is None && flag is None && natural is None && integer is None,
        },
{
}

}
