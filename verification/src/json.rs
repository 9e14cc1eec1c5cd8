//! JSON documents.

use crate::models::in_i64;
use crate::text::{same_text, text_view};
use vstd::prelude::*;
use vstd::string::*;

verus! {

/// A JSON value. The members of an object have an order.
#[derive(Debug)]
pub enum Json {
    Null,
    Bool(bool),
    Int(i64),
    UInt(u64),
    /// A number with a fraction or an exponent, as text.
    Decimal(String),
    Str(String),
    Array(Vec<Json>),
    Object(Vec<Member>),
}

/// A member of an object.
#[derive(Debug)]
pub struct Member {
    pub name: String,
    pub value: Json,
}

pub enum JsonView {
    Null,
    Bool(bool),
    Int(int),
    Decimal(Seq<char>),
    Str(Seq<char>),
    Array(Seq<JsonView>),
    Object(Seq<MemberView>),
}

pub struct MemberView {
    pub name: Seq<char>,
    pub value: JsonView,
}

impl View for Json {
    type V = JsonView;

    open spec fn view(&self) -> JsonView
        decreases self,
    {
        match self {
            Json::Null => JsonView::Null,
            Json::Bool(b) => JsonView::Bool(*b),
            Json::Int(i) => JsonView::Int(*i as int),
            Json::UInt(u) => JsonView::Int(*u as int),
            Json::Decimal(t) => JsonView::Decimal(t@),
            Json::Str(t) => JsonView::Str(t@),
            Json::Array(v) => JsonView::Array(
                Seq::new(
                    v@.len(),
                    |i: int|
                        if 0 <= i < v@.len() {
                            v@[i].view()
                        } else {
                            JsonView::Null
                        },
                ),
            ),
            Json::Object(v) => JsonView::Object(
                Seq::new(
                    v@.len(),
                    |i: int|
                        if 0 <= i < v@.len() {
                            MemberView { name: v@[i].name@, value: v@[i].value.view() }
                        } else {
                            MemberView { name: Seq::empty(), value: JsonView::Null }
                        },
                ),
            ),
        }
    }
}

impl View for Member {
    type V = MemberView;

    open spec fn view(&self) -> MemberView {
        MemberView { name: self.name@, value: self.value@ }
    }
}

pub open spec fn item_views(v: Seq<Json>) -> Seq<JsonView> {
    v.map_values(|j: Json| j@)
}

pub open spec fn member_views(v: Seq<Member>) -> Seq<MemberView> {
    v.map_values(|m: Member| m@)
}

pub broadcast proof fn lemma_array_view(v: Vec<Json>)
    ensures
        #[trigger] Json::Array(v)@ == JsonView::Array(item_views(v@)),
{
    match Json::Array(v)@ {
        JsonView::Array(s) => {
            assert(s =~= item_views(v@));
        },
        _ => {},
    }
}

pub broadcast proof fn lemma_object_view(v: Vec<Member>)
    ensures
        #[trigger] Json::Object(v)@ == JsonView::Object(member_views(v@)),
{
    match Json::Object(v)@ {
        JsonView::Object(s) => {
            assert(s =~= member_views(v@));
        },
        _ => {},
    }
}

// ── Reading ──────────────────────────────────────────────────────────────────

/// The value of the first member called `key`.
pub open spec fn lookup(members: Seq<MemberView>, key: Seq<char>) -> Option<JsonView>
    decreases members.len(),
{
    if members.len() == 0 {
        None
    } else if members[0].name == key {
        Some(members[0].value)
    } else {
        lookup(members.drop_first(), key)
    }
}

/// Of members of one name, the first is found; where none has the name, nothing is.
pub proof fn law_first_member_is_found(members: Seq<MemberView>, key: Seq<char>, at: int)
    requires
        0 <= at <= members.len(),
        forall|j: int| 0 <= j < at ==> (#[trigger] members[j]).name != key,
        at < members.len() ==> members[at].name == key,
    ensures
        JsonView::Object(members).field(key) == if at < members.len() {
            Some(members[at].value)
        } else {
            None
        },
    decreases members.len(),
{
    if at > 0 {
        let rest = members.drop_first();
        assert(members[0].name != key);
        assert forall|j: int| 0 <= j < at - 1 implies (#[trigger] rest[j]).name != key by {
            assert(rest[j] == members[j + 1]);
        }
        law_first_member_is_found(rest, key, at - 1);
    }
}

impl JsonView {
    /// The member `key` of an object; other values have no members.
    pub open spec fn field(self, key: Seq<char>) -> Option<JsonView> {
        match self {
            JsonView::Object(members) => lookup(members, key),
            _ => None,
        }
    }

    pub open spec fn text(self) -> Option<Seq<char>> {
        match self {
            JsonView::Str(t) => Some(t),
            _ => None,
        }
    }

    pub open spec fn items(self) -> Option<Seq<JsonView>> {
        match self {
            JsonView::Array(v) => Some(v),
            _ => None,
        }
    }

    /// The whole number, where it fits a signed 64-bit integer.
    pub open spec fn number(self) -> Option<int> {
        match self {
            JsonView::Int(i) => if in_i64(i) {
                Some(i)
            } else {
                None
            },
            _ => None,
        }
    }

    /// The whole number, where it fits an unsigned 64-bit integer.
    pub open spec fn count(self) -> Option<int> {
        match self {
            JsonView::Int(i) => if 0 <= i <= u64::MAX {
                Some(i)
            } else {
                None
            },
            _ => None,
        }
    }

    /// The text of the member `key`.
    pub open spec fn text_field(self, key: Seq<char>) -> Option<Seq<char>> {
        match self.field(key) {
            Some(v) => v.text(),
            None => None,
        }
    }

    /// The items of the member `key`.
    pub open spec fn items_field(self, key: Seq<char>) -> Option<Seq<JsonView>> {
        match self.field(key) {
            Some(v) => v.items(),
            None => None,
        }
    }
}

pub open spec fn json_view(j: Option<&Json>) -> Option<JsonView> {
    match j {
        Some(v) => Some(v@),
        None => None,
    }
}

impl Json {
    pub fn get(&self, key: &str) -> (r: Option<&Json>)
        ensures
            json_view(r) == self@.field(key@),
    {
        broadcast use lemma_object_view;

        match self {
            Json::Object(members) => {
                let n: usize = members.len();
                let mut i: usize = 0;
                let ghost all = member_views(members@);
                assert(all.skip(0) =~= all);
                while i < n
                    invariant
                        i <= n == members@.len(),
                        all == member_views(members@),
                        self@ == JsonView::Object(all),
                        lookup(all, key@) == lookup(all.skip(i as int), key@),
                    decreases n - i,
                {
                    assert(all.skip(i as int)[0] == members@[i as int]@);
                    assert(all.skip(i as int).drop_first() =~= all.skip(i + 1));
                    if same_text(members[i].name.as_str(), key) {
                        return Some(&members[i].value);
                    }
                    i = i + 1;
                }
                None
            },
            _ => None,
        }
    }

    pub fn as_str(&self) -> (r: Option<&str>)
        ensures
            text_view(r) == self@.text(),
    {
        broadcast use {lemma_object_view, lemma_array_view};

        match self {
            Json::Str(t) => Some(t.as_str()),
            _ => None,
        }
    }

    pub fn as_array(&self) -> (r: Option<&Vec<Json>>)
        ensures
            match r {
                Some(v) => self@.items() == Some(item_views(v@)),
                None => self@.items() is None,
            },
    {
        broadcast use {lemma_object_view, lemma_array_view};

        match self {
            Json::Array(v) => Some(v),
            _ => None,
        }
    }

    pub fn is_array(&self) -> (r: bool)
        ensures
            r == (self@ is Array),
    {
        self.as_array().is_some()
    }

    pub fn as_i64(&self) -> (r: Option<i64>)
        ensures
            match r {
                Some(n) => self@.number() == Some(n as int),
                None => self@.number() is None,
            },
    {
        broadcast use {lemma_object_view, lemma_array_view};

        match self {
            Json::Int(n) => Some(*n),
            Json::UInt(n) => if *n <= i64::MAX as u64 {
                Some(*n as i64)
            } else {
                None
            },
            _ => None,
        }
    }

    pub fn as_u64(&self) -> (r: Option<u64>)
        ensures
            match r {
                Some(n) => self@.count() == Some(n as int),
                None => self@.count() is None,
            },
    {
        broadcast use {lemma_object_view, lemma_array_view};

        match self {
            Json::Int(n) => if *n >= 0 {
                Some(*n as u64)
            } else {
                None
            },
            Json::UInt(n) => Some(*n),
            _ => None,
        }
    }

    pub fn str_field(&self, key: &str) -> (r: Option<&str>)
        ensures
            text_view(r) == self@.text_field(key@),
    {
        match self.get(key) {
            Some(v) => v.as_str(),
            None => None,
        }
    }

    pub fn array_field(&self, key: &str) -> (r: Option<&Vec<Json>>)
        ensures
            match r {
                Some(v) => self@.items_field(key@) == Some(item_views(v@)),
                None => self@.items_field(key@) is None,
            },
    {
        match self.get(key) {
            Some(v) => v.as_array(),
            None => None,
        }
    }

    // ── Building ─────────────────────────────────────────────────────────────

    pub fn string(t: &str) -> (r: Json)
        ensures
            r@ == JsonView::Str(t@),
    {
        Json::Str(t.to_string())
    }

    pub fn empty_object() -> (r: Json)
        ensures
            r@ == JsonView::Object(Seq::empty()),
    {
        broadcast use lemma_object_view;

        let members: Vec<Member> = Vec::new();
        assert(member_views(members@) =~= Seq::empty());
        Json::Object(members)
    }

    /// The object with one more member at the end.
    pub fn with(self, key: &str, value: Json) -> (r: Json)
        ensures
            r@ == with_member(self@, key@, value@),
    {
        broadcast use {lemma_object_view, lemma_array_view};

        match self {
            Json::Object(members) => {
                let mut m = members;
                let ghost was = m@;
                m.push(Member { name: key.to_string(), value });
                assert(member_views(m@) =~= member_views(was).push(MemberView { name: key@, value: value@ }));
                Json::Object(m)
            },
            other => other,
        }
    }

    pub fn array(items: Vec<Json>) -> (r: Json)
        ensures
            r@ == JsonView::Array(item_views(items@)),
    {
        broadcast use lemma_array_view;

        Json::Array(items)
    }
}

/// An object with one more member; other values stay as they are.
pub open spec fn with_member(j: JsonView, key: Seq<char>, value: JsonView) -> JsonView {
    match j {
        JsonView::Object(members) => JsonView::Object(members.push(MemberView { name: key, value })),
        _ => j,
    }
}

// ── Parsing ──────────────────────────────────────────────────────────────────

#[verifier::external_type_specification]
#[verifier::external_body]
pub struct ExValue(serde_json::Value);

/// What a `serde_json::Value` holds.
pub uninterp spec fn value_tree(v: serde_json::Value) -> JsonView;

/// What `serde_json::from_str` makes of a text: the document, or the message of
/// its syntax error.
pub uninterp spec fn document(text: Seq<char>) -> Result<JsonView, Seq<char>>;

/// `serde_json::from_str` into a `serde_json::Value`. The result depends on the
/// text alone.
#[verifier::external_body]
fn parse_value(text: &str) -> (r: Result<serde_json::Value, String>)
    ensures
        match r {
            Ok(v) => document(text@) == Ok::<JsonView, Seq<char>>(value_tree(v)),
            Err(message) => document(text@) == Err::<JsonView, Seq<char>>(message@),
        },
{
    match serde_json::from_str::<serde_json::Value>(text) {
        Ok(v) => Ok(v),
        Err(e) => Err(e.to_string()),
    }
}

/// The outer layer of a `serde_json::Value`.
enum Layer {
    Null,
    Bool(bool),
    Int(i64),
    UInt(u64),
    Decimal(String),
    Str(String),
    Array(Vec<serde_json::Value>),
    Object(Vec<(String, serde_json::Value)>),
}

spec fn trees(items: Seq<serde_json::Value>) -> Seq<JsonView> {
    items.map_values(|v: serde_json::Value| value_tree(v))
}

spec fn member_trees(members: Seq<(String, serde_json::Value)>) -> Seq<MemberView> {
    members.map_values(
        |m: (String, serde_json::Value)| MemberView { name: m.0@, value: value_tree(m.1) },
    )
}

spec fn layer_tree(layer: Layer) -> JsonView {
    match layer {
        Layer::Null => JsonView::Null,
        Layer::Bool(b) => JsonView::Bool(b),
        Layer::Int(i) => JsonView::Int(i as int),
        Layer::UInt(u) => JsonView::Int(u as int),
        Layer::Decimal(t) => JsonView::Decimal(t@),
        Layer::Str(t) => JsonView::Str(t@),
        Layer::Array(items) => JsonView::Array(trees(items@)),
        Layer::Object(members) => JsonView::Object(member_trees(members@)),
    }
}

/// The variants of `serde_json::Value`, told apart. A number is unsigned, or
/// negative, or has a fraction or an exponent: `as_u64` and `as_i64` say which,
/// and the last is kept as `Display` writes it. What an array or an object holds
/// is handed out as it is, in the order of its iterator.
#[verifier::external_body]
fn open_value(v: serde_json::Value) -> (r: Layer)
    ensures
        layer_tree(r) == value_tree(v),
{
    match v {
        serde_json::Value::Null => Layer::Null,
        serde_json::Value::Bool(b) => Layer::Bool(b),
        serde_json::Value::Number(n) => match (n.as_u64(), n.as_i64()) {
            (Some(u), _) => Layer::UInt(u),
            (None, Some(i)) => Layer::Int(i),
            (None, None) => Layer::Decimal(n.to_string()),
        },
        serde_json::Value::String(s) => Layer::Str(s),
        serde_json::Value::Array(items) => Layer::Array(items),
        serde_json::Value::Object(members) => Layer::Object(members.into_iter().collect()),
    }
}

fn value_to_json(v: serde_json::Value) -> (r: Json)
    ensures
        r@ == value_tree(v),
    decreases value_tree(v),
{
    broadcast use {lemma_object_view, lemma_array_view};

    match open_value(v) {
        Layer::Null => Json::Null,
        Layer::Bool(b) => Json::Bool(b),
        Layer::Int(i) => Json::Int(i),
        Layer::UInt(u) => Json::UInt(u),
        Layer::Decimal(t) => Json::Decimal(t),
        Layer::Str(t) => Json::Str(t),
        Layer::Array(items) => {
            let ghost all = items@;
            let mut out: Vec<Json> = Vec::new();
            for item in it: items
                invariant
                    it.seq() == all,
                    value_tree(v) == JsonView::Array(trees(all)),
                    item_views(out@) =~= trees(all.take(it.index())),
            {
                let ghost was = out@;
                assert(trees(all)[it.index()] == value_tree(item));
                assert(decreases_to!(value_tree(v) => value_tree(v)->Array_0[it.index()]));
                let next = value_to_json(item);
                out.push(next);
                assert(item_views(out@) =~= item_views(was).push(next@));
            }
            assert(all.take(all.len() as int) =~= all);
            Json::Array(out)
        },
        Layer::Object(members) => {
            let ghost all = members@;
            let mut out: Vec<Member> = Vec::new();
            for member in it: members
                invariant
                    it.seq() == all,
                    value_tree(v) == JsonView::Object(member_trees(all)),
                    member_views(out@) =~= member_trees(all.take(it.index())),
            {
                let ghost was = out@;
                assert(member_trees(all)[it.index()].value == value_tree(member.1));
                assert(decreases_to!(value_tree(v) => value_tree(v)->Object_0[it.index()].value));
                let next = Member { name: member.0, value: value_to_json(member.1) };
                out.push(next);
                assert(member_views(out@) =~= member_views(was).push(next@));
            }
            assert(all.take(all.len() as int) =~= all);
            Json::Object(out)
        },
    }
}

pub fn parse_json(text: &str) -> (r: Result<Json, String>)
    ensures
        match r {
            Ok(j) => document(text@) == Ok::<JsonView, Seq<char>>(j@),
            Err(message) => document(text@) == Err::<JsonView, Seq<char>>(message@),
        },
{
    match parse_value(text) {
        Ok(v) => Ok(value_to_json(v)),
        Err(message) => Err(message),
    }
}

} // verus!
