//! JSON documents: the values that the service's replies and the chat requests are read from.
use crate::text::str_eq;
use vstd::prelude::*;

verus! {

/// A JSON value. Of a number only its value as an unsigned integer is kept, where it is one.
pub enum Json {
    Null,
    Bool(bool),
    Number(Option<u64>),
    Text(String),
    Array(Vec<Json>),
    Object(Vec<(String, Json)>),
}

/// A JSON value as mathematics: texts are sequences of characters, an object is the sequence of
/// its members.
#[verifier::ext_equal]
pub enum JsonView {
    Null,
    Bool(bool),
    Number(Option<u64>),
    Text(Seq<char>),
    Array(Seq<JsonView>),
    Object(Seq<(Seq<char>, JsonView)>),
}

/// The value of the first member named `key`.
pub open spec fn lookup(members: Seq<(Seq<char>, JsonView)>, key: Seq<char>) -> Option<JsonView>
    decreases members.len(),
{
    if members.len() == 0 {
        None
    } else if members[0].0 == key {
        Some(members[0].1)
    } else {
        lookup(members.drop_first(), key)
    }
}

/// The members but for the first one named `key`.
pub open spec fn without(members: Seq<(Seq<char>, JsonView)>, key: Seq<char>) -> Seq<
    (Seq<char>, JsonView),
>
    decreases members.len(),
{
    if members.len() == 0 {
        members
    } else if members[0].0 == key {
        members.drop_first()
    } else {
        seq![members[0]] + without(members.drop_first(), key)
    }
}

impl JsonView {
    /// The member `key` of an object; nothing of any other value.
    pub open spec fn get(self, key: Seq<char>) -> Option<JsonView> {
        match self {
            JsonView::Object(members) => lookup(members, key),
            _ => None,
        }
    }

    /// The value without the member `key`; any value but an object stays as it is.
    pub open spec fn removed(self, key: Seq<char>) -> JsonView {
        match self {
            JsonView::Object(members) => JsonView::Object(without(members, key)),
            _ => self,
        }
    }

    /// The text of a string.
    pub open spec fn text(self) -> Option<Seq<char>> {
        match self {
            JsonView::Text(s) => Some(s),
            _ => None,
        }
    }

    /// The value of a number that is an unsigned integer.
    pub open spec fn unsigned(self) -> Option<u64> {
        match self {
            JsonView::Number(n) => n,
            _ => None,
        }
    }

    /// The items of an array.
    pub open spec fn items(self) -> Option<Seq<JsonView>> {
        match self {
            JsonView::Array(items) => Some(items),
            _ => None,
        }
    }

    /// The text of the member `key`.
    pub open spec fn text_at(self, key: Seq<char>) -> Option<Seq<char>> {
        match self.get(key) {
            Some(value) => value.text(),
            None => None,
        }
    }

    /// The value of the member `key`, where it is an unsigned integer.
    pub open spec fn unsigned_at(self, key: Seq<char>) -> Option<u64> {
        match self.get(key) {
            Some(value) => value.unsigned(),
            None => None,
        }
    }

    /// The items of the member `key`.
    pub open spec fn items_at(self, key: Seq<char>) -> Option<Seq<JsonView>> {
        match self.get(key) {
            Some(value) => value.items(),
            None => None,
        }
    }
}

/// The views of the members of an object.
pub open spec fn member_views(members: Seq<(String, Json)>) -> Seq<(Seq<char>, JsonView)> {
    Seq::new(members.len(), |i: int| (members[i].0@, members[i].1@))
}

/// The views of the items of an array.
pub open spec fn item_views(items: Seq<Json>) -> Seq<JsonView> {
    Seq::new(items.len(), |i: int| items[i]@)
}

impl Json {
    pub open spec fn view(&self) -> JsonView
        decreases self,
    {
        match self {
            Json::Null => JsonView::Null,
            Json::Bool(b) => JsonView::Bool(*b),
            Json::Number(n) => JsonView::Number(*n),
            Json::Text(s) => JsonView::Text(s@),
            Json::Array(items) => JsonView::Array(
                Seq::new(
                    items@.len(),
                    |i: int|
                        if 0 <= i < items@.len() {
                            items@[i].view()
                        } else {
                            JsonView::Null
                        },
                ),
            ),
            Json::Object(members) => JsonView::Object(
                Seq::new(
                    members@.len(),
                    |i: int|
                        if 0 <= i < members@.len() {
                            (members@[i].0@, members@[i].1.view())
                        } else {
                            (seq![], JsonView::Null)
                        },
                ),
            ),
        }
    }
}

/// The view of an array or an object, by the views of what it holds.
pub broadcast proof fn view_of_parts(json: Json)
    ensures
        json matches Json::Array(items) ==> #[trigger] json@ == JsonView::Array(item_views(items@)),
        json matches Json::Object(members) ==> json@ == JsonView::Object(member_views(members@)),
{
    match json {
        Json::Array(items) => {
            assert(json@->Array_0 =~= item_views(items@));
        },
        Json::Object(members) => {
            assert(json@->Object_0 =~= member_views(members@));
        },
        _ => {},
    }
}

#[verifier::external_type_specification]
#[verifier::external_body]
pub struct ExJsonValue(serde_json::Value);

#[verifier::external_type_specification]
#[verifier::external_body]
pub struct ExJsonError(serde_json::Error);

/// What a `serde_json::Value` holds.
pub uninterp spec fn json_contents(value: serde_json::Value) -> JsonView;

/// The document that `serde_json` reads from the bytes, if it accepts them.
pub uninterp spec fn json_document(bytes: Seq<u8>) -> Option<JsonView>;

/// One level of a `serde_json::Value`.
enum JsonNode {
    Null,
    Bool(bool),
    Number(Option<u64>),
    Text(String),
    Array(Vec<serde_json::Value>),
    Object(Vec<(String, serde_json::Value)>),
}

/// What a node stands for.
spec fn node_contents(node: JsonNode) -> JsonView {
    match node {
        JsonNode::Null => JsonView::Null,
        JsonNode::Bool(b) => JsonView::Bool(b),
        JsonNode::Number(n) => JsonView::Number(n),
        JsonNode::Text(s) => JsonView::Text(s@),
        JsonNode::Array(items) => JsonView::Array(
            Seq::new(items@.len(), |i: int| json_contents(items@[i])),
        ),
        JsonNode::Object(members) => JsonView::Object(
            Seq::new(members@.len(), |i: int| (members@[i].0@, json_contents(members@[i].1))),
        ),
    }
}

/// Wraps `serde_json::from_slice`, which reads the bytes as one JSON document. Claimed: whether
/// the bytes are accepted, and the value read, are a function of the bytes alone.
#[verifier::external_body]
fn parse_value(bytes: &[u8]) -> (r: Result<serde_json::Value, serde_json::Error>)
    ensures
        r is Ok <==> json_document(bytes@) is Some,
        r matches Ok(value) ==> json_contents(value) == json_document(bytes@)->0,
{
    serde_json::from_slice(bytes)
}

/// Opens a `serde_json::Value` by one level, one variant for one variant; a number is taken by
/// `Number::as_u64` and a map by its entries in the order of its iterator. Claimed: the node
/// stands for what the value holds, and the entries of a map stand in the order of their names, no
/// two under one name.
#[verifier::external_body]
fn open_value(value: serde_json::Value) -> (node: JsonNode)
    ensures
        node_contents(node) == json_contents(value),
        node is Object ==> ordered(member_names(node_contents(node)->Object_0)),
{
    match value {
        serde_json::Value::Null => JsonNode::Null,
        serde_json::Value::Bool(b) => JsonNode::Bool(b),
        serde_json::Value::Number(n) => JsonNode::Number(n.as_u64()),
        serde_json::Value::String(s) => JsonNode::Text(s),
        serde_json::Value::Array(items) => JsonNode::Array(items),
        serde_json::Value::Object(members) => JsonNode::Object(members.into_iter().collect()),
    }
}

/// The members of every object stand in the order of their names, no two under one name.
pub open spec fn tidy(value: JsonView) -> bool
    decreases value,
{
    match value {
        JsonView::Array(items) => forall|i: int| 0 <= i < items.len() ==> tidy(#[trigger] items[i]),
        JsonView::Object(members) => ordered(member_names(members)) && forall|i: int|
            0 <= i < members.len() ==> tidy((#[trigger] members[i]).1),
        _ => true,
    }
}

/// The JSON value that `value` holds.
fn from_value(value: serde_json::Value) -> (json: Json)
    ensures
        json@ == json_contents(value),
        tidy(json@),
    decreases json_contents(value),
{
    broadcast use view_of_parts;

    let ghost whole = json_contents(value);
    match open_value(value) {
        JsonNode::Null => Json::Null,
        JsonNode::Bool(b) => Json::Bool(b),
        JsonNode::Number(n) => Json::Number(n),
        JsonNode::Text(s) => Json::Text(s),
        JsonNode::Array(items) => {
            let ghost all = items@;
            let mut out: Vec<Json> = Vec::new();
            for item in it: items
                invariant
                    it.seq() == all,
                    out@.len() == it.index(),
                    whole == json_contents(value),
                    whole == JsonView::Array(
                        Seq::new(all.len(), |i: int| json_contents(all[i])),
                    ),
                    forall|i: int|
                        0 <= i < out@.len() ==> #[trigger] out@[i]@ == json_contents(all[i]) && tidy(
                            out@[i]@,
                        ),
            {
                assert(json_contents(item) == whole->Array_0[out@.len() as int]);
                out.push(from_value(item));
            }
            assert(item_views(out@) =~= whole->Array_0);
            assert forall|i: int| 0 <= i < all.len() implies tidy(#[trigger] whole->Array_0[i]) by {
                assert(tidy(out@[i]@));
            }
            Json::Array(out)
        },
        JsonNode::Object(members) => {
            let ghost all = members@;
            assert(ordered(member_names(whole->Object_0)));
            let mut out: Vec<(String, Json)> = Vec::new();
            for (name, item) in it: members
                invariant
                    it.seq() == all,
                    out@.len() == it.index(),
                    whole == json_contents(value),
                    ordered(member_names(whole->Object_0)),
                    whole == JsonView::Object(
                        Seq::new(all.len(), |i: int| (all[i].0@, json_contents(all[i].1))),
                    ),
                    forall|i: int|
                        0 <= i < out@.len() ==> (#[trigger] out@[i]).0@ == all[i].0@ && out@[i].1@
                            == json_contents(all[i].1) && tidy(out@[i].1@),
            {
                assert(json_contents(item) == whole->Object_0[out@.len() as int].1);
                out.push((name, from_value(item)));
            }
            assert(member_views(out@) =~= whole->Object_0);
            assert forall|i: int| 0 <= i < all.len() implies tidy(
                (#[trigger] whole->Object_0[i]).1,
            ) by {
                assert(tidy(out@[i].1@));
            }
            Json::Object(out)
        },
    }
}

/// Reads one JSON document.
pub fn parse_json(bytes: &[u8]) -> (r: Result<Json, serde_json::Error>)
    ensures
        r is Ok <==> json_document(bytes@) is Some,
        r matches Ok(json) ==> json@ == json_document(bytes@)->0,
        r matches Ok(json) ==> tidy(json@),
{
    match parse_value(bytes) {
        Ok(value) => Ok(from_value(value)),
        Err(error) => Err(error),
    }
}

/// The place of the first member named `key`.
fn find_member(members: &Vec<(String, Json)>, key: &str) -> (r: Option<usize>)
    ensures
        match r {
            Some(i) => {
                &&& i < members.len()
                &&& lookup(member_views(members@), key@) == Some(members@[i as int].1@)
                &&& without(member_views(members@), key@) == member_views(members@).remove(i as int)
            },
            None => {
                &&& lookup(member_views(members@), key@) is None
                &&& without(member_views(members@), key@) == member_views(members@)
            },
        },
{
    let ghost all = member_views(members@);
    let mut i: usize = 0;
    assert(all.skip(0) == all);
    assert(all.take(0) + without(all, key@) == without(all, key@));
    while i < members.len()
        invariant
            i <= members.len(),
            all == member_views(members@),
            lookup(all, key@) == lookup(all.skip(i as int), key@),
            without(all, key@) == all.take(i as int) + without(all.skip(i as int), key@),
        decreases members.len() - i,
    {
        assert(all.skip(i as int)[0] == all[i as int]);
        assert(all.skip(i as int).drop_first() == all.skip(i + 1));
        if str_eq(members[i].0.as_str(), key) {
            assert(all.remove(i as int) == all.take(i as int) + all.skip(i + 1));
            return Some(i);
        }
        assert(all.take(i as int) + (seq![all[i as int]] + without(all.skip(i + 1), key@))
            == all.take(i + 1) + without(all.skip(i + 1), key@));
        i = i + 1;
    }
    assert(all.take(i as int) + without(all.skip(i as int), key@) == all);
    None
}

impl Json {
    /// The text of a string.
    pub fn as_str(&self) -> (r: Option<&str>)
        ensures
            r is Some <==> self@.text() is Some,
            r matches Some(s) ==> s@ == self@.text()->0,
    {
        match self {
            Json::Text(s) => Some(s.as_str()),
            _ => None,
        }
    }

    /// The value of a number that is an unsigned integer.
    pub fn as_u64(&self) -> (r: Option<u64>)
        ensures
            r == self@.unsigned(),
    {
        match self {
            Json::Number(n) => *n,
            _ => None,
        }
    }

    /// The items of an array.
    pub fn as_array(&self) -> (r: Option<&Vec<Json>>)
        ensures
            r is Some <==> self@.items() is Some,
            r matches Some(items) ==> item_views(items@) == self@.items()->0,
    {
        broadcast use view_of_parts;

        match self {
            Json::Array(items) => Some(items),
            _ => None,
        }
    }

    /// Whether the value is an object.
    pub fn is_object(&self) -> (r: bool)
        ensures
            r == (self@ is Object),
    {
        match self {
            Json::Object(_) => true,
            _ => false,
        }
    }

    /// The member `key` of an object.
    pub fn get(&self, key: &str) -> (r: Option<&Json>)
        ensures
            r is Some <==> self@.get(key@) is Some,
            r matches Some(json) ==> json@ == self@.get(key@)->0,
    {
        broadcast use view_of_parts;

        match self {
            Json::Object(members) => match find_member(members, key) {
                Some(i) => Some(&members[i].1),
                None => None,
            },
            _ => None,
        }
    }

    /// The text of the member `key`.
    pub fn str_at(&self, key: &str) -> (r: Option<&str>)
        ensures
            r is Some <==> self@.text_at(key@) is Some,
            r matches Some(s) ==> s@ == self@.text_at(key@)->0,
    {
        match self.get(key) {
            Some(value) => value.as_str(),
            None => None,
        }
    }

    /// The value of the member `key`, where it is an unsigned integer.
    pub fn u64_at(&self, key: &str) -> (r: Option<u64>)
        ensures
            r == self@.unsigned_at(key@),
    {
        match self.get(key) {
            Some(value) => value.as_u64(),
            None => None,
        }
    }

    /// The items of the member `key`.
    pub fn array_at(&self, key: &str) -> (r: Option<&Vec<Json>>)
        ensures
            r is Some <==> self@.items_at(key@) is Some,
            r matches Some(items) ==> item_views(items@) == self@.items_at(key@)->0,
    {
        match self.get(key) {
            Some(value) => value.as_array(),
            None => None,
        }
    }

    /// Takes the member `key` out of an object.
    pub fn remove(&mut self, key: &str) -> (r: Option<Json>)
        ensures
            r is Some <==> old(self)@.get(key@) is Some,
            r matches Some(json) ==> json@ == old(self)@.get(key@)->0,
            final(self)@ == old(self)@.removed(key@),
    {
        broadcast use view_of_parts;

        match self {
            Json::Object(members) => match find_member(members, key) {
                Some(i) => {
                    let ghost all = member_views(members@);
                    let entry = members.remove(i);
                    assert(member_views(members@) == all.remove(i as int));
                    Some(entry.1)
                },
                None => None,
            },
            _ => None,
        }
    }
}

/// `a` comes before `b` in the order of character codes.
pub open spec fn precedes(a: Seq<char>, b: Seq<char>) -> bool
    decreases a.len(),
{
    b.len() > 0 && (a.len() == 0 || a[0] < b[0] || (a[0] == b[0] && precedes(
        a.drop_first(),
        b.drop_first(),
    )))
}

/// A text comes before another if it is smaller at the first place where they differ, or ends
/// there.
pub proof fn precedes_at(a: Seq<char>, b: Seq<char>, at: int)
    requires
        0 <= at <= a.len(),
        at < b.len(),
        forall|i: int| 0 <= i < at ==> a[i] == b[i],
        at == a.len() || a[at] < b[at],
    ensures
        precedes(a, b),
    decreases at,
{
    if at > 0 {
        precedes_at(a.drop_first(), b.drop_first(), at - 1);
    }
}

/// The names are distinct and stand in the order of character codes.
pub open spec fn ordered(names: Seq<Seq<char>>) -> bool {
    forall|i: int, j: int| 0 <= i < j < names.len() ==> #[trigger] precedes(names[i], names[j])
}

proof fn no_text_precedes_itself(text: Seq<char>)
    ensures
        !precedes(text, text),
    decreases text.len(),
{
    if text.len() > 0 {
        no_text_precedes_itself(text.drop_first());
    }
}

/// Names in order are distinct: in an object of a document no name stands twice.
pub proof fn ordered_names_are_distinct(names: Seq<Seq<char>>)
    requires
        ordered(names),
    ensures
        names.no_duplicates(),
{
    assert forall|i: int, j: int|
        0 <= i < names.len() && 0 <= j < names.len() && i != j implies names[i] != names[j] by {
        no_text_precedes_itself(names[i]);
        if i < j {
            assert(precedes(names[i], names[j]));
        } else {
            assert(precedes(names[j], names[i]));
        }
    }
}

/// The names of the members.
pub open spec fn member_names(members: Seq<(Seq<char>, JsonView)>) -> Seq<Seq<char>> {
    members.map_values(|member: (Seq<char>, JsonView)| member.0)
}

/// A value that can be written without loss: every number of it is an unsigned integer, the
/// members of every object are ordered, and it is nested at most `depth` deep.
pub open spec fn plain(value: JsonView, depth: nat) -> bool
    decreases depth,
{
    match value {
        JsonView::Number(n) => n is Some,
        JsonView::Array(items) => depth > 0 && forall|i: int|
            0 <= i < items.len() ==> plain(#[trigger] items[i], (depth - 1) as nat),
        JsonView::Object(members) => depth > 0 && ordered(member_names(members)) && forall|i: int|
            0 <= i < members.len() ==> plain((#[trigger] members[i]).1, (depth - 1) as nat),
        _ => true,
    }
}

/// The depth to which documents are written.
pub open spec fn written_depth() -> nat {
    100
}

/// The bytes that `serde_json` writes for a plain value.
pub uninterp spec fn json_bytes(value: JsonView) -> Seq<u8>;

/// Closes a node into a `serde_json::Value`, one variant for one variant; a map is collected from
/// its entries. Claimed: the value holds what the node stands for. (A map keeps its entries in
/// the order of their names, so the entries must stand in that order.)
#[verifier::external_body]
fn close_value(node: JsonNode) -> (value: serde_json::Value)
    requires
        node matches JsonNode::Number(n) ==> n is Some,
        node matches JsonNode::Object(members) ==> ordered(
            member_names(node_contents(node)->Object_0),
        ),
    ensures
        json_contents(value) == node_contents(node),
{
    match node {
        JsonNode::Null => serde_json::Value::Null,
        JsonNode::Bool(b) => serde_json::Value::Bool(b),
        JsonNode::Number(n) => serde_json::Value::from(n),
        JsonNode::Text(s) => serde_json::Value::String(s),
        JsonNode::Array(items) => serde_json::Value::Array(items),
        JsonNode::Object(members) => serde_json::Value::Object(members.into_iter().collect()),
    }
}

/// Wraps `serde_json::to_vec` of a `serde_json::Value`. Claimed: writing a plain value succeeds
/// (the writer is a vector, and every key is a string), the bytes are a function of what the
/// value holds, and reading them back gives the same. (The reader takes documents that are
/// nested less than 128 deep.)
#[verifier::external_body]
fn write_value(value: &serde_json::Value) -> (r: Result<Vec<u8>, serde_json::Error>)
    requires
        plain(json_contents(*value), written_depth()),
    ensures
        r is Ok,
        r->Ok_0@ == json_bytes(json_contents(*value)),
        json_document(r->Ok_0@) == Some(json_contents(*value)),
{
    serde_json::to_vec(value)
}

/// The `serde_json::Value` that holds `json`.
fn to_value(json: Json, Ghost(depth): Ghost<nat>) -> (value: serde_json::Value)
    requires
        plain(json@, depth),
    ensures
        json_contents(value) == json@,
    decreases json,
{
    broadcast use view_of_parts;

    let ghost whole = json;
    match json {
        Json::Null => close_value(JsonNode::Null),
        Json::Bool(b) => close_value(JsonNode::Bool(b)),
        Json::Number(n) => close_value(JsonNode::Number(n)),
        Json::Text(s) => close_value(JsonNode::Text(s)),
        Json::Array(items) => {
            let ghost all = items@;
            let mut out: Vec<serde_json::Value> = Vec::new();
            for item in it: items
                invariant
                    it.seq() == all,
                    out@.len() == it.index(),
                    whole == json,
                    whole is Array,
                    whole->Array_0@ == all,
                    whole@ == JsonView::Array(item_views(all)),
                    plain(whole@, depth),
                    forall|i: int| 0 <= i < out@.len() ==> json_contents(#[trigger] out@[i]) == all[i]@,
            {
                let ghost here = whole@->Array_0[out@.len() as int];
                assert(here == item@);
                assert(plain(here, (depth - 1) as nat));
                assert(decreases_to!(whole => whole->Array_0@[out@.len() as int]));
                out.push(to_value(item, Ghost((depth - 1) as nat)));
            }
            let node = JsonNode::Array(out);
            assert(node_contents(node)->Array_0 =~= item_views(all));
            close_value(node)
        },
        Json::Object(members) => {
            let ghost all = members@;
            let mut out: Vec<(String, serde_json::Value)> = Vec::new();
            for (name, item) in it: members
                invariant
                    it.seq() == all,
                    out@.len() == it.index(),
                    whole == json,
                    whole is Object,
                    whole->Object_0@ == all,
                    whole@ == JsonView::Object(member_views(all)),
                    plain(whole@, depth),
                    forall|i: int|
                        0 <= i < out@.len() ==> (#[trigger] out@[i]).0@ == all[i].0@
                            && json_contents(out@[i].1) == all[i].1@,
            {
                assert(member_views(all)[out@.len() as int].1 == item@);
                assert(plain(item@, (depth - 1) as nat));
                assert(decreases_to!(whole => whole->Object_0@[out@.len() as int].1));
                out.push((name, to_value(item, Ghost((depth - 1) as nat))));
            }
            let node = JsonNode::Object(out);
            assert(node_contents(node)->Object_0 =~= member_views(all));
            close_value(node)
        },
    }
}

/// Writes one JSON document.
pub fn write_json(json: Json) -> (r: Result<Vec<u8>, serde_json::Error>)
    requires
        plain(json@, written_depth()),
    ensures
        r is Ok,
        r->Ok_0@ == json_bytes(json@),
        json_document(r->Ok_0@) == Some(json@),
{
    let value = to_value(json, Ghost(written_depth()));
    write_value(&value)
}

/// A member of an object is found by its name, where no name stands twice; a name that no member
/// has is not found, nor is any name in a value that is no object.
pub proof fn members_are_found_by_name(members: Seq<(Seq<char>, JsonView)>, key: Seq<char>)
    requires
        member_names(members).no_duplicates(),
    ensures
        forall|i: int|
            0 <= i < members.len() && (#[trigger] members[i]).0 == key ==> JsonView::Object(
                members,
            ).get(key) == Some(members[i].1),
        (forall|i: int| 0 <= i < members.len() ==> (#[trigger] members[i]).0 != key) ==> (
        JsonView::Object(members).get(key) is None),
    decreases members.len(),
{
    if members.len() > 0 {
        let rest = members.drop_first();
        let names = member_names(members);
        assert(member_names(rest) =~= names.drop_first());
        members_are_found_by_name(rest, key);
        assert forall|i: int|
            0 <= i < members.len() && (#[trigger] members[i]).0 == key implies JsonView::Object(
            members,
        ).get(key) == Some(members[i].1) by {
            if members[0].0 == key {
                assert(names[0] == names[i]);
            } else {
                assert(rest[i - 1] == members[i]);
            }
        }
        if forall|i: int| 0 <= i < members.len() ==> (#[trigger] members[i]).0 != key {
            assert forall|i: int| 0 <= i < rest.len() implies (#[trigger] rest[i]).0 != key by {
                assert(rest[i] == members[i + 1]);
            }
            assert(members[0].0 != key);
        }
    }
}

/// A value is taken for what it is: texts as texts, unsigned integers as numbers of every size,
/// arrays as their items; and a member by what its value is.
pub proof fn values_are_taken_for_what_they_are(value: JsonView, key: Seq<char>)
    ensures
        forall|t: Seq<char>| value.text() == Some(t) <==> value == JsonView::Text(t),
        forall|n: u64| value.unsigned() == Some(n) <==> value == JsonView::Number(Some(n)),
        forall|items: Seq<JsonView>| value.items() == Some(items) <==> value == JsonView::Array(items),
        forall|t: Seq<char>|
            value.text_at(key) == Some(t) <==> value.get(key) == Some(JsonView::Text(t)),
        forall|n: u64|
            value.unsigned_at(key) == Some(n) <==> value.get(key) == Some(JsonView::Number(Some(n))),
        forall|items: Seq<JsonView>|
            value.items_at(key) == Some(items) <==> value.get(key) == Some(JsonView::Array(items)),
        !(value is Object) ==> value.get(key) is None,
{
}

/// The view of a value shows all of it.
pub proof fn view_of_value_shows_all(json: Json)
    ensures
        match json {
            Json::Null => json@ == JsonView::Null,
            Json::Bool(b) => json@ == JsonView::Bool(b),
            Json::Number(n) => json@ == JsonView::Number(n),
            Json::Text(s) => json@ == JsonView::Text(s@),
            Json::Array(items) => json@ matches JsonView::Array(views) && views.len() == items@.len()
                && forall|i: int| 0 <= i < views.len() ==> #[trigger] views[i] == items@[i]@,
            Json::Object(members) => json@ matches JsonView::Object(views) && views.len()
                == members@.len() && forall|i: int|
                0 <= i < views.len() ==> #[trigger] views[i] == (members@[i].0@, members@[i].1@),
        },
{
    view_of_parts(json);
}

} // verus!
