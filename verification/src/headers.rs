//! Request headers: a map from header names to values that are plain text.

use vstd::prelude::*;

use crate::json::{members_of, new_object, no_members, set_member, text_value, Json};
use crate::text::same_text;

verus! {

/// The pair at position `i` is there and names `name`.
spec fn names_at(entries: Seq<(String, String)>, name: Seq<char>, i: int) -> bool {
    0 <= i < entries.len() && entries[i].0@ == name
}

/// The map that a list of name and value pairs with distinct names stands for.
spec fn map_of(entries: Seq<(String, String)>) -> Map<Seq<char>, Seq<char>> {
    Map::new(
        |name: Seq<char>| exists|i: int| names_at(entries, name, i),
        |name: Seq<char>| entries[choose|i: int| names_at(entries, name, i)].1@,
    )
}

/// No name occurs twice.
spec fn distinct(entries: Seq<(String, String)>) -> bool {
    forall|i: int, j: int|
        #![trigger entries[i], entries[j]]
        0 <= i < j < entries.len() ==> entries[i].0@ != entries[j].0@
}

/// Changing or adding the pair at `at` sets one name in the map and leaves the others alone.
proof fn lemma_map_of_insert(before: Seq<(String, String)>, after: Seq<(String, String)>, at: int)
    requires
        distinct(before),
        distinct(after),
        0 <= at < after.len(),
        after == before.push(after[at]) || (at < before.len() && after == before.update(
            at,
            after[at],
        ) && after[at].0@ == before[at].0@),
    ensures
        map_of(after) == map_of(before).insert(after[at].0@, after[at].1@),
{
    let key = after[at].0@;
    if after == before.push(after[at]) {
        assert(at == before.len()) by {
            if at < before.len() {
                assert(after[at].0@ == after[before.len() as int].0@);
            }
        }
    }
    assert(names_at(after, key, at));
    assert forall|k: Seq<char>| k != key implies #[trigger] map_of(after).dom().contains(k)
        == map_of(before).dom().contains(k) && (map_of(after).dom().contains(k) ==> map_of(after)[k]
        == map_of(before)[k]) by {
        if map_of(after).dom().contains(k) {
            let i = choose|i: int| names_at(after, k, i);
            assert(names_at(before, k, i));
        }
        if map_of(before).dom().contains(k) {
            let i = choose|i: int| names_at(before, k, i);
            assert(names_at(after, k, i));
        }
    }
    assert(map_of(after) =~= map_of(before).insert(key, after[at].1@));
}

/// Header names with their values. No name occurs twice.
pub struct Headers {
    entries: Vec<(String, String)>,
}

impl View for Headers {
    type V = Map<Seq<char>, Seq<char>>;

    closed spec fn view(&self) -> Map<Seq<char>, Seq<char>> {
        map_of(self.entries@)
    }
}

impl Headers {
    #[verifier::type_invariant]
    spec fn names_are_distinct(self) -> bool {
        distinct(self.entries@)
    }

    /// No headers.
    pub fn new() -> (res: Headers)
        ensures
            res@ == Map::<Seq<char>, Seq<char>>::empty(),
    {
        let res: Headers = Headers { entries: Vec::new() };
        assert(res@ =~= Map::empty());
        res
    }

    /// Sets the header `name` to `value`, in place of any value it had.
    pub fn insert(&mut self, name: String, value: String)
        ensures
            final(self)@ == old(self)@.insert(name@, value@),
    {
        proof {
            use_type_invariant(&*self);
        }
        let ghost before = self.entries@;
        let n: usize = self.entries.len();
        let mut at: usize = 0;
        while at < n && !same_text(self.entries[at].0.as_str(), name.as_str())
            invariant
                at <= n,
                n == self.entries@.len(),
                self.entries@ == before,
                forall|j: int| 0 <= j < at ==> before[j].0@ != name@,
            decreases n - at,
        {
            at += 1;
        }
        let mut entries: Vec<(String, String)> = Vec::new();
        std::mem::swap(&mut entries, &mut self.entries);
        if at < n {
            entries.set(at, (name, value));
        } else {
            entries.push((name, value));
        }
        self.entries = entries;
        proof {
            lemma_map_of_insert(before, self.entries@, at as int);
        }
    }

    /// The JSON object with one string member for each header.
    pub fn to_object(&self) -> (res: serde_json::Map<String, serde_json::Value>)
        ensures
            members_of(res) == text_members(self@),
            forall|name: Seq<char>| #[trigger]
                members_of(res).dom().contains(name) <==> self@.dom().contains(name),
            forall|name: Seq<char>| #[trigger]
                self@.dom().contains(name) ==> members_of(res)[name] == Json::Text(self@[name]),
    {
        proof {
            use_type_invariant(self);
        }
        let mut object: serde_json::Map<String, serde_json::Value> = new_object();
        let n: usize = self.entries.len();
        let mut i: usize = 0;
        assert(text_members(map_of(self.entries@.take(0))) =~= no_members());
        while i < n
            invariant
                i <= n,
                n == self.entries@.len(),
                distinct(self.entries@),
                members_of(object) == text_members(map_of(self.entries@.take(i as int))),
            decreases n - i,
        {
            let name: String = self.entries[i].0.clone();
            let value: String = self.entries[i].1.clone();
            proof {
                let before = self.entries@.take(i as int);
                let after = self.entries@.take(i + 1);
                assert(after =~= before.push(self.entries@[i as int]));
                lemma_map_of_insert(before, after, i as int);
                assert(text_members(map_of(before).insert(name@, value@)) =~= text_members(
                    map_of(before),
                ).insert(name@, Json::Text(value@)));
            }
            set_member(&mut object, name, text_value(value));
            i += 1;
        }
        assert(self.entries@.take(n as int) =~= self.entries@);
        object
    }
}

/// One JSON string for each entry of `map`.
pub open spec fn text_members(map: Map<Seq<char>, Seq<char>>) -> Map<Seq<char>, Json> {
    map.map_values(|value: Seq<char>| Json::Text(value))
}

/// Nothing but visible ASCII, blanks and tabs.
pub open spec fn visible(value: Seq<u8>) -> bool {
    forall|i: int| 0 <= i < value.len() ==> #[trigger] value[i] == 9 || 0x20 <= value[i] < 0x7f
}

/// The text of ASCII bytes.
pub open spec fn ascii_text(value: Seq<u8>) -> Seq<char> {
    value.map_values(|b: u8| b as char)
}

/// The text of a header value, unless it holds anything but visible ASCII, blanks and tabs.
pub fn visible_text(value: &[u8]) -> (res: Option<String>)
    ensures
        visible(value@) ==> res is Some && res->0@ == ascii_text(value@),
        !visible(value@) ==> res is None,
        res is Some <==> forall|i: int|
            0 <= i < value@.len() ==> #[trigger] value@[i] == 9 || 32 <= value@[i] <= 126,
        res matches Some(text) ==> text@.len() == value@.len() && forall|i: int|
            0 <= i < value@.len() ==> #[trigger] text@[i] as int == value@[i],
{
    let n: usize = value.len();
    let mut text: String = String::new();
    let mut i: usize = 0;
    while i < n
        invariant
            i <= n,
            n == value@.len(),
            visible(value@.take(i as int)),
            text@ == ascii_text(value@.take(i as int)),
        decreases n - i,
    {
        let b: u8 = value[i];
        if !(b == 9 || (0x20 <= b && b < 0x7f)) {
            return None;
        }
        text.push(b as char);
        proof {
            let before = value@.take(i as int);
            let after = value@.take(i + 1);
            assert(after =~= before.push(b));
            assert(text@ =~= ascii_text(after));
        }
        i += 1;
    }
    assert(value@.take(n as int) =~= value@);
    Some(text)
}

/// The headers that a list of fields stands for: of fields with one name the last counts, and a
/// field whose value is not visible text does not count.
pub open spec fn collected(fields: Seq<(Seq<char>, Seq<u8>)>) -> Map<Seq<char>, Seq<char>>
    decreases fields.len(),
{
    if fields.len() == 0 {
        Map::empty()
    } else {
        let (name, value) = fields.last();
        let before = collected(fields.drop_last());
        if visible(value) {
            before.insert(name, ascii_text(value))
        } else {
            before
        }
    }
}

/// The names and values of a list of fields.
pub open spec fn fields_of(fields: Seq<(String, Vec<u8>)>) -> Seq<(Seq<char>, Seq<u8>)> {
    fields.map_values(|field: (String, Vec<u8>)| (field.0@, field.1@))
}

/// The headers that a list of fields stands for.
pub fn collect_fields(fields: &Vec<(String, Vec<u8>)>) -> (res: Headers)
    ensures
        res@ == collected(fields_of(fields@)),
{
    let mut headers: Headers = Headers::new();
    let n: usize = fields.len();
    let mut i: usize = 0;
    while i < n
        invariant
            i <= n,
            n == fields@.len(),
            headers@ == collected(fields_of(fields@).take(i as int)),
        decreases n - i,
    {
        proof {
            let after = fields_of(fields@).take(i + 1);
            assert(after.drop_last() =~= fields_of(fields@).take(i as int));
            assert(after.last() == (fields@[i as int].0@, fields@[i as int].1@));
        }
        if let Some(text) = visible_text(fields[i].1.as_slice()) {
            headers.insert(fields[i].0.clone(), text);
        }
        i += 1;
    }
    assert(fields_of(fields@).take(n as int) =~= fields_of(fields@));
    headers
}

/// `axum::http::HeaderMap`: the header fields of a request.
#[verifier::external_type_specification]
#[verifier::external_body]
#[verifier::reject_recursive_types(T)]
pub struct ExHeaderMap<T>(axum::http::HeaderMap<T>);

/// `axum::http::HeaderValue`: the value of a header field.
#[verifier::external_type_specification]
#[verifier::external_body]
pub struct ExHeaderValue(axum::http::HeaderValue);

/// No capital letters among the ASCII characters of `name`.
pub open spec fn lower_case(name: Seq<char>) -> bool {
    forall|i: int| 0 <= i < name.len() ==> !('A' <= #[trigger] name[i] <= 'Z')
}

/// The fields that an `axum::http::HeaderMap` holds, in the order in which it is walked: the
/// name, and the bytes of the value.
pub uninterp spec fn header_fields(map: axum::http::HeaderMap) -> Seq<(Seq<char>, Seq<u8>)>;

/// `axum::http::HeaderMap::iter`: every field, once for each value, with its name and the bytes
/// of its value. Header names are kept in lower case.
#[verifier::external_body]
fn list_fields(map: &axum::http::HeaderMap) -> (res: Vec<(String, Vec<u8>)>)
    ensures
        fields_of(res@) == header_fields(*map),
        forall|i: int| 0 <= i < res@.len() ==> lower_case(#[trigger] res@[i].0@),
{
    map.iter().map(|(name, value)| (name.as_str().to_string(), value.as_bytes().to_vec())).collect()
}

/// Headers are collected under names that the fields have.
pub proof fn headers_have_field_names(fields: Seq<(Seq<char>, Seq<u8>)>, name: Seq<char>)
    requires
        collected(fields).dom().contains(name),
    ensures
        exists|i: int| 0 <= i < fields.len() && #[trigger] fields[i].0 == name,
    decreases fields.len(),
{
    if fields.len() > 0 {
        let before = fields.drop_last();
        if fields.last().0 == name {
            assert(fields[fields.len() - 1].0 == name);
        } else {
            headers_have_field_names(before, name);
            let i = choose|i: int| 0 <= i < before.len() && #[trigger] before[i].0 == name;
            assert(fields[i].0 == name);
        }
    }
}

/// The headers of a request. Their names are in lower case.
pub fn collect_headers(map: &axum::http::HeaderMap) -> (res: Headers)
    ensures
        res@ == collected(header_fields(*map)),
        forall|name: Seq<char>| #[trigger] res@.dom().contains(name) ==> lower_case(name),
{
    let list: Vec<(String, Vec<u8>)> = list_fields(map);
    let res: Headers = collect_fields(&list);
    proof {
        let fields = header_fields(*map);
        assert forall|name: Seq<char>| #[trigger] res@.dom().contains(name) implies lower_case(
            name,
        ) by {
            headers_have_field_names(fields, name);
            let i = choose|i: int| 0 <= i < fields.len() && #[trigger] fields[i].0 == name;
            assert(fields[i].0 == list@[i].0@);
        }
    }
    res
}

/// A field with a visible value overrides the fields of that name before it, and no others.
pub proof fn last_field_counts(
    fields: Seq<(Seq<char>, Seq<u8>)>,
    name: Seq<char>,
    value: Seq<u8>,
    other: Seq<char>,
)
    requires
        visible(value),
        other != name,
    ensures
        collected(fields.push((name, value))).dom().contains(name),
        collected(fields.push((name, value)))[name] == ascii_text(value),
        collected(fields.push((name, value))).dom().contains(other) == collected(
            fields,
        ).dom().contains(other),
        collected(fields.push((name, value)))[other] == collected(fields)[other],
{
    assert(fields.push((name, value)).drop_last() =~= fields);
}

/// A field whose value is not visible text changes nothing.
pub proof fn unreadable_field_is_dropped(
    fields: Seq<(Seq<char>, Seq<u8>)>,
    name: Seq<char>,
    value: Seq<u8>,
)
    requires
        !visible(value),
    ensures
        collected(fields.push((name, value))) == collected(fields),
{
    assert(fields.push((name, value)).drop_last() =~= fields);
}

/// A header value is readable if it holds nothing but tabs and the ASCII characters from the blank
/// to the tilde, and its text has the character of each byte at the place of that byte.
pub proof fn readable_values_are_visible_ascii(value: Seq<u8>)
    ensures
        visible(value) <==> forall|i: int|
            0 <= i < value.len() ==> #[trigger] value[i] == 9 || 32 <= value[i] <= 126,
        ascii_text(value).len() == value.len(),
        forall|i: int|
            0 <= i < value.len() ==> #[trigger] ascii_text(value)[i] as int == value[i],
{
}

/// The headers have one string member each, under the name of the header.
pub proof fn members_are_the_headers(map: Map<Seq<char>, Seq<char>>, name: Seq<char>)
    ensures
        text_members(map).dom().contains(name) <==> map.dom().contains(name),
        map.dom().contains(name) ==> text_members(map)[name] == Json::Text(map[name]),
{
}

/// The fields are those of the list, one for one, with their names and values.
pub proof fn fields_are_those_of_the_list(fields: Seq<(String, Vec<u8>)>)
    ensures
        fields_of(fields).len() == fields.len(),
        forall|i: int| #![trigger fields_of(fields)[i]]
            0 <= i < fields.len() ==> fields_of(fields)[i].0 == fields[i].0@ && fields_of(
                fields,
            )[i].1 == fields[i].1@,
{
}

/// A readable field that no readable field of its name follows is a header with that value.
pub proof fn last_readable_field_is_the_header(fields: Seq<(Seq<char>, Seq<u8>)>, i: int)
    requires
        0 <= i < fields.len(),
        visible(fields[i].1),
        forall|j: int|
            i < j < fields.len() && (#[trigger] fields[j]).0 == fields[i].0 ==> !visible(
                fields[j].1,
            ),
    ensures
        collected(fields).dom().contains(fields[i].0),
        collected(fields)[fields[i].0] == ascii_text(fields[i].1),
    decreases fields.len(),
{
    let last = fields.len() - 1;
    if i < last {
        let before = fields.drop_last();
        assert(before[i] == fields[i]);
        assert forall|j: int|
            i < j < before.len() && (#[trigger] before[j]).0 == before[i].0 implies !visible(
            before[j].1,
        ) by {
            assert(before[j] == fields[j]);
        }
        last_readable_field_is_the_header(before, i);
        assert(fields[last] == fields.last());
    }
}

/// Every header is that of a readable field that no readable field of its name follows.
pub proof fn every_header_is_a_field(fields: Seq<(Seq<char>, Seq<u8>)>, name: Seq<char>) -> (i: int)
    requires
        collected(fields).dom().contains(name),
    ensures
        0 <= i < fields.len(),
        fields[i].0 == name,
        visible(fields[i].1),
        forall|j: int|
            i < j < fields.len() && (#[trigger] fields[j]).0 == name ==> !visible(fields[j].1),
    decreases fields.len(),
{
    let last = fields.len() - 1;
    assert(fields[last] == fields.last());
    if fields[last].0 == name && visible(fields[last].1) {
        last
    } else {
        let before = fields.drop_last();
        let i = every_header_is_a_field(before, name);
        assert(before[i] == fields[i]);
        assert forall|j: int| i < j < fields.len()
            && (#[trigger] fields[j]).0 == name implies !visible(
            fields[j].1,
        ) by {
            if j < last {
                assert(before[j] == fields[j]);
            }
        }
        i
    }
}

} // verus!
