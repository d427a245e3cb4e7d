//! JSON values as the host reads and builds them.

use crate::text::{str_eq, texts};
use serde_json::Value;
use vstd::prelude::*;

verus! {

/// A number: an integer by its value, any other number by its text.
#[derive(Debug)]
pub enum JsonNumber {
    Unsigned(u64),
    Negative(i64),
    Other(String),
}

/// A JSON value. Where an object holds a key more than once, the last
/// member counts.
#[derive(Debug)]
pub enum Json {
    Null,
    Bool(bool),
    Number(JsonNumber),
    Text(String),
    Array(Vec<Json>),
    Object(Vec<Member>),
}

/// One member of an object.
#[derive(Debug)]
pub struct Member {
    pub key: String,
    pub value: Json,
}

/// The value of a number.
pub ghost enum NumberView {
    Integer(int),
    Other(Seq<char>),
}

/// What a JSON value says.
#[verifier::ext_equal]
pub ghost enum Jv {
    Null,
    Bool(bool),
    Number(NumberView),
    Text(Seq<char>),
    Array(Seq<Jv>),
    Object(Map<Seq<char>, Jv>),
}

impl View for JsonNumber {
    type V = NumberView;

    open spec fn view(&self) -> NumberView {
        match *self {
            JsonNumber::Unsigned(n) => NumberView::Integer(n as int),
            JsonNumber::Negative(n) => NumberView::Integer(n as int),
            JsonNumber::Other(s) => NumberView::Other(s@),
        }
    }
}

/// What a value says.
pub open spec fn value_view(v: Json) -> Jv
    decreases v, 0nat,
{
    match v {
        Json::Null => Jv::Null,
        Json::Bool(b) => Jv::Bool(b),
        Json::Number(n) => Jv::Number(n@),
        Json::Text(s) => Jv::Text(s@),
        Json::Array(items) => Jv::Array(item_views(items@, items@.len())),
        Json::Object(members) => Jv::Object(member_map(members@, members@.len())),
    }
}

/// What the first `n` items say.
pub open spec fn item_views(items: Seq<Json>, n: nat) -> Seq<Jv>
    decreases items, n,
{
    if n == 0 || n > items.len() {
        Seq::empty()
    } else {
        item_views(items, (n - 1) as nat).push(value_view(items[n - 1]))
    }
}

/// What the first `n` members say.
pub open spec fn member_map(members: Seq<Member>, n: nat) -> Map<Seq<char>, Jv>
    decreases members, n,
{
    if n == 0 || n > members.len() {
        Map::empty()
    } else {
        member_map(members, (n - 1) as nat).insert(
            members[n - 1].key@,
            value_view(members[n - 1].value),
        )
    }
}

impl View for Json {
    type V = Jv;

    open spec fn view(&self) -> Jv {
        value_view(*self)
    }
}

/// What a list of values says.
pub open spec fn json_views(items: Seq<Json>) -> Seq<Jv> {
    item_views(items, items.len())
}

/// What an object's members say.
pub open spec fn fields(members: Seq<Member>) -> Map<Seq<char>, Jv> {
    member_map(members, members.len())
}

/// What an optional value says.
pub open spec fn opt_view(v: Option<Json>) -> Option<Jv> {
    match v {
        Some(j) => Some(j@),
        None => None,
    }
}

/// What an optional borrowed value says.
pub open spec fn opt_ref_view(v: Option<&Json>) -> Option<Jv> {
    match v {
        Some(j) => Some(j@),
        None => None,
    }
}

pub proof fn lemma_item_views(items: Seq<Json>, n: nat)
    requires
        n <= items.len(),
    ensures
        item_views(items, n).len() == n,
        forall|i: int| 0 <= i < n ==> #[trigger] item_views(items, n)[i] == value_view(items[i]),
    decreases n,
{
    if n > 0 {
        lemma_item_views(items, (n - 1) as nat);
    }
}

pub proof fn lemma_json_views(items: Seq<Json>)
    ensures
        json_views(items).len() == items.len(),
        forall|i: int| 0 <= i < items.len() ==> #[trigger] json_views(items)[i] == items[i]@,
{
    lemma_item_views(items, items.len());
}

pub proof fn lemma_json_views_push(items: Seq<Json>, v: Json)
    ensures
        json_views(items.push(v)) == json_views(items).push(v@),
{
    lemma_json_views(items);
    lemma_json_views(items.push(v));
    assert(json_views(items.push(v)) =~= json_views(items).push(v@));
}

proof fn lemma_member_map_prefix(a: Seq<Member>, b: Seq<Member>, n: nat)
    requires
        n <= a.len(),
        n <= b.len(),
        a.take(n as int) == b.take(n as int),
    ensures
        member_map(a, n) == member_map(b, n),
    decreases n,
{
    if n > 0 {
        assert(a[n - 1] == a.take(n as int)[n - 1]);
        assert(b[n - 1] == b.take(n as int)[n - 1]);
        assert(a.take(n - 1) =~= a.take(n as int).take(n - 1));
        assert(b.take(n - 1) =~= b.take(n as int).take(n - 1));
        lemma_member_map_prefix(a, b, (n - 1) as nat);
    }
}

pub proof fn lemma_fields_push(members: Seq<Member>, m: Member)
    ensures
        fields(members.push(m)) == fields(members).insert(m.key@, m.value@),
{
    let longer = members.push(m);
    assert(longer.take(members.len() as int) =~= members.take(members.len() as int));
    lemma_member_map_prefix(longer, members, members.len());
}

pub proof fn lemma_fields_empty(members: Seq<Member>)
    ensures
        fields(members) == Map::<Seq<char>, Jv>::empty() <==> members.len() == 0,
{
    if members.len() > 0 {
        assert(fields(members).dom().contains(members.last().key@));
    }
}

/// A value with its members in the order in which it is written down.
#[verifier::ext_equal]
pub ghost enum Tree {
    Null,
    Bool(bool),
    Number(NumberView),
    Text(Seq<char>),
    Array(Seq<Tree>),
    Object(Seq<(Seq<char>, Tree)>),
}

/// A value as it is written down.
pub open spec fn tree(v: Json) -> Tree
    decreases v, 0nat,
{
    match v {
        Json::Null => Tree::Null,
        Json::Bool(b) => Tree::Bool(b),
        Json::Number(n) => Tree::Number(n@),
        Json::Text(s) => Tree::Text(s@),
        Json::Array(items) => Tree::Array(item_trees(items@, items@.len())),
        Json::Object(members) => Tree::Object(member_trees(members@, members@.len())),
    }
}

/// The first `n` items as they are written down.
pub open spec fn item_trees(items: Seq<Json>, n: nat) -> Seq<Tree>
    decreases items, n,
{
    if n == 0 || n > items.len() {
        Seq::empty()
    } else {
        item_trees(items, (n - 1) as nat).push(tree(items[n - 1]))
    }
}

/// The first `n` members as they are written down.
pub open spec fn member_trees(members: Seq<Member>, n: nat) -> Seq<(Seq<char>, Tree)>
    decreases members, n,
{
    if n == 0 || n > members.len() {
        Seq::empty()
    } else {
        member_trees(members, (n - 1) as nat).push(
            (members[n - 1].key@, tree(members[n - 1].value)),
        )
    }
}

/// Members as they are written down.
pub open spec fn written(members: Seq<Member>) -> Seq<(Seq<char>, Tree)> {
    member_trees(members, members.len())
}

proof fn lemma_item_trees_prefix(a: Seq<Json>, b: Seq<Json>, n: nat)
    requires
        n <= a.len(),
        n <= b.len(),
        forall|i: int| 0 <= i < n ==> a[i] == b[i],
    ensures
        item_trees(a, n) == item_trees(b, n),
    decreases n,
{
    if n > 0 {
        lemma_item_trees_prefix(a, b, (n - 1) as nat);
    }
}

proof fn lemma_member_trees_prefix(a: Seq<Member>, b: Seq<Member>, n: nat)
    requires
        n <= a.len(),
        n <= b.len(),
        forall|i: int| 0 <= i < n ==> a[i] == b[i],
    ensures
        member_trees(a, n) == member_trees(b, n),
    decreases n,
{
    if n > 0 {
        lemma_member_trees_prefix(a, b, (n - 1) as nat);
    }
}

pub proof fn lemma_item_trees(items: Seq<Json>, n: nat)
    requires
        n <= items.len(),
    ensures
        item_trees(items, n).len() == n,
        forall|i: int| 0 <= i < n ==> #[trigger] item_trees(items, n)[i] == tree(items[i]),
    decreases n,
{
    if n > 0 {
        lemma_item_trees(items, (n - 1) as nat);
    }
}

pub proof fn lemma_member_trees(members: Seq<Member>, n: nat)
    requires
        n <= members.len(),
    ensures
        member_trees(members, n).len() == n,
        forall|i: int|
            0 <= i < n ==> #[trigger] member_trees(members, n)[i] == (
                members[i].key@,
                tree(members[i].value),
            ),
    decreases n,
{
    if n > 0 {
        lemma_member_trees(members, (n - 1) as nat);
    }
}

pub proof fn lemma_written_push(members: Seq<Member>, m: Member)
    ensures
        written(members.push(m)) == written(members).push((m.key@, tree(m.value))),
{
    lemma_member_trees_prefix(members, members.push(m), members.len());
}

/// The value of field `key` of an object.
pub open spec fn field(v: Jv, key: Seq<char>) -> Option<Jv> {
    match v {
        Jv::Object(m) => if m.dom().contains(key) {
            Some(m[key])
        } else {
            None
        },
        _ => None,
    }
}

/// The text of a value that is one.
pub open spec fn as_text(v: Option<Jv>) -> Option<Seq<char>> {
    match v {
        Some(Jv::Text(s)) => Some(s),
        _ => None,
    }
}

/// The text of a field that holds one.
pub open spec fn text_field(v: Jv, key: Seq<char>) -> Option<Seq<char>> {
    as_text(field(v, key))
}

/// The text of a field, or `default` where it holds none.
pub open spec fn text_field_or(v: Jv, key: Seq<char>, default: Seq<char>) -> Seq<char> {
    match text_field(v, key) {
        Some(s) => s,
        None => default,
    }
}

/// The number of a value that is a count.
pub open spec fn as_count(v: Option<Jv>) -> Option<int> {
    match v {
        Some(Jv::Number(NumberView::Integer(n))) => if 0 <= n <= u64::MAX {
            Some(n)
        } else {
            None
        },
        _ => None,
    }
}

/// The value under a key among the first `n` members.
pub open spec fn found(members: Seq<Member>, n: nat, key: Seq<char>) -> Option<Json>
    decreases n,
{
    if n == 0 || n > members.len() {
        None
    } else if members[n - 1].key@ == key {
        Some(members[n - 1].value)
    } else {
        found(members, (n - 1) as nat, key)
    }
}

/// The member under a key.
pub open spec fn member(members: Seq<Member>, key: Seq<char>) -> Option<Json> {
    found(members, members.len(), key)
}

/// The member of an object under a key.
pub open spec fn member_of(v: Json, key: Seq<char>) -> Option<Json> {
    match v {
        Json::Object(members) => member(members@, key),
        _ => None,
    }
}

pub proof fn lemma_member(members: Seq<Member>, n: nat, key: Seq<char>)
    requires
        n <= members.len(),
    ensures
        found(members, n, key) is Some <==> member_map(members, n).dom().contains(key),
        found(members, n, key) matches Some(v) ==> v@ == member_map(members, n)[key],
    decreases n,
{
    if n > 0 {
        lemma_member(members, (n - 1) as nat, key);
    }
}

/// Looks up a key among members.
pub fn lookup<'a>(members: &'a Vec<Member>, key: &str) -> (r: Option<&'a Json>)
    ensures
        opt_ref_view(r) == (if fields(members@).dom().contains(key@) {
            Some(fields(members@)[key@])
        } else {
            None
        }),
        match r {
            Some(v) => member(members@, key@) == Some(*v),
            None => member(members@, key@) is None,
        },
{
    let mut n: usize = members.len();
    while n > 0
        invariant
            n <= members@.len(),
            found(members@, n as nat, key@) == member(members@, key@),
            member_map(members@, n as nat).dom().contains(key@) == fields(members@).dom().contains(
                key@,
            ),
            fields(members@).dom().contains(key@) ==> member_map(members@, n as nat)[key@]
                == fields(members@)[key@],
        decreases n,
    {
        if str_eq(members[n - 1].key.as_str(), key) {
            return Some(&members[n - 1].value);
        }
        n -= 1;
    }
    None
}

/// A number for a count.
pub fn count(n: u64) -> (r: Json)
    ensures
        r@ == Jv::Number(NumberView::Integer(n as int)),
{
    Json::Number(JsonNumber::Unsigned(n))
}

/// A text value.
pub fn text(s: &str) -> (r: Json)
    ensures
        r@ == Jv::Text(s@),
        r matches Json::Text(t) && t@ == s@,
{
    Json::Text(s.to_owned())
}

/// A list of text values.
pub fn text_list(v: &Vec<String>) -> (r: Json)
    ensures
        r@ == Jv::Array(texts(v@).map_values(|s: Seq<char>| Jv::Text(s))),
{
    let mut items: Vec<Json> = Vec::new();
    let mut i: usize = 0;
    let ghost want = texts(v@).map_values(|s: Seq<char>| Jv::Text(s));
    proof {
        assert(json_views(items@) =~= want.take(0));
    }
    while i < v.len()
        invariant
            i <= v@.len(),
            want == texts(v@).map_values(|s: Seq<char>| Jv::Text(s)),
            json_views(items@) == want.take(i as int),
        decreases v@.len() - i,
    {
        let item = text(v[i].as_str());
        let ghost before = items@;
        items.push(item);
        proof {
            lemma_json_views_push(before, item);
            assert(want.take(i + 1) =~= want.take(i as int).push(want[i as int]));
        }
        i += 1;
    }
    proof {
        assert(want.take(v@.len() as int) =~= want);
    }
    Json::Array(items)
}

/// A text value, or null.
pub fn text_or_null(s: &Option<String>) -> (r: Json)
    ensures
        r@ == match *s {
            Some(t) => Jv::Text(t@),
            None => Jv::Null,
        },
{
    match s {
        Some(t) => text(t.as_str()),
        None => Json::Null,
    }
}

/// Adds a member; it replaces one of the same key.
pub fn put(members: &mut Vec<Member>, key: &str, value: Json)
    ensures
        fields(final(members)@) == fields(old(members)@).insert(key@, value@),
        written(final(members)@) == written(old(members)@).push((key@, tree(value))),
{
    let ghost before = members@;
    let m = Member { key: key.to_owned(), value };
    members.push(m);
    proof {
        lemma_fields_push(before, m);
        lemma_written_push(before, m);
    }
}

/// Adds a text member.
pub fn put_text(members: &mut Vec<Member>, key: &str, value: &str)
    ensures
        fields(final(members)@) == fields(old(members)@).insert(key@, Jv::Text(value@)),
        written(final(members)@) == written(old(members)@).push((key@, Tree::Text(value@))),
{
    put(members, key, text(value));
}

/// No members.
pub fn no_members() -> (r: Vec<Member>)
    ensures
        fields(r@) == Map::<Seq<char>, Jv>::empty(),
        written(r@) == Seq::<(Seq<char>, Tree)>::empty(),
        r@.len() == 0,
{
    Vec::new()
}

/// A copy of a list of members.
pub fn clone_members(members: &Vec<Member>) -> (r: Vec<Member>)
    ensures
        fields(r@) == fields(members@),
        written(r@) == written(members@),
        r@.len() == members@.len(),
    decreases members,
{
    let mut out: Vec<Member> = Vec::new();
    let mut i: usize = 0;
    while i < members.len()
        invariant
            i <= members@.len(),
            out@.len() == i,
            fields(out@) == member_map(members@, i as nat),
            written(out@) == member_trees(members@, i as nat),
        decreases members@.len() - i,
    {
        let ghost before = out@;
        proof {
            assert(decreases_to!(members => members@[i as int].value));
        }
        let value = members[i].value.copy();
        let m = Member { key: members[i].key.clone(), value };
        out.push(m);
        proof {
            lemma_fields_push(before, m);
            lemma_written_push(before, m);
        }
        i += 1;
    }
    out
}

/// A copy of a list of values.
pub fn clone_items(items: &Vec<Json>) -> (r: Vec<Json>)
    ensures
        json_views(r@) == json_views(items@),
        item_trees(r@, r@.len()) == item_trees(items@, items@.len()),
        r@.len() == items@.len(),
    decreases items,
{
    let mut out: Vec<Json> = Vec::new();
    let mut i: usize = 0;
    while i < items.len()
        invariant
            i <= items@.len(),
            out@.len() == i,
            json_views(out@) == item_views(items@, i as nat),
            item_trees(out@, out@.len()) == item_trees(items@, i as nat),
        decreases items@.len() - i,
    {
        let ghost before = out@;
        proof {
            assert(decreases_to!(items => items@[i as int]));
        }
        let v = items[i].copy();
        out.push(v);
        proof {
            lemma_json_views_push(before, v);
            lemma_item_trees_prefix(before, out@, before.len());
        }
        i += 1;
    }
    out
}

impl Json {
    /// A copy of the value.
    pub fn copy(&self) -> (r: Json)
        ensures
            r@ == self@,
            tree(r) == tree(*self),
        decreases self,
    {
        match self {
            Json::Null => Json::Null,
            Json::Bool(b) => Json::Bool(*b),
            Json::Number(n) => Json::Number(
                match n {
                    JsonNumber::Unsigned(k) => JsonNumber::Unsigned(*k),
                    JsonNumber::Negative(k) => JsonNumber::Negative(*k),
                    JsonNumber::Other(s) => JsonNumber::Other(s.clone()),
                },
            ),
            Json::Text(s) => Json::Text(s.clone()),
            Json::Array(items) => {
                let r = clone_items(items);
                Json::Array(r)
            },
            Json::Object(members) => {
                let r = clone_members(members);
                Json::Object(r)
            },
        }
    }

    /// The value of a field, where this is an object that has it.
    pub fn get(&self, key: &str) -> (r: Option<&Json>)
        ensures
            opt_ref_view(r) == field(self@, key@),
            match r {
                Some(v) => member_of(*self, key@) == Some(*v),
                None => member_of(*self, key@) is None,
            },
    {
        match self {
            Json::Object(members) => lookup(members, key),
            _ => None,
        }
    }

    /// The text, where this is one.
    pub fn as_str(&self) -> (r: Option<&str>)
        ensures
            crate::text::opt_str(r) == as_text(Some(self@)),
    {
        match self {
            Json::Text(s) => Some(s.as_str()),
            _ => None,
        }
    }

    /// The text of a field, where it holds one.
    pub fn get_str(&self, key: &str) -> (r: Option<&str>)
        ensures
            crate::text::opt_str(r) == text_field(self@, key@),
    {
        match self.get(key) {
            Some(v) => v.as_str(),
            None => None,
        }
    }

    /// The text of a field, or `default`.
    pub fn str_or<'a>(&'a self, key: &str, default: &'a str) -> (r: &'a str)
        ensures
            r@ == text_field_or(self@, key@, default@),
    {
        match self.get_str(key) {
            Some(s) => s,
            None => default,
        }
    }

    /// The number, where this is a count.
    pub fn as_u64(&self) -> (r: Option<u64>)
        ensures
            match r {
                Some(n) => as_count(Some(self@)) == Some(n as int),
                None => as_count(Some(self@)) is None,
            },
    {
        match self {
            Json::Number(JsonNumber::Unsigned(n)) => Some(*n),
            Json::Number(JsonNumber::Negative(n)) => if *n >= 0 {
                Some(*n as u64)
            } else {
                None
            },
            _ => None,
        }
    }

    /// The items, where this is an array.
    pub fn as_array(&self) -> (r: Option<&Vec<Json>>)
        ensures
            match r {
                Some(items) => self@ == Jv::Array(json_views(items@)),
                None => !(self@ is Array),
            },
    {
        match self {
            Json::Array(items) => Some(items),
            _ => None,
        }
    }

    /// The members, where this is an object.
    pub fn as_object(&self) -> (r: Option<&Vec<Member>>)
        ensures
            match r {
                Some(members) => self@ == Jv::Object(fields(members@)),
                None => !(self@ is Object),
            },
    {
        match self {
            Json::Object(members) => Some(members),
            _ => None,
        }
    }
}

fn same_number(a: &JsonNumber, b: &JsonNumber) -> (r: bool)
    ensures
        r == (a@ == b@),
{
    match (a, b) {
        (JsonNumber::Unsigned(x), JsonNumber::Unsigned(y)) => *x == *y,
        (JsonNumber::Negative(x), JsonNumber::Negative(y)) => *x == *y,
        (JsonNumber::Unsigned(x), JsonNumber::Negative(y)) => *y >= 0 && *x == *y as u64,
        (JsonNumber::Negative(x), JsonNumber::Unsigned(y)) => *x >= 0 && *x as u64 == *y,
        (JsonNumber::Other(x), JsonNumber::Other(y)) => str_eq(x.as_str(), y.as_str()),
        _ => false,
    }
}

fn place_of(members: &Vec<Member>, key: &str) -> (r: Option<usize>)
    ensures
        match r {
            Some(i) => {
                &&& i < members@.len()
                &&& fields(members@).dom().contains(key@)
                &&& fields(members@)[key@] == members@[i as int].value@
            },
            None => !fields(members@).dom().contains(key@),
        },
{
    let mut n: usize = members.len();
    while n > 0
        invariant
            n <= members@.len(),
            member_map(members@, n as nat).dom().contains(key@) == fields(members@).dom().contains(
                key@,
            ),
            fields(members@).dom().contains(key@) ==> member_map(members@, n as nat)[key@]
                == fields(members@)[key@],
        decreases n,
    {
        if str_eq(members[n - 1].key.as_str(), key) {
            return Some(n - 1);
        }
        n -= 1;
    }
    None
}

proof fn lemma_key_has_place(members: Seq<Member>, n: nat, key: Seq<char>)
    requires
        n <= members.len(),
    ensures
        member_map(members, n).dom().contains(key) <==> exists|i: int|
            0 <= i < n && (#[trigger] members[i]).key@ == key,
    decreases n,
{
    if n > 0 {
        lemma_key_has_place(members, (n - 1) as nat, key);
        if members[n - 1].key@ == key {
        } else if member_map(members, n).dom().contains(key) {
            let i = choose|i: int| 0 <= i < n - 1 && (#[trigger] members[i]).key@ == key;
            assert(0 <= i < n && members[i].key@ == key);
        }
    }
}

fn same_members(a: &Vec<Member>, b: &Vec<Member>) -> (r: bool)
    ensures
        r == (fields(a@) == fields(b@)),
    decreases a,
{
    let ghost left = fields(a@);
    let ghost right = fields(b@);
    let mut i: usize = 0;
    while i < a.len()
        invariant
            i <= a@.len(),
            left == fields(a@),
            right == fields(b@),
            forall|k: int|
                0 <= k < i ==> right.dom().contains((#[trigger] a@[k]).key@) && left[a@[k].key@]
                    == right[a@[k].key@],
        decreases a@.len() - i,
    {
        proof {
            lemma_key_has_place(a@, a@.len(), a@[i as int].key@);
            assert(left.dom().contains(a@[i as int].key@));
        }
        match (place_of(a, a[i].key.as_str()), place_of(b, a[i].key.as_str())) {
            (Some(x), Some(y)) => {
                proof {
                    assert(decreases_to!(a => a@[x as int].value));
                }
                if !same_value(&a[x].value, &b[y].value) {
                    return false;
                }
            },
            _ => return false,
        }
        i += 1;
    }
    let mut j: usize = 0;
    while j < b.len()
        invariant
            j <= b@.len(),
            left == fields(a@),
            right == fields(b@),
            forall|k: int| 0 <= k < j ==> left.dom().contains((#[trigger] b@[k]).key@),
        decreases b@.len() - j,
    {
        if place_of(a, b[j].key.as_str()).is_none() {
            proof {
                lemma_key_has_place(b@, b@.len(), b@[j as int].key@);
                assert(right.dom().contains(b@[j as int].key@));
            }
            return false;
        }
        j += 1;
    }
    proof {
        assert forall|key: Seq<char>| #[trigger] left.dom().contains(key) implies right.dom().contains(
            key,
        ) && left[key] == right[key] by {
            lemma_key_has_place(a@, a@.len(), key);
        }
        assert forall|key: Seq<char>| #[trigger] right.dom().contains(key) implies left.dom().contains(
            key,
        ) by {
            lemma_key_has_place(b@, b@.len(), key);
        }
        assert(left.dom() =~= right.dom());
        assert(left =~= right);
    }
    true
}

fn same_items(a: &Vec<Json>, b: &Vec<Json>) -> (r: bool)
    ensures
        r == (json_views(a@) == json_views(b@)),
    decreases a,
{
    proof {
        lemma_json_views(a@);
        lemma_json_views(b@);
    }
    if a.len() != b.len() {
        return false;
    }
    let mut i: usize = 0;
    while i < a.len()
        invariant
            i <= a@.len(),
            a@.len() == b@.len(),
            json_views(a@).len() == a@.len(),
            json_views(b@).len() == b@.len(),
            forall|k: int| 0 <= k < a@.len() ==> #[trigger] json_views(a@)[k] == a@[k]@,
            forall|k: int| 0 <= k < b@.len() ==> #[trigger] json_views(b@)[k] == b@[k]@,
            forall|k: int| 0 <= k < i ==> #[trigger] json_views(a@)[k] == json_views(b@)[k],
        decreases a@.len() - i,
    {
        proof {
            assert(decreases_to!(a => a@[i as int]));
            assert(json_views(a@)[i as int] == a@[i as int]@);
            assert(json_views(b@)[i as int] == b@[i as int]@);
        }
        if !same_value(&a[i], &b[i]) {
            return false;
        }
        i += 1;
    }
    proof {
        assert(json_views(a@) =~= json_views(b@));
    }
    true
}

/// Whether two values say the same; the order of members does not count.
pub fn same_value(a: &Json, b: &Json) -> (r: bool)
    ensures
        r == (a@ == b@),
    decreases a,
{
    match (a, b) {
        (Json::Null, Json::Null) => true,
        (Json::Bool(x), Json::Bool(y)) => *x == *y,
        (Json::Number(x), Json::Number(y)) => same_number(x, y),
        (Json::Text(x), Json::Text(y)) => str_eq(x.as_str(), y.as_str()),
        (Json::Array(x), Json::Array(y)) => same_items(x, y),
        (Json::Object(x), Json::Object(y)) => same_members(x, y),
        _ => false,
    }
}

/// A copy of an optional value.
pub fn copy_opt(v: Option<&Json>) -> (r: Option<Json>)
    ensures
        opt_view(r) == opt_ref_view(v),
{
    match v {
        Some(j) => Some(j.copy()),
        None => None,
    }
}

/// A copy of an optional value, or null.
pub fn copy_or_null(v: Option<&Json>) -> (r: Json)
    ensures
        r@ == match v {
            Some(j) => j@,
            None => Jv::Null,
        },
        tree(r) == match v {
            Some(j) => tree(*j),
            None => Tree::Null,
        },
{
    match v {
        Some(j) => j.copy(),
        None => Json::Null,
    }
}

/// A value as `serde_json` and `serde_yaml` hand it out.
#[verifier::external_type_specification]
#[verifier::external_body]
pub struct ExValue(Value);

/// Turns a `serde_json::Value` into a value of this library, variant by
/// variant. Nothing is claimed of it here: the readers below say what they
/// hand out.
#[verifier::external_body]
pub(crate) fn json_of(value: Value) -> Json {
    match value {
        Value::Null => Json::Null,
        Value::Bool(b) => Json::Bool(b),
        Value::Number(n) => match (n.as_u64(), n.as_i64()) {
            (Some(u), _) => Json::Number(JsonNumber::Unsigned(u)),
            (None, Some(i)) => Json::Number(JsonNumber::Negative(i)),
            (None, None) => Json::Number(JsonNumber::Other(n.to_string())),
        },
        Value::String(s) => Json::Text(s),
        Value::Array(items) => Json::Array(items.into_iter().map(json_of).collect()),
        Value::Object(map) => Json::Object(
            map.into_iter().map(|(key, v)| Member { key, value: json_of(v) }).collect(),
        ),
    }
}

/// Turns a value of this library into a `serde_json::Value`, variant by
/// variant; a number that is kept as a text is read again, and is null where
/// the text is no number. Nothing is claimed of it here: the writers below say
/// what they make of it.
#[verifier::external_body]
fn value_of(v: &Json) -> Value {
    match v {
        Json::Null => Value::Null,
        Json::Bool(b) => Value::Bool(*b),
        Json::Number(JsonNumber::Unsigned(n)) => Value::from(*n),
        Json::Number(JsonNumber::Negative(n)) => Value::from(*n),
        Json::Number(JsonNumber::Other(s)) => Value::from(s.parse::<serde_json::Number>().ok()),
        Json::Text(s) => Value::String(s.clone()),
        Json::Array(items) => Value::Array(items.iter().map(value_of).collect()),
        Json::Object(members) => Value::Object(
            members.iter().map(|m| (m.key.clone(), value_of(&m.value))).collect(),
        ),
    }
}

/// Whether a name is one that `serde_json` may keep for itself, so that an
/// object with such a member is read as something else.
pub open spec fn is_reserved(key: Seq<char>) -> bool {
    key == "$serde_json::private::Number"@ || key == "$serde_json::private::RawValue"@
}

/// Whether all numbers of a value are whole, no member has a reserved name, and
/// at most `depth` lists and objects stand in one another.
pub open spec fn stays_within(t: Tree, depth: nat) -> bool
    decreases depth,
{
    match t {
        Tree::Number(n) => n is Integer,
        Tree::Array(items) => depth > 0 && forall|i: int|
            0 <= i < items.len() ==> stays_within(#[trigger] items[i], (depth - 1) as nat),
        Tree::Object(members) => depth > 0 && forall|i: int|
            0 <= i < members.len() ==> !is_reserved((#[trigger] members[i]).0) && stays_within(
                members[i].1,
                (depth - 1) as nat,
            ),
        _ => true,
    }
}

/// Whether a value is read again from the text that is written for it. What is
/// nested deeper than this is refused by the reader.
pub open spec fn reads_back(t: Tree) -> bool {
    stays_within(t, 127)
}

/// Whether a value is what is read of a JSON text.
pub open spec fn is_read_as(s: Seq<char>, v: Jv) -> bool {
    json_read(s) == Ok::<Jv, Seq<char>>(v)
}

/// Whether a text holds no control character, and so no line ending.
pub open spec fn is_one_line(s: Seq<char>) -> bool {
    forall|i: int| 0 <= i < s.len() ==> '\u{20}' <= #[trigger] s[i]
}

/// Whether a text stands between braces.
pub open spec fn is_braced(s: Seq<char>) -> bool {
    s.len() >= 2 && s[0] == '{' && s.last() == '}'
}

/// The text that `serde_json::to_string` writes for a value.
pub uninterp spec fn compact_text(v: Tree) -> Seq<char>;

/// `serde_json::to_string` of a `serde_json::Value`: the text without white
/// space between its tokens. It depends on the value and the order of its
/// members alone, and writing a value to a text does not fail. Control
/// characters are escaped, an object stands between braces, and
/// `serde_json::from_str` reads the value again from the text; nothing is
/// claimed of reading back fractions and numbers that are kept as texts.
#[verifier::external_body]
pub(crate) fn compact_json(v: &Json) -> (r: String)
    ensures
        r@ == compact_text(tree(*v)),
        is_one_line(r@),
        v is Object ==> is_braced(r@),
        reads_back(tree(*v)) ==> is_read_as(r@, v@),
{
    serde_json::to_string(&value_of(v)).unwrap_or_default()
}

/// The text that `serde_json::to_string_pretty` writes for a value.
pub uninterp spec fn pretty_text(v: Tree) -> Seq<char>;

/// `serde_json::to_string_pretty` of a `serde_json::Value`: the indented text.
/// It depends on the value and the order of its members alone, and writing a
/// value to a text does not fail. `serde_json::from_str` reads the value again
/// from the text; nothing is claimed of reading back fractions and numbers that
/// are kept as texts.
#[verifier::external_body]
pub(crate) fn pretty_json(v: &Json) -> (r: String)
    ensures
        r@ == pretty_text(tree(*v)),
        reads_back(tree(*v)) ==> is_read_as(r@, v@),
{
    serde_json::to_string_pretty(&value_of(v)).unwrap_or_default()
}

/// The indented text of a value, where there is one.
pub open spec fn opt_pretty(v: Option<Json>) -> Option<Seq<char>> {
    match v {
        Some(j) => Some(pretty_text(tree(j))),
        None => None,
    }
}

/// The indented text of a borrowed value, where there is one.
pub open spec fn opt_ref_pretty(v: Option<&Json>) -> Option<Seq<char>> {
    match v {
        Some(j) => Some(pretty_text(tree(*j))),
        None => None,
    }
}

/// The indented text of a value, where there is one.
pub(crate) fn pretty_opt(v: Option<&Json>) -> (r: Option<String>)
    ensures
        crate::text::opt_text(r) == opt_ref_pretty(v),
{
    match v {
        Some(j) => Some(pretty_json(j)),
        None => None,
    }
}

/// The indented text of the member under a key.
pub(crate) fn pretty_member(members: &Vec<Member>, key: &str) -> (r: Option<String>)
    ensures
        crate::text::opt_text(r) == opt_pretty(member(members@, key@)),
{
    pretty_opt(lookup(members, key))
}

/// A value that is written down as a text: a text stands for itself.
pub open spec fn shown_text(t: Tree) -> Seq<char> {
    match t {
        Tree::Text(s) => s,
        _ => compact_text(t),
    }
}

/// A value as a text: a text stands for itself.
pub open spec fn plain_text(v: Json) -> Seq<char> {
    shown_text(tree(v))
}

/// A value as a text.
pub(crate) fn plain(v: &Json) -> (r: String)
    ensures
        r@ == plain_text(*v),
{
    match v {
        Json::Text(s) => s.clone(),
        _ => compact_json(v),
    }
}

/// What `serde_json::from_str` makes of a text: a value, or what is wrong.
pub uninterp spec fn json_read(s: Seq<char>) -> Result<Jv, Seq<char>>;

/// What reading a text gave.
pub open spec fn read_result(r: Result<Json, String>) -> Result<Jv, Seq<char>> {
    match r {
        Ok(v) => Ok(v@),
        Err(e) => Err(e@),
    }
}

/// `serde_json::from_str::<serde_json::Value>`: the value that a JSON text
/// stands for, or the message of the error. Both depend on the text alone.
#[verifier::external_body]
pub(crate) fn parse_json(s: &str) -> (r: Result<Json, String>)
    ensures
        read_result(r) == json_read(s@),
{
    serde_json::from_str::<Value>(s).map(json_of).map_err(|e| e.to_string())
}

/// What `serde_yaml::from_str` makes of a text: a value with its members in
/// order, or what is wrong.
pub uninterp spec fn yaml_tree(s: Seq<char>) -> Result<Tree, Seq<char>>;

/// What reading a text gave, with the members of the value in order.
pub open spec fn tree_result(r: Result<Json, String>) -> Result<Tree, Seq<char>> {
    match r {
        Ok(v) => Ok(tree(v)),
        Err(e) => Err(e@),
    }
}

/// `serde_yaml::from_str::<serde_json::Value>`: the value that a YAML text
/// stands for, with its members in the order in which they are handed out, or
/// the message of the error. Both depend on the text alone.
#[verifier::external_body]
fn yaml_value(s: &str) -> (r: Result<Json, String>)
    ensures
        tree_result(r) == yaml_tree(s@),
{
    serde_yaml::from_str::<Value>(s).map(json_of).map_err(|e| e.to_string())
}

/// What a value says that is written down.
pub open spec fn tree_value(t: Tree) -> Jv
    decreases t, 0nat,
{
    match t {
        Tree::Null => Jv::Null,
        Tree::Bool(b) => Jv::Bool(b),
        Tree::Number(n) => Jv::Number(n),
        Tree::Text(s) => Jv::Text(s),
        Tree::Array(items) => Jv::Array(item_values(items, items.len())),
        Tree::Object(members) => Jv::Object(member_values(members, members.len())),
    }
}

/// What the first `n` items say that are written down.
pub open spec fn item_values(items: Seq<Tree>, n: nat) -> Seq<Jv>
    decreases items, n,
{
    if n == 0 || n > items.len() {
        Seq::empty()
    } else {
        item_values(items, (n - 1) as nat).push(tree_value(items[n - 1]))
    }
}

/// What the first `n` members say that are written down.
pub open spec fn member_values(members: Seq<(Seq<char>, Tree)>, n: nat) -> Map<Seq<char>, Jv>
    decreases members, n,
{
    if n == 0 || n > members.len() {
        Map::empty()
    } else {
        member_values(members, (n - 1) as nat).insert(
            members[n - 1].0,
            tree_value(members[n - 1].1),
        )
    }
}

/// A value says the same as what is written down of it.
pub proof fn lemma_tree_value(v: Json)
    ensures
        tree_value(tree(v)) == v@,
    decreases v, 0nat,
{
    match v {
        Json::Array(items) => {
            lemma_item_trees(items@, items@.len());
            lemma_item_values(items@, items@.len());
        },
        Json::Object(members) => {
            lemma_member_trees(members@, members@.len());
            lemma_member_values(members@, members@.len());
        },
        _ => {},
    }
}

proof fn lemma_item_values(items: Seq<Json>, n: nat)
    requires
        n <= items.len(),
    ensures
        item_values(item_trees(items, items.len()), n) == item_views(items, n),
    decreases items, n,
{
    if n > 0 {
        lemma_item_trees(items, items.len());
        lemma_item_values(items, (n - 1) as nat);
        lemma_tree_value(items[n - 1]);
    }
}

proof fn lemma_member_values(members: Seq<Member>, n: nat)
    requires
        n <= members.len(),
    ensures
        member_values(written(members), n) == member_map(members, n),
    decreases members, n,
{
    if n > 0 {
        lemma_member_trees(members, members.len());
        lemma_member_values(members, (n - 1) as nat);
        lemma_tree_value(members[n - 1].value);
    }
}

/// What a YAML text says, or what is wrong with it.
pub open spec fn yaml_read(s: Seq<char>) -> Result<Jv, Seq<char>> {
    match yaml_tree(s) {
        Ok(t) => Ok(tree_value(t)),
        Err(e) => Err(e),
    }
}

/// Reads a YAML text.
pub(crate) fn parse_yaml(s: &str) -> (r: Result<Json, String>)
    ensures
        tree_result(r) == yaml_tree(s@),
        read_result(r) == yaml_read(s@),
{
    match yaml_value(s) {
        Ok(v) => {
            proof {
                lemma_tree_value(v);
            }
            Ok(v)
        },
        Err(e) => Err(e),
    }
}

/// A field of an object is what was last put under its key; what is no object has no
/// fields.
pub proof fn law_field_is_what_was_put(members: Seq<Member>, m: Member, key: Seq<char>, v: Jv)
    ensures
        field(Jv::Object(fields(members.push(m))), m.key@) == Some(m.value@),
        key != m.key@ ==> field(Jv::Object(fields(members.push(m))), key) == field(
            Jv::Object(fields(members)),
            key,
        ),
        field(Jv::Object(fields(Seq::empty())), key) is None,
        !(v is Object) ==> field(v, key) is None,
        m.value@ matches Jv::Text(s) ==> text_field(
            Jv::Object(fields(members.push(m))),
            m.key@,
        ) == Some(s) && text_field_or(Jv::Object(fields(members.push(m))), m.key@, key) == s,
        !(m.value@ is Text) ==> text_field(Jv::Object(fields(members.push(m))), m.key@) is None
            && text_field_or(Jv::Object(fields(members.push(m))), m.key@, key) == key,
{
    lemma_fields_push(members, m);
}

/// A count is a whole number that is not negative and not too large.
pub proof fn law_counts_are_whole_numbers(n: int, v: Jv)
    ensures
        0 <= n <= 0xffff_ffff_ffff_ffff ==> as_count(Some(Jv::Number(NumberView::Integer(n))))
            == Some(n),
        n < 0 || n > 0xffff_ffff_ffff_ffff ==> as_count(
            Some(Jv::Number(NumberView::Integer(n))),
        ) is None,
        !(v is Number) ==> as_count(Some(v)) is None,
        as_count(None) is None,
{
}

/// A value stands for what it holds.
pub proof fn law_value_stands_for_what_it_holds(v: Json)
    ensures
        v is Null <==> v@ is Null,
        v matches Json::Bool(b) ==> v@ == Jv::Bool(b),
        v matches Json::Text(s) ==> v@ == Jv::Text(s@),
        v matches Json::Number(JsonNumber::Unsigned(n)) ==> v@ == Jv::Number(
            NumberView::Integer(n as int),
        ),
        v matches Json::Number(JsonNumber::Negative(n)) ==> v@ == Jv::Number(
            NumberView::Integer(n as int),
        ),
        v matches Json::Array(items) ==> (v@ matches Jv::Array(views) && views.len()
            == items@.len() && forall|i: int|
            0 <= i < items@.len() ==> (#[trigger] views[i]) == items@[i]@),
        v matches Json::Object(members) ==> v@ == Jv::Object(fields(members@)),
        tree_value(tree(v)) == v@,
{
    if let Json::Array(items) = v {
        lemma_json_views(items@);
    }
    lemma_tree_value(v);
}

} // verus!
