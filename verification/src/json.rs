//! JSON documents.
//!
//! `serde_json` reads and writes the text. In between, a document is a `Json`
//! value of this module, and contracts speak of its `Tree`: what the document
//! says, whatever order an object's members were written in.
use crate::text;
use serde_json::{Number, Value};
use vstd::prelude::*;

verus! {

broadcast use vstd::string::group_string_axioms;

// ---------------------------------------------------------------------------
// What a document says

/// A JSON number as `serde_json` keeps it: an integer from zero up, an integer
/// below zero, or a finite double, here by its bit pattern.
pub enum NumberView {
    PosInt(u64),
    NegInt(i64),
    Float(u64),
}

/// What a JSON document says.
pub enum Tree {
    Null,
    Bool(bool),
    Number(NumberView),
    Text(Seq<char>),
    Array(Seq<Tree>),
    Object(Map<Seq<char>, Tree>),
}

/// The two bit patterns of a double that is zero.
pub open spec fn is_zero_bits(bits: u64) -> bool {
    bits == 0 || bits == 0x8000_0000_0000_0000
}

/// When two JSON numbers are equal: never across the three kinds, and the two
/// zeros of a double are one number.
pub open spec fn equal_numbers(a: NumberView, b: NumberView) -> bool {
    match (a, b) {
        (NumberView::PosInt(x), NumberView::PosInt(y)) => x == y,
        (NumberView::NegInt(x), NumberView::NegInt(y)) => x == y,
        (NumberView::Float(x), NumberView::Float(y)) => x == y || (is_zero_bits(x) && is_zero_bits(
            y,
        )),
        _ => false,
    }
}

/// When two documents are equal: objects member by member in any order, arrays
/// item by item in order.
pub open spec fn equal_trees(a: Tree, b: Tree) -> bool
    decreases a,
{
    match (a, b) {
        (Tree::Object(m), Tree::Object(n)) => {
            &&& m.dom() == n.dom()
            &&& forall|k: Seq<char>| #[trigger] m.contains_key(k) ==> equal_trees(m[k], n[k])
        },
        (Tree::Array(s), Tree::Array(t)) => {
            &&& s.len() == t.len()
            &&& forall|i: int| 0 <= i < s.len() ==> equal_trees(#[trigger] s[i], t[i])
        },
        (Tree::Number(x), Tree::Number(y)) => equal_numbers(x, y),
        _ => a == b,
    }
}

/// When a document differs from another in nothing but what its doubles are.
pub open spec fn alike(a: Tree, b: Tree) -> bool
    decreases b,
{
    match (a, b) {
        (Tree::Object(m), Tree::Object(n)) => {
            &&& m.dom() == n.dom()
            &&& forall|k: Seq<char>| #[trigger] n.contains_key(k) ==> alike(m[k], n[k])
        },
        (Tree::Array(s), Tree::Array(t)) => {
            &&& s.len() == t.len()
            &&& forall|i: int| 0 <= i < t.len() ==> alike(s[i], #[trigger] t[i])
        },
        (Tree::Number(NumberView::Float(_)), Tree::Number(NumberView::Float(_))) => true,
        _ => a == b,
    }
}

/// The bit pattern of the double that is one. Those of the doubles from zero
/// up to one are no larger.
pub const ONE_BITS: u64 = 0x3ff0_0000_0000_0000;

/// The key that stands in an object for a document to be read out of its text.
pub open spec fn reserved_key() -> Seq<char> {
    "$serde_json::private::RawValue"@
}

/// Whether a document can be read back from its text: it is nested no more than
/// a number of levels deep, it holds no doubles, or none but those from zero up
/// to one, and the reserved key does not occur in it.
pub open spec fn legible(t: Tree, depth: nat, doubles: bool) -> bool
    decreases depth, 0nat,
{
    match t {
        Tree::Number(n) => n matches NumberView::Float(bits) ==> doubles && bits <= ONE_BITS,
        Tree::Array(s) => depth > 0 && legible_items(s, (depth - 1) as nat, doubles),
        Tree::Object(m) => depth > 0 && legible_values(m, (depth - 1) as nat, doubles),
        _ => true,
    }
}

/// Whether all items of an array are legible.
pub open spec fn legible_items(s: Seq<Tree>, depth: nat, doubles: bool) -> bool
    decreases depth, 1nat,
{
    forall|i: int| 0 <= i < s.len() ==> legible(#[trigger] s[i], depth, doubles)
}

/// Whether all members of an object are legible.
pub open spec fn legible_values(m: Map<Seq<char>, Tree>, depth: nat, doubles: bool) -> bool
    decreases depth, 1nat,
{
    &&& !m.contains_key(reserved_key())
    &&& forall|k: Seq<char>| #[trigger] m.contains_key(k) ==> legible(m[k], depth, doubles)
}

/// The members that a row of key and value pairs makes; a later pair replaces
/// an earlier one with the same key.
pub open spec fn members(pairs: Seq<(Seq<char>, Tree)>) -> Map<Seq<char>, Tree>
    decreases pairs.len(),
{
    if pairs.len() == 0 {
        Map::empty()
    } else {
        members(pairs.drop_last()).insert(pairs.last().0, pairs.last().1)
    }
}

pub open spec fn distinct_keys(pairs: Seq<(Seq<char>, Tree)>) -> bool {
    forall|i: int, j: int|
        0 <= i < j < pairs.len() ==> (#[trigger] pairs[i]).0 != (#[trigger] pairs[j]).0
}

pub open spec fn has_key(pairs: Seq<(Seq<char>, Tree)>, k: Seq<char>) -> bool {
    exists|i: int| 0 <= i < pairs.len() && (#[trigger] pairs[i]).0 == k
}

/// What `members` makes of pairs with distinct keys.
pub proof fn members_facts(pairs: Seq<(Seq<char>, Tree)>)
    requires
        distinct_keys(pairs),
    ensures
        members(pairs).dom().finite(),
        members(pairs).dom().len() == pairs.len(),
        forall|k: Seq<char>| #[trigger] members(pairs).contains_key(k) <==> has_key(pairs, k),
        forall|i: int|
            0 <= i < pairs.len() ==> members(pairs)[(#[trigger] pairs[i]).0] == pairs[i].1,
    decreases pairs.len(),
{
    if pairs.len() > 0 {
        let before = pairs.drop_last();
        let last = pairs.last();
        members_facts(before);
        assert forall|k: Seq<char>| #[trigger] members(pairs).contains_key(k) <==> has_key(
            pairs,
            k,
        ) by {
            if has_key(before, k) {
                let i = choose|i: int| 0 <= i < before.len() && (#[trigger] before[i]).0 == k;
                assert(pairs[i].0 == k);
            }
            if has_key(pairs, k) {
                let i = choose|i: int| 0 <= i < pairs.len() && (#[trigger] pairs[i]).0 == k;
                if i < before.len() {
                    assert(before[i].0 == k);
                }
            }
            assert(pairs[pairs.len() - 1].0 == last.0);
        }
        assert forall|i: int| 0 <= i < pairs.len() implies members(pairs)[(#[trigger] pairs[i]).0]
            == pairs[i].1 by {
            if i < before.len() {
                assert(before[i] == pairs[i]);
                assert(pairs[pairs.len() - 1].0 != pairs[i].0);
            }
        }
        assert(!has_key(before, last.0)) by {
            if has_key(before, last.0) {
                let i = choose|i: int| 0 <= i < before.len() && (#[trigger] before[i]).0 == last.0;
                assert(pairs[i].0 == pairs[pairs.len() - 1].0);
            }
        }
        assert(!members(before).contains_key(last.0));
    }
}

/// A row of pairs with distinct keys, without one of its pairs.
proof fn members_without_one(pairs: Seq<(Seq<char>, Tree)>, i: int)
    requires
        0 <= i < pairs.len(),
        distinct_keys(pairs),
    ensures
        distinct_keys(pairs.remove(i)),
        !has_key(pairs.remove(i), pairs[i].0),
        members(pairs.remove(i)) == members(pairs).remove(pairs[i].0),
{
    let rest = pairs.remove(i);
    let key = pairs[i].0;
    assert forall|x: int, y: int| 0 <= x < y < rest.len() implies (#[trigger] rest[x]).0 != (
    #[trigger] rest[y]).0 by {
        let px = if x < i { x } else { x + 1 };
        let py = if y < i { y } else { y + 1 };
        assert(rest[x] == pairs[px] && rest[y] == pairs[py]);
    }
    members_facts(pairs);
    members_facts(rest);
    assert forall|k: Seq<char>| has_key(rest, k) <==> (has_key(pairs, k) && k != key) by {
        if has_key(rest, k) {
            let x = choose|x: int| 0 <= x < rest.len() && (#[trigger] rest[x]).0 == k;
            let px = if x < i { x } else { x + 1 };
            assert(pairs[px].0 == k);
            assert(pairs[i].0 != pairs[px].0);
        }
        if has_key(pairs, k) && k != key {
            let x = choose|x: int| 0 <= x < pairs.len() && (#[trigger] pairs[x]).0 == k;
            let rx = if x < i { x } else { x - 1 };
            assert(rest[rx].0 == k);
        }
    }
    assert forall|k: Seq<char>| #[trigger] members(rest).contains_key(k) implies members(rest)[k]
        == members(pairs).remove(key)[k] by {
        let x = choose|x: int| 0 <= x < rest.len() && (#[trigger] rest[x]).0 == k;
        let px = if x < i { x } else { x + 1 };
        assert(rest[x] == pairs[px]);
        assert(members(pairs)[pairs[px].0] == pairs[px].1);
        assert(members(rest)[rest[x].0] == rest[x].1);
    }
    assert(members(rest) =~= members(pairs).remove(key));
}

// ---------------------------------------------------------------------------
// serde_json

/// `serde_json::Value`, carried between the calls of this module.
#[verifier::external_type_specification]
#[verifier::external_body]
pub struct ExValue(Value);

/// `serde_json::Number`, carried inside documents.
#[verifier::external_type_specification]
#[verifier::external_body]
pub struct ExNumber(Number);

/// `serde_json::Error`.
#[verifier::external_type_specification]
#[verifier::external_body]
pub struct ExError(serde_json::Error);

/// What a `serde_json::Number` holds.
pub uninterp spec fn number_view(n: Number) -> NumberView;

/// What a `serde_json::Value` holds.
pub uninterp spec fn value_tree(v: Value) -> Tree;

/// The document that `serde_json::from_str` reads out of a text, where it
/// reads one.
pub uninterp spec fn parsed(text: Seq<char>) -> Option<Tree>;

/// The text that `serde_json::to_string` writes for a document.
pub uninterp spec fn compact(tree: Tree) -> Seq<char>;

/// The text that `serde_json::to_string_pretty` writes for a document.
pub uninterp spec fn pretty(tree: Tree) -> Seq<char>;

/// One level of a document: the variants of `serde_json::Value`, an object's
/// members as a row of pairs.
pub enum Node {
    Null,
    Bool(bool),
    Number(Number),
    Text(String),
    Array(Vec<Value>),
    Object(Vec<(String, Value)>),
}

pub open spec fn value_pairs(entries: Seq<(String, Value)>) -> Seq<(Seq<char>, Tree)> {
    entries.map_values(|e: (String, Value)| (e.0@, value_tree(e.1)))
}

impl Node {
    pub open spec fn tree(self) -> Tree {
        match self {
            Node::Null => Tree::Null,
            Node::Bool(b) => Tree::Bool(b),
            Node::Number(n) => Tree::Number(number_view(n)),
            Node::Text(s) => Tree::Text(s@),
            Node::Array(items) => Tree::Array(items@.map_values(|v: Value| value_tree(v))),
            Node::Object(entries) => Tree::Object(members(value_pairs(entries@))),
        }
    }
}

/// The variants of `serde_json::Value`, told apart: the node says what the
/// value says, and an object's keys are distinct.
#[verifier::external_body]
fn take_apart(v: Value) -> (node: Node)
    ensures
        node.tree() == value_tree(v),
        node matches Node::Object(entries) ==> distinct_keys(value_pairs(entries@)),
{
    match v {
        Value::Null => Node::Null,
        Value::Bool(b) => Node::Bool(b),
        Value::Number(n) => Node::Number(n),
        Value::String(s) => Node::Text(s),
        Value::Array(items) => Node::Array(items),
        Value::Object(entries) => Node::Object(entries.into_iter().collect()),
    }
}

/// The variants of `serde_json::Value`, built: the value says what the node
/// says. An object's keys are to be distinct.
#[verifier::external_body]
fn put_together(node: Node) -> (v: Value)
    requires
        node matches Node::Object(entries) ==> distinct_keys(value_pairs(entries@)),
    ensures
        value_tree(v) == node.tree(),
{
    match node {
        Node::Null => Value::Null,
        Node::Bool(b) => Value::Bool(b),
        Node::Number(n) => Value::Number(n),
        Node::Text(s) => Value::String(s),
        Node::Array(items) => Value::Array(items),
        Node::Object(entries) => Value::Object(entries.into_iter().collect()),
    }
}

/// `serde_json::from_str`: whether there is a document, and which, follows
/// from the text alone.
#[verifier::external_body]
fn parse_value(text: &str) -> (r: Result<Value, serde_json::Error>)
    ensures
        r is Ok <==> parsed(text@) is Some,
        r matches Ok(v) ==> value_tree(v) == parsed(text@)->0,
{
    serde_json::from_str(text)
}

/// `serde_json::to_string`: a document can always be written, and its text
/// follows from what it says and is never empty. A document that is nested less
/// deeply than `serde_json::from_str` reads, that holds no doubles but those
/// from zero up to one, and in which the reserved key does not occur is read
/// back from its text. Only its doubles may come back as other doubles: which
/// ones is not claimed.
#[verifier::external_body]
fn compact_value(v: &Value) -> (r: Result<String, serde_json::Error>)
    ensures
        r is Ok,
        r matches Ok(s) ==> s@ == compact(value_tree(*v)),
        r matches Ok(s) ==> s@.len() > 0,
        r matches Ok(s) ==> legible(value_tree(*v), 100, true) ==> parsed(s@) is Some && alike(
            parsed(s@)->0,
            value_tree(*v),
        ),
{
    serde_json::to_string(v)
}

/// `serde_json::to_string_pretty`: a document can always be written, and its
/// text follows from what it says.
#[verifier::external_body]
fn pretty_value(v: &Value) -> (r: Result<String, serde_json::Error>)
    ensures
        r is Ok,
        r matches Ok(s) ==> s@ == pretty(value_tree(*v)),
{
    serde_json::to_string_pretty(v)
}

/// `serde_json::Number == serde_json::Number`: equality within each of the
/// three kinds, never across them.
#[verifier::external_body]
fn same_number(a: &Number, b: &Number) -> (r: bool)
    ensures
        r == equal_numbers(number_view(*a), number_view(*b)),
{
    a == b
}

/// `serde_json::Number::from(i64)`: a number from zero up, or one below zero.
#[verifier::external_body]
fn number_from(i: i64) -> (n: Number)
    ensures
        number_view(n) == int_view(i),
{
    Number::from(i)
}

/// The JSON number for an integer.
pub open spec fn int_view(i: i64) -> NumberView {
    if i >= 0 {
        NumberView::PosInt(i as u64)
    } else {
        NumberView::NegInt(i)
    }
}

// ---------------------------------------------------------------------------
// Documents

/// A JSON document.
pub enum Json {
    Null,
    Bool(bool),
    Number(Number),
    Text(String),
    Array(Vec<Json>),
    Object(Vec<(String, Json)>),
}

pub open spec fn trees(items: Seq<Json>) -> Seq<Tree>
    decreases items,
{
    Seq::new(items.len(), |i: int| if 0 <= i < items.len() {
            items[i].tree()
        } else {
            arbitrary()
        })
}

pub open spec fn pairs(entries: Seq<(String, Json)>) -> Seq<(Seq<char>, Tree)>
    decreases entries,
{
    Seq::new(entries.len(), |i: int| if 0 <= i < entries.len() {
            (entries[i].0@, entries[i].1.tree())
        } else {
            arbitrary()
        })
}

impl Json {
    /// What the document says.
    pub open spec fn tree(self) -> Tree
        decreases self,
    {
        match self {
            Json::Null => Tree::Null,
            Json::Bool(b) => Tree::Bool(b),
            Json::Number(n) => Tree::Number(number_view(n)),
            Json::Text(s) => Tree::Text(s@),
            Json::Array(items) => Tree::Array(trees(items@)),
            Json::Object(entries) => Tree::Object(members(pairs(entries@))),
        }
    }

    /// No object of the document names a member twice.
    pub open spec fn wf(self) -> bool
        decreases self,
    {
        match self {
            Json::Array(items) => forall|i: int| 0 <= i < items.len() ==> (#[trigger] items@[i]).wf(),
            Json::Object(entries) => {
                &&& distinct_keys(pairs(entries@))
                &&& forall|i: int| 0 <= i < entries.len() ==> (#[trigger] entries@[i]).1.wf()
            },
            _ => true,
        }
    }

    /// A text member or item.
    pub fn text(s: &str) -> (r: Json)
        ensures
            r.wf(),
            r.tree() == Tree::Text(s@),
    {
        Json::Text(s.to_owned())
    }

    /// A whole number.
    pub fn whole(i: i64) -> (r: Json)
        ensures
            r.wf(),
            r.tree() == Tree::Number(int_view(i)),
    {
        Json::Number(number_from(i))
    }
}

#[verifier::loop_isolation(false)]
fn from_value(v: Value) -> (j: Json)
    ensures
        j.wf(),
        j.tree() == value_tree(v),
    decreases value_tree(v),
{
    let ghost whole = value_tree(v);
    match take_apart(v) {
        Node::Null => Json::Null,
        Node::Bool(b) => Json::Bool(b),
        Node::Number(n) => Json::Number(n),
        Node::Text(s) => Json::Text(s),
        Node::Array(items) => {
            let ghost all = items@;
            let ghost says = all.map_values(|v: Value| value_tree(v));
            let mut out: Vec<Json> = Vec::new();
            for item in it: items
                invariant
                    it.seq() == all,
                    says == all.map_values(|v: Value| value_tree(v)),
                    whole == Tree::Array(says),
                    out.len() == it.index(),
                    forall|i: int| 0 <= i < out.len() ==> (#[trigger] out@[i]).wf(),
                    forall|i: int| 0 <= i < out.len() ==> (#[trigger] out@[i]).tree() == says[i],
            {
                assert(says[it.index() as int] == value_tree(item));
                assert(decreases_to!(whole => whole->Array_0));
                assert(decreases_to!(says => says[it.index() as int]));
                out.push(from_value(item));
            }
            assert(trees(out@) == says);
            Json::Array(out)
        },
        Node::Object(entries) => {
            let ghost all = entries@;
            let ghost says = value_pairs(all);
            let ghost map = members(says);
            proof {
                members_facts(says);
            }
            let mut out: Vec<(String, Json)> = Vec::new();
            for entry in it: entries
                invariant
                    it.seq() == all,
                    says == value_pairs(all),
                    map == members(says),
                    whole == Tree::Object(map),
                    map.dom().finite(),
                    forall|k: Seq<char>| #[trigger] map.contains_key(k) <==> has_key(says, k),
                    forall|i: int| 0 <= i < says.len() ==> map[(#[trigger] says[i]).0] == says[i].1,
                    out.len() == it.index(),
                    forall|i: int| 0 <= i < out.len() ==> (#[trigger] out@[i]).1.wf(),
                    forall|i: int|
                        0 <= i < out.len() ==> ((#[trigger] out@[i]).0@, out@[i].1.tree()) == says[i],
            {
                let ghost k = says[it.index() as int].0;
                assert(says[it.index() as int] == (entry.0@, value_tree(entry.1)));
                assert(has_key(says, k));
                assert(decreases_to!(whole => whole->Object_0));
                assert(decreases_to!(map => map[k]));
                let (key, value) = entry;
                out.push((key, from_value(value)));
            }
            assert(pairs(out@) == says);
            Json::Object(out)
        },
    }
}

/// Puts a member into a row of members with distinct keys, in place of the one
/// with the same key where there is one.
fn put_member(entries: &mut Vec<(String, Value)>, key: String, value: Value)
    requires
        distinct_keys(value_pairs(old(entries)@)),
    ensures
        distinct_keys(value_pairs(final(entries)@)),
        members(value_pairs(final(entries)@)) == members(value_pairs(old(entries)@)).insert(
            key@,
            value_tree(value),
        ),
{
    let ghost before = value_pairs(entries@);
    let ghost said = value_tree(value);
    let mut i: usize = 0;
    while i < entries.len() && !text::same_text(entries[i].0.as_str(), key.as_str())
        invariant
            i <= entries.len(),
            before == value_pairs(entries@),
            forall|j: int| 0 <= j < i ==> (#[trigger] before[j]).0 != key@,
        decreases entries.len() - i,
    {
        assert(before[i as int].0 == entries@[i as int].0@);
        i = i + 1;
    }
    if i < entries.len() {
        assert(before[i as int].0 == key@);
        entries.remove(i);
        proof {
            members_without_one(before, i as int);
            assert(value_pairs(entries@) == before.remove(i as int));
        }
    }
    let ghost rest = value_pairs(entries@);
    assert(!has_key(rest, key@));
    entries.push((key, value));
    proof {
        let after = value_pairs(entries@);
        assert(after == rest.push((key@, said)));
        assert(after.drop_last() == rest);
        assert forall|x: int, y: int| 0 <= x < y < after.len() implies (#[trigger] after[x]).0 != (
        #[trigger] after[y]).0 by {
            assert(after[x] == rest[x]);
        }
        assert(members(after) =~= members(before).insert(key@, said));
    }
}

#[verifier::loop_isolation(false)]
fn to_value(j: Json) -> (v: Value)
    ensures
        value_tree(v) == j.tree(),
    decreases j,
{
    let ghost whole = j;
    match j {
        Json::Null => put_together(Node::Null),
        Json::Bool(b) => put_together(Node::Bool(b)),
        Json::Number(n) => put_together(Node::Number(n)),
        Json::Text(s) => put_together(Node::Text(s)),
        Json::Array(items) => {
            let ghost all = items@;
            let mut out: Vec<Value> = Vec::new();
            for item in it: items
                invariant
                    it.seq() == all,
                    whole matches Json::Array(v) && v@ == all,
                    out.len() == it.index(),
                    forall|i: int|
                        0 <= i < out.len() ==> value_tree(#[trigger] out@[i]) == all[i].tree(),
            {
                assert(item == all[it.index() as int]);
                assert(decreases_to!(whole => whole->Array_0));
                assert(decreases_to!(whole->Array_0 => whole->Array_0@));
                assert(decreases_to!(all => all[it.index() as int]));
                out.push(to_value(item));
            }
            assert(out@.map_values(|v: Value| value_tree(v)) == trees(all));
            put_together(Node::Array(out))
        },
        Json::Object(entries) => {
            let ghost all = entries@;
            let mut out: Vec<(String, Value)> = Vec::new();
            for entry in it: entries
                invariant
                    it.seq() == all,
                    whole matches Json::Object(v) && v@ == all,
                    distinct_keys(value_pairs(out@)),
                    members(value_pairs(out@)) == members(pairs(all).take(it.index() as int)),
            {
                assert(entry == all[it.index() as int]);
                assert(decreases_to!(whole => whole->Object_0));
                assert(decreases_to!(whole->Object_0 => whole->Object_0@));
                assert(decreases_to!(all => all[it.index() as int]));
                assert(decreases_to!(entry => entry.1));
                let ghost next = pairs(all).take(it.index() as int + 1);
                assert(next.drop_last() == pairs(all).take(it.index() as int));
                assert(next.last() == (entry.0@, entry.1.tree()));
                let (key, value) = entry;
                let value = to_value(value);
                put_member(&mut out, key, value);
            }
            assert(pairs(all).take(all.len() as int) == pairs(all));
            put_together(Node::Object(out))
        },
    }
}

/// Reads a document; `None` where the text is not one.
pub fn parse(text: &str) -> (r: Option<Json>)
    ensures
        r is Some <==> parsed(text@) is Some,
        r matches Some(j) ==> j.wf() && j.tree() == parsed(text@)->0,
{
    match parse_value(text) {
        Ok(v) => Some(from_value(v)),
        Err(_) => None,
    }
}

/// Writes a document on one line, without spaces.
pub fn write_compact(j: Json) -> (r: String)
    ensures
        r@ == compact(j.tree()),
        r@.len() > 0,
        legible(j.tree(), 100, true) ==> parsed(r@) is Some && alike(parsed(r@)->0, j.tree()),
        legible(j.tree(), 100, false) ==> parsed(r@) == Some(j.tree()),
{
    let ghost said = j.tree();
    match compact_value(&to_value(j)) {
        Ok(s) => {
            proof {
                if legible(said, 100, false) {
                    legible_further(said, 100, 100, false, true);
                    alike_without_doubles(parsed(s@)->0, said, 100);
                }
            }
            s
        },
        Err(_) => vstd::pervasive::unreached(),
    }
}

/// Writes a document over several lines, indented.
pub fn write_pretty(j: Json) -> (r: String)
    ensures
        r@ == pretty(j.tree()),
{
    match pretty_value(&to_value(j)) {
        Ok(s) => s,
        Err(_) => vstd::pervasive::unreached(),
    }
}

/// Finds the member with a key.
fn find_member(entries: &Vec<(String, Json)>, key: &str) -> (r: Option<usize>)
    ensures
        r is Some <==> has_key(pairs(entries@), key@),
        r matches Some(i) ==> i < entries.len() && entries@[i as int].0@ == key@,
{
    let mut i: usize = 0;
    while i < entries.len()
        invariant
            i <= entries.len(),
            forall|j: int| 0 <= j < i ==> (#[trigger] entries@[j]).0@ != key@,
        decreases entries.len() - i,
    {
        if text::same_text(entries[i].0.as_str(), key) {
            assert(pairs(entries@)[i as int].0 == key@);
            return Some(i);
        }
        i = i + 1;
    }
    assert(!has_key(pairs(entries@), key@)) by {
        if has_key(pairs(entries@), key@) {
            let j = choose|j: int|
                0 <= j < pairs(entries@).len() && (#[trigger] pairs(entries@)[j]).0 == key@;
            assert(entries@[j].0@ == key@);
        }
    }
    None
}

/// Whether two documents are equal: objects member by member in any order,
/// arrays item by item in order.
#[verifier::loop_isolation(false)]
pub fn json_equal(a: &Json, b: &Json) -> (r: bool)
    requires
        a.wf(),
        b.wf(),
    ensures
        r == equal_trees(a.tree(), b.tree()),
    decreases a,
{
    match (a, b) {
        (Json::Object(am), Json::Object(bm)) => {
            let ghost ap = pairs(am@);
            let ghost bp = pairs(bm@);
            let ghost m = members(ap);
            let ghost n = members(bp);
            proof {
                members_facts(ap);
                members_facts(bp);
            }
            if am.len() != bm.len() {
                return false;
            }
            let mut i: usize = 0;
            while i < am.len()
                invariant
                    i <= am.len(),
                    forall|j: int|
                        0 <= j < i ==> n.contains_key((#[trigger] ap[j]).0) && equal_trees(
                            ap[j].1,
                            n[ap[j].0],
                        ),
                decreases am.len() - i,
            {
                let ghost k = ap[i as int].0;
                assert(m.contains_key(k)) by {
                    assert(has_key(ap, k));
                }
                match find_member(bm, am[i].0.as_str()) {
                    Some(j) => {
                        assert(bp[j as int].0 == k);
                        assert(n.contains_key(k)) by {
                            assert(has_key(bp, k));
                        }
                        assert(n[k] == bm@[j as int].1.tree());
                        assert(decreases_to!(am@ => am@[i as int]));
                        assert(decreases_to!(am@[i as int] => am@[i as int].1));
                        if !json_equal(&am[i].1, &bm[j].1) {
                            return false;
                        }
                    },
                    None => {
                        assert(!n.contains_key(k));
                        return false;
                    },
                }
                i = i + 1;
            }
            assert(m.dom().subset_of(n.dom())) by {
                assert forall|k: Seq<char>| m.dom().contains(k) implies n.dom().contains(k) by {
                    assert(m.contains_key(k));
                    let j = choose|j: int| 0 <= j < ap.len() && (#[trigger] ap[j]).0 == k;
                    assert(n.contains_key(ap[j].0));
                }
            }
            proof {
                vstd::set_lib::lemma_subset_equality(m.dom(), n.dom());
            }
            assert forall|k: Seq<char>| #[trigger] m.contains_key(k) implies equal_trees(
                m[k],
                n[k],
            ) by {
                let j = choose|j: int| 0 <= j < ap.len() && (#[trigger] ap[j]).0 == k;
                assert(m[ap[j].0] == ap[j].1);
            }
            true
        },
        (Json::Array(aa), Json::Array(ba)) => {
            if aa.len() != ba.len() {
                return false;
            }
            let ghost s = trees(aa@);
            let ghost t = trees(ba@);
            let mut i: usize = 0;
            while i < aa.len()
                invariant
                    i <= aa.len(),
                    forall|j: int| 0 <= j < i ==> equal_trees(#[trigger] s[j], t[j]),
                decreases aa.len() - i,
            {
                assert(decreases_to!(aa@ => aa@[i as int]));
                assert(s[i as int] == aa@[i as int].tree() && t[i as int] == ba@[i as int].tree());
                if !json_equal(&aa[i], &ba[i]) {
                    return false;
                }
                i = i + 1;
            }
            true
        },
        (Json::Number(x), Json::Number(y)) => same_number(x, y),
        (Json::Text(x), Json::Text(y)) => text::same_text(x.as_str(), y.as_str()),
        (Json::Bool(x), Json::Bool(y)) => *x == *y,
        (Json::Null, Json::Null) => true,
        _ => false,
    }
}

/// Takes the member with a key out of an object; any other document stays as
/// it is.
pub fn remove_member(j: &mut Json, key: &str)
    requires
        old(j).wf(),
    ensures
        final(j).wf(),
        final(j).tree() == (match old(j).tree() {
            Tree::Object(m) => Tree::Object(m.remove(key@)),
            other => other,
        }),
{
    match j {
        Json::Object(entries) => {
            let ghost before = entries@;
            let ghost bp = pairs(before);
            proof {
                members_facts(bp);
            }
            match find_member(entries, key) {
                Some(i) => {
                    entries.remove(i);
                    proof {
                        members_without_one(bp, i as int);
                        assert(pairs(entries@) == bp.remove(i as int));
                        assert(bp[i as int].0 == key@);
                        assert forall|x: int| 0 <= x < entries@.len() implies (#[trigger] entries@[x]).1.wf() by {
                            let bx = if x < i { x } else { x + 1 };
                            assert(before[bx].1.wf());
                        }
                    }
                },
                None => {
                    assert(!members(bp).contains_key(key@));
                    assert(members(bp) =~= members(bp).remove(key@));
                },
            }
        },
        _ => {},
    }
}

// ---------------------------------------------------------------------------
// Laws

/// A document is equal to itself.
pub proof fn equality_is_reflexive(a: Tree)
    ensures
        equal_trees(a, a),
    decreases a,
{
    match a {
        Tree::Object(m) => {
            assert forall|k: Seq<char>| #[trigger] m.contains_key(k) implies equal_trees(
                m[k],
                m[k],
            ) by {
                equality_is_reflexive(m[k]);
            }
        },
        Tree::Array(s) => {
            assert forall|i: int| 0 <= i < s.len() implies equal_trees(#[trigger] s[i], s[i]) by {
                equality_is_reflexive(s[i]);
            }
        },
        _ => {},
    }
}

/// Equality of documents does not depend on which one is named first.
pub proof fn equality_is_symmetric(a: Tree, b: Tree)
    ensures
        equal_trees(a, b) == equal_trees(b, a),
    decreases a,
{
    match (a, b) {
        (Tree::Object(m), Tree::Object(n)) => {
            assert forall|k: Seq<char>| #[trigger]
                m.contains_key(k) && n.contains_key(k) implies equal_trees(m[k], n[k])
                == equal_trees(n[k], m[k]) by {
                equality_is_symmetric(m[k], n[k]);
            }
            if m.dom() == n.dom() {
                assert forall|k: Seq<char>| m.contains_key(k) == n.contains_key(k) by {
                    assert(m.dom().contains(k) == n.dom().contains(k));
                }
            }
        },
        (Tree::Array(s), Tree::Array(t)) => {
            assert forall|i: int| 0 <= i < s.len() && i < t.len() implies equal_trees(
                #[trigger] s[i],
                t[i],
            ) == equal_trees(t[i], s[i]) by {
                equality_is_symmetric(s[i], t[i]);
            }
            if s.len() == t.len() {
                if equal_trees(a, b) {
                    assert forall|i: int| 0 <= i < t.len() implies equal_trees(
                        #[trigger] t[i],
                        s[i],
                    ) by {
                        assert(equal_trees(s[i], t[i]));
                    }
                }
                if equal_trees(b, a) {
                    assert forall|i: int| 0 <= i < s.len() implies equal_trees(
                        #[trigger] s[i],
                        t[i],
                    ) by {
                        assert(equal_trees(t[i], s[i]));
                    }
                }
            }
        },
        _ => {},
    }
}

/// Two documents that equal a third equal each other.
pub proof fn equality_is_transitive(a: Tree, b: Tree, c: Tree)
    requires
        equal_trees(a, b),
        equal_trees(b, c),
    ensures
        equal_trees(a, c),
    decreases a,
{
    match (a, b, c) {
        (Tree::Object(m), Tree::Object(n), Tree::Object(o)) => {
            assert forall|k: Seq<char>| #[trigger] m.contains_key(k) implies equal_trees(
                m[k],
                o[k],
            ) by {
                assert(n.dom().contains(k));
                assert(n.contains_key(k));
                equality_is_transitive(m[k], n[k], o[k]);
            }
        },
        (Tree::Array(s), Tree::Array(t), Tree::Array(u)) => {
            assert forall|i: int| 0 <= i < s.len() implies equal_trees(#[trigger] s[i], u[i]) by {
                assert(equal_trees(t[i], u[i]));
                equality_is_transitive(s[i], t[i], u[i]);
            }
        },
        _ => {},
    }
}

/// The order in which an object's members are written does not matter.
pub proof fn member_order_is_irrelevant(p: Seq<(Seq<char>, Tree)>, q: Seq<(Seq<char>, Tree)>)
    requires
        distinct_keys(p),
        distinct_keys(q),
        p.to_multiset() == q.to_multiset(),
    ensures
        members(p) == members(q),
        equal_trees(Tree::Object(members(p)), Tree::Object(members(q))),
{
    broadcast use vstd::seq_lib::group_to_multiset_ensures;

    members_facts(p);
    members_facts(q);
    assert forall|k: Seq<char>| has_key(p, k) implies has_key(q, k) && members(p)[k] == members(
        q,
    )[k] by {
        let i = choose|i: int| 0 <= i < p.len() && (#[trigger] p[i]).0 == k;
        assert(p.contains(p[i]));
        assert(q.to_multiset().count(p[i]) > 0);
        assert(q.contains(p[i]));
        let j = choose|j: int| 0 <= j < q.len() && q[j] == p[i];
        assert(q[j].0 == k);
        assert(members(q)[q[j].0] == q[j].1);
        assert(members(p)[p[i].0] == p[i].1);
    }
    assert forall|k: Seq<char>| has_key(q, k) implies has_key(p, k) by {
        let i = choose|i: int| 0 <= i < q.len() && (#[trigger] q[i]).0 == k;
        assert(q.contains(q[i]));
        assert(p.to_multiset().count(q[i]) > 0);
        assert(p.contains(q[i]));
        let j = choose|j: int| 0 <= j < p.len() && p[j] == q[i];
        assert(p[j].0 == k);
    }
    assert forall|k: Seq<char>| members(p).dom().contains(k) == members(q).dom().contains(k) by {
        assert(members(p).contains_key(k) == has_key(p, k));
        assert(members(q).contains_key(k) == has_key(q, k));
    }
    assert forall|k: Seq<char>| #[trigger] members(p).dom().contains(k) implies members(p)[k]
        == members(q)[k] by {
        assert(members(p).contains_key(k));
        assert(has_key(p, k));
    }
    assert(members(p) =~= members(q));
    equality_is_reflexive(Tree::Object(members(p)));
}

/// The order of an array's items matters: equal arrays have equal items at
/// every position.
pub proof fn item_order_matters(s: Seq<Tree>, t: Seq<Tree>, i: int)
    requires
        0 <= i < s.len(),
        i < t.len(),
        !equal_trees(s[i], t[i]),
    ensures
        !equal_trees(Tree::Array(s), Tree::Array(t)),
{
}

/// What can be read back of some levels can be read back of more of them, and
/// what can without doubles can with them.
pub proof fn legible_further(
    t: Tree,
    depth: nat,
    deeper: nat,
    doubles: bool,
    more_doubles: bool,
)
    requires
        legible(t, depth, doubles),
        depth <= deeper,
        doubles ==> more_doubles,
    ensures
        legible(t, deeper, more_doubles),
    decreases depth,
{
    match t {
        Tree::Array(s) => {
            assert(legible_items(s, (depth - 1) as nat, doubles));
            assert forall|i: int| 0 <= i < s.len() implies legible(
                #[trigger] s[i],
                (deeper - 1) as nat,
                more_doubles,
            ) by {
                legible_further(
                    s[i],
                    (depth - 1) as nat,
                    (deeper - 1) as nat,
                    doubles,
                    more_doubles,
                );
            }
            assert(legible_items(s, (deeper - 1) as nat, more_doubles));
        },
        Tree::Object(m) => {
            assert(legible_values(m, (depth - 1) as nat, doubles));
            assert forall|k: Seq<char>| #[trigger] m.contains_key(k) implies legible(
                m[k],
                (deeper - 1) as nat,
                more_doubles,
            ) by {
                legible_further(
                    m[k],
                    (depth - 1) as nat,
                    (deeper - 1) as nat,
                    doubles,
                    more_doubles,
                );
            }
            assert(legible_values(m, (deeper - 1) as nat, more_doubles));
        },
        _ => {},
    }
}

/// A document that is like one without doubles is that document.
pub proof fn alike_without_doubles(a: Tree, b: Tree, depth: nat)
    requires
        alike(a, b),
        legible(b, depth, false),
    ensures
        a == b,
    decreases depth,
{
    match (a, b) {
        (Tree::Array(s), Tree::Array(t)) => {
            assert(legible_items(t, (depth - 1) as nat, false));
            assert forall|i: int| 0 <= i < t.len() implies s[i] == #[trigger] t[i] by {
                alike_without_doubles(s[i], t[i], (depth - 1) as nat);
            }
            assert(s =~= t);
        },
        (Tree::Object(m), Tree::Object(n)) => {
            assert(legible_values(n, (depth - 1) as nat, false));
            assert forall|k: Seq<char>| #[trigger] n.contains_key(k) implies m[k] == n[k] by {
                alike_without_doubles(m[k], n[k], (depth - 1) as nat);
            }
            assert(m =~= n);
        },
        _ => {},
    }
}

/// A key that does not begin as the reserved one does is not reserved.
pub proof fn other_keys_are_not_reserved(key: Seq<char>)
    requires
        key[0] != '$',
    ensures
        key != reserved_key(),
{
    reveal_strlit("$serde_json::private::RawValue");
}

/// An object can be read back where its pairs can.
pub proof fn legible_pairs_make_legible_values(
    pairs: Seq<(Seq<char>, Tree)>,
    depth: nat,
    doubles: bool,
)
    requires
        forall|i: int| 0 <= i < pairs.len() ==> legible((#[trigger] pairs[i]).1, depth, doubles),
        forall|i: int| 0 <= i < pairs.len() ==> (#[trigger] pairs[i]).0 != reserved_key(),
    ensures
        legible_values(members(pairs), depth, doubles),
    decreases pairs.len(),
{
    if pairs.len() > 0 {
        let rest = pairs.drop_last();
        let last = pairs[pairs.len() - 1];
        assert forall|i: int| 0 <= i < rest.len() implies legible(
            (#[trigger] rest[i]).1,
            depth,
            doubles,
        ) && rest[i].0 != reserved_key() by {
            assert(rest[i] == pairs[i]);
        }
        legible_pairs_make_legible_values(rest, depth, doubles);
        assert(legible(last.1, depth, doubles) && last.0 != reserved_key());
        assert forall|k: Seq<char>| #[trigger] members(pairs).contains_key(k) implies legible(
            members(pairs)[k],
            depth,
            doubles,
        ) by {
            if k != last.0 {
                assert(members(rest).contains_key(k));
            }
        }
        assert(!members(pairs).contains_key(reserved_key()));
    }
}

/// Whether a document holds no doubles.
pub open spec fn without_doubles(t: Tree) -> bool
    decreases t,
{
    match t {
        Tree::Number(n) => !(n is Float),
        Tree::Array(s) => forall|i: int| 0 <= i < s.len() ==> without_doubles(#[trigger] s[i]),
        Tree::Object(m) => forall|k: Seq<char>| #[trigger] m.contains_key(k) ==> without_doubles(
            m[k],
        ),
        _ => true,
    }
}

/// Equality tells documents apart: two documents, one of them without doubles,
/// are equal only where they are the same document.
pub proof fn equal_documents_are_the_same(a: Tree, b: Tree)
    requires
        without_doubles(a) || without_doubles(b),
        equal_trees(a, b),
    ensures
        a == b,
    decreases a,
{
    match (a, b) {
        (Tree::Array(s), Tree::Array(t)) => {
            assert forall|i: int| 0 <= i < s.len() implies s[i] == #[trigger] t[i] by {
                assert(equal_trees(s[i], t[i]));
                equal_documents_are_the_same(s[i], t[i]);
            }
            assert(s =~= t);
        },
        (Tree::Object(m), Tree::Object(n)) => {
            assert forall|k: Seq<char>| #[trigger] m.contains_key(k) implies m[k] == n[k] by {
                assert(n.dom().contains(k));
                assert(n.contains_key(k));
                equal_documents_are_the_same(m[k], n[k]);
            }
            assert(m =~= n);
        },
        _ => {},
    }
}

/// A text, a truth value and nothing are equal to themselves and to nothing
/// else, whatever stands on the other side.
pub proof fn leaves_equal_only_themselves(a: Tree, b: Tree)
    requires
        a is Null || a is Bool || a is Text,
    ensures
        equal_trees(a, b) == (a == b),
        equal_trees(b, a) == (a == b),
{
}

/// Whole numbers are equal only where they are the same number, and never equal
/// to a double; doubles are equal where they are the same double or both zero.
pub proof fn numbers_equal_their_like(x: int, y: int, f: u64, g: u64)
    requires
        i64::MIN <= x <= u64::MAX,
        i64::MIN <= y <= u64::MAX,
    ensures
        ({
            let whole = |i: int|
                Tree::Number(
                    if i < 0 {
                        NumberView::NegInt(i as i64)
                    } else {
                        NumberView::PosInt(i as u64)
                    },
                );
            let double = |bits: u64| Tree::Number(NumberView::Float(bits));
            &&& equal_trees(whole(x), whole(y)) == (x == y)
            &&& !equal_trees(whole(x), double(f))
            &&& !equal_trees(double(f), whole(x))
            &&& equal_trees(double(f), double(g)) == (f == g || (f == 0 && g
                == 0x8000_0000_0000_0000) || (f == 0x8000_0000_0000_0000 && g == 0))
        }),
{
}

/// Two arrays are equal exactly where they are as long and equal at every
/// place.
pub proof fn arrays_are_equal_item_by_item(s: Seq<Tree>, t: Seq<Tree>)
    ensures
        equal_trees(Tree::Array(s), Tree::Array(t)) <==> s.len() == t.len() && (forall|i: int|
            0 <= i < s.len() ==> equal_trees(#[trigger] s[i], t[i])),
{
}

/// Two objects are equal exactly where they name the same members, each with
/// an equal value.
pub proof fn objects_are_equal_member_by_member(
    m: Map<Seq<char>, Tree>,
    n: Map<Seq<char>, Tree>,
)
    ensures
        equal_trees(Tree::Object(m), Tree::Object(n)) <==> (forall|k: Seq<char>| #[trigger]
            m.contains_key(k) <==> n.contains_key(k)) && (forall|k: Seq<char>| #[trigger]
            m.contains_key(k) ==> equal_trees(m[k], n[k])),
{
    if forall|k: Seq<char>| #[trigger] m.contains_key(k) <==> n.contains_key(k) {
        assert forall|k: Seq<char>| m.dom().contains(k) == n.dom().contains(k) by {
            assert(m.contains_key(k) <==> n.contains_key(k));
        }
        assert(m.dom() =~= n.dom());
    }
    if equal_trees(Tree::Object(m), Tree::Object(n)) {
        assert forall|k: Seq<char>| #[trigger] m.contains_key(k) <==> n.contains_key(k) by {
            assert(m.dom().contains(k) == n.dom().contains(k));
        }
    }
}

/// Documents of different kinds are never equal.
pub proof fn documents_of_different_kinds_differ(a: Tree, b: Tree)
    requires
        equal_trees(a, b),
    ensures
        a is Null == b is Null,
        a is Bool == b is Bool,
        a is Number == b is Number,
        a is Text == b is Text,
        a is Array == b is Array,
        a is Object == b is Object,
{
}

/// A row of pairs makes the members that it names: the last pair with a key
/// gives that member's value, and there are no other members.
#[verifier::spinoff_prover]
#[verifier::rlimit(40)]
pub proof fn last_pair_gives_the_member(pairs: Seq<(Seq<char>, Tree)>, k: Seq<char>)
    ensures
        members(pairs).contains_key(k) <==> exists|i: int|
            0 <= i < pairs.len() && (#[trigger] pairs[i]).0 == k,
        forall|i: int|
            #![trigger pairs[i]]
            0 <= i < pairs.len() && pairs[i].0 == k && (forall|j: int|
                i < j < pairs.len() ==> (#[trigger] pairs[j]).0 != k) ==> members(pairs)[k]
                == pairs[i].1,
    decreases pairs.len(),
{
    if pairs.len() > 0 {
        let rest = pairs.drop_last();
        let n = pairs.len() - 1;
        last_pair_gives_the_member(rest, k);
        if pairs[n].0 != k {
            if members(pairs).contains_key(k) {
                let i = choose|i: int| 0 <= i < rest.len() && (#[trigger] rest[i]).0 == k;
                assert(pairs[i].0 == k);
            }
            assert forall|i: int| 0 <= i < pairs.len() && (#[trigger] pairs[i]).0 == k implies
                members(pairs).contains_key(k) by {
                assert(rest[i].0 == k);
            }
            assert forall|i: int|
                #![trigger pairs[i]]
                0 <= i < pairs.len() && pairs[i].0 == k && (forall|j: int|
                    i < j < pairs.len() ==> (#[trigger] pairs[j]).0 != k) implies members(pairs)[k]
                == pairs[i].1 by {
                assert(rest[i].0 == k);
                assert forall|j: int| i < j < rest.len() implies (#[trigger] rest[j]).0 != k by {
                    assert(pairs[j].0 != k);
                }
            }
        }
    }
}

/// A whole number is written as itself.
pub proof fn whole_numbers_are_kept(i: i64, j: i64)
    ensures
        int_view(i) == int_view(j) <==> i == j,
        i >= 0 ==> int_view(i) == NumberView::PosInt(i as u64),
        i < 0 ==> int_view(i) == NumberView::NegInt(i),
{
}

/// A document says what it is made of.
pub proof fn documents_say_what_they_hold(
    b: bool,
    n: Number,
    s: String,
    items: Vec<Json>,
    entries: Vec<(String, Json)>,
    i: int,
)
    ensures
        Json::Null.tree() == Tree::Null,
        Json::Bool(b).tree() == Tree::Bool(b),
        Json::Number(n).tree() == Tree::Number(number_view(n)),
        Json::Text(s).tree() == Tree::Text(s@),
        Json::Array(items).tree() matches Tree::Array(t) && t.len() == items.len() && (0 <= i
            < items.len() ==> t[i] == items@[i].tree()),
        Json::Object(entries).tree() == Tree::Object(members(pairs(entries@))),
        pairs(entries@).len() == entries.len(),
        0 <= i < entries.len() ==> pairs(entries@)[i] == (entries@[i].0@, entries@[i].1.tree()),
{
}

} // verus!
