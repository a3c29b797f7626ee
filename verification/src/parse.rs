//! Reading JSON text into documents.
use crate::json::{self, Json, Num, Object, Doc};
use vstd::prelude::*;

verus! {

#[verifier::external_type_specification]
#[verifier::external_body]
pub struct ExParsed(serde_json::Value);

#[verifier::external_type_specification]
#[verifier::external_body]
pub struct ExNumber(serde_json::Number);

/// What `serde_json::from_str` reads a text as: a document, or the message of
/// its error.
pub uninterp spec fn parsed(text: Seq<char>) -> Result<Json, Seq<char>>;

/// The document that a parsed value holds.
pub uninterp spec fn contents(v: serde_json::Value) -> Json;

/// The number that a parsed number holds.
pub uninterp spec fn amount(n: serde_json::Number) -> Json;

/// `serde_json::from_str`. What it gives is a function of the text alone; the
/// grammar and the messages are not stated.
#[verifier::external_body]
fn from_str(text: &str) -> (r: Result<serde_json::Value, String>)
    ensures
        match r {
            Ok(v) => parsed(text@) == Ok::<Json, Seq<char>>(contents(v)),
            Err(e) => parsed(text@) == Err::<Json, Seq<char>>(e@),
        },
{
    serde_json::from_str::<serde_json::Value>(text).map_err(|e| e.to_string())
}

/// What `serde_json::from_str` reads a text as where a list is asked for.
pub uninterp spec fn parsed_list(text: Seq<char>) -> Result<Seq<Json>, Seq<char>>;

/// `serde_json::from_str` into a list of values. What it gives is a function of
/// the text alone.
#[verifier::external_body]
fn list_from_str(text: &str) -> (r: Result<Vec<serde_json::Value>, String>)
    ensures
        match r {
            Ok(a) => parsed_list(text@) == Ok::<Seq<Json>, Seq<char>>(listed(a@)),
            Err(e) => parsed_list(text@) == Err::<Seq<Json>, Seq<char>>(e@),
        },
{
    serde_json::from_str::<Vec<serde_json::Value>>(text).map_err(|e| e.to_string())
}

/// One level of a parsed value.
enum Node<'a> {
    Null,
    Flag(bool),
    Num(&'a serde_json::Number),
    Text(&'a String),
    List(&'a Vec<serde_json::Value>),
    Members(Vec<(&'a String, &'a serde_json::Value)>),
}

pub closed spec fn listed(a: Seq<serde_json::Value>) -> Seq<Json> {
    a.map_values(|v: serde_json::Value| contents(v))
}

spec fn member_contents(es: Seq<(&String, &serde_json::Value)>) -> Seq<(Seq<char>, Json)> {
    es.map_values(|e: (&String, &serde_json::Value)| (e.0@, contents(*e.1)))
}

/// The variant of a `serde_json::Value`. An object's members come in the order
/// of their keys, as `serde_json::Map` keeps them.
#[verifier::external_body]
fn node<'a>(v: &'a serde_json::Value) -> (r: Node<'a>)
    ensures
        match r {
            Node::Null => contents(*v) == Json::Null,
            Node::Flag(b) => contents(*v) == Json::Bool(b),
            Node::Num(n) => contents(*v) == amount(*n),
            Node::Text(s) => contents(*v) == Json::Str(s@),
            Node::List(a) => contents(*v) == Json::Arr(listed(a@)),
            Node::Members(es) => contents(*v) == Json::Obj(member_contents(es@)) && json::sorted(
                json::keys(member_contents(es@)),
            ),
        },
{
    match v {
        serde_json::Value::Null => Node::Null,
        serde_json::Value::Bool(b) => Node::Flag(*b),
        serde_json::Value::Number(n) => Node::Num(n),
        serde_json::Value::String(s) => Node::Text(s),
        serde_json::Value::Array(a) => Node::List(a),
        serde_json::Value::Object(m) => Node::Members(m.iter().collect()),
    }
}

/// `serde_json::Number::as_u64`: a number is a `u64`, a negative `i64` or a
/// float, and the first of them is given.
#[verifier::external_body]
fn as_u64(n: &serde_json::Number) -> (r: Option<u64>)
    ensures
        match r {
            Some(u) => amount(*n) == Json::Int(u as int),
            None => match amount(*n) {
                Json::Int(i) => i64::MIN <= i < 0,
                Json::Float(_) => true,
                _ => false,
            },
        },
{
    n.as_u64()
}

/// `serde_json::Number::as_i64`: an integer that an `i64` holds is given.
#[verifier::external_body]
fn as_i64(n: &serde_json::Number) -> (r: Option<i64>)
    ensures
        r == json::i64_of(amount(*n)),
{
    n.as_i64()
}

/// `serde_json::Number`'s `Display`. A float is held as the text that is
/// written for it.
#[verifier::external_body]
fn number_text(n: &serde_json::Number) -> (r: String)
    ensures
        r@ == json::text_of(amount(*n)),
{
    n.to_string()
}

fn number(n: &serde_json::Number) -> (r: Doc)
    ensures
        r@ == amount(*n),
{
    match as_u64(n) {
        Some(u) => Doc::Num(Num::Unsigned(u)),
        None => match as_i64(n) {
            Some(i) => Doc::Num(Num::Negative(i)),
            None => Doc::Num(Num::Float(number_text(n))),
        },
    }
}

proof fn lemma_put_last(e: Seq<(Seq<char>, Json)>, k: Seq<char>, v: Json)
    requires
        json::sorted(json::keys(e.push((k, v)))),
    ensures
        json::put(e, k, v) == e.push((k, v)),
{
    let ks = json::keys(e.push((k, v)));
    assert forall|j: int| 0 <= j < e.len() implies #[trigger] e[j].0 != k && !json::before(
        k,
        e[j].0,
    ) by {
        assert(ks[j] == e[j].0 && ks[e.len() as int] == k);
        assert(json::before(ks[j], ks[e.len() as int]));
        json::lemma_before_irreflexive(k);
        if json::before(k, e[j].0) {
            json::lemma_before_transitive(k, e[j].0, k);
        }
    }
    json::lemma_put_at(e, k, v, e.len() as int);
    assert(e.take(e.len() as int) + seq![(k, v)] + e.skip(e.len() as int) =~= e.push((k, v)));
}

fn taken(v: &serde_json::Value) -> (r: Doc)
    ensures
        r@ == contents(*v),
    decreases contents(*v),
{
    match node(v) {
        Node::Null => Doc::Null,
        Node::Flag(b) => Doc::Bool(b),
        Node::Num(n) => number(n),
        Node::Text(s) => Doc::String(s.clone()),
        Node::List(a) => {
            let ghost all = listed(a@);
            let mut out: Vec<Doc> = Vec::new();
            let mut i: usize = 0;
            while i < a.len()
                invariant
                    i <= a@.len(),
                    all == listed(a@),
                    contents(*v) == Json::Arr(all),
                    json::jsons(out@) =~= all.take(i as int),
                decreases a@.len() - i,
            {
                assert(all[i as int] == contents(a@[i as int]));
                assert(decreases_to!(contents(*v) => contents(*v)->Arr_0));
                assert(decreases_to!(all => all[i as int]));
                let ghost was = out@;
                out.push(taken(&a[i]));
                assert(json::jsons(out@) =~= json::jsons(was).push(all[i as int]));
                i += 1;
            }
            assert(all.take(i as int) =~= all);
            json::array(out)
        },
        Node::Members(es) => {
            let ghost all = member_contents(es@);
            let mut o = Object::new();
            let mut i: usize = 0;
            assert(all.take(0) =~= Seq::empty());
            while i < es.len()
                invariant
                    i <= es@.len(),
                    all == member_contents(es@),
                    json::sorted(json::keys(all)),
                    contents(*v) == Json::Obj(all),
                    o@ == all.take(i as int),
                decreases es@.len() - i,
            {
                let m = es[i];
                assert(all[i as int] == (m.0@, contents(*m.1)));
                assert(decreases_to!(contents(*v) => contents(*v)->Obj_0));
                assert(decreases_to!(all => all[i as int]));
                assert(decreases_to!(all[i as int] => all[i as int].1));
                proof {
                    let next = all.take(i + 1);
                    assert(next =~= all.take(i as int).push(all[i as int]));
                    assert forall|p: int, q: int| 0 <= p < q < json::keys(next).len() implies json::before(
                        #[trigger] json::keys(next)[p],
                        #[trigger] json::keys(next)[q],
                    ) by {
                        assert(json::keys(next)[p] == json::keys(all)[p]);
                        assert(json::keys(next)[q] == json::keys(all)[q]);
                    }
                    lemma_put_last(all.take(i as int), m.0@, contents(*m.1));
                }
                o = o.with(m.0, taken(m.1));
                i += 1;
            }
            assert(all.take(i as int) =~= all);
            Doc::Object(o)
        },
    }
}

/// The view of a result of a document.
pub open spec fn document(r: Result<Doc, String>) -> Result<Json, Seq<char>> {
    match r {
        Ok(v) => Ok(v@),
        Err(e) => Err(e@),
    }
}

/// The document that a text holds.
pub fn read(text: &str) -> (r: Result<Doc, String>)
    ensures
        document(r) == parsed(text@),
{
    match from_str(text) {
        Ok(v) => Ok(taken(&v)),
        Err(e) => Err(e),
    }
}

/// The view of a result of a list of documents.
pub open spec fn documents(r: Result<Vec<Doc>, String>) -> Result<Seq<Json>, Seq<char>> {
    match r {
        Ok(v) => Ok(json::jsons(v@)),
        Err(e) => Err(e@),
    }
}

/// The list of documents that a text holds.
pub fn read_list(text: &str) -> (r: Result<Vec<Doc>, String>)
    ensures
        documents(r) == parsed_list(text@),
{
    let a = match list_from_str(text) {
        Ok(a) => a,
        Err(e) => {
            return Err(e);
        },
    };
    let ghost all = listed(a@);
    let mut out: Vec<Doc> = Vec::new();
    let mut i: usize = 0;
    while i < a.len()
        invariant
            i <= a@.len(),
            all == listed(a@),
            json::jsons(out@) =~= all.take(i as int),
        decreases a@.len() - i,
    {
        let ghost was = out@;
        out.push(taken(&a[i]));
        assert(json::jsons(out@) =~= json::jsons(was).push(all[i as int]));
        i += 1;
    }
    assert(all.take(i as int) =~= all);
    Ok(out)
}

} // verus!
