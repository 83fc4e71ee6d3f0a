//! A JSON document tree, with the two rewrites the application makes on
//! configuration documents: filling in missing settings from the defaults
//! (schema migration) and redacting identifying values (diagnostics).
//!
//! Numbers are kept as their JSON text.  Objects keep their members in
//! order; as in a parsed document, a key occurs at most once in an object
//! (`json_wf`).
use vstd::prelude::*;

use crate::text::{char_vec, contains_vec, ends_with_vec, lower_seq, lower_vec, owned, has_infix, ends_with_seq, str_eq};

verus! {

broadcast use vstd::string::group_string_axioms;

pub enum JsonValue {
    Null,
    Bool(bool),
    Number(String),
    Str(String),
    Array(Vec<JsonValue>),
    Object(Vec<(String, JsonValue)>),
}

/// The document a value stands for.
pub enum Json {
    Null,
    Bool(bool),
    Number(Seq<char>),
    Str(Seq<char>),
    Array(Seq<Json>),
    Object(Seq<(Seq<char>, Json)>),
}

pub open spec fn json_view(v: JsonValue) -> Json
    decreases v,
{
    match v {
        JsonValue::Null => Json::Null,
        JsonValue::Bool(b) => Json::Bool(b),
        JsonValue::Number(n) => Json::Number(n@),
        JsonValue::Str(s) => Json::Str(s@),
        JsonValue::Array(items) => Json::Array(
            Seq::new(
                items@.len(),
                |i: int|
                    if 0 <= i < items@.len() {
                        json_view(items@[i])
                    } else {
                        Json::Null
                    },
            ),
        ),
        JsonValue::Object(es) => Json::Object(
            Seq::new(
                es@.len(),
                |i: int|
                    if 0 <= i < es@.len() {
                        (es@[i].0@, json_view(es@[i].1))
                    } else {
                        (Seq::empty(), Json::Null)
                    },
            ),
        ),
    }
}

pub open spec fn keys_unique(es: Seq<(String, JsonValue)>) -> bool {
    forall|i: int, j: int| 0 <= i < j < es.len() ==> (#[trigger] es[i]).0@ != (#[trigger] es[j]).0@
}

pub open spec fn wf_doc(j: Json) -> bool
    decreases j,
{
    match j {
        Json::Array(items) => forall|i: int| 0 <= i < items.len() ==> wf_doc(#[trigger] items[i]),
        Json::Object(es) => {
            &&& forall|i: int, k: int| 0 <= i < k < es.len() ==> (#[trigger] es[i]).0 != (#[trigger] es[k]).0
            &&& forall|i: int| 0 <= i < es.len() ==> wf_doc(#[trigger] es[i].1)
        },
        _ => true,
    }
}

/// Well-formed: no object has a key twice.
pub open spec fn json_wf(v: JsonValue) -> bool {
    wf_doc(json_view(v))
}

proof fn lemma_object_wf(es: Vec<(String, JsonValue)>)
    ensures
        json_wf(JsonValue::Object(es)) <==> (keys_unique(es@) && forall|i: int|
            0 <= i < es@.len() ==> json_wf(#[trigger] es@[i].1)),
{
    let j = json_view(JsonValue::Object(es));
    let s = j->Object_0;
    assert(s.len() == es@.len());
    assert(forall|i: int| 0 <= i < es@.len() ==> #[trigger] s[i] == (es@[i].0@, json_view(es@[i].1)));
    if keys_unique(es@) && forall|i: int| 0 <= i < es@.len() ==> json_wf(#[trigger] es@[i].1) {
        assert forall|i: int, k: int| 0 <= i < k < s.len() implies (#[trigger] s[i]).0 != (#[trigger] s[k]).0 by {
            assert(es@[i].0@ != es@[k].0@);
        }
        assert forall|i: int| 0 <= i < s.len() implies wf_doc(#[trigger] s[i].1) by {
            assert(json_wf(es@[i].1));
        }
    }
    if json_wf(JsonValue::Object(es)) {
        assert forall|i: int, k: int| 0 <= i < k < es@.len() implies (#[trigger] es@[i]).0@ != (#[trigger] es@[k]).0@ by {
            assert(s[i].0 != s[k].0);
        }
        assert forall|i: int| 0 <= i < es@.len() implies json_wf(#[trigger] es@[i].1) by {
            assert(wf_doc(s[i].1));
        }
    }
}

proof fn lemma_array_wf(items: Vec<JsonValue>)
    ensures
        json_wf(JsonValue::Array(items)) <==> forall|i: int|
            0 <= i < items@.len() ==> json_wf(#[trigger] items@[i]),
{
    let s = json_view(JsonValue::Array(items))->Array_0;
    assert(s.len() == items@.len());
    assert(forall|i: int| 0 <= i < items@.len() ==> #[trigger] s[i] == json_view(items@[i]));
    if forall|i: int| 0 <= i < items@.len() ==> json_wf(#[trigger] items@[i]) {
        assert forall|i: int| 0 <= i < s.len() implies wf_doc(#[trigger] s[i]) by {
            assert(json_wf(items@[i]));
        }
    }
    if json_wf(JsonValue::Array(items)) {
        assert forall|i: int| 0 <= i < items@.len() implies json_wf(#[trigger] items@[i]) by {
            assert(wf_doc(s[i]));
        }
    }
}

/// Whether no object in the document has a key twice.
pub fn is_well_formed(v: &JsonValue) -> (r: bool)
    ensures
        r == json_wf(*v),
    decreases v,
{
    match v {
        JsonValue::Array(items) => {
            proof {
                lemma_array_wf(*items);
            }
            let mut i: usize = 0;
            while i < items.len()
                invariant
                    *v == JsonValue::Array(*items),
                    i <= items@.len(),
                    forall|k: int| 0 <= k < i ==> json_wf(#[trigger] items@[k]),
                decreases items@.len() - i,
            {
                proof {
                    assert(decreases_to!(*v => (*v)->Array_0));
                    assert(decreases_to!((*v)->Array_0 => (*v)->Array_0@));
                    assert(decreases_to!((*v)->Array_0@ => (*v)->Array_0@[i as int]));
                }
                if !is_well_formed(&items[i]) {
                    proof {
                        lemma_array_wf(*items);
                    }
                    return false;
                }
                i = i + 1;
            }
            true
        },
        JsonValue::Object(es) => {
            proof {
                lemma_object_wf(*es);
            }
            let mut i: usize = 0;
            while i < es.len()
                invariant
                    *v == JsonValue::Object(*es),
                    i <= es@.len(),
                    forall|a: int, b: int|
                        0 <= a < b < es@.len() && a < i ==> (#[trigger] es@[a]).0@ != (
                        #[trigger] es@[b]).0@,
                    forall|k: int| 0 <= k < i ==> json_wf(#[trigger] es@[k].1),
                decreases es@.len() - i,
            {
                proof {
                    assert(decreases_to!(*v => (*v)->Object_0));
                    assert(decreases_to!((*v)->Object_0 => (*v)->Object_0@));
                    assert(decreases_to!((*v)->Object_0@ => (*v)->Object_0@[i as int]));
                    assert(decreases_to!((*v)->Object_0@[i as int] => (*v)->Object_0@[i as int].1));
                }
                if !is_well_formed(&es[i].1) {
                    proof {
                        lemma_object_wf(*es);
                    }
                    return false;
                }
                let mut j: usize = i + 1;
                while j < es.len()
                    invariant
                        *v == JsonValue::Object(*es),
                        i < es@.len(),
                        i < j <= es@.len(),
                        forall|b: int| i < b < j ==> (#[trigger] es@[b]).0@ != es@[i as int].0@,
                    decreases es@.len() - j,
                {
                    if str_eq(es[i].0.as_str(), es[j].0.as_str()) {
                        proof {
                            assert(!keys_unique(es@)) by {
                                assert(es@[i as int].0@ == es@[j as int].0@);
                            }
                            lemma_object_wf(*es);
                        }
                        return false;
                    }
                    j = j + 1;
                }
                i = i + 1;
            }
            true
        },
        _ => true,
    }
}

pub open spec fn has_key(es: Seq<(String, JsonValue)>, k: Seq<char>) -> bool {
    exists|i: int| 0 <= i < es.len() && (#[trigger] es[i]).0@ == k
}

/// Indices, in order, of the first `n` entries of `de` whose keys `ve`
/// does not have.
pub open spec fn missing(ve: Seq<(String, JsonValue)>, de: Seq<(String, JsonValue)>, n: int) -> Seq<int>
    decreases n,
{
    if n <= 0 {
        Seq::empty()
    } else if has_key(ve, de[n - 1].0@) {
        missing(ve, de, n - 1)
    } else {
        missing(ve, de, n - 1).push(n - 1)
    }
}

/// `r` is `v` with the members of `d` it lacks filled in, recursively: when
/// both are objects, every member of `v` stays in place (merged with the
/// default of the same key, if there is one) and the default members whose
/// keys `v` lacks follow, in the defaults' order; otherwise `r` is `v`.
pub open spec fn merged(r: JsonValue, v: JsonValue, d: JsonValue) -> bool
    decreases d,
{
    match d {
        JsonValue::Object(de) => match v {
            JsonValue::Object(ve) => match r {
                JsonValue::Object(re) => {
                    let m = missing(ve@, de@, de@.len() as int);
                    &&& re@.len() == ve@.len() + m.len()
                    &&& forall|i: int|
                        0 <= i < ve@.len() ==> {
                            &&& (#[trigger] re@[i]).0 == ve@[i].0
                            &&& if has_key(de@, ve@[i].0@) {
                                exists|j: int|
                                    0 <= j < de@.len() && (#[trigger] de@[j]).0@ == ve@[i].0@
                                        && merged(re@[i].1, ve@[i].1, de@[j].1)
                            } else {
                                re@[i].1 == ve@[i].1
                            }
                        }
                    &&& forall|k: int|
                        0 <= k < m.len() ==> re@[ve@.len() + k].0@ == de@[#[trigger] m[k]].0@
                            && json_view(re@[ve@.len() + k].1) == json_view(de@[m[k]].1)
                },
                _ => false,
            },
            _ => r == v,
        },
        _ => r == v,
    }
}

/// The state of a merge after the first `n` default members.
pub open spec fn merged_prefix(
    re: Seq<(String, JsonValue)>,
    ve: Seq<(String, JsonValue)>,
    de: Seq<(String, JsonValue)>,
    n: int,
) -> bool {
    let m = missing(ve, de, n);
    &&& re.len() == ve.len() + m.len()
    &&& forall|i: int|
        0 <= i < ve.len() ==> {
            &&& (#[trigger] re[i]).0 == ve[i].0
            &&& if has_key(de.subrange(0, n), ve[i].0@) {
                exists|j: int|
                    0 <= j < n && (#[trigger] de[j]).0@ == ve[i].0@ && merged(re[i].1, ve[i].1, de[j].1)
            } else {
                re[i].1 == ve[i].1
            }
        }
    &&& forall|k: int|
        0 <= k < m.len() ==> re[ve.len() + k].0@ == de[#[trigger] m[k]].0@ && json_view(
            re[ve.len() + k].1,
        ) == json_view(de[m[k]].1)
}

/// A deep copy.
pub fn clone_json(v: &JsonValue) -> (r: JsonValue)
    ensures
        json_view(r) == json_view(*v),
    decreases v,
{
    match v {
        JsonValue::Null => JsonValue::Null,
        JsonValue::Bool(b) => JsonValue::Bool(*b),
        JsonValue::Number(n) => JsonValue::Number(n.clone()),
        JsonValue::Str(s) => JsonValue::Str(s.clone()),
        JsonValue::Array(items) => {
            let mut out: Vec<JsonValue> = Vec::new();
            let mut i: usize = 0;
            while i < items.len()
                invariant
                    *v == JsonValue::Array(*items),
                    i <= items@.len(),
                    out@.len() == i,
                    forall|k: int| 0 <= k < i ==> json_view(#[trigger] out@[k]) == json_view(items@[k]),
                decreases items@.len() - i,
            {
                proof {
                    assert(decreases_to!(*v => (*v)->Array_0));
                    assert(decreases_to!((*v)->Array_0 => (*v)->Array_0@));
                    assert(decreases_to!((*v)->Array_0@ => (*v)->Array_0@[i as int]));
                }
                let c = clone_json(&items[i]);
                out.push(c);
                i = i + 1;
            }
            let r = JsonValue::Array(out);
            assert(json_view(r)->Array_0 =~= json_view(*v)->Array_0);
            r
        },
        JsonValue::Object(es) => {
            let mut out: Vec<(String, JsonValue)> = Vec::new();
            let mut i: usize = 0;
            while i < es.len()
                invariant
                    *v == JsonValue::Object(*es),
                    i <= es@.len(),
                    out@.len() == i,
                    forall|k: int|
                        0 <= k < i ==> (#[trigger] out@[k]).0@ == es@[k].0@ && json_view(out@[k].1)
                            == json_view(es@[k].1),
                decreases es@.len() - i,
            {
                proof {
                    assert(decreases_to!(*v => (*v)->Object_0));
                    assert(decreases_to!((*v)->Object_0 => (*v)->Object_0@));
                    assert(decreases_to!((*v)->Object_0@ => (*v)->Object_0@[i as int]));
                    assert(decreases_to!((*v)->Object_0@[i as int] => (*v)->Object_0@[i as int].1));
                }
                let k = es[i].0.clone();
                let c = clone_json(&es[i].1);
                out.push((k, c));
                i = i + 1;
            }
            let r = JsonValue::Object(out);
            assert(json_view(r)->Object_0 =~= json_view(*v)->Object_0);
            r
        },
    }
}

/// Position of the member with key `k`, if there is one.
pub fn find_key(es: &Vec<(String, JsonValue)>, k: &String) -> (r: Option<usize>)
    ensures
        match r {
            Some(i) => i < es@.len() && es@[i as int].0@ == k@,
            None => !has_key(es@, k@),
        },
{
    let mut i: usize = 0;
    while i < es.len()
        invariant
            i <= es@.len(),
            forall|j: int| 0 <= j < i ==> (#[trigger] es@[j]).0@ != k@,
        decreases es@.len() - i,
    {
        if str_eq(es[i].0.as_str(), k.as_str()) {
            return Some(i);
        }
        i = i + 1;
    }
    None
}

proof fn lemma_missing_step(ve: Seq<(String, JsonValue)>, de: Seq<(String, JsonValue)>, n: int)
    requires
        0 <= n,
    ensures
        missing(ve, de, n + 1) == (if has_key(ve, de[n].0@) {
            missing(ve, de, n)
        } else {
            missing(ve, de, n).push(n)
        }),
{
}

proof fn lemma_missing_bounds(ve: Seq<(String, JsonValue)>, de: Seq<(String, JsonValue)>, n: int)
    requires
        0 <= n,
    ensures
        forall|k: int|
            0 <= k < missing(ve, de, n).len() ==> 0 <= #[trigger] missing(ve, de, n)[k] < n
                && !has_key(ve, de[missing(ve, de, n)[k]].0@),
        forall|a: int, b: int|
            0 <= a < b < missing(ve, de, n).len() ==> #[trigger] missing(ve, de, n)[a] < #[trigger] missing(ve, de, n)[b],
        forall|j: int| 0 <= j < n && !has_key(ve, de[j].0@) ==> #[trigger] missing(ve, de, n).contains(j),
    decreases n,
{
    if n > 0 {
        lemma_missing_bounds(ve, de, n - 1);
        lemma_missing_step(ve, de, n - 1);
        let p = missing(ve, de, n - 1);
        assert forall|j: int| 0 <= j < n && !has_key(ve, de[j].0@) implies #[trigger] missing(ve, de, n).contains(j) by {
            if j < n - 1 {
                assert(p.contains(j));
                let k = choose|k: int| 0 <= k < p.len() && p[k] == j;
                assert(missing(ve, de, n)[k] == j);
            } else {
                assert(missing(ve, de, n)[p.len() as int] == j);
            }
        }
    }
}

/// Fills in, recursively, the object members of `defaults` that `value`
/// lacks; anything that is not an object on both sides is left as it is.
pub fn merge_missing_json(value: &mut JsonValue, defaults: &JsonValue)
    requires
        json_wf(*old(value)),
        json_wf(*defaults),
    ensures
        merged(*final(value), *old(value), *defaults),
        json_wf(*final(value)),
    decreases defaults,
{
    let de = match defaults {
        JsonValue::Object(de) => de,
        _ => {
            return;
        },
    };
    let mut taken = JsonValue::Null;
    std::mem::swap(&mut taken, value);
    let ve = match taken {
        JsonValue::Object(ve) => ve,
        other => {
            *value = other;
            return;
        },
    };
    let ghost ve0 = ve@;
    proof {
        lemma_object_wf(*de);
        lemma_object_wf(ve);
    }
    let mut cur = ve;
    assert(de@.subrange(0, 0) =~= Seq::<(String, JsonValue)>::empty());
    let mut j: usize = 0;
    while j < de.len()
        invariant
            j <= de@.len(),
            *defaults == JsonValue::Object(*de),
            json_wf(JsonValue::Object(*de)),
            keys_unique(de@),
            forall|i: int| 0 <= i < de@.len() ==> json_wf(#[trigger] de@[i].1),
            keys_unique(ve0),
            forall|i: int| 0 <= i < ve0.len() ==> json_wf(#[trigger] ve0[i].1),
            merged_prefix(cur@, ve0, de@, j as int),
            keys_unique(cur@),
            forall|i: int| 0 <= i < cur@.len() ==> json_wf(#[trigger] cur@[i].1),
        decreases de@.len() - j,
    {
        let ghost before = cur@;
        let dk = &de[j].0;
        let dv = &de[j].1;
        assert(json_wf(*dv));
        proof {
            lemma_missing_step(ve0, de@, j as int);
            lemma_missing_bounds(ve0, de@, j as int);
            assert(de@.subrange(0, j + 1) =~= de@.subrange(0, j as int).push(de@[j as int]));
        }
        match find_key(&cur, dk) {
            Some(i) => {
                proof {
                    // the key is one of the members it started with
                    if i >= ve0.len() {
                        let k = (i - ve0.len()) as int;
                        let jj = missing(ve0, de@, j as int)[k];
                        assert(cur@[i as int].0@ == de@[jj].0@);
                        assert(jj < j);
                        assert((#[trigger] de@[jj]).0@ == de@[j as int].0@);
                        assert(false);
                    }
                    assert(has_key(ve0, dk@)) by {
                        assert(ve0[i as int].0@ == dk@);
                    }
                    // no earlier default has this key
                    assert(!has_key(de@.subrange(0, j as int), dk@)) by {
                        if has_key(de@.subrange(0, j as int), dk@) {
                            let w = choose|w: int| 0 <= w < j && (#[trigger] de@.subrange(0, j as int)[w]).0@ == dk@;
                            assert(de@[w].0@ == de@[j as int].0@);
                        }
                    }
                }
                let (k, mut v) = cur.remove(i);
                merge_missing_json(&mut v, dv);
                cur.insert(i, (k, v));
                proof {
                    assert(cur@ == before.update(i as int, cur@[i as int]));
                    assert forall|x: int| 0 <= x < ve0.len() implies {
                        &&& (#[trigger] cur@[x]).0 == ve0[x].0
                        &&& if has_key(de@.subrange(0, j + 1), ve0[x].0@) {
                            exists|y: int|
                                0 <= y < j + 1 && (#[trigger] de@[y]).0@ == ve0[x].0@ && merged(
                                    cur@[x].1,
                                    ve0[x].1,
                                    de@[y].1,
                                )
                        } else {
                            cur@[x].1 == ve0[x].1
                        }
                    } by {
                        if x == i {
                            assert(de@.subrange(0, j + 1)[j as int].0@ == ve0[x].0@);
                            assert(de@[j as int].0@ == ve0[x].0@);
                        } else {
                            assert(ve0[x].0@ != ve0[i as int].0@);
                            if has_key(de@.subrange(0, j + 1), ve0[x].0@) {
                                let w = choose|w: int| 0 <= w < j + 1 && (#[trigger] de@.subrange(0, j + 1)[w]).0@ == ve0[x].0@;
                                assert(w != j);
                                assert(de@.subrange(0, j as int)[w] == de@[w]);
                                assert(has_key(de@.subrange(0, j as int), ve0[x].0@));
                            } else {
                                if has_key(de@.subrange(0, j as int), ve0[x].0@) {
                                    let w = choose|w: int| 0 <= w < j && (#[trigger] de@.subrange(0, j as int)[w]).0@ == ve0[x].0@;
                                    assert(de@.subrange(0, j + 1)[w] == de@[w]);
                                }
                            }
                        }
                    }
                    assert(merged_prefix(cur@, ve0, de@, j + 1));
                }
            },
            None => {
                let k = dk.clone();
                let v = clone_json(dv);
                cur.push((k, v));
                proof {
                    assert(!has_key(ve0, dk@)) by {
                        if has_key(ve0, dk@) {
                            let w = choose|w: int| 0 <= w < ve0.len() && (#[trigger] ve0[w]).0@ == dk@;
                            assert(before[w].0 == ve0[w].0);
                        }
                    }
                    assert forall|x: int| 0 <= x < ve0.len() implies {
                        &&& (#[trigger] cur@[x]).0 == ve0[x].0
                        &&& if has_key(de@.subrange(0, j + 1), ve0[x].0@) {
                            exists|y: int|
                                0 <= y < j + 1 && (#[trigger] de@[y]).0@ == ve0[x].0@ && merged(
                                    cur@[x].1,
                                    ve0[x].1,
                                    de@[y].1,
                                )
                        } else {
                            cur@[x].1 == ve0[x].1
                        }
                    } by {
                        assert(cur@[x] == before[x]);
                        assert(ve0[x].0@ != dk@);
                        if has_key(de@.subrange(0, j + 1), ve0[x].0@) {
                            let w = choose|w: int| 0 <= w < j + 1 && (#[trigger] de@.subrange(0, j + 1)[w]).0@ == ve0[x].0@;
                            assert(w != j);
                            assert(de@.subrange(0, j as int)[w] == de@[w]);
                            assert(has_key(de@.subrange(0, j as int), ve0[x].0@));
                        } else {
                            if has_key(de@.subrange(0, j as int), ve0[x].0@) {
                                let w = choose|w: int| 0 <= w < j && (#[trigger] de@.subrange(0, j as int)[w]).0@ == ve0[x].0@;
                                assert(de@.subrange(0, j + 1)[w] == de@[w]);
                            }
                        }
                    }
                    let m = missing(ve0, de@, j as int);
                    assert forall|q: int| 0 <= q < m.len() + 1 implies cur@[ve0.len() + q].0@ == de@[#[trigger] missing(ve0, de@, j + 1)[q]].0@
                        && json_view(cur@[ve0.len() + q].1) == json_view(de@[missing(ve0, de@, j + 1)[q]].1) by {
                        if q < m.len() {
                            assert(missing(ve0, de@, j + 1)[q] == m[q]);
                        } else {
                            assert(missing(ve0, de@, j + 1)[q] == j);
                        }
                    }
                    assert(merged_prefix(cur@, ve0, de@, j + 1));
                    // the new key is new
                    assert forall|a: int, b: int| 0 <= a < b < cur@.len() implies (#[trigger] cur@[a]).0@ != (#[trigger] cur@[b]).0@ by {
                        if b == cur@.len() - 1 {
                            if a < ve0.len() {
                                assert(cur@[a].0 == ve0[a].0);
                            } else {
                                let qa = a - ve0.len();
                                let ja = m[qa];
                                assert(cur@[a].0@ == de@[ja].0@);
                                assert(ja < j);
                                assert((#[trigger] de@[ja]).0@ != de@[j as int].0@);
                            }
                        } else {
                            assert(cur@[a] == before[a]);
                            assert(cur@[b] == before[b]);
                        }
                    }
                }
            },
        }
        j = j + 1;
    }
    proof {
        assert(de@.subrange(0, de@.len() as int) =~= de@);
        lemma_object_wf(cur);
    }
    *value = JsonValue::Object(cur);
}


// ---------------------------------------------------------------------------
// Object members
// ---------------------------------------------------------------------------

/// The members of an object as (key, document) pairs.
pub open spec fn members_view(es: Seq<(String, JsonValue)>) -> Seq<(Seq<char>, Json)> {
    es.map_values(|e: (String, JsonValue)| (e.0@, json_view(e.1)))
}

pub proof fn lemma_object_view(es: Vec<(String, JsonValue)>)
    ensures
        json_view(JsonValue::Object(es)) == Json::Object(members_view(es@)),
{
    assert(json_view(JsonValue::Object(es))->Object_0 =~= members_view(es@));
}

/// The items of an array as documents.
pub open spec fn items_view(items: Seq<JsonValue>) -> Seq<Json> {
    items.map_values(|v: JsonValue| json_view(v))
}

pub proof fn lemma_array_view(items: Vec<JsonValue>)
    ensures
        json_view(JsonValue::Array(items)) == Json::Array(items_view(items@)),
{
    assert(json_view(JsonValue::Array(items))->Array_0 =~= items_view(items@));
}

/// `Map::insert` on an object's members: the value of an existing key is
/// replaced in place, a new key is added at the end.
pub open spec fn insert_member(es: Seq<(Seq<char>, Json)>, k: Seq<char>, v: Json) -> Seq<(Seq<char>, Json)> {
    if exists|i: int| 0 <= i < es.len() && (#[trigger] es[i]).0 == k {
        let i = choose|i: int| 0 <= i < es.len() && (#[trigger] es[i]).0 == k;
        es.update(i, (k, v))
    } else {
        es.push((k, v))
    }
}

/// Sets member `key` of an object to `value`.
pub fn object_insert(es: &mut Vec<(String, JsonValue)>, key: String, value: JsonValue)
    requires
        keys_unique(old(es)@),
    ensures
        keys_unique(final(es)@),
        members_view(final(es)@) == insert_member(members_view(old(es)@), key@, json_view(value)),
{
    let ghost before = members_view(es@);
    match find_key(es, &key) {
        Some(i) => {
            proof {
                assert(before[i as int].0 == key@);
                let j = choose|j: int| 0 <= j < before.len() && (#[trigger] before[j]).0 == key@;
                assert(es@[j].0@ == key@);
                if j != i as int {
                    if j < i {
                        assert(es@[j].0@ != es@[i as int].0@);
                    } else {
                        assert(es@[i as int].0@ != es@[j].0@);
                    }
                }
            }
            es.set(i, (key, value));
            assert(members_view(es@) =~= insert_member(before, es@[i as int].0@, json_view(value)));
        },
        None => {
            proof {
                if exists|i: int| 0 <= i < before.len() && (#[trigger] before[i]).0 == key@ {
                    let i = choose|i: int| 0 <= i < before.len() && (#[trigger] before[i]).0 == key@;
                    assert(es@[i].0@ == key@);
                }
            }
            let ghost old_es = es@;
            es.push((key, value));
            assert(members_view(es@) =~= before.push((es@.last().0@, json_view(value))));
            assert forall|a: int, b: int| 0 <= a < b < es@.len() implies (#[trigger] es@[a]).0@ != (
            #[trigger] es@[b]).0@ by {
                if b == old_es.len() {
                    assert(es@[a] == old_es[a]);
                } else {
                    assert(es@[a] == old_es[a] && es@[b] == old_es[b]);
                }
            }
        },
    }
}

// ---------------------------------------------------------------------------
// Lookup
// ---------------------------------------------------------------------------

/// The first member of an object with key `k`.
pub open spec fn member(es: Seq<(String, JsonValue)>, k: Seq<char>) -> Option<JsonValue> {
    if has_key(es, k) {
        Some(es[choose|i: int| 0 <= i < es.len() && (#[trigger] es[i]).0@ == k && forall|j: int| 0 <= j < i ==> (#[trigger] es[j]).0@ != k].1)
    } else {
        None
    }
}

/// `v` is the value of the first member of `es` with key `k`.
pub open spec fn is_first_member(es: Seq<(String, JsonValue)>, k: Seq<char>, v: JsonValue) -> bool {
    exists|i: int|
        0 <= i < es.len() && (#[trigger] es[i]).0@ == k && es[i].1 == v && forall|j: int|
            0 <= j < i ==> (#[trigger] es[j]).0@ != k
}

impl JsonValue {
    /// The member `key` of an object; `None` for a missing key or a value
    /// that is not an object.
    pub fn get(&self, key: &str) -> (r: Option<&JsonValue>)
        ensures
            match r {
                Some(v) => self is Object && is_first_member(self->Object_0@, key@, *v),
                None => !(self is Object) || !has_key(self->Object_0@, key@),
            },
    {
        match self {
            JsonValue::Object(es) => {
                let mut i: usize = 0;
                while i < es.len()
                    invariant
                        *self == JsonValue::Object(*es),
                        i <= es@.len(),
                        forall|j: int| 0 <= j < i ==> (#[trigger] es@[j]).0@ != key@,
                    decreases es@.len() - i,
                {
                    if str_eq(es[i].0.as_str(), key) {
                        let r = &es[i].1;
                        assert(es@[i as int].0@ == key@);
                        assert(es@[i as int].1 == *r);
                        return Some(r);
                    }
                    i = i + 1;
                }
                None
            },
            _ => None,
        }
    }
}

// ---------------------------------------------------------------------------
// Redaction
// ---------------------------------------------------------------------------

/// Keys whose values identify the machine or the device: any key that,
/// lower-cased, contains `path` or `endpoint_id` or ends with `_id`.
pub open spec fn sensitive_key(k: Seq<char>) -> bool {
    let l = lower_seq(k);
    has_infix(l, "path"@) || has_infix(l, "endpoint_id"@) || ends_with_seq(l, "_id"@)
}

pub open spec fn redact_doc(j: Json) -> Json
    decreases j,
{
    match j {
        Json::Array(items) => Json::Array(
            Seq::new(
                items.len(),
                |i: int|
                    if 0 <= i < items.len() {
                        redact_doc(items[i])
                    } else {
                        Json::Null
                    },
            ),
        ),
        Json::Object(es) => Json::Object(
            Seq::new(
                es.len(),
                |i: int|
                    if 0 <= i < es.len() {
                        if sensitive_key(es[i].0) {
                            (es[i].0, Json::Str("<redacted>"@))
                        } else {
                            (es[i].0, redact_doc(es[i].1))
                        }
                    } else {
                        (Seq::empty(), Json::Null)
                    },
            ),
        ),
        _ => j,
    }
}

fn is_sensitive_key(k: &String) -> (r: bool)
    ensures
        r == sensitive_key(k@),
{
    let l = lower_vec(&char_vec(k.as_str()));
    contains_vec(&l, &char_vec("path")) || contains_vec(&l, &char_vec("endpoint_id")) || ends_with_vec(
        &l,
        &char_vec("_id"),
    )
}

/// The document with every sensitive member replaced by `"<redacted>"`,
/// at any depth.
pub fn redact_json_value(value: &JsonValue) -> (r: JsonValue)
    ensures
        json_view(r) == redact_doc(json_view(*value)),
    decreases value,
{
    match value {
        JsonValue::Array(items) => {
            let mut out: Vec<JsonValue> = Vec::new();
            let mut i: usize = 0;
            while i < items.len()
                invariant
                    *value == JsonValue::Array(*items),
                    i <= items@.len(),
                    out@.len() == i,
                    forall|k: int|
                        0 <= k < i ==> json_view(#[trigger] out@[k]) == redact_doc(json_view(items@[k])),
                decreases items@.len() - i,
            {
                proof {
                    assert(decreases_to!(*value => (*value)->Array_0));
                    assert(decreases_to!((*value)->Array_0 => (*value)->Array_0@));
                    assert(decreases_to!((*value)->Array_0@ => (*value)->Array_0@[i as int]));
                }
                out.push(redact_json_value(&items[i]));
                i = i + 1;
            }
            let r = JsonValue::Array(out);
            assert(json_view(r)->Array_0 =~= redact_doc(json_view(*value))->Array_0);
            r
        },
        JsonValue::Object(es) => {
            let mut out: Vec<(String, JsonValue)> = Vec::new();
            let mut i: usize = 0;
            while i < es.len()
                invariant
                    *value == JsonValue::Object(*es),
                    i <= es@.len(),
                    out@.len() == i,
                    forall|k: int|
                        0 <= k < i ==> (#[trigger] out@[k]).0@ == es@[k].0@ && json_view(out@[k].1) == (
                        if sensitive_key(es@[k].0@) {
                            Json::Str("<redacted>"@)
                        } else {
                            redact_doc(json_view(es@[k].1))
                        }),
                decreases es@.len() - i,
            {
                proof {
                    assert(decreases_to!(*value => (*value)->Object_0));
                    assert(decreases_to!((*value)->Object_0 => (*value)->Object_0@));
                    assert(decreases_to!((*value)->Object_0@ => (*value)->Object_0@[i as int]));
                    assert(decreases_to!((*value)->Object_0@[i as int] => (*value)->Object_0@[i as int].1));
                }
                let k = es[i].0.clone();
                let v = if is_sensitive_key(&es[i].0) {
                    JsonValue::Str(owned("<redacted>"))
                } else {
                    redact_json_value(&es[i].1)
                };
                out.push((k, v));
                i = i + 1;
            }
            let r = JsonValue::Object(out);
            assert(json_view(r)->Object_0 =~= redact_doc(json_view(*value))->Object_0);
            r
        },
        other => clone_json(other),
    }
}

/// Redacting twice gives what redacting once gives.
pub proof fn law_redaction_is_idempotent(j: Json)
    ensures
        redact_doc(redact_doc(j)) == redact_doc(j),
    decreases j,
{
    match j {
        Json::Array(items) => {
            let once = redact_doc(j)->Array_0;
            assert forall|i: int| 0 <= i < items.len() implies #[trigger] redact_doc(once[i])
                == once[i] by {
                assert(decreases_to!(j => items));
                assert(decreases_to!(items => items[i]));
                law_redaction_is_idempotent(items[i]);
            }
            assert(redact_doc(j) == Json::Array(once));
            let twice = redact_doc(Json::Array(once))->Array_0;
            assert(twice.len() == once.len());
            assert forall|i: int| 0 <= i < once.len() implies twice[i] == once[i] by {
                assert(redact_doc(once[i]) == once[i]);
            }
            assert(twice =~= once);
        },
        Json::Object(es) => {
            let once = redact_doc(j)->Object_0;
            assert forall|i: int| 0 <= i < es.len() implies (if sensitive_key(#[trigger] once[i].0) {
                (once[i].0, Json::Str("<redacted>"@))
            } else {
                (once[i].0, redact_doc(once[i].1))
            }) == once[i] by {
                assert(decreases_to!(j => es));
                assert(decreases_to!(es => es[i]));
                assert(decreases_to!(es[i] => es[i].1));
                law_redaction_is_idempotent(es[i].1);
            }
            assert(redact_doc(redact_doc(j))->Object_0 =~= once);
        },
        _ => {},
    }
}

} // verus!
