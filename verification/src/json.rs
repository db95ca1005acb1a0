//! A JSON document model.
//!
//! `Json` is the executable tree; `JsonV` is its mathematical view, where
//! strings are character sequences. Numbers keep their JSON text, so no
//! floating point is involved. Objects keep their members in order; a key
//! names the first member that carries it.
use vstd::prelude::*;



verus! {

/// A JSON value.
pub enum Json {
    Null,
    Bool(bool),
    /// A number, kept as its JSON text (for example `42` or `0.7`).
    Number(String),
    Str(String),
    Array(Vec<Json>),
    Object(Vec<(String, Json)>),
}

/// The mathematical view of a JSON value.
pub enum JsonV {
    Null,
    Bool(bool),
    Number(Seq<char>),
    Str(Seq<char>),
    Array(Seq<JsonV>),
    Object(Seq<(Seq<char>, JsonV)>),
}

pub open spec fn view_json(j: Json) -> JsonV
    decreases j, 0nat,
{
    match j {
        Json::Null => JsonV::Null,
        Json::Bool(b) => JsonV::Bool(b),
        Json::Number(n) => JsonV::Number(n@),
        Json::Str(s) => JsonV::Str(s@),
        Json::Array(v) => JsonV::Array(view_items(v@)),
        Json::Object(e) => JsonV::Object(view_entries(e@)),
    }
}

pub open spec fn view_items(s: Seq<Json>) -> Seq<JsonV>
    decreases s, s.len(),
{
    Seq::new(s.len(), |i: int| if 0 <= i < s.len() { view_json(s[i]) } else { JsonV::Null })
}

pub open spec fn view_entries(s: Seq<(String, Json)>) -> Seq<(Seq<char>, JsonV)>
    decreases s, s.len(),
{
    Seq::new(
        s.len(),
        |i: int|
            if 0 <= i < s.len() {
                (s[i].0@, view_json(s[i].1))
            } else {
                (Seq::empty(), JsonV::Null)
            },
    )
}

impl View for Json {
    type V = JsonV;

    open spec fn view(&self) -> JsonV {
        view_json(*self)
    }
}

// ---------------------------------------------------------------------------
// Object members

/// `i` is the first position of `key` among the members `e`.
pub open spec fn first_key_at(e: Seq<(Seq<char>, JsonV)>, key: Seq<char>, i: int) -> bool {
    &&& 0 <= i < e.len()
    &&& e[i].0 == key
    &&& forall|j: int| 0 <= j < i ==> e[j].0 != key
}

/// The members `e` carry `key`.
pub open spec fn has_key(e: Seq<(Seq<char>, JsonV)>, key: Seq<char>) -> bool {
    exists|i: int| 0 <= i < e.len() && e[i].0 == key
}

/// The position of the first member carrying `key`, or -1.
pub open spec fn key_index(e: Seq<(Seq<char>, JsonV)>, key: Seq<char>) -> int {
    if has_key(e, key) {
        choose|i: int| first_key_at(e, key, i)
    } else {
        -1
    }
}

pub proof fn lemma_key_index(e: Seq<(Seq<char>, JsonV)>, key: Seq<char>)
    ensures
        has_key(e, key) ==> first_key_at(e, key, key_index(e, key)),
        !has_key(e, key) ==> key_index(e, key) == -1,
        forall|i: int| first_key_at(e, key, i) ==> key_index(e, key) == i,
{
    if has_key(e, key) {
        let w = choose|i: int| 0 <= i < e.len() && e[i].0 == key;
        let k = lemma_first_key_exists(e, key, w);
        assert(first_key_at(e, key, k));
        let c = choose|i: int| first_key_at(e, key, i);
        assert(first_key_at(e, key, c));
        assert forall|i: int| first_key_at(e, key, i) implies key_index(e, key) == i by {
            if i < c {
                assert(e[i].0 != key);
            }
            if c < i {
                assert(e[c].0 != key);
            }
        }
    }
}

proof fn lemma_first_key_exists(e: Seq<(Seq<char>, JsonV)>, key: Seq<char>, w: int) -> (k: int)
    requires
        0 <= w < e.len(),
        e[w].0 == key,
    ensures
        first_key_at(e, key, k),
    decreases w,
{
    if exists|j: int| 0 <= j < w && e[j].0 == key {
        let j = choose|j: int| 0 <= j < w && e[j].0 == key;
        lemma_first_key_exists(e, key, j)
    } else {
        w
    }
}

/// The value of member `key` of an object view, if the object has one.
pub open spec fn get_v(j: JsonV, key: Seq<char>) -> Option<JsonV> {
    match j {
        JsonV::Object(e) => if has_key(e, key) {
            Some(e[key_index(e, key)].1)
        } else {
            None
        },
        _ => None,
    }
}

/// The text of member `key` when it is a string.
pub open spec fn get_str_v(j: JsonV, key: Seq<char>) -> Option<Seq<char>> {
    match get_v(j, key) {
        Some(JsonV::Str(s)) => Some(s),
        _ => None,
    }
}

/// The boolean of member `key` when it is a boolean.
pub open spec fn get_bool_v(j: JsonV, key: Seq<char>) -> Option<bool> {
    match get_v(j, key) {
        Some(JsonV::Bool(b)) => Some(b),
        _ => None,
    }
}

/// The items of member `key` when it is an array.
pub open spec fn get_array_v(j: JsonV, key: Seq<char>) -> Option<Seq<JsonV>> {
    match get_v(j, key) {
        Some(JsonV::Array(a)) => Some(a),
        _ => None,
    }
}

/// Members `e` with `key` set to `v`: the first member carrying `key` gets
/// the new value, or a new member is appended.
pub open spec fn set_entries(e: Seq<(Seq<char>, JsonV)>, key: Seq<char>, v: JsonV) -> Seq<
    (Seq<char>, JsonV),
> {
    if has_key(e, key) {
        e.update(key_index(e, key), (key, v))
    } else {
        e.push((key, v))
    }
}

/// Object view `j` with member `key` set to `v` (a null becomes an object).
pub open spec fn set_v(j: JsonV, key: Seq<char>, v: JsonV) -> JsonV {
    match j {
        JsonV::Object(e) => JsonV::Object(set_entries(e, key, v)),
        _ => JsonV::Object(seq![(key, v)]),
    }
}

/// Members `e` without those carrying `key`.
pub open spec fn remove_entries(e: Seq<(Seq<char>, JsonV)>, key: Seq<char>) -> Seq<
    (Seq<char>, JsonV),
>
    decreases e.len(),
{
    if e.len() == 0 {
        e
    } else {
        let r = remove_entries(e.drop_last(), key);
        if e.last().0 == key {
            r
        } else {
            r.push(e.last())
        }
    }
}

/// Object view `j` without member `key`; other values are unchanged.
pub open spec fn remove_v(j: JsonV, key: Seq<char>) -> JsonV {
    match j {
        JsonV::Object(e) => JsonV::Object(remove_entries(e, key)),
        _ => j,
    }
}

pub open spec fn is_object_v(j: JsonV) -> bool {
    j is Object
}

/// The members of an object view (empty for other values).
pub open spec fn members_v(j: JsonV) -> Seq<(Seq<char>, JsonV)> {
    match j {
        JsonV::Object(e) => e,
        _ => Seq::empty(),
    }
}

/// An object view from members.
pub open spec fn obj_v(e: Seq<(Seq<char>, JsonV)>) -> JsonV {
    JsonV::Object(e)
}


/// Reading a member after setting one: the set member gives the new value,
/// every other member is unchanged.
pub proof fn lemma_get_set(j: JsonV, k: Seq<char>, v: JsonV, k2: Seq<char>)
    requires
        j is Object || j is Null,
    ensures
        get_v(set_v(j, k, v), k2) == (if k2 == k {
            Some(v)
        } else {
            get_v(j, k2)
        }),
{
    match j {
        JsonV::Object(e) => {
            let n = set_entries(e, k, v);
            lemma_key_index(e, k);
            lemma_key_index(e, k2);
            lemma_key_index(n, k2);
            if has_key(e, k) {
                let p = key_index(e, k);
                assert(n.len() == e.len());
                assert forall|i: int| 0 <= i < n.len() && i != p implies n[i] == e[i] by {}
                assert(n[p] == (k, v));
                if k2 == k {
                    assert(first_key_at(n, k2, p));
                } else {
                    assert forall|i: int| 0 <= i < n.len() implies (n[i].0 == k2 <==> e[i].0 == k2)
                        by {
                        if i == p {
                        } else {
                        }
                    }
                    if has_key(e, k2) {
                        let q = key_index(e, k2);
                        assert(q != p);
                        assert(first_key_at(n, k2, q));
                    } else {
                        assert(!has_key(n, k2));
                    }
                }
            } else {
                assert(n.len() == e.len() + 1);
                assert(n[e.len() as int] == (k, v));
                if k2 == k {
                    assert(first_key_at(n, k2, e.len() as int));
                } else {
                    if has_key(e, k2) {
                        let q = key_index(e, k2);
                        assert(first_key_at(n, k2, q));
                    } else {
                        assert forall|i: int| 0 <= i < n.len() implies n[i].0 != k2 by {
                            if i < e.len() {
                            }
                        }
                        assert(!has_key(n, k2));
                    }
                }
            }
        },
        _ => {
            let n = seq![(k, v)];
            lemma_key_index(n, k2);
            if k2 == k {
                assert(first_key_at(n, k2, 0));
            } else {
                assert(!has_key(n, k2));
            }
        },
    }
}

/// Setting a member keeps (or makes) an object.
pub proof fn lemma_set_is_object(j: JsonV, k: Seq<char>, v: JsonV)
    ensures
        set_v(j, k, v) is Object,
{
}

/// Removing a member: that member is gone, every other member is unchanged.
pub proof fn lemma_get_remove(j: JsonV, k: Seq<char>, k2: Seq<char>)
    ensures
        get_v(remove_v(j, k), k2) == (if k2 == k && j is Object {
            None
        } else {
            get_v(j, k2)
        }),
{
    match j {
        JsonV::Object(e) => {
            lemma_remove_entries_get(e, k, k2);
        },
        _ => {},
    }
}

proof fn lemma_remove_entries_get(e: Seq<(Seq<char>, JsonV)>, k: Seq<char>, k2: Seq<char>)
    ensures
        get_v(JsonV::Object(remove_entries(e, k)), k2) == (if k2 == k {
            None
        } else {
            get_v(JsonV::Object(e), k2)
        }),
    decreases e.len(),
{
    let r = remove_entries(e, k);
    lemma_key_index(r, k2);
    lemma_key_index(e, k2);
    if e.len() == 0 {
        assert(!has_key(r, k2));
    } else {
        let d = e.drop_last();
        let rd = remove_entries(d, k);
        assert(forall|i: int| 0 <= i < d.len() ==> e[i] == d[i]);
        lemma_remove_entries_get(d, k, k2);
        lemma_key_index(rd, k2);
        lemma_key_index(d, k2);
        if k2 == k {
            assert forall|i: int| 0 <= i < r.len() implies r[i].0 != k2 by {
                if e.last().0 == k {
                } else {
                    if i < rd.len() {
                        assert(r[i] == rd[i]);
                        if rd[i].0 == k2 {
                            assert(has_key(rd, k2));
                        }
                    }
                }
            }
            assert(!has_key(r, k2));
        } else {
            if e.last().0 == k {
                assert(r == rd);
                if has_key(d, k2) {
                    let q = key_index(d, k2);
                    assert(first_key_at(e, k2, q));
                } else {
                    assert forall|i: int| 0 <= i < e.len() implies e[i].0 != k2 by {
                        if i < d.len() {
                            assert(e[i] == d[i]);
                        }
                    }
                }
            } else {
                assert(r == rd.push(e.last()));
                if has_key(rd, k2) {
                    let q = key_index(rd, k2);
                    assert(first_key_at(r, k2, q));
                    assert(has_key(d, k2));
                    let q2 = key_index(d, k2);
                    assert(first_key_at(e, k2, q2));
                } else {
                    if has_key(d, k2) {
                        assert(false);
                    }
                    if e.last().0 == k2 {
                        assert(first_key_at(r, k2, rd.len() as int));
                        assert(first_key_at(e, k2, d.len() as int)) by {
                            assert forall|i: int| 0 <= i < d.len() implies e[i].0 != k2 by {
                                assert(e[i] == d[i]);
                            }
                        }
                    } else {
                        assert forall|i: int| 0 <= i < r.len() implies r[i].0 != k2 by {
                            if i < rd.len() {
                                assert(r[i] == rd[i]);
                            }
                        }
                        assert forall|i: int| 0 <= i < e.len() implies e[i].0 != k2 by {
                            if i < d.len() {
                                assert(e[i] == d[i]);
                            }
                        }
                    }
                }
            }
        }
    }
}

/// An object with one member.
pub fn object1(k1: &str, v1: Json) -> (j: Json)
    ensures
        j@ == JsonV::Object(seq![(k1@, v1@)]),
{
    let mut e: Vec<(String, Json)> = Vec::new();
    e.push((k1.to_string(), v1));
    assert(view_entries(e@) =~= seq![(k1@, v1@)]);
    Json::Object(e)
}

/// An object with two members, in this order.
pub fn object2(k1: &str, v1: Json, k2: &str, v2: Json) -> (j: Json)
    ensures
        j@ == JsonV::Object(seq![(k1@, v1@), (k2@, v2@)]),
{
    let mut e: Vec<(String, Json)> = Vec::new();
    e.push((k1.to_string(), v1));
    e.push((k2.to_string(), v2));
    assert(view_entries(e@) =~= seq![(k1@, v1@), (k2@, v2@)]);
    Json::Object(e)
}

/// An object with three members, in this order.
pub fn object3(k1: &str, v1: Json, k2: &str, v2: Json, k3: &str, v3: Json) -> (j: Json)
    ensures
        j@ == JsonV::Object(seq![(k1@, v1@), (k2@, v2@), (k3@, v3@)]),
{
    let mut e: Vec<(String, Json)> = Vec::new();
    e.push((k1.to_string(), v1));
    e.push((k2.to_string(), v2));
    e.push((k3.to_string(), v3));
    assert(view_entries(e@) =~= seq![(k1@, v1@), (k2@, v2@), (k3@, v3@)]);
    Json::Object(e)
}

/// The member `key` of `j` copied, or null.
pub fn get_or_null(j: &Json, key: &str) -> (r: Json)
    ensures
        r@ == (match get_v(j@, key@) {
            Some(v) => v,
            None => JsonV::Null,
        }),
{
    match j.get(key) {
        Some(v) => deep_clone(v),
        None => Json::Null,
    }
}

/// The characters are all ASCII digits.
pub open spec fn all_digits(s: Seq<char>) -> bool {
    forall|i: int| 0 <= i < s.len() ==> '0' <= #[trigger] s[i] <= '9'
}

/// The value of a string of decimal digits.
pub open spec fn digits_value(s: Seq<char>) -> nat
    decreases s.len(),
{
    if s.len() == 0 {
        0
    } else {
        digits_value(s.drop_last()) * 10 + ((s.last() as nat) - 48) as nat
    }
}

/// The value of a number that is a non-negative integer fitting in `u64`
/// (the numbers `serde_json` reads as `u64`).
pub open spec fn number_u64_v(j: JsonV) -> Option<u64> {
    match j {
        JsonV::Number(t) => if t.len() > 0 && all_digits(t) && digits_value(t) <= u64::MAX {
            Some(digits_value(t) as u64)
        } else {
            None
        },
        _ => None,
    }
}

/// The value of a number that is an integer fitting in `i64` (the numbers
/// `serde_json` reads as `i64`): digits, or `-` and digits.
pub open spec fn number_i64_v(j: JsonV) -> Option<i64> {
    match j {
        JsonV::Number(t) => if t.len() > 0 && all_digits(t) && digits_value(t) <= i64::MAX {
            Some(digits_value(t) as i64)
        } else if t.len() > 1 && t[0] == '-' && all_digits(t.skip(1)) && digits_value(t.skip(1))
            <= 0x8000_0000_0000_0000 {
            Some((0 - digits_value(t.skip(1))) as i64)
        } else {
            None
        },
        _ => None,
    }
}

/// A number written in decimal.
pub fn number_of_u64(n: u64) -> (j: Json)
    ensures
        j@ == JsonV::Number(crate::text::decimal_seq(n as nat)),
{
    Json::Number(crate::text::u64_decimal(n))
}

/// A copy of `j` with the same view.
pub fn deep_clone(j: &Json) -> (r: Json)
    ensures
        r@ == j@,
    decreases j, 0nat,
{
    match j {
        Json::Null => Json::Null,
        Json::Bool(b) => Json::Bool(*b),
        Json::Number(n) => Json::Number(n.clone()),
        Json::Str(s) => Json::Str(s.clone()),
        Json::Array(items) => Json::Array(clone_items(items)),
        Json::Object(e) => Json::Object(clone_entries(e)),
    }
}

/// Copies of the given items.
pub fn clone_items(items: &Vec<Json>) -> (r: Vec<Json>)
    ensures
        view_items(r@) == view_items(items@),
    decreases items, 1nat,
{
    let mut out: Vec<Json> = Vec::new();
    let mut i: usize = 0;
    while i < items.len()
        invariant
            i <= items.len(),
            out.len() == i,
            forall|k: int| 0 <= k < i ==> view_json(#[trigger] out@[k]) == view_json(items@[k]),
        decreases items.len() - i,
    {
        assert(decreases_to!(items => items@));
        assert(decreases_to!(items@ => items@[i as int]));
        let c = deep_clone(&items[i]);
        out.push(c);
        i = i + 1;
    }
    assert(view_items(out@) =~= view_items(items@));
    out
}

/// Copies of the given members.
pub fn clone_entries(e: &Vec<(String, Json)>) -> (r: Vec<(String, Json)>)
    ensures
        view_entries(r@) == view_entries(e@),
    decreases e, 1nat,
{
    let mut out: Vec<(String, Json)> = Vec::new();
    let mut i: usize = 0;
    while i < e.len()
        invariant
            i <= e.len(),
            out.len() == i,
            forall|k: int|
                0 <= k < i ==> (#[trigger] out@[k]).0@ == e@[k].0@ && view_json(out@[k].1)
                    == view_json(e@[k].1),
        decreases e.len() - i,
    {
        assert(decreases_to!(e => e@));
        assert(decreases_to!(e@ => e@[i as int]));
        assert(decreases_to!(e@[i as int] => e@[i as int].1));
        let v = deep_clone(&e[i].1);
        let k = e[i].0.clone();
        out.push((k, v));
        i = i + 1;
    }
    assert(view_entries(out@) =~= view_entries(e@));
    out
}

// ---------------------------------------------------------------------------
// Executable operations

pub proof fn lemma_view_entries_index(e: Seq<(String, Json)>, i: int)
    requires
        0 <= i < e.len(),
    ensures
        view_entries(e).len() == e.len(),
        view_entries(e)[i] == (e[i].0@, view_json(e[i].1)),
{
}

pub proof fn lemma_view_entries_push(e: Seq<(String, Json)>, k: String, v: Json)
    ensures
        view_entries(e.push((k, v))) == view_entries(e).push((k@, view_json(v))),
{
    assert(view_entries(e.push((k, v))) =~= view_entries(e).push((k@, view_json(v))));
}

pub proof fn lemma_view_items_push(s: Seq<Json>, v: Json)
    ensures
        view_items(s.push(v)) == view_items(s).push(view_json(v)),
{
    assert(view_items(s.push(v)) =~= view_items(s).push(view_json(v)));
}

pub proof fn lemma_view_items_add(a: Seq<Json>, b: Seq<Json>)
    ensures
        view_items(a + b) == view_items(a) + view_items(b),
{
    assert(view_items(a + b) =~= view_items(a) + view_items(b));
}

pub proof fn lemma_view_items_empty()
    ensures
        view_items(Seq::<Json>::empty()) == Seq::<JsonV>::empty(),
{
    assert(view_items(Seq::<Json>::empty()) =~= Seq::<JsonV>::empty());
}

pub proof fn lemma_view_entries_empty()
    ensures
        view_entries(Seq::<(String, Json)>::empty()) == Seq::<(Seq<char>, JsonV)>::empty(),
{
    assert(view_entries(Seq::<(String, Json)>::empty()) =~= Seq::<(Seq<char>, JsonV)>::empty());
}

/// Position of the first member of `e` whose key is `key`.
pub fn find_key(e: &Vec<(String, Json)>, key: &str) -> (r: Option<usize>)
    ensures
        match r {
            Some(i) => first_key_at(view_entries(e@), key@, i as int),
            None => !has_key(view_entries(e@), key@),
        },
{
    let k = key.to_string();
    let mut i: usize = 0;
    while i < e.len()
        invariant
            i <= e.len(),
            k@ == key@,
            forall|j: int| 0 <= j < i ==> view_entries(e@)[j].0 != key@,
        decreases e.len() - i,
    {
        if e[i].0 == k {
            return Some(i);
        }
        i = i + 1;
    }
    proof {
        assert forall|j: int| 0 <= j < e.len() implies view_entries(e@)[j].0 != key@ by {}
    }
    None
}

impl Json {
    /// An object with no members.
    pub fn empty_object() -> (j: Json)
        ensures
            j@ == JsonV::Object(Seq::empty()),
    {
        let e: Vec<(String, Json)> = Vec::new();
        proof {
            lemma_view_entries_empty();
        }
        Json::Object(e)
    }

    /// A string value.
    pub fn str_of(s: &str) -> (j: Json)
        ensures
            j@ == JsonV::Str(s@),
    {
        Json::Str(s.to_string())
    }

    /// An array of the given items.
    pub fn array_of(v: Vec<Json>) -> (j: Json)
        ensures
            j@ == JsonV::Array(view_items(v@)),
    {
        Json::Array(v)
    }

    pub fn is_object(&self) -> (r: bool)
        ensures
            r == (self@ is Object),
    {
        match self {
            Json::Object(_) => true,
            _ => false,
        }
    }

    pub fn is_null(&self) -> (r: bool)
        ensures
            r == (self@ is Null),
    {
        match self {
            Json::Null => true,
            _ => false,
        }
    }

    pub fn is_array(&self) -> (r: bool)
        ensures
            r == (self@ is Array),
    {
        match self {
            Json::Array(_) => true,
            _ => false,
        }
    }

    pub fn is_string(&self) -> (r: bool)
        ensures
            r == (self@ is Str),
    {
        match self {
            Json::Str(_) => true,
            _ => false,
        }
    }

    /// The text of a string value.
    pub fn as_str(&self) -> (r: Option<&str>)
        ensures
            match self@ {
                JsonV::Str(s) => r is Some && r->0@ == s,
                _ => r is None,
            },
    {
        match self {
            Json::Str(s) => Some(s.as_str()),
            _ => None,
        }
    }

    /// The value of a number that is a non-negative integer fitting in `u64`.
    pub fn as_u64(&self) -> (r: Option<u64>)
        ensures
            r == number_u64_v(self@),
    {
        let t = match self {
            Json::Number(t) => t,
            _ => {
                return None;
            },
        };
        let v = crate::text::chars_of(t.as_str());
        assert(self@ == JsonV::Number(t@));
        if v.len() == 0 {
            return None;
        }
        let mut acc: Option<u64> = Some(0);
        let mut i: usize = 0;
        proof {
            assert(v@.take(0) =~= Seq::<char>::empty());
        }
        while i < v.len()
            invariant
                i <= v.len(),
                v@ == t@,
                self@ == JsonV::Number(t@),
                all_digits(v@.take(i as int)),
                match acc {
                    Some(a) => a == digits_value(v@.take(i as int)),
                    None => digits_value(v@.take(i as int)) > u64::MAX,
                },
            decreases v.len() - i,
        {
            let c = v[i];
            if !('0' <= c && c <= '9') {
                proof {
                    assert(v@[i as int] == c);
                    assert(!('0' <= v@[i as int] <= '9'));
                    assert(!all_digits(t@));
                    assert(self@ == JsonV::Number(t@));
                }
                return None;
            }
            let d = (c as u32 - 48) as u64;
            proof {
                assert(v@.take(i + 1).drop_last() =~= v@.take(i as int));
                assert(v@.take(i + 1).last() == c);
                assert(all_digits(v@.take(i + 1))) by {
                    assert forall|k: int| 0 <= k < i + 1 implies '0' <= #[trigger] v@.take(i + 1)[k]
                        <= '9' by {
                        if k < i {
                            assert(v@.take(i + 1)[k] == v@.take(i as int)[k]);
                        }
                    }
                }
            }
            acc = match acc {
                Some(a) => match a.checked_mul(10) {
                    Some(m) => m.checked_add(d),
                    None => None,
                },
                None => None,
            };
            i = i + 1;
        }
        proof {
            assert(v@.take(v.len() as int) =~= v@);
        }
        acc
    }

    /// The value of a number that is an integer fitting in `i64`.
    pub fn as_i64(&self) -> (r: Option<i64>)
        ensures
            r == number_i64_v(self@),
    {
        let t = match self {
            Json::Number(t) => t,
            _ => {
                return None;
            },
        };
        assert(self@ == JsonV::Number(t@));
        match self.as_u64() {
            Some(u) => {
                if u <= 0x7fff_ffff_ffff_ffff {
                    return Some(u as i64);
                }
                return None;
            },
            None => {},
        }
        let v = crate::text::chars_of(t.as_str());
        if v.len() < 2 || v[0] != '-' {
            return None;
        }
        let rest = Json::Number(crate::text::string_of_range(&v, 1, v.len()));
        assert(rest@ == JsonV::Number(t@.skip(1)));
        match rest.as_u64() {
            Some(u) => {
                if u < 0x8000_0000_0000_0000 {
                    Some(0 - (u as i64))
                } else if u == 0x8000_0000_0000_0000 {
                    Some(i64::MIN)
                } else {
                    None
                }
            },
            None => None,
        }
    }

    /// The value of a boolean.
    pub fn as_bool(&self) -> (r: Option<bool>)
        ensures
            match self@ {
                JsonV::Bool(b) => r == Some(b),
                _ => r is None,
            },
    {
        match self {
            Json::Bool(b) => Some(*b),
            _ => None,
        }
    }

    /// The items of an array.
    pub fn as_array(&self) -> (r: Option<&Vec<Json>>)
        ensures
            match self@ {
                JsonV::Array(a) => r is Some && view_items(r->0@) == a,
                _ => r is None,
            },
    {
        match self {
            Json::Array(v) => Some(v),
            _ => None,
        }
    }

    /// The member `key` of an object.
    pub fn get(&self, key: &str) -> (r: Option<&Json>)
        ensures
            match get_v(self@, key@) {
                Some(v) => r is Some && r->0@ == v,
                None => r is None,
            },
    {
        match self {
            Json::Object(e) => {
                let idx = find_key(e, key);
                proof {
                    lemma_key_index(view_entries(e@), key@);
                }
                match idx {
                    Some(i) => Some(&e[i].1),
                    None => None,
                }
            },
            _ => None,
        }
    }

    /// The text of member `key` when it is a string.
    pub fn get_str(&self, key: &str) -> (r: Option<&str>)
        ensures
            match get_str_v(self@, key@) {
                Some(s) => r is Some && r->0@ == s,
                None => r is None,
            },
    {
        match self.get(key) {
            Some(v) => v.as_str(),
            None => None,
        }
    }

    /// The boolean of member `key` when it is a boolean.
    pub fn get_bool(&self, key: &str) -> (r: Option<bool>)
        ensures
            r == get_bool_v(self@, key@),
    {
        match self.get(key) {
            Some(v) => v.as_bool(),
            None => None,
        }
    }

    /// The items of member `key` when it is an array.
    pub fn get_array(&self, key: &str) -> (r: Option<&Vec<Json>>)
        ensures
            match get_array_v(self@, key@) {
                Some(a) => r is Some && view_items(r->0@) == a,
                None => r is None,
            },
    {
        match self.get(key) {
            Some(v) => v.as_array(),
            None => None,
        }
    }

    /// Sets member `key` of an object (a null becomes an object first).
    pub fn set(&mut self, key: &str, value: Json)
        requires
            old(self)@ is Object || old(self)@ is Null,
        ensures
            final(self)@ == set_v(old(self)@, key@, value@),
    {
        let ghost old_v = self@;
        let mut taken = Json::Null;
        std::mem::swap(self, &mut taken);
        match taken {
            Json::Object(mut e) => {
                let ghost ve = view_entries(e@);
                let idx = find_key(&e, key);
                proof {
                    lemma_key_index(ve, key@);
                }
                match idx {
                    Some(i) => {
                        let k = key.to_string();
                        e.set(i, (k, value));
                        proof {
                            assert(view_entries(e@) =~= ve.update(i as int, (key@, value@)));
                        }
                    },
                    None => {
                        let k = key.to_string();
                        proof {
                            lemma_view_entries_push(e@, k, value);
                        }
                        e.push((k, value));
                    },
                }
                *self = Json::Object(e);
            },
            _ => {
                let mut e: Vec<(String, Json)> = Vec::new();
                let k = key.to_string();
                proof {
                    lemma_view_entries_empty();
                    lemma_view_entries_push(e@, k, value);
                }
                e.push((k, value));
                proof {
                    assert(seq![(key@, value@)] =~= Seq::<(Seq<char>, JsonV)>::empty().push(
                        (key@, value@),
                    ));
                }
                *self = Json::Object(e);
            },
        }
    }

    /// Removes member `key` from an object; other values are unchanged.
    pub fn remove(&mut self, key: &str)
        ensures
            final(self)@ == remove_v(old(self)@, key@),
    {
        let mut taken = Json::Null;
        std::mem::swap(self, &mut taken);
        match taken {
            Json::Object(e) => {
                let k = key.to_string();
                let mut rest = e;
                let ghost all = view_entries(rest@);
                let mut kept: Vec<(String, Json)> = Vec::new();
                let ghost mut i: int = 0;
                proof {
                    lemma_view_entries_empty();
                    assert(all.take(0) =~= Seq::<(Seq<char>, JsonV)>::empty());
                    assert(all.skip(0) =~= all);
                }
                while rest.len() > 0
                    invariant
                        0 <= i <= all.len(),
                        view_entries(rest@) == all.skip(i),
                        view_entries(kept@) == remove_entries(all.take(i), k@),
                        k@ == key@,
                    decreases rest.len(),
                {
                    let ghost before = rest@;
                    let item = rest.remove(0);
                    proof {
                        assert(view_entries(before).len() == before.len());
                        assert(view_entries(before)[0] == (item.0@, view_json(item.1)));
                        assert(i < all.len());
                        assert(all.skip(i)[0] == all[i]);
                        assert(view_entries(rest@) =~= all.skip(i + 1)) by {
                            assert forall|j: int| 0 <= j < rest@.len() implies view_entries(rest@)[j]
                                == all.skip(i + 1)[j] by {
                                assert(rest@[j] == before[j + 1]);
                                assert(view_entries(before)[j + 1] == all.skip(i)[j + 1]);
                                assert(all.skip(i)[j + 1] == all[i + j + 1]);
                                assert(all.skip(i + 1)[j] == all[i + 1 + j]);
                            }
                        }
                        assert(all.take(i + 1).drop_last() =~= all.take(i));
                    }
                    if item.0 != k {
                        proof {
                            lemma_view_entries_push(kept@, item.0, item.1);
                        }
                        kept.push(item);
                    }
                    proof {
                        i = i + 1;
                    }
                }
                proof {
                    assert(all.take(i) =~= all);
                }
                *self = Json::Object(kept);
            },
            other => {
                *self = other;
            },
        }
    }
}

} // verus!
