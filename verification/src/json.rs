//! JSON values as the library holds them: the canonical subset, in which
//! numbers are integers and an object lists each key once.

use vstd::prelude::*;

verus! {

/// A JSON value held in memory.
#[derive(Debug)]
pub enum JsonValue {
    Null,
    Bool(bool),
    Integer(i64),
    String(String),
    Array(Vec<JsonValue>),
    Object(Vec<(String, JsonValue)>),
}

/// The members of a JSON object, in the order in which they were added.
pub type JsonObject = Vec<(String, JsonValue)>;

/// The mathematical value that a `JsonValue` stands for.
pub enum Json {
    Null,
    Bool(bool),
    Integer(int),
    String(Seq<char>),
    Array(Seq<Json>),
    Object(Seq<(Seq<char>, Json)>),
}

/// The largest integer that canonical JSON can carry.
pub const MAX_SAFE_INT: i64 = 9007199254740991i64;

/// The smallest integer that canonical JSON can carry.
pub const MIN_SAFE_INT: i64 = -9007199254740991i64;

/// The members of an object with their values as mathematical values.
pub open spec fn members(fields: Seq<(String, JsonValue)>) -> Seq<(Seq<char>, Json)>
    decreases fields,
{
    Seq::new(
        fields.len(),
        |i: int|
            if 0 <= i < fields.len() {
                (fields[i].0@, fields[i].1.model())
            } else {
                (Seq::empty(), Json::Null)
            },
    )
}

/// The elements of an array as mathematical values.
pub open spec fn elements(items: Seq<JsonValue>) -> Seq<Json>
    decreases items,
{
    Seq::new(
        items.len(),
        |i: int|
            if 0 <= i < items.len() {
                items[i].model()
            } else {
                Json::Null
            },
    )
}

impl JsonValue {
    /// The mathematical value of `self`.
    pub open spec fn model(&self) -> Json
        decreases self,
    {
        match self {
            JsonValue::Null => Json::Null,
            JsonValue::Bool(b) => Json::Bool(*b),
            JsonValue::Integer(i) => Json::Integer(*i as int),
            JsonValue::String(s) => Json::String(s@),
            JsonValue::Array(a) => Json::Array(elements(a@)),
            JsonValue::Object(o) => Json::Object(members(o@)),
        }
    }
}

/// The keys of an object's members, in order.
pub open spec fn keys_of(m: Seq<(Seq<char>, Json)>) -> Seq<Seq<char>> {
    m.map_values(|e: (Seq<char>, Json)| e.0)
}

/// The value under `key` in an object's members, if the key is there.
pub open spec fn lookup(m: Seq<(Seq<char>, Json)>, key: Seq<char>) -> Option<Json> {
    match keys_of(m).index_of_first(key) {
        Some(i) => Some(m[i].1),
        None => None,
    }
}

impl Json {
    /// Whether the value is canonical: every integer is one that canonical
    /// JSON can carry and no object lists a key twice.
    pub open spec fn canonical(self) -> bool
        decreases self,
    {
        match self {
            Json::Integer(i) => MIN_SAFE_INT <= i <= MAX_SAFE_INT,
            Json::Array(a) => forall|i: int| 0 <= i < a.len() ==> (#[trigger] a[i]).canonical(),
            Json::Object(m) => keys_of(m).no_duplicates() && forall|i: int|
                0 <= i < m.len() ==> (#[trigger] m[i]).1.canonical(),
            _ => true,
        }
    }

    /// The member `key` of an object; nothing for other values.
    pub open spec fn member(self, key: Seq<char>) -> Option<Json> {
        match self {
            Json::Object(m) => lookup(m, key),
            _ => None,
        }
    }

    /// The text of a string value; nothing for other values.
    pub open spec fn text(self) -> Option<Seq<char>> {
        match self {
            Json::String(s) => Some(s),
            _ => None,
        }
    }
}

/// The index of the first member named `key`.
fn position(fields: &JsonObject, key: &String) -> (r: Option<usize>)
    ensures
        match r {
            Some(i) => {
                &&& i < fields@.len()
                &&& fields@[i as int].0@ == key@
                &&& keys_of(members(fields@)).index_of_first(key@) == Some(i as int)
            },
            None => keys_of(members(fields@)).index_of_first(key@).is_none(),
        },
{
    let ghost ks = keys_of(members(fields@));
    let mut i: usize = 0;
    while i < fields.len()
        invariant
            i <= fields@.len(),
            ks == keys_of(members(fields@)),
            forall|j: int| 0 <= j < i ==> ks[j] != key@,
        decreases fields@.len() - i,
    {
        if fields[i].0 == *key {
            proof {
                assert(ks[i as int] == key@);
                ks.index_of_first_ensures(key@);
            }
            return Some(i);
        }
        i += 1;
    }
    proof {
        ks.index_of_first_ensures(key@);
    }
    None
}

/// The value of the member `key` of an object.
pub fn object_get<'a>(fields: &'a JsonObject, key: &String) -> (r: Option<&'a JsonValue>)
    ensures
        match r {
            Some(v) => lookup(members(fields@), key@) == Some(v.model()),
            None => lookup(members(fields@), key@).is_none(),
        },
{
    match position(fields, key) {
        Some(i) => Some(&fields[i].1),
        None => None,
    }
}

/// What an object's members are after `key` is set to `val`: the member is
/// replaced where it stands, or added at the end.
pub open spec fn with_member(m: Seq<(Seq<char>, Json)>, key: Seq<char>, val: Json) -> Seq<
    (Seq<char>, Json),
> {
    match keys_of(m).index_of_first(key) {
        Some(i) => m.update(i, (key, val)),
        None => m.push((key, val)),
    }
}

/// What an object's members are after `key` is taken out.
pub open spec fn without_member(m: Seq<(Seq<char>, Json)>, key: Seq<char>) -> Seq<
    (Seq<char>, Json),
> {
    match keys_of(m).index_of_first(key) {
        Some(i) => m.remove(i),
        None => m,
    }
}

/// Sets the member `key` of an object to `val`.
pub fn object_insert(fields: &mut JsonObject, key: String, val: JsonValue)
    ensures
        members(final(fields)@) == with_member(members(old(fields)@), key@, val.model()),
{
    match position(fields, &key) {
        Some(i) => {
            fields[i] = (key, val);
            assert(members(fields@) =~= with_member(members(old(fields)@), key@, val.model()));
        },
        None => {
            fields.push((key, val));
            assert(members(fields@) =~= with_member(members(old(fields)@), key@, val.model()));
        },
    }
}

/// Takes the member `key` out of an object.
pub fn object_remove(fields: &mut JsonObject, key: &String)
    ensures
        members(final(fields)@) == without_member(members(old(fields)@), key@),
{
    match position(fields, key) {
        Some(i) => {
            let _e = fields.remove(i);
            assert(members(fields@) =~= without_member(members(old(fields)@), key@));
        },
        None => {},
    }
}

impl JsonValue {
    /// A copy of the value.
    pub fn duplicate(&self) -> (r: JsonValue)
        ensures
            r.model() == self.model(),
        decreases self,
    {
        match self {
            JsonValue::Null => JsonValue::Null,
            JsonValue::Bool(b) => JsonValue::Bool(*b),
            JsonValue::Integer(i) => JsonValue::Integer(*i),
            JsonValue::String(s) => JsonValue::String(s.clone()),
            JsonValue::Array(a) => {
                let out = duplicate_array(a);
                JsonValue::Array(out)
            },
            JsonValue::Object(o) => {
                let out = duplicate_object(o);
                JsonValue::Object(out)
            },
        }
    }
}

/// A copy of an array's elements.
pub fn duplicate_array(a: &Vec<JsonValue>) -> (out: Vec<JsonValue>)
    ensures
        elements(out@) == elements(a@),
    decreases a,
{
    let mut out: Vec<JsonValue> = Vec::new();
    let mut i: usize = 0;
    while i < a.len()
        invariant
            i <= a@.len(),
            out@.len() == i,
            forall|j: int| 0 <= j < i ==> out@[j].model() == a@[j].model(),
        decreases a@.len() - i,
    {
        proof {
            assert(decreases_to!(a => a@[i as int]));
        }
        let c = a[i].duplicate();
        out.push(c);
        i += 1;
    }
    assert(elements(out@) =~= elements(a@));
    out
}

/// A copy of an object's members.
pub fn duplicate_object(o: &JsonObject) -> (out: JsonObject)
    ensures
        members(out@) == members(o@),
    decreases o,
{
    let mut out: JsonObject = Vec::new();
    let mut i: usize = 0;
    while i < o.len()
        invariant
            i <= o@.len(),
            out@.len() == i,
            forall|j: int|
                0 <= j < i ==> out@[j].0@ == o@[j].0@ && out@[j].1.model() == o@[j].1.model(),
        decreases o@.len() - i,
    {
        proof {
            assert(decreases_to!(o => o@[i as int].1));
        }
        let c = o[i].1.duplicate();
        out.push((o[i].0.clone(), c));
        i += 1;
    }
    assert(members(out@) =~= members(o@));
    out
}

/// Whether the keys of an object's members are all different.
fn keys_distinct(o: &JsonObject) -> (b: bool)
    ensures
        b == keys_of(members(o@)).no_duplicates(),
{
    let ghost ks = keys_of(members(o@));
    let mut i: usize = 0;
    while i < o.len()
        invariant
            i <= o@.len(),
            ks == keys_of(members(o@)),
            forall|a: int, b: int| 0 <= a < b < i ==> ks[a] != ks[b],
        decreases o@.len() - i,
    {
        let mut j: usize = 0;
        while j < i
            invariant
                j <= i,
                i < o@.len(),
                ks == keys_of(members(o@)),
                forall|a: int| 0 <= a < j ==> ks[a] != ks[i as int],
            decreases i - j,
        {
            if o[j].0 == o[i].0 {
                assert(ks[j as int] == ks[i as int]);
                return false;
            }
            j += 1;
        }
        i += 1;
    }
    true
}

impl JsonValue {
    /// Whether the value is canonical.
    pub fn is_canonical(&self) -> (b: bool)
        ensures
            b == self.model().canonical(),
        decreases self,
    {
        match self {
            JsonValue::Integer(i) => MIN_SAFE_INT <= *i && *i <= MAX_SAFE_INT,
            JsonValue::Array(a) => array_is_canonical(a),
            JsonValue::Object(o) => object_is_canonical(o),
            _ => true,
        }
    }
}

/// Whether every element of an array is canonical.
pub fn array_is_canonical(a: &Vec<JsonValue>) -> (b: bool)
    ensures
        b == Json::Array(elements(a@)).canonical(),
    decreases a,
{
    let mut i: usize = 0;
    while i < a.len()
        invariant
            i <= a@.len(),
            forall|j: int| 0 <= j < i ==> (#[trigger] elements(a@)[j]).canonical(),
        decreases a@.len() - i,
    {
        proof {
            assert(decreases_to!(a => a@[i as int]));
        }
        if !a[i].is_canonical() {
            proof {
                let e = elements(a@);
                assert(e[i as int] == a@[i as int].model());
                assert(!e[i as int].canonical());
                assert(0 <= i < e.len());
                if Json::Array(e).canonical() {
                    assert(Json::Array(e)->Array_0[i as int].canonical());
                }
            }
            return false;
        }
        i += 1;
    }
    true
}

/// Whether an object lists each key once and every member is canonical.
pub fn object_is_canonical(o: &JsonObject) -> (b: bool)
    ensures
        b == Json::Object(members(o@)).canonical(),
    decreases o,
{
    if !keys_distinct(o) {
        return false;
    }
    let mut i: usize = 0;
    while i < o.len()
        invariant
            i <= o@.len(),
            forall|j: int| 0 <= j < i ==> (#[trigger] members(o@)[j]).1.canonical(),
        decreases o@.len() - i,
    {
        proof {
            assert(decreases_to!(o => o@[i as int].1));
        }
        if !o[i].1.is_canonical() {
            proof {
                let m = members(o@);
                assert(m[i as int].1 == o@[i as int].1.model());
                assert(!m[i as int].1.canonical());
                assert(0 <= i < m.len());
                if Json::Object(m).canonical() {
                    assert(Json::Object(m)->Object_0[i as int].1.canonical());
                }
            }
            return false;
        }
        i += 1;
    }
    true
}

/// Setting a member of a canonical object to a canonical value leaves the
/// object canonical.
pub proof fn with_member_canonical(m: Seq<(Seq<char>, Json)>, key: Seq<char>, val: Json)
    requires
        Json::Object(m).canonical(),
        val.canonical(),
    ensures
        Json::Object(with_member(m, key, val)).canonical(),
{
    let ks = keys_of(m);
    ks.index_of_first_ensures(key);
    let r = with_member(m, key, val);
    let rs = keys_of(r);
    match ks.index_of_first(key) {
        Some(i) => {
            assert(rs =~= ks);
            assert forall|j: int| 0 <= j < r.len() implies (#[trigger] r[j]).1.canonical() by {
                if j != i {
                    assert(r[j] == m[j]);
                }
            }
        },
        None => {
            assert(rs =~= ks.push(key));
            assert forall|a: int, b: int| 0 <= a < rs.len() && 0 <= b < rs.len() && a
                != b implies rs[a] != rs[b] by {
                if a < ks.len() {
                    assert(ks.contains(ks[a]));
                }
                if b < ks.len() {
                    assert(ks.contains(ks[b]));
                }
            }
            assert forall|j: int| 0 <= j < r.len() implies (#[trigger] r[j]).1.canonical() by {
                if j < m.len() {
                    assert(r[j] == m[j]);
                }
            }
        },
    }
}

/// Taking a member out of a canonical object leaves the object canonical.
pub proof fn without_member_canonical(m: Seq<(Seq<char>, Json)>, key: Seq<char>)
    requires
        Json::Object(m).canonical(),
    ensures
        Json::Object(without_member(m, key)).canonical(),
{
    let ks = keys_of(m);
    ks.index_of_first_ensures(key);
    let r = without_member(m, key);
    let rs = keys_of(r);
    match ks.index_of_first(key) {
        Some(i) => {
            assert(rs =~= ks.remove(i));
            assert forall|a: int, b: int| 0 <= a < rs.len() && 0 <= b < rs.len() && a
                != b implies rs[a] != rs[b] by {
                let a0 = if a < i { a } else { a + 1 };
                let b0 = if b < i { b } else { b + 1 };
                assert(rs[a] == ks[a0] && rs[b] == ks[b0]);
            }
            assert forall|j: int| 0 <= j < r.len() implies (#[trigger] r[j]).1.canonical() by {
                let j0 = if j < i { j } else { j + 1 };
                assert(r[j] == m[j0]);
            }
        },
        None => {},
    }
}

} // verus!
