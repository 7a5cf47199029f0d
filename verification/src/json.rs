use vstd::prelude::*;

verus! {

/// A JSON document held by the library.
///
/// Numbers are kept as their decimal text, so that any number, integral or not,
/// passes through unchanged. An object keeps its members in order; a key that
/// occurs twice is looked up at its first occurrence.
#[derive(Debug, PartialEq)]
pub enum Json {
    Null,
    Bool(bool),
    Number(String),
    Str(String),
    Array(Vec<Json>),
    Object(Vec<(String, Json)>),
}

/// The mathematical model of a JSON document.
pub enum JsonValue {
    Null,
    Bool(bool),
    Number(Seq<char>),
    Str(Seq<char>),
    Array(Seq<JsonValue>),
    Object(Seq<(Seq<char>, JsonValue)>),
}

pub open spec fn json_view(j: Json) -> JsonValue
    decreases j, 0nat,
{
    match j {
        Json::Null => JsonValue::Null,
        Json::Bool(b) => JsonValue::Bool(b),
        Json::Number(n) => JsonValue::Number(n@),
        Json::Str(s) => JsonValue::Str(s@),
        Json::Array(items) => JsonValue::Array(items_view(items@)),
        Json::Object(fields) => JsonValue::Object(fields_view(fields@)),
    }
}

pub open spec fn items_view(items: Seq<Json>) -> Seq<JsonValue>
    decreases items, 1nat,
{
    if items.len() == 0 {
        Seq::empty()
    } else {
        items_view(items.drop_last()).push(json_view(items.last()))
    }
}

pub open spec fn fields_view(fields: Seq<(String, Json)>) -> Seq<(Seq<char>, JsonValue)>
    decreases fields, 1nat,
{
    if fields.len() == 0 {
        Seq::empty()
    } else {
        fields_view(fields.drop_last()).push(
            (fields.last().0@, json_view(fields.last().1)),
        )
    }
}

impl View for Json {
    type V = JsonValue;

    open spec fn view(&self) -> JsonValue {
        json_view(*self)
    }
}

/// `items_view` maps each element to its view.
pub proof fn lemma_items_view(items: Seq<Json>)
    ensures
        items_view(items).len() == items.len(),
        forall|i: int| 0 <= i < items.len() ==> #[trigger] items_view(items)[i] == json_view(items[i]),
    decreases items.len(),
{
    if items.len() > 0 {
        lemma_items_view(items.drop_last());
    }
}

/// `fields_view` maps each member to the view of its key and value.
pub proof fn lemma_fields_view(fields: Seq<(String, Json)>)
    ensures
        fields_view(fields).len() == fields.len(),
        forall|i: int|
            0 <= i < fields.len() ==> #[trigger] fields_view(fields)[i] == (
                fields[i].0@,
                json_view(fields[i].1),
            ),
    decreases fields.len(),
{
    if fields.len() > 0 {
        lemma_fields_view(fields.drop_last());
    }
}


/// `i` is the first position of `fields` whose key is `key`.
pub open spec fn is_first_key(fields: Seq<(Seq<char>, JsonValue)>, key: Seq<char>, i: int) -> bool {
    &&& 0 <= i < fields.len()
    &&& fields[i].0 == key
    &&& forall|j: int| 0 <= j < i ==> fields[j].0 != key
}

/// The first position of `key` in `fields`, or -1 where no member has that key.
pub open spec fn key_position(fields: Seq<(Seq<char>, JsonValue)>, key: Seq<char>) -> int {
    if exists|i: int| is_first_key(fields, key, i) {
        choose|i: int| is_first_key(fields, key, i)
    } else {
        -1
    }
}

/// The value of the member `key`, where there is one.
pub open spec fn field_value(fields: Seq<(Seq<char>, JsonValue)>, key: Seq<char>) -> Option<JsonValue> {
    let i = key_position(fields, key);
    if i >= 0 {
        Some(fields[i].1)
    } else {
        None
    }
}

/// `value` is an object with a member named `key`.
pub open spec fn has_member(value: JsonValue, key: Seq<char>) -> bool {
    match value {
        JsonValue::Object(fields) => field_value(fields, key) is Some,
        _ => false,
    }
}

/// What `value[key]` reads: the member, or null where there is none.
pub open spec fn member(value: JsonValue, key: Seq<char>) -> JsonValue {
    match value {
        JsonValue::Object(fields) => match field_value(fields, key) {
            Some(v) => v,
            None => JsonValue::Null,
        },
        _ => JsonValue::Null,
    }
}

/// What `value[path[0]][path[1]]...` reads.
pub open spec fn path_get(value: JsonValue, path: Seq<Seq<char>>) -> JsonValue
    decreases path.len(),
{
    if path.len() == 0 {
        value
    } else {
        path_get(member(value, path[0]), path.drop_first())
    }
}

pub open spec fn is_null_or_object(value: JsonValue) -> bool {
    value is Null || value is Object
}

/// An assignment through `path` can be made: every value that a key is taken of
/// on the way is null (it then becomes an empty object) or an object.
pub open spec fn path_settable(value: JsonValue, path: Seq<Seq<char>>) -> bool
    decreases path.len(),
{
    path.len() == 0 || (is_null_or_object(value) && path_settable(
        member(value, path[0]),
        path.drop_first(),
    ))
}

/// The members with `key` set to `v`: in place where the key occurs, else appended.
pub open spec fn with_member(fields: Seq<(Seq<char>, JsonValue)>, key: Seq<char>, v: JsonValue) -> Seq<
    (Seq<char>, JsonValue),
> {
    let i = key_position(fields, key);
    if i >= 0 {
        fields.update(i, (key, v))
    } else {
        fields.push((key, v))
    }
}

/// The document after `value[path[0]]...[path[n-1]] = x`.
pub open spec fn path_set(value: JsonValue, path: Seq<Seq<char>>, x: JsonValue) -> JsonValue
    decreases path.len(),
{
    if path.len() == 0 {
        x
    } else {
        let fields = match value {
            JsonValue::Object(fields) => fields,
            _ => Seq::empty(),
        };
        JsonValue::Object(
            with_member(fields, path[0], path_set(member(value, path[0]), path.drop_first(), x)),
        )
    }
}

pub proof fn lemma_first_key_unique(fields: Seq<(Seq<char>, JsonValue)>, key: Seq<char>, i: int, j: int)
    requires
        is_first_key(fields, key, i),
        is_first_key(fields, key, j),
    ensures
        i == j,
{
}

/// Where some member has `key`, a first one does.
pub proof fn lemma_first_key_exists(fields: Seq<(Seq<char>, JsonValue)>, key: Seq<char>, j: int)
    requires
        0 <= j < fields.len(),
        fields[j].0 == key,
    ensures
        key_position(fields, key) >= 0,
        key_position(fields, key) <= j,
        is_first_key(fields, key, key_position(fields, key)),
    decreases j,
{
    if forall|k: int| 0 <= k < j ==> fields[k].0 != key {
        assert(is_first_key(fields, key, j));
        let i = key_position(fields, key);
        lemma_first_key_unique(fields, key, i, j);
    } else {
        let k = choose|k: int| 0 <= k < j && fields[k].0 == key;
        lemma_first_key_exists(fields, key, k);
    }
}

/// `key_position` is the first position of the key, or -1 where it is absent.
pub proof fn lemma_key_position(fields: Seq<(Seq<char>, JsonValue)>, key: Seq<char>)
    ensures
        key_position(fields, key) >= 0 ==> is_first_key(fields, key, key_position(fields, key)),
        key_position(fields, key) < 0 ==> key_position(fields, key) == -1 && forall|j: int|
            0 <= j < fields.len() ==> fields[j].0 != key,
{
    if key_position(fields, key) < 0 {
        assert forall|j: int| 0 <= j < fields.len() implies fields[j].0 != key by {
            if fields[j].0 == key {
                lemma_first_key_exists(fields, key, j);
            }
        }
    }
}

/// The member `key` of an object is the value at the first position with
/// that key.
pub proof fn lemma_member_of_object(fields: Seq<(Seq<char>, JsonValue)>, key: Seq<char>, i: int)
    requires
        0 <= i < fields.len(),
        fields[i].0 == key,
        forall|j: int| 0 <= j < i ==> fields[j].0 != key,
    ensures
        member(JsonValue::Object(fields), key) == fields[i].1,
{
    assert(is_first_key(fields, key, i));
    lemma_first_key_exists(fields, key, i);
    lemma_first_key_unique(fields, key, i, key_position(fields, key));
}

/// Setting `key` makes it read back.
pub proof fn lemma_with_member_same(fields: Seq<(Seq<char>, JsonValue)>, key: Seq<char>, v: JsonValue)
    ensures
        field_value(with_member(fields, key, v), key) == Some(v),
{
    lemma_key_position(fields, key);
    let i = key_position(fields, key);
    let nf = with_member(fields, key, v);
    if i >= 0 {
        assert(is_first_key(nf, key, i));
        lemma_key_position(nf, key);
        lemma_first_key_unique(nf, key, i, key_position(nf, key));
    } else {
        assert(is_first_key(nf, key, fields.len() as int));
        lemma_key_position(nf, key);
        lemma_first_key_unique(nf, key, fields.len() as int, key_position(nf, key));
    }
}

/// Setting `key` leaves every other member as it was.
pub proof fn lemma_with_member_other(
    fields: Seq<(Seq<char>, JsonValue)>,
    key: Seq<char>,
    v: JsonValue,
    other: Seq<char>,
)
    requires
        other != key,
    ensures
        field_value(with_member(fields, key, v), other) == field_value(fields, other),
{
    lemma_key_position(fields, key);
    lemma_key_position(fields, other);
    let nf = with_member(fields, key, v);
    lemma_key_position(nf, other);
    let p = key_position(fields, other);
    let q = key_position(nf, other);
    if p >= 0 {
        assert(is_first_key(nf, other, p));
        lemma_first_key_unique(nf, other, p, q);
    } else if q >= 0 {
        assert(is_first_key(fields, other, q));
    }
}

/// After `value[path] = x`, `value[path]` reads `x`.
pub proof fn lemma_path_set_get(value: JsonValue, path: Seq<Seq<char>>, x: JsonValue)
    ensures
        path_get(path_set(value, path, x), path) == x,
    decreases path.len(),
{
    if path.len() > 0 {
        let fields = match value {
            JsonValue::Object(fields) => fields,
            _ => Seq::empty(),
        };
        let child = path_set(member(value, path[0]), path.drop_first(), x);
        lemma_with_member_same(fields, path[0], child);
        lemma_path_set_get(member(value, path[0]), path.drop_first(), x);
    }
}

/// After `value[p] = x`, a path `q` that parts from `p` at position `i` reads
/// what it read before.
pub proof fn lemma_path_set_frame(
    value: JsonValue,
    p: Seq<Seq<char>>,
    x: JsonValue,
    q: Seq<Seq<char>>,
    i: int,
)
    requires
        0 <= i < p.len(),
        i < q.len(),
        p[i] != q[i],
        forall|j: int| 0 <= j < i ==> p[j] == q[j],
    ensures
        path_get(path_set(value, p, x), q) == path_get(value, q),
    decreases i,
{
    let fields = match value {
        JsonValue::Object(fields) => fields,
        _ => Seq::empty(),
    };
    let child = path_set(member(value, p[0]), p.drop_first(), x);
    if i == 0 {
        lemma_with_member_other(fields, p[0], child, q[0]);
        if !(value is Object) {
            lemma_key_position(fields, q[0]);
        }
    } else {
        lemma_with_member_same(fields, p[0], child);
        assert(q[0] == p[0]);
        lemma_path_set_frame(member(value, p[0]), p.drop_first(), x, q.drop_first(), i - 1);
    }
}


/// The path `q` parts from the path `p`: at some position both have a key and
/// the keys differ, the keys before it being the same.
pub open spec fn parts_from(q: Seq<Seq<char>>, p: Seq<Seq<char>>) -> bool {
    exists|i: int| is_parting(q, p, i)
}

/// `q` and `p` part at position `i`.
pub open spec fn is_parting(q: Seq<Seq<char>>, p: Seq<Seq<char>>, i: int) -> bool {
    &&& 0 <= i < p.len()
    &&& i < q.len()
    &&& p[i] != q[i]
    &&& forall|j: int| 0 <= j < i ==> p[j] == q[j]
}

/// The keys of a path, by their views.
pub open spec fn keys_view(path: Seq<String>) -> Seq<Seq<char>> {
    path.map_values(|k: String| k@)
}

/// The first position of `key` among `fields`, where it occurs.
pub fn find_key(fields: &Vec<(String, Json)>, key: &String) -> (r: Option<usize>)
    ensures
        match r {
            Some(i) => i == key_position(fields_view(fields@), key@) && i < fields@.len(),
            None => key_position(fields_view(fields@), key@) == -1,
        },
{
    proof {
        lemma_fields_view(fields@);
    }
    let mut i: usize = 0;
    while i < fields.len()
        invariant
            i <= fields@.len(),
            fields_view(fields@).len() == fields@.len(),
            forall|j: int| 0 <= j < fields@.len() ==> #[trigger] fields_view(fields@)[j] == (fields@[j].0@, json_view(fields@[j].1)),
            forall|j: int| 0 <= j < i ==> fields_view(fields@)[j].0 != key@,
        decreases fields@.len() - i,
    {
        if fields[i].0 == *key {
            proof {
                let fv = fields_view(fields@);
                assert(is_first_key(fv, key@, i as int));
                lemma_key_position(fv, key@);
                lemma_first_key_unique(fv, key@, i as int, key_position(fv, key@));
            }
            return Some(i);
        }
        i = i + 1;
    }
    proof {
        lemma_key_position(fields_view(fields@), key@);
    }
    None
}

impl Json {
    /// The member named `key` of an object; `None` where `self` is no object or
    /// has no such member.
    pub fn get(&self, key: &String) -> (r: Option<&Json>)
        ensures
            r is Some == has_member(self@, key@),
            r matches Some(j) ==> j@ == member(self@, key@),
    {
        match self {
            Json::Object(fields) => {
                proof {
                    lemma_fields_view(fields@);
                }
                match find_key(fields, key) {
                    Some(i) => Some(&fields[i].1),
                    None => None,
                }
            },
            _ => None,
        }
    }

    /// What `self[path[depth]]...[path[n-1]]` reads; `None` stands for null.
    pub fn get_path(&self, path: &[String], depth: usize) -> (r: Option<&Json>)
        requires
            depth <= path@.len(),
        ensures
            match r {
                Some(j) => j@ == path_get(self@, keys_view(path@).skip(depth as int)),
                None => path_get(self@, keys_view(path@).skip(depth as int)) == JsonValue::Null,
            },
        decreases path@.len() - depth,
    {
        let ghost rest = keys_view(path@).skip(depth as int);
        if depth == path.len() {
            return Some(self);
        }
        assert(rest[0] == path@[depth as int]@);
        assert(rest.drop_first() =~= keys_view(path@).skip(depth + 1));
        match self.get(&path[depth]) {
            Some(child) => child.get_path(path, depth + 1),
            None => {
                proof {
                    lemma_path_get_null(rest.drop_first());
                }
                None
            },
        }
    }

    /// A copy of the whole document.
    #[verifier::loop_isolation(false)]
    pub fn deep_clone(&self) -> (r: Json)
        ensures
            r@ == self@,
        decreases self,
    {
        match self {
            Json::Null => Json::Null,
            Json::Bool(b) => Json::Bool(*b),
            Json::Number(n) => Json::Number(n.clone()),
            Json::Str(s) => Json::Str(s.clone()),
            Json::Array(items) => {
                proof {
                    lemma_items_view(items@);
                }
                let mut out: Vec<Json> = Vec::new();
                let mut i: usize = 0;
                while i < items.len()
                    invariant
                        i <= items@.len(),
                        out@.len() == i,
                        forall|j: int| 0 <= j < i ==> #[trigger] json_view(out@[j]) == json_view(items@[j]),
                    decreases items@.len() - i,
                {
                    proof {
                        assert(decreases_to!(*self => items@[i as int]));
                    }
                    let c = items[i].deep_clone();
                    out.push(c);
                    i = i + 1;
                }
                proof {
                    lemma_items_view(items@);
                    lemma_items_view(out@);
                    assert(items_view(out@) =~= items_view(items@));
                }
                Json::Array(out)
            },
            Json::Object(fields) => {
                proof {
                    lemma_fields_view(fields@);
                }
                let mut out: Vec<(String, Json)> = Vec::new();
                let mut i: usize = 0;
                while i < fields.len()
                    invariant
                        i <= fields@.len(),
                        out@.len() == i,
                        forall|j: int|
                            0 <= j < i ==> #[trigger] out@[j].0@ == fields@[j].0@ && json_view(out@[j].1)
                                == json_view(fields@[j].1),
                    decreases fields@.len() - i,
                {
                    let k = fields[i].0.clone();
                    proof {
                        assert(decreases_to!(*self => fields@[i as int].1));
                    }
                    let c = fields[i].1.deep_clone();
                    out.push((k, c));
                    i = i + 1;
                }
                proof {
                    lemma_fields_view(fields@);
                    lemma_fields_view(out@);
                    assert(fields_view(out@) =~= fields_view(fields@));
                }
                Json::Object(out)
            },
        }
    }

    /// The document after `self[path[depth]]...[path[n-1]] = value`.
    pub fn with_path_set(self, path: &[String], depth: usize, value: Json) -> (r: Json)
        requires
            depth <= path@.len(),
        ensures
            r@ == path_set(self@, keys_view(path@).skip(depth as int), value@),
        decreases path@.len() - depth,
    {
        let ghost rest = keys_view(path@).skip(depth as int);
        if depth == path.len() {
            return value;
        }
        assert(rest[0] == path@[depth as int]@);
        assert(rest.drop_first() =~= keys_view(path@).skip(depth + 1));
        let ghost old_view = self@;
        let mut fields: Vec<(String, Json)> = match self {
            Json::Object(fields) => fields,
            _ => Vec::new(),
        };
        proof {
            lemma_fields_view(fields@);
            let fv = match old_view {
                JsonValue::Object(fv) => fv,
                _ => Seq::empty(),
            };
            assert(fv =~= fields_view(fields@));
        }
        let ghost fv0 = fields_view(fields@);
        let key = &path[depth];
        match find_key(&fields, key) {
            Some(i) => {
                proof {
                    lemma_key_position(fv0, key@);
                }
                let (k, child) = fields.remove(i);
                proof {
                    assert(member(old_view, rest[0]) == json_view(child));
                }
                let new_child = child.with_path_set(path, depth + 1, value);
                fields.insert(i, (k, new_child));
                proof {
                    lemma_fields_view(fields@);
                    assert(fields_view(fields@) =~= with_member(fv0, rest[0], json_view(new_child)));
                }
            },
            None => {
                proof {
                    assert(member(old_view, rest[0]) == JsonValue::Null);
                }
                let new_child = Json::Null.with_path_set(path, depth + 1, value);
                fields.push((key.clone(), new_child));
                proof {
                    lemma_fields_view(fields@);
                    assert(fields_view(fields@) =~= with_member(fv0, rest[0], json_view(new_child)));
                }
            },
        }
        Json::Object(fields)
    }
}

impl Clone for Json {
    fn clone(&self) -> (r: Json)
        ensures
            r@ == self@,
    {
        self.deep_clone()
    }
}

/// Reading through null gives null.
pub proof fn lemma_path_get_null(path: Seq<Seq<char>>)
    ensures
        path_get(JsonValue::Null, path) == JsonValue::Null,
    decreases path.len(),
{
    if path.len() > 0 {
        lemma_path_get_null(path.drop_first());
    }
}


/// Reading a prefix of a path one key at a time.
pub proof fn lemma_path_get_take_step(value: JsonValue, path: Seq<Seq<char>>, k: int)
    requires
        0 < k <= path.len(),
    ensures
        path_get(value, path.take(k)) == path_get(member(value, path[0]), path.drop_first().take(k - 1)),
{
    assert(path.take(k).drop_first() =~= path.drop_first().take(k - 1));
    assert(path.take(k)[0] == path[0]);
}

/// An assignment through `path` can be made exactly where every proper prefix of
/// `path` reads null or an object.
pub proof fn lemma_path_settable_prefixes(value: JsonValue, path: Seq<Seq<char>>)
    ensures
        path_settable(value, path) <==> forall|k: int|
            0 <= k < path.len() ==> is_null_or_object(#[trigger] path_get(value, path.take(k))),
    decreases path.len(),
{
    if path.len() > 0 {
        let child = member(value, path[0]);
        let rest = path.drop_first();
        lemma_path_settable_prefixes(child, rest);
        assert(path.take(0) =~= Seq::<Seq<char>>::empty());
        if path_settable(value, path) {
            assert forall|k: int| 0 <= k < path.len() implies is_null_or_object(
                #[trigger] path_get(value, path.take(k)),
            ) by {
                if k > 0 {
                    lemma_path_get_take_step(value, path, k);
                    assert(is_null_or_object(path_get(child, rest.take(k - 1))));
                }
            }
        } else {
            if is_null_or_object(value) {
                let k = choose|k: int|
                    0 <= k < rest.len() && !is_null_or_object(#[trigger] path_get(child, rest.take(k)));
                lemma_path_get_take_step(value, path, k + 1);
                assert(!is_null_or_object(path_get(value, path.take(k + 1))));
            } else {
                assert(!is_null_or_object(path_get(value, path.take(0))));
            }
        }
    }
}

/// After `value[path] = x`, every proper prefix of `path` reads an object.
pub proof fn lemma_path_set_prefix_object(value: JsonValue, path: Seq<Seq<char>>, x: JsonValue, k: int)
    requires
        0 <= k < path.len(),
    ensures
        path_get(path_set(value, path, x), path.take(k)) is Object,
    decreases k,
{
    let fields = match value {
        JsonValue::Object(fields) => fields,
        _ => Seq::empty(),
    };
    let child = path_set(member(value, path[0]), path.drop_first(), x);
    if k == 0 {
        assert(path.take(0) =~= Seq::<Seq<char>>::empty());
    } else {
        lemma_with_member_same(fields, path[0], child);
        lemma_path_get_take_step(path_set(value, path, x), path, k);
        lemma_path_set_prefix_object(member(value, path[0]), path.drop_first(), x, k - 1);
    }
}

/// After `value[path] = x`, an assignment through `path` can be made again.
pub proof fn lemma_path_set_settable(value: JsonValue, path: Seq<Seq<char>>, x: JsonValue)
    ensures
        path_settable(path_set(value, path, x), path),
{
    let v = path_set(value, path, x);
    assert forall|k: int| 0 <= k < path.len() implies is_null_or_object(#[trigger] path_get(v, path.take(k))) by {
        lemma_path_set_prefix_object(value, path, x, k);
    }
    lemma_path_settable_prefixes(v, path);
}

impl Json {
    /// An assignment through `path` can be made: every value that a key is
    /// taken of on the way is null or an object.
    pub fn path_settable(&self, path: &[String]) -> (r: bool)
        ensures
            r == path_settable(self@, keys_view(path@)),
    {
        let ghost p = keys_view(path@);
        let mut cur: Option<&Json> = Some(self);
        let mut k: usize = 0;
        assert(p.take(0) =~= Seq::<Seq<char>>::empty());
        while k < path.len()
            invariant
                k <= path@.len(),
                p == keys_view(path@),
                p.len() == path@.len(),
                match cur {
                    Some(j) => j@ == path_get(self@, p.take(k as int)),
                    None => path_get(self@, p.take(k as int)) == JsonValue::Null,
                },
                forall|i: int| 0 <= i < k ==> is_null_or_object(#[trigger] path_get(self@, p.take(i))),
            decreases path@.len() - k,
        {
            let ok = match cur {
                None => true,
                Some(Json::Null) => true,
                Some(Json::Object(_)) => true,
                Some(_) => false,
            };
            if !ok {
                proof {
                    lemma_path_settable_prefixes(self@, p);
                }
                return false;
            }
            proof {
                lemma_path_get_then_member(self@, p, k as int);
            }
            cur = match cur {
                Some(j) => j.get(&path[k]),
                None => None,
            };
            k = k + 1;
        }
        proof {
            lemma_path_settable_prefixes(self@, p);
        }
        true
    }
}

/// Reading one key further along a path.
pub proof fn lemma_path_get_then_member(value: JsonValue, path: Seq<Seq<char>>, k: int)
    requires
        0 <= k < path.len(),
    ensures
        path_get(value, path.take(k + 1)) == member(path_get(value, path.take(k)), path[k]),
    decreases k,
{
    if k > 0 {
        lemma_path_get_take_step(value, path, k + 1);
        lemma_path_get_take_step(value, path, k);
        lemma_path_get_then_member(member(value, path[0]), path.drop_first(), k - 1);
        assert(path.drop_first()[k - 1] == path[k]);
    } else {
        lemma_path_get_take_step(value, path, 1);
        assert(path.drop_first().take(0) =~= Seq::<Seq<char>>::empty());
        assert(path.take(0) =~= Seq::<Seq<char>>::empty());
    }
}

/// A string value.
pub fn json_str(s: &str) -> (r: Json)
    ensures
        r@ == JsonValue::Str(s@),
{
    Json::Str(s.to_owned())
}

/// An array of one element.
pub fn array1(v: Json) -> (r: Json)
    ensures
        r@ == JsonValue::Array(seq![v@]),
{
    let items = vec![v];
    proof {
        lemma_items_view(items@);
        assert(items_view(items@) =~= seq![v@]);
    }
    Json::Array(items)
}

/// An object of one member.
pub fn object1(k1: &str, v1: Json) -> (r: Json)
    ensures
        r@ == JsonValue::Object(seq![(k1@, v1@)]),
{
    let fields = vec![(k1.to_owned(), v1)];
    proof {
        lemma_fields_view(fields@);
        assert(fields_view(fields@) =~= seq![(k1@, v1@)]);
    }
    Json::Object(fields)
}

/// An object of two members, in this order.
pub fn object2(k1: &str, v1: Json, k2: &str, v2: Json) -> (r: Json)
    ensures
        r@ == JsonValue::Object(seq![(k1@, v1@), (k2@, v2@)]),
{
    let fields = vec![(k1.to_owned(), v1), (k2.to_owned(), v2)];
    proof {
        lemma_fields_view(fields@);
        assert(fields_view(fields@) =~= seq![(k1@, v1@), (k2@, v2@)]);
    }
    Json::Object(fields)
}

/// An object of three members, in this order.
pub fn object3(k1: &str, v1: Json, k2: &str, v2: Json, k3: &str, v3: Json) -> (r: Json)
    ensures
        r@ == JsonValue::Object(seq![(k1@, v1@), (k2@, v2@), (k3@, v3@)]),
{
    let fields = vec![(k1.to_owned(), v1), (k2.to_owned(), v2), (k3.to_owned(), v3)];
    proof {
        lemma_fields_view(fields@);
        assert(fields_view(fields@) =~= seq![(k1@, v1@), (k2@, v2@), (k3@, v3@)]);
    }
    Json::Object(fields)
}

/// An object of four members, in this order.
pub fn object4(k1: &str, v1: Json, k2: &str, v2: Json, k3: &str, v3: Json, k4: &str, v4: Json) -> (r: Json)
    ensures
        r@ == JsonValue::Object(seq![(k1@, v1@), (k2@, v2@), (k3@, v3@), (k4@, v4@)]),
{
    let fields = vec![
        (k1.to_owned(), v1),
        (k2.to_owned(), v2),
        (k3.to_owned(), v3),
        (k4.to_owned(), v4),
    ];
    proof {
        lemma_fields_view(fields@);
        assert(fields_view(fields@) =~= seq![(k1@, v1@), (k2@, v2@), (k3@, v3@), (k4@, v4@)]);
    }
    Json::Object(fields)
}

} // verus!
