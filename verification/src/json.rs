//! JSON values of the kinds a capability report is made of, and their compact text.
use crate::number::{decimal, hex, push_decimal};
use crate::text::{comes_before, lemma_text_order_total, lemma_text_order_transitive, text_less};
use vstd::prelude::*;

verus! {

/// A JSON value: the kinds that a report holds.
#[derive(Debug)]
pub enum Value {
    /// No value.
    Null,
    /// A truth value.
    Bool(bool),
    /// A whole number.
    Number(u64),
    /// A text.
    Text(String),
    /// A list.
    Array(Vec<Value>),
    /// Named fields.
    Object(Object),
}

/// The fields of a JSON object: in key order, each key once. `object_of` makes one.
#[derive(Debug)]
pub struct Object {
    fields: Vec<(String, Value)>,
}

impl Object {
    /// The fields.
    pub closed spec fn list(self) -> Seq<(String, Value)> {
        self.fields@
    }

    #[verifier::type_invariant]
    spec fn in_order(self) -> bool {
        keys_ascending(fields_view(self.fields@))
    }

    /// The fields, in key order.
    pub fn fields(&self) -> (r: &Vec<(String, Value)>)
        ensures
            r@ == self.list(),
            keys_ascending(fields_view(r@)),
            decreases_to!(*self => r@),
    {
        proof {
            use_type_invariant(self);
        }
        &self.fields
    }
}

/// What a [`Value`] holds.
#[verifier::ext_equal]
pub enum Json {
    /// No value.
    Null,
    /// A truth value.
    Bool(bool),
    /// A whole number.
    Number(u64),
    /// A text.
    Text(Seq<char>),
    /// A list.
    Array(Seq<Json>),
    /// Named fields.
    Object(Seq<Field>),
}

/// One named field of an object.
pub type Field = (Seq<char>, Json);

impl Value {
    /// What the value holds.
    pub open spec fn json(self) -> Json
        decreases self,
    {
        match self {
            Value::Null => Json::Null,
            Value::Bool(b) => Json::Bool(b),
            Value::Number(n) => Json::Number(n),
            Value::Text(s) => Json::Text(s@),
            Value::Array(a) => Json::Array(
                Seq::new(
                    a@.len(),
                    |i: int|
                        if 0 <= i < a@.len() {
                            a@[i].json()
                        } else {
                            Json::Null
                        },
                ),
            ),
            Value::Object(o) => Json::Object(
                Seq::new(
                    o.list().len(),
                    |i: int|
                        if 0 <= i < o.list().len() {
                            (o.list()[i].0@, o.list()[i].1.json())
                        } else {
                            (seq![], Json::Null)
                        },
                ),
            ),
        }
    }
}

impl View for Value {
    type V = Json;

    open spec fn view(&self) -> Json {
        self.json()
    }
}

/// What a list of values holds.
pub open spec fn list_view(a: Seq<Value>) -> Seq<Json> {
    Seq::new(a.len(), |i: int| a[i]@)
}

/// What a list of fields holds.
pub open spec fn fields_view(a: Seq<(String, Value)>) -> Seq<Field> {
    Seq::new(a.len(), |i: int| (a[i].0@, a[i].1@))
}

/// The view of an array and of an object is that of its members.
pub proof fn lemma_view(v: Value)
    ensures
        v matches Value::Array(a) ==> v@ == Json::Array(list_view(a@)),
        v matches Value::Object(o) ==> v@ == Json::Object(fields_view(o.list())),
{
    reveal_with_fuel(Value::json, 2);
    match v {
        Value::Array(a) => {
            assert(v@->Array_0 =~= list_view(a@));
        },
        Value::Object(o) => {
            assert(v@->Object_0 =~= fields_view(o.list()));
        },
        _ => {},
    }
}

// ---------------------------------------------------------------------------
// Compact text
// ---------------------------------------------------------------------------

/// One character inside a JSON text: the quote, the backslash and the control characters are
/// escaped, everything else stands for itself.
pub open spec fn escaped(c: char) -> Seq<char> {
    if c == '"' {
        seq!['\\', '"']
    } else if c == '\\' {
        seq!['\\', '\\']
    } else if c == '\u{8}' {
        seq!['\\', 'b']
    } else if c == '\u{9}' {
        seq!['\\', 't']
    } else if c == '\u{a}' {
        seq!['\\', 'n']
    } else if c == '\u{c}' {
        seq!['\\', 'f']
    } else if c == '\u{d}' {
        seq!['\\', 'r']
    } else if '\u{20}' > c {
        seq!['\\', 'u', '0', '0'] + hex(c as nat, 2, false)
    } else {
        seq![c]
    }
}

/// The characters of `s`, escaped.
pub open spec fn escaped_text(s: Seq<char>) -> Seq<char>
    decreases s.len(),
{
    if s.len() == 0 {
        seq![]
    } else {
        escaped_text(s.drop_last()) + escaped(s.last())
    }
}

/// `s` as a JSON text.
pub open spec fn quoted(s: Seq<char>) -> Seq<char> {
    seq!['"'] + escaped_text(s) + seq!['"']
}

/// The `Display` form of a `serde_json` text value: the characters between quotes, with the
/// quote, the backslash and the control characters escaped.
#[verifier::external_body]
fn quote(s: &str) -> (r: String)
    ensures
        r@ == quoted(s@),
{
    serde_json::Value::from(s).to_string()
}

/// The compact JSON text of a value.
pub open spec fn json_text(j: Json) -> Seq<char>
    decreases j, 0nat,
{
    match j {
        Json::Null => "null"@,
        Json::Bool(b) => if b {
            "true"@
        } else {
            "false"@
        },
        Json::Number(n) => decimal(n as nat),
        Json::Text(s) => quoted(s),
        Json::Array(a) => "["@ + items_text(a, a.len()) + "]"@,
        Json::Object(o) => "{"@ + fields_text(o, o.len()) + "}"@,
    }
}

/// The texts of the first `n` values of `a`, between commas.
pub open spec fn items_text(a: Seq<Json>, n: nat) -> Seq<char>
    decreases a, n,
{
    if n == 0 || n > a.len() {
        seq![]
    } else if n == 1 {
        json_text(a[0])
    } else {
        items_text(a, (n - 1) as nat) + ","@ + json_text(a[n - 1])
    }
}

/// The texts of the first `n` fields of `o`, between commas.
pub open spec fn fields_text(o: Seq<Field>, n: nat) -> Seq<char>
    decreases o, n,
{
    if n == 0 || n > o.len() {
        seq![]
    } else if n == 1 {
        quoted(o[0].0) + ":"@ + json_text(o[0].1)
    } else {
        fields_text(o, (n - 1) as nat) + ","@ + (quoted(o[n - 1].0) + ":"@ + json_text(o[n - 1].1))
    }
}

/// The compact JSON text of `v`, appended to `out`.
pub fn push_json(out: &mut String, v: &Value)
    ensures
        final(out)@ == old(out)@ + json_text(v@),
    decreases v,
{
    proof {
        lemma_view(*v);
    }
    match v {
        Value::Null => {
            out.append("null");
        },
        Value::Bool(b) => {
            if *b {
                out.append("true");
            } else {
                out.append("false");
            }
        },
        Value::Number(n) => {
            push_decimal(out, *n);
        },
        Value::Text(s) => {
            let q = quote(s.as_str());
            out.append(q.as_str());
        },
        Value::Array(a) => {
            out.append("[");
            let ghost items = list_view(a@);
            let mut i: usize = 0;
            assert(out@ =~= old(out)@ + "["@ + items_text(items, 0));
            while i < a.len()
                invariant
                    i <= a@.len(),
                    items == list_view(a@),
                    decreases_to!(v => a),
                    out@ == old(out)@ + "["@ + items_text(items, i as nat),
                decreases a@.len() - i,
            {
                assert(decreases_to!(a => a@));
                assert(decreases_to!(a@ => a@[i as int]));
                if i > 0 {
                    out.append(",");
                }
                push_json(out, &a[i]);
                i = i + 1;
                assert(out@ =~= old(out)@ + "["@ + items_text(items, i as nat));
            }
            out.append("]");
            assert(out@ =~= old(out)@ + json_text(v@));
        },
        Value::Object(object) => {
            let o = object.fields();
            out.append("{");
            let ghost fields = fields_view(o@);
            let mut i: usize = 0;
            assert(out@ =~= old(out)@ + "{"@ + fields_text(fields, 0));
            while i < o.len()
                invariant
                    i <= o@.len(),
                    fields == fields_view(o@),
                    decreases_to!(v => o@),
                    out@ == old(out)@ + "{"@ + fields_text(fields, i as nat),
                decreases o@.len() - i,
            {
                assert(decreases_to!(o@ => o@[i as int]));
                assert(decreases_to!(o@[i as int] => o@[i as int].1));
                if i > 0 {
                    out.append(",");
                }
                let q = quote(o[i].0.as_str());
                out.append(q.as_str());
                out.append(":");
                push_json(out, &o[i].1);
                i = i + 1;
                assert(out@ =~= old(out)@ + "{"@ + fields_text(fields, i as nat));
            }
            out.append("}");
            assert(out@ =~= old(out)@ + json_text(v@));
        },
    }
}

// ---------------------------------------------------------------------------
// Objects
// ---------------------------------------------------------------------------

/// Where a field named `key` goes among fields in key order: before the first whose key is not
/// smaller.
pub open spec fn place(s: Seq<Field>, key: Seq<char>) -> int
    decreases s.len(),
{
    if s.len() == 0 || !text_less(s[0].0, key) {
        0
    } else {
        1 + place(s.subrange(1, s.len() as int), key)
    }
}

/// The fields `fs` in key order; of fields of one key the last one stays.
pub open spec fn in_key_order(fs: Seq<Field>) -> Seq<Field>
    decreases fs.len(),
{
    if fs.len() == 0 {
        seq![]
    } else {
        with_field(in_key_order(fs.subrange(1, fs.len() as int)), fs[0])
    }
}

/// The fields `s`, which are in key order, and `f` in its place, unless its key is taken.
pub open spec fn with_field(s: Seq<Field>, f: Field) -> Seq<Field> {
    let p = place(s, f.0);
    if p < s.len() && s[p].0 == f.0 {
        s
    } else {
        s.insert(p, f)
    }
}

/// The object with the fields `fs`.
pub open spec fn object(fs: Seq<Field>) -> Json {
    Json::Object(in_key_order(fs))
}

/// Is every key of `s` smaller than the next?
pub open spec fn keys_ascending(s: Seq<Field>) -> bool {
    forall|i: int, j: int| 0 <= i < j < s.len() ==> text_less((#[trigger] s[i]).0, (#[trigger] s[j]).0)
}

/// Does every key occur once in `s`?
pub open spec fn keys_distinct(s: Seq<Field>) -> bool {
    forall|i: int, j: int| 0 <= i < j < s.len() ==> (#[trigger] s[i]).0 != (#[trigger] s[j]).0
}

/// Has `o` a field named `key`?
pub open spec fn has_key(o: Seq<Field>, key: Seq<char>) -> bool {
    exists|i: int| 0 <= i < o.len() && (#[trigger] o[i]).0 == key
}

/// Where `o` has the field named `key`.
pub open spec fn at_key(o: Seq<Field>, key: Seq<char>) -> int {
    choose|i: int| 0 <= i < o.len() && (#[trigger] o[i]).0 == key
}

/// Are the fields of every object in `j` in key order, each key once? Every [`Value`] is such.
pub open spec fn well_formed(j: Json) -> bool
    decreases j,
{
    match j {
        Json::Array(a) => forall|i: int| 0 <= i < a.len() ==> well_formed(#[trigger] a[i]),
        Json::Object(o) => {
            &&& keys_ascending(o)
            &&& forall|i: int| 0 <= i < o.len() ==> well_formed((#[trigger] o[i]).1)
        },
        _ => true,
    }
}

/// `place` is the one position with smaller keys before it that is the end or holds a key that
/// is not smaller.
pub proof fn lemma_place(s: Seq<Field>, key: Seq<char>)
    ensures
        0 <= place(s, key) <= s.len(),
        forall|i: int| 0 <= i < place(s, key) ==> text_less((#[trigger] s[i]).0, key),
        place(s, key) < s.len() ==> !text_less(s[place(s, key)].0, key),
    decreases s.len(),
{
    if s.len() == 0 || !text_less(s[0].0, key) {
    } else {
        let t = s.subrange(1, s.len() as int);
        lemma_place(t, key);
        assert forall|i: int| 0 <= i < place(s, key) implies text_less((#[trigger] s[i]).0, key) by {
            if i > 0 {
                assert(t[i - 1] == s[i]);
            }
        }
    }
}

/// A field more keeps the order of the keys.
proof fn lemma_with_field(s: Seq<Field>, f: Field)
    requires
        keys_ascending(s),
    ensures
        keys_ascending(with_field(s, f)),
{
    lemma_place(s, f.0);
    let p = place(s, f.0);
    let all = with_field(s, f);
    if !(p < s.len() && s[p].0 == f.0) {
        assert forall|i: int, j: int| 0 <= i < j < all.len() implies text_less(
            (#[trigger] all[i]).0,
            (#[trigger] all[j]).0,
        ) by {
            if j < p {
                assert(all[i] == s[i] && all[j] == s[j]);
            } else if j == p {
                assert(all[i] == s[i]);
            } else {
                assert(all[j] == s[j - 1]);
                if i < p {
                    assert(all[i] == s[i]);
                } else if i == p {
                    lemma_text_order_total(s[p].0, f.0);
                    if j - 1 > p {
                        lemma_text_order_transitive(f.0, s[p].0, s[j - 1].0);
                    }
                } else {
                    assert(all[i] == s[i - 1]);
                }
            }
        }
    }
}

/// The fields of an object stand in key order, each key once. They are fields that it was made of,
/// and no key is lost.
pub proof fn law_object_fields(fs: Seq<Field>)
    ensures
        keys_ascending(in_key_order(fs)),
        forall|i: int|
            0 <= i < in_key_order(fs).len() ==> fs.contains(#[trigger] in_key_order(fs)[i]),
        forall|i: int| 0 <= i < fs.len() ==> has_key(in_key_order(fs), (#[trigger] fs[i]).0),
    decreases fs.len(),
{
    if fs.len() > 0 {
        let tail = fs.subrange(1, fs.len() as int);
        let rest = in_key_order(tail);
        law_object_fields(tail);
        lemma_with_field(rest, fs[0]);
        lemma_place(rest, fs[0].0);
        let p = place(rest, fs[0].0);
        let all = in_key_order(fs);
        let put = !(p < rest.len() && rest[p].0 == fs[0].0);
        assert forall|i: int| 0 <= i < all.len() implies fs.contains(#[trigger] all[i]) by {
            if put && i == p {
                assert(all[i] == fs[0]);
            } else {
                let q = if put && i > p {
                    i - 1
                } else {
                    i
                };
                assert(all[i] == rest[q]);
                let k = choose|k: int| 0 <= k < tail.len() && tail[k] == rest[q];
                assert(fs[k + 1] == rest[q]);
            }
        }
        assert forall|i: int| 0 <= i < fs.len() implies has_key(all, (#[trigger] fs[i]).0) by {
            if i == 0 {
                assert(all[p].0 == fs[0].0);
            } else {
                assert(tail[i - 1] == fs[i]);
                let q = at_key(rest, fs[i].0);
                assert(rest[q].0 == fs[i].0);
                if put && q >= p {
                    assert(all[q + 1] == rest[q]);
                } else {
                    assert(all[q] == rest[q]);
                }
            }
        }
    }
}

/// Of distinct keys each makes a field more.
pub proof fn lemma_new_key(fs: Seq<Field>)
    requires
        fs.len() > 0,
        keys_distinct(fs),
    ensures
        keys_distinct(fs.subrange(1, fs.len() as int)),
        in_key_order(fs) == in_key_order(fs.subrange(1, fs.len() as int)).insert(
            place(in_key_order(fs.subrange(1, fs.len() as int)), fs[0].0),
            fs[0],
        ),
{
    let tail = fs.subrange(1, fs.len() as int);
    let rest = in_key_order(tail);
    law_object_fields(tail);
    assert forall|i: int, j: int| 0 <= i < j < tail.len() implies (#[trigger] tail[i]).0 != (
    #[trigger] tail[j]).0 by {
        assert(tail[i] == fs[i + 1] && tail[j] == fs[j + 1]);
    }
    let p = place(rest, fs[0].0);
    lemma_place(rest, fs[0].0);
    if p < rest.len() && rest[p].0 == fs[0].0 {
        let k = choose|k: int| 0 <= k < tail.len() && tail[k] == rest[p];
        assert(fs[k + 1] == rest[p]);
        assert(fs[0].0 != fs[k + 1].0);
    }
}

/// An object made of distinct keys keeps all its fields.
pub proof fn law_object_keeps_distinct_fields(fs: Seq<Field>)
    requires
        keys_distinct(fs),
    ensures
        in_key_order(fs).len() == fs.len(),
        in_key_order(fs).to_multiset() == fs.to_multiset(),
    decreases fs.len(),
{
    broadcast use vstd::seq_lib::group_to_multiset_ensures;

    if fs.len() > 0 {
        let tail = fs.subrange(1, fs.len() as int);
        let rest = in_key_order(tail);
        lemma_new_key(fs);
        law_object_keeps_distinct_fields(tail);
        lemma_place(rest, fs[0].0);
        let all = rest.insert(place(rest, fs[0].0), fs[0]);
        assert(fs =~= tail.insert(0, fs[0]));
        assert(tail.insert(0, fs[0]).to_multiset() == tail.to_multiset().insert(fs[0]));
        assert(all.to_multiset() == rest.to_multiset().insert(fs[0]));
    }
}

/// An object whose values are well formed is well formed.
pub proof fn lemma_object_well_formed(fs: Seq<Field>)
    requires
        forall|i: int| 0 <= i < fs.len() ==> well_formed((#[trigger] fs[i]).1),
    ensures
        well_formed(object(fs)),
{
    law_object_fields(fs);
    let all = in_key_order(fs);
    assert forall|i: int| 0 <= i < all.len() implies well_formed((#[trigger] all[i]).1) by {
        let k = choose|k: int| 0 <= k < fs.len() && fs[k] == all[i];
        assert(fs[k] == all[i]);
    }
}

/// The keys of `s`.
pub open spec fn keys_of(s: Seq<Field>) -> Seq<Seq<char>> {
    Seq::new(s.len(), |i: int| s[i].0)
}

/// Only keys decide where a field goes.
pub proof fn lemma_place_by_keys(a: Seq<Field>, b: Seq<Field>, key: Seq<char>)
    requires
        keys_of(a) == keys_of(b),
    ensures
        place(a, key) == place(b, key),
    decreases a.len(),
{
    assert(a.len() == keys_of(a).len() && b.len() == keys_of(b).len());
    if a.len() > 0 {
        assert(a[0].0 == keys_of(a)[0] && b[0].0 == keys_of(b)[0]);
        let a1 = a.subrange(1, a.len() as int);
        let b1 = b.subrange(1, b.len() as int);
        assert forall|i: int| 0 <= i < a1.len() implies keys_of(a1)[i] == keys_of(b1)[i] by {
            assert(keys_of(a)[i + 1] == keys_of(b)[i + 1]);
        }
        assert(keys_of(a1) =~= keys_of(b1));
        lemma_place_by_keys(a1, b1, key);
    }
}

/// Objects made of the same keys, each given once, are the same only where every key has the same
/// value.
pub proof fn law_object_injective(a: Seq<Field>, b: Seq<Field>)
    requires
        keys_of(a) == keys_of(b),
        keys_distinct(a),
    ensures
        keys_of(in_key_order(a)) == keys_of(in_key_order(b)),
        in_key_order(a) == in_key_order(b) ==> a == b,
    decreases a.len(),
{
    assert(a.len() == keys_of(a).len() && b.len() == keys_of(b).len());
    if a.len() > 0 {
        let a1 = a.subrange(1, a.len() as int);
        let b1 = b.subrange(1, b.len() as int);
        assert forall|i: int| 0 <= i < a1.len() implies keys_of(a1)[i] == keys_of(b1)[i] by {
            assert(keys_of(a)[i + 1] == keys_of(b)[i + 1]);
        }
        assert(keys_of(a1) =~= keys_of(b1));
        assert(a[0].0 == keys_of(a)[0] && b[0].0 == keys_of(b)[0]);
        assert(keys_distinct(b)) by {
            assert forall|i: int, j: int| 0 <= i < j < b.len() implies (#[trigger] b[i]).0 != (
            #[trigger] b[j]).0 by {
                assert(b[i].0 == keys_of(a)[i] && b[j].0 == keys_of(a)[j]);
                assert(a[i].0 != a[j].0);
            }
        }
        lemma_new_key(a);
        lemma_new_key(b);
        law_object_injective(a1, b1);
        let ra = in_key_order(a1);
        let rb = in_key_order(b1);
        lemma_place_by_keys(ra, rb, a[0].0);
        lemma_place(ra, a[0].0);
        lemma_place(rb, a[0].0);
        let p = place(ra, a[0].0);
        let sa = in_key_order(a);
        let sb = in_key_order(b);
        assert(sa == ra.insert(p, a[0]));
        assert(sb == rb.insert(p, b[0]));
        assert(keys_of(ra).len() == ra.len() && keys_of(rb).len() == rb.len());
        assert forall|i: int| 0 <= i < sa.len() implies keys_of(sa)[i] == keys_of(sb)[i] by {
            if i < p {
                assert(keys_of(ra)[i] == keys_of(rb)[i]);
            } else if i > p {
                assert(keys_of(ra)[i - 1] == keys_of(rb)[i - 1]);
            }
        }
        assert(keys_of(sa) =~= keys_of(sb));
        if sa == sb {
            assert(sa[p] == a[0] && sb[p] == b[0]);
            assert forall|i: int| 0 <= i < ra.len() implies ra[i] == rb[i] by {
                if i < p {
                    assert(sa[i] == ra[i] && sb[i] == rb[i]);
                } else {
                    assert(sa[i + 1] == ra[i] && sb[i + 1] == rb[i]);
                }
            }
            assert(ra =~= rb);
            assert forall|i: int| 0 <= i < a.len() implies a[i] == b[i] by {
                if i > 0 {
                    assert(a1[i - 1] == b1[i - 1]);
                }
            }
            assert(a =~= b);
        }
    } else {
        assert(a =~= b);
    }
}

/// The object with the fields `fields`; of fields of one key the last one stays.
pub fn object_of(fields: Vec<(String, Value)>) -> (r: Value)
    ensures
        r@ == object(fields_view(fields@)),
{
    let mut left = fields;
    let ghost all = fields_view(fields@);
    let mut out: Vec<(String, Value)> = Vec::new();
    proof {
        assert(fields_view(out@) =~= in_key_order(all.subrange(all.len() as int, all.len() as int)));
    }
    while left.len() > 0
        invariant
            left@.len() <= all.len(),
            fields_view(left@) == all.subrange(0, left@.len() as int),
            fields_view(out@) == in_key_order(all.subrange(left@.len() as int, all.len() as int)),
        decreases left@.len(),
    {
        let ghost n = left@.len() as int;
        let ghost rest = fields_view(out@);
        assert(fields_view(left@)[n - 1] == all[n - 1]);
        let ghost before = fields_view(left@);
        if let Some(f) = left.pop() {
            let ghost key = f.0@;
            proof {
                lemma_place(rest, key);
                let tail = all.subrange(n - 1, all.len() as int);
                assert(tail.subrange(1, tail.len() as int) =~= all.subrange(n, all.len() as int));
                assert(tail[0] == all[n - 1]);
                assert((f.0@, f.1@) == all[n - 1]);
            }
            let ghost list = out@;
            let mut p: usize = 0;
            while p < out.len() && comes_before(out[p].0.as_str(), f.0.as_str())
                invariant
                    p <= out@.len(),
                    out@ == list,
                    rest == fields_view(list),
                    key == f.0@,
                    forall|i: int| 0 <= i < p ==> text_less((#[trigger] rest[i]).0, key),
                decreases out@.len() - p,
            {
                assert(rest[p as int].0 == out@[p as int].0@);
                p = p + 1;
            }
            proof {
                let q = place(rest, key);
                if p < out@.len() {
                    assert(rest[p as int].0 == out@[p as int].0@);
                }
                if q < p {
                    assert(text_less(rest[q].0, key));
                } else if p < q {
                    assert(text_less(rest[p as int].0, key));
                }
                assert(p == q);
            }
            let taken = p < out.len() && out[p].0 == f.0;
            if !taken {
                let ghost moved = (f.0@, f.1@);
                out.insert(p, f);
                assert(fields_view(out@) =~= rest.insert(p as int, moved));
            }
            proof {
                assert(fields_view(left@) =~= before.subrange(0, n - 1));
                assert(fields_view(left@) =~= all.subrange(0, n - 1));
            }
        }
    }
    proof {
        assert(all.subrange(0, all.len() as int) =~= all);
        law_object_fields(all);
    }
    let r = Value::Object(Object { fields: out });
    proof {
        lemma_view(r);
    }
    r
}

/// The text of a list is its values' texts between brackets and commas: a value more adds a comma
/// and its text at the end.
pub proof fn law_array_text(a: Seq<Json>, more: Json)
    ensures
        json_text(Json::Array(seq![])) == "["@ + "]"@,
        json_text(Json::Array(seq![more])) == "["@ + json_text(more) + "]"@,
        a.len() > 0 ==> json_text(Json::Array(a.push(more))) == json_text(
            Json::Array(a),
        ).drop_last() + ","@ + json_text(more) + "]"@,
        json_text(Json::Array(a)).last() == ']',
{
    reveal_strlit("]");
    let all = a.push(more);
    lemma_items_before(a, more, a.len());
    assert("["@ + Seq::<char>::empty() =~= "["@);
    assert(seq![more][0] == more);
    let whole = json_text(Json::Array(a));
    assert(whole.drop_last() =~= "["@ + items_text(a, a.len()));
    if a.len() > 0 {
        assert(items_text(all, all.len()) == items_text(a, a.len()) + ","@ + json_text(more));
        assert("["@ + (items_text(a, a.len()) + ","@ + json_text(more)) + "]"@ =~= "["@
            + items_text(a, a.len()) + ","@ + json_text(more) + "]"@);
    }
}

proof fn lemma_items_before(a: Seq<Json>, more: Json, n: nat)
    requires
        n <= a.len(),
    ensures
        items_text(a.push(more), n) == items_text(a, n),
    decreases n,
{
    if n > 0 {
        lemma_items_before(a, more, (n - 1) as nat);
    }
}

/// The text of an object is its fields' texts between braces and commas, each the quoted name, a
/// colon and the value: a field more adds a comma and its text at the end.
pub proof fn law_object_text(o: Seq<Field>, name: Seq<char>, value: Json)
    ensures
        json_text(Json::Object(seq![])) == "{"@ + "}"@,
        json_text(Json::Object(seq![(name, value)])) == "{"@ + (quoted(name) + ":"@ + json_text(
            value,
        )) + "}"@,
        o.len() > 0 ==> json_text(Json::Object(o.push((name, value)))) == json_text(
            Json::Object(o),
        ).drop_last() + ","@ + (quoted(name) + ":"@ + json_text(value)) + "}"@,
        json_text(Json::Object(o)).last() == '}',
{
    reveal_strlit("}");
    let all = o.push((name, value));
    lemma_fields_before(o, (name, value), o.len());
    assert("{"@ + Seq::<char>::empty() =~= "{"@);
    assert(seq![(name, value)][0] == (name, value));
    let whole = json_text(Json::Object(o));
    assert(whole.drop_last() =~= "{"@ + fields_text(o, o.len()));
    if o.len() > 0 {
        let last = quoted(name) + ":"@ + json_text(value);
        assert(fields_text(all, all.len()) == fields_text(o, o.len()) + ","@ + last);
        assert("{"@ + (fields_text(o, o.len()) + ","@ + last) + "}"@ =~= "{"@ + fields_text(
            o,
            o.len(),
        ) + ","@ + last + "}"@);
    }
}

proof fn lemma_fields_before(o: Seq<Field>, more: Field, n: nat)
    requires
        n <= o.len(),
    ensures
        fields_text(o.push(more), n) == fields_text(o, n),
    decreases n,
{
    if n > 0 {
        lemma_fields_before(o, more, (n - 1) as nat);
    }
}

/// The texts of the values that hold no others.
pub proof fn law_plain_texts(n: u64, s: Seq<char>)
    ensures
        json_text(Json::Null) == "null"@,
        json_text(Json::Bool(true)) == "true"@,
        json_text(Json::Bool(false)) == "false"@,
        json_text(Json::Number(n)) == decimal(n as nat),
        json_text(Json::Text(s)) == quoted(s),
{
}

/// Of the fields of one key the last one stays, and it stays as it was given.
pub proof fn law_last_field_of_a_key_stays(fs: Seq<Field>, i: int)
    requires
        0 <= i < fs.len(),
        forall|j: int| i < j < fs.len() ==> (#[trigger] fs[j]).0 != fs[i].0,
    ensures
        in_key_order(fs).contains(fs[i]),
    decreases fs.len(),
{
    let tail = fs.subrange(1, fs.len() as int);
    let rest = in_key_order(tail);
    let p = place(rest, fs[0].0);
    let all = in_key_order(fs);
    law_object_fields(tail);
    lemma_place(rest, fs[0].0);
    let put = !(p < rest.len() && rest[p].0 == fs[0].0);
    if i == 0 {
        if !put {
            let k = choose|k: int| 0 <= k < tail.len() && tail[k] == rest[p];
            assert(fs[k + 1] == rest[p]);
            assert(fs[k + 1].0 != fs[0].0);
        }
        assert(all[p] == fs[0]);
    } else {
        assert(tail[i - 1] == fs[i]);
        assert forall|j: int| i - 1 < j < tail.len() implies (#[trigger] tail[j]).0 != tail[i
            - 1].0 by {
            assert(tail[j] == fs[j + 1]);
        }
        law_last_field_of_a_key_stays(tail, i - 1);
        let q = choose|q: int| 0 <= q < rest.len() && rest[q] == fs[i];
        if put && q >= p {
            assert(all[q + 1] == fs[i]);
        } else {
            assert(all[q] == fs[i]);
        }
    }
}

/// An object of distinct keys has every field that it was made of.
pub proof fn lemma_every_field_stays(fs: Seq<Field>)
    requires
        keys_distinct(fs),
    ensures
        forall|i: int| 0 <= i < fs.len() ==> in_key_order(fs).contains(#[trigger] fs[i]),
{
    assert forall|i: int| 0 <= i < fs.len() implies in_key_order(fs).contains(#[trigger] fs[i]) by {
        law_last_field_of_a_key_stays(fs, i);
    }
}

/// The view of a value tells all that it holds.
pub proof fn law_value_views(
    b: bool,
    n: u64,
    s: String,
    a: Vec<Value>,
    o: Object,
    i: int,
)
    ensures
        Value::Null@ == Json::Null,
        Value::Bool(b)@ == Json::Bool(b),
        Value::Number(n)@ == Json::Number(n),
        Value::Text(s)@ == Json::Text(s@),
        Value::Array(a)@ is Array,
        Value::Array(a)@->Array_0.len() == a@.len(),
        0 <= i < a@.len() ==> Value::Array(a)@->Array_0[i] == a@[i]@,
        Value::Object(o)@ is Object,
        Value::Object(o)@->Object_0.len() == o.list().len(),
        0 <= i < o.list().len() ==> Value::Object(o)@->Object_0[i] == (
            o.list()[i].0@,
            o.list()[i].1@,
        ),
{
    lemma_view(Value::Array(a));
    lemma_view(Value::Object(o));
}

} // verus!
