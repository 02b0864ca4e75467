//! The differences between two JSON values, as lines of the form `path: old -> new`.
use crate::json::{
    at_key, fields_view, has_key, in_key_order, json_text, keys_ascending, keys_distinct, keys_of,
    law_object_fields, lemma_new_key, lemma_object_well_formed, lemma_place, lemma_place_by_keys,
    lemma_view, list_view, object, place, push_json, well_formed, Field, Json, Value,
};
use crate::number::{decimal, push_decimal};
use crate::text::{comes_before, lemma_text_order_total, lemma_text_order_transitive, text_less, texts};
use vstd::prelude::*;

verus! {

/// The path of the field `key` of the object at `path`.
pub open spec fn field_path(path: Seq<char>, key: Seq<char>) -> Seq<char> {
    if path.len() == 0 {
        key
    } else {
        path + "."@ + key
    }
}

/// The path of the element `i` of the list at `path`.
pub open spec fn item_path(path: Seq<char>, i: nat) -> Seq<char> {
    path + "["@ + decimal(i) + "]"@
}

/// The line for a value that is in the old value only.
pub open spec fn removed_line(path: Seq<char>, old_value: Json) -> Seq<char> {
    path + ": "@ + json_text(old_value) + " -> (removed)"@
}

/// The line for a value that is in the new value only.
pub open spec fn added_line(path: Seq<char>, new_value: Json) -> Seq<char> {
    path + ": (added) -> "@ + json_text(new_value)
}

/// The line for a value that was replaced.
pub open spec fn changed_line(path: Seq<char>, old_value: Json, new_value: Json) -> Seq<char> {
    path + ": "@ + json_text(old_value) + " -> "@ + json_text(new_value)
}

/// One difference between two values.
#[verifier::ext_equal]
pub enum Change {
    /// The value at this path was replaced: the old one, then the new one.
    Changed(Seq<char>, Json, Json),
    /// The value at this path is in the old value only.
    Removed(Seq<char>, Json),
    /// The value at this path is in the new value only.
    Added(Seq<char>, Json),
}

impl Change {
    /// Where the difference is.
    pub open spec fn path(self) -> Seq<char> {
        match self {
            Change::Changed(p, _, _) => p,
            Change::Removed(p, _) => p,
            Change::Added(p, _) => p,
        }
    }

    /// The line that says so.
    pub open spec fn line(self) -> Seq<char> {
        match self {
            Change::Changed(p, x, y) => changed_line(p, x, y),
            Change::Removed(p, x) => removed_line(p, x),
            Change::Added(p, y) => added_line(p, y),
        }
    }

    /// The same difference the other way round.
    pub open spec fn mirrored(self) -> Change {
        match self {
            Change::Changed(p, x, y) => Change::Changed(p, y, x),
            Change::Removed(p, x) => Change::Added(p, x),
            Change::Added(p, y) => Change::Removed(p, y),
        }
    }
}

/// The lines that say the differences `cs`.
pub open spec fn lines_of(cs: Seq<Change>) -> Seq<Seq<char>> {
    Seq::new(cs.len(), |i: int| cs[i].line())
}

/// The differences `cs` the other way round.
pub open spec fn all_mirrored(cs: Seq<Change>) -> Seq<Change> {
    Seq::new(cs.len(), |i: int| cs[i].mirrored())
}

/// The keys of `oa` and of `ob`, each once, in order.
pub open spec fn all_keys(oa: Seq<Field>, ob: Seq<Field>) -> Seq<Seq<char>> {
    keys_of(in_key_order(oa + ob))
}

/// The differences between `a` and `b` at `path`: objects key by key in key order, lists element
/// by element, anything else as a whole.
pub open spec fn changes(path: Seq<char>, a: Json, b: Json) -> Seq<Change>
    decreases a, 0nat,
{
    match (a, b) {
        (Json::Object(oa), Json::Object(ob)) => {
            let keys = all_keys(oa, ob);
            key_changes(path, oa, ob, keys, keys.len())
        },
        (Json::Array(aa), Json::Array(ab)) => item_changes(path, aa, ab, 0),
        _ => if a != b {
            seq![Change::Changed(path, a, b)]
        } else {
            seq![]
        },
    }
}

/// The differences between the fields of `oa` and `ob` under the first `n` of `keys`.
pub open spec fn key_changes(
    path: Seq<char>,
    oa: Seq<Field>,
    ob: Seq<Field>,
    keys: Seq<Seq<char>>,
    n: nat,
) -> Seq<Change>
    decreases oa, n,
{
    if n == 0 || n > keys.len() {
        seq![]
    } else {
        key_changes(path, oa, ob, keys, (n - 1) as nat) + one_key(path, oa, ob, keys[n - 1])
    }
}

/// The differences between the fields of `oa` and `ob` under `key`.
pub open spec fn one_key(path: Seq<char>, oa: Seq<Field>, ob: Seq<Field>, key: Seq<char>) -> Seq<
    Change,
>
    decreases oa, 0nat,
{
    let child = field_path(path, key);
    if has_key(oa, key) && has_key(ob, key) {
        changes(child, oa[at_key(oa, key)].1, ob[at_key(ob, key)].1)
    } else if has_key(oa, key) {
        seq![Change::Removed(child, oa[at_key(oa, key)].1)]
    } else if has_key(ob, key) {
        seq![Change::Added(child, ob[at_key(ob, key)].1)]
    } else {
        seq![]
    }
}

/// The differences between the elements of `aa` and `ab` from the `i`-th on.
pub open spec fn item_changes(path: Seq<char>, aa: Seq<Json>, ab: Seq<Json>, i: nat) -> Seq<Change>
    decreases aa, aa.len() + ab.len() - i,
{
    if i >= aa.len() && i >= ab.len() {
        seq![]
    } else if i >= ab.len() {
        seq![Change::Removed(item_path(path, i), aa[i as int])] + item_changes(path, aa, ab, i + 1)
    } else if i >= aa.len() {
        seq![Change::Added(item_path(path, i), ab[i as int])] + item_changes(path, aa, ab, i + 1)
    } else {
        changes(item_path(path, i), aa[i as int], ab[i as int]) + item_changes(path, aa, ab, i + 1)
    }
}

/// The differences between `a` and `b` at `path`, as lines.
pub open spec fn diff_lines(path: Seq<char>, a: Json, b: Json) -> Seq<Seq<char>> {
    lines_of(changes(path, a, b))
}

// ---------------------------------------------------------------------------
// Two objects side by side
// ---------------------------------------------------------------------------

/// The differences between the fields `oa[i..]` and `ob[j..]`, both in key order.
spec fn merged(path: Seq<char>, oa: Seq<Field>, ob: Seq<Field>, i: nat, j: nat) -> Seq<Change>
    decreases oa.len() - i + ob.len() - j,
{
    if i > oa.len() || j > ob.len() || (i == oa.len() && j == ob.len()) {
        seq![]
    } else if j == ob.len() || (i < oa.len() && text_less(oa[i as int].0, ob[j as int].0)) {
        seq![Change::Removed(field_path(path, oa[i as int].0), oa[i as int].1)] + merged(
            path,
            oa,
            ob,
            i + 1,
            j,
        )
    } else if i == oa.len() || text_less(ob[j as int].0, oa[i as int].0) {
        seq![Change::Added(field_path(path, ob[j as int].0), ob[j as int].1)] + merged(
            path,
            oa,
            ob,
            i,
            j + 1,
        )
    } else {
        changes(field_path(path, oa[i as int].0), oa[i as int].1, ob[j as int].1) + merged(
            path,
            oa,
            ob,
            i + 1,
            j + 1,
        )
    }
}

/// Are the first `n` of `keys` the keys of `oa[..i]` and `ob[..j]`, and the others those of the
/// rest?
spec fn split_at(
    oa: Seq<Field>,
    ob: Seq<Field>,
    keys: Seq<Seq<char>>,
    i: nat,
    j: nat,
    n: nat,
) -> bool {
    &&& i <= oa.len()
    &&& j <= ob.len()
    &&& n <= keys.len()
    &&& forall|m: int, k: int|
        0 <= m < n && i <= k < oa.len() ==> text_less(#[trigger] keys[m], (#[trigger] oa[k]).0)
    &&& forall|m: int, k: int|
        0 <= m < n && j <= k < ob.len() ==> text_less(#[trigger] keys[m], (#[trigger] ob[k]).0)
    &&& forall|m: int, k: int|
        n <= m < keys.len() && 0 <= k < i ==> text_less((#[trigger] oa[k]).0, #[trigger] keys[m])
    &&& forall|m: int, k: int|
        n <= m < keys.len() && 0 <= k < j ==> text_less((#[trigger] ob[k]).0, #[trigger] keys[m])
}

/// The keys of two objects are in order, each once: every key of either, and no other.
pub proof fn law_keys_are_the_sorted_union(oa: Seq<Field>, ob: Seq<Field>)
    ensures
        forall|m: int, k: int|
            0 <= m < k < all_keys(oa, ob).len() ==> text_less(
                #[trigger] all_keys(oa, ob)[m],
                #[trigger] all_keys(oa, ob)[k],
            ),
        forall|m: int|
            0 <= m < all_keys(oa, ob).len() ==> has_key(oa, #[trigger] all_keys(oa, ob)[m])
                || has_key(ob, all_keys(oa, ob)[m]),
        forall|k: int| 0 <= k < oa.len() ==> all_keys(oa, ob).contains((#[trigger] oa[k]).0),
        forall|k: int| 0 <= k < ob.len() ==> all_keys(oa, ob).contains((#[trigger] ob[k]).0),
{
    let both = oa + ob;
    let all = in_key_order(both);
    let keys = all_keys(oa, ob);
    law_object_fields(both);
    assert forall|m: int, k: int| 0 <= m < k < keys.len() implies text_less(
        #[trigger] keys[m],
        #[trigger] keys[k],
    ) by {
        assert(keys[m] == all[m].0 && keys[k] == all[k].0);
    }
    assert forall|m: int| 0 <= m < keys.len() implies has_key(oa, #[trigger] keys[m]) || has_key(
        ob,
        keys[m],
    ) by {
        assert(keys[m] == all[m].0);
        let k = choose|k: int| 0 <= k < both.len() && both[k] == all[m];
        if k < oa.len() {
            assert(oa[k] == all[m]);
        } else {
            assert(ob[k - oa.len()] == all[m]);
        }
    }
    assert forall|k: int| 0 <= k < oa.len() implies keys.contains((#[trigger] oa[k]).0) by {
        assert(both[k] == oa[k]);
        let m = at_key(all, oa[k].0);
        assert(all[m].0 == oa[k].0);
        assert(keys[m] == oa[k].0);
    }
    assert forall|k: int| 0 <= k < ob.len() implies keys.contains((#[trigger] ob[k]).0) by {
        assert(both[k + oa.len()] == ob[k]);
        let m = at_key(all, ob[k].0);
        assert(all[m].0 == ob[k].0);
        assert(keys[m] == ob[k].0);
    }
}

/// In fields in key order a key stands in one place.
proof fn lemma_at_key(o: Seq<Field>, k: int)
    requires
        keys_ascending(o),
        0 <= k < o.len(),
    ensures
        has_key(o, o[k].0),
        at_key(o, o[k].0) == k,
{
    assert(o[k].0 == o[k].0);
    let p = at_key(o, o[k].0);
    assert(0 <= p < o.len() && o[p].0 == o[k].0);
    lemma_text_order_total(o[p].0, o[k].0);
    if p < k {
        assert(text_less(o[p].0, o[k].0));
    } else if k < p {
        assert(text_less(o[k].0, o[p].0));
    }
}

/// A key before the rest of fields in key order, and after what stands before it, is not there.
proof fn lemma_no_key(o: Seq<Field>, k: nat, key: Seq<char>)
    requires
        k <= o.len(),
        forall|m: int| 0 <= m < k ==> text_less((#[trigger] o[m]).0, key),
        forall|m: int| k <= m < o.len() ==> text_less(key, (#[trigger] o[m]).0),
    ensures
        !has_key(o, key),
{
    if has_key(o, key) {
        let p = at_key(o, key);
        assert(o[p].0 == key);
        lemma_text_order_total(key, key);
    }
}

/// The smallest key of what is left of two objects is the next of all keys.
proof fn lemma_next_key(
    oa: Seq<Field>,
    ob: Seq<Field>,
    i: nat,
    j: nat,
    n: nat,
    key: Seq<char>,
)
    requires
        keys_ascending(oa),
        keys_ascending(ob),
        split_at(oa, ob, all_keys(oa, ob), i, j, n),
        (i < oa.len() && oa[i as int].0 == key) || (j < ob.len() && ob[j as int].0 == key),
        i < oa.len() ==> key == oa[i as int].0 || text_less(key, oa[i as int].0),
        j < ob.len() ==> key == ob[j as int].0 || text_less(key, ob[j as int].0),
    ensures
        n < all_keys(oa, ob).len(),
        all_keys(oa, ob)[n as int] == key,
{
    let keys = all_keys(oa, ob);
    law_keys_are_the_sorted_union(oa, ob);
    assert(keys.contains(key)) by {
        if i < oa.len() && oa[i as int].0 == key {
            assert(keys.contains(oa[i as int].0));
        } else {
            assert(keys.contains(ob[j as int].0));
        }
    }
    let m = choose|m: int| 0 <= m < keys.len() && keys[m] == key;
    lemma_text_order_total(key, key);
    if m < n {
        assert(text_less(keys[m], key)) by {
            if i < oa.len() && oa[i as int].0 == key {
                assert(text_less(keys[m], oa[i as int].0));
            } else {
                assert(text_less(keys[m], ob[j as int].0));
            }
        }
    } else if m > n {
        let x = keys[n as int];
        assert(text_less(x, keys[m]));
        lemma_text_order_total(x, key);
        lemma_text_order_total(x, x);
        if has_key(oa, x) {
            let k = at_key(oa, x);
            assert(oa[k].0 == x);
            if k < i {
                assert(text_less(oa[k].0, keys[n as int]));
            } else {
                if k > i {
                    assert(text_less(oa[i as int].0, oa[k].0));
                    if key != oa[i as int].0 {
                        lemma_text_order_transitive(key, oa[i as int].0, oa[k].0);
                    }
                }
                assert(key == x || text_less(key, x));
            }
        } else {
            let k = at_key(ob, x);
            assert(ob[k].0 == x);
            if k < j {
                assert(text_less(ob[k].0, keys[n as int]));
            } else {
                if k > j {
                    assert(text_less(ob[j as int].0, ob[k].0));
                    if key != ob[j as int].0 {
                        lemma_text_order_transitive(key, ob[j as int].0, ob[k].0);
                    }
                }
                assert(key == x || text_less(key, x));
            }
        }
    }
}

/// Stepping over the smallest key of what is left splits the keys one further.
proof fn lemma_step(
    oa: Seq<Field>,
    ob: Seq<Field>,
    i: nat,
    j: nat,
    n: nat,
    key: Seq<char>,
    di: nat,
    dj: nat,
)
    requires
        keys_ascending(oa),
        keys_ascending(ob),
        split_at(oa, ob, all_keys(oa, ob), i, j, n),
        n < all_keys(oa, ob).len(),
        all_keys(oa, ob)[n as int] == key,
        di == if i < oa.len() && oa[i as int].0 == key {
            1nat
        } else {
            0nat
        },
        dj == if j < ob.len() && ob[j as int].0 == key {
            1nat
        } else {
            0nat
        },
        i < oa.len() ==> key == oa[i as int].0 || text_less(key, oa[i as int].0),
        j < ob.len() ==> key == ob[j as int].0 || text_less(key, ob[j as int].0),
    ensures
        split_at(oa, ob, all_keys(oa, ob), i + di, j + dj, n + 1),
        forall|m: int| 0 <= m < i ==> text_less((#[trigger] oa[m]).0, key),
        forall|m: int| i + di <= m < oa.len() ==> text_less(key, (#[trigger] oa[m]).0),
        forall|m: int| 0 <= m < j ==> text_less((#[trigger] ob[m]).0, key),
        forall|m: int| j + dj <= m < ob.len() ==> text_less(key, (#[trigger] ob[m]).0),
{
    let keys = all_keys(oa, ob);
    law_keys_are_the_sorted_union(oa, ob);
    assert forall|m: int| 0 <= m < i implies text_less((#[trigger] oa[m]).0, key) by {
        assert(text_less(oa[m].0, keys[n as int]));
    }
    assert forall|m: int| 0 <= m < j implies text_less((#[trigger] ob[m]).0, key) by {
        assert(text_less(ob[m].0, keys[n as int]));
    }
    assert forall|m: int| i + di <= m < oa.len() implies text_less(key, (#[trigger] oa[m]).0) by {
        if m > i {
            assert(text_less(oa[i as int].0, oa[m].0));
            if key != oa[i as int].0 {
                lemma_text_order_transitive(key, oa[i as int].0, oa[m].0);
            }
        }
    }
    assert forall|m: int| j + dj <= m < ob.len() implies text_less(key, (#[trigger] ob[m]).0) by {
        if m > j {
            assert(text_less(ob[j as int].0, ob[m].0));
            if key != ob[j as int].0 {
                lemma_text_order_transitive(key, ob[j as int].0, ob[m].0);
            }
        }
    }
    assert forall|m: int, k: int| n < m < keys.len() && 0 <= k < i + di implies text_less(
        (#[trigger] oa[k]).0,
        #[trigger] keys[m],
    ) by {
        assert(text_less(keys[n as int], keys[m]));
        if k < i {
            assert(text_less(oa[k].0, keys[m]));
        }
    }
    assert forall|m: int, k: int| n < m < keys.len() && 0 <= k < j + dj implies text_less(
        (#[trigger] ob[k]).0,
        #[trigger] keys[m],
    ) by {
        assert(text_less(keys[n as int], keys[m]));
        if k < j {
            assert(text_less(ob[k].0, keys[m]));
        }
    }
}

/// Side by side two objects differ as they do key by key.
proof fn lemma_merged_rest(path: Seq<char>, oa: Seq<Field>, ob: Seq<Field>, i: nat, j: nat, n: nat)
    requires
        keys_ascending(oa),
        keys_ascending(ob),
        split_at(oa, ob, all_keys(oa, ob), i, j, n),
    ensures
        key_changes(path, oa, ob, all_keys(oa, ob), n) + merged(path, oa, ob, i, j) == key_changes(
            path,
            oa,
            ob,
            all_keys(oa, ob),
            all_keys(oa, ob).len(),
        ),
    decreases oa.len() - i + ob.len() - j,
{
    let keys = all_keys(oa, ob);
    let done = key_changes(path, oa, ob, keys, n);
    if i == oa.len() && j == ob.len() {
        law_keys_are_the_sorted_union(oa, ob);
        if n < keys.len() {
            let x = keys[n as int];
            lemma_text_order_total(x, x);
            assert(has_key(oa, x) || has_key(ob, x));
            if has_key(oa, x) {
                assert(oa[at_key(oa, x)].0 == x);
            } else {
                assert(ob[at_key(ob, x)].0 == x);
            }
        }
        assert(done + merged(path, oa, ob, i, j) =~= done);
    } else {
        let a_first = j == ob.len() || (i < oa.len() && text_less(oa[i as int].0, ob[j as int].0));
        let b_first = i == oa.len() || (j < ob.len() && text_less(ob[j as int].0, oa[i as int].0));
        if i < oa.len() && j < ob.len() {
            lemma_text_order_total(oa[i as int].0, ob[j as int].0);
        }
        let key = if a_first {
            oa[i as int].0
        } else {
            ob[j as int].0
        };
        let di: nat = if a_first || !b_first {
            1
        } else {
            0
        };
        let dj: nat = if a_first {
            0
        } else {
            1
        };
        lemma_next_key(oa, ob, i, j, n, key);
        lemma_step(oa, ob, i, j, n, key, di, dj);
        lemma_merged_rest(path, oa, ob, i + di, j + dj, n + 1);
        if di == 1 {
            lemma_at_key(oa, i as int);
        } else {
            lemma_no_key(oa, i, key);
        }
        if dj == 1 {
            lemma_at_key(ob, j as int);
        } else {
            lemma_no_key(ob, j, key);
        }
        let here = one_key(path, oa, ob, key);
        let rest = merged(path, oa, ob, i + di, j + dj);
        assert(merged(path, oa, ob, i, j) == here + rest);
        assert(key_changes(path, oa, ob, keys, n + 1) == done + here);
        assert((done + here) + rest =~= done + (here + rest));
    }
}

proof fn lemma_merged(path: Seq<char>, oa: Seq<Field>, ob: Seq<Field>)
    requires
        keys_ascending(oa),
        keys_ascending(ob),
    ensures
        changes(path, Json::Object(oa), Json::Object(ob)) == merged(path, oa, ob, 0, 0),
{
    lemma_merged_rest(path, oa, ob, 0, 0, 0);
    let m = merged(path, oa, ob, 0, 0);
    assert(key_changes(path, oa, ob, all_keys(oa, ob), 0) + m =~= m);
}

fn child_path(path: &str, key: &str) -> (r: String)
    ensures
        r@ == field_path(path@, key@),
{
    if path.is_empty() {
        key.to_owned()
    } else {
        let mut r = path.to_owned();
        r.append(".");
        r.append(key);
        r
    }
}

fn element_path(path: &str, i: usize) -> (r: String)
    ensures
        r@ == item_path(path@, i as nat),
{
    let mut r = path.to_owned();
    r.append("[");
    push_decimal(&mut r, i as u64);
    r.append("]");
    r
}

fn say_removed(path: &str, v: &Value) -> (r: String)
    ensures
        r@ == removed_line(path@, v@),
{
    let mut r = path.to_owned();
    r.append(": ");
    push_json(&mut r, v);
    r.append(" -> (removed)");
    r
}

fn say_added(path: &str, v: &Value) -> (r: String)
    ensures
        r@ == added_line(path@, v@),
{
    let mut r = path.to_owned();
    r.append(": (added) -> ");
    push_json(&mut r, v);
    r
}

fn say_changed(path: &str, a: &Value, b: &Value) -> (r: String)
    ensures
        r@ == changed_line(path@, a@, b@),
{
    let mut r = path.to_owned();
    r.append(": ");
    push_json(&mut r, a);
    r.append(" -> ");
    push_json(&mut r, b);
    r
}

/// Are two values, not both lists and not both objects, the same?
fn same_scalar(a: &Value, b: &Value) -> (r: bool)
    requires
        !(a@ is Array && b@ is Array),
        !(a@ is Object && b@ is Object),
    ensures
        r == (a@ == b@),
{
    match (a, b) {
        (Value::Null, Value::Null) => true,
        (Value::Bool(x), Value::Bool(y)) => *x == *y,
        (Value::Number(x), Value::Number(y)) => *x == *y,
        (Value::Text(x), Value::Text(y)) => *x == *y,
        _ => false,
    }
}

/// The lines of differences, one list after another.
proof fn lemma_lines(out: Seq<Seq<char>>, a: Seq<Change>, b: Seq<Change>)
    ensures
        (out + lines_of(a)) + lines_of(b) == out + lines_of(a + b),
{
    assert((out + lines_of(a)) + lines_of(b) =~= out + lines_of(a + b));
}

/// Appends the differences between `a` and `b` at `path` to `out`. Nothing is appended when, and
/// only when, the two values are the same.
pub fn diff_value(path: &str, a: &Value, b: &Value, out: &mut Vec<String>)
    ensures
        texts(final(out)@) == texts(old(out)@) + diff_lines(path@, a@, b@),
        final(out)@.len() == old(out)@.len() <==> a@ == b@,
    decreases a,
{
    proof {
        lemma_view(*a);
        lemma_view(*b);
    }
    let ghost start = texts(out@);
    match (a, b) {
        (Value::Object(object_a), Value::Object(object_b)) => {
            let oa = object_a.fields();
            let ob = object_b.fields();
            let ghost fa = fields_view(oa@);
            let ghost fb = fields_view(ob@);
            let ghost mut same = true;
            let mut i: usize = 0;
            let mut j: usize = 0;
            while i < oa.len() || j < ob.len()
                invariant
                    i <= oa@.len(),
                    j <= ob@.len(),
                    fa == fields_view(oa@),
                    fb == fields_view(ob@),
                    decreases_to!(a => oa@),
                    texts(out@) + lines_of(merged(path@, fa, fb, i as nat, j as nat)) == start
                        + lines_of(merged(path@, fa, fb, 0, 0)),
                    same ==> i == j && fa.take(i as int) == fb.take(j as int) && out@.len()
                        == start.len(),
                    !same ==> out@.len() > start.len() && fa != fb,
                decreases oa@.len() - i + ob@.len() - j,
            {
                let ghost before = texts(out@);
                proof {
                    if i < oa@.len() {
                        assert(fa[i as int] == (oa@[i as int].0@, oa@[i as int].1@));
                    }
                    if j < ob@.len() {
                        assert(fb[j as int] == (ob@[j as int].0@, ob@[j as int].1@));
                    }
                    if i < oa@.len() && j < ob@.len() {
                        lemma_text_order_total(fa[i as int].0, fb[j as int].0);
                    }
                }
                let a_first = j == ob.len() || (i < oa.len() && comes_before(
                    oa[i].0.as_str(),
                    ob[j].0.as_str(),
                ));
                if a_first {
                    let child = child_path(path, oa[i].0.as_str());
                    let line = say_removed(child.as_str(), &oa[i].1);
                    let ghost said = seq![Change::Removed(child@, fa[i as int].1)];
                    out.push(line);
                    proof {
                        assert(texts(out@) =~= before + lines_of(said));
                        lemma_lines(
                            before,
                            said,
                            merged(path@, fa, fb, (i + 1) as nat, j as nat),
                        );
                        same = false;
                    }
                    i = i + 1;
                } else if i == oa.len() || comes_before(ob[j].0.as_str(), oa[i].0.as_str()) {
                    let child = child_path(path, ob[j].0.as_str());
                    let line = say_added(child.as_str(), &ob[j].1);
                    let ghost said = seq![Change::Added(child@, fb[j as int].1)];
                    out.push(line);
                    proof {
                        assert(texts(out@) =~= before + lines_of(said));
                        lemma_lines(
                            before,
                            said,
                            merged(path@, fa, fb, i as nat, (j + 1) as nat),
                        );
                        same = false;
                    }
                    j = j + 1;
                } else {
                    assert(decreases_to!(oa@ => oa@[i as int]));
                    assert(decreases_to!(oa@[i as int] => oa@[i as int].1));
                    let child = child_path(path, oa[i].0.as_str());
                    diff_value(child.as_str(), &oa[i].1, &ob[j].1, out);
                    proof {
                        lemma_lines(
                            before,
                            changes(child@, fa[i as int].1, fb[j as int].1),
                            merged(path@, fa, fb, (i + 1) as nat, (j + 1) as nat),
                        );
                        if fa[i as int].1 != fb[j as int].1 {
                            same = false;
                        } else if same {
                            assert(fa.take(i + 1) =~= fa.take(i as int).push(fa[i as int]));
                            assert(fb.take(j + 1) =~= fb.take(j as int).push(fb[j as int]));
                        }
                    }
                    i = i + 1;
                    j = j + 1;
                }
            }
            proof {
                lemma_merged(path@, fa, fb);
                assert(lines_of(merged(path@, fa, fb, i as nat, j as nat)) =~= seq![]);
                assert(texts(out@) =~= start + diff_lines(path@, a@, b@));
                assert(fa.take(i as int) =~= fa);
                assert(fb.take(j as int) =~= fb);
            }
        },
        (Value::Array(aa), Value::Array(ab)) => {
            let ghost la = list_view(aa@);
            let ghost lb = list_view(ab@);
            let ghost mut same = true;
            let mut i: usize = 0;
            while i < aa.len() || i < ab.len()
                invariant
                    i <= aa@.len() || i <= ab@.len(),
                    la == list_view(aa@),
                    lb == list_view(ab@),
                    decreases_to!(a => aa),
                    texts(out@) + lines_of(item_changes(path@, la, lb, i as nat)) == start
                        + lines_of(item_changes(path@, la, lb, 0)),
                    same ==> i <= aa@.len() && i <= ab@.len() && la.take(i as int) == lb.take(
                        i as int,
                    ) && out@.len() == start.len(),
                    !same ==> out@.len() > start.len() && la != lb,
                decreases aa@.len() + ab@.len() - i,
            {
                let ghost before = texts(out@);
                let ghost next = item_changes(path@, la, lb, (i + 1) as nat);
                let child = element_path(path, i);
                if i >= ab.len() {
                    let line = say_removed(child.as_str(), &aa[i]);
                    let ghost said = seq![Change::Removed(child@, la[i as int])];
                    out.push(line);
                    proof {
                        assert(texts(out@) =~= before + lines_of(said));
                        lemma_lines(before, said, next);
                        assert(la.len() != lb.len());
                        same = false;
                    }
                } else if i >= aa.len() {
                    let line = say_added(child.as_str(), &ab[i]);
                    let ghost said = seq![Change::Added(child@, lb[i as int])];
                    out.push(line);
                    proof {
                        assert(texts(out@) =~= before + lines_of(said));
                        lemma_lines(before, said, next);
                        assert(la.len() != lb.len());
                        same = false;
                    }
                } else {
                    assert(decreases_to!(aa => aa@));
                    assert(decreases_to!(aa@ => aa@[i as int]));
                    diff_value(child.as_str(), &aa[i], &ab[i], out);
                    proof {
                        lemma_lines(before, changes(child@, la[i as int], lb[i as int]), next);
                        if la[i as int] != lb[i as int] {
                            same = false;
                        } else if same {
                            assert(la.take(i + 1) =~= la.take(i as int).push(la[i as int]));
                            assert(lb.take(i + 1) =~= lb.take(i as int).push(lb[i as int]));
                        }
                    }
                }
                i = i + 1;
            }
            proof {
                assert(lines_of(item_changes(path@, la, lb, i as nat)) =~= seq![]);
                assert(texts(out@) =~= start + diff_lines(path@, a@, b@));
                assert(la.take(la.len() as int) =~= la);
                assert(lb.take(lb.len() as int) =~= lb);
            }
        },
        _ => {
            if !same_scalar(a, b) {
                let line = say_changed(path, a, b);
                out.push(line);
                assert(texts(out@) =~= start + lines_of(seq![Change::Changed(path@, a@, b@)]));
            } else {
                assert(texts(out@) =~= start + lines_of(seq![]));
            }
        },
    }
}

// ---------------------------------------------------------------------------
// Laws
// ---------------------------------------------------------------------------

/// Two values differ in no line exactly when they are the same value.
pub proof fn law_no_lines_iff_same(path: Seq<char>, a: Json, b: Json)
    requires
        well_formed(a),
        well_formed(b),
    ensures
        diff_lines(path, a, b).len() == 0 <==> a == b,
    decreases a, 0nat,
{
    match (a, b) {
        (Json::Object(oa), Json::Object(ob)) => {
            lemma_merged(path, oa, ob);
            lemma_fields(path, oa, ob, 0, 0);
            assert(oa.subrange(0, oa.len() as int) =~= oa);
            assert(ob.subrange(0, ob.len() as int) =~= ob);
        },
        (Json::Array(aa), Json::Array(ab)) => {
            lemma_items(path, aa, ab, 0);
            assert(aa.subrange(0, aa.len() as int) =~= aa);
            assert(ab.subrange(0, ab.len() as int) =~= ab);
        },
        _ => {},
    }
}

proof fn lemma_fields(path: Seq<char>, oa: Seq<Field>, ob: Seq<Field>, i: nat, j: nat)
    requires
        i <= oa.len(),
        j <= ob.len(),
        forall|k: int| 0 <= k < oa.len() ==> well_formed((#[trigger] oa[k]).1),
        forall|k: int| 0 <= k < ob.len() ==> well_formed((#[trigger] ob[k]).1),
    ensures
        merged(path, oa, ob, i, j).len() == 0 <==> oa.subrange(i as int, oa.len() as int)
            == ob.subrange(j as int, ob.len() as int),
    decreases oa, oa.len() - i + ob.len() - j,
{
    let ra = oa.subrange(i as int, oa.len() as int);
    let rb = ob.subrange(j as int, ob.len() as int);
    if i == oa.len() && j == ob.len() {
        assert(ra =~= rb);
    } else if j == ob.len() || i == oa.len() {
        assert(ra.len() != rb.len());
    } else {
        lemma_text_order_total(oa[i as int].0, ob[j as int].0);
        assert(ra[0] == oa[i as int] && rb[0] == ob[j as int]);
        if oa[i as int].0 == ob[j as int].0 {
            law_no_lines_iff_same(
                field_path(path, oa[i as int].0),
                oa[i as int].1,
                ob[j as int].1,
            );
            lemma_fields(path, oa, ob, i + 1, j + 1);
            let na = oa.subrange((i + 1) as int, oa.len() as int);
            let nb = ob.subrange((j + 1) as int, ob.len() as int);
            assert(ra =~= seq![ra[0]] + na);
            assert(rb =~= seq![rb[0]] + nb);
            if ra == rb {
                assert(na =~= ra.subrange(1, ra.len() as int));
                assert(nb =~= rb.subrange(1, rb.len() as int));
            }
        }
    }
}

proof fn lemma_items(path: Seq<char>, aa: Seq<Json>, ab: Seq<Json>, i: nat)
    requires
        i <= aa.len(),
        i <= ab.len(),
        forall|k: int| 0 <= k < aa.len() ==> well_formed(#[trigger] aa[k]),
        forall|k: int| 0 <= k < ab.len() ==> well_formed(#[trigger] ab[k]),
    ensures
        item_changes(path, aa, ab, i).len() == 0 <==> aa.subrange(i as int, aa.len() as int)
            == ab.subrange(i as int, ab.len() as int),
    decreases aa, aa.len() + ab.len() - i,
{
    let ra = aa.subrange(i as int, aa.len() as int);
    let rb = ab.subrange(i as int, ab.len() as int);
    if i == aa.len() && i == ab.len() {
        assert(ra =~= rb);
    } else if i == aa.len() || i == ab.len() {
        assert(ra.len() != rb.len());
    } else {
        law_no_lines_iff_same(item_path(path, i), aa[i as int], ab[i as int]);
        lemma_items(path, aa, ab, i + 1);
        let na = aa.subrange((i + 1) as int, aa.len() as int);
        let nb = ab.subrange((i + 1) as int, ab.len() as int);
        assert(ra[0] == aa[i as int] && rb[0] == ab[i as int]);
        assert(ra =~= seq![ra[0]] + na);
        assert(rb =~= seq![rb[0]] + nb);
        if ra == rb {
            assert(na =~= ra.subrange(1, ra.len() as int));
            assert(nb =~= rb.subrange(1, rb.len() as int));
        }
    }
}

/// The other way round every difference is the same one, mirrored: at the same path, in the same
/// place, with the old and the new value exchanged, and added where it was removed.
pub proof fn law_other_way_round_is_mirrored(path: Seq<char>, a: Json, b: Json)
    requires
        well_formed(a),
        well_formed(b),
    ensures
        changes(path, b, a) == all_mirrored(changes(path, a, b)),
        diff_lines(path, b, a).len() == diff_lines(path, a, b).len(),
        forall|i: int|
            #![trigger changes(path, a, b)[i]]
            0 <= i < changes(path, a, b).len() ==> diff_lines(path, a, b)[i] == changes(
                path,
                a,
                b,
            )[i].line() && diff_lines(path, b, a)[i] == changes(path, a, b)[i].mirrored().line(),
    decreases a, 0nat,
{
    match (a, b) {
        (Json::Object(oa), Json::Object(ob)) => {
            lemma_merged(path, oa, ob);
            lemma_merged(path, ob, oa);
            lemma_fields_mirrored(path, oa, ob, 0, 0);
        },
        (Json::Array(aa), Json::Array(ab)) => lemma_items_mirrored(path, aa, ab, 0),
        _ => {
            assert(changes(path, b, a) =~= all_mirrored(changes(path, a, b)));
        },
    }
}

proof fn lemma_mirrored_sum(a: Seq<Change>, b: Seq<Change>)
    ensures
        all_mirrored(a + b) == all_mirrored(a) + all_mirrored(b),
{
    assert(all_mirrored(a + b) =~= all_mirrored(a) + all_mirrored(b));
}

proof fn lemma_fields_mirrored(path: Seq<char>, oa: Seq<Field>, ob: Seq<Field>, i: nat, j: nat)
    requires
        i <= oa.len(),
        j <= ob.len(),
        forall|k: int| 0 <= k < oa.len() ==> well_formed((#[trigger] oa[k]).1),
        forall|k: int| 0 <= k < ob.len() ==> well_formed((#[trigger] ob[k]).1),
    ensures
        merged(path, ob, oa, j, i) == all_mirrored(merged(path, oa, ob, i, j)),
    decreases oa, oa.len() - i + ob.len() - j,
{
    if i == oa.len() && j == ob.len() {
        assert(merged(path, ob, oa, j, i) =~= all_mirrored(merged(path, oa, ob, i, j)));
    } else {
        if i < oa.len() && j < ob.len() {
            lemma_text_order_total(oa[i as int].0, ob[j as int].0);
        }
        if j == ob.len() || (i < oa.len() && text_less(oa[i as int].0, ob[j as int].0)) {
            let here = seq![Change::Removed(field_path(path, oa[i as int].0), oa[i as int].1)];
            lemma_fields_mirrored(path, oa, ob, i + 1, j);
            lemma_mirrored_sum(here, merged(path, oa, ob, i + 1, j));
            assert(all_mirrored(here) =~= seq![here[0].mirrored()]);
        } else if i == oa.len() || text_less(ob[j as int].0, oa[i as int].0) {
            let here = seq![Change::Added(field_path(path, ob[j as int].0), ob[j as int].1)];
            lemma_fields_mirrored(path, oa, ob, i, j + 1);
            lemma_mirrored_sum(here, merged(path, oa, ob, i, j + 1));
            assert(all_mirrored(here) =~= seq![here[0].mirrored()]);
        } else {
            let child = field_path(path, oa[i as int].0);
            law_other_way_round_is_mirrored(child, oa[i as int].1, ob[j as int].1);
            lemma_fields_mirrored(path, oa, ob, i + 1, j + 1);
            lemma_mirrored_sum(
                changes(child, oa[i as int].1, ob[j as int].1),
                merged(path, oa, ob, i + 1, j + 1),
            );
        }
    }
}

proof fn lemma_items_mirrored(path: Seq<char>, aa: Seq<Json>, ab: Seq<Json>, i: nat)
    requires
        forall|k: int| 0 <= k < aa.len() ==> well_formed(#[trigger] aa[k]),
        forall|k: int| 0 <= k < ab.len() ==> well_formed(#[trigger] ab[k]),
    ensures
        item_changes(path, ab, aa, i) == all_mirrored(item_changes(path, aa, ab, i)),
    decreases aa, aa.len() + ab.len() - i,
{
    if i >= aa.len() && i >= ab.len() {
        assert(item_changes(path, ab, aa, i) =~= all_mirrored(item_changes(path, aa, ab, i)));
    } else {
        let child = item_path(path, i);
        let here = if i >= ab.len() {
            seq![Change::Removed(child, aa[i as int])]
        } else if i >= aa.len() {
            seq![Change::Added(child, ab[i as int])]
        } else {
            changes(child, aa[i as int], ab[i as int])
        };
        lemma_items_mirrored(path, aa, ab, i + 1);
        lemma_mirrored_sum(here, item_changes(path, aa, ab, i + 1));
        if i < aa.len() && i < ab.len() {
            law_other_way_round_is_mirrored(child, aa[i as int], ab[i as int]);
        } else {
            assert(all_mirrored(here) =~= seq![here[0].mirrored()]);
        }
    }
}

/// Do the differences `cs` lie at `path` or below it?
pub open spec fn all_below(path: Seq<char>, cs: Seq<Change>) -> bool {
    forall|i: int| 0 <= i < cs.len() ==> path.is_prefix_of((#[trigger] cs[i]).path())
}

/// Every difference lies at or below the path where the comparison began, and its line starts with
/// that path.
pub proof fn law_differences_lie_below_the_path(path: Seq<char>, a: Json, b: Json)
    ensures
        all_below(path, changes(path, a, b)),
        forall|i: int|
            0 <= i < diff_lines(path, a, b).len() ==> path.is_prefix_of(
                #[trigger] diff_lines(path, a, b)[i],
            ),
{
    lemma_below_path(path, a, b);
    let cs = changes(path, a, b);
    assert forall|i: int| 0 <= i < diff_lines(path, a, b).len() implies path.is_prefix_of(
        #[trigger] diff_lines(path, a, b)[i],
    ) by {
        let p = cs[i].path();
        let line = cs[i].line();
        assert(path.is_prefix_of(p));
        assert(line.subrange(0, path.len() as int) =~= p.subrange(0, path.len() as int));
    }
}

proof fn lemma_below_path(path: Seq<char>, a: Json, b: Json)
    ensures
        all_below(path, changes(path, a, b)),
    decreases a, 0nat,
{
    assert(path.subrange(0, path.len() as int) =~= path);
    match (a, b) {
        (Json::Object(oa), Json::Object(ob)) => {
            let keys = all_keys(oa, ob);
            lemma_keys_below(path, oa, ob, keys, keys.len());
        },
        (Json::Array(aa), Json::Array(ab)) => lemma_items_below(path, aa, ab, 0),
        _ => {},
    }
}

/// What lies below a part of `path` lies below `path`.
proof fn lemma_below(path: Seq<char>, child: Seq<char>, cs: Seq<Change>)
    requires
        child.subrange(0, path.len() as int) == path,
        path.len() <= child.len(),
        all_below(child, cs),
    ensures
        all_below(path, cs),
{
    assert forall|i: int| 0 <= i < cs.len() implies path.is_prefix_of(
        (#[trigger] cs[i]).path(),
    ) by {
        let p = cs[i].path();
        assert(child.is_prefix_of(p));
        assert(p.subrange(0, path.len() as int) =~= p.subrange(
            0,
            child.len() as int,
        ).subrange(0, path.len() as int));
    }
}

proof fn lemma_below_sum(path: Seq<char>, a: Seq<Change>, b: Seq<Change>)
    requires
        all_below(path, a),
        all_below(path, b),
    ensures
        all_below(path, a + b),
{
    assert forall|i: int| 0 <= i < (a + b).len() implies path.is_prefix_of(
        (#[trigger] (a + b)[i]).path(),
    ) by {
        if i < a.len() {
            assert((a + b)[i] == a[i]);
        } else {
            assert((a + b)[i] == b[i - a.len()]);
        }
    }
}

proof fn lemma_keys_below(
    path: Seq<char>,
    oa: Seq<Field>,
    ob: Seq<Field>,
    keys: Seq<Seq<char>>,
    n: nat,
)
    requires
        n <= keys.len(),
    ensures
        all_below(path, key_changes(path, oa, ob, keys, n)),
    decreases oa, n,
{
    if n > 0 {
        let key = keys[n - 1];
        let child = field_path(path, key);
        let here = one_key(path, oa, ob, key);
        lemma_keys_below(path, oa, ob, keys, (n - 1) as nat);
        assert(child.subrange(0, path.len() as int) =~= path);
        assert(child.subrange(0, child.len() as int) =~= child);
        if has_key(oa, key) && has_key(ob, key) {
            let p = at_key(oa, key);
            assert(0 <= p < oa.len());
            assert(decreases_to!(oa => oa[p]));
            assert(decreases_to!(oa[p] => oa[p].1));
            lemma_below_path(child, oa[p].1, ob[at_key(ob, key)].1);
        }
        assert(all_below(child, here));
        lemma_below(path, child, here);
        lemma_below_sum(path, key_changes(path, oa, ob, keys, (n - 1) as nat), here);
    }
}

proof fn lemma_items_below(path: Seq<char>, aa: Seq<Json>, ab: Seq<Json>, i: nat)
    ensures
        all_below(path, item_changes(path, aa, ab, i)),
    decreases aa, aa.len() + ab.len() - i,
{
    if i < aa.len() || i < ab.len() {
        let child = item_path(path, i);
        lemma_items_below(path, aa, ab, i + 1);
        assert(child.subrange(0, path.len() as int) =~= path);
        assert(child.subrange(0, child.len() as int) =~= child);
        let here = if i >= ab.len() {
            seq![Change::Removed(child, aa[i as int])]
        } else if i >= aa.len() {
            seq![Change::Added(child, ab[i as int])]
        } else {
            changes(child, aa[i as int], ab[i as int])
        };
        if i < aa.len() && i < ab.len() {
            lemma_below_path(child, aa[i as int], ab[i as int]);
        }
        assert(all_below(child, here));
        lemma_below(path, child, here);
        lemma_below_sum(path, here, item_changes(path, aa, ab, i + 1));
    }
}

/// A change in one element of a list shows as the differences of that element, under its index,
/// and as nothing else.
pub proof fn law_one_changed_item(path: Seq<char>, list: Seq<Json>, k: int, v: Json)
    requires
        0 <= k < list.len(),
        well_formed(Json::Array(list)),
    ensures
        diff_lines(path, Json::Array(list), Json::Array(list.update(k, v))) == diff_lines(
            item_path(path, k as nat),
            list[k],
            v,
        ),
{
    assert forall|m: int| 0 <= m < list.len() implies well_formed(#[trigger] list[m]) by {
        lemma_well_formed_item(Json::Array(list), m);
    }
    lemma_item_rest(path, list, k, v, 0);
}

proof fn lemma_well_formed_item(j: Json, m: int)
    requires
        well_formed(j),
        j is Array,
        0 <= m < j->Array_0.len(),
    ensures
        well_formed(j->Array_0[m]),
{
}

proof fn lemma_item_rest(path: Seq<char>, list: Seq<Json>, k: int, v: Json, i: nat)
    requires
        0 <= k < list.len(),
        i <= list.len(),
        forall|m: int| 0 <= m < list.len() ==> well_formed(#[trigger] list[m]),
    ensures
        item_changes(path, list, list.update(k, v), i) == if i <= k {
            changes(item_path(path, k as nat), list[k], v)
        } else {
            Seq::empty()
        },
    decreases list.len() - i,
{
    let changed = list.update(k, v);
    if i < list.len() {
        lemma_item_rest(path, list, k, v, i + 1);
        if i != k {
            law_no_lines_iff_same(item_path(path, i), list[i as int], changed[i as int]);
        }
        let here = changes(item_path(path, i), list[i as int], changed[i as int]);
        let rest = item_changes(path, list, changed, i + 1);
        if i == k {
            assert(here + rest =~= here);
        } else {
            assert(here + rest =~= rest);
        }
    }
}

/// The fields in key order with the value of one of them replaced.
proof fn lemma_order_of_changed(fs: Seq<Field>, k: int, v: Json) -> (p: int)
    requires
        0 <= k < fs.len(),
        keys_distinct(fs),
    ensures
        0 <= p < in_key_order(fs).len(),
        in_key_order(fs)[p] == fs[k],
        in_key_order(fs.update(k, (fs[k].0, v))) == in_key_order(fs).update(p, (fs[k].0, v)),
    decreases fs.len(),
{
    let changed = fs.update(k, (fs[k].0, v));
    let rest = fs.subrange(1, fs.len() as int);
    let changed_rest = changed.subrange(1, fs.len() as int);
    assert forall|i: int, j: int| 0 <= i < j < changed.len() implies (#[trigger] changed[i]).0 != (
    #[trigger] changed[j]).0 by {
        assert(changed[i].0 == fs[i].0 && changed[j].0 == fs[j].0);
    }
    lemma_new_key(fs);
    lemma_new_key(changed);
    let ordered = in_key_order(rest);
    let at = place(ordered, fs[0].0);
    lemma_place(ordered, fs[0].0);
    if k == 0 {
        assert(changed_rest =~= rest);
        assert(ordered.insert(at, changed[0]) =~= ordered.insert(at, fs[0]).update(
            at,
            (fs[0].0, v),
        ));
        at
    } else {
        assert(changed_rest =~= rest.update(k - 1, (rest[k - 1].0, v)));
        let q = lemma_order_of_changed(rest, k - 1, v);
        let new_ordered = ordered.update(q, (fs[k].0, v));
        assert(keys_of(new_ordered) =~= keys_of(ordered)) by {
            assert(ordered[q].0 == fs[k].0);
        }
        lemma_place_by_keys(new_ordered, ordered, fs[0].0);
        let p = if q < at {
            q
        } else {
            q + 1
        };
        assert(new_ordered.insert(at, fs[0]) =~= ordered.insert(at, fs[0]).update(
            p,
            (fs[k].0, v),
        ));
        p
    }
}

proof fn lemma_field_rest(path: Seq<char>, o: Seq<Field>, p: int, v: Json, i: nat)
    requires
        0 <= p < o.len(),
        i <= o.len(),
        forall|m: int| 0 <= m < o.len() ==> well_formed((#[trigger] o[m]).1),
    ensures
        merged(path, o, o.update(p, (o[p].0, v)), i, i) == if i <= p {
            changes(field_path(path, o[p].0), o[p].1, v)
        } else {
            Seq::empty()
        },
    decreases o.len() - i,
{
    let changed = o.update(p, (o[p].0, v));
    if i < o.len() {
        lemma_field_rest(path, o, p, v, i + 1);
        lemma_text_order_total(o[i as int].0, changed[i as int].0);
        let child = field_path(path, o[i as int].0);
        if i != p {
            law_no_lines_iff_same(child, o[i as int].1, changed[i as int].1);
        }
        let here = changes(child, o[i as int].1, changed[i as int].1);
        let rest = merged(path, o, changed, i + 1, i + 1);
        if i == p {
            assert(here + rest =~= here);
        } else {
            assert(here + rest =~= rest);
        }
    }
}

/// A change in one field of an object, made of distinct keys, shows as the differences of that
/// field, under its name, and as nothing else.
pub proof fn law_one_changed_field(path: Seq<char>, fs: Seq<Field>, k: int, v: Json)
    requires
        0 <= k < fs.len(),
        keys_distinct(fs),
        forall|i: int| 0 <= i < fs.len() ==> well_formed((#[trigger] fs[i]).1),
    ensures
        diff_lines(path, object(fs), object(fs.update(k, (fs[k].0, v)))) == diff_lines(
            field_path(path, fs[k].0),
            fs[k].1,
            v,
        ),
{
    let p = lemma_order_of_changed(fs, k, v);
    let o = in_key_order(fs);
    law_object_fields(fs);
    law_object_fields(fs.update(k, (fs[k].0, v)));
    lemma_object_well_formed(fs);
    lemma_merged(path, o, o.update(p, (fs[k].0, v)));
    lemma_field_rest(path, o, p, v, 0);
}

proof fn lemma_more_old_items(path: Seq<char>, aa: Seq<Json>, ab: Seq<Json>, x: Json, i: nat)
    requires
        ab.len() <= aa.len(),
        i <= aa.len(),
    ensures
        item_changes(path, aa.push(x), ab, i) == item_changes(path, aa, ab, i).push(
            Change::Removed(path + "["@ + decimal(aa.len()) + "]"@, x),
        ),
    decreases aa.len() - i,
{
    let last = Change::Removed(path + "["@ + decimal(aa.len()) + "]"@, x);
    let more = aa.push(x);
    if i == aa.len() {
        assert(item_changes(path, more, ab, i + 1) =~= seq![]);
        assert(item_changes(path, aa, ab, i) =~= seq![]);
        assert(item_changes(path, more, ab, i) =~= seq![last]);
        assert(Seq::<Change>::empty().push(last) =~= seq![last]);
    } else {
        lemma_more_old_items(path, aa, ab, x, i + 1);
        assert(more[i as int] == aa[i as int]);
        let here = if i >= ab.len() {
            seq![Change::Removed(item_path(path, i), aa[i as int])]
        } else {
            changes(item_path(path, i), aa[i as int], ab[i as int])
        };
        let rest = item_changes(path, aa, ab, i + 1);
        assert(item_changes(path, more, ab, i) == here + rest.push(last));
        assert(here + rest.push(last) =~= (here + rest).push(last));
    }
}

proof fn lemma_more_new_items(path: Seq<char>, aa: Seq<Json>, ab: Seq<Json>, y: Json, i: nat)
    requires
        aa.len() <= ab.len(),
        i <= ab.len(),
    ensures
        item_changes(path, aa, ab.push(y), i) == item_changes(path, aa, ab, i).push(
            Change::Added(path + "["@ + decimal(ab.len()) + "]"@, y),
        ),
    decreases ab.len() - i,
{
    let last = Change::Added(path + "["@ + decimal(ab.len()) + "]"@, y);
    let more = ab.push(y);
    if i == ab.len() {
        assert(item_changes(path, aa, more, i + 1) =~= seq![]);
        assert(item_changes(path, aa, ab, i) =~= seq![]);
        assert(item_changes(path, aa, more, i) =~= seq![last]);
        assert(Seq::<Change>::empty().push(last) =~= seq![last]);
    } else {
        lemma_more_new_items(path, aa, ab, y, i + 1);
        assert(more[i as int] == ab[i as int]);
        let here = if i >= aa.len() {
            seq![Change::Added(item_path(path, i), ab[i as int])]
        } else {
            changes(item_path(path, i), aa[i as int], ab[i as int])
        };
        let rest = item_changes(path, aa, ab, i + 1);
        assert(item_changes(path, aa, more, i) == here + rest.push(last));
        assert(here + rest.push(last) =~= (here + rest).push(last));
    }
}

proof fn lemma_more_of_both(
    path: Seq<char>,
    aa: Seq<Json>,
    ab: Seq<Json>,
    x: Json,
    y: Json,
    i: nat,
)
    requires
        aa.len() == ab.len(),
        i <= aa.len(),
    ensures
        item_changes(path, aa.push(x), ab.push(y), i) == item_changes(path, aa, ab, i) + changes(
            path + "["@ + decimal(aa.len()) + "]"@,
            x,
            y,
        ),
    decreases aa.len() - i,
{
    let last = changes(path + "["@ + decimal(aa.len()) + "]"@, x, y);
    let ma = aa.push(x);
    let mb = ab.push(y);
    if i == aa.len() {
        assert(item_changes(path, ma, mb, i + 1) =~= seq![]);
        assert(item_changes(path, aa, ab, i) =~= seq![]);
        assert(ma[i as int] == x && mb[i as int] == y);
        assert(last + Seq::<Change>::empty() =~= last);
        assert(Seq::<Change>::empty() + last =~= last);
    } else {
        lemma_more_of_both(path, aa, ab, x, y, i + 1);
        assert(ma[i as int] == aa[i as int] && mb[i as int] == ab[i as int]);
        let here = changes(item_path(path, i), aa[i as int], ab[i as int]);
        let rest = item_changes(path, aa, ab, i + 1);
        assert(here + (rest + last) =~= (here + rest) + last);
    }
}

/// How lists differ, element by element. Two empty lists do not. An element more at the end of the
/// old list, where it is no shorter, is one removal more, under its index; one more at the end of
/// the new list, where it is no shorter, is one addition more; one more at the end of both, where
/// they are as long, adds the differences of the two elements. Nothing else changes.
pub proof fn law_lists_differ_element_by_element(
    path: Seq<char>,
    aa: Seq<Json>,
    ab: Seq<Json>,
    x: Json,
    y: Json,
)
    ensures
        changes(path, Json::Array(seq![]), Json::Array(seq![])).len() == 0,
        ab.len() <= aa.len() ==> changes(path, Json::Array(aa.push(x)), Json::Array(ab))
            == changes(path, Json::Array(aa), Json::Array(ab)).push(
            Change::Removed(path + "["@ + decimal(aa.len()) + "]"@, x),
        ),
        aa.len() <= ab.len() ==> changes(path, Json::Array(aa), Json::Array(ab.push(y)))
            == changes(path, Json::Array(aa), Json::Array(ab)).push(
            Change::Added(path + "["@ + decimal(ab.len()) + "]"@, y),
        ),
        aa.len() == ab.len() ==> changes(path, Json::Array(aa.push(x)), Json::Array(ab.push(y)))
            == changes(path, Json::Array(aa), Json::Array(ab)) + changes(
            path + "["@ + decimal(aa.len()) + "]"@,
            x,
            y,
        ),
{
    if ab.len() <= aa.len() {
        lemma_more_old_items(path, aa, ab, x, 0);
    }
    if aa.len() <= ab.len() {
        lemma_more_new_items(path, aa, ab, y, 0);
    }
    if aa.len() == ab.len() {
        lemma_more_of_both(path, aa, ab, x, y, 0);
    }
}

proof fn lemma_item_reported(path: Seq<char>, aa: Seq<Json>, ab: Seq<Json>, i: nat, k: nat)
    requires
        i <= k,
        k < aa.len() || k < ab.len(),
    ensures
        k >= ab.len() ==> item_changes(path, aa, ab, i).contains(
            Change::Removed(path + "["@ + decimal(k) + "]"@, aa[k as int]),
        ),
        k >= aa.len() ==> item_changes(path, aa, ab, i).contains(
            Change::Added(path + "["@ + decimal(k) + "]"@, ab[k as int]),
        ),
        forall|c: Change|
            k < aa.len() && k < ab.len() && changes(
                path + "["@ + decimal(k) + "]"@,
                aa[k as int],
                ab[k as int],
            ).contains(c) ==> #[trigger] item_changes(path, aa, ab, i).contains(c),
    decreases k - i,
{
    let rest = item_changes(path, aa, ab, i + 1);
    let here = if i >= ab.len() {
        seq![Change::Removed(item_path(path, i), aa[i as int])]
    } else if i >= aa.len() {
        seq![Change::Added(item_path(path, i), ab[i as int])]
    } else {
        changes(item_path(path, i), aa[i as int], ab[i as int])
    };
    let all = item_changes(path, aa, ab, i);
    assert(all == here + rest);
    if i == k {
        assert(here.len() > 0 ==> all[0] == here[0]);
        assert forall|c: Change| here.contains(c) implies #[trigger] all.contains(c) by {
            let m = choose|m: int| 0 <= m < here.len() && here[m] == c;
            assert(all[m] == c);
        }
    } else {
        lemma_item_reported(path, aa, ab, i + 1, k);
        assert forall|c: Change| rest.contains(c) implies #[trigger] all.contains(c) by {
            let m = choose|m: int| 0 <= m < rest.len() && rest[m] == c;
            assert(all[here.len() + m] == c);
        }
    }
}

/// Every element that only one of two lists has is reported, removed or added, and every
/// difference of two elements of one index is among the differences of the lists.
pub proof fn law_every_element_is_reported(path: Seq<char>, aa: Seq<Json>, ab: Seq<Json>, k: nat)
    ensures
        ab.len() <= k < aa.len() ==> changes(path, Json::Array(aa), Json::Array(ab)).contains(
            Change::Removed(path + "["@ + decimal(k) + "]"@, aa[k as int]),
        ),
        aa.len() <= k < ab.len() ==> changes(path, Json::Array(aa), Json::Array(ab)).contains(
            Change::Added(path + "["@ + decimal(k) + "]"@, ab[k as int]),
        ),
        forall|c: Change|
            k < aa.len() && k < ab.len() && changes(
                path + "["@ + decimal(k) + "]"@,
                aa[k as int],
                ab[k as int],
            ).contains(c) ==> #[trigger] changes(
                path,
                Json::Array(aa),
                Json::Array(ab),
            ).contains(c),
{
    if k < aa.len() || k < ab.len() {
        lemma_item_reported(path, aa, ab, 0, k);
        assert(changes(path, Json::Array(aa), Json::Array(ab)) == item_changes(path, aa, ab, 0));
    }
}

/// Is `key` behind every key of `o`?
pub open spec fn is_behind(o: Seq<Field>, key: Seq<char>) -> bool {
    forall|i: int| 0 <= i < o.len() ==> text_less((#[trigger] o[i]).0, key)
}

proof fn lemma_more_old_fields(
    path: Seq<char>,
    oa: Seq<Field>,
    ob: Seq<Field>,
    f: Field,
    i: nat,
    j: nat,
)
    requires
        i <= oa.len(),
        j <= ob.len(),
        is_behind(ob, f.0),
    ensures
        merged(path, oa.push(f), ob, i, j) == merged(path, oa, ob, i, j).push(
            Change::Removed(field_path(path, f.0), f.1),
        ),
    decreases oa.len() - i + ob.len() - j,
{
    let last = Change::Removed(field_path(path, f.0), f.1);
    let more = oa.push(f);
    if i < oa.len() {
        assert(more[i as int] == oa[i as int]);
    }
    if j < ob.len() {
        assert(text_less(ob[j as int].0, f.0));
        lemma_text_order_total(ob[j as int].0, f.0);
    }
    if i == oa.len() && j == ob.len() {
        assert(merged(path, more, ob, i + 1, j) =~= seq![]);
        assert(merged(path, oa, ob, i, j) =~= seq![]);
        assert(merged(path, more, ob, i, j) =~= Seq::<Change>::empty().push(last));
    } else if j == ob.len() || (i < oa.len() && text_less(oa[i as int].0, ob[j as int].0)) {
        lemma_more_old_fields(path, oa, ob, f, i + 1, j);
        let here = seq![Change::Removed(field_path(path, oa[i as int].0), oa[i as int].1)];
        let rest = merged(path, oa, ob, i + 1, j);
        assert(here + rest.push(last) =~= (here + rest).push(last));
    } else if i == oa.len() || text_less(ob[j as int].0, oa[i as int].0) {
        lemma_more_old_fields(path, oa, ob, f, i, j + 1);
        let here = seq![Change::Added(field_path(path, ob[j as int].0), ob[j as int].1)];
        let rest = merged(path, oa, ob, i, j + 1);
        assert(here + rest.push(last) =~= (here + rest).push(last));
    } else {
        lemma_more_old_fields(path, oa, ob, f, i + 1, j + 1);
        let here = changes(field_path(path, oa[i as int].0), oa[i as int].1, ob[j as int].1);
        let rest = merged(path, oa, ob, i + 1, j + 1);
        assert(here + rest.push(last) =~= (here + rest).push(last));
    }
}

proof fn lemma_more_new_fields(
    path: Seq<char>,
    oa: Seq<Field>,
    ob: Seq<Field>,
    f: Field,
    i: nat,
    j: nat,
)
    requires
        i <= oa.len(),
        j <= ob.len(),
        is_behind(oa, f.0),
    ensures
        merged(path, oa, ob.push(f), i, j) == merged(path, oa, ob, i, j).push(
            Change::Added(field_path(path, f.0), f.1),
        ),
    decreases oa.len() - i + ob.len() - j,
{
    let last = Change::Added(field_path(path, f.0), f.1);
    let more = ob.push(f);
    if j < ob.len() {
        assert(more[j as int] == ob[j as int]);
    }
    if i < oa.len() {
        assert(text_less(oa[i as int].0, f.0));
        lemma_text_order_total(oa[i as int].0, f.0);
        if j < ob.len() {
            lemma_text_order_total(oa[i as int].0, ob[j as int].0);
        }
    }
    if i == oa.len() && j == ob.len() {
        assert(merged(path, oa, more, i, j + 1) =~= seq![]);
        assert(merged(path, oa, ob, i, j) =~= seq![]);
        assert(merged(path, oa, more, i, j) =~= Seq::<Change>::empty().push(last));
    } else if j == ob.len() || (i < oa.len() && text_less(oa[i as int].0, ob[j as int].0)) {
        lemma_more_new_fields(path, oa, ob, f, i + 1, j);
        let here = seq![Change::Removed(field_path(path, oa[i as int].0), oa[i as int].1)];
        let rest = merged(path, oa, ob, i + 1, j);
        assert(here + rest.push(last) =~= (here + rest).push(last));
    } else if i == oa.len() || text_less(ob[j as int].0, oa[i as int].0) {
        lemma_more_new_fields(path, oa, ob, f, i, j + 1);
        let here = seq![Change::Added(field_path(path, ob[j as int].0), ob[j as int].1)];
        let rest = merged(path, oa, ob, i, j + 1);
        assert(here + rest.push(last) =~= (here + rest).push(last));
    } else {
        lemma_more_new_fields(path, oa, ob, f, i + 1, j + 1);
        let here = changes(field_path(path, oa[i as int].0), oa[i as int].1, ob[j as int].1);
        let rest = merged(path, oa, ob, i + 1, j + 1);
        assert(here + rest.push(last) =~= (here + rest).push(last));
    }
}

proof fn lemma_more_fields_of_both(
    path: Seq<char>,
    oa: Seq<Field>,
    ob: Seq<Field>,
    key: Seq<char>,
    x: Json,
    y: Json,
    i: nat,
    j: nat,
)
    requires
        i <= oa.len(),
        j <= ob.len(),
        is_behind(oa, key),
        is_behind(ob, key),
    ensures
        merged(path, oa.push((key, x)), ob.push((key, y)), i, j) == merged(path, oa, ob, i, j)
            + changes(field_path(path, key), x, y),
    decreases oa.len() - i + ob.len() - j,
{
    let last = changes(field_path(path, key), x, y);
    let ma = oa.push((key, x));
    let mb = ob.push((key, y));
    lemma_text_order_total(key, key);
    if i < oa.len() {
        assert(ma[i as int] == oa[i as int]);
        assert(text_less(oa[i as int].0, key));
        lemma_text_order_total(oa[i as int].0, key);
    }
    if j < ob.len() {
        assert(mb[j as int] == ob[j as int]);
        assert(text_less(ob[j as int].0, key));
        lemma_text_order_total(ob[j as int].0, key);
    }
    if i == oa.len() && j == ob.len() {
        assert(ma[i as int] == (key, x) && mb[j as int] == (key, y));
        assert(merged(path, ma, mb, i + 1, j + 1) =~= seq![]);
        assert(merged(path, oa, ob, i, j) =~= seq![]);
        assert(last + Seq::<Change>::empty() =~= last);
        assert(Seq::<Change>::empty() + last =~= last);
    } else if j == ob.len() || (i < oa.len() && text_less(oa[i as int].0, ob[j as int].0)) {
        lemma_more_fields_of_both(path, oa, ob, key, x, y, i + 1, j);
        let here = seq![Change::Removed(field_path(path, oa[i as int].0), oa[i as int].1)];
        let rest = merged(path, oa, ob, i + 1, j);
        assert(here + (rest + last) =~= (here + rest) + last);
    } else if i == oa.len() || text_less(ob[j as int].0, oa[i as int].0) {
        lemma_more_fields_of_both(path, oa, ob, key, x, y, i, j + 1);
        let here = seq![Change::Added(field_path(path, ob[j as int].0), ob[j as int].1)];
        let rest = merged(path, oa, ob, i, j + 1);
        assert(here + (rest + last) =~= (here + rest) + last);
    } else {
        lemma_more_fields_of_both(path, oa, ob, key, x, y, i + 1, j + 1);
        let here = changes(field_path(path, oa[i as int].0), oa[i as int].1, ob[j as int].1);
        let rest = merged(path, oa, ob, i + 1, j + 1);
        assert(here + (rest + last) =~= (here + rest) + last);
    }
}

proof fn lemma_ascending_push(o: Seq<Field>, f: Field)
    requires
        keys_ascending(o),
        is_behind(o, f.0),
    ensures
        keys_ascending(o.push(f)),
{
}

/// How objects differ, key by key in key order. Two empty objects do not. A field more of the old
/// object, behind all others, is one removal more, under its key; one more of the new object is one
/// addition more; one more of both, of one key, adds the differences of the two values. Nothing
/// else changes. A field of the whole value has its key for a path.
pub proof fn law_objects_differ_key_by_key(
    path: Seq<char>,
    oa: Seq<Field>,
    ob: Seq<Field>,
    key: Seq<char>,
    x: Json,
    y: Json,
)
    requires
        keys_ascending(oa),
        keys_ascending(ob),
        is_behind(oa, key),
        is_behind(ob, key),
    ensures
        changes(path, Json::Object(seq![]), Json::Object(seq![])).len() == 0,
        changes(path, Json::Object(oa.push((key, x))), Json::Object(ob)) == changes(
            path,
            Json::Object(oa),
            Json::Object(ob),
        ).push(
            Change::Removed(
                if path.len() == 0 {
                    key
                } else {
                    path + "."@ + key
                },
                x,
            ),
        ),
        changes(path, Json::Object(oa), Json::Object(ob.push((key, y)))) == changes(
            path,
            Json::Object(oa),
            Json::Object(ob),
        ).push(
            Change::Added(
                if path.len() == 0 {
                    key
                } else {
                    path + "."@ + key
                },
                y,
            ),
        ),
        changes(path, Json::Object(oa.push((key, x))), Json::Object(ob.push((key, y)))) == changes(
            path,
            Json::Object(oa),
            Json::Object(ob),
        ) + changes(
            if path.len() == 0 {
                key
            } else {
                path + "."@ + key
            },
            x,
            y,
        ),
{
    lemma_ascending_push(oa, (key, x));
    lemma_ascending_push(ob, (key, y));
    lemma_merged(path, Seq::empty(), Seq::empty());
    assert(Seq::<Field>::empty() =~= seq![]);
    lemma_merged(path, oa, ob);
    lemma_merged(path, oa.push((key, x)), ob);
    lemma_merged(path, oa, ob.push((key, y)));
    lemma_merged(path, oa.push((key, x)), ob.push((key, y)));
    lemma_more_old_fields(path, oa, ob, (key, x), 0, 0);
    lemma_more_new_fields(path, oa, ob, (key, y), 0, 0);
    lemma_more_fields_of_both(path, oa, ob, key, x, y, 0, 0);
}

/// Values that are not both lists and not both objects differ as a whole: in one difference, which
/// holds both, or in none where they are the same.
pub proof fn law_other_values_differ_as_a_whole(path: Seq<char>, a: Json, b: Json)
    requires
        !(a is Array && b is Array),
        !(a is Object && b is Object),
    ensures
        a != b ==> changes(path, a, b) == seq![Change::Changed(path, a, b)],
        a == b ==> changes(path, a, b).len() == 0,
{
}

/// What the lines say: the path, the old value, an arrow and the new value, with a word in place of
/// the value that is missing.
pub proof fn law_lines_name_path_and_values(
    path: Seq<char>,
    a: Json,
    b: Json,
    i: int,
    p: Seq<char>,
    x: Json,
    y: Json,
)
    requires
        0 <= i < changes(path, a, b).len(),
    ensures
        diff_lines(path, a, b).len() == changes(path, a, b).len(),
        changes(path, a, b)[i] == Change::Changed(p, x, y) ==> diff_lines(path, a, b)[i] == p
            + ": "@ + json_text(x) + " -> "@ + json_text(y),
        changes(path, a, b)[i] == Change::Removed(p, x) ==> diff_lines(path, a, b)[i] == p + ": "@
            + json_text(x) + " -> (removed)"@,
        changes(path, a, b)[i] == Change::Added(p, y) ==> diff_lines(path, a, b)[i] == p
            + ": (added) -> "@ + json_text(y),
{
}

/// Where one list is longer, the differences are those of the elements of both, followed by exactly
/// one for each element that only the longer list has, in order, with its index and value: removals
/// where the old list is longer, additions where the new one is.
pub proof fn law_the_longer_list(
    path: Seq<char>,
    common: Seq<Json>,
    rest: Seq<Json>,
    other: Seq<Json>,
)
    requires
        common.len() == other.len(),
    ensures
        changes(path, Json::Array(common + rest), Json::Array(other)) == changes(
            path,
            Json::Array(common),
            Json::Array(other),
        ) + Seq::new(
            rest.len(),
            |m: int|
                Change::Removed(path + "["@ + decimal((common.len() + m) as nat) + "]"@, rest[m]),
        ),
        changes(path, Json::Array(other), Json::Array(common + rest)) == changes(
            path,
            Json::Array(other),
            Json::Array(common),
        ) + Seq::new(
            rest.len(),
            |m: int|
                Change::Added(path + "["@ + decimal((common.len() + m) as nat) + "]"@, rest[m]),
        ),
    decreases rest.len(),
{
    let removed = |m: int|
        Change::Removed(path + "["@ + decimal((common.len() + m) as nat) + "]"@, rest[m]);
    let added = |m: int|
        Change::Added(path + "["@ + decimal((common.len() + m) as nat) + "]"@, rest[m]);
    let both = changes(path, Json::Array(common), Json::Array(other));
    let both_back = changes(path, Json::Array(other), Json::Array(common));
    if rest.len() == 0 {
        assert(common + rest =~= common);
        assert(both + Seq::new(rest.len(), removed) =~= both);
        assert(both_back + Seq::new(rest.len(), added) =~= both_back);
    } else {
        let front = rest.drop_last();
        let x = rest.last();
        law_the_longer_list(path, common, front, other);
        law_lists_differ_element_by_element(path, common + front, other, x, x);
        law_lists_differ_element_by_element(path, other, common + front, x, x);
        assert((common + front).push(x) =~= common + rest);
        assert(changes(path, Json::Array(common + rest), Json::Array(other)) =~= both + Seq::new(
            rest.len(),
            removed,
        ));
        assert(changes(path, Json::Array(other), Json::Array(common + rest)) =~= both_back
            + Seq::new(rest.len(), added));
    }
}

} // verus!
