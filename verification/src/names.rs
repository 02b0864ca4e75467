//! Telling the names of JSON fields apart.
use crate::json::{keys_distinct, Field};
use vstd::prelude::*;

verus! {

/// The character of `s` at `k` as a number, 0 behind the end.
pub open spec fn char_at(s: Seq<char>, k: int) -> int {
    if k < s.len() {
        s[k] as int
    } else {
        0
    }
}

/// A number that tells the names of the fields of one object apart.
#[verifier::opaque]
pub open spec fn mark(s: Seq<char>) -> int {
    s.len() + 3 * char_at(s, 4) + char_at(s, 10) + char_at(s, 19) + 100 * char_at(s, 23)
}

/// Has no field of `s` a name of mark `m`?
#[verifier::opaque]
pub open spec fn unmarked(s: Seq<Field>, m: int) -> bool {
    forall|i: int| 0 <= i < s.len() ==> mark((#[trigger] s[i]).0) != m
}

/// Have the names of any two fields of `s` different marks?
#[verifier::opaque]
pub open spec fn marked_apart(s: Seq<Field>) -> bool {
    forall|i: int, j: int|
        0 <= i < j < s.len() ==> mark((#[trigger] s[i]).0) != mark((#[trigger] s[j]).0)
}

/// Names of different marks are different.
pub proof fn lemma_marked_apart(s: Seq<Field>)
    requires
        marked_apart(s),
    ensures
        keys_distinct(s),
{
    reveal(marked_apart);
}

/// No fields have no names.
pub proof fn lemma_no_marks()
    ensures
        forall|m: int| #[trigger] unmarked(Seq::empty(), m),
        marked_apart(Seq::empty()),
{
    reveal(unmarked);
    reveal(marked_apart);
}

/// A mark is new to fields when it is new to the first ones and is not the last one's.
pub broadcast proof fn lemma_unmarked_push(s: Seq<Field>, f: Field, m: int)
    ensures
        #[trigger] unmarked(s.push(f), m) <==> unmarked(s, m) && mark(f.0) != m,
{
    reveal(unmarked);
    let t = s.push(f);
    if unmarked(t, m) {
        assert forall|i: int| 0 <= i < s.len() implies mark((#[trigger] s[i]).0) != m by {
            assert(t[i] == s[i]);
        }
        assert(t[s.len() as int] == f);
    }
}

/// The marks of fields differ when those of the first ones do and the last one's is new.
pub broadcast proof fn lemma_marked_apart_push(s: Seq<Field>, f: Field)
    ensures
        #[trigger] marked_apart(s.push(f)) <==> marked_apart(s) && unmarked(s, mark(f.0)),
{
    reveal(unmarked);
    reveal(marked_apart);
    let t = s.push(f);
    if marked_apart(t) {
        assert forall|i: int, j: int| 0 <= i < j < s.len() implies mark((#[trigger] s[i]).0)
            != mark((#[trigger] s[j]).0) by {
            assert(t[i] == s[i] && t[j] == s[j]);
        }
        assert forall|i: int| 0 <= i < s.len() implies mark((#[trigger] s[i]).0) != mark(f.0) by {
            assert(t[i] == s[i] && t[s.len() as int] == f);
        }
    }
}

/// How marks go on as fields are appended.
pub broadcast group group_marks {
    lemma_unmarked_push,
    lemma_marked_apart_push,
}

} // verus!
