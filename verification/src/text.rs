//! Plain text operations on character sequences: lists of texts, trimming, ASCII case, searching,
//! terminators and order.
use vstd::prelude::*;

verus! {

/// `String::push` appends one character.
pub assume_specification[ String::push ](s: &mut String, c: char)
    ensures
        final(s)@ == old(s)@.push(c),
;

/// The characters of `s`, in order.
pub fn chars_of(s: &str) -> (r: Vec<char>)
    ensures
        r@ == s@,
{
    let mut r: Vec<char> = Vec::new();
    for c in it: s.chars()
        invariant
            r@ == it.seq().take(it.index() as int),
    {
        r.push(c);
    }
    r
}

/// The text made of the characters `from..to` of `chars`.
pub fn text_of(chars: &Vec<char>, from: usize, to: usize) -> (r: String)
    requires
        from <= to <= chars@.len(),
    ensures
        r@ == chars@.subrange(from as int, to as int),
{
    let mut r = String::new();
    let mut i: usize = from;
    while i < to
        invariant
            from <= i <= to <= chars@.len(),
            r@ == chars@.subrange(from as int, i as int),
        decreases to - i,
    {
        r.push(chars[i]);
        i = i + 1;
        assert(r@ =~= chars@.subrange(from as int, i as int));
    }
    r
}

/// Are the two texts the same?
pub fn same_text(a: &str, b: &str) -> (r: bool)
    ensures
        r == (a@ == b@),
{
    a.to_owned() == b.to_owned()
}

/// A copy of an optional text.
pub fn copy_option(o: &Option<String>) -> (r: Option<String>)
    ensures
        r is Some == o is Some,
        r is Some ==> r->0@ == o->0@,
{
    match o {
        Some(s) => Some(s.clone()),
        None => None,
    }
}

/// What a list of texts holds.
pub open spec fn texts(v: Seq<String>) -> Seq<Seq<char>> {
    Seq::new(v.len(), |i: int| v[i]@)
}

/// Appends `s` to `v`.
pub fn push_text(v: &mut Vec<String>, s: String)
    ensures
        texts(final(v)@) == texts(old(v)@).push(s@),
{
    v.push(s);
    assert(texts(v@) =~= texts(old(v)@).push(s@));
}

/// Is `s` among the texts in `v`?
pub fn has_text(v: &Vec<String>, s: &str) -> (r: bool)
    ensures
        r == texts(v@).contains(s@),
{
    let mut i: usize = 0;
    while i < v.len()
        invariant
            i <= v@.len(),
            forall|j: int| 0 <= j < i ==> texts(v@)[j] != s@,
        decreases v@.len() - i,
    {
        assert(texts(v@)[i as int] == v@[i as int]@);
        if same_text(v[i].as_str(), s) {
            return true;
        }
        i = i + 1;
    }
    false
}

/// The texts in `v`, copied.
pub fn copy_texts(v: &Vec<String>) -> (r: Vec<String>)
    ensures
        texts(r@) == texts(v@),
{
    let mut r: Vec<String> = Vec::new();
    let mut i: usize = 0;
    assert(texts(r@) =~= texts(v@).take(0));
    while i < v.len()
        invariant
            i <= v@.len(),
            texts(r@) == texts(v@).take(i as int),
        decreases v@.len() - i,
    {
        push_text(&mut r, v[i].clone());
        proof {
            lemma_take_next(texts(v@), i as int);
        }
        i = i + 1;
    }
    assert(texts(v@).take(i as int) =~= texts(v@));
    r
}

/// One element more of `s`.
pub proof fn lemma_take_next<A>(s: Seq<A>, i: int)
    requires
        0 <= i < s.len(),
    ensures
        s.take(i + 1) == s.take(i).push(s[i]),
{
    assert(s.take(i + 1) =~= s.take(i).push(s[i]));
}

// ---------------------------------------------------------------------------
// White space
// ---------------------------------------------------------------------------

/// The characters with the Unicode `White_Space` property.
pub open spec fn is_white(c: char) -> bool {
    ||| '\u{9}' <= c <= '\u{d}'
    ||| c == '\u{20}'
    ||| c == '\u{85}'
    ||| c == '\u{a0}'
    ||| c == '\u{1680}'
    ||| '\u{2000}' <= c <= '\u{200a}'
    ||| c == '\u{2028}'
    ||| c == '\u{2029}'
    ||| c == '\u{202f}'
    ||| c == '\u{205f}'
    ||| c == '\u{3000}'
}

/// Is `c` white space?
pub fn char_is_white(c: char) -> (r: bool)
    ensures
        r == is_white(c),
{
    ('\u{9}' <= c && c <= '\u{d}') || c == '\u{20}' || c == '\u{85}' || c == '\u{a0}' || c
        == '\u{1680}' || ('\u{2000}' <= c && c <= '\u{200a}') || c == '\u{2028}' || c == '\u{2029}'
        || c == '\u{202f}' || c == '\u{205f}' || c == '\u{3000}'
}

/// `s` without its leading white space.
pub open spec fn trim_start(s: Seq<char>) -> Seq<char>
    decreases s.len(),
{
    if s.len() > 0 && is_white(s[0]) {
        trim_start(s.subrange(1, s.len() as int))
    } else {
        s
    }
}

/// `s` without its trailing white space.
pub open spec fn trim_end(s: Seq<char>) -> Seq<char>
    decreases s.len(),
{
    if s.len() > 0 && is_white(s[s.len() - 1]) {
        trim_end(s.subrange(0, s.len() - 1))
    } else {
        s
    }
}

/// `s` without the white space at either end.
pub open spec fn trimmed(s: Seq<char>) -> Seq<char> {
    trim_end(trim_start(s))
}

/// `chars[from..]` without the white space at either end.
pub fn trim_chars(chars: &Vec<char>, from: usize) -> (r: String)
    requires
        from <= chars@.len(),
    ensures
        r@ == trimmed(chars@.subrange(from as int, chars@.len() as int)),
{
    let n: usize = chars.len();
    let ghost whole = chars@.subrange(from as int, n as int);
    let mut a: usize = from;
    while a < n && char_is_white(chars[a])
        invariant
            from <= a <= n == chars@.len(),
            trim_start(whole) == trim_start(chars@.subrange(a as int, n as int)),
        decreases n - a,
    {
        assert(chars@.subrange(a as int, n as int).subrange(1, n - a) =~= chars@.subrange(
            a + 1,
            n as int,
        ));
        a = a + 1;
    }
    let ghost rest = chars@.subrange(a as int, n as int);
    assert(trim_start(whole) == rest);
    let mut b: usize = n;
    while b > a && char_is_white(chars[b - 1])
        invariant
            a <= b <= n == chars@.len(),
            trim_end(rest) == trim_end(chars@.subrange(a as int, b as int)),
        decreases b,
    {
        assert(chars@.subrange(a as int, b as int).subrange(0, b - a - 1) =~= chars@.subrange(
            a as int,
            b - 1,
        ));
        b = b - 1;
    }
    text_of(chars, a, b)
}

/// `s` without the white space at either end.
pub fn trim(s: &str) -> (r: String)
    ensures
        r@ == trimmed(s@),
{
    let chars = chars_of(s);
    assert(chars@.subrange(0, chars@.len() as int) =~= s@);
    trim_chars(&chars, 0)
}

/// The text up to the first line feed, trimmed.
pub open spec fn first_line(s: Seq<char>) -> Seq<char> {
    trimmed(before_first(s, '\n'))
}

/// The first line of `s`, trimmed.
pub fn take_first_line(s: &str) -> (r: String)
    ensures
        r@ == first_line(s@),
{
    let chars = chars_of(s);
    let mut line: Vec<char> = Vec::new();
    let mut i: usize = 0;
    while i < chars.len() && chars[i] != '\n'
        invariant
            i <= chars@.len(),
            chars@ == s@,
            line@ == s@.subrange(0, i as int),
            forall|j: int| 0 <= j < i ==> s@[j] != '\n',
        decreases chars@.len() - i,
    {
        line.push(chars[i]);
        i = i + 1;
        assert(line@ =~= s@.subrange(0, i as int));
    }
    proof {
        lemma_before_first(s@, '\n', i as int);
        assert(line@.subrange(0, line@.len() as int) =~= line@);
    }
    trim_chars(&line, 0)
}

// ---------------------------------------------------------------------------
// ASCII case
// ---------------------------------------------------------------------------

/// `c` with an ASCII capital made small.
pub open spec fn lower_char(c: char) -> char {
    if 'A' <= c <= 'Z' {
        ((c as u8) + 32) as char
    } else {
        c
    }
}

/// `s` with its ASCII capitals made small.
pub open spec fn lowered(s: Seq<char>) -> Seq<char> {
    Seq::new(s.len(), |i: int| lower_char(s[i]))
}

/// `chars` with the ASCII capitals made small.
pub fn lower_chars(chars: &Vec<char>) -> (r: Vec<char>)
    ensures
        r@ == lowered(chars@),
{
    let mut r: Vec<char> = Vec::new();
    let mut i: usize = 0;
    while i < chars.len()
        invariant
            i <= chars@.len(),
            r@ == lowered(chars@.take(i as int)),
        decreases chars@.len() - i,
    {
        let c = chars[i];
        let l = if 'A' <= c && c <= 'Z' {
            ((c as u8) + 32) as char
        } else {
            c
        };
        r.push(l);
        i = i + 1;
        assert(r@ =~= lowered(chars@.take(i as int)));
    }
    assert(chars@.take(i as int) =~= chars@);
    r
}

/// `s` with its ASCII capitals made small.
pub fn lower(s: &str) -> (r: String)
    ensures
        r@ == lowered(s@),
{
    let l = lower_chars(&chars_of(s));
    let r = text_of(&l, 0, l.len());
    assert(r@ =~= lowered(s@));
    r
}

// ---------------------------------------------------------------------------
// Searching
// ---------------------------------------------------------------------------

/// Does `pat` stand in `s` at position `i`?
pub open spec fn stands_at(s: Seq<char>, pat: Seq<char>, i: int) -> bool {
    &&& 0 <= i
    &&& i + pat.len() <= s.len()
    &&& s.subrange(i, i + pat.len()) == pat
}

/// Does `pat` occur anywhere in `s`?
pub open spec fn occurs_in(s: Seq<char>, pat: Seq<char>) -> bool {
    exists|i: int| stands_at(s, pat, i)
}

/// Does `pat` stand in `s` at position `i`?
pub fn matches_at(s: &Vec<char>, pat: &Vec<char>, i: usize) -> (r: bool)
    ensures
        r == stands_at(s@, pat@, i as int),
{
    if i > s.len() || pat.len() > s.len() - i {
        return false;
    }
    let n: usize = s.len();
    let mut k: usize = 0;
    while k < pat.len()
        invariant
            k <= pat@.len(),
            i + pat@.len() <= s@.len() == n,
            forall|j: int| 0 <= j < k ==> s@[i + j] == pat@[j],
        decreases pat@.len() - k,
    {
        if s[i + k] != pat[k] {
            assert(s@.subrange(i as int, i + pat@.len())[k as int] == s@[i + k]);
            return false;
        }
        k = k + 1;
    }
    assert(s@.subrange(i as int, i + pat@.len()) =~= pat@);
    true
}

/// The first position at or after `from` where `pat` stands in `s`.
pub fn find_from(s: &Vec<char>, pat: &Vec<char>, from: usize) -> (r: Option<usize>)
    requires
        from <= s@.len(),
    ensures
        r matches Some(i) ==> from <= i && stands_at(s@, pat@, i as int),
        r matches Some(i) ==> forall|j: int| from <= j < i ==> !stands_at(s@, pat@, j),
        r is None ==> forall|j: int| from <= j ==> !stands_at(s@, pat@, j),
{
    let n: usize = s.len();
    let mut i: usize = from;
    loop
        invariant
            from <= i <= n == s@.len(),
            forall|j: int| from <= j < i ==> !stands_at(s@, pat@, j),
        decreases n - i,
    {
        if matches_at(s, pat, i) {
            return Some(i);
        }
        if i == n {
            return None;
        }
        i = i + 1;
    }
}

/// Does `pat` occur anywhere in `s`?
pub fn contains(s: &str, pat: &str) -> (r: bool)
    ensures
        r == occurs_in(s@, pat@),
{
    let sc = chars_of(s);
    let pc = chars_of(pat);
    match find_from(&sc, &pc, 0) {
        Some(i) => {
            assert(stands_at(s@, pat@, i as int));
            true
        },
        None => false,
    }
}

/// The first position from `from` on where `pat` stands in `s`, if any.
pub open spec fn first_at(s: Seq<char>, pat: Seq<char>, from: int) -> Option<int>
    decreases s.len() - from + 1,
{
    if from > s.len() {
        None
    } else if stands_at(s, pat, from) {
        Some(from)
    } else {
        first_at(s, pat, from + 1)
    }
}

proof fn lemma_first_at(s: Seq<char>, pat: Seq<char>, from: int, found: Option<int>)
    requires
        found matches Some(i) ==> from <= i <= s.len() && stands_at(s, pat, i),
        found matches Some(i) ==> forall|j: int| from <= j < i ==> !stands_at(s, pat, j),
        found is None ==> forall|j: int| from <= j ==> !stands_at(s, pat, j),
    ensures
        first_at(s, pat, from) == found,
    decreases s.len() - from + 1,
{
    if from <= s.len() && !stands_at(s, pat, from) {
        lemma_first_at(s, pat, from + 1, found);
    }
}

/// The second of the pieces that the occurrences of `pat` cut `s` into, if there is one.
pub open spec fn second_piece(s: Seq<char>, pat: Seq<char>) -> Option<Seq<char>> {
    match first_at(s, pat, 0) {
        Some(p) => {
            let rest = s.subrange(p + pat.len(), s.len() as int);
            match first_at(rest, pat, 0) {
                Some(q) => Some(rest.subrange(0, q)),
                None => Some(rest),
            }
        },
        None => None,
    }
}

/// The second of the pieces that the occurrences of `pat` cut `s` into, if there is one.
pub fn take_second_piece(s: &str, pat: &str) -> (r: Option<String>)
    requires
        pat@.len() > 0,
    ensures
        r is Some == second_piece(s@, pat@) is Some,
        r is Some ==> Some(r->0@) == second_piece(s@, pat@),
{
    let chars = chars_of(s);
    let p = chars_of(pat);
    match find_from(&chars, &p, 0) {
        Some(i) => {
            proof {
                lemma_first_at(s@, pat@, 0, Some(i as int));
            }
            let n: usize = chars.len();
            assert(i + p@.len() <= n);
            let rest = chars_of(text_of(&chars, i + p.len(), n).as_str());
            match find_from(&rest, &p, 0) {
                Some(j) => {
                    proof {
                        lemma_first_at(rest@, pat@, 0, Some(j as int));
                    }
                    Some(text_of(&rest, 0, j))
                },
                None => {
                    proof {
                        lemma_first_at(rest@, pat@, 0, None);
                        assert(rest@.subrange(0, rest@.len() as int) =~= rest@);
                    }
                    Some(text_of(&rest, 0, rest.len()))
                },
            }
        },
        None => {
            proof {
                lemma_first_at(s@, pat@, 0, None);
            }
            None
        },
    }
}

/// `s` without the copies of `pat` that stand one after another at its start.
pub open spec fn strip_leading(s: Seq<char>, pat: Seq<char>) -> Seq<char>
    decreases s.len(),
{
    if pat.len() > 0 && stands_at(s, pat, 0) {
        strip_leading(s.subrange(pat.len() as int, s.len() as int), pat)
    } else {
        s
    }
}

/// Where `s` goes on after the copies of `pat` that stand one after another at its start.
pub fn skip_leading(s: &Vec<char>, pat: &Vec<char>) -> (r: usize)
    ensures
        r <= s@.len(),
        s@.subrange(r as int, s@.len() as int) == strip_leading(s@, pat@),
{
    let n: usize = s.len();
    let mut i: usize = 0;
    assert(s@.subrange(0, n as int) =~= s@);
    while pat.len() > 0 && matches_at(s, pat, i)
        invariant
            i <= n == s@.len(),
            strip_leading(s@, pat@) == strip_leading(s@.subrange(i as int, n as int), pat@),
        decreases n - i,
    {
        let ghost rest = s@.subrange(i as int, n as int);
        let m: usize = pat.len();
        assert(rest.subrange(0, m as int) =~= s@.subrange(i as int, i + m));
        assert(rest.subrange(m as int, rest.len() as int) =~= s@.subrange(i + m, n as int));
        i = i + m;
    }
    let ghost rest = s@.subrange(i as int, n as int);
    proof {
        if pat@.len() > 0 && stands_at(rest, pat@, 0) {
            assert(s@.subrange(i as int, i + pat@.len()) =~= rest.subrange(0, pat@.len() as int));
        }
    }
    i
}

// ---------------------------------------------------------------------------
// Terminators
// ---------------------------------------------------------------------------

/// What stands in `s` before the first `stop`.
pub open spec fn before_first<A>(s: Seq<A>, stop: A) -> Seq<A>
    decreases s.len(),
{
    if s.len() == 0 || s[0] == stop {
        seq![]
    } else {
        seq![s[0]] + before_first(s.subrange(1, s.len() as int), stop)
    }
}

/// The first `n` elements are those before the first `stop` where `stop` is not among them and
/// follows them or nothing does.
pub proof fn lemma_before_first<A>(s: Seq<A>, stop: A, n: int)
    requires
        0 <= n <= s.len(),
        n < s.len() ==> s[n] == stop,
        forall|i: int| 0 <= i < n ==> s[i] != stop,
    ensures
        before_first(s, stop) == s.subrange(0, n),
    decreases s.len(),
{
    if s.len() > 0 && s[0] != stop {
        let rest = s.subrange(1, s.len() as int);
        assert forall|i: int| 0 <= i < n - 1 implies rest[i] != stop by {
            assert(rest[i] == s[i + 1]);
        }
        lemma_before_first(rest, stop, n - 1);
        assert(s.subrange(0, n) =~= seq![s[0]] + rest.subrange(0, n - 1));
    } else {
        assert(s.subrange(0, n) =~= seq![]);
    }
}

/// What follows the terminator has no influence.
pub proof fn law_nothing_after_the_terminator<A>(s: Seq<A>, stop: A, a: Seq<A>, b: Seq<A>)
    ensures
        before_first(s + seq![stop] + a, stop) == before_first(s + seq![stop] + b, stop),
    decreases s.len(),
{
    let x = s + seq![stop] + a;
    let y = s + seq![stop] + b;
    if s.len() > 0 {
        let rest = s.subrange(1, s.len() as int);
        assert(x.subrange(1, x.len() as int) =~= rest + seq![stop] + a);
        assert(y.subrange(1, y.len() as int) =~= rest + seq![stop] + b);
        law_nothing_after_the_terminator(rest, stop, a, b);
    }
}

// ---------------------------------------------------------------------------
// Order
// ---------------------------------------------------------------------------

/// The dictionary order of texts by code point, which is the byte order of their UTF-8 forms.
pub open spec fn text_less(a: Seq<char>, b: Seq<char>) -> bool
    decreases a.len(),
{
    if b.len() == 0 {
        false
    } else if a.len() == 0 {
        true
    } else if a[0] != b[0] {
        a[0] < b[0]
    } else {
        text_less(a.subrange(1, a.len() as int), b.subrange(1, b.len() as int))
    }
}

/// Exactly one of "before", "equal" and "after" holds of two texts.
pub proof fn lemma_text_order_total(a: Seq<char>, b: Seq<char>)
    ensures
        text_less(a, b) || text_less(b, a) || a == b,
        !(text_less(a, b) && text_less(b, a)),
        a == b ==> !text_less(a, b),
    decreases a.len(),
{
    if a.len() > 0 && b.len() > 0 && a[0] == b[0] {
        let a1 = a.subrange(1, a.len() as int);
        let b1 = b.subrange(1, b.len() as int);
        lemma_text_order_total(a1, b1);
        if a1 == b1 {
            assert(a =~= seq![a[0]] + a1);
            assert(b =~= seq![b[0]] + b1);
        }
    } else if a.len() == 0 && b.len() == 0 {
        assert(a =~= b);
    }
}

/// Text order is transitive.
pub proof fn lemma_text_order_transitive(a: Seq<char>, b: Seq<char>, c: Seq<char>)
    requires
        text_less(a, b),
        text_less(b, c),
    ensures
        text_less(a, c),
    decreases a.len(),
{
    if a.len() > 0 && b.len() > 0 && c.len() > 0 && a[0] == b[0] && b[0] == c[0] {
        lemma_text_order_transitive(
            a.subrange(1, a.len() as int),
            b.subrange(1, b.len() as int),
            c.subrange(1, c.len() as int),
        );
    }
}

/// Does `a` come before `b`?
pub fn comes_before(a: &str, b: &str) -> (r: bool)
    ensures
        r == text_less(a@, b@),
{
    let ac = chars_of(a);
    let bc = chars_of(b);
    let mut i: usize = 0;
    assert(ac@.subrange(0, ac@.len() as int) =~= a@);
    assert(bc@.subrange(0, bc@.len() as int) =~= b@);
    loop
        invariant
            i <= ac@.len(),
            i <= bc@.len(),
            text_less(a@, b@) == text_less(
                ac@.subrange(i as int, ac@.len() as int),
                bc@.subrange(i as int, bc@.len() as int),
            ),
        decreases ac@.len() - i,
    {
        if i == bc.len() {
            return false;
        }
        if i == ac.len() {
            return true;
        }
        if ac[i] != bc[i] {
            return ac[i] < bc[i];
        }
        let ghost ra = ac@.subrange(i as int, ac@.len() as int);
        let ghost rb = bc@.subrange(i as int, bc@.len() as int);
        assert(ra.subrange(1, ra.len() as int) =~= ac@.subrange(i + 1, ac@.len() as int));
        assert(rb.subrange(1, rb.len() as int) =~= bc@.subrange(i + 1, bc@.len() as int));
        i = i + 1;
    }
}

// ---------------------------------------------------------------------------
// Laws
// ---------------------------------------------------------------------------

proof fn lemma_trim_start(s: Seq<char>) -> (a: int)
    ensures
        0 <= a <= s.len(),
        trim_start(s) == s.subrange(a, s.len() as int),
        forall|i: int| 0 <= i < a ==> is_white(#[trigger] s[i]),
        a < s.len() ==> !is_white(s[a]),
    decreases s.len(),
{
    if s.len() > 0 && is_white(s[0]) {
        let t = s.subrange(1, s.len() as int);
        let b = lemma_trim_start(t);
        assert(t.subrange(b, t.len() as int) =~= s.subrange(b + 1, s.len() as int));
        assert forall|i: int| 0 <= i < b + 1 implies is_white(#[trigger] s[i]) by {
            if i > 0 {
                assert(t[i - 1] == s[i]);
            }
        }
        b + 1
    } else {
        assert(s.subrange(0, s.len() as int) =~= s);
        0
    }
}

proof fn lemma_trim_end(s: Seq<char>) -> (b: int)
    ensures
        0 <= b <= s.len(),
        trim_end(s) == s.subrange(0, b),
        forall|i: int| b <= i < s.len() ==> is_white(#[trigger] s[i]),
        b > 0 ==> !is_white(s[b - 1]),
    decreases s.len(),
{
    if s.len() > 0 && is_white(s[s.len() - 1]) {
        let t = s.subrange(0, s.len() - 1);
        let b = lemma_trim_end(t);
        assert(t.subrange(0, b) =~= s.subrange(0, b));
        assert forall|i: int| b <= i < s.len() implies is_white(#[trigger] s[i]) by {
            if i < s.len() - 1 {
                assert(t[i] == s[i]);
            }
        }
        b
    } else {
        assert(s.subrange(0, s.len() as int) =~= s);
        s.len() as int
    }
}

/// Trimming takes white space off both ends, all of it, and nothing else: text that neither begins
/// nor ends with white space stays as it is, whatever white space is put around it.
pub proof fn law_trimming(before: Seq<char>, s: Seq<char>, after: Seq<char>)
    requires
        forall|i: int| 0 <= i < before.len() ==> is_white(#[trigger] before[i]),
        forall|i: int| 0 <= i < after.len() ==> is_white(#[trigger] after[i]),
        s.len() > 0 ==> !is_white(s[0]) && !is_white(s[s.len() - 1]),
    ensures
        trimmed(before + s + after) == s,
{
    let all = before + s + after;
    let a = lemma_trim_start(all);
    let rest = trim_start(all);
    let b = lemma_trim_end(rest);
    let n = before.len() as int;
    let m = s.len() as int;
    if m > 0 {
        assert(all[n] == s[0]);
        assert(all[n + m - 1] == s[m - 1]);
        if a < n {
            assert(all[a] == before[a]);
        } else if a > n {
            assert(is_white(all[n]));
        }
        assert(a == n);
        assert(rest[m - 1] == s[m - 1]);
        if b < m {
            assert(is_white(rest[m - 1]));
        } else if b > m {
            assert(rest[b - 1] == after[b - 1 - m]);
        }
        assert(rest.subrange(0, b) =~= s);
    } else {
        if a < all.len() {
            if a < n {
                assert(all[a] == before[a]);
            } else {
                assert(all[a] == after[a - n]);
            }
        }
        assert(rest.len() == 0);
        assert(rest.subrange(0, b) =~= s);
    }
}

/// Lowering touches the 26 ASCII capitals alone: each becomes the letter 32 code points on, at the
/// same place.
pub proof fn law_lowering(s: Seq<char>, i: int)
    requires
        0 <= i < s.len(),
    ensures
        lowered(s).len() == s.len(),
        0x41 <= s[i] as u32 <= 0x5a ==> lowered(s)[i] as u32 == s[i] as u32 + 32,
        !(0x41 <= s[i] as u32 <= 0x5a) ==> lowered(s)[i] == s[i],
{
}

/// A pattern stands where each of its characters does.
pub proof fn law_standing(s: Seq<char>, pat: Seq<char>, i: int)
    ensures
        stands_at(s, pat, i) <==> 0 <= i && i + pat.len() <= s.len() && forall|k: int|
            0 <= k < pat.len() ==> s[i + k] == #[trigger] pat[k],
{
    if 0 <= i && i + pat.len() <= s.len() {
        let here = s.subrange(i, i + pat.len());
        if stands_at(s, pat, i) {
            assert forall|k: int| 0 <= k < pat.len() implies s[i + k] == #[trigger] pat[k] by {
                assert(here[k] == s[i + k]);
            }
        } else if forall|k: int| 0 <= k < pat.len() ==> s[i + k] == #[trigger] pat[k] {
            assert forall|k: int| 0 <= k < pat.len() implies here[k] == pat[k] by {
                assert(s[i + k] == pat[k]);
            }
            assert(here =~= pat);
        }
    }
}

/// A text contains exactly what it can be cut around.
pub proof fn law_containing(a: Seq<char>, pat: Seq<char>, b: Seq<char>, s: Seq<char>)
    ensures
        occurs_in(a + pat + b, pat),
        occurs_in(s, pat) ==> exists|x: Seq<char>, y: Seq<char>| s == #[trigger] (x + pat + y),
{
    let all = a + pat + b;
    assert(all.subrange(a.len() as int, (a.len() + pat.len()) as int) =~= pat);
    assert(stands_at(all, pat, a.len() as int));
    if occurs_in(s, pat) {
        let i = choose|i: int| stands_at(s, pat, i);
        let x = s.subrange(0, i);
        let y = s.subrange(i + pat.len(), s.len() as int);
        assert(s =~= x + pat + y) by {
            assert(s.subrange(i, i + pat.len()) == pat);
            assert forall|k: int| 0 <= k < s.len() implies s[k] == (x + pat + y)[k] by {
                if i <= k < i + pat.len() {
                    assert(s.subrange(i, i + pat.len())[k - i] == s[k]);
                }
            }
        }
        assert(s == x + pat + y);
    }
}

proof fn lemma_first_at_is_first(s: Seq<char>, pat: Seq<char>, from: int)
    requires
        0 <= from,
    ensures
        first_at(s, pat, from) matches Some(i) ==> from <= i && stands_at(s, pat, i)
            && forall|j: int| from <= j < i ==> !stands_at(s, pat, j),
        first_at(s, pat, from) is None ==> forall|j: int| from <= j ==> !stands_at(s, pat, j),
    decreases s.len() - from + 1,
{
    if from <= s.len() && !stands_at(s, pat, from) {
        lemma_first_at_is_first(s, pat, from + 1);
    }
}

/// The second piece is what follows the first occurrence of the pattern, up to the next one or to
/// the end; there is none where the pattern does not occur.
pub proof fn law_second_piece(s: Seq<char>, pat: Seq<char>)
    ensures
        second_piece(s, pat) is None <==> forall|i: int| !stands_at(s, pat, i),
        second_piece(s, pat) matches Some(piece) ==> exists|i: int|
            {
                &&& #[trigger] stands_at(s, pat, i)
                &&& forall|j: int| 0 <= j < i ==> !stands_at(s, pat, j)
                &&& stands_at(s, piece, i + pat.len())
                &&& forall|j: int|
                    i + pat.len() <= j < i + pat.len() + piece.len() ==> !stands_at(s, pat, j)
                &&& i + pat.len() + piece.len() == s.len() || stands_at(
                    s,
                    pat,
                    i + pat.len() + piece.len(),
                )
            },
{
    lemma_first_at_is_first(s, pat, 0);
    match first_at(s, pat, 0) {
        None => {
            assert forall|i: int| !stands_at(s, pat, i) by {
                if 0 <= i {
                    assert(!stands_at(s, pat, i));
                }
            }
        },
        Some(p) => {
            let n = p + pat.len();
            let rest = s.subrange(n, s.len() as int);
            lemma_first_at_is_first(rest, pat, 0);
            let piece = second_piece(s, pat)->0;
            assert forall|j: int| n <= j implies stands_at(s, pat, j) == #[trigger] stands_at(
                rest,
                pat,
                j - n,
            ) by {
                if j + pat.len() <= s.len() {
                    assert(rest.subrange(j - n, j - n + pat.len()) =~= s.subrange(
                        j,
                        j + pat.len(),
                    ));
                }
            }
            assert(s.subrange(n, n + piece.len()) =~= piece);
            assert(stands_at(s, piece, n));
            assert forall|j: int| n <= j < n + piece.len() implies !stands_at(s, pat, j) by {
                assert(!stands_at(rest, pat, j - n));
            }
            if n + piece.len() != s.len() {
                assert(stands_at(rest, pat, piece.len() as int));
                assert(stands_at(rest, pat, (n + piece.len()) - n));
            }
            assert(stands_at(s, pat, p));
        },
    }
}

/// Stripping takes copies of the pattern off the start, as many as there are: one more in front
/// makes no difference, and a text that does not begin with the pattern stays as it is.
pub proof fn law_stripping(s: Seq<char>, pat: Seq<char>)
    requires
        pat.len() > 0,
    ensures
        strip_leading(pat + s, pat) == strip_leading(s, pat),
        !stands_at(s, pat, 0) ==> strip_leading(s, pat) == s,
{
    let all = pat + s;
    assert(all.subrange(0, pat.len() as int) =~= pat);
    assert(stands_at(all, pat, 0));
    assert(all.subrange(pat.len() as int, all.len() as int) =~= s);
}

/// A terminator ends what stands before it, and without one all of it stands.
pub proof fn law_terminator<A>(s: Seq<A>, stop: A, rest: Seq<A>)
    requires
        forall|i: int| 0 <= i < s.len() ==> s[i] != stop,
    ensures
        before_first(s, stop) == s,
        before_first(s + seq![stop] + rest, stop) == s,
{
    lemma_before_first(s, stop, s.len() as int);
    assert(s.subrange(0, s.len() as int) =~= s);
    let all = s + seq![stop] + rest;
    assert forall|i: int| 0 <= i < s.len() implies all[i] != stop by {
        assert(all[i] == s[i]);
    }
    assert(all[s.len() as int] == stop);
    lemma_before_first(all, stop, s.len() as int);
    assert(all.subrange(0, s.len() as int) =~= s);
}

/// The first line is what stands before the first line feed, without white space around it.
pub proof fn law_first_line(s: Seq<char>, rest: Seq<char>)
    requires
        forall|i: int| 0 <= i < s.len() ==> s[i] != '\n',
        s.len() > 0 ==> !is_white(s[0]) && !is_white(s[s.len() - 1]),
    ensures
        first_line(s) == s,
        first_line(s + seq!['\n'] + rest) == s,
        first_line(" "@ + s + " \n"@ + rest) == s,
{
    law_terminator(s, '\n', rest);
    let none = Seq::<char>::empty();
    law_trimming(none, s, none);
    assert(none + s + none =~= s);
    reveal_strlit(" ");
    reveal_strlit(" \n");
    let padded = " "@ + s + " "@;
    assert forall|i: int| 0 <= i < padded.len() implies padded[i] != '\n' by {
        if 1 <= i < 1 + s.len() {
            assert(padded[i] == s[i - 1]);
        }
    }
    law_terminator(padded, '\n', rest);
    assert(" "@ + s + " \n"@ + rest =~= padded + seq!['\n'] + rest);
    law_trimming(" "@, s, " "@);
}

/// Texts are ordered by the first place where they differ, and a text comes before what continues
/// it.
pub proof fn law_order_of_texts(a: Seq<char>, b: Seq<char>)
    ensures
        text_less(a, b) <==> exists|k: int|
            {
                &&& 0 <= k <= a.len()
                &&& k < b.len()
                &&& #[trigger] a.subrange(0, k) == b.subrange(0, k)
                &&& k == a.len() || a[k] < b[k]
            },
    decreases a.len(),
{
    if b.len() == 0 {
    } else if a.len() == 0 {
        assert(a.subrange(0, 0) =~= b.subrange(0, 0));
    } else if a[0] != b[0] {
        assert(a.subrange(0, 0) =~= b.subrange(0, 0));
        if exists|k: int|
            {
                &&& 0 <= k <= a.len()
                &&& k < b.len()
                &&& #[trigger] a.subrange(0, k) == b.subrange(0, k)
                &&& k == a.len() || a[k] < b[k]
            } {
            let k = choose|k: int|
                {
                    &&& 0 <= k <= a.len()
                    &&& k < b.len()
                    &&& #[trigger] a.subrange(0, k) == b.subrange(0, k)
                    &&& k == a.len() || a[k] < b[k]
                };
            if k > 0 {
                assert(a.subrange(0, k)[0] == b.subrange(0, k)[0]);
            }
        }
    } else {
        let x = a.subrange(1, a.len() as int);
        let y = b.subrange(1, b.len() as int);
        law_order_of_texts(x, y);
        if text_less(x, y) {
            let k = choose|k: int|
                {
                    &&& 0 <= k <= x.len()
                    &&& k < y.len()
                    &&& #[trigger] x.subrange(0, k) == y.subrange(0, k)
                    &&& k == x.len() || x[k] < y[k]
                };
            assert forall|i: int| 0 <= i < k + 1 implies a[i] == b[i] by {
                if i > 0 {
                    assert(x.subrange(0, k)[i - 1] == y.subrange(0, k)[i - 1]);
                }
            }
            assert(a.subrange(0, k + 1) =~= b.subrange(0, k + 1));
        }
        if exists|k: int|
            {
                &&& 0 <= k <= a.len()
                &&& k < b.len()
                &&& #[trigger] a.subrange(0, k) == b.subrange(0, k)
                &&& k == a.len() || a[k] < b[k]
            } {
            let k = choose|k: int|
                {
                    &&& 0 <= k <= a.len()
                    &&& k < b.len()
                    &&& #[trigger] a.subrange(0, k) == b.subrange(0, k)
                    &&& k == a.len() || a[k] < b[k]
                };
            assert(k > 0);
            assert forall|i: int| 0 <= i < k - 1 implies x[i] == y[i] by {
                assert(a.subrange(0, k)[i + 1] == b.subrange(0, k)[i + 1]);
            }
            assert(x.subrange(0, k - 1) =~= y.subrange(0, k - 1));
        }
    }
}

/// The view of a list of texts tells all that they hold.
pub proof fn law_text_views(v: Seq<String>, i: int)
    requires
        0 <= i < v.len(),
    ensures
        texts(v).len() == v.len(),
        texts(v)[i] == v[i]@,
{
}

/// White space is the five characters from tab to carriage return, the blank, next line, the no-break
/// space, the Ogham space mark, the spaces from en quad to hair space, the line and paragraph
/// separators, the narrow no-break space, the mathematical space and the ideographic space.
pub proof fn law_white_space(c: char)
    ensures
        is_white(c) <==> ({
            let n = c as u32;
            (9 <= n && n <= 13) || n == 32 || n == 133 || n == 160 || n == 5760 || (8192 <= n && n
                <= 8202) || n == 8232 || n == 8233 || n == 8239 || n == 8287 || n == 12288
        }),
{
}

} // verus!
