//! Character-level helpers on strings, stated over their `Seq<char>` views.
use vstd::prelude::*;

verus! {

/// `w` occurs in `s` at position `i`.
pub open spec fn occurs_at(s: Seq<char>, w: Seq<char>, i: int) -> bool {
    0 <= i && i + w.len() <= s.len() && s.subrange(i, i + w.len()) == w
}

/// `w` occurs somewhere in `s`.
pub open spec fn has_infix(s: Seq<char>, w: Seq<char>) -> bool {
    exists|i: int| #[trigger] occurs_at(s, w, i)
}

/// The first index at or after `i` that holds `c`, or `s.len()` if there is none.
pub open spec fn next_index_of(s: Seq<char>, c: char, i: int) -> int
    decreases s.len() - i,
{
    if i < 0 || i >= s.len() {
        s.len() as int
    } else if s[i] == c {
        i
    } else {
        next_index_of(s, c, i + 1)
    }
}

pub proof fn lemma_next_index_of_bounds(s: Seq<char>, c: char, i: int)
    requires
        0 <= i <= s.len(),
    ensures
        i <= next_index_of(s, c, i) <= s.len(),
        next_index_of(s, c, i) < s.len() ==> s[next_index_of(s, c, i)] == c,
        forall|j: int| i <= j < next_index_of(s, c, i) ==> s[j] != c,
    decreases s.len() - i,
{
    if i < s.len() && s[i] != c {
        lemma_next_index_of_bounds(s, c, i + 1);
    }
}

/// Relies on the documentation of `String::push`: the character is appended.
pub assume_specification[ String::push ](s: &mut String, ch: char)
    ensures
        final(s)@ == old(s)@.push(ch),
;

/// The string holding `v[from..to]`.
pub fn string_of(v: &Vec<char>, from: usize, to: usize) -> (r: String)
    requires
        from <= to <= v@.len(),
    ensures
        r@ == v@.subrange(from as int, to as int),
{
    let mut r = String::new();
    let mut i = from;
    while i < to
        invariant
            from <= i <= to <= v@.len(),
            r@ == v@.subrange(from as int, i as int),
        decreases to - i,
    {
        r.push(v[i]);
        assert(v@.subrange(from as int, i + 1) =~= v@.subrange(from as int, i as int).push(v@[i as int]));
        i = i + 1;
    }
    r
}

/// A copy of `v[from..to]`.
pub fn slice_of(v: &Vec<char>, from: usize, to: usize) -> (r: Vec<char>)
    requires
        from <= to <= v@.len(),
    ensures
        r@ == v@.subrange(from as int, to as int),
{
    let mut r: Vec<char> = Vec::new();
    let mut i = from;
    while i < to
        invariant
            from <= i <= to <= v@.len(),
            r@ == v@.subrange(from as int, i as int),
        decreases to - i,
    {
        r.push(v[i]);
        assert(v@.subrange(from as int, i + 1) =~= v@.subrange(from as int, i as int).push(v@[i as int]));
        i = i + 1;
    }
    r
}

/// The characters of `s`, in order.
pub fn chars_of(s: &str) -> (r: Vec<char>)
    ensures
        r@ == s@,
{
    let n = s.unicode_len();
    let mut r: Vec<char> = Vec::new();
    let mut i: usize = 0;
    while i < n
        invariant
            n == s@.len(),
            i <= n,
            r@ == s@.subrange(0, i as int),
        decreases n - i,
    {
        r.push(s.get_char(i));
        i = i + 1;
    }
    assert(r@ =~= s@);
    r
}

/// The first index at or after `from` that holds `c`, or the length.
pub fn find_from(s: &Vec<char>, c: char, from: usize) -> (r: usize)
    requires
        from <= s@.len(),
    ensures
        r == next_index_of(s@, c, from as int),
        from <= r <= s@.len(),
{
    let mut i = from;
    while i < s.len()
        invariant
            from <= i <= s@.len(),
            next_index_of(s@, c, from as int) == next_index_of(s@, c, i as int),
        decreases s@.len() - i,
    {
        if s[i] == c {
            return i;
        }
        i = i + 1;
    }
    i
}

/// Whether `w` occurs in `s` at position `i`.
pub fn matches_at(s: &Vec<char>, w: &Vec<char>, i: usize) -> (r: bool)
    ensures
        r == occurs_at(s@, w@, i as int),
{
    if i > s.len() || w.len() > s.len() - i {
        return false;
    }
    let mut k: usize = 0;
    while k < w.len()
        invariant
            i + w@.len() <= s@.len(),
            s@.len() <= usize::MAX,
            k <= w@.len(),
            forall|j: int| 0 <= j < k ==> s@[i + j] == w@[j],
        decreases w@.len() - k,
    {
        if s[i + k] != w[k] {
            proof {
                assert(s@.subrange(i as int, i + w@.len())[k as int] != w@[k as int]);
            }
            return false;
        }
        k = k + 1;
    }
    assert(s@.subrange(i as int, i + w@.len()) =~= w@);
    true
}

/// Whether `w` occurs anywhere in `s`.
pub fn contains(s: &Vec<char>, w: &Vec<char>) -> (r: bool)
    ensures
        r == has_infix(s@, w@),
{
    let mut i: usize = 0;
    while i < s.len()
        invariant
            i <= s@.len(),
            forall|j: int| 0 <= j < i ==> !occurs_at(s@, w@, j),
        decreases s@.len() - i,
    {
        if matches_at(s, w, i) {
            return true;
        }
        i = i + 1;
    }
    if matches_at(s, w, i) {
        return true;
    }
    assert forall|j: int| !occurs_at(s@, w@, j) by {
        if 0 <= j <= i {
        } else {
        }
    }
    false
}

/// Whether `s` ends with `w`.
pub fn ends_with(s: &Vec<char>, w: &Vec<char>) -> (r: bool)
    ensures
        r == (w@.len() <= s@.len() && s@.subrange(s@.len() - w@.len(), s@.len() as int) == w@),
{
    if w.len() > s.len() {
        return false;
    }
    matches_at(s, w, s.len() - w.len())
}

/// Whether the views of two strings are equal.
pub fn same_text(a: &str, b: &str) -> (r: bool)
    ensures
        r == (a@ == b@),
{
    let x = String::from_str(a);
    let y = String::from_str(b);
    x == y
}

/// Appends the characters `c` to `out`.
pub fn push_chars(out: &mut String, c: &Vec<char>)
    ensures
        final(out)@ == old(out)@ + c@,
{
    let mut i: usize = 0;
    let ghost start = out@;
    while i < c.len()
        invariant
            i <= c@.len(),
            out@ == start + c@.subrange(0, i as int),
        decreases c@.len() - i,
    {
        out.push(c[i]);
        assert(c@.subrange(0, i + 1) =~= c@.subrange(0, i as int).push(c@[i as int]));
        i = i + 1;
    }
    assert(c@.subrange(0, c@.len() as int) =~= c@);
}

/// Appends the characters of `s` to `out`.
pub fn push_str(out: &mut String, s: &str)
    ensures
        final(out)@ == old(out)@ + s@,
{
    let c = chars_of(s);
    push_chars(out, &c);
}

/// The views of a list of strings.
pub open spec fn texts(v: Seq<String>) -> Seq<Seq<char>> {
    v.map_values(|s: String| s@)
}

/// `s` with every leading copy of `p` removed.
pub open spec fn strip_leading(s: Seq<char>, p: Seq<char>) -> Seq<char>
    decreases s.len(),
{
    if p.len() > 0 && p.len() <= s.len() && s.subrange(0, p.len() as int) == p {
        strip_leading(s.subrange(p.len() as int, s.len() as int), p)
    } else {
        s
    }
}

/// `s` with every trailing copy of `p` removed.
pub open spec fn strip_trailing(s: Seq<char>, p: Seq<char>) -> Seq<char>
    decreases s.len(),
{
    if p.len() > 0 && p.len() <= s.len() && s.subrange(s.len() - p.len(), s.len() as int) == p {
        strip_trailing(s.subrange(0, s.len() - p.len()), p)
    } else {
        s
    }
}

/// Removes every leading copy of `p` from `s`.
pub fn trim_start_matches(s: &Vec<char>, p: &Vec<char>) -> (r: Vec<char>)
    ensures
        r@ == strip_leading(s@, p@),
{
    if p.len() == 0 {
        return slice_of(s, 0, s.len());
    }
    let mut i: usize = 0;
    let len = s.len();
    assert(s@.subrange(0, s@.len() as int) =~= s@);
    loop
        invariant
            p@.len() > 0,
            i <= s@.len(),
            len == s@.len(),
            strip_leading(s@, p@) == strip_leading(s@.subrange(i as int, s@.len() as int), p@),
        decreases s@.len() - i,
    {
        let ghost rest = s@.subrange(i as int, s@.len() as int);
        if matches_at(s, p, i) {
            assert(i + p@.len() <= s@.len());
            assert(rest.subrange(0, p@.len() as int) =~= s@.subrange(i as int, i + p@.len()));
            assert(rest.subrange(p@.len() as int, rest.len() as int) =~= s@.subrange(i + p@.len(), s@.len() as int));
            i = i + p.len();
        } else {
            assert(p@.len() <= rest.len() ==> rest.subrange(0, p@.len() as int) =~= s@.subrange(i as int, i + p@.len()));
            return slice_of(s, i, s.len());
        }
    }
}

/// Removes every trailing copy of `p` from `s`.
pub fn trim_end_matches(s: &Vec<char>, p: &Vec<char>) -> (r: Vec<char>)
    ensures
        r@ == strip_trailing(s@, p@),
{
    if p.len() == 0 {
        return slice_of(s, 0, s.len());
    }
    let mut n: usize = s.len();
    assert(s@.subrange(0, s@.len() as int) =~= s@);
    loop
        invariant
            p@.len() > 0,
            n <= s@.len(),
            strip_trailing(s@, p@) == strip_trailing(s@.subrange(0, n as int), p@),
        decreases n,
    {
        let ghost rest = s@.subrange(0, n as int);
        if p.len() <= n && matches_at(s, p, n - p.len()) {
            assert(rest.subrange(rest.len() - p@.len(), rest.len() as int) =~= s@.subrange(n - p@.len(), n as int));
            assert(rest.subrange(0, rest.len() - p@.len()) =~= s@.subrange(0, n - p@.len()));
            n = n - p.len();
        } else {
            assert(p@.len() <= rest.len() ==> rest.subrange(rest.len() - p@.len(), rest.len() as int) =~= s@.subrange(n - p@.len(), n as int));
            return slice_of(s, 0, n);
        }
    }
}

pub proof fn lemma_texts_push(v: Seq<String>, x: String)
    ensures
        texts(v.push(x)) == texts(v).push(x@),
        texts(v).len() == v.len(),
{
    assert(texts(v.push(x)) =~= texts(v).push(x@));
}

pub proof fn lemma_texts_index(v: Seq<String>, k: int)
    requires
        0 <= k < v.len(),
    ensures
        texts(v).len() == v.len(),
        texts(v)[k] == v[k]@,
{
}

pub proof fn lemma_texts_len(v: Seq<String>)
    ensures
        texts(v).len() == v.len(),
{
}

/// Whether two character lists are equal.
pub fn same_chars(a: &Vec<char>, b: &Vec<char>) -> (r: bool)
    ensures
        r == (a@ == b@),
{
    if a.len() != b.len() {
        return false;
    }
    let mut i: usize = 0;
    while i < a.len()
        invariant
            a@.len() == b@.len(),
            i <= a@.len(),
            forall|k: int| 0 <= k < i ==> a@[k] == b@[k],
        decreases a@.len() - i,
    {
        if a[i] != b[i] {
            return false;
        }
        i = i + 1;
    }
    assert(a@ =~= b@);
    true
}

/// An occurrence of `w` in `a + b` lies in `a`, in `b`, or across the two;
/// one across the two holds the last character of `a` and the first of `b`.
pub proof fn lemma_infix_split(a: Seq<char>, b: Seq<char>, w: Seq<char>)
    ensures
        has_infix(a, w) ==> has_infix(a + b, w),
        has_infix(b, w) ==> has_infix(a + b, w),
        (has_infix(a + b, w) && !has_infix(a, w) && !has_infix(b, w)) ==> (a.len() > 0 && b.len() > 0 && w.contains(
            a.last(),
        ) && w.contains(b[0])),
{
    let s = a + b;
    if has_infix(a, w) {
        let i = choose|i: int| occurs_at(a, w, i);
        assert(s.subrange(i, i + w.len()) =~= a.subrange(i, i + w.len()));
        assert(occurs_at(s, w, i));
    }
    if has_infix(b, w) {
        let i = choose|i: int| occurs_at(b, w, i);
        assert(s.subrange(i + a.len(), i + a.len() + w.len()) =~= b.subrange(i, i + w.len()));
        assert(occurs_at(s, w, i + a.len()));
    }
    if has_infix(s, w) && !has_infix(a, w) && !has_infix(b, w) {
        let i = choose|i: int| occurs_at(s, w, i);
        if i + w.len() <= a.len() {
            assert(a.subrange(i, i + w.len()) =~= s.subrange(i, i + w.len()));
            assert(occurs_at(a, w, i));
        } else if i >= a.len() {
            assert(b.subrange(i - a.len(), i - a.len() + w.len()) =~= s.subrange(i, i + w.len()));
            assert(occurs_at(b, w, i - a.len()));
        } else {
            let j = a.len() - i;
            assert(w[j - 1] == s.subrange(i, i + w.len())[j - 1]);
            assert(w[j] == s.subrange(i, i + w.len())[j]);
            assert(w[j - 1] == a.last());
            assert(w[j] == b[0]);
        }
    }
}

/// A word holding a character that `s` lacks does not occur in `s`.
pub proof fn lemma_infix_needs_char(s: Seq<char>, w: Seq<char>, k: int)
    requires
        0 <= k < w.len(),
        !s.contains(w[k]),
    ensures
        !has_infix(s, w),
{
    if has_infix(s, w) {
        let i = choose|i: int| occurs_at(s, w, i);
        assert(s.subrange(i, i + w.len())[k] == s[i + k]);
    }
}

/// A word found at `i` occurs.
pub proof fn lemma_infix_at(s: Seq<char>, w: Seq<char>, i: int)
    requires
        0 <= i,
        i + w.len() <= s.len(),
        s.subrange(i, i + w.len()) == w,
    ensures
        has_infix(s, w),
{
    assert(occurs_at(s, w, i));
}

/// Where `c` is first found at `e`, from `i` on.
pub proof fn lemma_next_index_of_at(s: Seq<char>, c: char, i: int, e: int)
    requires
        0 <= i <= e < s.len(),
        s[e] == c,
        forall|j: int| i <= j < e ==> s[j] != c,
    ensures
        next_index_of(s, c, i) == e,
    decreases e - i,
{
    if i < e {
        lemma_next_index_of_at(s, c, i + 1, e);
    }
}

} // verus!
