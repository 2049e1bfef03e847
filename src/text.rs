//! Character-level helpers on `&str`, each with an exact contract over the
//! string's view as a sequence of characters.

use vstd::prelude::*;

verus! {

/// `p` is a prefix of `s`.
pub open spec fn has_prefix(s: Seq<char>, p: Seq<char>) -> bool {
    p.len() <= s.len() && s.subrange(0, p.len() as int) == p
}

/// `n` occurs in `s` starting at index `i`.
pub open spec fn occurs_at(s: Seq<char>, n: Seq<char>, i: int) -> bool {
    0 <= i && i + n.len() <= s.len() && s.subrange(i, i + n.len()) == n
}

/// `n` occurs somewhere in `s`.
pub open spec fn has_infix(s: Seq<char>, n: Seq<char>) -> bool {
    exists|i: int| occurs_at(s, n, i)
}

/// `i` is the index of the last occurrence of `c` in `s`.
pub open spec fn is_last_of(s: Seq<char>, c: char, i: int) -> bool {
    &&& 0 <= i < s.len()
    &&& s[i] == c
    &&& forall|j: int| i < j < s.len() ==> s[j] != c
}

/// Index of the last occurrence of `c` in `s`, or -1 when `c` does not occur.
pub open spec fn last_index(s: Seq<char>, c: char) -> int {
    if exists|i: int| is_last_of(s, c, i) {
        choose|i: int| is_last_of(s, c, i)
    } else {
        -1
    }
}

/// The one last occurrence is the one `last_index` names.
pub proof fn lemma_last_index_is(s: Seq<char>, c: char, i: int)
    requires
        is_last_of(s, c, i),
    ensures
        last_index(s, c) == i,
{
    let k = choose|k: int| is_last_of(s, c, k);
    assert(is_last_of(s, c, k));
    if k < i {
        assert(s[i] != c);
    } else if k > i {
        assert(s[k] != c);
    }
}

/// A character that does not occur has no last index.
pub proof fn lemma_last_index_absent(s: Seq<char>, c: char)
    requires
        forall|j: int| 0 <= j < s.len() ==> s[j] != c,
    ensures
        last_index(s, c) == -1,
{
    if exists|i: int| is_last_of(s, c, i) {
        let k = choose|i: int| is_last_of(s, c, i);
        assert(s[k] == c);
    }
}

/// Tells whether `n` occurs in `s` at character index `i`.
pub fn occurs_at_index(s: &str, n: &str, i: usize) -> (r: bool)
    ensures
        r == occurs_at(s@, n@, i as int),
{
    let sl = s.unicode_len();
    let nl = n.unicode_len();
    if i > sl || nl > sl - i {
        return false;
    }
    let mut k: usize = 0;
    while k < nl
        invariant
            sl == s@.len(),
            nl == n@.len(),
            i + nl <= sl,
            k <= nl,
            forall|j: int| 0 <= j < k ==> s@[i + j] == n@[j],
        decreases nl - k,
    {
        if s.get_char(i + k) != n.get_char(k) {
            assert(s@.subrange(i as int, i + nl)[k as int] != n@[k as int]);
            return false;
        }
        k += 1;
    }
    assert(s@.subrange(i as int, i + nl) =~= n@);
    true
}

/// Tells whether `a` and `b` hold the same characters.
pub fn str_eq(a: &str, b: &str) -> (r: bool)
    ensures
        r == (a@ == b@),
{
    if a.unicode_len() != b.unicode_len() {
        return false;
    }
    let r = occurs_at_index(a, b, 0);
    assert(r ==> a@.subrange(0, a@.len() as int) =~= a@);
    assert(a@ == b@ ==> a@.subrange(0, a@.len() as int) =~= b@);
    r
}

/// Tells whether `s` starts with `p`.
pub fn starts_with(s: &str, p: &str) -> (r: bool)
    ensures
        r == has_prefix(s@, p@),
{
    occurs_at_index(s, p, 0)
}

/// Tells whether `n` occurs anywhere in `s`.
pub fn contains(s: &str, n: &str) -> (r: bool)
    ensures
        r == has_infix(s@, n@),
{
    let sl = s.unicode_len();
    let nl = n.unicode_len();
    if nl > sl {
        return false;
    }
    if nl == 0 {
        assert(s@.subrange(0, 0) =~= n@);
        assert(occurs_at(s@, n@, 0));
        return true;
    }
    let mut i: usize = 0;
    while i <= sl - nl
        invariant
            sl == s@.len(),
            nl == n@.len(),
            1 <= nl <= sl,
            i <= sl - nl + 1,
            forall|j: int| 0 <= j < i ==> !occurs_at(s@, n@, j),
        decreases sl - nl + 1 - i,
    {
        if occurs_at_index(s, n, i) {
            return true;
        }
        i += 1;
    }
    assert forall|j: int| !occurs_at(s@, n@, j) by {
        if 0 <= j && j + nl <= sl {
            assert(j < i);
        }
    }
    false
}

/// Tells whether the character `c` occurs in `s`.
pub fn contains_char(s: &str, c: char) -> (r: bool)
    ensures
        r == s@.contains(c),
{
    let sl = s.unicode_len();
    let mut i: usize = 0;
    while i < sl
        invariant
            sl == s@.len(),
            i <= sl,
            forall|j: int| 0 <= j < i ==> s@[j] != c,
        decreases sl - i,
    {
        if s.get_char(i) == c {
            assert(s@[i as int] == c);
            return true;
        }
        i += 1;
    }
    false
}

/// Index of the last occurrence of `c` in `s`, if any.
pub fn last_char_index(s: &str, c: char) -> (r: Option<usize>)
    ensures
        r is Some ==> is_last_of(s@, c, r->0 as int),
        r is Some ==> last_index(s@, c) == r->0 as int,
        r is None ==> last_index(s@, c) == -1,
{
    let sl = s.unicode_len();
    let mut i: usize = sl;
    while i > 0
        invariant
            sl == s@.len(),
            i <= sl,
            forall|j: int| i <= j < sl ==> s@[j] != c,
        decreases i,
    {
        if s.get_char(i - 1) == c {
            proof {
                lemma_last_index_is(s@, c, i - 1);
            }
            return Some(i - 1);
        }
        i -= 1;
    }
    proof {
        lemma_last_index_absent(s@, c);
    }
    None
}

/// The characters of `a` followed by those of `b`.
pub fn concat(a: &str, b: &str) -> (r: String)
    ensures
        r@ == a@ + b@,
{
    String::from_str(a).concat(b)
}

/// The characters of `s` from index `from` up to, not including, `to`.
pub fn substring(s: &str, from: usize, to: usize) -> (r: String)
    requires
        from <= to <= s@.len(),
    ensures
        r@ == s@.subrange(from as int, to as int),
{
    String::from_str(s.substring_char(from, to))
}

/// The character sequences held by a vector of strings.
pub open spec fn view_set(v: Seq<String>) -> Set<Seq<char>> {
    Set::new(|x: Seq<char>| exists|i: int| 0 <= i < v.len() && v[i]@ == x)
}

/// No two strings of `v` hold the same characters.
pub open spec fn distinct_views(v: Seq<String>) -> bool {
    forall|i: int, j: int| 0 <= i < v.len() && 0 <= j < v.len() && i != j ==> v[i]@ != v[j]@
}

/// Taking one more string of `v` adds its characters to the view set.
pub proof fn lemma_view_set_extend(v: Seq<String>, i: int)
    requires
        0 <= i < v.len(),
    ensures
        view_set(v.subrange(0, i + 1)) == view_set(v.subrange(0, i)).insert(v[i]@),
{
    let before = view_set(v.subrange(0, i));
    let after = view_set(v.subrange(0, i + 1));
    assert forall|x: Seq<char>| after.contains(x) implies before.insert(v[i]@).contains(x) by {
        let j = choose|j: int| 0 <= j < i + 1 && #[trigger] v.subrange(0, i + 1)[j]@ == x;
        if j < i {
            assert(v.subrange(0, i)[j] == v.subrange(0, i + 1)[j]);
        }
    }
    assert forall|x: Seq<char>| before.insert(v[i]@).contains(x) implies after.contains(x) by {
        if x == v[i]@ {
            assert(v.subrange(0, i + 1)[i] == v[i]);
        } else {
            let j = choose|j: int| 0 <= j < i && #[trigger] v.subrange(0, i)[j]@ == x;
            assert(v.subrange(0, i)[j] == v.subrange(0, i + 1)[j]);
        }
    }
    assert(after =~= before.insert(v[i]@));
}

/// Tells whether some string of `v` holds the characters of `s`.
pub fn contains_string(v: &Vec<String>, s: &str) -> (r: bool)
    ensures
        r == view_set(v@).contains(s@),
{
    let mut i: usize = 0;
    while i < v.len()
        invariant
            i <= v@.len(),
            forall|j: int| 0 <= j < i ==> v@[j]@ != s@,
        decreases v.len() - i,
    {
        if str_eq(v[i].as_str(), s) {
            assert(v@[i as int]@ == s@);
            return true;
        }
        i += 1;
    }
    false
}

/// Adds `s` to `v` unless a string with the same characters is already there.
pub fn insert_string(v: &mut Vec<String>, s: String)
    ensures
        view_set(final(v)@) == view_set(old(v)@).insert(s@),
        distinct_views(old(v)@) ==> distinct_views(final(v)@),
{
    if !contains_string(v, s.as_str()) {
        let ghost before = v@;
        v.push(s);
        assert(view_set(v@) =~= view_set(before).insert(s@)) by {
            assert(forall|i: int| 0 <= i < before.len() ==> v@[i] == before[i]);
            assert(v@[before.len() as int] == s);
        }
    } else {
        assert(view_set(v@) =~= view_set(v@).insert(s@));
    }
}

} // verus!
