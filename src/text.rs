use vstd::prelude::*;
use vstd::string::*;

verus! {

/// Index of the first `c` in `s` at or after position `i`, or -1 if there is none.
pub open spec fn index_from(s: Seq<char>, c: char, i: int) -> int
    decreases s.len() - i,
{
    if i < 0 || i >= s.len() {
        -1
    } else if s[i] == c {
        i
    } else {
        index_from(s, c, i + 1)
    }
}

/// Index of the first `c` in `s`, or -1 if there is none.
pub open spec fn first_index(s: Seq<char>, c: char) -> int {
    index_from(s, c, 0)
}

/// `s` split around the first occurrence of `c`; `None` if `c` does not occur.
pub open spec fn split_first(s: Seq<char>, c: char) -> Option<(Seq<char>, Seq<char>)> {
    let k = first_index(s, c);
    if k < 0 {
        None
    } else {
        Some((s.take(k), s.skip(k + 1)))
    }
}

/// The index found is the first occurrence of `c` from `i` on.
pub proof fn lemma_index_from(s: Seq<char>, c: char, i: int)
    requires
        0 <= i,
    ensures
        index_from(s, c, i) < 0 ==> forall|j: int| i <= j < s.len() ==> s[j] != c,
        index_from(s, c, i) >= 0 ==> i <= index_from(s, c, i) < s.len() && s[index_from(s, c, i)]
            == c && forall|j: int| i <= j < index_from(s, c, i) ==> s[j] != c,
    decreases s.len() - i,
{
    if i < s.len() && s[i] != c {
        lemma_index_from(s, c, i + 1);
    }
}

/// Splitting on the first `c` leaves a head free of `c`, and the parts rebuild the input.
pub proof fn lemma_split_first(s: Seq<char>, c: char)
    ensures
        split_first(s, c) is None <==> !s.contains(c),
        split_first(s, c) is Some ==> {
            let (a, b) = split_first(s, c)->0;
            &&& s == a + seq![c] + b
            &&& !a.contains(c)
        },
{
    lemma_index_from(s, c, 0);
    let k = first_index(s, c);
    if k >= 0 {
        let (a, b) = split_first(s, c)->0;
        assert(s =~= a + seq![c] + b);
        assert(s.contains(c));
        assert forall|j: int| 0 <= j < a.len() implies a[j] != c by {}
    } else {
        assert forall|j: int| 0 <= j < s.len() implies s[j] != c by {}
    }
}

/// Position of the first `c` in `s`, if any.
pub fn find_char(s: &str, c: char) -> (r: Option<usize>)
    ensures
        match r {
            Some(k) => k as int == first_index(s@, c),
            None => first_index(s@, c) < 0,
        },
{
    let n = s.unicode_len();
    let mut i: usize = 0;
    while i < n
        invariant
            n == s@.len(),
            i <= n,
            index_from(s@, c, i as int) == first_index(s@, c),
        decreases n - i,
    {
        if s.get_char(i) == c {
            return Some(i);
        }
        i = i + 1;
    }
    None
}

/// Splits `s` around the first occurrence of `c`.
pub fn split_once(s: &str, c: char) -> (r: Option<(String, String)>)
    ensures
        match r {
            Some((a, b)) => split_first(s@, c) == Some((a@, b@)),
            None => split_first(s@, c) is None,
        },
{
    match find_char(s, c) {
        None => None,
        Some(k) => {
            let n = s.unicode_len();
            proof {
                lemma_index_from(s@, c, 0);
            }
            let a = s.substring_char(0, k).to_string();
            let b = s.substring_char(k + 1, n).to_string();
            assert(a@ =~= s@.take(k as int));
            assert(b@ =~= s@.skip(k + 1));
            Some((a, b))
        }
    }
}

/// `a` followed by `b`.
pub fn join(a: &str, b: &str) -> (r: String)
    ensures
        r@ == a@ + b@,
{
    let mut r = a.to_string();
    r.append(b);
    r
}

} // verus!
