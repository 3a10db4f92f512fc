//! Character-level string helpers: splitting, joining and searching,
//! each stated over the `Seq<char>` view of the strings involved.

use vstd::prelude::*;

verus! {

/// Appends one character to a `String` (`String::push`).
///
/// Trusted: `String::push` appends the character at the end of the string.
#[verifier::external_body]
pub(crate) fn push_char(s: &mut String, c: char)
    ensures
        final(s)@ == old(s)@.push(c),
{
    s.push(c);
}

/// The characters of `s`, in order.
pub fn to_chars(s: &str) -> (v: Vec<char>)
    ensures
        v@ == s@,
{
    let n = s.unicode_len();
    let mut v: Vec<char> = Vec::new();
    let mut i: usize = 0;
    while i < n
        invariant
            n == s@.len(),
            i <= n,
            v@ == s@.take(i as int),
        decreases n - i,
    {
        v.push(s.get_char(i));
        i = i + 1;
        assert(v@ =~= s@.take(i as int));
    }
    assert(v@ =~= s@);
    v
}

/// The string made of `v[from..to]`.
pub fn chars_to_string(v: &Vec<char>, from: usize, to: usize) -> (s: String)
    requires
        from <= to <= v@.len(),
    ensures
        s@ == v@.subrange(from as int, to as int),
{
    let mut s = String::new();
    let mut i = from;
    while i < to
        invariant
            from <= i <= to <= v@.len(),
            s@ == v@.subrange(from as int, i as int),
        decreases to - i,
    {
        push_char(&mut s, v[i]);
        i = i + 1;
        assert(s@ =~= v@.subrange(from as int, i as int));
    }
    s
}

/// `pat` occurs in `s` starting at position `i`.
pub open spec fn occurs_at(s: Seq<char>, pat: Seq<char>, i: int) -> bool {
    &&& 0 <= i
    &&& i + pat.len() <= s.len()
    &&& s.subrange(i, i + pat.len()) == pat
}

/// `pat` occurs somewhere in `s` (the empty pattern occurs in every string).
pub open spec fn contains_seq(s: Seq<char>, pat: Seq<char>) -> bool {
    exists|i: int| occurs_at(s, pat, i)
}

/// The first position at or after `j` where `pat` occurs in `s`, or -1.
pub open spec fn find_from(s: Seq<char>, pat: Seq<char>, j: int) -> int
    decreases s.len() + 1 - j,
{
    if j < 0 || j + pat.len() > s.len() {
        -1
    } else if s.subrange(j, j + pat.len()) == pat {
        j
    } else {
        find_from(s, pat, j + 1)
    }
}

/// `s` cut at every character boundary: `""`, each character, `""`
/// (what splitting by an empty pattern gives).
pub open spec fn split_empty(s: Seq<char>) -> Seq<Seq<char>> {
    seq![Seq::<char>::empty()] + singles(s) + seq![Seq::<char>::empty()]
}

/// Each character of `s` as a one-character string.
pub open spec fn singles(s: Seq<char>) -> Seq<Seq<char>>
    decreases s.len(),
{
    if s.len() == 0 {
        Seq::empty()
    } else {
        seq![seq![s[0]]] + singles(s.drop_first())
    }
}

/// The pieces of `s` between the non-overlapping occurrences of `d`,
/// found left to right (the behaviour of `str::split` with a string pattern).
pub open spec fn split_seq(s: Seq<char>, d: Seq<char>) -> Seq<Seq<char>>
    decreases s.len(),
{
    if d.len() == 0 {
        split_empty(s)
    } else {
        let i = find_from(s, d, 0);
        if i < 0 {
            seq![s]
        } else {
            proof {
                lemma_find_from_range(s, d, 0);
            }
            seq![s.take(i)] + split_seq(s.skip(i + d.len()), d)
        }
    }
}

/// The pieces joined with `d` between consecutive pieces (`[T]::join`).
pub open spec fn join_seq(parts: Seq<Seq<char>>, d: Seq<char>) -> Seq<char>
    decreases parts.len(),
{
    if parts.len() == 0 {
        Seq::empty()
    } else if parts.len() == 1 {
        parts[0]
    } else {
        parts[0] + d + join_seq(parts.drop_first(), d)
    }
}

pub proof fn lemma_find_from_range(s: Seq<char>, pat: Seq<char>, j: int)
    ensures
        find_from(s, pat, j) == -1 || (j <= find_from(s, pat, j) && find_from(s, pat, j)
            + pat.len() <= s.len() && occurs_at(s, pat, find_from(s, pat, j))),
    decreases s.len() + 1 - j,
{
    if j < 0 || j + pat.len() > s.len() {
    } else if s.subrange(j, j + pat.len()) == pat {
    } else {
        lemma_find_from_range(s, pat, j + 1);
    }
}

/// If `k` is the first occurrence at or after `j`, `find_from` finds it.
pub proof fn lemma_find_from_first(s: Seq<char>, pat: Seq<char>, j: int, k: int)
    requires
        0 <= j <= k,
        occurs_at(s, pat, k),
        forall|p: int| j <= p < k ==> !occurs_at(s, pat, p),
    ensures
        find_from(s, pat, j) == k,
    decreases k - j,
{
    if j < k {
        assert(!occurs_at(s, pat, j));
        lemma_find_from_first(s, pat, j + 1, k);
    }
}

/// If `pat` occurs nowhere at or after `j`, `find_from` gives -1.
pub proof fn lemma_find_from_none(s: Seq<char>, pat: Seq<char>, j: int)
    requires
        0 <= j,
        forall|p: int| j <= p ==> !occurs_at(s, pat, p),
    ensures
        find_from(s, pat, j) == -1,
    decreases s.len() + 1 - j,
{
    if j + pat.len() > s.len() {
    } else {
        assert(!occurs_at(s, pat, j));
        lemma_find_from_none(s, pat, j + 1);
    }
}

/// `v[at..at + pat.len()]` equals `pat`.
fn matches_at(v: &Vec<char>, pat: &Vec<char>, at: usize) -> (r: bool)
    requires
        at + pat@.len() <= v@.len(),
    ensures
        r == occurs_at(v@, pat@, at as int),
{
    let mut k: usize = 0;
    while k < pat.len()
        invariant
            at + pat@.len() <= v@.len(),
            v@.len() == v.len(),
            k <= pat@.len(),
            forall|q: int| 0 <= q < k ==> v@[at + q] == pat@[q],
        decreases pat@.len() - k,
    {
        if v[at + k] != pat[k] {
            assert(v@.subrange(at as int, at + pat@.len())[k as int] != pat@[k as int]);
            return false;
        }
        k = k + 1;
    }
    assert(v@.subrange(at as int, at + pat@.len()) =~= pat@);
    true
}

/// Whether `needle` occurs in `hay` (`str::contains` with a string pattern).
pub fn str_contains(hay: &str, needle: &str) -> (r: bool)
    ensures
        r == contains_seq(hay@, needle@),
{
    let h = to_chars(hay);
    let n = to_chars(needle);
    if n.len() > h.len() {
        assert forall|i: int| !occurs_at(hay@, needle@, i) by {}
        return false;
    }
    let last = h.len() - n.len();
    let mut i: usize = 0;
    loop
        invariant
            h@ == hay@,
            n@ == needle@,
            i <= last,
            last + n@.len() == h@.len(),
            forall|p: int| 0 <= p < i ==> !occurs_at(hay@, needle@, p),
        decreases last - i,
    {
        if matches_at(&h, &n, i) {
            return true;
        }
        if i == last {
            assert forall|p: int| !occurs_at(hay@, needle@, p) by {
                if p < i {
                } else if p == i {
                } else {
                }
            }
            return false;
        }
        i = i + 1;
    }
}


/// The character views of a sequence of strings.
pub open spec fn views(v: Seq<String>) -> Seq<Seq<char>> {
    v.map_values(|p: String| p@)
}

pub proof fn lemma_singles(s: Seq<char>)
    ensures
        singles(s) =~= Seq::new(s.len(), |k: int| seq![s[k]]),
    decreases s.len(),
{
    if s.len() > 0 {
        lemma_singles(s.drop_first());
    }
}

/// Splitting always gives at least one piece.
pub proof fn lemma_split_nonempty(s: Seq<char>, d: Seq<char>)
    ensures
        split_seq(s, d).len() >= 1,
    decreases s.len(),
{
    if d.len() > 0 {
        let i = find_from(s, d, 0);
        if i >= 0 {
            lemma_find_from_range(s, d, 0);
            lemma_split_nonempty(s.skip(i + d.len()), d);
        }
    }
}

/// Joining `p` with one more piece `x` appends the separator and `x`.
pub proof fn lemma_join_push(p: Seq<Seq<char>>, x: Seq<char>, d: Seq<char>)
    requires
        p.len() >= 1,
    ensures
        join_seq(p.push(x), d) == join_seq(p, d) + d + x,
    decreases p.len(),
{
    if p.len() == 1 {
        assert(p.push(x).drop_first() =~= seq![x]);
        assert(join_seq(p.push(x).drop_first(), d) == x);
    } else {
        assert(p.push(x).drop_first() =~= p.drop_first().push(x));
        lemma_join_push(p.drop_first(), x, d);
        assert(join_seq(p.push(x), d) == p[0] + d + join_seq(p.drop_first().push(x), d));
        assert(join_seq(p, d) == p[0] + d + join_seq(p.drop_first(), d));
        assert(p[0] + d + (join_seq(p.drop_first(), d) + d + x) =~= p[0] + d + join_seq(
            p.drop_first(),
            d,
        ) + d + x);
    }
}

/// Joining `a` in front of the non-empty `r` puts the separator between them.
pub proof fn lemma_join_cons(a: Seq<char>, r: Seq<Seq<char>>, d: Seq<char>)
    requires
        r.len() >= 1,
    ensures
        join_seq(seq![a] + r, d) == a + d + join_seq(r, d),
{
    assert((seq![a] + r).drop_first() =~= r);
}

proof fn lemma_join_singles(s: Seq<char>)
    ensures
        join_seq(singles(s), Seq::<char>::empty()) =~= s,
    decreases s.len(),
{
    if s.len() == 1 {
        assert(singles(s.drop_first()) =~= Seq::<Seq<char>>::empty());
    } else if s.len() > 1 {
        lemma_join_singles(s.drop_first());
        lemma_singles(s.drop_first());
        lemma_join_cons(seq![s[0]], singles(s.drop_first()), Seq::<char>::empty());
        assert(seq![s[0]] + s.drop_first() =~= s);
    }
}

/// Joining the pieces of a split with the same separator gives back the string.
pub proof fn law_join_undoes_split(s: Seq<char>, d: Seq<char>)
    ensures
        join_seq(split_seq(s, d), d) == s,
    decreases s.len(),
{
    if d.len() == 0 {
        let e = Seq::<char>::empty();
        lemma_singles(s);
        let x = singles(s);
        assert(split_seq(s, d) == (seq![e] + x).push(e));
        lemma_join_push(seq![e] + x, e, d);
        if x.len() == 0 {
            assert(seq![e] + x =~= seq![e]);
            assert(s =~= e);
        } else {
            lemma_join_cons(e, x, d);
            lemma_join_singles(s);
            assert(d =~= e);
        }
        assert(join_seq(split_seq(s, d), d) =~= s);
    } else {
        let i = find_from(s, d, 0);
        lemma_find_from_range(s, d, 0);
        if i >= 0 {
            let rest = s.skip(i + d.len());
            law_join_undoes_split(rest, d);
            lemma_split_nonempty(rest, d);
            lemma_join_cons(s.take(i), split_seq(rest, d), d);
            assert(s.subrange(i, i + d.len()) == d);
            assert(s.take(i) + d + rest =~= s);
        }
    }
}

/// The pieces of `v` between the occurrences of `d` (`str::split`).
pub fn split_chars(v: &Vec<char>, d: &Vec<char>) -> (parts: Vec<String>)
    ensures
        views(parts@) == split_seq(v@, d@),
{
    let n = v.len();
    let m = d.len();
    let mut parts: Vec<String> = Vec::new();
    if m == 0 {
        parts.push(String::new());
        let mut i: usize = 0;
        while i < n
            invariant
                n == v@.len(),
                i <= n,
                views(parts@) =~= seq![Seq::<char>::empty()] + Seq::new(
                    i as nat,
                    |k: int| seq![v@[k]],
                ),
            decreases n - i,
        {
            let mut one = String::new();
            push_char(&mut one, v[i]);
            let ghost before = parts@;
            parts.push(one);
            assert(views(parts@) =~= views(before).push(seq![v@[i as int]]));
            i = i + 1;
        }
        parts.push(String::new());
        proof {
            lemma_singles(v@);
        }
        assert(views(parts@) =~= split_seq(v@, d@));
        return parts;
    }
    if m > n {
        proof {
            assert forall|p: int| 0 <= p implies !occurs_at(v@, d@, p) by {}
            lemma_find_from_none(v@, d@, 0);
        }
        parts.push(chars_to_string(v, 0, n));
        assert(v@.subrange(0, n as int) =~= v@);
        assert(views(parts@) =~= split_seq(v@, d@));
        return parts;
    }
    let last = n - m;
    assert(v@.skip(0) =~= v@);
    assert(views(parts@) + split_seq(v@.skip(0), d@) =~= split_seq(v@, d@));
    let mut start: usize = 0;
    let mut i: usize = 0;
    while i <= last
        invariant
            n == v@.len(),
            m == d@.len(),
            m > 0,
            last + m == n,
            start <= i <= n,
            views(parts@) + split_seq(v@.skip(start as int), d@) == split_seq(v@, d@),
            forall|p: int| start <= p < i ==> !occurs_at(v@, d@, p),
        decreases n + 1 - i,
    {
        let ghost t = v@.skip(start as int);
        if matches_at(v, d, i) {
            proof {
                assert forall|q: int| 0 <= q < i - start implies !occurs_at(t, d@, q) by {
                    assert(!occurs_at(v@, d@, start + q));
                    assert(t.subrange(q, q + m) =~= v@.subrange(start + q, start + q + m));
                }
                assert(t.subrange(i - start, i - start + m) =~= v@.subrange(
                    i as int,
                    i + m,
                ));
                lemma_find_from_first(t, d@, 0, i - start);
                assert(t.take(i - start) =~= v@.subrange(start as int, i as int));
                assert(t.skip(i - start + m) =~= v@.skip(i + m));
            }
            let piece = chars_to_string(v, start, i);
            let ghost before = views(parts@);
            parts.push(piece);
            assert(views(parts@) =~= before.push(v@.subrange(start as int, i as int)));
            assert(views(parts@) + split_seq(v@.skip(i + m), d@) =~= before + split_seq(t, d@));
            i = i + m;
            start = i;
        } else {
            i = i + 1;
        }
    }
    let ghost t = v@.skip(start as int);
    proof {
        assert forall|q: int| 0 <= q implies !occurs_at(t, d@, q) by {
            if start + q < i && start + q + m <= n {
                assert(t.subrange(q, q + m) =~= v@.subrange(start + q, start + q + m));
                assert(!occurs_at(v@, d@, start + q));
            }
        }
        lemma_find_from_none(t, d@, 0);
    }
    let ghost before = views(parts@);
    parts.push(chars_to_string(v, start, n));
    assert(t =~= v@.subrange(start as int, n as int));
    assert(views(parts@) =~= before + split_seq(t, d@));
    parts
}

/// `parts[0..count]` joined with `d` between consecutive pieces.
pub fn join_parts(parts: &Vec<String>, count: usize, d: &str) -> (r: String)
    requires
        count <= parts@.len(),
    ensures
        r@ == join_seq(views(parts@).take(count as int), d@),
{
    if count == 0 {
        assert(views(parts@).take(0) =~= Seq::<Seq<char>>::empty());
        return String::new();
    }
    let mut r = parts[0].clone();
    assert(views(parts@).take(1) =~= seq![parts@[0]@]);
    let mut k: usize = 1;
    while k < count
        invariant
            1 <= k <= count <= parts@.len(),
            r@ == join_seq(views(parts@).take(k as int), d@),
        decreases count - k,
    {
        proof {
            lemma_join_push(views(parts@).take(k as int), parts@[k as int]@, d@);
            assert(views(parts@).take(k as int).push(parts@[k as int]@) =~= views(parts@).take(
                k + 1,
            ));
        }
        r.append(d);
        r.append(parts[k].as_str());
        k = k + 1;
    }
    r
}

/// Positions before the one `find_from` gives hold no occurrence.
pub proof fn lemma_find_from_skipped(s: Seq<char>, pat: Seq<char>, j: int)
    requires
        0 <= j,
    ensures
        forall|q: int|
            j <= q && (find_from(s, pat, j) < 0 || q < find_from(s, pat, j)) ==> !occurs_at(
                s,
                pat,
                q,
            ),
    decreases s.len() + 1 - j,
{
    if j + pat.len() > s.len() {
    } else if s.subrange(j, j + pat.len()) == pat {
    } else {
        lemma_find_from_skipped(s, pat, j + 1);
    }
}

/// Splitting at a one-character delimiter a string that ends with the
/// delimiter and a piece free of it gives the pieces of the front, then that
/// piece.
pub proof fn lemma_split_append(p: Seq<char>, d: Seq<char>, id: Seq<char>)
    requires
        d.len() == 1,
        !contains_seq(id, d),
    ensures
        split_seq(p + d + id, d) == split_seq(p, d).push(id),
    decreases p.len(),
{
    let t = p + d + id;
    let i = find_from(p, d, 0);
    lemma_find_from_range(p, d, 0);
    lemma_find_from_skipped(p, d, 0);
    assert forall|q: int| 0 <= q < p.len() implies #[trigger] t.subrange(q, q + 1) =~= p.subrange(
        q,
        q + 1,
    ) by {}
    if i >= 0 {
        assert forall|q: int| 0 <= q < i implies !occurs_at(t, d, q) by {
            assert(!occurs_at(p, d, q));
            assert(t.subrange(q, q + 1) =~= p.subrange(q, q + 1));
        }
        assert(t.subrange(i, i + 1) =~= p.subrange(i, i + 1));
        lemma_find_from_first(t, d, 0, i);
        let rest = p.skip(i + 1);
        lemma_split_append(rest, d, id);
        assert(t.take(i) =~= p.take(i));
        assert(t.skip(i + 1) =~= rest + d + id);
        assert(split_seq(t, d) == seq![p.take(i)] + split_seq(rest + d + id, d));
        assert(split_seq(p, d) == seq![p.take(i)] + split_seq(rest, d));
        assert(seq![p.take(i)] + split_seq(rest, d).push(id) =~= (seq![p.take(i)] + split_seq(
            rest,
            d,
        )).push(id));
    } else {
        let n = p.len() as int;
        assert forall|q: int| 0 <= q < n implies !occurs_at(t, d, q) by {
            assert(!occurs_at(p, d, q));
            assert(t.subrange(q, q + 1) =~= p.subrange(q, q + 1));
        }
        assert(t.subrange(n, n + 1) =~= d);
        lemma_find_from_first(t, d, 0, n);
        assert(t.take(n) =~= p);
        assert(t.skip(n + 1) =~= id);
        assert forall|q: int| 0 <= q implies !occurs_at(id, d, q) by {}
        lemma_find_from_none(id, d, 0);
        assert(split_seq(id, d) == seq![id]);
        assert(split_seq(p, d) == seq![p]);
        assert(seq![p] + seq![id] =~= seq![p].push(id));
    }
}

} // verus!
