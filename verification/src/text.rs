//! Verified character-sequence utilities: leftmost pattern search and
//! splitting, joining, line splitting, and decimal rendering of counters.

use vstd::prelude::*;

verus! {

/// `pat` occurs in `t` starting at index `i`.
pub open spec fn occurs_at(t: Seq<char>, pat: Seq<char>, i: int) -> bool {
    &&& 0 <= i
    &&& i + pat.len() <= t.len()
    &&& t.subrange(i, i + pat.len() as int) == pat
}

/// The index of the leftmost occurrence of `pat` in `t`, if any.
/// An empty pattern is treated as occurring nowhere.
pub open spec fn first_occ(t: Seq<char>, pat: Seq<char>) -> Option<int>
    decreases t.len(),
{
    if pat.len() == 0 || t.len() < pat.len() {
        None
    } else if t.subrange(0, pat.len() as int) == pat {
        Some(0int)
    } else {
        match first_occ(t.drop_first(), pat) {
            Some(i) => Some(i + 1),
            None => None,
        }
    }
}

/// Whatever `first_occ` returns is a real occurrence.
pub proof fn lemma_first_occ_bounds(t: Seq<char>, pat: Seq<char>)
    ensures
        match first_occ(t, pat) {
            Some(i) => pat.len() > 0 && occurs_at(t, pat, i),
            None => true,
        },
    decreases t.len(),
{
    if pat.len() == 0 || t.len() < pat.len() {
    } else if t.subrange(0, pat.len() as int) == pat {
    } else {
        lemma_first_occ_bounds(t.drop_first(), pat);
        if let Some(i) = first_occ(t.drop_first(), pat) {
            assert(t.drop_first().subrange(i, i + pat.len() as int) =~= t.subrange(
                i + 1,
                i + 1 + pat.len() as int,
            ));
        }
    }
}

/// If `pat` occurs at `k` and nowhere earlier, `k` is what `first_occ` finds.
pub proof fn lemma_first_occ_is(t: Seq<char>, pat: Seq<char>, k: int)
    requires
        pat.len() > 0,
        occurs_at(t, pat, k),
        forall|j: int| 0 <= j < k ==> !occurs_at(t, pat, j),
    ensures
        first_occ(t, pat) == Some(k),
    decreases t.len(),
{
    if k == 0 {
        assert(t.subrange(0, pat.len() as int) == pat);
    } else {
        assert(!occurs_at(t, pat, 0));
        assert(t.subrange(0, pat.len() as int) != pat);
        assert(occurs_at(t.drop_first(), pat, k - 1)) by {
            assert(t.drop_first().subrange(k - 1, k - 1 + pat.len() as int) =~= t.subrange(
                k,
                k + pat.len() as int,
            ));
        }
        assert forall|j: int| 0 <= j < k - 1 implies !occurs_at(t.drop_first(), pat, j) by {
            if occurs_at(t.drop_first(), pat, j) {
                assert(t.subrange(j + 1, j + 1 + pat.len() as int) =~= t.drop_first().subrange(
                    j,
                    j + pat.len() as int,
                ));
                assert(occurs_at(t, pat, j + 1));
            }
        }
        lemma_first_occ_is(t.drop_first(), pat, k - 1);
    }
}

/// The parts of `t` between consecutive leftmost, non-overlapping
/// occurrences of `pat`.  With no occurrence the single part is `t`
/// itself; `n` occurrences give `n + 1` parts.
pub open spec fn split_on(t: Seq<char>, pat: Seq<char>) -> Seq<Seq<char>>
    decreases t.len(),
    via split_on_decreases
{
    match first_occ(t, pat) {
        Option::None => seq![t],
        Option::Some(i) => seq![t.subrange(0, i)] + split_on(
            t.subrange(i + pat.len() as int, t.len() as int),
            pat,
        ),
    }
}

#[via_fn]
proof fn split_on_decreases(t: Seq<char>, pat: Seq<char>) {
    lemma_first_occ_bounds(t, pat);
}

/// A split always has at least one part.
pub proof fn lemma_split_on_len(t: Seq<char>, pat: Seq<char>)
    ensures
        split_on(t, pat).len() >= 1,
{
    lemma_first_occ_bounds(t, pat);
}

/// Unfolding `split_on` when `pat` occurs right at the front.
pub proof fn lemma_split_on_match(t: Seq<char>, pat: Seq<char>)
    requires
        pat.len() > 0,
        occurs_at(t, pat, 0),
    ensures
        split_on(t, pat) == seq![Seq::<char>::empty()] + split_on(
            t.subrange(pat.len() as int, t.len() as int),
            pat,
        ),
{
    assert(t.subrange(0, pat.len() as int) == pat);
    assert(first_occ(t, pat) == Some(0int));
    assert(t.subrange(0, 0) =~= Seq::<char>::empty());
}

/// Unfolding `split_on` when `pat` does not occur at the front: the first
/// character joins the first part of the tail's split.
pub proof fn lemma_split_on_no_match(t: Seq<char>, pat: Seq<char>)
    requires
        pat.len() > 0,
        t.len() > 0,
        !occurs_at(t, pat, 0),
    ensures
        split_on(t.drop_first(), pat).len() >= 1,
        split_on(t, pat) == seq![seq![t[0]] + split_on(t.drop_first(), pat)[0]] + split_on(
            t.drop_first(),
            pat,
        ).drop_first(),
{
    lemma_split_on_len(t.drop_first(), pat);
    lemma_first_occ_bounds(t, pat);
    lemma_first_occ_bounds(t.drop_first(), pat);
    if t.len() >= pat.len() {
        assert(t.subrange(0, pat.len() as int) != pat);
    }
    match first_occ(t.drop_first(), pat) {
        Option::None => {
            assert(first_occ(t, pat) is None);
            assert(seq![t[0]] + t.drop_first() =~= t);
        },
        Option::Some(i) => {
            assert(first_occ(t, pat) == Some(i + 1));
            let m = pat.len() as int;
            assert(seq![t[0]] + t.drop_first().subrange(0, i) =~= t.subrange(0, i + 1));
            assert(t.drop_first().subrange(i + m, t.drop_first().len() as int) =~= t.subrange(
                i + 1 + m,
                t.len() as int,
            ));
            assert(split_on(t, pat) =~= seq![seq![t[0]] + split_on(t.drop_first(), pat)[0]]
                + split_on(t.drop_first(), pat).drop_first());
        },
    }
}

/// The parts interleaved with `sep`, in order.
pub open spec fn join_with(parts: Seq<Seq<char>>, sep: Seq<char>) -> Seq<char>
    decreases parts.len(),
{
    if parts.len() == 0 {
        Seq::empty()
    } else if parts.len() == 1 {
        parts[0]
    } else {
        parts[0] + sep + join_with(parts.drop_first(), sep)
    }
}

/// Splitting on a pattern and joining the parts with that same pattern
/// restores the original text: nothing is lost by the split.
pub proof fn lemma_join_split(t: Seq<char>, pat: Seq<char>)
    requires
        pat.len() > 0,
    ensures
        join_with(split_on(t, pat), pat) == t,
    decreases t.len(),
{
    lemma_first_occ_bounds(t, pat);
    match first_occ(t, pat) {
        Option::None => {},
        Option::Some(i) => {
            let m = pat.len() as int;
            let rest = t.subrange(i + m, t.len() as int);
            lemma_join_split(rest, pat);
            lemma_split_on_len(rest, pat);
            assert(split_on(t, pat).drop_first() =~= split_on(rest, pat));
            assert(t.subrange(i, i + m) == pat);
            assert(t.subrange(0, i) + pat + rest =~= t);
        },
    }
}

/// Splitting text that starts with `a`, then `pat`, then `b`, where no
/// occurrence of `pat` starts inside `a`: the first part is exactly `a`.
pub proof fn lemma_split_on_concat(a: Seq<char>, pat: Seq<char>, b: Seq<char>)
    requires
        pat.len() > 0,
        forall|j: int| 0 <= j < a.len() ==> !occurs_at(a + pat + b, pat, j),
    ensures
        split_on(a + pat + b, pat) == seq![a] + split_on(b, pat),
{
    let t = a + pat + b;
    let m = pat.len() as int;
    let k = a.len() as int;
    assert(occurs_at(t, pat, k)) by {
        assert(t.subrange(k, k + m) =~= pat);
    }
    lemma_first_occ_is(t, pat, k);
    assert(t.subrange(0, k) =~= a);
    assert(t.subrange(k + m, t.len() as int) =~= b);
}

/// One line per newline-terminated or trailing segment, in the manner of
/// `str::lines` restricted to `'\n'`: a single final newline ends the last
/// line rather than opening an empty one.
pub open spec fn split_lines(t: Seq<char>) -> Seq<Seq<char>> {
    if t.len() == 0 {
        Seq::empty()
    } else if t.last() == '\n' {
        split_on(t.drop_last(), seq!['\n'])
    } else {
        split_on(t, seq!['\n'])
    }
}

/// Joining one more part appends a separator and that part.
pub proof fn lemma_join_with_snoc(parts: Seq<Seq<char>>, p: Seq<char>, sep: Seq<char>)
    ensures
        join_with(parts.push(p), sep) == if parts.len() == 0 {
            p
        } else {
            join_with(parts, sep) + sep + p
        },
    decreases parts.len(),
{
    if parts.len() == 0 {
        assert(parts.push(p)[0] =~= p);
    } else {
        lemma_join_with_snoc(parts.drop_first(), p, sep);
        assert(parts.push(p).drop_first() =~= parts.drop_first().push(p));
        if parts.len() == 1 {
            assert(parts.drop_first().push(p).len() == 1);
            assert(join_with(parts.push(p), sep) == parts[0] + sep + p);
        }
    }
}

/// The decimal digit characters.
pub open spec fn digit_char(d: int) -> char {
    if d == 0 {
        '0'
    } else if d == 1 {
        '1'
    } else if d == 2 {
        '2'
    } else if d == 3 {
        '3'
    } else if d == 4 {
        '4'
    } else if d == 5 {
        '5'
    } else if d == 6 {
        '6'
    } else if d == 7 {
        '7'
    } else if d == 8 {
        '8'
    } else {
        '9'
    }
}

/// The decimal rendering of `n`, most significant digit first, no sign
/// and no leading zero.
pub open spec fn dec_spec(n: nat) -> Seq<char>
    decreases n,
{
    if n < 10 {
        seq![digit_char(n as int)]
    } else {
        dec_spec(n / 10).push(digit_char((n % 10) as int))
    }
}

fn digit_of(d: u64) -> (c: char)
    requires
        d < 10,
    ensures
        c == digit_char(d as int),
{
    if d == 0 {
        '0'
    } else if d == 1 {
        '1'
    } else if d == 2 {
        '2'
    } else if d == 3 {
        '3'
    } else if d == 4 {
        '4'
    } else if d == 5 {
        '5'
    } else if d == 6 {
        '6'
    } else if d == 7 {
        '7'
    } else if d == 8 {
        '8'
    } else {
        '9'
    }
}

/// Renders a counter in decimal.
pub fn dec_of(n: u64) -> (r: Vec<char>)
    ensures
        r@ == dec_spec(n as nat),
    decreases n,
{
    if n < 10 {
        let mut r: Vec<char> = Vec::new();
        r.push(digit_of(n));
        proof {
            assert(r@ =~= dec_spec(n as nat));
        }
        r
    } else {
        let mut r = dec_of(n / 10);
        r.push(digit_of(n % 10));
        r
    }
}

/// A run of `n` copies of `c`.
pub fn repeat_char(c: char, n: usize) -> (r: Vec<char>)
    ensures
        r@ == Seq::new(n as nat, |i: int| c),
{
    let mut r: Vec<char> = Vec::new();
    let mut i: usize = 0;
    while i < n
        invariant
            i <= n,
            r@.len() == i,
            forall|j: int| 0 <= j < i ==> r@[j] == c,
        decreases n - i,
    {
        r.push(c);
        i += 1;
    }
    proof {
        assert(r@ =~= Seq::new(n as nat, |i: int| c));
    }
    r
}

/// A one-character run.
pub fn chars1(a: char) -> (v: Vec<char>)
    ensures
        v@ == seq![a],
{
    let mut v: Vec<char> = Vec::new();
    v.push(a);
    proof {
        assert(v@ =~= seq![a]);
    }
    v
}

/// A two-character run.
pub fn chars2(a: char, b: char) -> (v: Vec<char>)
    ensures
        v@ == seq![a, b],
{
    let mut v = chars1(a);
    v.push(b);
    proof {
        assert(v@ =~= seq![a, b]);
    }
    v
}

/// A three-character run.
pub fn chars3(a: char, b: char, c: char) -> (v: Vec<char>)
    ensures
        v@ == seq![a, b, c],
{
    let mut v = chars2(a, b);
    v.push(c);
    proof {
        assert(v@ =~= seq![a, b, c]);
    }
    v
}

/// A four-character run.
pub fn chars4(a: char, b: char, c: char, d: char) -> (v: Vec<char>)
    ensures
        v@ == seq![a, b, c, d],
{
    let mut v = chars3(a, b, c);
    v.push(d);
    proof {
        assert(v@ =~= seq![a, b, c, d]);
    }
    v
}

/// A five-character run.
pub fn chars5(a: char, b: char, c: char, d: char, e: char) -> (v: Vec<char>)
    ensures
        v@ == seq![a, b, c, d, e],
{
    let mut v = chars3(a, b, c);
    v.push(d);
    v.push(e);
    proof {
        assert(v@ =~= seq![a, b, c, d, e]);
    }
    v
}

/// Appends all of `w` to `v`.
pub fn extend_chars(v: &mut Vec<char>, w: &Vec<char>)
    ensures
        final(v)@ == old(v)@ + w@,
{
    let mut k: usize = 0;
    while k < w.len()
        invariant
            k <= w@.len(),
            v@ == old(v)@ + w@.subrange(0, k as int),
        decreases w@.len() - k,
    {
        v.push(w[k]);
        k += 1;
        proof {
            assert(old(v)@ + w@.subrange(0, k as int) =~= (old(v)@ + w@.subrange(0, k - 1)).push(
                w@[k - 1],
            ));
        }
    }
    proof {
        assert(w@.subrange(0, w@.len() as int) =~= w@);
    }
}

/// Does `pat` occur in `t` at position `i`?
fn pat_at(t: &Vec<char>, i: usize, pat: &Vec<char>) -> (b: bool)
    requires
        i <= t@.len(),
        pat@.len() <= t@.len() - i,
    ensures
        b == occurs_at(t@, pat@, i as int),
{
    let tlen = t.len();
    let mut j: usize = 0;
    while j < pat.len()
        invariant
            tlen == t@.len(),
            i <= t@.len(),
            pat@.len() <= t@.len() - i,
            j <= pat@.len(),
            forall|k: int| 0 <= k < j ==> t@[i + k] == pat@[k],
        decreases pat@.len() - j,
    {
        if t[i + j] != pat[j] {
            proof {
                let sub = t@.subrange(i as int, i + pat@.len());
                assert(sub[j as int] == t@[i + j]);
            }
            return false;
        }
        j += 1;
    }
    proof {
        assert(t@.subrange(i as int, i + pat@.len()) =~= pat@);
    }
    true
}

/// The split accumulated so far: finished parts, then the open part
/// extended by whatever the rest of the text still splits into.
spec fn split_acc(
    done: Seq<Seq<char>>,
    cur: Seq<char>,
    rest: Seq<char>,
    pat: Seq<char>,
) -> Seq<Seq<char>> {
    done + seq![cur + split_on(rest, pat)[0]] + split_on(rest, pat).drop_first()
}

/// Splits `t` at the leftmost, non-overlapping occurrences of `pat`.
pub fn split_chars(t: &Vec<char>, pat: &Vec<char>) -> (parts: Vec<Vec<char>>)
    requires
        pat@.len() > 0,
    ensures
        parts.deep_view() == split_on(t@, pat@),
{
    let mut done: Vec<Vec<char>> = Vec::new();
    let mut cur: Vec<char> = Vec::new();
    let mut i: usize = 0;
    proof {
        lemma_split_on_len(t@, pat@);
        assert(t@.subrange(0, t@.len() as int) =~= t@);
        assert(split_acc(done.deep_view(), cur@, t@, pat@) =~= split_on(t@, pat@));
    }
    while i < t.len()
        invariant
            pat@.len() > 0,
            i <= t@.len(),
            split_on(t@, pat@) == split_acc(
                done.deep_view(),
                cur@,
                t@.subrange(i as int, t@.len() as int),
                pat@,
            ),
        decreases t@.len() - i,
    {
        let ghost rest = t@.subrange(i as int, t@.len() as int);
        if pat.len() <= t.len() - i && pat_at(t, i, pat) {
            proof {
                assert(occurs_at(rest, pat@, 0)) by {
                    assert(rest.subrange(0, pat@.len() as int) =~= t@.subrange(
                        i as int,
                        i + pat@.len(),
                    ));
                }
                lemma_split_on_match(rest, pat@);
                lemma_split_on_len(rest.subrange(pat@.len() as int, rest.len() as int), pat@);
            }
            let ghost old_done = done.deep_view();
            let ghost old_cur = cur@;
            done.push(cur);
            cur = Vec::new();
            i = i + pat.len();
            proof {
                let rest2 = rest.subrange(pat@.len() as int, rest.len() as int);
                let s2 = split_on(rest2, pat@);
                assert(done.deep_view() =~~= old_done.push(old_cur));
                assert(t@.subrange(i as int, t@.len() as int) =~= rest2);
                assert(split_on(rest, pat@)[0] =~= Seq::<char>::empty());
                assert(split_on(rest, pat@).drop_first() =~= s2);
                assert(old_cur + Seq::<char>::empty() =~= old_cur);
                assert(split_acc(old_done, old_cur, rest, pat@) =~= old_done + seq![old_cur] + s2);
                assert(Seq::<char>::empty() + s2[0] =~= s2[0]);
                assert(seq![s2[0]] + s2.drop_first() =~= s2);
                assert(split_acc(done.deep_view(), cur@, rest2, pat@) =~= old_done + seq![old_cur]
                    + s2);
            }
        } else {
            proof {
                assert(!occurs_at(rest, pat@, 0)) by {
                    if occurs_at(rest, pat@, 0) {
                        assert(pat@.len() <= rest.len());
                        assert(t@.subrange(i as int, i + pat@.len()) =~= rest.subrange(
                            0,
                            pat@.len() as int,
                        ));
                        assert(occurs_at(t@, pat@, i as int));
                    }
                }
                lemma_split_on_no_match(rest, pat@);
                assert(rest.drop_first() =~= t@.subrange(i + 1, t@.len() as int));
                assert(rest[0] == t@[i as int]);
            }
            let ghost old_cur = cur@;
            cur.push(t[i]);
            i = i + 1;
            proof {
                let rest2 = t@.subrange(i as int, t@.len() as int);
                assert(cur@ + split_on(rest2, pat@)[0] =~= old_cur + split_on(rest, pat@)[0]);
                assert(split_on(rest, pat@).drop_first() =~= split_on(rest2, pat@).drop_first());
                assert(split_acc(done.deep_view(), cur@, rest2, pat@) =~= split_acc(
                    done.deep_view(),
                    old_cur,
                    rest,
                    pat@,
                ));
            }
        }
    }
    proof {
        let rest = t@.subrange(i as int, t@.len() as int);
        assert(rest =~= Seq::<char>::empty());
        assert(split_on(rest, pat@) =~= seq![Seq::<char>::empty()]);
        assert(split_acc(done.deep_view(), cur@, rest, pat@) =~= done.deep_view().push(cur@));
    }
    let ghost old_done = done.deep_view();
    done.push(cur);
    proof {
        assert(done.deep_view() =~~= old_done.push(cur@));
    }
    done
}

/// Joins the parts, putting `sep` between consecutive parts.
pub fn join_chars(parts: &Vec<Vec<char>>, sep: &Vec<char>) -> (r: Vec<char>)
    ensures
        r@ == join_with(parts.deep_view(), sep@),
{
    let mut r: Vec<char> = Vec::new();
    let mut k: usize = 0;
    proof {
        assert(parts.deep_view().subrange(0, 0) =~= Seq::<Seq<char>>::empty());
    }
    while k < parts.len()
        invariant
            k <= parts@.len(),
            parts.deep_view().len() == parts@.len(),
            r@ == join_with(parts.deep_view().subrange(0, k as int), sep@),
        decreases parts@.len() - k,
    {
        let ghost prefix = parts.deep_view().subrange(0, k as int);
        if k > 0 {
            let mut j: usize = 0;
            while j < sep.len()
                invariant
                    j <= sep@.len(),
                    r@ == join_with(prefix, sep@) + sep@.subrange(0, j as int),
                decreases sep@.len() - j,
            {
                r.push(sep[j]);
                j += 1;
                proof {
                    assert(sep@.subrange(0, j as int) =~= sep@.subrange(0, j - 1).push(
                        sep@[j - 1],
                    ));
                    assert(r@ =~= join_with(prefix, sep@) + sep@.subrange(0, j as int));
                }
            }
            proof {
                assert(sep@.subrange(0, sep@.len() as int) =~= sep@);
            }
        }
        let part = &parts[k];
        let mut j: usize = 0;
        while j < part.len()
            invariant
                j <= part@.len(),
                part@ == parts.deep_view()[k as int],
                k < parts.deep_view().len(),
                r@ == if k == 0 {
                    part@.subrange(0, j as int)
                } else {
                    join_with(prefix, sep@) + sep@ + part@.subrange(0, j as int)
                },
        decreases part@.len() - j,
        {
            r.push(part[j]);
            j += 1;
            proof {
                assert(part@.subrange(0, j as int) =~= part@.subrange(0, j - 1).push(
                    part@[j - 1],
                ));
                if k == 0 {
                    assert(r@ =~= part@.subrange(0, j as int));
                } else {
                    assert(r@ =~= join_with(prefix, sep@) + sep@ + part@.subrange(0, j as int));
                }
            }
        }
        proof {
            assert(part@.subrange(0, part@.len() as int) =~= part@);
            lemma_join_with_snoc(prefix, part@, sep@);
            assert(parts.deep_view().subrange(0, k + 1) =~= prefix.push(part@));
            if k == 0 {
                assert(prefix.len() == 0);
                assert(r@ == join_with(parts.deep_view().subrange(0, k + 1), sep@));
            }
        }
        k += 1;
    }
    proof {
        assert(parts.deep_view().subrange(0, parts.deep_view().len() as int) =~= parts.deep_view());
    }
    r
}

/// The characters of a string slice, in order.
pub fn chars_of(s: &str) -> (r: Vec<char>)
    ensures
        r@ == s@,
{
    let mut r: Vec<char> = Vec::new();
    for c in it: s.chars()
        invariant
            it.seq() == s@,
            r@.len() == it.index(),
            forall|j: int| 0 <= j < r@.len() ==> r@[j] == s@[j],
    {
        r.push(c);
    }
    proof {
        assert(r@ =~= s@);
    }
    r
}

/// The first `n` characters of `t`, as a fresh vector.
pub fn copy_prefix(t: &Vec<char>, n: usize) -> (r: Vec<char>)
    requires
        n <= t@.len(),
    ensures
        r@ == t@.subrange(0, n as int),
{
    let mut r: Vec<char> = Vec::new();
    let mut k: usize = 0;
    while k < n
        invariant
            k <= n <= t@.len(),
            r@.len() == k,
            forall|j: int| 0 <= j < k ==> r@[j] == t@[j],
        decreases n - k,
    {
        r.push(t[k]);
        k += 1;
    }
    proof {
        assert(r@ =~= t@.subrange(0, n as int));
    }
    r
}

/// A fresh copy of a character run.
pub fn clone_chars(t: &Vec<char>) -> (r: Vec<char>)
    ensures
        r@ == t@,
{
    let r = copy_prefix(t, t.len());
    proof {
        assert(t@.subrange(0, t@.len() as int) =~= t@);
    }
    r
}

/// Splits code-block text into its lines, as `split_lines` describes.
pub fn lines_of(t: &Vec<char>) -> (parts: Vec<Vec<char>>)
    ensures
        parts.deep_view() == split_lines(t@),
{
    let mut nl: Vec<char> = Vec::new();
    nl.push('\n');
    proof {
        assert(nl@ =~= seq!['\n']);
    }
    if t.len() == 0 {
        let parts: Vec<Vec<char>> = Vec::new();
        proof {
            assert(parts.deep_view() =~~= split_lines(t@));
        }
        parts
    } else if t[t.len() - 1] == '\n' {
        let head = copy_prefix(t, t.len() - 1);
        proof {
            assert(head@ =~= t@.drop_last());
        }
        split_chars(&head, &nl)
    } else {
        split_chars(t, &nl)
    }
}

/// Every occurrence of `pat` replaced by `rep`, leftmost first.
pub open spec fn replace_spec(t: Seq<char>, pat: Seq<char>, rep: Seq<char>) -> Seq<char> {
    join_with(split_on(t, pat), rep)
}

/// Replaces every leftmost, non-overlapping occurrence of `pat` by `rep`.
pub fn replace_chars(t: &Vec<char>, pat: &Vec<char>, rep: &Vec<char>) -> (r: Vec<char>)
    requires
        pat@.len() > 0,
    ensures
        r@ == replace_spec(t@, pat@, rep@),
{
    let parts = split_chars(t, pat);
    join_chars(&parts, rep)
}

} // verus!
