//! Token lists of artist names: splitting on a separator, trimming, and the
//! sorted set of distinct tokens.
use vstd::prelude::*;
use crate::shared_item::norm::white_space;

verus! {

/// Lexicographic order on character sequences by code point, the order of
/// `str`'s comparison.
pub open spec fn chars_lt(a: Seq<char>, b: Seq<char>) -> bool
    decreases a.len(),
{
    if a.len() == 0 {
        b.len() > 0
    } else if b.len() == 0 {
        false
    } else if a[0] != b[0] {
        a[0] < b[0]
    } else {
        chars_lt(a.drop_first(), b.drop_first())
    }
}

pub proof fn lemma_chars_lt_irreflexive(a: Seq<char>)
    ensures
        !chars_lt(a, a),
    decreases a.len(),
{
    if a.len() > 0 {
        lemma_chars_lt_irreflexive(a.drop_first());
    }
}

pub proof fn lemma_chars_lt_transitive(a: Seq<char>, b: Seq<char>, c: Seq<char>)
    requires
        chars_lt(a, b),
        chars_lt(b, c),
    ensures
        chars_lt(a, c),
    decreases a.len(),
{
    if a.len() > 0 && b.len() > 0 && c.len() > 0 {
        if a[0] == b[0] && b[0] == c[0] {
            lemma_chars_lt_transitive(a.drop_first(), b.drop_first(), c.drop_first());
        }
    }
}

pub proof fn lemma_chars_lt_total(a: Seq<char>, b: Seq<char>)
    requires
        a != b,
    ensures
        chars_lt(a, b) || chars_lt(b, a),
    decreases a.len(),
{
    if a.len() > 0 && b.len() > 0 && a[0] == b[0] {
        if a.drop_first() == b.drop_first() {
            assert(a =~= seq![a[0]] + a.drop_first());
            assert(b =~= seq![b[0]] + b.drop_first());
        }
        lemma_chars_lt_total(a.drop_first(), b.drop_first());
    } else if a.len() == 0 && b.len() == 0 {
        assert(a =~= b);
    }
}

/// Each element strictly precedes every later one.
pub open spec fn strictly_sorted(r: Seq<Seq<char>>) -> bool {
    forall|i: int, k: int| 0 <= i < k < r.len() ==> chars_lt(#[trigger] r[i], #[trigger] r[k])
}

/// Two strictly sorted sequences with the same elements are equal.
pub proof fn lemma_sorted_unique(a: Seq<Seq<char>>, b: Seq<Seq<char>>)
    requires
        strictly_sorted(a),
        strictly_sorted(b),
        a.to_set() == b.to_set(),
    ensures
        a == b,
    decreases a.len(),
{
    if a.len() == 0 {
        if b.len() > 0 {
            assert(a.to_set().contains(b[0]));
        }
        assert(a =~= b);
    } else if b.len() == 0 {
        assert(b.to_set().contains(a[0]));
    } else {
        assert(b.to_set().contains(a[0]));
        assert(a.to_set().contains(b[0]));
        if a[0] != b[0] {
            let m = choose|m: int| 0 <= m < b.len() && b[m] == a[0];
            let n = choose|n: int| 0 <= n < a.len() && a[n] == b[0];
            assert(chars_lt(b[0], b[m]));
            assert(chars_lt(a[0], a[n]));
            lemma_chars_lt_transitive(a[0], b[0], a[0]);
            lemma_chars_lt_irreflexive(a[0]);
        }
        let at = a.drop_first();
        let bt = b.drop_first();
        assert(at.to_set() =~= bt.to_set()) by {
            assert forall|x: Seq<char>| at.to_set().contains(x) implies bt.to_set().contains(x) by {
                let i = choose|i: int| 0 <= i < at.len() && at[i] == x;
                assert(a[i + 1] == x);
                assert(b.to_set().contains(x));
                let j = choose|j: int| 0 <= j < b.len() && b[j] == x;
                if j == 0 {
                    assert(chars_lt(a[0], a[i + 1]));
                    lemma_chars_lt_irreflexive(x);
                }
                assert(bt[j - 1] == x);
            }
            assert forall|x: Seq<char>| bt.to_set().contains(x) implies at.to_set().contains(x) by {
                let i = choose|i: int| 0 <= i < bt.len() && bt[i] == x;
                assert(b[i + 1] == x);
                assert(a.to_set().contains(x));
                let j = choose|j: int| 0 <= j < a.len() && a[j] == x;
                if j == 0 {
                    assert(chars_lt(b[0], b[i + 1]));
                    lemma_chars_lt_irreflexive(x);
                }
                assert(at[j - 1] == x);
            }
        }
        assert forall|i: int, k: int| 0 <= i < k < at.len() implies chars_lt(at[i], at[k]) by {
            assert(at[i] == a[i + 1] && at[k] == a[k + 1]);
        }
        assert forall|i: int, k: int| 0 <= i < k < bt.len() implies chars_lt(bt[i], bt[k]) by {
            assert(bt[i] == b[i + 1] && bt[k] == b[k + 1]);
        }
        lemma_sorted_unique(at, bt);
        assert(a =~= seq![a[0]] + at);
        assert(b =~= seq![b[0]] + bt);
    }
}

/// The distinct elements of `ts` in increasing order.
pub open spec fn sorted_distinct(ts: Seq<Seq<char>>) -> Seq<Seq<char>> {
    choose|r: Seq<Seq<char>>| strictly_sorted(r) && r.to_set() == ts.to_set()
}

pub fn chars_less(a: &Vec<char>, b: &Vec<char>) -> (r: bool)
    ensures
        r == chars_lt(a@, b@),
{
    let mut i: usize = 0;
    assert(a@.skip(0) =~= a@ && b@.skip(0) =~= b@);
    while i < a.len() && i < b.len() && a[i] == b[i]
        invariant
            i <= a@.len(),
            i <= b@.len(),
            chars_lt(a@, b@) == chars_lt(a@.skip(i as int), b@.skip(i as int)),
        decreases a@.len() - i,
    {
        proof {
            assert(a@.skip(i as int).drop_first() =~= a@.skip(i + 1));
            assert(b@.skip(i as int).drop_first() =~= b@.skip(i + 1));
        }
        i = i + 1;
    }
    if i == a.len() {
        i < b.len()
    } else if i == b.len() {
        false
    } else {
        a[i] < b[i]
    }
}

pub fn chars_equal(a: &Vec<char>, b: &Vec<char>) -> (r: bool)
    ensures
        r == (a@ == b@),
{
    if a.len() != b.len() {
        return false;
    }
    let mut i: usize = 0;
    while i < a.len()
        invariant
            a@.len() == b@.len(),
            i <= a@.len(),
            forall|j: int| 0 <= j < i ==> a@[j] == b@[j],
        decreases a@.len() - i,
    {
        if a[i] != b[i] {
            return false;
        }
        i = i + 1;
    }
    assert(a@ =~= b@);
    true
}

/// The distinct elements of `ts`, sorted.
pub fn sort_distinct(ts: &Vec<Vec<char>>) -> (r: Vec<Vec<char>>)
    ensures
        r@.map_values(|v: Vec<char>| v@) == sorted_distinct(ts@.map_values(|v: Vec<char>| v@)),
{
    let ghost tv = ts@.map_values(|v: Vec<char>| v@);
    let mut out: Vec<Vec<char>> = Vec::new();
    let mut i: usize = 0;
    while i < ts.len()
        invariant
            i <= ts@.len(),
            tv == ts@.map_values(|v: Vec<char>| v@),
            strictly_sorted(out@.map_values(|v: Vec<char>| v@)),
            out@.map_values(|v: Vec<char>| v@).to_set() == tv.take(i as int).to_set(),
        decreases ts@.len() - i,
    {
        let t = &ts[i];
        let ghost ov = out@.map_values(|v: Vec<char>| v@);
        let mut j: usize = 0;
        while j < out.len() && chars_less(&out[j], t)
            invariant
                j <= out@.len(),
                ov == out@.map_values(|v: Vec<char>| v@),
                forall|k: int| 0 <= k < j ==> chars_lt(#[trigger] ov[k], t@),
            decreases out@.len() - j,
        {
            j = j + 1;
        }
        proof {
            assert(tv.take(i as int + 1) =~= tv.take(i as int).push(t@));
            tv.take(i as int).lemma_push_to_set_commute(t@);
        }
        if j < out.len() && chars_equal(&out[j], t) {
            assert(ov.to_set().contains(t@)) by {
                assert(ov[j as int] == t@);
            }
            assert(ov.to_set().insert(t@) =~= ov.to_set());
        } else {
            let c = t.clone();
            proof {
                if j < out@.len() {
                    lemma_chars_lt_total(ov[j as int], t@);
                }
            }
            out.insert(j, c);
            proof {
                let nv = out@.map_values(|v: Vec<char>| v@);
                assert(c@ == t@);
                assert(nv =~= ov.insert(j as int, t@));
                assert forall|a: int, b: int| 0 <= a < b < nv.len() implies chars_lt(
                    #[trigger] nv[a],
                    #[trigger] nv[b],
                ) by {
                    if b < j {
                        assert(nv[a] == ov[a] && nv[b] == ov[b]);
                    } else if b == j {
                        assert(nv[a] == ov[a]);
                    } else if a == j {
                        assert(nv[b] == ov[b - 1]);
                        if b - 1 > j {
                            assert(chars_lt(ov[j as int], ov[b - 1]));
                            lemma_chars_lt_transitive(t@, ov[j as int], ov[b - 1]);
                        }
                    } else if a < j {
                        assert(nv[a] == ov[a] && nv[b] == ov[b - 1]);
                    } else {
                        assert(nv[a] == ov[a - 1] && nv[b] == ov[b - 1]);
                    }
                }
                assert(nv.to_set() =~= ov.to_set().insert(t@)) by {
                    assert forall|x: Seq<char>| nv.to_set().contains(x) implies ov.to_set().insert(
                        t@,
                    ).contains(x) by {
                        let k = choose|k: int| 0 <= k < nv.len() && nv[k] == x;
                        if k < j {
                            assert(ov[k] == x);
                        } else if k > j {
                            assert(ov[k - 1] == x);
                        }
                    }
                    assert forall|x: Seq<char>| ov.to_set().insert(t@).contains(x) implies nv.to_set().contains(
                        x,
                    ) by {
                        if x == t@ {
                            assert(nv[j as int] == x);
                        } else {
                            let k = choose|k: int| 0 <= k < ov.len() && ov[k] == x;
                            if k < j {
                                assert(nv[k] == x);
                            } else {
                                assert(nv[k + 1] == x);
                            }
                        }
                    }
                }
            }
        }
        i = i + 1;
    }
    proof {
        assert(tv.take(ts@.len() as int) =~= tv);
        let ov = out@.map_values(|v: Vec<char>| v@);
        let r = sorted_distinct(tv);
        assert(strictly_sorted(ov) && ov.to_set() == tv.to_set());
        lemma_sorted_unique(r, ov);
    }
    out
}

} // verus!

verus! {

/// Whether `pat` occurs in `s` at position `i`.
pub open spec fn occurs_at(s: Seq<char>, pat: Seq<char>, i: int) -> bool {
    0 <= i && i + pat.len() <= s.len() && s.subrange(i, i + pat.len()) == pat
}

/// `s` cut at the occurrences of `pat` found scanning from the left, each
/// search resuming after the previous occurrence.
pub open spec fn split_pat(s: Seq<char>, pat: Seq<char>) -> Seq<Seq<char>>
    recommends
        pat.len() > 0,
    decreases s.len(),
{
    if s.len() == 0 || pat.len() == 0 {
        seq![s]
    } else if occurs_at(s, pat, 0) {
        seq![Seq::<char>::empty()] + split_pat(s.skip(pat.len() as int), pat)
    } else {
        let r = split_pat(s.skip(1), pat);
        r.update(0, seq![s[0]] + r[0])
    }
}

pub proof fn lemma_split_pat_nonempty(s: Seq<char>, pat: Seq<char>)
    ensures
        split_pat(s, pat).len() >= 1,
    decreases s.len(),
{
    if s.len() > 0 && pat.len() > 0 {
        if occurs_at(s, pat, 0) {
            lemma_split_pat_nonempty(s.skip(pat.len() as int), pat);
        } else {
            lemma_split_pat_nonempty(s.skip(1), pat);
        }
    }
}

/// `s` cut at the occurrences of `pat`.
pub fn split_on_pattern(s: &Vec<char>, pat: &Vec<char>) -> (r: Vec<Vec<char>>)
    requires
        pat@.len() > 0,
    ensures
        r@.map_values(|v: Vec<char>| v@) == split_pat(s@, pat@),
{
    let mut done: Vec<Vec<char>> = Vec::new();
    let mut cur: Vec<char> = Vec::new();
    let mut i: usize = 0;
    assert(s@.skip(0) =~= s@);
    proof {
        lemma_split_pat_nonempty(s@, pat@);
        let r = split_pat(s@, pat@);
        assert(r.update(0, Seq::<char>::empty() + r[0]) =~= r);
        assert(Seq::<Seq<char>>::empty() + r =~= r);
    }
    while i < s.len()
        invariant
            i <= s@.len(),
            pat@.len() > 0,
            split_pat(s@, pat@) == done@.map_values(|v: Vec<char>| v@) + split_pat(
                s@.skip(i as int),
                pat@,
            ).update(0, cur@ + split_pat(s@.skip(i as int), pat@)[0]),
        decreases s@.len() - i,
    {
        let ghost rest = s@.skip(i as int);
        let ghost dv = done@.map_values(|v: Vec<char>| v@);
        let mut m = s.len() - i >= pat.len();
        if m {
            let n = s.len();
            let mut k: usize = 0;
            while k < pat.len()
                invariant
                    k <= pat@.len(),
                    n == s@.len(),
                    i + pat@.len() <= n,
                    m ==> forall|q: int| 0 <= q < k ==> s@[i + q] == pat@[q],
                    !m ==> !occurs_at(rest, pat@, 0),
                    rest == s@.skip(i as int),
                decreases pat@.len() - k,
            {
                let at: usize = i + k;
                if s[at] != pat[k] {
                    m = false;
                    assert(rest.subrange(0, pat@.len() as int)[k as int] != pat@[k as int]);
                }
                k = k + 1;
            }
        }
        if m {
            proof {
                assert(rest.subrange(0, pat@.len() as int) =~= pat@);
                assert(rest.skip(pat@.len() as int) =~= s@.skip(i + pat@.len()));
                lemma_split_pat_nonempty(rest.skip(pat@.len() as int), pat@);
            }
            let finished = cur;
            done.push(finished);
            cur = Vec::new();
            i = i + pat.len();
            proof {
                let tail = split_pat(s@.skip(i as int), pat@);
                assert(tail.update(0, Seq::<char>::empty() + tail[0]) =~= tail);
                assert(done@.map_values(|v: Vec<char>| v@) =~= dv.push(finished@));
                assert(split_pat(rest, pat@) =~= seq![Seq::<char>::empty()] + tail);
                assert(split_pat(s@, pat@) =~= done@.map_values(|v: Vec<char>| v@) + tail.update(
                    0,
                    cur@ + tail[0],
                ));
            }
        } else {
            let c = s[i];
            let ghost oc = cur@;
            cur.push(c);
            proof {
                assert(rest.skip(1) =~= s@.skip(i + 1));
                lemma_split_pat_nonempty(rest.skip(1), pat@);
            }
            i = i + 1;
            proof {
                let tail = split_pat(s@.skip(i as int), pat@);
                assert(rest[0] == c);
                assert(split_pat(rest, pat@) == tail.update(0, seq![c] + tail[0]));
                assert(oc + (seq![c] + tail[0]) =~= cur@ + tail[0]);
                assert(tail.update(0, seq![c] + tail[0]).update(0, oc + (seq![c] + tail[0]))
                    =~= tail.update(0, cur@ + tail[0]));
            }
        }
    }
    proof {
        let e = s@.skip(i as int);
        assert(e.len() == 0);
        assert(split_pat(e, pat@) == seq![e]);
        assert(cur@ + e =~= cur@);
        assert(seq![e].update(0, cur@ + e) =~= seq![cur@]);
    }
    done.push(cur);
    assert(done@.map_values(|v: Vec<char>| v@) =~= split_pat(s@, pat@));
    done
}

} // verus!

verus! {

/// `t` without leading white space.
pub open spec fn trim_start(t: Seq<char>) -> Seq<char>
    decreases t.len(),
{
    if t.len() > 0 && white_space(t[0]) {
        trim_start(t.drop_first())
    } else {
        t
    }
}

/// `t` without trailing white space.
pub open spec fn trim_end(t: Seq<char>) -> Seq<char>
    decreases t.len(),
{
    if t.len() > 0 && white_space(t.last()) {
        trim_end(t.drop_last())
    } else {
        t
    }
}

/// `t` without white space at either end.
pub open spec fn trim_ws(t: Seq<char>) -> Seq<char> {
    trim_end(trim_start(t))
}

/// The pieces of `g` joined by `sep`.
pub open spec fn join_with(g: Seq<Seq<char>>, sep: Seq<char>) -> Seq<char>
    decreases g.len(),
{
    if g.len() == 0 {
        Seq::<char>::empty()
    } else if g.len() == 1 {
        g[0]
    } else {
        join_with(g.drop_last(), sep) + sep + g.last()
    }
}

pub fn trim_chars(t: &Vec<char>) -> (r: Vec<char>)
    ensures
        r@ == trim_ws(t@),
{
    let mut a: usize = 0;
    assert(t@.skip(0) =~= t@);
    while a < t.len() && crate::shared_item::norm::is_white_space(t[a])
        invariant
            a <= t@.len(),
            trim_start(t@) == trim_start(t@.skip(a as int)),
        decreases t@.len() - a,
    {
        assert(t@.skip(a as int).drop_first() =~= t@.skip(a + 1));
        a = a + 1;
    }
    let ghost u = t@.skip(a as int);
    assert(trim_start(t@) == u) by {
        if a < t@.len() {
            assert(u[0] == t@[a as int]);
        }
    }
    let mut e: usize = t.len();
    assert(u.take(u.len() as int) =~= u);
    while e > a && crate::shared_item::norm::is_white_space(t[e - 1])
        invariant
            a <= e <= t@.len(),
            u == t@.skip(a as int),
            trim_end(u) == trim_end(u.take(e - a)),
        decreases e,
    {
        assert(u.take(e - a).drop_last() =~= u.take(e - a - 1));
        assert(u.take(e - a).last() == t@[e - 1]);
        e = e - 1;
    }
    assert(trim_end(u.take(e - a)) == u.take(e - a)) by {
        if e > a {
            assert(u.take(e - a).last() == t@[e - 1]);
        }
    }
    let mut r: Vec<char> = Vec::new();
    let mut k: usize = a;
    while k < e
        invariant
            a <= k <= e <= t@.len(),
            r@ == t@.subrange(a as int, k as int),
        decreases e - k,
    {
        r.push(t[k]);
        k = k + 1;
        assert(r@ =~= t@.subrange(a as int, k as int));
    }
    assert(r@ =~= u.take(e - a));
    r
}

/// The pieces of `g` joined by `sep`.
pub fn join_with_chars(g: &Vec<Vec<char>>, sep: &Vec<char>) -> (r: Vec<char>)
    ensures
        r@ == join_with(g@.map_values(|v: Vec<char>| v@), sep@),
{
    let ghost gv = g@.map_values(|v: Vec<char>| v@);
    let mut out: Vec<char> = Vec::new();
    let mut i: usize = 0;
    while i < g.len()
        invariant
            i <= g@.len(),
            gv == g@.map_values(|v: Vec<char>| v@),
            out@ == join_with(gv.take(i as int), sep@),
        decreases g@.len() - i,
    {
        let piece = &g[i];
        let ghost start = out@;
        if i > 0 {
            let mut j: usize = 0;
            while j < sep.len()
                invariant
                    j <= sep@.len(),
                    out@ == start + sep@.take(j as int),
                decreases sep@.len() - j,
            {
                out.push(sep[j]);
                j = j + 1;
                assert(out@ =~= start + sep@.take(j as int));
            }
            assert(sep@.take(sep@.len() as int) =~= sep@);
        }
        let ghost before = out@;
        let mut j: usize = 0;
        while j < piece.len()
            invariant
                j <= piece@.len(),
                out@ == before + piece@.take(j as int),
            decreases piece@.len() - j,
        {
            out.push(piece[j]);
            j = j + 1;
            assert(out@ =~= before + piece@.take(j as int));
        }
        proof {
            assert(piece@.take(piece@.len() as int) =~= piece@);
            let t = gv.take(i as int + 1);
            assert(t.drop_last() =~= gv.take(i as int));
            assert(t.last() == piece@);
            if i == 0 {
                assert(start =~= Seq::<char>::empty());
                assert(out@ =~= piece@);
            }
        }
        i = i + 1;
    }
    assert(gv.take(g@.len() as int) =~= gv);
    out
}

} // verus!
