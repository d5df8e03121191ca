//! Character-sequence helpers shared by the parser and the normaliser.
use vstd::prelude::*;

verus! {

/// Relies on `String`'s `FromIterator<char>`: the string holds exactly the
/// given characters, in order.
#[verifier::external_body]
pub(crate) fn string_from_chars(v: &Vec<char>) -> (r: String)
    ensures
        r@ == v@,
{
    v.iter().collect()
}

/// The characters of `s`, in order.
pub fn chars_of(s: &str) -> (r: Vec<char>)
    ensures
        r@ == s@,
{
    let n = s.unicode_len();
    let mut out: Vec<char> = Vec::new();
    let mut i: usize = 0;
    while i < n
        invariant
            n == s@.len(),
            i <= n,
            out@ == s@.take(i as int),
        decreases n - i,
    {
        let c = s.get_char(i);
        out.push(c);
        i = i + 1;
        assert(out@ =~= s@.take(i as int));
    }
    assert(out@ =~= s@);
    out
}

pub open spec fn is_ascii_lower(c: char) -> bool {
    'a' <= c && c <= 'z'
}

pub open spec fn is_ascii_upper(c: char) -> bool {
    'A' <= c && c <= 'Z'
}

/// ASCII upper-casing of one character: `a`..`z` map to `A`..`Z`, every
/// other character stays.
pub open spec fn upper_char(c: char) -> char {
    if is_ascii_lower(c) {
        ((c as u32 - 32) as u8) as char
    } else {
        c
    }
}

/// ASCII lower-casing of one character.
pub open spec fn lower_char(c: char) -> char {
    if is_ascii_upper(c) {
        ((c as u32 + 32) as u8) as char
    } else {
        c
    }
}

pub open spec fn upper_seq(s: Seq<char>) -> Seq<char> {
    s.map_values(|c: char| upper_char(c))
}

pub open spec fn lower_seq(s: Seq<char>) -> Seq<char> {
    s.map_values(|c: char| lower_char(c))
}

pub fn to_upper_char(c: char) -> (r: char)
    ensures
        r == upper_char(c),
{
    if 'a' <= c && c <= 'z' {
        ((c as u32 - 32) as u8) as char
    } else {
        c
    }
}

pub fn to_lower_char(c: char) -> (r: char)
    ensures
        r == lower_char(c),
{
    if 'A' <= c && c <= 'Z' {
        ((c as u32 + 32) as u8) as char
    } else {
        c
    }
}

} // verus!

verus! {

/// `s` cut at every occurrence of `sep`; always at least one piece.
pub open spec fn split_on(s: Seq<char>, sep: char) -> Seq<Seq<char>>
    decreases s.len(),
{
    if s.len() == 0 {
        seq![Seq::<char>::empty()]
    } else {
        let p = split_on(s.drop_last(), sep);
        if s.last() == sep {
            p.push(Seq::<char>::empty())
        } else {
            p.update(p.len() - 1, p.last().push(s.last()))
        }
    }
}

pub proof fn lemma_split_on_nonempty(s: Seq<char>, sep: char)
    ensures
        split_on(s, sep).len() >= 1,
    decreases s.len(),
{
    if s.len() > 0 {
        lemma_split_on_nonempty(s.drop_last(), sep);
    }
}

/// The pieces of `s` between occurrences of `sep`.
pub fn split_chars(s: &Vec<char>, sep: char) -> (r: Vec<Vec<char>>)
    ensures
        r@.map_values(|v: Vec<char>| v@) == split_on(s@, sep),
{
    let mut done: Vec<Vec<char>> = Vec::new();
    let mut cur: Vec<char> = Vec::new();
    let mut i: usize = 0;
    while i < s.len()
        invariant
            i <= s@.len(),
            done@.map_values(|v: Vec<char>| v@).push(cur@) == split_on(s@.take(i as int), sep),
        decreases s@.len() - i,
    {
        let c = s[i];
        proof {
            let t = s@.take(i as int + 1);
            assert(t.drop_last() =~= s@.take(i as int));
            assert(t.last() == c);
            lemma_split_on_nonempty(s@.take(i as int), sep);
        }
        let ghost before = done@.map_values(|v: Vec<char>| v@).push(cur@);
        if c == sep {
            let finished = cur;
            done.push(finished);
            cur = Vec::new();
            assert(done@.map_values(|v: Vec<char>| v@).push(cur@) =~= before.push(
                Seq::<char>::empty(),
            ));
        } else {
            cur.push(c);
            assert(done@.map_values(|v: Vec<char>| v@).push(cur@) =~= before.update(
                before.len() - 1,
                before.last().push(c),
            ));
        }
        i = i + 1;
    }
    assert(s@.take(s@.len() as int) =~= s@);
    done.push(cur);
    done
}

} // verus!

verus! {

/// Whether the characters of `v` spell exactly `s`.
pub fn chars_eq_str(v: &Vec<char>, s: &str) -> (r: bool)
    ensures
        r == (v@ == s@),
{
    let w = chars_of(s);
    if v.len() != w.len() {
        return false;
    }
    let mut i: usize = 0;
    while i < v.len()
        invariant
            v@.len() == w@.len(),
            w@ == s@,
            i <= v@.len(),
            forall|j: int| 0 <= j < i ==> v@[j] == w@[j],
        decreases v@.len() - i,
    {
        if v[i] != w[i] {
            return false;
        }
        i = i + 1;
    }
    assert(v@ =~= w@);
    true
}

/// The characters of `v` with ASCII letters upper-cased.
pub fn upper_chars(v: &Vec<char>) -> (r: Vec<char>)
    ensures
        r@ == upper_seq(v@),
{
    let mut out: Vec<char> = Vec::new();
    let mut i: usize = 0;
    while i < v.len()
        invariant
            i <= v@.len(),
            out@ == upper_seq(v@.take(i as int)),
        decreases v@.len() - i,
    {
        out.push(to_upper_char(v[i]));
        i = i + 1;
        assert(out@ =~= upper_seq(v@.take(i as int)));
    }
    assert(v@.take(v@.len() as int) =~= v@);
    out
}

/// The characters of `v` with ASCII letters lower-cased.
pub fn lower_chars(v: &Vec<char>) -> (r: Vec<char>)
    ensures
        r@ == lower_seq(v@),
{
    let mut out: Vec<char> = Vec::new();
    let mut i: usize = 0;
    while i < v.len()
        invariant
            i <= v@.len(),
            out@ == lower_seq(v@.take(i as int)),
        decreases v@.len() - i,
    {
        out.push(to_lower_char(v[i]));
        i = i + 1;
        assert(out@ =~= lower_seq(v@.take(i as int)));
    }
    assert(v@.take(v@.len() as int) =~= v@);
    out
}

/// Pieces of a split never hold the separator.
pub proof fn lemma_split_on_pieces(s: Seq<char>, sep: char)
    ensures
        forall|i: int| 0 <= i < split_on(s, sep).len() ==> !split_on(s, sep)[i].contains(sep),
    decreases s.len(),
{
    lemma_split_on_nonempty(s, sep);
    if s.len() > 0 {
        let p = split_on(s.drop_last(), sep);
        lemma_split_on_pieces(s.drop_last(), sep);
        lemma_split_on_nonempty(s.drop_last(), sep);
        if s.last() != sep {
            assert forall|i: int| 0 <= i < split_on(s, sep).len() implies !split_on(
                s,
                sep,
            )[i].contains(sep) by {
                if i == p.len() - 1 {
                    let q = p.last().push(s.last());
                    assert forall|j: int| 0 <= j < q.len() implies q[j] != sep by {
                        if j < p.last().len() {
                            assert(q[j] == p.last()[j]);
                        }
                    }
                }
            }
        } else {
            assert forall|i: int| 0 <= i < split_on(s, sep).len() implies !split_on(
                s,
                sep,
            )[i].contains(sep) by {
                if i < p.len() {
                    assert(split_on(s, sep)[i] == p[i]);
                }
            }
        }
    }
}

/// Appending characters other than the separator extends the last piece.
pub proof fn lemma_split_on_extend(x: Seq<char>, b: Seq<char>, sep: char)
    requires
        !b.contains(sep),
    ensures
        split_on(x + b, sep).len() == split_on(x, sep).len(),
        split_on(x + b, sep) == split_on(x, sep).update(
            split_on(x, sep).len() - 1,
            split_on(x, sep).last() + b,
        ),
    decreases b.len(),
{
    lemma_split_on_nonempty(x, sep);
    if b.len() == 0 {
        assert(x + b =~= x);
        assert(split_on(x, sep).last() + b =~= split_on(x, sep).last());
        assert(split_on(x, sep).update(split_on(x, sep).len() - 1, split_on(x, sep).last())
            =~= split_on(x, sep));
    } else {
        let b0 = b.drop_last();
        assert(!b0.contains(sep)) by {
            assert forall|j: int| 0 <= j < b0.len() implies b0[j] != sep by {
                assert(b0[j] == b[j]);
            }
        }
        lemma_split_on_extend(x, b0, sep);
        assert((x + b).drop_last() =~= x + b0);
        assert((x + b).last() == b.last());
        assert(b.last() != sep) by {
            assert(b[b.len() - 1] == b.last());
        }
        let p = split_on(x, sep);
        let q = split_on(x + b0, sep);
        assert(q.len() == p.len());
        assert(q.last() == p.last() + b0);
        assert(split_on(x + b, sep) == q.update(q.len() - 1, q.last().push(b.last())));
        assert((p.last() + b0).push(b.last()) =~= p.last() + b);
        assert(split_on(x + b, sep) =~= p.update(p.len() - 1, p.last() + b));
    }
}

/// A separator followed by separator-free characters adds one piece.
pub proof fn lemma_split_on_append(x: Seq<char>, b: Seq<char>, sep: char)
    requires
        !b.contains(sep),
    ensures
        split_on(x + seq![sep] + b, sep) == split_on(x, sep).push(b),
{
    let xs = x + seq![sep];
    assert(xs.drop_last() =~= x);
    assert(xs.last() == sep);
    assert(split_on(xs, sep) == split_on(x, sep).push(Seq::<char>::empty()));
    lemma_split_on_extend(xs, b, sep);
    assert(Seq::<char>::empty() + b =~= b);
    assert(split_on(x, sep).push(Seq::<char>::empty()).update(split_on(x, sep).len() as int, b)
        =~= split_on(x, sep).push(b));
}

/// A separator-free sequence is one piece.
pub proof fn lemma_split_on_single(b: Seq<char>, sep: char)
    requires
        !b.contains(sep),
    ensures
        split_on(b, sep) == seq![b],
{
    let e = Seq::<char>::empty();
    lemma_split_on_extend(e, b, sep);
    assert(e + b =~= b);
    assert(split_on(e, sep) == seq![e]);
    assert(seq![e].update(0, e + b) =~= seq![b]);
}

} // verus!

verus! {

/// The pieces of `g` joined by `sep`.
pub open spec fn join_on(g: Seq<Seq<char>>, sep: char) -> Seq<char>
    decreases g.len(),
{
    if g.len() == 0 {
        Seq::<char>::empty()
    } else if g.len() == 1 {
        g[0]
    } else {
        join_on(g.drop_last(), sep) + seq![sep] + g.last()
    }
}

/// Splitting undoes joining pieces that do not hold the separator.
pub proof fn lemma_split_join(g: Seq<Seq<char>>, sep: char)
    requires
        g.len() >= 1,
        forall|i: int| 0 <= i < g.len() ==> !g[i].contains(sep),
    ensures
        split_on(join_on(g, sep), sep) == g,
    decreases g.len(),
{
    if g.len() == 1 {
        lemma_split_on_single(g[0], sep);
        assert(seq![g[0]] =~= g);
    } else {
        lemma_split_join(g.drop_last(), sep);
        lemma_split_on_append(join_on(g.drop_last(), sep), g.last(), sep);
        assert(g.drop_last().push(g.last()) =~= g);
    }
}

/// The pieces of `g` joined by `sep`.
pub fn join_chars(g: &Vec<Vec<char>>, sep: char) -> (r: Vec<char>)
    ensures
        r@ == join_on(g@.map_values(|v: Vec<char>| v@), sep),
{
    let ghost gv = g@.map_values(|v: Vec<char>| v@);
    let mut out: Vec<char> = Vec::new();
    let mut i: usize = 0;
    while i < g.len()
        invariant
            i <= g@.len(),
            gv == g@.map_values(|v: Vec<char>| v@),
            out@ == join_on(gv.take(i as int), sep),
        decreases g@.len() - i,
    {
        let piece = &g[i];
        if i > 0 {
            out.push(sep);
        }
        let ghost before = out@;
        let mut j: usize = 0;
        while j < piece.len()
            invariant
                j <= piece@.len(),
                out@ == before + piece@.take(j as int),
            decreases piece@.len() - j,
        {
            out.push(piece[j]);
            j = j + 1;
            assert(out@ =~= before + piece@.take(j as int));
        }
        proof {
            assert(piece@.take(piece@.len() as int) =~= piece@);
            let t = gv.take(i as int + 1);
            assert(t.drop_last() =~= gv.take(i as int));
            assert(t.last() == piece@);
            if i == 0 {
                assert(before =~= Seq::<char>::empty());
                assert(out@ =~= piece@);
            }
        }
        i = i + 1;
    }
    assert(gv.take(g@.len() as int) =~= gv);
    out
}

} // verus!

verus! {

/// The pieces of a split hold no character that the whole lacks.
pub proof fn lemma_split_on_avoids(s: Seq<char>, sep: char, c: char)
    requires
        !s.contains(c),
    ensures
        forall|i: int| 0 <= i < split_on(s, sep).len() ==> !split_on(s, sep)[i].contains(c),
    decreases s.len(),
{
    lemma_split_on_nonempty(s, sep);
    if s.len() > 0 {
        let p = split_on(s.drop_last(), sep);
        assert(!s.drop_last().contains(c)) by {
            assert forall|j: int| 0 <= j < s.len() - 1 implies s.drop_last()[j] != c by {
                assert(s.drop_last()[j] == s[j]);
            }
        }
        assert(s.last() != c) by {
            assert(s[s.len() - 1] == s.last());
        }
        lemma_split_on_avoids(s.drop_last(), sep, c);
        lemma_split_on_nonempty(s.drop_last(), sep);
        if s.last() != sep {
            assert forall|i: int| 0 <= i < split_on(s, sep).len() implies !split_on(
                s,
                sep,
            )[i].contains(c) by {
                if i == p.len() - 1 {
                    let q = p.last().push(s.last());
                    assert forall|j: int| 0 <= j < q.len() implies q[j] != c by {
                        if j < p.last().len() {
                            assert(q[j] == p.last()[j]);
                        }
                    }
                }
            }
        } else {
            assert forall|i: int| 0 <= i < split_on(s, sep).len() implies !split_on(
                s,
                sep,
            )[i].contains(c) by {
                if i < p.len() {
                    assert(split_on(s, sep)[i] == p[i]);
                }
            }
        }
    }
}

/// Joining pieces that lack a character, with another separator, gives a
/// sequence that lacks it.
pub proof fn lemma_join_avoids(g: Seq<Seq<char>>, sep: char, c: char)
    requires
        sep != c,
        forall|i: int| 0 <= i < g.len() ==> !g[i].contains(c),
    ensures
        !join_on(g, sep).contains(c),
    decreases g.len(),
{
    if g.len() > 1 {
        let p = g.drop_last();
        assert forall|i: int| 0 <= i < p.len() implies !p[i].contains(c) by {
            assert(p[i] == g[i]);
        }
        lemma_join_avoids(p, sep, c);
        let j = join_on(p, sep) + seq![sep] + g.last();
        assert(!g[g.len() - 1].contains(c));
        assert forall|k: int| 0 <= k < j.len() implies j[k] != c by {
            if k < join_on(p, sep).len() {
                assert(j[k] == join_on(p, sep)[k]);
            } else if k > join_on(p, sep).len() {
                assert(j[k] == g.last()[k - join_on(p, sep).len() - 1]);
            }
        }
    }
}

} // verus!
