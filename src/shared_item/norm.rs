//! Normalisation of titles and artist names into comparison keys.
use unicode_normalization::UnicodeNormalization;
use vstd::prelude::*;
use crate::shared_item::tokens::{
    join_with, join_with_chars, sort_distinct, sorted_distinct, split_on_pattern, split_pat,
    trim_chars, trim_ws,
};
use crate::text::{chars_eq_str, chars_of, string_from_chars};

verus! {

/// What `regex` makes of `text` when every match of `pattern` is replaced by
/// `rep`; none when the pattern does not compile.
pub uninterp spec fn regex_replace_all(pattern: Seq<char>, text: Seq<char>, rep: Seq<char>) -> Option<
    Seq<char>,
>;

/// Relies on `regex::Regex::new` and `Regex::replace_all`: the result depends
/// on the pattern, the text and the replacement alone.
#[verifier::external_body]
fn replace_matches(pattern: &str, text: &str, rep: &str) -> (r: Option<String>)
    ensures
        match r {
            Some(t) => regex_replace_all(pattern@, text@, rep@) == Some(t@),
            None => regex_replace_all(pattern@, text@, rep@) is None,
        },
{
    match regex::Regex::new(pattern) {
        Ok(re) => Some(re.replace_all(text, rep).into_owned()),
        Err(_) => None,
    }
}

/// The canonical decomposition (NFD) of `s`.
pub uninterp spec fn nfd_of(s: Seq<char>) -> Seq<char>;

/// Relies on `unicode_normalization::UnicodeNormalization::nfd`: the
/// decomposition depends on the characters alone.
#[verifier::external_body]
fn decompose(s: &str) -> (r: String)
    ensures
        r@ == nfd_of(s@),
{
    s.nfd().collect()
}

/// Whether `c` has the Unicode general category Mark.
pub uninterp spec fn combining_mark(c: char) -> bool;

/// Relies on `unicode_normalization::char::is_combining_mark`: a table lookup
/// on the character.
#[verifier::external_body]
fn is_combining_mark(c: char) -> (r: bool)
    ensures
        r == combining_mark(c),
{
    unicode_normalization::char::is_combining_mark(c)
}

/// The Unicode lower-case mapping of `c`.
pub uninterp spec fn lowercase_of(c: char) -> Seq<char>;

/// Relies on `char::to_lowercase`: the mapping depends on the character alone.
#[verifier::external_body]
fn char_lowercase(c: char) -> (r: Vec<char>)
    ensures
        r@ == lowercase_of(c),
{
    c.to_lowercase().collect()
}

/// Whether `c` has the Unicode White_Space property, which is what
/// `char::is_whitespace` reports.
pub open spec fn white_space(c: char) -> bool {
    ('\u{9}' <= c && c <= '\u{D}') || c == ' ' || c == '\u{85}' || c == '\u{A0}' || c
        == '\u{1680}' || ('\u{2000}' <= c && c <= '\u{200A}') || c == '\u{2028}' || c
        == '\u{2029}' || c == '\u{202F}' || c == '\u{205F}' || c == '\u{3000}'
}

pub(crate) fn is_white_space(c: char) -> (r: bool)
    ensures
        r == white_space(c),
{
    ('\u{9}' <= c && c <= '\u{D}') || c == ' ' || c == '\u{85}' || c == '\u{A0}' || c
        == '\u{1680}' || ('\u{2000}' <= c && c <= '\u{200A}') || c == '\u{2028}' || c
        == '\u{2029}' || c == '\u{202F}' || c == '\u{205F}' || c == '\u{3000}'
}

} // verus!

verus! {

/// Lower-cased characters of `d`, combining marks dropped.
pub open spec fn lower_unmarked(d: Seq<char>) -> Seq<char>
    decreases d.len(),
{
    if d.len() == 0 {
        Seq::empty()
    } else {
        let c = d.last();
        lower_unmarked(d.drop_last()) + if combining_mark(c) {
            Seq::<char>::empty()
        } else {
            lowercase_of(c)
        }
    }
}

/// `s` with every `&amp;` decoded to `&`, scanning from the left.
pub open spec fn decode_amp(s: Seq<char>) -> Seq<char>
    decreases s.len(),
{
    if s.len() == 0 {
        s
    } else if s.len() >= 5 && s[0] == '&' && s[1] == 'a' && s[2] == 'm' && s[3] == 'p' && s[4]
        == ';' {
        seq!['&'] + decode_amp(s.skip(5))
    } else {
        seq![s[0]] + decode_amp(s.skip(1))
    }
}

/// Typographic quotes folded to their ASCII forms.
pub open spec fn fold_quote(c: char) -> char {
    if c == '\u{201C}' || c == '\u{201D}' {
        '"'
    } else if c == '\u{2018}' || c == '\u{2019}' {
        '\''
    } else {
        c
    }
}

/// Runs of white space squeezed into one space each.
pub open spec fn squeeze(s: Seq<char>) -> Seq<char>
    decreases s.len(),
{
    if s.len() == 0 {
        s
    } else {
        let p = squeeze(s.drop_last());
        if white_space(s.last()) {
            if p.len() > 0 && p.last() == ' ' {
                p
            } else {
                p.push(' ')
            }
        } else {
            p.push(s.last())
        }
    }
}

/// `s` without one leading and one trailing space.
pub open spec fn strip_edge_spaces(s: Seq<char>) -> Seq<char> {
    let a = if s.len() > 0 && s[0] == ' ' {
        s.skip(1)
    } else {
        s
    };
    if a.len() > 0 && a.last() == ' ' {
        a.drop_last()
    } else {
        a
    }
}

/// White space collapsed to single spaces, none at either end.
pub open spec fn collapse_white_space(s: Seq<char>) -> Seq<char> {
    strip_edge_spaces(squeeze(s))
}

/// Accent folding, lower-casing, entity and quote decoding, and white-space
/// collapsing.
pub open spec fn fold_basic_spec(s: Seq<char>) -> Seq<char> {
    collapse_white_space(decode_amp(lower_unmarked(nfd_of(s))).map_values(|c| fold_quote(c)))
}

pub open spec fn is_ascii_punct(c: char) -> bool {
    ('!' <= c && c <= '/') || (':' <= c && c <= '@') || ('[' <= c && c <= '`') || ('{' <= c && c
        <= '~')
}

/// `s` without ASCII punctuation.
pub open spec fn strip_punct_spec(s: Seq<char>) -> Seq<char> {
    s.filter(|c: char| !is_ascii_punct(c))
}

fn lower_unmarked_chars(d: &Vec<char>) -> (r: Vec<char>)
    ensures
        r@ == lower_unmarked(d@),
{
    let mut out: Vec<char> = Vec::new();
    let mut i: usize = 0;
    while i < d.len()
        invariant
            i <= d@.len(),
            out@ == lower_unmarked(d@.take(i as int)),
        decreases d@.len() - i,
    {
        let c = d[i];
        proof {
            let t = d@.take(i as int + 1);
            assert(t.drop_last() =~= d@.take(i as int));
            assert(t.last() == c);
        }
        if !is_combining_mark(c) {
            let l = char_lowercase(c);
            let ghost before = out@;
            let mut j: usize = 0;
            while j < l.len()
                invariant
                    j <= l@.len(),
                    out@ == before + l@.take(j as int),
                decreases l@.len() - j,
            {
                out.push(l[j]);
                j = j + 1;
                assert(out@ =~= before + l@.take(j as int));
            }
            assert(l@.take(l@.len() as int) =~= l@);
        } else {
            assert(out@ =~= out@ + Seq::<char>::empty());
        }
        i = i + 1;
    }
    assert(d@.take(d@.len() as int) =~= d@);
    out
}

fn decode_amp_chars(s: &Vec<char>) -> (r: Vec<char>)
    ensures
        r@ == decode_amp(s@),
{
    let mut out: Vec<char> = Vec::new();
    let mut i: usize = 0;
    assert(s@.skip(0) =~= s@);
    assert(out@ + decode_amp(s@) =~= decode_amp(s@));
    while i < s.len()
        invariant
            i <= s@.len(),
            out@ + decode_amp(s@.skip(i as int)) == decode_amp(s@),
        decreases s@.len() - i,
    {
        let ghost rest = s@.skip(i as int);
        if s.len() - i >= 5 && s[i] == '&' && s[i + 1] == 'a' && s[i + 2] == 'm' && s[i + 3] == 'p'
            && s[i + 4] == ';' {
            out.push('&');
            assert(rest.skip(5) =~= s@.skip(i + 5));
            i = i + 5;
            assert(out@ + decode_amp(s@.skip(i as int)) =~= decode_amp(s@));
        } else {
            out.push(s[i]);
            assert(rest.skip(1) =~= s@.skip(i + 1));
            i = i + 1;
            assert(out@ + decode_amp(s@.skip(i as int)) =~= decode_amp(s@));
        }
    }
    assert(decode_amp(s@.skip(s@.len() as int)) =~= Seq::<char>::empty());
    assert(out@ + Seq::<char>::empty() =~= out@);
    out
}

fn fold_quote_char(c: char) -> (r: char)
    ensures
        r == fold_quote(c),
{
    if c == '\u{201C}' || c == '\u{201D}' {
        '"'
    } else if c == '\u{2018}' || c == '\u{2019}' {
        '\''
    } else {
        c
    }
}

fn collapse_white_space_chars(s: &Vec<char>) -> (r: Vec<char>)
    ensures
        r@ == collapse_white_space(s@),
{
    let mut out: Vec<char> = Vec::new();
    let mut i: usize = 0;
    while i < s.len()
        invariant
            i <= s@.len(),
            out@ == squeeze(s@.take(i as int)),
        decreases s@.len() - i,
    {
        let c = s[i];
        proof {
            let t = s@.take(i as int + 1);
            assert(t.drop_last() =~= s@.take(i as int));
            assert(t.last() == c);
        }
        if is_white_space(c) {
            if !(out.len() > 0 && out[out.len() - 1] == ' ') {
                out.push(' ');
            }
        } else {
            out.push(c);
        }
        i = i + 1;
    }
    assert(s@.take(s@.len() as int) =~= s@);
    let n = out.len();
    let start: usize = if n > 0 && out[0] == ' ' {
        1
    } else {
        0
    };
    let end: usize = if n > start && out[n - 1] == ' ' {
        n - 1
    } else {
        n
    };
    let mut r: Vec<char> = Vec::new();
    let mut k: usize = start;
    while k < end
        invariant
            start <= k <= end <= out@.len(),
            r@ == out@.subrange(start as int, k as int),
        decreases end - k,
    {
        r.push(out[k]);
        k = k + 1;
        assert(r@ =~= out@.subrange(start as int, k as int));
    }
    proof {
        let a = if n > 0 && out@[0] == ' ' {
            out@.skip(1)
        } else {
            out@
        };
        assert(a =~= out@.subrange(start as int, n as int));
        if a.len() > 0 && a.last() == ' ' {
            assert(a.drop_last() =~= out@.subrange(start as int, end as int));
        } else {
            assert(a =~= out@.subrange(start as int, end as int));
        }
    }
    r
}

fn fold_basic_chars(s: &str) -> (r: Vec<char>)
    ensures
        r@ == fold_basic_spec(s@),
{
    let d = chars_of(decompose(s).as_str());
    let lowered = lower_unmarked_chars(&d);
    let decoded = decode_amp_chars(&lowered);
    let mut quoted: Vec<char> = Vec::new();
    let mut i: usize = 0;
    while i < decoded.len()
        invariant
            i <= decoded@.len(),
            quoted@ == decoded@.take(i as int).map_values(|c| fold_quote(c)),
        decreases decoded@.len() - i,
    {
        quoted.push(fold_quote_char(decoded[i]));
        i = i + 1;
        assert(quoted@ =~= decoded@.take(i as int).map_values(|c| fold_quote(c)));
    }
    assert(decoded@.take(decoded@.len() as int) =~= decoded@);
    collapse_white_space_chars(&quoted)
}

fn strip_punct_chars(s: &Vec<char>) -> (r: Vec<char>)
    ensures
        r@ == strip_punct_spec(s@),
{
    let mut out: Vec<char> = Vec::new();
    let mut i: usize = 0;
    while i < s.len()
        invariant
            i <= s@.len(),
            out@ == strip_punct_spec(s@.take(i as int)),
        decreases s@.len() - i,
    {
        let c = s[i];
        proof {
            let t = s@.take(i as int + 1);
            assert(t.drop_last() =~= s@.take(i as int));
            assert(t.last() == c);
            reveal(Seq::filter);
        }
        if !(('!' <= c && c <= '/') || (':' <= c && c <= '@') || ('[' <= c && c <= '`') || ('{'
            <= c && c <= '~')) {
            out.push(c);
        }
        i = i + 1;
    }
    assert(s@.take(s@.len() as int) =~= s@);
    out
}

/// Removes the ASCII punctuation from `s`.
pub fn strip_common_punct(s: &str) -> (r: String)
    ensures
        r@ == strip_punct_spec(s@),
{
    string_from_chars(&strip_punct_chars(&chars_of(s)))
}

} // verus!

verus! {

/// A "feat." clause of a title, with or without parentheses.
pub const FEAT_PATTERN: &'static str = r"(?i)\s+\(?\s*(?:feat(?:\.|\b)|featuring|ft(?:\.|\b))\s+[^)]+\)?";

/// Song decorations such as "(Remastered 2019)" or "- Live".
pub const SONG_DECORATION_PATTERN: &'static str = r"(?i)(?:[\(\[\{][^)\]\}]*?(?:remaster|live|version|edit|mix|karaoke|mono|instrumental|acoustic)[^)\]\}]*?[\)\]\}]|\s*[-–—]\s*(?:\d{2,4}\s*)?(?:live|remaster|version|edit|mix|karaoke|mono|instrumental|acoustic)(?:\s*\d{2,4})?\s*$)";

/// Album decorations such as "(Deluxe Edition)" or "- Anniversary Edition".
pub const ALBUM_DECORATION_PATTERN: &'static str = r"(?i)(?:[\(\[\{][^)\]\}]*?(?:deluxe|expanded|anniversary|remaster|edition|version)[^)\]\}]*?[\)\]\}]|\s*[-–—]\s*(?:(?:deluxe|expanded|anniversary|remaster|edition|version)(?:\s+(?:edition|version))?)\s*$)";

/// The connectors that join several artists.
pub const ARTIST_CONNECTOR_PATTERN: &'static str = r"(?i)\s*(?:&| and | x |,|;|\+)\s*";

/// The word that joins artist tokens in a key.
pub const ARTIST_JOINER: &'static str = " and ";

/// The placeholder artist that a key leaves out.
pub const VARIOUS_ARTISTS: &'static str = "various artists";

/// `text` with every match of `pattern` replaced by `rep`; unchanged when the
/// pattern does not compile.
pub open spec fn replaced(pattern: Seq<char>, text: Seq<char>, rep: Seq<char>) -> Seq<char> {
    match regex_replace_all(pattern, text, rep) {
        Some(t) => t,
        None => text,
    }
}

fn replace_or_keep(pattern: &str, text: &str, rep: &str) -> (r: String)
    ensures
        r@ == replaced(pattern@, text@, rep@),
{
    match replace_matches(pattern, text, rep) {
        Some(t) => t,
        None => String::from_str(text),
    }
}

/// Folding, punctuation stripping and folding again: the key of a title
/// whose decorations are already removed.
pub open spec fn title_key(core: Seq<char>) -> Seq<char> {
    fold_basic_spec(strip_punct_spec(fold_basic_spec(core)))
}

/// The comparison key of a song title.
pub open spec fn song_title_key(raw: Seq<char>) -> Seq<char> {
    title_key(
        replaced(SONG_DECORATION_PATTERN@, replaced(FEAT_PATTERN@, raw, ""@), ""@),
    )
}

/// The comparison key of an album title.
pub open spec fn album_title_key(raw: Seq<char>) -> Seq<char> {
    title_key(replaced(ALBUM_DECORATION_PATTERN@, raw, ""@))
}

/// Dash-family characters, which separate words in artist names.
pub open spec fn is_dash(c: char) -> bool {
    c == '-' || c == '\u{2010}' || c == '\u{2012}' || c == '\u{2013}' || c == '\u{2014}' || c
        == '\u{2212}'
}

pub open spec fn dash_to_space(c: char) -> char {
    if is_dash(c) {
        ' '
    } else {
        c
    }
}

/// Whether a trimmed artist token names an artist.
pub open spec fn is_named_artist(t: Seq<char>) -> bool {
    t.len() > 0 && t != VARIOUS_ARTISTS@
}

/// The artist tokens of a connector-standardised name: pieces between
/// joiners, trimmed, without empty and placeholder ones.
pub open spec fn artist_tokens(s: Seq<char>) -> Seq<Seq<char>> {
    split_pat(s, ARTIST_JOINER@).map_values(|t: Seq<char>| trim_ws(t)).filter(
        |t: Seq<char>| is_named_artist(t),
    )
}

/// The distinct artist tokens, sorted and joined.
pub open spec fn artist_key(s: Seq<char>) -> Seq<char> {
    join_with(sorted_distinct(artist_tokens(s)), ARTIST_JOINER@)
}

/// The comparison key of an artist name.
pub open spec fn artist_name_key(raw: Seq<char>) -> Seq<char> {
    artist_key(
        strip_punct_spec(
            replaced(
                ARTIST_CONNECTOR_PATTERN@,
                fold_basic_spec(raw).map_values(|c| dash_to_space(c)),
                ARTIST_JOINER@,
            ),
        ),
    )
}

/// The key of a title whose decorations are already removed.
pub fn normalize_core_title(core: &str) -> (r: String)
    ensures
        r@ == title_key(core@),
{
    let base = fold_basic_chars(core);
    let stripped = string_from_chars(&strip_punct_chars(&base));
    string_from_chars(&fold_basic_chars(stripped.as_str()))
}

/// Normalises a song or track title.
pub fn normalize_song_title(raw: &str) -> (r: String)
    ensures
        r@ == song_title_key(raw@),
{
    let no_feat = replace_or_keep(FEAT_PATTERN, raw, "");
    let core = replace_or_keep(SONG_DECORATION_PATTERN, no_feat.as_str(), "");
    normalize_core_title(core.as_str())
}

/// Normalises an album title.
pub fn normalize_album_title(raw: &str) -> (r: String)
    ensures
        r@ == album_title_key(raw@),
{
    let core = replace_or_keep(ALBUM_DECORATION_PATTERN, raw, "");
    normalize_core_title(core.as_str())
}

/// The key of an artist name whose connectors are already standardised.
pub fn normalize_connected_artists(s: &str) -> (r: String)
    ensures
        r@ == artist_key(s@),
{
    let chars = chars_of(s);
    let joiner = chars_of(ARTIST_JOINER);
    proof {
        reveal_strlit(" and ");
    }
    let pieces = split_on_pattern(&chars, &joiner);
    let ghost pv = pieces@.map_values(|v: Vec<char>| v@);
    let mut kept: Vec<Vec<char>> = Vec::new();
    let mut i: usize = 0;
    while i < pieces.len()
        invariant
            i <= pieces@.len(),
            pv == pieces@.map_values(|v: Vec<char>| v@),
            kept@.map_values(|v: Vec<char>| v@) == pv.take(i as int).map_values(
                |t: Seq<char>| trim_ws(t),
            ).filter(|t: Seq<char>| is_named_artist(t)),
        decreases pieces@.len() - i,
    {
        let t = trim_chars(&pieces[i]);
        let ghost kv = kept@.map_values(|v: Vec<char>| v@);
        proof {
            let m = pv.take(i as int + 1).map_values(|t: Seq<char>| trim_ws(t));
            assert(m.drop_last() =~= pv.take(i as int).map_values(|t: Seq<char>| trim_ws(t)));
            assert(m.last() == t@);
            reveal(Seq::filter);
        }
        if t.len() > 0 && !chars_eq_str(&t, VARIOUS_ARTISTS) {
            kept.push(t);
            assert(kept@.map_values(|v: Vec<char>| v@) =~= kv.push(t@));
        }
        i = i + 1;
    }
    assert(pv.take(pieces@.len() as int) =~= pv);
    let sorted = sort_distinct(&kept);
    string_from_chars(&join_with_chars(&sorted, &joiner))
}

/// Normalises an artist name, or a list of artists joined by connectors.
pub fn normalize_artist_name(raw: &str) -> (r: String)
    ensures
        r@ == artist_name_key(raw@),
{
    let basic = fold_basic_chars(raw);
    let mut dashed: Vec<char> = Vec::new();
    let mut i: usize = 0;
    while i < basic.len()
        invariant
            i <= basic@.len(),
            dashed@ == basic@.take(i as int).map_values(|c| dash_to_space(c)),
        decreases basic@.len() - i,
    {
        let c = basic[i];
        if c == '-' || c == '\u{2010}' || c == '\u{2012}' || c == '\u{2013}' || c == '\u{2014}'
            || c == '\u{2212}' {
            dashed.push(' ');
        } else {
            dashed.push(c);
        }
        i = i + 1;
        assert(dashed@ =~= basic@.take(i as int).map_values(|c| dash_to_space(c)));
    }
    assert(basic@.take(basic@.len() as int) =~= basic@);
    let dashed_text = string_from_chars(&dashed);
    let connected = replace_or_keep(ARTIST_CONNECTOR_PATTERN, dashed_text.as_str(), ARTIST_JOINER);
    let cleaned = string_from_chars(&strip_punct_chars(&chars_of(connected.as_str())));
    normalize_connected_artists(cleaned.as_str())
}

/// The order of artists in a name does not matter: two standardised names
/// with the same artist tokens, in any order and with any repetition, have
/// the same key.
pub proof fn lemma_artist_key_order_insensitive(s: Seq<char>, t: Seq<char>)
    requires
        artist_tokens(s).to_set() == artist_tokens(t).to_set(),
    ensures
        artist_key(s) == artist_key(t),
{
}

/// Removing ASCII punctuation a second time changes nothing.
pub proof fn lemma_strip_punct_idempotent(s: Seq<char>)
    ensures
        strip_punct_spec(strip_punct_spec(s)) == strip_punct_spec(s),
    decreases s.len(),
{
    reveal(Seq::filter);
    if s.len() > 0 {
        lemma_strip_punct_idempotent(s.drop_last());
        let r = strip_punct_spec(s.drop_last());
        if !is_ascii_punct(s.last()) {
            assert(r.push(s.last()).drop_last() =~= r);
        }
    }
}

/// White space only as single spaces.
pub open spec fn single_spaced(t: Seq<char>) -> bool {
    &&& forall|i: int| 0 <= i < t.len() && white_space(#[trigger] t[i]) ==> t[i] == ' '
    &&& forall|i: int| 0 <= i < t.len() - 1 && #[trigger] t[i] == ' ' ==> t[i + 1] != ' '
}

proof fn lemma_squeeze_single_spaced(s: Seq<char>)
    ensures
        single_spaced(squeeze(s)),
    decreases s.len(),
{
    if s.len() > 0 {
        lemma_squeeze_single_spaced(s.drop_last());
        let p = squeeze(s.drop_last());
        let q = squeeze(s);
        assert forall|i: int| 0 <= i < q.len() && white_space(#[trigger] q[i]) implies q[i] == ' ' by {
            if i < p.len() {
                assert(q[i] == p[i]);
            }
        }
        assert forall|i: int| 0 <= i < q.len() - 1 && #[trigger] q[i] == ' ' implies q[i + 1] != ' ' by {
            if i + 1 < p.len() {
                assert(q[i] == p[i] && q[i + 1] == p[i + 1]);
            }
        }
    }
}

proof fn lemma_squeeze_fixed(t: Seq<char>)
    requires
        single_spaced(t),
    ensures
        squeeze(t) == t,
    decreases t.len(),
{
    if t.len() > 0 {
        let p = t.drop_last();
        assert(single_spaced(p)) by {
            assert forall|i: int| 0 <= i < p.len() && white_space(#[trigger] p[i]) implies p[i] == ' ' by {
                assert(p[i] == t[i]);
            }
            assert forall|i: int| 0 <= i < p.len() - 1 && #[trigger] p[i] == ' ' implies p[i + 1] != ' ' by {
                assert(p[i] == t[i] && p[i + 1] == t[i + 1]);
            }
        }
        lemma_squeeze_fixed(p);
        assert(t.last() == t[t.len() - 1]);
        if white_space(t.last()) && p.len() > 0 {
            assert(p.last() == t[t.len() - 2]);
        }
        assert(p.push(t.last()) =~= t);
    }
}

/// Collapsing white space a second time changes nothing.
pub proof fn lemma_collapse_white_space_idempotent(s: Seq<char>)
    ensures
        collapse_white_space(collapse_white_space(s)) == collapse_white_space(s),
{
    lemma_squeeze_single_spaced(s);
    let q = squeeze(s);
    let t = collapse_white_space(s);
    let a = if q.len() > 0 && q[0] == ' ' {
        q.skip(1)
    } else {
        q
    };
    assert(single_spaced(a)) by {
        if q.len() > 0 && q[0] == ' ' {
            assert forall|i: int| 0 <= i < a.len() && white_space(#[trigger] a[i]) implies a[i] == ' ' by {
                assert(a[i] == q[i + 1]);
            }
            assert forall|i: int| 0 <= i < a.len() - 1 && #[trigger] a[i] == ' ' implies a[i + 1] != ' ' by {
                assert(a[i] == q[i + 1] && a[i + 1] == q[i + 2]);
            }
        }
    }
    assert(single_spaced(t)) by {
        if a.len() > 0 && a.last() == ' ' {
            assert forall|i: int| 0 <= i < t.len() && white_space(#[trigger] t[i]) implies t[i] == ' ' by {
                assert(t[i] == a[i]);
            }
            assert forall|i: int| 0 <= i < t.len() - 1 && #[trigger] t[i] == ' ' implies t[i + 1] != ' ' by {
                assert(t[i] == a[i] && t[i + 1] == a[i + 1]);
            }
        }
    }
    lemma_squeeze_fixed(t);
    if t.len() > 0 {
        assert(t[0] != ' ') by {
            if q.len() > 0 && q[0] == ' ' {
                assert(a.len() > 0 ==> a[0] == q[1]);
            }
            if a.len() > 0 && a.last() == ' ' {
                assert(t[0] == a[0]);
                if a.len() >= 2 {
                    assert(a[a.len() - 2] == ' ' ==> a[a.len() - 1] != ' ');
                }
            }
        }
        assert(t.last() != ' ') by {
            if a.len() > 0 && a.last() == ' ' {
                assert(t.last() == a[a.len() - 2]);
                assert(a[a.len() - 2] == ' ' ==> a[a.len() - 1] != ' ');
            }
        }
    }
}

} // verus!
