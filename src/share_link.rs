//! Share links: parsing a provider URL into a typed link, and back.
use vstd::prelude::*;
use crate::text::{
    chars_eq_str, chars_of, is_ascii_upper, join_chars, join_on, lemma_split_join,
    lemma_join_avoids, lemma_split_on_avoids, lemma_split_on_pieces, lower_chars, lower_seq, split_chars, split_on, string_from_chars,
    upper_chars, upper_seq,
};

verus! {

/// Why a URL is not accepted as a share link.
#[derive(Clone, Copy, Debug, PartialEq, Eq, Structural)]
pub enum ShareLinkError {
    /// The scheme or the authority part of the URL is structurally wrong.
    InvalidUrl,
    /// A well-formed URL of a host that is not a supported provider.
    NotAShareLink,
    /// A supported host, with a path that does not follow its grammar.
    MalformedOrInvalidLink,
}

/// The message shown for an error.
pub open spec fn link_error_message(e: ShareLinkError) -> Seq<char> {
    match e {
        ShareLinkError::InvalidUrl => "The provided URL is invalid."@,
        ShareLinkError::NotAShareLink => "The provided URL is not an accepted share link."@,
        ShareLinkError::MalformedOrInvalidLink => "The provided share link is invalid or malformed."@,
    }
}

impl ShareLinkError {
    pub fn message(&self) -> (r: String)
        ensures
            r@ == link_error_message(*self),
    {
        match self {
            ShareLinkError::InvalidUrl => String::from_str("The provided URL is invalid."),
            ShareLinkError::NotAShareLink => String::from_str(
                "The provided URL is not an accepted share link.",
            ),
            ShareLinkError::MalformedOrInvalidLink => String::from_str(
                "The provided share link is invalid or malformed.",
            ),
        }
    }
}

/// A streaming platform.
#[derive(Clone, Copy, Debug, PartialEq, Eq, Structural)]
pub enum LinkType {
    Spotify,
    Tidal,
    AppleMusic,
    Deezer,
}

pub open spec fn link_type_name(t: LinkType) -> Seq<char> {
    match t {
        LinkType::Spotify => "Spotify"@,
        LinkType::Tidal => "Tidal"@,
        LinkType::Deezer => "Deezer"@,
        LinkType::AppleMusic => "AppleMusic"@,
    }
}

impl LinkType {
    /// The platform's name, as used in conversion results.
    pub fn to_string(&self) -> (r: String)
        ensures
            r@ == link_type_name(*self),
    {
        match self {
            LinkType::Tidal => String::from_str("Tidal"),
            LinkType::Spotify => String::from_str("Spotify"),
            LinkType::Deezer => String::from_str("Deezer"),
            LinkType::AppleMusic => String::from_str("AppleMusic"),
        }
    }
}

/// The kind of catalogue object a link points at.
#[derive(Clone, Copy, Debug, PartialEq, Eq, Structural)]
pub enum ShareObject {
    Song,
    Album,
    Artist,
}

/// Whether `code` is an assigned ISO 3166-1 alpha-2 code.
pub uninterp spec fn alpha2_assigned(code: Seq<char>) -> bool;

/// Relies on `rust_iso3166::from_alpha2`: an exact lookup in the table of the
/// 249 assigned alpha-2 codes, each of two upper-case ASCII letters; the code
/// found is the key looked up.
#[verifier::external_body]
fn lookup_alpha2(code: &str) -> (r: Option<String>)
    ensures
        r is Some == alpha2_assigned(code@),
        r matches Some(c) ==> c@ == code@,
        r is Some ==> code@.len() == 2 && is_ascii_upper(code@[0]) && is_ascii_upper(code@[1]),
        code@ == "US"@ ==> r is Some,
{
    rust_iso3166::from_alpha2(code).map(|c| c.alpha2.to_string())
}

/// A valid ISO 3166-1 alpha-2 country code: two upper-case ASCII letters.
pub open spec fn valid_country(code: Seq<char>) -> bool {
    &&& alpha2_assigned(code)
    &&& code.len() == 2
    &&& is_ascii_upper(code[0])
    &&& is_ascii_upper(code[1])
}

/// An assigned ISO 3166-1 alpha-2 country code.
#[derive(Clone, Debug, PartialEq, Eq)]
pub struct CountryCode {
    alpha2: String,
}

impl View for CountryCode {
    type V = Seq<char>;

    closed spec fn view(&self) -> Seq<char> {
        self.alpha2@
    }
}

impl CountryCode {
    pub open spec fn wf(&self) -> bool {
        valid_country(self@)
    }

    /// The country with the given alpha-2 code, matched exactly.
    pub fn from_alpha2(code: &str) -> (r: Option<CountryCode>)
        ensures
            r is Some == alpha2_assigned(code@),
            r matches Some(c) ==> c@ == code@ && c.wf(),
            code@ == "US"@ ==> r is Some,
    {
        match lookup_alpha2(code) {
            Some(a) => Some(CountryCode { alpha2: a }),
            None => None,
        }
    }

    /// The United States, the default country of links that carry none.
    pub fn us() -> (r: CountryCode)
        ensures
            r@ == "US"@,
            r.wf(),
    {
        match CountryCode::from_alpha2("US") {
            Some(c) => c,
            None => {
                assert(false);
                CountryCode { alpha2: String::from_str("US") }
            },
        }
    }

    /// A copy of this code.
    pub fn copy(&self) -> (r: CountryCode)
        ensures
            r@ == self@,
    {
        CountryCode { alpha2: self.alpha2.clone() }
    }

    /// The upper-case alpha-2 code.
    pub fn alpha2(&self) -> (r: String)
        ensures
            r@ == self@,
    {
        self.alpha2.clone()
    }
}

} // verus!

verus! {

/// The parsed content of a share link.
pub struct LinkModel {
    pub link_type: LinkType,
    pub share_obj: ShareObject,
    pub country: Seq<char>,
    pub id: Seq<char>,
}

/// The provider a host name belongs to.
pub open spec fn host_platform(host: Seq<char>) -> Option<LinkType> {
    if host == "open.spotify.com"@ {
        Some(LinkType::Spotify)
    } else if host == "tidal.com"@ {
        Some(LinkType::Tidal)
    } else if host == "music.apple.com"@ {
        Some(LinkType::AppleMusic)
    } else if host == "www.deezer.com"@ {
        Some(LinkType::Deezer)
    } else {
        None
    }
}

/// The object-type keywords every provider accepts.
pub open spec fn is_object_keyword(seg: Seq<char>) -> bool {
    seg == "track"@ || seg == "album"@ || seg == "artist"@
}

/// The object kind named by a path segment on the given platform.
pub open spec fn object_of(t: LinkType, seg: Seq<char>) -> Option<ShareObject> {
    if seg == "track"@ {
        Some(ShareObject::Song)
    } else if seg == "album"@ {
        Some(ShareObject::Album)
    } else if seg == "artist"@ {
        Some(ShareObject::Artist)
    } else if seg == "song"@ && t == LinkType::AppleMusic {
        Some(ShareObject::Song)
    } else {
        None
    }
}

/// A Spotify locale segment: `intl-` followed by two characters.
pub open spec fn is_locale_segment(seg: Seq<char>) -> bool {
    &&& seg.len() == 7
    &&& seg[0] == 'i'
    &&& seg[1] == 'n'
    &&& seg[2] == 't'
    &&& seg[3] == 'l'
    &&& seg[4] == '-'
}

/// Index of the first `?` in `s`, or its length when there is none.
pub open spec fn query_start(s: Seq<char>) -> int
    decreases s.len(),
{
    if s.len() == 0 {
        0
    } else {
        let k = query_start(s.drop_last());
        if k < s.len() - 1 {
            k
        } else if s.last() == '?' {
            s.len() - 1
        } else {
            s.len() as int
        }
    }
}

/// The id held by the last path segment; none when the segment is empty.
pub open spec fn id_of(seg: Seq<char>) -> Option<Seq<char>> {
    if seg.len() == 0 {
        None
    } else {
        Some(seg)
    }
}

/// The path from the object-type segment at `k` on, with the country fixed.
pub open spec fn parse_tail(t: LinkType, g: Seq<Seq<char>>, k: int, country: Seq<char>) -> Result<
    LinkModel,
    ShareLinkError,
> {
    let last = if t == LinkType::AppleMusic {
        k + 2
    } else {
        k + 1
    };
    if g.len() <= k || object_of(t, g[k]) is None || g.len() != last + 1 || id_of(g[last]) is None {
        Err(ShareLinkError::MalformedOrInvalidLink)
    } else {
        Ok(
            LinkModel {
                link_type: t,
                share_obj: object_of(t, g[k])->Some_0,
                country,
                id: id_of(g[last])->Some_0,
            },
        )
    }
}

/// The share link that the `/`-separated pieces of a URL denote.
pub open spec fn parse_segments(g: Seq<Seq<char>>) -> Result<LinkModel, ShareLinkError> {
    if g.len() < 3 || g[0] != "https:"@ || g[1].len() != 0 {
        Err(ShareLinkError::InvalidUrl)
    } else if host_platform(g[2]) is None {
        Err(ShareLinkError::NotAShareLink)
    } else {
        let t = host_platform(g[2])->Some_0;
        match t {
            LinkType::Spotify => {
                if g.len() < 4 {
                    Err(ShareLinkError::MalformedOrInvalidLink)
                } else if is_locale_segment(g[3]) {
                    let cc = upper_seq(g[3].subrange(5, 7));
                    if alpha2_assigned(cc) {
                        parse_tail(t, g, 4, cc)
                    } else {
                        Err(ShareLinkError::MalformedOrInvalidLink)
                    }
                } else if is_object_keyword(g[3]) {
                    parse_tail(t, g, 3, "US"@)
                } else {
                    Err(ShareLinkError::MalformedOrInvalidLink)
                }
            },
            LinkType::Tidal => {
                if g.len() >= 4 && g[3] == "browse"@ {
                    parse_tail(t, g, 4, "US"@)
                } else {
                    Err(ShareLinkError::MalformedOrInvalidLink)
                }
            },
            LinkType::AppleMusic => {
                if g.len() >= 4 && alpha2_assigned(upper_seq(g[3])) {
                    parse_tail(t, g, 4, upper_seq(g[3]))
                } else {
                    Err(ShareLinkError::MalformedOrInvalidLink)
                }
            },
            LinkType::Deezer => parse_tail(t, g, 3, "US"@),
        }
    }
}

/// The part of a URL before its query string.
pub open spec fn before_query(url: Seq<char>) -> Seq<char> {
    url.take(query_start(url))
}

/// The share link a URL denotes, or why it denotes none. Parsing stops at
/// the first `?`.
pub open spec fn parse_url(url: Seq<char>) -> Result<LinkModel, ShareLinkError> {
    parse_segments(split_on(before_query(url), '/'))
}

/// A typed share link.
#[derive(Clone, Debug, PartialEq)]
pub struct ShareLink {
    pub link_type: LinkType,
    pub country_code: CountryCode,
    pub share_obj: ShareObject,
    pub id: String,
}

impl View for ShareLink {
    type V = LinkModel;

    open spec fn view(&self) -> LinkModel {
        LinkModel {
            link_type: self.link_type,
            share_obj: self.share_obj,
            country: self.country_code@,
            id: self.id@,
        }
    }
}

/// A link model whose id holds no path separator or query string, and whose
/// country is a valid code.
pub open spec fn link_model_wf(l: LinkModel) -> bool {
    &&& valid_country(l.country)
    &&& l.id.len() > 0
    &&& !l.id.contains('/')
    &&& !l.id.contains('?')
}

pub open spec fn parse_result_view(r: Result<ShareLink, ShareLinkError>) -> Result<
    LinkModel,
    ShareLinkError,
> {
    match r {
        Ok(l) => Ok(l@),
        Err(e) => Err(e),
    }
}

fn host_of(seg: &Vec<char>) -> (r: Option<LinkType>)
    ensures
        r == host_platform(seg@),
{
    if chars_eq_str(seg, "open.spotify.com") {
        Some(LinkType::Spotify)
    } else if chars_eq_str(seg, "tidal.com") {
        Some(LinkType::Tidal)
    } else if chars_eq_str(seg, "music.apple.com") {
        Some(LinkType::AppleMusic)
    } else if chars_eq_str(seg, "www.deezer.com") {
        Some(LinkType::Deezer)
    } else {
        None
    }
}

fn object_kind(t: LinkType, seg: &Vec<char>) -> (r: Option<ShareObject>)
    ensures
        r == object_of(t, seg@),
{
    if chars_eq_str(seg, "track") {
        Some(ShareObject::Song)
    } else if chars_eq_str(seg, "album") {
        Some(ShareObject::Album)
    } else if chars_eq_str(seg, "artist") {
        Some(ShareObject::Artist)
    } else if chars_eq_str(seg, "song") && t == LinkType::AppleMusic {
        Some(ShareObject::Song)
    } else {
        None
    }
}

/// The characters before the first `?`.
fn cut_query(seg: &Vec<char>) -> (r: Vec<char>)
    ensures
        r@ == before_query(seg@),
{
    let mut out: Vec<char> = Vec::new();
    let mut k: usize = 0;
    let mut i: usize = 0;
    while i < seg.len()
        invariant
            i <= seg@.len(),
            k <= i,
            k == query_start(seg@.take(i as int)),
            out@ == seg@.take(k as int),
        decreases seg@.len() - i,
    {
        let c = seg[i];
        proof {
            let t = seg@.take(i as int + 1);
            assert(t.drop_last() =~= seg@.take(i as int));
            assert(t.last() == c);
        }
        if k == i && c != '?' {
            out.push(c);
            k = i + 1;
            assert(out@ =~= seg@.take(k as int));
        }
        i = i + 1;
    }
    assert(seg@.take(seg@.len() as int) =~= seg@);
    out
}

fn tail_link(
    t: LinkType,
    segs: &Vec<Vec<char>>,
    k: usize,
    country: CountryCode,
    Ghost(g): Ghost<Seq<Seq<char>>>,
) -> (r: Result<ShareLink, ShareLinkError>)
    requires
        g == segs@.map_values(|v: Vec<char>| v@),
        k <= 5,
        country.wf(),
    ensures
        parse_result_view(r) == parse_tail(t, g, k as int, country@),
        r matches Ok(l) ==> l.country_code.wf(),
{
    let last: usize = if t == LinkType::AppleMusic {
        k + 2
    } else {
        k + 1
    };
    if segs.len() <= k {
        return Err(ShareLinkError::MalformedOrInvalidLink);
    }
    let obj = match object_kind(t, &segs[k]) {
        Some(o) => o,
        None => return Err(ShareLinkError::MalformedOrInvalidLink),
    };
    if segs.len() != last + 1 {
        return Err(ShareLinkError::MalformedOrInvalidLink);
    }
    if segs[last].len() == 0 {
        return Err(ShareLinkError::MalformedOrInvalidLink);
    }
    let id = segs[last].clone();
    Ok(ShareLink { link_type: t, country_code: country, share_obj: obj, id: string_from_chars(&id) })
}

fn lookup_country(code: &Vec<char>) -> (r: Option<CountryCode>)
    ensures
        r is Some == alpha2_assigned(upper_seq(code@)),
        r matches Some(c) ==> c@ == upper_seq(code@) && c.wf(),
{
    let up = upper_chars(code);
    let s = string_from_chars(&up);
    CountryCode::from_alpha2(s.as_str())
}

impl ShareLink {
    /// Parses a provider URL into a share link.
    pub fn from_url(url: &str) -> (r: Result<ShareLink, ShareLinkError>)
        ensures
            parse_result_view(r) == parse_url(url@),
            r matches Ok(l) ==> link_model_wf(l@),
    {
        let r = ShareLink::parse(url);
        proof {
            if r is Ok {
                lemma_parse_id(url@);
            }
        }
        r
    }

    fn parse(url: &str) -> (r: Result<ShareLink, ShareLinkError>)
        ensures
            parse_result_view(r) == parse_url(url@),
            r matches Ok(l) ==> l.country_code.wf(),
    {
        let chars = cut_query(&chars_of(url));
        let segs = split_chars(&chars, '/');
        let ghost g = segs@.map_values(|v: Vec<char>| v@);
        if segs.len() < 3 || !chars_eq_str(&segs[0], "https:") || segs[1].len() != 0 {
            return Err(ShareLinkError::InvalidUrl);
        }
        let t = match host_of(&segs[2]) {
            Some(t) => t,
            None => return Err(ShareLinkError::NotAShareLink),
        };
        match t {
            LinkType::Spotify => {
                if segs.len() < 4 {
                    return Err(ShareLinkError::MalformedOrInvalidLink);
                }
                let seg = &segs[3];
                if seg.len() == 7 && seg[0] == 'i' && seg[1] == 'n' && seg[2] == 't' && seg[3]
                    == 'l' && seg[4] == '-' {
                    let code = vec![seg[5], seg[6]];
                    assert(code@ =~= g[3].subrange(5, 7));
                    match lookup_country(&code) {
                        Some(cc) => tail_link(t, &segs, 4, cc, Ghost(g)),
                        None => Err(ShareLinkError::MalformedOrInvalidLink),
                    }
                } else if chars_eq_str(seg, "track") || chars_eq_str(seg, "album")
                    || chars_eq_str(seg, "artist") {
                    tail_link(t, &segs, 3, CountryCode::us(), Ghost(g))
                } else {
                    Err(ShareLinkError::MalformedOrInvalidLink)
                }
            },
            LinkType::Tidal => {
                if segs.len() >= 4 && chars_eq_str(&segs[3], "browse") {
                    tail_link(t, &segs, 4, CountryCode::us(), Ghost(g))
                } else {
                    Err(ShareLinkError::MalformedOrInvalidLink)
                }
            },
            LinkType::AppleMusic => {
                if segs.len() < 4 {
                    return Err(ShareLinkError::MalformedOrInvalidLink);
                }
                match lookup_country(&segs[3]) {
                    Some(cc) => tail_link(t, &segs, 4, cc, Ghost(g)),
                    None => Err(ShareLinkError::MalformedOrInvalidLink),
                }
            },
            LinkType::Deezer => tail_link(t, &segs, 3, CountryCode::us(), Ghost(g)),
        }
    }
}

} // verus!

verus! {

/// The object-type segment of a platform's canonical URL.
pub open spec fn object_segment(t: LinkType, o: ShareObject) -> Seq<char> {
    match o {
        ShareObject::Song => if t == LinkType::AppleMusic {
            "song"@
        } else {
            "track"@
        },
        ShareObject::Album => "album"@,
        ShareObject::Artist => "artist"@,
    }
}

/// The `/`-separated pieces of a link's canonical URL. Apple Music URLs carry
/// the lower-case country and a placeholder name segment; Spotify URLs carry
/// an `intl-` locale segment when the country is not the default `US`;
/// Tidal and Deezer URLs carry no country.
pub open spec fn url_segments(l: LinkModel) -> Seq<Seq<char>> {
    let obj = object_segment(l.link_type, l.share_obj);
    match l.link_type {
        LinkType::Spotify => if l.country == "US"@ {
            seq!["https:"@, Seq::empty(), "open.spotify.com"@, obj, l.id]
        } else {
            seq![
                "https:"@,
                Seq::empty(),
                "open.spotify.com"@,
                "intl-"@ + lower_seq(l.country),
                obj,
                l.id,
            ]
        },
        LinkType::Tidal => seq!["https:"@, Seq::empty(), "tidal.com"@, "browse"@, obj, l.id],
        LinkType::Deezer => seq!["https:"@, Seq::empty(), "www.deezer.com"@, obj, l.id],
        LinkType::AppleMusic => seq![
            "https:"@,
            Seq::empty(),
            "music.apple.com"@,
            lower_seq(l.country),
            obj,
            "-"@,
            l.id,
        ],
    }
}

/// A link's canonical URL.
pub open spec fn url_of(l: LinkModel) -> Seq<char> {
    join_on(url_segments(l), '/')
}

fn object_segment_str(t: LinkType, o: ShareObject) -> (r: &'static str)
    ensures
        r@ == object_segment(t, o),
{
    match o {
        ShareObject::Song => if t == LinkType::AppleMusic {
            "song"
        } else {
            "track"
        },
        ShareObject::Album => "album",
        ShareObject::Artist => "artist",
    }
}

impl ShareLink {
    /// A link to `id` on the given platform.
    pub fn new(link_type: LinkType, share_obj: ShareObject, id: &str, country_code: &CountryCode) -> (r:
        ShareLink)
        ensures
            r@ == (LinkModel { link_type, share_obj, country: country_code@, id: id@ }),
    {
        ShareLink {
            link_type,
            country_code: country_code.copy(),
            share_obj,
            id: String::from_str(id),
        }
    }

    /// A copy of this link.
    pub fn copy(&self) -> (r: ShareLink)
        ensures
            r@ == self@,
    {
        ShareLink::new(self.link_type, self.share_obj, self.id.as_str(), &self.country_code)
    }

    /// The canonical URL of this link.
    pub fn to_url(&self) -> (r: String)
        ensures
            r@ == url_of(self@),
    {
        let obj = chars_of(object_segment_str(self.link_type, self.share_obj));
        let id = chars_of(self.id.as_str());
        let empty: Vec<char> = Vec::new();
        let segs: Vec<Vec<char>> = match self.link_type {
            LinkType::Spotify => {
                let code = chars_of(self.country_code.alpha2().as_str());
                if chars_eq_str(&code, "US") {
                    vec![chars_of("https:"), empty, chars_of("open.spotify.com"), obj, id]
                } else {
                    let mut locale = String::from_str("intl-");
                    let lower = string_from_chars(&lower_chars(&code));
                    locale.append(lower.as_str());
                    vec![
                        chars_of("https:"),
                        empty,
                        chars_of("open.spotify.com"),
                        chars_of(locale.as_str()),
                        obj,
                        id,
                    ]
                }
            },
            LinkType::Tidal => vec![
                chars_of("https:"),
                empty,
                chars_of("tidal.com"),
                chars_of("browse"),
                obj,
                id,
            ],
            LinkType::Deezer => vec![chars_of("https:"), empty, chars_of("www.deezer.com"), obj, id],
            LinkType::AppleMusic => {
                let cc = lower_chars(&chars_of(self.country_code.alpha2().as_str()));
                vec![chars_of("https:"), empty, chars_of("music.apple.com"), cc, obj, chars_of("-"), id]
            },
        };
        assert(segs@.map_values(|v: Vec<char>| v@) =~= url_segments(self@));
        string_from_chars(&join_chars(&segs, '/'))
    }
}

/// The id read from a segment holds no query string.
pub proof fn lemma_query_start(s: Seq<char>)
    ensures
        0 <= query_start(s) <= s.len(),
        !s.take(query_start(s)).contains('?'),
        !s.contains('?') ==> query_start(s) == s.len(),
    decreases s.len(),
{
    if s.len() > 0 {
        let p = s.drop_last();
        lemma_query_start(p);
        let k = query_start(s);
        assert(s.take(k) =~= p.take(k) || k == s.len());
        if k == s.len() {
            assert forall|j: int| 0 <= j < s.len() implies s[j] != '?' by {
                if j < p.len() {
                    assert(p.take(query_start(p))[j] == s[j]);
                }
            }
        }
        if !s.contains('?') {
            assert(!p.contains('?')) by {
                assert forall|j: int| 0 <= j < p.len() implies p[j] != '?' by {
                    assert(p[j] == s[j]);
                }
            }
            assert(s.last() == s[s.len() - 1]);
        }
    }
}

/// The pieces of the part of a URL before its query string hold no path
/// separator or `?`.
pub proof fn lemma_url_pieces(url: Seq<char>)
    ensures
        !before_query(url).contains('?'),
        forall|i: int|
            0 <= i < split_on(before_query(url), '/').len() ==> !split_on(before_query(url), '/')[i].contains('/')
                && !split_on(before_query(url), '/')[i].contains('?'),
{
    lemma_query_start(url);
    lemma_split_on_pieces(before_query(url), '/');
    lemma_split_on_avoids(before_query(url), '/', '?');
}

/// A parsed link's id is not empty and holds no path separator or query
/// string.
pub proof fn lemma_parse_id(url: Seq<char>)
    requires
        parse_url(url) is Ok,
    ensures
        parse_url(url)->Ok_0.id.len() > 0,
        !parse_url(url)->Ok_0.id.contains('/'),
        !parse_url(url)->Ok_0.id.contains('?'),
{
    lemma_url_pieces(url);
    let g = split_on(before_query(url), '/');
    assert(parse_url(url)->Ok_0.id == g[g.len() - 1]);
}

proof fn lemma_upper_lower_upper(x: Seq<char>)
    ensures
        upper_seq(lower_seq(upper_seq(x))) == upper_seq(x),
{
    assert(upper_seq(lower_seq(upper_seq(x))) =~= upper_seq(x));
}

/// A URL joined from pieces without `?` has no query string.
proof fn lemma_url_of_whole(g: Seq<Seq<char>>)
    requires
        forall|i: int| 0 <= i < g.len() ==> !g[i].contains('?'),
    ensures
        before_query(join_on(g, '/')) == join_on(g, '/'),
{
    lemma_join_avoids(g, '/', '?');
    lemma_query_start(join_on(g, '/'));
    assert(join_on(g, '/').take(join_on(g, '/').len() as int) =~= join_on(g, '/'));
}

/// Parsing the canonical URL of a parsed link gives that link back.
pub proof fn lemma_url_round_trip(url: Seq<char>)
    requires
        parse_url(url) is Ok,
    ensures
        parse_url(url_of(parse_url(url)->Ok_0)) == parse_url(url),
{
    let l = parse_url(url)->Ok_0;
    let g0 = split_on(before_query(url), '/');
    lemma_url_pieces(url);
    lemma_parse_id(url);
    reveal_strlit("https:");
    reveal_strlit("open.spotify.com");
    reveal_strlit("tidal.com");
    reveal_strlit("music.apple.com");
    reveal_strlit("www.deezer.com");
    reveal_strlit("browse");
    reveal_strlit("track");
    reveal_strlit("album");
    reveal_strlit("artist");
    reveal_strlit("song");
    reveal_strlit("-");
    reveal_strlit("US");
    reveal_strlit("intl-");
    let g = url_segments(l);
    if l.link_type == LinkType::Spotify && l.country != "US"@ {
        let raw = g0[3].subrange(5, 7);
        assert(l.country == upper_seq(raw));
        lemma_upper_lower_upper(raw);
        let loc = "intl-"@ + lower_seq(l.country);
        assert(loc.subrange(5, 7) =~= lower_seq(l.country));
        assert(!loc.contains('/') && !loc.contains('?')) by {
            assert forall|j: int| 0 <= j < loc.len() implies loc[j] != '/' && loc[j] != '?' by {
                if j >= 5 {
                    assert(raw[j - 5] == g0[3][j]);
                }
            }
        }
        assert(is_locale_segment(loc));
        assert(upper_seq(loc.subrange(5, 7)) == l.country);
        assert(alpha2_assigned(l.country));
        assert forall|i: int| 0 <= i < g.len() implies !g[i].contains('/') && !g[i].contains('?') by {}
        lemma_split_join(g, '/');
        lemma_url_of_whole(g);
        assert(g[3] == loc);
        assert(parse_segments(g) == parse_tail(LinkType::Spotify, g, 4, l.country));
    } else {
        if l.link_type == LinkType::AppleMusic {
            let raw = g0[3];
            assert(l.country == upper_seq(raw));
            lemma_upper_lower_upper(raw);
            assert(!lower_seq(l.country).contains('/') && !lower_seq(l.country).contains('?')) by {
                assert forall|j: int| 0 <= j < lower_seq(l.country).len() implies lower_seq(
                    l.country,
                )[j] != '/' && lower_seq(l.country)[j] != '?' by {
                    assert(raw[j] != '/' && raw[j] != '?');
                }
            }
        }
        assert forall|i: int| 0 <= i < g.len() implies !g[i].contains('/') && !g[i].contains('?') by {}
        lemma_split_join(g, '/');
        lemma_url_of_whole(g);
    }
}

} // verus!
