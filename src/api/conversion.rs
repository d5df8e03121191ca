//! Planning a conversion and assembling what the providers found.
use vstd::prelude::*;
use crate::api::{api_error_message, ApiError};
use crate::share_link::{
    link_error_message, link_type_name, parse_url, url_of, LinkModel, LinkType, ShareLink,
    ShareLinkError, ShareObject,
};
use crate::shared_item::{data_display_name, data_kind, data_type_name, object_name, Data};

verus! {

/// Why a conversion failed as a whole.
#[derive(Clone, Copy, Debug, PartialEq, Eq, Structural)]
pub enum ConversionError {
    ApiClient(ApiError),
    Link(ShareLinkError),
}

impl ConversionError {
    pub fn message(&self) -> (r: String)
        ensures
            r@ == match *self {
                ConversionError::ApiClient(e) => api_error_message(e),
                ConversionError::Link(e) => link_error_message(e),
            },
    {
        match self {
            ConversionError::ApiClient(e) => e.message(),
            ConversionError::Link(e) => e.message(),
        }
    }
}

/// One entry of a conversion result.
#[derive(Debug, Clone, PartialEq)]
pub struct Link {
    pub provider: String,
    pub object_type: String,
    pub display_name: String,
    pub url: String,
    pub artwork: String,
}

pub struct LinkView {
    pub provider: Seq<char>,
    pub object_type: Seq<char>,
    pub display_name: Seq<char>,
    pub url: Seq<char>,
    pub artwork: Seq<char>,
}

impl View for Link {
    type V = LinkView;

    open spec fn view(&self) -> LinkView {
        LinkView {
            provider: self.provider@,
            object_type: self.object_type@,
            display_name: self.display_name@,
            url: self.url@,
            artwork: self.artwork@,
        }
    }
}

/// The entry for a link, the provider's data for it, and its artwork.
pub open spec fn entry_of(link: LinkModel, data: Data, artwork: Seq<char>) -> LinkView {
    LinkView {
        provider: link_type_name(link.link_type),
        object_type: data_type_name(data),
        display_name: data_display_name(data),
        url: url_of(link),
        artwork,
    }
}

impl Link {
    pub fn new(link: &ShareLink, data: &Data, artwork: &str) -> (r: Link)
        ensures
            r@ == entry_of(link@, *data, artwork@),
    {
        Link {
            provider: link.link_type.to_string(),
            object_type: data.get_type(),
            display_name: data.get_display_name(),
            url: link.to_url(),
            artwork: String::from_str(artwork),
        }
    }
}

/// The entries of a conversion, in provider order.
#[derive(Debug, Clone)]
pub struct ConversionResults {
    pub results: Vec<Link>,
}

/// The providers that credentials were configured for.
#[derive(Clone, Copy, Debug, PartialEq, Eq, Structural)]
pub struct ApiClients {
    pub spotify: bool,
    pub tidal: bool,
    pub deezer: bool,
    pub apple_music: bool,
}

/// The order in which providers are consulted and listed.
pub open spec fn provider_order() -> Seq<LinkType> {
    seq![LinkType::Spotify, LinkType::Tidal, LinkType::Deezer, LinkType::AppleMusic]
}

pub open spec fn is_configured(c: ApiClients, t: LinkType) -> bool {
    match t {
        LinkType::Spotify => c.spotify,
        LinkType::Tidal => c.tidal,
        LinkType::Deezer => c.deezer,
        LinkType::AppleMusic => c.apple_music,
    }
}

/// What `convert` does before any provider is asked: the parsed link, or
/// the error that ends the conversion.
pub open spec fn plan_spec(url: Seq<char>, c: ApiClients) -> Result<LinkModel, ConversionError> {
    match parse_url(url) {
        Err(e) => Err(ConversionError::Link(e)),
        Ok(l) => if is_configured(c, l.link_type) {
            Ok(l)
        } else {
            Err(ConversionError::ApiClient(ApiError::UnsupportedFeature))
        },
    }
}

impl ApiClients {
    pub fn is_supported(&self, t: LinkType) -> (r: bool)
        ensures
            r == is_configured(*self, t),
    {
        match t {
            LinkType::Spotify => self.spotify,
            LinkType::Tidal => self.tidal,
            LinkType::Deezer => self.deezer,
            LinkType::AppleMusic => self.apple_music,
        }
    }

    /// The configured providers, in provider order.
    pub fn get_supported_clients(&self) -> (r: Vec<LinkType>)
        ensures
            r@ == provider_order().filter(|t: LinkType| is_configured(*self, t)),
    {
        let order = vec![LinkType::Spotify, LinkType::Tidal, LinkType::Deezer, LinkType::AppleMusic];
        assert(order@ =~= provider_order());
        let mut out: Vec<LinkType> = Vec::new();
        let mut i: usize = 0;
        while i < order.len()
            invariant
                i <= order@.len(),
                order@ == provider_order(),
                out@ == order@.take(i as int).filter(|t: LinkType| is_configured(*self, t)),
            decreases order@.len() - i,
        {
            proof {
                let t = order@.take(i as int + 1);
                assert(t.drop_last() =~= order@.take(i as int));
                reveal(Seq::filter);
            }
            if self.is_supported(order[i]) {
                out.push(order[i]);
            }
            i = i + 1;
        }
        assert(order@.take(order@.len() as int) =~= order@);
        out
    }
}

/// Parses the URL and checks that its provider is configured.
pub fn plan_conversion(url: &str, clients: &ApiClients) -> (r: Result<ShareLink, ConversionError>)
    ensures
        match r {
            Ok(l) => plan_spec(url@, *clients) == Ok::<LinkModel, ConversionError>(l@),
            Err(e) => plan_spec(url@, *clients) == Err::<LinkModel, ConversionError>(e),
        },
{
    match ShareLink::from_url(url) {
        Err(e) => Err(ConversionError::Link(e)),
        Ok(l) => if clients.is_supported(l.link_type) {
            Ok(l)
        } else {
            Err(ConversionError::ApiClient(ApiError::UnsupportedFeature))
        },
    }
}

/// What one provider found: its link, its own data for it, and the artwork.
pub struct ProviderMatch {
    pub link: ShareLink,
    pub data: Data,
    pub artwork: String,
}

/// The entries for a run of provider outcomes: one for each success, in
/// order; failures leave no entry.
pub open spec fn results_spec(outcomes: Seq<Result<ProviderMatch, ApiError>>) -> Seq<LinkView>
    decreases outcomes.len(),
{
    if outcomes.len() == 0 {
        Seq::empty()
    } else {
        results_spec(outcomes.drop_last()) + match outcomes.last() {
            Ok(m) => seq![entry_of(m.link@, m.data, m.artwork@)],
            Err(_) => Seq::<LinkView>::empty(),
        }
    }
}

/// Assembles the providers' outcomes into the conversion result.
pub fn assemble_results(outcomes: &Vec<Result<ProviderMatch, ApiError>>) -> (r: ConversionResults)
    ensures
        r.results@.map_values(|l: Link| l@) == results_spec(outcomes@),
{
    let mut results: Vec<Link> = Vec::new();
    let mut i: usize = 0;
    while i < outcomes.len()
        invariant
            i <= outcomes@.len(),
            results@.map_values(|l: Link| l@) == results_spec(outcomes@.take(i as int)),
        decreases outcomes@.len() - i,
    {
        proof {
            let t = outcomes@.take(i as int + 1);
            assert(t.drop_last() =~= outcomes@.take(i as int));
        }
        let ghost before = results@.map_values(|l: Link| l@);
        match &outcomes[i] {
            Ok(m) => {
                let entry = Link::new(&m.link, &m.data, m.artwork.as_str());
                results.push(entry);
                assert(results@.map_values(|l: Link| l@) =~= before + seq![entry@]);
            },
            Err(_) => {
                assert(before + Seq::<LinkView>::empty() =~= before);
            },
        }
        i = i + 1;
    }
    assert(outcomes@.take(outcomes@.len() as int) =~= outcomes@);
    ConversionResults { results }
}

/// Where one provider's part of a conversion stands: it looks up its own
/// link for the data, fetches its own data for that link, fetches the
/// artwork, and is then finished.
pub enum ChainState {
    /// Looking up the link of `provider` for an object of kind `kind`.
    Locating { provider: LinkType, kind: ShareObject },
    Fetching(ShareLink),
    /// Fetching the artwork; with `keep_without_artwork` a failure leaves the
    /// entry with empty artwork.
    Illustrating { link: ShareLink, data: Data, keep_without_artwork: bool },
    Finished(Result<ProviderMatch, ApiError>),
}

/// The result of the step a provider's part was waiting for.
pub enum ChainEvent {
    Located(Result<ShareLink, ApiError>),
    Fetched(Result<Data, ApiError>),
    Illustrated(Result<String, ApiError>),
}

/// Where a provider's part starts. The source provider already has its link
/// and data, and keeps its entry whether or not the artwork can be had;
/// every other provider starts by looking up its link for an object of the
/// source's kind. Data of another kind than the source link's ends the part.
pub open spec fn chain_start_spec(provider: LinkType, source: ShareLink, data: Data) -> ChainState {
    if data_kind(data) != source.share_obj {
        ChainState::Finished(Err(ApiError::IncorrectAttributes))
    } else if provider == source.link_type {
        ChainState::Illustrating { link: source, data, keep_without_artwork: true }
    } else {
        ChainState::Locating { provider, kind: source.share_obj }
    }
}

/// One step of a provider's part: `next` follows `state` on `event`. A
/// failure ends the part with that error, so the provider contributes no
/// entry, except that the source keeps its entry with empty artwork. A link
/// of another provider or kind, or data of another kind than the link, ends
/// it too. An event that does not fit the state leaves it as it is.
pub open spec fn chain_next(state: ChainState, event: ChainEvent, next: ChainState) -> bool {
    match (state, event) {
        (ChainState::Locating { provider, kind }, ChainEvent::Located(Ok(l))) => {
            if l.link_type == provider && l.share_obj == kind {
                next == ChainState::Fetching(l)
            } else {
                next == ChainState::Finished(Err(ApiError::UnsuitableLink))
            }
        },
        (ChainState::Locating { .. }, ChainEvent::Located(Err(e))) => next == ChainState::Finished(
            Err(e),
        ),
        (ChainState::Fetching(l), ChainEvent::Fetched(Ok(d))) => {
            if data_kind(d) == l.share_obj {
                next == ChainState::Illustrating { link: l, data: d, keep_without_artwork: false }
            } else {
                next == ChainState::Finished(Err(ApiError::IncorrectAttributes))
            }
        },
        (ChainState::Fetching(_), ChainEvent::Fetched(Err(e))) => next == ChainState::Finished(
            Err(e),
        ),
        (
            ChainState::Illustrating { link, data, keep_without_artwork: _ },
            ChainEvent::Illustrated(Ok(a)),
        ) => next == ChainState::Finished(Ok(ProviderMatch { link, data, artwork: a })),
        (
            ChainState::Illustrating { link, data, keep_without_artwork },
            ChainEvent::Illustrated(Err(e)),
        ) => if keep_without_artwork {
            &&& next is Finished
            &&& next->Finished_0 is Ok
            &&& next->Finished_0->Ok_0.link == link
            &&& next->Finished_0->Ok_0.data == data
            &&& next->Finished_0->Ok_0.artwork@.len() == 0
        } else {
            next == ChainState::Finished(Err(e))
        },
        (s, _) => next == s,
    }
}

/// What holds of a provider's part throughout: the links and data it holds
/// are of `provider` and of kind `kind`.
pub open spec fn chain_inv(state: ChainState, provider: LinkType, kind: ShareObject) -> bool {
    match state {
        ChainState::Locating { provider: p, kind: k } => p == provider && k == kind,
        ChainState::Fetching(l) => l.link_type == provider && l.share_obj == kind,
        ChainState::Illustrating { link, data, keep_without_artwork: _ } => link.link_type
            == provider && link.share_obj == kind && data_kind(data) == kind,
        ChainState::Finished(Ok(m)) => m.link.link_type == provider && m.link.share_obj == kind
            && data_kind(m.data) == kind,
        ChainState::Finished(Err(_)) => true,
    }
}

/// Where a provider's part starts.
pub fn chain_start(provider: LinkType, source: ShareLink, data: Data) -> (r: ChainState)
    ensures
        r == chain_start_spec(provider, source, data),
        chain_inv(r, provider, source.share_obj),
{
    if data.kind() != source.share_obj {
        ChainState::Finished(Err(ApiError::IncorrectAttributes))
    } else if provider == source.link_type {
        ChainState::Illustrating { link: source, data, keep_without_artwork: true }
    } else {
        let kind = source.share_obj;
        ChainState::Locating { provider, kind }
    }
}

/// Advances a provider's part by the result of the step it waited for.
pub fn chain_step(state: ChainState, event: ChainEvent) -> (r: ChainState)
    ensures
        chain_next(state, event, r),
        forall|p: LinkType, k: ShareObject| chain_inv(state, p, k) ==> chain_inv(r, p, k),
{
    match (state, event) {
        (ChainState::Locating { provider, kind }, ChainEvent::Located(Ok(l))) => {
            if l.link_type == provider && l.share_obj == kind {
                ChainState::Fetching(l)
            } else {
                ChainState::Finished(Err(ApiError::UnsuitableLink))
            }
        },
        (ChainState::Locating { .. }, ChainEvent::Located(Err(e))) => ChainState::Finished(Err(e)),
        (ChainState::Fetching(l), ChainEvent::Fetched(Ok(d))) => {
            if d.kind() == l.share_obj {
                ChainState::Illustrating { link: l, data: d, keep_without_artwork: false }
            } else {
                ChainState::Finished(Err(ApiError::IncorrectAttributes))
            }
        },
        (ChainState::Fetching(_), ChainEvent::Fetched(Err(e))) => ChainState::Finished(Err(e)),
        (
            ChainState::Illustrating { link, data, keep_without_artwork: _ },
            ChainEvent::Illustrated(Ok(a)),
        ) => ChainState::Finished(Ok(ProviderMatch { link, data, artwork: a })),
        (
            ChainState::Illustrating { link, data, keep_without_artwork },
            ChainEvent::Illustrated(Err(e)),
        ) => if keep_without_artwork {
            ChainState::Finished(Ok(ProviderMatch { link, data, artwork: String::new() }))
        } else {
            ChainState::Finished(Err(e))
        },
        (s, _) => s,
    }
}

/// The source provider's part always ends with its own link and data as an
/// entry, whether or not the artwork could be had.
pub proof fn lemma_source_keeps_its_entry(
    source: ShareLink,
    data: Data,
    artwork: Result<String, ApiError>,
    next: ChainState,
)
    requires
        data_kind(data) == source.share_obj,
        chain_next(
            chain_start_spec(source.link_type, source, data),
            ChainEvent::Illustrated(artwork),
            next,
        ),
    ensures
        next is Finished,
        next->Finished_0 is Ok,
        next->Finished_0->Ok_0.link == source,
        next->Finished_0->Ok_0.data == data,
{
}

/// When every provider that found a match found one of kind `kind`, every
/// entry of the result names that kind.
pub proof fn lemma_results_share_kind(outcomes: Seq<Result<ProviderMatch, ApiError>>, kind: ShareObject)
    requires
        forall|i: int| 0 <= i < outcomes.len() && (#[trigger] outcomes[i]) is Ok ==> data_kind(
            outcomes[i]->Ok_0.data,
        ) == kind,
    ensures
        forall|j: int| 0 <= j < results_spec(outcomes).len() ==> (#[trigger] results_spec(outcomes)[j]).object_type
            == object_name(kind),
    decreases outcomes.len(),
{
    if outcomes.len() > 0 {
        let p = outcomes.drop_last();
        assert forall|i: int| 0 <= i < p.len() && (#[trigger] p[i]) is Ok implies data_kind(p[i]->Ok_0.data) == kind by {
            assert(p[i] == outcomes[i]);
        }
        lemma_results_share_kind(p, kind);
        assert(outcomes.last() == outcomes[outcomes.len() - 1]);
        let r = results_spec(outcomes);
        let rp = results_spec(p);
        assert forall|j: int| 0 <= j < r.len() implies (#[trigger] r[j]).object_type == object_name(kind) by {
            if j < rp.len() {
                assert(r[j] == rp[j]);
            } else {
                let m = outcomes.last()->Ok_0;
                assert(r[j] == entry_of(m.link@, m.data, m.artwork@));
            }
        }
    }
}

} // verus!
