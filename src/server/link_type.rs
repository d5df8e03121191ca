//! The kinds of link a client may ask for.
use vstd::prelude::*;

verus! {

/// A target platform, or any.
#[derive(Clone, Copy, Debug, PartialEq, Eq, Structural)]
pub enum LinkType {
    Tidal,
    Spotify,
    AppleMusic,
    Any,
}

pub open spec fn link_kind_name(t: LinkType) -> Seq<char> {
    match t {
        LinkType::Tidal => "Tidal"@,
        LinkType::Spotify => "Spotify"@,
        LinkType::AppleMusic => "Apple Music"@,
        LinkType::Any => "Any"@,
    }
}

impl LinkType {
    /// The display name of the kind.
    pub fn to_string(&self) -> (r: String)
        ensures
            r@ == link_kind_name(*self),
    {
        match self {
            LinkType::Tidal => String::from_str("Tidal"),
            LinkType::Spotify => String::from_str("Spotify"),
            LinkType::AppleMusic => String::from_str("Apple Music"),
            LinkType::Any => String::from_str("Any"),
        }
    }
}

} // verus!
