//! The list of supported providers shown to clients.
use vstd::prelude::*;

verus! {

/// A supported provider, with its logo and icon served under `/public`.
#[derive(Debug, Clone)]
pub struct Provider {
    pub name: String,
    pub url: String,
    pub logo_url: String,
    pub icon_url: String,
}

pub struct ProviderView {
    pub name: Seq<char>,
    pub url: Seq<char>,
    pub logo_url: Seq<char>,
    pub icon_url: Seq<char>,
}

impl View for Provider {
    type V = ProviderView;

    open spec fn view(&self) -> ProviderView {
        ProviderView {
            name: self.name@,
            url: self.url@,
            logo_url: self.logo_url@,
            icon_url: self.icon_url@,
        }
    }
}

/// The entry of a provider whose images live under `ext_addr`.
pub open spec fn provider_entry(ext_addr: Seq<char>, name: Seq<char>, url: Seq<char>, key: Seq<char>) -> ProviderView {
    ProviderView {
        name,
        url,
        logo_url: ext_addr + "/public/"@ + key + "_logo.png"@,
        icon_url: ext_addr + "/public/"@ + key + "_icon.png"@,
    }
}

fn entry(ext_addr: &str, name: &str, url: &str, key: &str) -> (r: Provider)
    ensures
        r@ == provider_entry(ext_addr@, name@, url@, key@),
{
    let mut logo = String::from_str(ext_addr);
    logo.append("/public/");
    logo.append(key);
    logo.append("_logo.png");
    let mut icon = String::from_str(ext_addr);
    icon.append("/public/");
    icon.append(key);
    icon.append("_icon.png");
    Provider { name: String::from_str(name), url: String::from_str(url), logo_url: logo, icon_url: icon }
}

/// Spotify, Tidal and Deezer, with their images under `ext_addr`.
pub fn get_providers(ext_addr: &str) -> (r: Vec<Provider>)
    ensures
        r@.map_values(|p: Provider| p@) == seq![
            provider_entry(ext_addr@, "Spotify"@, "https://spotify.com"@, "spotify"@),
            provider_entry(ext_addr@, "Tidal"@, "https://tidal.com"@, "tidal"@),
            provider_entry(ext_addr@, "Deezer"@, "https://www.deezer.com"@, "deezer"@),
        ],
{
    let r = vec![
        entry(ext_addr, "Spotify", "https://spotify.com", "spotify"),
        entry(ext_addr, "Tidal", "https://tidal.com", "tidal"),
        entry(ext_addr, "Deezer", "https://www.deezer.com", "deezer"),
    ];
    assert(r@.map_values(|p: Provider| p@) =~= seq![
        provider_entry(ext_addr@, "Spotify"@, "https://spotify.com"@, "spotify"@),
        provider_entry(ext_addr@, "Tidal"@, "https://tidal.com"@, "tidal"@),
        provider_entry(ext_addr@, "Deezer"@, "https://www.deezer.com"@, "deezer"@),
    ]);
    r
}

} // verus!
