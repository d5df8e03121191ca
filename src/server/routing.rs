//! Routing of service requests by method and path.
use vstd::prelude::*;
use crate::text::{chars_eq_str, chars_of, split_chars, split_on, string_from_chars};

verus! {

/// What a request asks for.
#[derive(Debug, Clone, PartialEq)]
pub enum Route {
    /// Convert the link given in the query string.
    Convert,
    /// List the supported providers.
    Providers,
    /// Serve a file from the public directory.
    PublicFile(String),
    /// Answer with "400 Bad Request" and this message.
    BadRequest(String),
}

pub enum RouteModel {
    Convert,
    Providers,
    PublicFile(Seq<char>),
    BadRequest(Seq<char>),
}

impl View for Route {
    type V = RouteModel;

    open spec fn view(&self) -> RouteModel {
        match self {
            Route::Convert => RouteModel::Convert,
            Route::Providers => RouteModel::Providers,
            Route::PublicFile(f) => RouteModel::PublicFile(f@),
            Route::BadRequest(m) => RouteModel::BadRequest(m@),
        }
    }
}

/// The named components of a path: its `/`-separated pieces without empty
/// ones and `.`.
pub open spec fn path_components(path: Seq<char>) -> Seq<Seq<char>> {
    split_on(path, '/').filter(|c: Seq<char>| c.len() > 0 && c != "."@)
}

/// Whether `s` holds `..`.
pub open spec fn has_parent_ref(s: Seq<char>) -> bool {
    exists|i: int| 0 <= i < s.len() - 1 && #[trigger] s[i] == '.' && s[i + 1] == '.'
}

/// Whether a request for `path` must carry valid credentials: all but those
/// for public files.
pub open spec fn needs_authorization(path: Seq<char>) -> bool {
    !(path_components(path).len() > 0 && path_components(path)[0] == "public"@)
}

/// The route of a request.
pub open spec fn route_of(is_get: bool, path: Seq<char>) -> RouteModel {
    let c = path_components(path);
    if c.len() == 0 {
        RouteModel::BadRequest("Resource cannot be empty"@)
    } else if is_get && c[0] == "convert"@ {
        RouteModel::Convert
    } else if is_get && c[0] == "providers"@ {
        RouteModel::Providers
    } else if is_get && c[0] == "public"@ {
        if c.len() < 2 {
            RouteModel::BadRequest("Filename must be provided"@)
        } else if has_parent_ref(c[1]) {
            RouteModel::BadRequest("Invalid path"@)
        } else {
            RouteModel::PublicFile(c[1])
        }
    } else {
        RouteModel::BadRequest("Invalid method or resource"@)
    }
}

fn components(path: &str) -> (r: Vec<Vec<char>>)
    ensures
        r@.map_values(|v: Vec<char>| v@) == path_components(path@),
{
    let pieces = split_chars(&chars_of(path), '/');
    let ghost pv = pieces@.map_values(|v: Vec<char>| v@);
    let mut out: Vec<Vec<char>> = Vec::new();
    let mut i: usize = 0;
    while i < pieces.len()
        invariant
            i <= pieces@.len(),
            pv == pieces@.map_values(|v: Vec<char>| v@),
            pv == split_on(path@, '/'),
            out@.map_values(|v: Vec<char>| v@) == pv.take(i as int).filter(
                |c: Seq<char>| c.len() > 0 && c != "."@,
            ),
        decreases pieces@.len() - i,
    {
        proof {
            let t = pv.take(i as int + 1);
            assert(t.drop_last() =~= pv.take(i as int));
            reveal(Seq::filter);
        }
        let ghost before = out@.map_values(|v: Vec<char>| v@);
        if pieces[i].len() > 0 && !chars_eq_str(&pieces[i], ".") {
            let c = pieces[i].clone();
            out.push(c);
            assert(out@.map_values(|v: Vec<char>| v@) =~= before.push(pv[i as int]));
        }
        i = i + 1;
    }
    assert(pv.take(pieces@.len() as int) =~= pv);
    out
}

fn holds_parent_ref(s: &Vec<char>) -> (r: bool)
    ensures
        r == has_parent_ref(s@),
{
    if s.len() < 2 {
        return false;
    }
    let mut i: usize = 0;
    while i < s.len() - 1
        invariant
            s@.len() >= 2,
            i <= s@.len(),
            forall|j: int| 0 <= j < i && j < s@.len() - 1 ==> !(#[trigger] s@[j] == '.' && s@[j + 1] == '.'),
        decreases s@.len() - i,
    {
        if s[i] == '.' && s[i + 1] == '.' {
            return true;
        }
        i = i + 1;
    }
    false
}

/// Whether a request for `path` must carry valid credentials.
pub fn requires_authorization(path: &str) -> (r: bool)
    ensures
        r == needs_authorization(path@),
{
    let c = components(path);
    !(c.len() > 0 && chars_eq_str(&c[0], "public"))
}

/// Routes a request by whether it is a GET and by its path.
pub fn route_request(is_get: bool, path: &str) -> (r: Route)
    ensures
        r@ == route_of(is_get, path@),
{
    let c = components(path);
    if c.len() == 0 {
        Route::BadRequest(String::from_str("Resource cannot be empty"))
    } else if is_get && chars_eq_str(&c[0], "convert") {
        Route::Convert
    } else if is_get && chars_eq_str(&c[0], "providers") {
        Route::Providers
    } else if is_get && chars_eq_str(&c[0], "public") {
        if c.len() < 2 {
            Route::BadRequest(String::from_str("Filename must be provided"))
        } else if holds_parent_ref(&c[1]) {
            Route::BadRequest(String::from_str("Invalid path"))
        } else {
            Route::PublicFile(string_from_chars(&c[1]))
        }
    } else {
        Route::BadRequest(String::from_str("Invalid method or resource"))
    }
}

} // verus!
