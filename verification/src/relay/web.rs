//! The pages and scripts that the relay serves.
use axum::http::HeaderMap;
use vstd::prelude::*;

use crate::outside::{guess_media_type, header_text, is_media_type};
use crate::relay::auth::header;
use crate::text::{
    as_opt, join2, join3, lemma_without_leading_at, opt_str, replace, replaced, str_eq, to_chars,
    without_leading,
};

verus! {

/// The slash.
pub open spec fn is_slash() -> spec_fn(char) -> bool {
    |c: char| c == '/'
}

/// The asset that a path asks for: the path without its leading slashes, or the front page.
pub open spec fn asset_name(path: Seq<char>) -> Seq<char> {
    let name = without_leading(path, is_slash());
    if name.len() == 0 {
        "index.html"@
    } else {
        name
    }
}

pub fn asset_for(path: &str) -> (r: String)
    ensures
        r@ == asset_name(path@),
{
    let v = to_chars(path);
    let mut i: usize = 0;
    while i < v.len() && v[i] == '/'
        invariant
            i <= v@.len(),
            v@ == path@,
            forall|j: int| 0 <= j < i ==> is_slash()(#[trigger] path@[j]),
        decreases v@.len() - i,
    {
        i = i + 1;
    }
    proof {
        lemma_without_leading_at(path@, is_slash(), i as int);
    }
    if i == v.len() {
        "index.html".to_owned()
    } else {
        let r = crate::text::from_chars(&v, i, v.len());
        assert(r@ =~= path@.skip(i as int));
        r
    }
}

/// The page that a name without an extension may stand for.
pub open spec fn page_name(name: Seq<char>) -> Seq<char> {
    name + ".html"@
}

pub fn page_for(name: &str) -> (r: String)
    ensures
        r@ == page_name(name@),
{
    join2(name, ".html")
}

/// Which asset answers a request for `name`: itself if there is one, or else its page.
pub open spec fn resolved_asset(name: Seq<char>, has_asset: bool, has_page: bool) -> Option<
    Seq<char>,
> {
    if has_asset {
        Some(name)
    } else if has_page {
        Some(page_name(name))
    } else {
        None
    }
}

/// Which asset answers a request, and of what media type it is. Without one there is nothing to
/// answer with.
pub fn resolve_asset(name: &str, has_asset: bool, has_page: bool) -> (r: Option<(String, String)>)
    ensures
        match (r, resolved_asset(name@, has_asset, has_page)) {
            (Some((asset, kind)), Some(n)) => asset@ == n && is_media_type(kind@, n),
            (None, None) => true,
            _ => false,
        },
{
    if has_asset {
        Some((name.to_owned(), guess_media_type(name)))
    } else if has_page {
        let page = page_for(name);
        let kind = guess_media_type(page.as_str());
        Some((page, kind))
    } else {
        None
    }
}

/// The address that an agent is to reach the relay at, as its installer was asked for.
pub open spec fn relay_url(host: Option<Seq<char>>, proto: Option<Seq<char>>) -> Seq<char> {
    let scheme = if proto == Some("https"@) {
        "https"@
    } else {
        "http"@
    };
    let host_name = match host {
        Some(h) => h,
        None => "localhost"@,
    };
    scheme + "://"@ + host_name
}

/// The address that an agent is to reach the relay at.
pub fn relay_url_for(host: Option<&str>, proto: Option<&str>) -> (r: String)
    ensures
        r@ == relay_url(opt_str(host), opt_str(proto)),
{
    let secure = match proto {
        Some(p) => str_eq(p, "https"),
        None => false,
    };
    let scheme = if secure {
        "https"
    } else {
        "http"
    };
    let host_name = match host {
        Some(h) => h,
        None => "localhost",
    };
    join3(scheme, "://", host_name)
}

/// An installer: its template with the relay's address filled in.
pub open spec fn installer(template: Seq<char>, url: Seq<char>) -> Seq<char> {
    replaced(template, "__RELAY_URL__"@, url)
}

/// Fills the relay's address into an installer's template.
pub fn fill_installer(template: &str, url: &str) -> (r: String)
    ensures
        r@ == installer(template@, url@),
{
    proof {
        reveal_strlit("__RELAY_URL__");
    }
    replace(template, "__RELAY_URL__", url)
}

/// The installer that a request is answered with.
pub open spec fn asked_installer(template: Seq<char>, headers: HeaderMap) -> Seq<char> {
    installer(
        template,
        relay_url(header(headers, "host"@), header(headers, "x-forwarded-proto"@)),
    )
}

/// The installer for Unix systems that a request is answered with.
pub fn install_script_handler(template: &str, headers: &HeaderMap) -> (r: String)
    ensures
        r@ == asked_installer(template@, *headers),
{
    let host = header_text(headers, "host");
    let proto = header_text(headers, "x-forwarded-proto");
    let url = relay_url_for(as_opt(&host), as_opt(&proto));
    fill_installer(template, url.as_str())
}

/// The installer for Windows that a request is answered with.
pub fn install_script_ps1_handler(template: &str, headers: &HeaderMap) -> (r: String)
    ensures
        r@ == asked_installer(template@, *headers),
{
    install_script_handler(template, headers)
}

} // verus!
