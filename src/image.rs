//! Where page images are fetched from, and the headers the site expects
//! on image requests.
use vstd::prelude::*;
use crate::search_url::BASE_URL;
use crate::text::{lemma_url_encoded_round_trip, percent_decode, percent_encode, url_encoded, urlencode};
use vstd::utf8::{decode_utf8, encode_utf8};

verus! {

/// The image proxy that the alternate server routes through; the encoded
/// image URL follows it.
pub const IMAGE_PROXY: &'static str = "https://images2-focus-opensocial.googleusercontent.com/gadgets/proxy?container=focus&gadget=a&no_expand=1&resize_h=0&rewriteMime=image%2F*&url=";

/// The server-selection value that asks for the alternate server.
pub const ALTERNATE_SERVER: i64 = 2;

/// The browser identity sent with image requests.
pub const USER_AGENT: &'static str = "Mozilla/5.0 (Windows NT 10.0; Win64; x64) AppleWebKit/537.36 (KHTML, like Gecko) Chrome/101.0.4951.54 Safari/537.36 Edg/101.0.1210.39";

/// The URL a page image is fetched from, given the server selection (none
/// when the setting is absent or not a number).
pub open spec fn page_image_url_of(url: Seq<char>, server_selection: Option<i64>) -> Seq<char> {
    if server_selection == Some(2i64) {
        IMAGE_PROXY@ + url_encoded(url)
    } else {
        url
    }
}

/// Routes a page image through the proxy when the alternate server is
/// selected; otherwise the URL stays as it is.
pub fn page_image_url(url: &str, server_selection: Option<i64>) -> (r: String)
    ensures
        r@ == page_image_url_of(url@, server_selection),
{
    match server_selection {
        Some(n) if n == ALTERNATE_SERVER => {
            let mut r = IMAGE_PROXY.to_owned();
            let encoded = urlencode(url);
            r.append(encoded.as_str());
            r
        },
        _ => url.to_owned(),
    }
}

/// The headers an image request carries so that the site accepts it.
pub struct ImageHeaders {
    pub referer: String,
    pub user_agent: String,
}

/// The headers for image requests: the site as referer, a desktop browser
/// as user agent.
pub fn image_request_headers() -> (r: ImageHeaders)
    ensures
        r.referer@ == BASE_URL@,
        r.user_agent@ == USER_AGENT@,
{
    ImageHeaders { referer: BASE_URL.to_owned(), user_agent: USER_AGENT.to_owned() }
}

/// Without the alternate server a page image URL is fetched as it is; with
/// it, the URL is the proxy endpoint followed by the percent-encoded image
/// URL, which decodes back to the original.
pub proof fn lemma_image_policy(url: Seq<char>, server_selection: Option<i64>)
    ensures
        server_selection != Some(2i64) ==> page_image_url_of(url, server_selection) == url,
        server_selection == Some(2i64) ==> page_image_url_of(url, server_selection) == IMAGE_PROXY@ + url_encoded(url),
        decode_utf8(percent_decode(percent_encode(encode_utf8(url)))) == url,
{
    lemma_url_encoded_round_trip(url);
}

} // verus!
