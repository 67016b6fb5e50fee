//! The request orchestrator: from the two path segments of a request to the
//! bytes and the chain that the image backend works on, and to the reply.

use crate::cache::{fingerprint_of, FetchCache, FetchError};
use crate::codec::{decode, encode, token_chain, token_text};
use crate::escape::{
    ascii_text, escape, escaped, lemma_escape_round_trip, unescape_lossy, unescaped_lossy,
};
use crate::ops::{all_valid, Operation, OperationChain};
use crate::recency::{holds, payload, stored, touched, Entry};
use crate::wire::DecodeError;
use vstd::prelude::*;
use vstd::string::StringExecFns;
use vstd::utf8::{encode_utf8, encode_utf8_decode_utf8, encode_utf8_valid_utf8};

verus! {

/// Status of a reply that carries an image.
pub const STATUS_OK: u16 = 200;

/// Status of a reply to a request that could not be served.
pub const STATUS_BAD_REQUEST: u16 = 400;

/// Why a request was not served.
#[derive(Clone, Copy, Debug, PartialEq, Eq, Structural)]
pub enum Rejection {
    /// The spec segment is no token of a valid chain.
    Spec(DecodeError),
    /// The source image could not be fetched.
    Fetch(FetchError),
}

impl Rejection {
    /// The status that answers a rejected request.
    pub fn status(self) -> (code: u16)
        ensures
            code == STATUS_BAD_REQUEST,
    {
        STATUS_BAD_REQUEST
    }
}

/// The URL segment that stands for `url`: its UTF-8 bytes, escaped.
pub open spec fn url_token_text(url: Seq<char>) -> Seq<char> {
    ascii_text(escaped(encode_utf8(url)))
}

/// Writes `url` as a path segment.
pub fn escape_url(url: &str) -> (token: String)
    ensures
        token@ == url_token_text(url@),
{
    escape(url.as_bytes())
}

/// Reads the source URL from its path segment. Bytes that are not UTF-8
/// after unescaping are replaced, so every segment stands for some URL.
pub fn unescape_url(url_token: &str) -> (url: String)
    ensures
        url@ == unescaped_lossy(url_token@),
        forall|plain: Seq<char>| url_token@ == url_token_text(plain) ==> url@ == plain,
{
    let url = unescape_lossy(url_token);
    proof {
        assert forall|plain: Seq<char>| url_token@ == url_token_text(plain) implies url@
            == plain by {
            lemma_escape_round_trip(encode_utf8(plain));
            encode_utf8_valid_utf8(plain);
            encode_utf8_decode_utf8(plain);
        }
    }
    url
}

/// A request that has been read: what to do, and to which image.
#[derive(Debug)]
pub struct Request {
    pub chain: OperationChain,
    pub source_url: String,
}

/// Reads a request from its two path segments.
///
/// Fails exactly when the spec segment does not decode, with the decoder's
/// error; nothing else is looked at in that case.
pub fn parse_request(spec_token: &str, url_token: &str) -> (r: Result<Request, Rejection>)
    ensures
        match token_chain(spec_token@) {
            Ok(ops) => {
                &&& r is Ok
                &&& r.unwrap().chain@ == ops
                &&& all_valid(ops)
                &&& r.unwrap().source_url@ == unescaped_lossy(url_token@)
                &&& forall|plain: Seq<char>|
                    url_token@ == url_token_text(plain) ==> r.unwrap().source_url@ == plain
            },
            Err(e) => r == Err::<Request, Rejection>(Rejection::Spec(e)),
        },
{
    match decode(spec_token) {
        Ok(chain) => {
            let source_url = unescape_url(url_token);
            Ok(Request { chain, source_url })
        },
        Err(e) => Err(Rejection::Spec(e)),
    }
}

/// The first segment of every image path.
pub open spec fn route_text() -> Seq<char> {
    "/image/"@
}

/// The path that asks for `ops` applied to the image at `url`.
pub open spec fn path_text(ops: Seq<Operation>, url: Seq<char>) -> Seq<char> {
    route_text() + token_text(ops) + "/"@ + url_token_text(url)
}

/// Builds the path of a request: the route, the chain's token, and the
/// escaped source URL.
pub fn request_path(chain: &OperationChain, source_url: &str) -> (path: String)
    ensures
        path@ == path_text(chain@, source_url@),
{
    let mut path = "/image/".to_owned();
    let token = encode(chain);
    path.append(token.as_str());
    path.append("/");
    let url_token = escape_url(source_url);
    path.append(url_token.as_str());
    path
}

/// Whether `fetch` accepts being called with every URL whose image
/// `entries` does not hold.
pub open spec fn fetches_misses<F: Fn(&str) -> Result<Vec<u8>, FetchError>>(
    fetch: F,
    entries: Seq<Entry>,
) -> bool {
    forall|u: &str| !holds(entries, fingerprint_of(u@)) ==> #[trigger] fetch.requires((u,))
}

/// Whether `outcome` is something that `fetch` may return for the URL
/// `url`.
pub open spec fn fetched<F: Fn(&str) -> Result<Vec<u8>, FetchError>>(
    fetch: F,
    url: Seq<char>,
    outcome: Result<Vec<u8>, FetchError>,
) -> bool {
    exists|u: &str| u@ == url && #[trigger] fetch.ensures((u,), outcome)
}

/// What the image backend works on: the chain and the source bytes.
#[derive(Debug)]
pub struct Resolved {
    pub chain: OperationChain,
    pub bytes: Vec<u8>,
}

/// An image ready to be sent: its media type and its bytes.
#[derive(Debug)]
pub struct Image {
    pub content_type: String,
    pub body: Vec<u8>,
}

/// What resolving a request comes to, for a cache that held `before` and
/// holds `after`.
///
/// A spec segment that does not decode rejects the request with the
/// decoder's error and leaves the cache alone. Otherwise the chain is the
/// decoded one and is valid, and the bytes are the cached ones, whose entry
/// has become the most recently used, or on a miss what `fetch` returned
/// for the source URL: bytes, which are now stored, or an error, which
/// rejects the request and leaves the cache alone.
pub open spec fn resolves_to<F: Fn(&str) -> Result<Vec<u8>, FetchError>>(
    fetch: F,
    before: Seq<Entry>,
    cap: nat,
    after: Seq<Entry>,
    spec_token: Seq<char>,
    url_token: Seq<char>,
    r: Result<Resolved, Rejection>,
) -> bool {
    let url = unescaped_lossy(url_token);
    let key = fingerprint_of(url);
    match token_chain(spec_token) {
        Err(e) => r == Err::<Resolved, Rejection>(Rejection::Spec(e)) && after == before,
        Ok(ops) => if holds(before, key) {
            &&& r is Ok
            &&& r.unwrap().chain@ == ops
            &&& all_valid(ops)
            &&& r.unwrap().bytes@ == payload(before, key)
            &&& after == touched(before, key)
        } else {
            match r {
                Ok(resolved) => {
                    &&& resolved.chain@ == ops
                    &&& all_valid(ops)
                    &&& fetched(fetch, url, Ok::<Vec<u8>, FetchError>(resolved.bytes))
                    &&& after == stored(before, cap, key, resolved.bytes@)
                },
                Err(rejection) => {
                    &&& rejection is Fetch
                    &&& fetched(fetch, url, Err::<Vec<u8>, FetchError>(rejection->Fetch_0))
                    &&& after == before
                },
            }
        },
    }
}

/// Reads a request and gets the source image, from the cache or with
/// `fetch`.
///
/// The spec segment is decoded before anything else: if it does not decode,
/// `fetch` is not called, and need not accept any call. Otherwise `fetch`
/// need only accept the URLs that are not cached.
pub fn resolve<F>(
    cache: &mut FetchCache,
    spec_token: &str,
    url_token: &str,
    fetch: F,
) -> (r: Result<Resolved, Rejection>) where F: Fn(&str) -> Result<Vec<u8>, FetchError>
    requires
        old(cache).wf(),
        token_chain(spec_token@) is Ok ==> fetches_misses(fetch, old(cache)@),
    ensures
        final(cache).wf(),
        final(cache).cap() == old(cache).cap(),
        resolves_to(
            fetch,
            old(cache)@,
            old(cache).cap(),
            final(cache)@,
            spec_token@,
            url_token@,
            r,
        ),
        r is Err ==> final(cache)@ == old(cache)@,
{
    match parse_request(spec_token, url_token) {
        Ok(request) => {
            let url = request.source_url.as_str();
            match cache.get_or_fetch(url, fetch) {
                Ok(bytes) => Ok(Resolved { chain: request.chain, bytes }),
                Err(e) => Err(Rejection::Fetch(e)),
            }
        },
        Err(rejection) => Err(rejection),
    }
}

/// Serves one request: resolves it, and hands chain and bytes to `execute`,
/// the image backend, whose image is the answer.
///
/// The request is rejected exactly when resolving it fails, and `execute`
/// is then not called. It is only ever called with a valid chain.
pub fn serve<F, X>(
    cache: &mut FetchCache,
    spec_token: &str,
    url_token: &str,
    fetch: F,
    execute: X,
) -> (r: Result<Image, Rejection>) where
    F: Fn(&str) -> Result<Vec<u8>, FetchError>,
    X: Fn(Resolved) -> Image,

    requires
        old(cache).wf(),
        token_chain(spec_token@) is Ok ==> fetches_misses(fetch, old(cache)@),
        forall|resolved: Resolved|
            all_valid(resolved.chain@) ==> #[trigger] execute.requires((resolved,)),
    ensures
        final(cache).wf(),
        final(cache).cap() == old(cache).cap(),
        r is Err ==> final(cache)@ == old(cache)@,
        exists|found: Result<Resolved, Rejection>|
            {
                &&& #[trigger] resolves_to(
                    fetch,
                    old(cache)@,
                    old(cache).cap(),
                    final(cache)@,
                    spec_token@,
                    url_token@,
                    found,
                )
                &&& match found {
                    Ok(resolved) => r is Ok && execute.ensures((resolved,), r.unwrap()),
                    Err(rejection) => r == Err::<Image, Rejection>(rejection),
                }
            },
{
    match resolve(cache, spec_token, url_token, fetch) {
        Ok(resolved) => Ok(execute(resolved)),
        Err(rejection) => Err(rejection),
    }
}

/// The media type under which source bytes are handed on.
pub open spec fn jpeg_text() -> Seq<char> {
    "image/jpeg"@
}

/// The backend that applies no operation: it hands the source bytes on as
/// they are, as a JPEG.
pub fn unprocessed(resolved: Resolved) -> (image: Image)
    ensures
        image.content_type@ == jpeg_text(),
        image.body == resolved.bytes,
{
    Image { content_type: "image/jpeg".to_owned(), body: resolved.bytes }
}

/// The status that answers a request with the given outcome.
pub fn status_of(outcome: &Result<Image, Rejection>) -> (code: u16)
    ensures
        code == if outcome is Ok {
            STATUS_OK
        } else {
            STATUS_BAD_REQUEST
        },
{
    match outcome {
        Ok(_) => STATUS_OK,
        Err(rejection) => rejection.status(),
    }
}

/// Serves one request with the backend that applies no operation: the
/// answer is the source image itself.
///
/// The request is rejected exactly when the spec segment does not decode or
/// the fetch fails; a rejected request leaves the cache as it was.
pub fn generate<F>(
    cache: &mut FetchCache,
    spec_token: &str,
    url_token: &str,
    fetch: F,
) -> (r: Result<Image, Rejection>) where F: Fn(&str) -> Result<Vec<u8>, FetchError>
    requires
        old(cache).wf(),
        token_chain(spec_token@) is Ok ==> fetches_misses(fetch, old(cache)@),
    ensures
        final(cache).wf(),
        final(cache).cap() == old(cache).cap(),
        r is Ok ==> r.unwrap().content_type@ == jpeg_text(),
        r is Err ==> final(cache)@ == old(cache)@,
        match token_chain(spec_token@) {
            Err(e) => r == Err::<Image, Rejection>(Rejection::Spec(e)),
            Ok(ops) => if holds(old(cache)@, fingerprint_of(unescaped_lossy(url_token@))) {
                &&& r is Ok
                &&& r.unwrap().body@ == payload(
                    old(cache)@,
                    fingerprint_of(unescaped_lossy(url_token@)),
                )
                &&& final(cache)@ == touched(
                    old(cache)@,
                    fingerprint_of(unescaped_lossy(url_token@)),
                )
            } else {
                match r {
                    Ok(image) => {
                        &&& fetched(
                            fetch,
                            unescaped_lossy(url_token@),
                            Ok::<Vec<u8>, FetchError>(image.body),
                        )
                        &&& final(cache)@ == stored(
                            old(cache)@,
                            old(cache).cap(),
                            fingerprint_of(unescaped_lossy(url_token@)),
                            image.body@,
                        )
                    },
                    Err(rejection) => {
                        &&& rejection is Fetch
                        &&& fetched(
                            fetch,
                            unescaped_lossy(url_token@),
                            Err::<Vec<u8>, FetchError>(rejection->Fetch_0),
                        )
                    },
                }
            },
        },
{
    serve(cache, spec_token, url_token, fetch, unprocessed)
}

} // verus!
