use std::cell::RefCell;
use thumbor::cache::{FetchCache, FetchError};
use thumbor::codec::encode;
use thumbor::ops::{FilterKind, Operation, OperationChain, ResizeFilterKind};
use thumbor::request::{
    escape_url, generate, parse_request, request_path, resolve, serve, status_of, unescape_url,
    unprocessed, Image, Rejection, Resolved, STATUS_BAD_REQUEST, STATUS_OK,
};
use thumbor::wire::DecodeError;

const SOURCE: &str = "https://example.com/a.jpg";
const SOURCE_TOKEN: &str = "https%3A%2F%2Fexample%2Ecom%2Fa%2Ejpg";

fn example_chain() -> OperationChain {
    OperationChain::new(vec![
        Operation::new_resize(500, 800, ResizeFilterKind::CatmullRom).unwrap(),
        Operation::new_watermark(20, 20),
        Operation::new_filter(FilterKind::Marine),
    ])
}

#[test]
fn url_is_escaped_byte_by_byte() {
    assert_eq!(escape_url(SOURCE), SOURCE_TOKEN);
    assert_eq!(escape_url("abcXYZ019"), "abcXYZ019");
    assert_eq!(escape_url("a b?c=d&e"), "a%20b%3Fc%3Dd%26e");
    assert_eq!(escape_url("\u{e9}"), "%C3%A9");
    assert_eq!(escape_url(""), "");
}

#[test]
fn url_is_unescaped() {
    assert_eq!(unescape_url(SOURCE_TOKEN), SOURCE);
    assert_eq!(unescape_url("a%20b%3fc"), "a b?c");
    assert_eq!(unescape_url("100%"), "100%");
    assert_eq!(unescape_url("%F0%9F%92%96"), "\u{1f496}");
    assert_eq!(unescape_url(SOURCE), SOURCE);
}

#[test]
fn bytes_that_are_no_text_are_replaced() {
    assert_eq!(unescape_url("%00%9F%92%96"), "\u{0}\u{fffd}\u{fffd}\u{fffd}");
}

#[test]
fn unescaping_undoes_escaping() {
    for url in [SOURCE, "", "%41", "a/b c?d=\u{1f496}&e=%zz", "https://host/p?q=1#frag"] {
        assert_eq!(unescape_url(&escape_url(url)), url);
    }
}

#[test]
fn path_has_route_token_and_url() {
    assert_eq!(
        request_path(&example_chain(), SOURCE),
        "/image/%01%00%00%01%F4%00%00%03%20%02%02%00%00%00%14%00%00%00%14%03%04/\
         https%3A%2F%2Fexample%2Ecom%2Fa%2Ejpg"
    );
    assert_eq!(request_path(&OperationChain::new(Vec::new()), "x"), "/image//x");
}

#[test]
fn request_is_read_from_its_segments() {
    let request = parse_request(&encode(&example_chain()), SOURCE_TOKEN).unwrap();
    assert_eq!(request.chain, example_chain());
    assert_eq!(request.source_url, SOURCE);
}

#[test]
fn request_with_a_bad_spec_is_rejected() {
    let r = parse_request("%09", SOURCE_TOKEN);
    assert_eq!(r.unwrap_err(), Rejection::Spec(DecodeError::UnknownTag));
    let r = parse_request("%01%00", SOURCE_TOKEN);
    assert_eq!(r.unwrap_err(), Rejection::Spec(DecodeError::Malformed));
    let r = parse_request("%03%07", SOURCE_TOKEN);
    assert_eq!(r.unwrap_err(), Rejection::Spec(DecodeError::InvalidParameter));
}

#[test]
fn end_to_end_second_call_is_served_from_the_cache() {
    let fetched = RefCell::new(Vec::new());
    let fetch = |url: &str| -> Result<Vec<u8>, FetchError> {
        fetched.borrow_mut().push(url.to_string());
        Ok(vec![0xff, 0xd8, 0xff])
    };
    let token = encode(&example_chain());
    let url_token = escape_url(SOURCE);
    let mut cache = FetchCache::default();

    let first = generate(&mut cache, &token, &url_token, &fetch);
    assert_eq!(status_of(&first), 200);
    assert_eq!(STATUS_OK, 200);
    let image = first.unwrap();
    assert_eq!(image.content_type, "image/jpeg");
    assert_eq!(image.body, vec![0xff, 0xd8, 0xff]);
    assert_eq!(*fetched.borrow(), vec![SOURCE.to_string()]);

    let second = generate(&mut cache, &token, &url_token, &fetch);
    assert_eq!(status_of(&second), 200);
    assert_eq!(second.unwrap().body, vec![0xff, 0xd8, 0xff]);
    assert_eq!(fetched.borrow().len(), 1);
}

#[test]
fn bad_spec_is_answered_without_a_fetch() {
    let never = |_: &str| -> Result<Vec<u8>, FetchError> { panic!("fetched for a bad spec") };
    let mut cache = FetchCache::new(2);
    let r = generate(&mut cache, "%2A", SOURCE_TOKEN, never);
    assert_eq!(status_of(&r), 400);
    assert_eq!(STATUS_BAD_REQUEST, 400);
    assert_eq!(r.unwrap_err(), Rejection::Spec(DecodeError::UnknownTag));
    assert!(cache.is_empty());
}

#[test]
fn failed_fetch_is_answered_as_a_bad_request() {
    let failing = |_: &str| -> Result<Vec<u8>, FetchError> { Err(FetchError::Status(503)) };
    let mut cache = FetchCache::new(2);
    let token = encode(&example_chain());
    let r = generate(&mut cache, &token, SOURCE_TOKEN, failing);
    assert_eq!(status_of(&r), 400);
    let rejection = r.unwrap_err();
    assert_eq!(rejection, Rejection::Fetch(FetchError::Status(503)));
    assert_eq!(rejection.status(), 400);
    assert!(cache.is_empty());
}

#[test]
fn resolve_hands_out_chain_and_bytes() {
    let fetch = |_: &str| -> Result<Vec<u8>, FetchError> { Ok(vec![1, 2, 3]) };
    let mut cache = FetchCache::new(2);
    let token = encode(&example_chain());
    let resolved = resolve(&mut cache, &token, SOURCE_TOKEN, fetch).unwrap();
    assert_eq!(resolved.chain, example_chain());
    assert_eq!(resolved.bytes, vec![1, 2, 3]);
    assert!(cache.contains(SOURCE));
    let r = resolve(&mut cache, "%03", SOURCE_TOKEN, fetch);
    assert_eq!(r.unwrap_err(), Rejection::Spec(DecodeError::Malformed));
}

#[test]
fn unprocessed_bytes_go_out_as_jpeg() {
    let image = unprocessed(Resolved { chain: example_chain(), bytes: vec![5, 6] });
    assert_eq!(image.content_type, "image/jpeg");
    assert_eq!(image.body, vec![5, 6]);
}

#[test]
fn differently_escaped_urls_share_one_entry() {
    let fetched = RefCell::new(0u32);
    let fetch = |_: &str| -> Result<Vec<u8>, FetchError> {
        *fetched.borrow_mut() += 1;
        Ok(vec![1])
    };
    let mut cache = FetchCache::new(4);
    let token = encode(&example_chain());
    generate(&mut cache, &token, "https%3A%2F%2Fexample%2Ecom%2Fa%2Ejpg", &fetch).unwrap();
    generate(&mut cache, &token, "https%3a%2f%2fexample.com%2fa.jpg", &fetch).unwrap();
    assert_eq!(*fetched.borrow(), 1);
    assert_eq!(cache.len(), 1);
}

#[test]
fn backend_gets_chain_and_bytes_and_its_image_is_the_answer() {
    let seen = RefCell::new(Vec::new());
    let fetch = |_: &str| -> Result<Vec<u8>, FetchError> { Ok(vec![1, 2, 3]) };
    let execute = |resolved: Resolved| -> Image {
        seen.borrow_mut().push(resolved.chain.clone());
        Image {
            content_type: String::from("image/png"),
            body: resolved.bytes.iter().rev().cloned().collect(),
        }
    };
    let mut cache = FetchCache::new(2);
    let token = encode(&example_chain());
    let image = serve(&mut cache, &token, SOURCE_TOKEN, fetch, &execute).unwrap();
    assert_eq!(image.content_type, "image/png");
    assert_eq!(image.body, vec![3, 2, 1]);
    assert_eq!(*seen.borrow(), vec![example_chain()]);
    // the cache keeps the source bytes, not the backend's image
    let again = generate(&mut cache, &token, SOURCE_TOKEN, fetch).unwrap();
    assert_eq!(again.body, vec![1, 2, 3]);
}

#[test]
fn backend_is_not_called_for_a_rejected_request() {
    let fetch = |_: &str| -> Result<Vec<u8>, FetchError> { Err(FetchError::Network) };
    let execute = |_: Resolved| -> Image { panic!("backend called for a rejected request") };
    let mut cache = FetchCache::new(2);
    let token = encode(&example_chain());
    let r = serve(&mut cache, &token, SOURCE_TOKEN, fetch, execute);
    assert_eq!(r.unwrap_err(), Rejection::Fetch(FetchError::Network));
    let r = serve(&mut cache, "%05", SOURCE_TOKEN, fetch, execute);
    assert_eq!(r.unwrap_err(), Rejection::Spec(DecodeError::UnknownTag));
    assert!(cache.is_empty());
}
