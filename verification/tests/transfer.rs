use curl::easy::Easy;
use nttp::error::Error;
use nttp::exchange::Exchange;
use nttp::request::{RequestBuilder, Session, Verb};
use nttp::response::Response;
use std::cell::RefCell;

fn native(e: curl::Error) -> Error {
    Error::transfer_failure(
        e.is_unsupported_protocol(),
        e.is_url_malformed(),
        e.code(),
        e.description().to_string(),
    )
}

/// Sends the request with the real transport, as a blocking session does.
fn send(builder: RequestBuilder) -> Result<Response, Error> {
    let parts = builder.into_parts();
    if let Some(failure) = parts.failure {
        return Err(failure);
    }
    let mut easy = Easy::new();
    easy.url(&parts.url).map_err(native)?;
    match parts.verb {
        Verb::Get => easy.get(true),
        Verb::Post => easy.post(true),
        Verb::Put => easy.put(true),
        Verb::Custom => easy.custom_request(&parts.method),
    }
    .map_err(native)?;
    easy.http_headers(parts.headers).map_err(native)?;
    let body = parts.body;
    let mut pos = 0;
    let exchange = RefCell::new(Exchange::new(()));
    let performed = {
        let mut transfer = easy.transfer();
        transfer
            .read_function(|out| {
                let chunk = body.chunk(pos, out.len());
                out[..chunk.len()].copy_from_slice(chunk);
                pos += chunk.len();
                Ok(chunk.len())
            })
            .map_err(native)?;
        transfer
            .write_function(|input| Ok(exchange.borrow_mut().on_body(input)))
            .map_err(native)?;
        transfer
            .header_function(|input| exchange.borrow_mut().on_header(input))
            .map_err(native)?;
        transfer.perform()
    };
    let outcome = match performed {
        Ok(()) => easy.response_code().map_err(native),
        Err(e) => Err(native(e)),
    };
    exchange.into_inner().finish(outcome).1
}

/// What the peer of the scenario answers, as the transport hands it on:
/// header lines one by one, then the body.
fn answer(
    exchange: &mut Exchange<()>,
    status_line: &str,
    headers: &[(&str, &str)],
    body: &[u8],
) {
    assert!(exchange.on_header(status_line.as_bytes()));
    for (key, value) in headers {
        assert!(exchange.on_header(format!("{}: {}\r\n", key, value).as_bytes()));
    }
    assert!(exchange.on_header(b"\r\n"));
    assert_eq!(exchange.on_body(body), body.len());
}

fn sent_lines(builder: &RequestBuilder) -> Vec<String> {
    let mut lines: Vec<String> = builder
        .header_list()
        .into_iter()
        .map(|line| String::from_utf8(line).unwrap())
        .collect();
    lines.sort();
    lines
}

#[test]
fn happy_path_sync() {
    let mut request_lines = vec![
        "Head: value".to_string(),
        "Head-Head: value1".to_string(),
        "Accept: */*".to_string(),
        "Accept-Language: en-en".to_string(),
        "Content-Type: application/x-www-form-urlencoded".to_string(),
        "User-Agent: nttp".to_string(),
    ];
    request_lines.sort();

    let response_headers = [
        ("Head-Res", "response"),
        ("Header", "res"),
        ("Content-Length", "3"),
    ];

    let body = "ABC".as_bytes();

    let session = Session::new();

    let request = session
        .request("POST", "http://localhost:45362/test")
        .header("Head", "value")
        .header("Head-Head", "value1")
        .header("User-Agent", "nttp")
        .header("Content-Type", "application/x-www-form-urlencoded")
        .header("Accept-Language", "en-en")
        .header("Accept", "*/*")
        .body_bytes(body);

    assert_eq!(sent_lines(&request), request_lines);
    let parts = request.into_parts();
    assert!(parts.failure.is_none());
    assert_eq!(parts.method, "POST");
    assert_eq!(parts.verb, Verb::Post);
    assert_eq!(parts.url, "http://localhost:45362/test");
    assert_eq!(parts.body.chunk(0, 16384), "ABC".as_bytes());

    let mut exchange = Exchange::new(());
    answer(
        &mut exchange,
        "HTTP/1.1 404 NOT FOUND\r\n",
        &response_headers,
        "XYZ".as_bytes(),
    );
    let response = exchange.finish(Ok(404)).1.unwrap();

    assert_eq!(response.status_code(), 404);
    assert_eq!(response.body(), "XYZ".as_bytes());
    assert_eq!(response.headers().list().len(), 3);
    assert_eq!(response.headers().get("Head-Res").unwrap(), "response");
    assert_eq!(response.headers().get("Header").unwrap(), "res");
    assert_eq!(response.headers().get("Content-Length").unwrap(), "3");

    let body = b"1234".to_vec();

    let request = session
        .request("POST", "http://localhost:45362/test")
        .body_vec(body)
        .header("Head", "value")
        .header("Head-Head", "value1")
        .header("User-Agent", "nttp")
        .header("Content-Type", "application/x-www-form-urlencoded")
        .header("Accept-Language", "en-en")
        .header("Accept", "*/*");

    assert_eq!(sent_lines(&request), request_lines);
    let parts = request.into_parts();
    assert!(parts.failure.is_none());
    assert_eq!(parts.body.chunk(0, 16384), "1234".as_bytes());

    let mut exchange = Exchange::new(());
    answer(
        &mut exchange,
        "HTTP/1.1 200 OK\r\n",
        &response_headers,
        "890".as_bytes(),
    );
    let response = exchange.finish(Ok(200)).1.unwrap();

    assert_eq!(response.status_code(), 200);
    assert_eq!(response.body(), "890".as_bytes());
    assert_eq!(response.headers().list().len(), 3);
    assert_eq!(response.headers().get("Head-Res").unwrap(), "response");
    assert_eq!(response.headers().get("Header").unwrap(), "res");
    assert_eq!(response.headers().get("Content-Length").unwrap(), "3");
}

#[test]
#[should_panic]
fn error_unsupported_url_sync() {
    send(Session::new().request("GET", "moz://a")).unwrap();
}

#[test]
fn unsupported_scheme_is_an_error_and_no_crash() {
    let result = send(Session::new().request("GET", "moz://a"));
    assert_eq!(result.unwrap_err(), Error::UnsupportedUrl);
}

#[test]
fn invalid_header_fails_the_request_before_it_is_sent() {
    let result = send(
        Session::new()
            .request("GET", "http://localhost:45362/test")
            .header("Key", "va\0lue"),
    );
    assert_eq!(result.unwrap_err(), Error::InvalidHeader);
}

#[test]
fn body_arrives_in_pieces() {
    let mut exchange = Exchange::new(7u32);
    assert_eq!(exchange.on_body(b"XY"), 2);
    assert_eq!(exchange.on_body(b""), 0);
    assert_eq!(exchange.on_body(b"Z"), 1);
    let (callback, result) = exchange.finish(Ok(200));
    assert_eq!(callback, 7);
    let response = result.unwrap();
    assert_eq!(response.body(), b"XYZ");
    assert_eq!(response.status_code(), 200);
    assert_eq!(response.headers().list().len(), 0);
}

#[test]
fn failed_transfer_ends_with_its_error() {
    let mut exchange = Exchange::new("cb");
    assert!(exchange.on_header(b"HTTP/1.1 200 OK\r\n"));
    assert!(exchange.on_header(b"A: b\r\n"));
    assert_eq!(exchange.on_body(b"partial"), 7);
    let failure = Error::Transport { code: 7, description: "Couldn't connect to server".to_string() };
    let (callback, result) = exchange.finish(Err(failure.clone()));
    assert_eq!(callback, "cb");
    assert_eq!(result.unwrap_err(), failure);
}

#[test]
fn refused_header_line_stops_the_transfer() {
    let mut exchange = Exchange::new(());
    assert!(exchange.on_header(b"HTTP/1.1 200 OK\r\n"));
    assert!(!exchange.on_header(b"garbage\r\n"));
    let response = exchange.finish(Ok(200)).1.unwrap();
    assert_eq!(response.headers().list().len(), 0);
}

#[test]
fn second_block_starts_with_a_status_line() {
    let mut exchange = Exchange::new(());
    assert!(exchange.on_header(b"HTTP/1.1 301 Moved\r\n"));
    assert!(exchange.on_header(b"Location: /b\r\n"));
    assert!(exchange.on_header(b"\r\n"));
    assert!(exchange.on_header(b"HTTP/1.1 200 OK\r\n"));
    assert!(exchange.on_header(b"Content-Length: 0\r\n"));
    assert!(exchange.on_header(b"\r\n"));
    let response = exchange.finish(Ok(200)).1.unwrap();
    assert_eq!(response.headers().get("Location"), Some("/b"));
    assert_eq!(response.headers().get("Content-Length"), Some("0"));
    assert_eq!(response.headers().list().len(), 2);
}
