use nttp::error::{is_http_stack_code, Error};

#[test]
fn http_stack_codes_are_a_closed_range() {
    assert!(!is_http_stack_code(0));
    assert!(!is_http_stack_code(12000));
    assert!(is_http_stack_code(12001));
    assert!(is_http_stack_code(12029));
    assert!(is_http_stack_code(12156));
    assert!(!is_http_stack_code(12157));
    assert!(!is_http_stack_code(u32::MAX));
}

#[test]
fn transfer_failure_that_blames_the_url_is_unsupported_url() {
    assert_eq!(Error::transfer_failure(true, false, 1, "a".to_string()), Error::UnsupportedUrl);
    assert_eq!(Error::transfer_failure(false, true, 3, "b".to_string()), Error::UnsupportedUrl);
    assert_eq!(Error::transfer_failure(true, true, 3, "c".to_string()), Error::UnsupportedUrl);
}

#[test]
fn other_transfer_failure_keeps_code_and_description() {
    assert_eq!(
        Error::transfer_failure(false, false, 7, "Couldn't connect to server".to_string()),
        Error::Transport { code: 7, description: "Couldn't connect to server".to_string() }
    );
    assert_eq!(
        Error::transfer_failure(false, false, u32::MAX, String::new()),
        Error::Transport { code: 4294967295, description: String::new() }
    );
}

#[test]
fn native_unsupported_protocol_is_unsupported_url() {
    let e = curl::Error::new(1);
    let mapped = Error::transfer_failure(
        e.is_unsupported_protocol(),
        e.is_url_malformed(),
        e.code(),
        e.description().to_string(),
    );
    assert_eq!(mapped, Error::UnsupportedUrl);
}

#[test]
fn native_connect_failure_is_transport() {
    let e = curl::Error::new(7);
    let mapped = Error::transfer_failure(
        e.is_unsupported_protocol(),
        e.is_url_malformed(),
        e.code(),
        e.description().to_string(),
    );
    match mapped {
        Error::Transport { code, description } => {
            assert_eq!(code, 7);
            assert_eq!(description, e.description());
        }
        _ => panic!("not a transport failure"),
    }
}

#[test]
fn system_codes_for_the_url_are_unsupported_url() {
    assert_eq!(Error::from_system_code(12005, "x".to_string()), Error::UnsupportedUrl);
    assert_eq!(Error::from_system_code(12006, "x".to_string()), Error::UnsupportedUrl);
    assert_eq!(
        Error::from_system_code(12007, "name not resolved".to_string()),
        Error::Transport { code: 12007, description: "name not resolved".to_string() }
    );
    assert_eq!(
        Error::from_system_code(5, "access denied".to_string()),
        Error::Transport { code: 5, description: "access denied".to_string() }
    );
}

#[test]
fn session_codes_for_the_url_are_unsupported_url() {
    assert_eq!(Error::from_session_error(-1000, "NSURLErrorDomain", "bad URL"), Error::UnsupportedUrl);
    assert_eq!(
        Error::from_session_error(-1002, "NSURLErrorDomain", "unsupported URL"),
        Error::UnsupportedUrl
    );
    assert_eq!(
        Error::from_session_error(-1004, "NSURLErrorDomain", "Could not connect to the server."),
        Error::Transport {
            code: -1004,
            description: "NSURLErrorDomain Could not connect to the server.".to_string()
        }
    );
}

#[test]
fn describe_gives_the_words() {
    assert_eq!(Error::InvalidHeader.describe(), "Received Header had invalid format");
    assert_eq!(
        Error::UnsupportedUrl.describe(),
        "URL is malformed or its scheme is not supported"
    );
    assert_eq!(
        Error::Transport { code: 6, description: "Couldn't resolve host name".to_string() }
            .describe(),
        "Couldn't resolve host name"
    );
}
