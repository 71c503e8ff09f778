use gemini_grs::connection::{advance, ConnEvent, ConnPhase};
use gemini_grs::gemini_url::GeminiUrl;
use gemini_grs::paths::{apply_directory_index, check_valid_root, resolve_path};
use gemini_grs::response::GeminiResponse;
use gemini_grs::tls_policy::{fingerprint_hex, verify_peer, CertificateInfo};
use gemini_grs::GeminiError;

#[test]
fn bare_host_and_path_gets_default_scheme() {
    let u = GeminiUrl::new("example.org/foo.gmi").unwrap();
    assert_eq!(u.scheme, "gemini");
    assert_eq!(u.hostname, "example.org");
    assert_eq!(u.port, 1965);
    assert_eq!(u.path, "/foo.gmi");
}

#[test]
fn explicit_scheme_is_kept() {
    let u = GeminiUrl::new("gemini://example.org/foo.gmi").unwrap();
    assert_eq!(u.hostname, "example.org");
    assert_eq!(u.path, "/foo.gmi");
}

#[test]
fn wrong_scheme_is_invalid() {
    assert_eq!(
        GeminiUrl::new("https://example.org/").unwrap_err(),
        GeminiError::InvalidRequest
    );
}

#[test]
fn missing_host_is_invalid() {
    // `gemini:foo` parses but carries no host.
    assert_eq!(
        GeminiUrl::new("gemini:foo").unwrap_err(),
        GeminiError::InvalidRequest
    );
}

#[test]
fn unparsable_line_is_invalid() {
    assert!(GeminiUrl::new("gemini://exa mple.org/").is_err());
}

#[test]
fn default_port_and_path() {
    let u = GeminiUrl::new("gemini://example.org").unwrap();
    assert_eq!(u.port, 1965);
    assert_eq!(u.path, "/");
}

#[test]
fn explicit_port_is_used() {
    let u = GeminiUrl::new("gemini://example.org:1966/x").unwrap();
    assert_eq!(u.port, 1966);
    assert_eq!(u.path, "/x");
}

#[test]
fn request_bytes_are_trimmed_and_parsed() {
    let u = GeminiUrl::parse_request(b"gemini://example.org/x\r\n".to_vec(), false).unwrap();
    assert_eq!(u.hostname, "example.org");
    assert_eq!(u.path, "/x");
    let u = GeminiUrl::parse_request(b"  example.org/y.gmi \r\n".to_vec(), false).unwrap();
    assert_eq!(u.hostname, "example.org");
    assert_eq!(u.path, "/y.gmi");
}

#[test]
fn non_utf8_request_is_invalid() {
    assert_eq!(
        GeminiUrl::parse_request(vec![0xff, 0xfe, 0x20], false).unwrap_err(),
        GeminiError::InvalidRequest
    );
}

#[test]
fn truncated_request_is_invalid() {
    assert_eq!(
        GeminiUrl::parse_request(b"gemini://example.org/x\r\n".to_vec(), true).unwrap_err(),
        GeminiError::InvalidRequest
    );
}

#[test]
fn explicit_port_zero_is_invalid() {
    assert_eq!(
        GeminiUrl::new("gemini://example.org:0/").unwrap_err(),
        GeminiError::InvalidRequest
    );
}

#[test]
fn maximum_port_value() {
    let u = GeminiUrl::new("gemini://example.org:65535/").unwrap();
    assert_eq!(u.port, 65535);
    assert_eq!(u.render(), "gemini://example.org:65535/");
}

#[test]
fn url_renders_back_to_text() {
    let u = GeminiUrl::new("example.org/foo.gmi").unwrap();
    assert_eq!(u.render(), "gemini://example.org:1965/foo.gmi");
}

#[test]
fn query_is_not_part_of_the_path() {
    let u = GeminiUrl::new("gemini://example.org/x.gmi?q=1").unwrap();
    assert_eq!(u.path, "/x.gmi");
}

#[test]
fn bare_parent_request_fails() {
    assert_eq!(
        resolve_path("/srv", "/..").unwrap_err(),
        GeminiError::PathTraversal
    );
}

#[test]
fn plain_request_resolves_under_root() {
    let p = resolve_path("/srv/gemini", "/foo.gmi").unwrap();
    assert_eq!(p, "/srv/gemini/foo.gmi");
}

#[test]
fn root_request_resolves_to_root() {
    let p = resolve_path("/srv/gemini", "/").unwrap();
    assert_eq!(p, "/srv/gemini");
}

#[test]
fn empty_request_resolves_to_root() {
    let p = resolve_path("/srv/gemini", "").unwrap();
    assert_eq!(p, "/srv/gemini");
}

#[test]
fn traversal_above_root_fails() {
    assert_eq!(
        resolve_path("/srv/gemini", "/../../etc/passwd").unwrap_err(),
        GeminiError::PathTraversal
    );
}

#[test]
fn traversal_fails_whatever_the_leading_slash_count() {
    assert_eq!(
        resolve_path("/srv/gemini", "//../../etc/passwd").unwrap_err(),
        GeminiError::PathTraversal
    );
    assert_eq!(
        resolve_path("/srv/gemini", "../../../etc/passwd").unwrap_err(),
        GeminiError::PathTraversal
    );
}

#[test]
fn traversal_fails_at_any_depth() {
    assert_eq!(
        resolve_path("/srv/gemini", "/a/b/../../../x").unwrap_err(),
        GeminiError::PathTraversal
    );
}

#[test]
fn dotdot_inside_the_root_is_fine() {
    let p = resolve_path("/srv/gemini", "/a/../b.gmi").unwrap();
    assert_eq!(p, "/srv/gemini/b.gmi");
}

#[test]
fn dot_and_empty_segments_collapse() {
    let p = resolve_path("/srv/gemini", "/a/./b//c.gmi").unwrap();
    assert_eq!(p, "/srv/gemini/a/b/c.gmi");
}

#[test]
fn leaving_and_reentering_the_root_is_accepted() {
    let p = resolve_path("/srv", "/../srv/x.gmi").unwrap();
    assert_eq!(p, "/srv/x.gmi");
}

#[test]
fn filesystem_root_as_server_root() {
    let p = resolve_path("/", "/foo.gmi").unwrap();
    assert_eq!(p, "/foo.gmi");
}

#[test]
fn valid_roots_are_recognized() {
    assert!(check_valid_root("/srv/gemini"));
    assert!(check_valid_root("/srv/gemini/"));
    assert!(check_valid_root("/"));
    assert!(!check_valid_root("srv"));
    assert!(!check_valid_root(""));
    assert!(!check_valid_root("/srv/../x"));
    assert!(!check_valid_root("/srv//x"));
}

#[test]
fn directory_gets_index_file() {
    assert_eq!(
        apply_directory_index(String::from("/srv/gemini"), true),
        "/srv/gemini/index.gmi"
    );
    assert_eq!(apply_directory_index(String::from("/"), true), "/index.gmi");
}

#[test]
fn non_directory_is_left_alone() {
    assert_eq!(
        apply_directory_index(String::from("/srv/gemini/foo.gmi"), false),
        "/srv/gemini/foo.gmi"
    );
}

#[test]
fn mime_allow_list_is_exact() {
    assert_eq!(
        GeminiResponse::guess_mime_type("/srv/a.gmi").unwrap(),
        "text/gemini"
    );
    assert_eq!(
        GeminiResponse::guess_mime_type("/srv/a.jpg").unwrap(),
        "image/jpeg"
    );
    assert_eq!(
        GeminiResponse::guess_mime_type("/srv/a.jpeg").unwrap(),
        "image/jpeg"
    );
    assert_eq!(
        GeminiResponse::guess_mime_type("/srv/a.png").unwrap(),
        "image/png"
    );
    assert!(GeminiResponse::guess_mime_type("/srv/a.bmp").is_none());
    assert!(GeminiResponse::guess_mime_type("/srv/a.GMI").is_none());
    assert!(GeminiResponse::guess_mime_type("/srv/noext").is_none());
    assert!(GeminiResponse::guess_mime_type("/srv/dir/").is_none());
    assert!(GeminiResponse::guess_mime_type("/srv/.gitignore").is_none());
    assert!(GeminiResponse::guess_mime_type("/srv/trailing.").is_none());
}

#[test]
fn served_file_framing() {
    let body = vec![b'#', b' ', b'h', b'i', b'\n'];
    let resp = GeminiResponse::new("/srv/index.gmi", true, Some(body.clone())).unwrap();
    assert_eq!(resp.code, 20);
    assert_eq!(resp.mime_type.as_deref(), Some("text/gemini"));
    let mut expected = b"20\ttext/gemini\r\n".to_vec();
    expected.extend(body);
    assert_eq!(resp.get_bytes(), expected);
}

#[test]
fn missing_file_is_not_found() {
    let resp = GeminiResponse::new("/srv/missing.gmi", false, None).unwrap();
    assert_eq!(resp.code, 51);
    assert!(resp.mime_type.is_none());
    assert!(resp.data.is_none());
    assert_eq!(resp.get_bytes(), b"51\r\n".to_vec());
}

#[test]
fn disallowed_extension_is_not_found_even_when_present() {
    let resp = GeminiResponse::new("/srv/photo.bmp", true, Some(vec![1, 2, 3])).unwrap();
    assert_eq!(resp.code, 51);
    assert!(resp.mime_type.is_none());
    assert!(resp.data.is_none());
    assert_eq!(resp.get_bytes(), b"51\r\n".to_vec());
}

#[test]
fn unread_allowed_file_is_a_read_error() {
    assert_eq!(
        GeminiResponse::new("/srv/x.gmi", true, None).unwrap_err(),
        GeminiError::FileReadError
    );
}

#[test]
fn traversal_folds_into_not_found() {
    let resolution = resolve_path("/srv/gemini", "/../../etc/passwd");
    assert!(resolution.is_err());
    let resp = GeminiResponse::from_resolution(resolution, false, None).unwrap();
    assert_eq!(resp.code, 51);
    assert!(resp.mime_type.is_none());
    assert!(resp.data.is_none());
    assert_eq!(resp.get_bytes(), b"51\r\n".to_vec());
}

#[test]
fn resolved_candidate_is_answered_through_the_fold() {
    let resolution = resolve_path("/srv", "/a.gmi");
    let body = vec![1, 2, 3];
    let resp = GeminiResponse::from_resolution(resolution, true, Some(body.clone())).unwrap();
    assert_eq!(resp.code, 20);
    assert_eq!(resp.data, Some(body));
}

#[test]
fn full_request_for_directory_index() {
    let url = GeminiUrl::new("gemini://example.org/").unwrap();
    let candidate = resolve_path("/srv/gemini", &url.path).unwrap();
    let candidate = apply_directory_index(candidate, true);
    assert_eq!(candidate, "/srv/gemini/index.gmi");
    let body = b"# welcome\n".to_vec();
    let resp = GeminiResponse::new(&candidate, true, Some(body.clone())).unwrap();
    let mut expected = b"20\ttext/gemini\r\n".to_vec();
    expected.extend(body);
    assert_eq!(resp.get_bytes(), expected);
}

fn cert(issuer: Option<Vec<u8>>, subject: Option<Vec<u8>>, sig: bool, within: Option<bool>) -> CertificateInfo {
    CertificateInfo {
        issuer_der: issuer,
        subject_der: subject,
        self_signature_valid: sig,
        within_validity: within,
    }
}

#[test]
fn chain_validated_certificate_is_always_accepted() {
    assert!(verify_peer(true, None));
    let c = cert(Some(vec![1]), Some(vec![2]), false, Some(false));
    assert!(verify_peer(true, Some(&c)));
}

#[test]
fn good_self_signed_certificate_is_accepted() {
    let c = cert(Some(vec![1, 2]), Some(vec![1, 2]), true, Some(true));
    assert!(verify_peer(false, Some(&c)));
}

#[test]
fn each_single_violation_rejects() {
    let c = cert(Some(vec![1, 2]), Some(vec![1, 3]), true, Some(true));
    assert!(!verify_peer(false, Some(&c)));
    let c = cert(Some(vec![1, 2]), Some(vec![1, 2]), false, Some(true));
    assert!(!verify_peer(false, Some(&c)));
    let c = cert(Some(vec![1, 2]), Some(vec![1, 2]), true, Some(false));
    assert!(!verify_peer(false, Some(&c)));
    let c = cert(Some(vec![1, 2]), Some(vec![1, 2]), true, None);
    assert!(!verify_peer(false, Some(&c)));
    let c = cert(None, Some(vec![1, 2]), true, Some(true));
    assert!(!verify_peer(false, Some(&c)));
    let c = cert(Some(vec![1, 2]), None, true, Some(true));
    assert!(!verify_peer(false, Some(&c)));
}

#[test]
fn absent_certificate_is_rejected() {
    assert!(!verify_peer(false, None));
}

#[test]
fn fingerprints_are_lowercase_hex() {
    assert_eq!(fingerprint_hex(&vec![0x00, 0xab, 0xff]), "00abff");
    assert_eq!(fingerprint_hex(&vec![]), "");
    assert_eq!(fingerprint_hex(&vec![0x1a, 0x2b, 0x3c]), "1a2b3c");
}

#[test]
fn connection_walks_to_closed() {
    let mut phase = ConnPhase::Accepted;
    phase = advance(phase, ConnEvent::PeerAddressFound);
    assert_eq!(phase, ConnPhase::Handshaking);
    phase = advance(phase, ConnEvent::HandshakeCompleted);
    assert_eq!(phase, ConnPhase::Reading);
    phase = advance(phase, ConnEvent::LineRead);
    assert_eq!(phase, ConnPhase::Parsing);
    phase = advance(phase, ConnEvent::UrlParsed);
    assert_eq!(phase, ConnPhase::Resolving);
    phase = advance(phase, ConnEvent::ResponsePrepared);
    assert_eq!(phase, ConnPhase::Responding);
    phase = advance(phase, ConnEvent::ResponseWritten);
    assert_eq!(phase, ConnPhase::Closed);
}

#[test]
fn failures_land_in_errored() {
    assert_eq!(
        advance(ConnPhase::Handshaking, ConnEvent::HandshakeFailed),
        ConnPhase::Errored
    );
    assert_eq!(
        advance(ConnPhase::Reading, ConnEvent::ReadFailed),
        ConnPhase::Errored
    );
    assert_eq!(
        advance(ConnPhase::Parsing, ConnEvent::ParseFailed),
        ConnPhase::Errored
    );
    assert_eq!(
        advance(ConnPhase::Resolving, ConnEvent::FileReadFailed),
        ConnPhase::Errored
    );
    assert_eq!(
        advance(ConnPhase::Responding, ConnEvent::WriteFailed),
        ConnPhase::Errored
    );
}
