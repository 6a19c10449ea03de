use http_client::errors::ClientError;
use http_client::url::{parse, split_host_port, Scheme, Target};

fn target(host: &str, path: &str, scheme: Scheme) -> Target {
    Target { host: host.to_string(), path: path.to_string(), scheme }
}

#[test]
fn http_prefix_selects_plain() {
    let t = parse("http://a.com/x").unwrap();
    assert_eq!(t.scheme, Scheme::Plain);
    assert_eq!(t.host, "a.com");
    assert_eq!(t.path, "x");
}

#[test]
fn https_prefix_selects_encrypted() {
    let t = parse("https://a.com/x").unwrap();
    assert_eq!(t.scheme, Scheme::Encrypted);
    assert_eq!(t.host, "a.com");
    assert_eq!(t.path, "x");
}

#[test]
fn https_mixed_case_keeps_host_case() {
    // Detection is case-insensitive, but the host keeps the input's case.
    let t = parse("HTTPS://Example.com/a/b").unwrap();
    assert_eq!(t.scheme, Scheme::Encrypted);
    assert_eq!(t.host, "Example.com");
    assert_eq!(t.path, "a/b");
}

#[test]
fn http_mixed_case_keeps_host_case() {
    let t = parse("HtTp://Foo.Bar/Baz/Qux").unwrap();
    assert_eq!(t.scheme, Scheme::Plain);
    assert_eq!(t.host, "Foo.Bar");
    assert_eq!(t.path, "Baz/Qux");
}

#[test]
fn custom_port_with_path() {
    let t = parse("example.com:8080/foo").unwrap();
    assert_eq!(t.scheme, Scheme::CustomPort(8080));
    assert_eq!(t.host, "example.com");
    assert_eq!(t.path, "foo");
}

#[test]
fn bare_host_defaults_to_plain() {
    let t = parse("example.com").unwrap();
    assert_eq!(t.scheme, Scheme::Plain);
    assert_eq!(t.host, "example.com");
    assert_eq!(t.path, "");
}

#[test]
fn non_numeric_port_is_invalid() {
    assert_eq!(parse("host:notanumber").unwrap_err(), ClientError::InvalidUrl);
}

#[test]
fn empty_port_is_invalid() {
    assert_eq!(parse("host:").unwrap_err(), ClientError::InvalidUrl);
}

#[test]
fn oversized_port_is_invalid() {
    assert_eq!(parse("host:65536").unwrap_err(), ClientError::InvalidUrl);
}

#[test]
fn second_colon_in_port_is_invalid() {
    assert_eq!(parse("host:80:90").unwrap_err(), ClientError::InvalidUrl);
}

#[test]
fn port_with_leading_zeros() {
    let t = parse("host:0080/x").unwrap();
    assert_eq!(t.scheme, Scheme::CustomPort(80));
    assert_eq!(t.host, "host");
    assert_eq!(t.path, "x");
}

#[test]
fn custom_port_host_is_lowercased() {
    // The custom-port branch works on the case-folded copy of the line.
    let t = parse("EXample.COM:8080/Foo").unwrap();
    assert_eq!(t.host, "example.com");
    assert_eq!(t.path, "foo");
    assert_eq!(t.scheme, Scheme::CustomPort(8080));
}

#[test]
fn surrounding_whitespace_is_trimmed() {
    let t = parse("  http://a.com/x  \n").unwrap();
    assert_eq!(t.scheme, Scheme::Plain);
    assert_eq!(t.host, "a.com");
    assert_eq!(t.path, "x");
}

#[test]
fn containment_quirk_misreads_plain_host() {
    // Documented quirk: scheme detection is by containment, not by an
    // anchored prefix, so a bare host whose name holds the letters `http`
    // is cut at the marker.
    let t = parse("myhttphost.com").unwrap();
    assert_eq!(t.scheme, Scheme::Plain);
    assert_eq!(t.host, "t.com");
    assert_eq!(t.path, "");
}

#[test]
fn containment_quirk_late_https_wins() {
    // Documented quirk: a later `https` outranks the leading `http://`, and
    // here the marker sits too close to the end to leave a remainder.
    assert_eq!(parse("http://xhttpsy").unwrap_err(), ClientError::InvalidUrl);
}

#[test]
fn slash_before_colon_splits_host() {
    let t = parse("a/b:80").unwrap();
    assert_eq!(t.scheme, Scheme::CustomPort(80));
    assert_eq!(t.host, "a");
    assert_eq!(t.path, "b");
}

#[test]
fn empty_remainder_after_marker() {
    let t = parse("https://").unwrap();
    assert_eq!(t.scheme, Scheme::Encrypted);
    assert_eq!(t.host, "");
    assert_eq!(t.path, "");
}

#[test]
fn connection_string_plain_default_port() {
    let t = target("example.com", "", Scheme::Plain);
    assert_eq!(t.connection_string(), "example.com:80");
}

#[test]
fn connection_string_encrypted_default_port() {
    let t = target("example.com", "a", Scheme::Encrypted);
    assert_eq!(t.connection_string(), "example.com:443");
}

#[test]
fn connection_string_custom_port() {
    let t = target("example.com", "", Scheme::CustomPort(8080));
    assert_eq!(t.connection_string(), "example.com:8080");
}

#[test]
fn split_host_port_round_trip() {
    let t = target("example.com", "", Scheme::CustomPort(8080));
    let (host, port) = split_host_port(&t.connection_string()).unwrap();
    assert_eq!(host, "example.com");
    assert_eq!(port, 8080);
}

#[test]
fn split_host_port_no_colon() {
    assert!(split_host_port("nocolon").is_none());
}

#[test]
fn split_host_port_bad_port() {
    assert!(split_host_port("host:99999").is_none());
    assert!(split_host_port("host:").is_none());
}

#[test]
fn error_messages() {
    assert_eq!(ClientError::InvalidUrl.message(), "Url must be valid.");
    assert_eq!(ClientError::AddressResolution.message(), "Url must be valid.");
    assert_eq!(ClientError::Connect.message(), "Couldn't connect.");
    assert_eq!(ClientError::TlsSetup.message(), "SSL: connector error.");
    assert_eq!(
        ClientError::TlsHandshake.message(),
        "SSL: couldn't establish an SSL connection."
    );
    assert_eq!(ClientError::Io.message(), "Write error");
    assert_eq!(ClientError::Input.message(), "Input must be valid.");
}
