use devboule_daemon::tailscale_http::{
    parse_http_response, response_is_complete, LocalApiError, BODY_CAP, HEADER_CAP,
};
use devboule_daemon::tailscale_localapi::{
    bare_addresses, macos_sandbox_is_a_later_slice, map_io, open_pipe_step, parse_addresses, parse_self_node, parse_whois,
    read_response, request_text, response_body, status_path, whois_path, Address, ApiNode, Endpoint,
    LocalApiClient, OpenFailure, OpenStep, Platform, ReadEvent, ReadStep, ReadAddress,
    StatusResponse, WhoIsResponse, WhoIsUser, DEFAULT_TIMEOUT_MS, DEFAULT_UNIX_SOCKET, LOCALAPI_PIPE,
};
use serde_json::Value;

fn node(stable_id: Option<&str>, name: Option<&str>, addresses: &[&str], ips: &[&str]) -> ApiNode {
    ApiNode {
        stable_id: stable_id.map(str::to_string),
        name: name.map(str::to_string),
        dns_name: None,
        addresses: addresses.iter().map(|a| a.to_string()).collect(),
        tailscale_ips: ips.iter().map(|a| a.to_string()).collect(),
    }
}

fn v4(a: u32, b: u32, c: u32, d: u32) -> Address {
    Address::V4((a << 24) | (b << 16) | (c << 8) | d)
}

fn readings(entries: &[(&str, Option<Address>)]) -> Vec<ReadAddress> {
    entries
        .iter()
        .map(|(text, address)| ReadAddress {
            text: text.to_string(),
            address: *address,
        })
        .collect()
}

fn text_at(value: &Value, key: &str) -> Option<String> {
    value.get(key).and_then(Value::as_str).map(str::to_string)
}

fn texts_at(value: &Value, key: &str) -> Vec<String> {
    value
        .get(key)
        .and_then(Value::as_array)
        .map(|items| {
            items
                .iter()
                .filter_map(|item| item.as_str().map(str::to_string))
                .collect()
        })
        .unwrap_or_default()
}

fn node_at(value: &Value, key: &str) -> Option<ApiNode> {
    value.get(key).map(|node| ApiNode {
        stable_id: text_at(node, "StableID"),
        name: text_at(node, "Name"),
        dns_name: text_at(node, "DNSName"),
        addresses: texts_at(node, "Addresses"),
        tailscale_ips: texts_at(node, "TailscaleIPs"),
    })
}

fn read_whois(body: &str) -> Result<WhoIsResponse, String> {
    let value: Value = serde_json::from_str(body).map_err(|error| error.to_string())?;
    Ok(WhoIsResponse {
        node: node_at(&value, "Node"),
        user_profile: value.get("UserProfile").map(|user| WhoIsUser {
            id: user.get("ID").cloned(),
            login_name: text_at(user, "LoginName"),
        }),
        cap_map: value.get("CapMap").cloned().unwrap_or(Value::Null),
    })
}

fn read_status(body: &str) -> Result<StatusResponse, String> {
    let value: Value = serde_json::from_str(body).map_err(|error| error.to_string())?;
    Ok(StatusResponse {
        self_node: node_at(&value, "Self"),
    })
}

#[test]
fn http_response_requires_a_content_length_and_refuses_chunking() {
    let ok = b"HTTP/1.1 200 OK\r\nContent-Length: 2\r\n\r\n{}";
    let (status, body) = parse_http_response(ok).expect("well formed");
    assert_eq!(status, 200);
    assert_eq!(body, b"{}");

    let missing = b"HTTP/1.1 200 OK\r\n\r\nhello";
    assert!(matches!(
        parse_http_response(missing),
        Err(LocalApiError::Protocol(_))
    ));

    let chunked = b"HTTP/1.1 200 OK\r\nTransfer-Encoding: chunked\r\nContent-Length: 2\r\n\r\n{}";
    assert!(matches!(
        parse_http_response(chunked),
        Err(LocalApiError::Protocol(_))
    ));

    let oversized = format!(
        "HTTP/1.1 200 OK\r\nContent-Length: {}\r\n\r\n",
        BODY_CAP + 1
    );
    assert!(matches!(
        parse_http_response(oversized.as_bytes()),
        Err(LocalApiError::Protocol(_))
    ));

    let not_http = b"GARBAGE\r\nContent-Length: 0\r\n\r\n";
    assert!(matches!(
        parse_http_response(not_http),
        Err(LocalApiError::Protocol(_))
    ));
}

#[test]
fn response_is_complete_only_with_the_whole_body() {
    assert!(!response_is_complete(b"HTTP/1.1 200 OK\r\nContent-Len").expect("partial headers"));
    assert!(
        !response_is_complete(b"HTTP/1.1 200 OK\r\nContent-Length: 10\r\n\r\nabc")
            .expect("short body")
    );
    assert!(
        response_is_complete(b"HTTP/1.1 200 OK\r\nContent-Length: 3\r\n\r\nabc").expect("complete")
    );
}

#[test]
fn non_200_is_a_status_error() {
    let raw = b"HTTP/1.1 401 Unauthorized\r\nContent-Length: 0\r\n\r\n";
    let (status, _) = parse_http_response(raw).expect("parses");
    assert_eq!(status, 401);
    assert!(matches!(response_body(raw), Err(LocalApiError::Status(401))));
}

#[test]
fn a_complete_response_does_not_change_with_what_follows() {
    let raw = b"HTTP/1.1 200 OK\r\nContent-Length: 3\r\n\r\nabc";
    let mut more = raw.to_vec();
    more.extend_from_slice(b"HTTP/1.1 500 no\r\n\r\n");
    assert_eq!(response_body(raw).expect("body"), b"abc");
    assert_eq!(response_body(&more).expect("body"), b"abc");
    assert!(response_is_complete(&more).expect("complete"));
}

#[test]
fn refusals_say_what_was_wrong() {
    let said = |raw: &[u8]| parse_http_response(raw).expect_err("refused").message();
    assert_eq!(
        said(b"HTTP/1.1 abc\r\nContent-Length: 0\r\n\r\n"),
        "tailscale localapi protocol: unexpected status line \"HTTP/1.1 abc\""
    );
    assert_eq!(
        said(b"HTTP/1.1 200 OK\r\nno colon\r\n\r\n"),
        "tailscale localapi protocol: malformed header \"no colon\""
    );
    assert_eq!(
        said(b"HTTP/1.1 200 OK\r\ncontent-length : x\r\n\r\n"),
        "tailscale localapi protocol: invalid Content-Length \"x\""
    );
    assert_eq!(
        said(b"HTTP/1.1 200 OK\r\nContent-Length: 70000\r\n\r\n"),
        "tailscale localapi protocol: Content-Length 70000 exceeds the 64 KiB body cap"
    );
    assert_eq!(
        said(b"HTTP/1.1 200 OK\r\nX: \xff\r\n\r\n"),
        "tailscale localapi protocol: response headers are not UTF-8"
    );
    assert_eq!(
        said(b"HTTP/1.1 200 OK\r\nContent-Length: 4\r\n\r\nabc"),
        "tailscale localapi protocol: response body is shorter than its length"
    );
    assert_eq!(
        said(b"HTTP/1.1 200 OK\r\n"),
        "tailscale localapi protocol: response headers did not end within 8 KiB"
    );
    assert_eq!(
        parse_http_response(b"HTTP/1.0 +204 x\r\nContent-Length:+0\r\n\r\n").expect("plus signs").0,
        204
    );
}

#[test]
fn recorded_whois_response_parses() {
    let response = read_whois(
        r#"{
            "Node": {
                "StableID": "nxd5gUfvzj11CNTRL",
                "Name": "marcos-macbook-pro.tail80a42d.ts.net.",
                "Addresses": ["100.74.116.126/32"]
            },
            "UserProfile": {"ID": 4711, "LoginName": "user@example.com"},
            "CapMap": null
        }"#,
    );
    let entries = bare_addresses(
        response
            .as_ref()
            .expect("read")
            .node
            .as_ref()
            .expect("node"),
    );
    assert_eq!(entries, vec!["100.74.116.126".to_string()]);
    let read = readings(&[("100.74.116.126", Some(v4(100, 74, 116, 126)))]);
    let whois = parse_whois(&response, &read).expect("fixture parses");
    assert_eq!(whois.stable_id, "nxd5gUfvzj11CNTRL");
    assert_eq!(whois.node_name, "marcos-macbook-pro.tail80a42d.ts.net.");
    assert_eq!(whois.login_name, "user@example.com");
    assert!(!whois.user_id.is_empty());
    assert_eq!(whois.user_id, "4711");
    assert!(!whois.cap_map_present, "CapMap is null on this machine");
    assert!(whois.addresses.contains(&v4(100, 74, 116, 126)));
}

#[test]
fn whois_without_a_node_is_a_parse_error() {
    assert!(matches!(
        parse_whois(&read_whois(r#"{"UserProfile":{"LoginName":"a@b"}}"#), &[]),
        Err(LocalApiError::Parse(_))
    ));
    assert!(matches!(
        parse_whois(&read_whois(r#"{"Node":{"Name":"host"}}"#), &[]),
        Err(LocalApiError::Parse(_))
    ));
    assert!(matches!(
        parse_whois(&read_whois("not json"), &[]),
        Err(LocalApiError::Parse(_))
    ));
}

#[test]
fn self_node_parses_stable_id_and_addresses() {
    let response = read_status(
        r#"{
            "Self": {
                "StableID": "nJZ7SELFNODE0001",
                "DNSName": "marcolenovo.tail80a42d.ts.net.",
                "TailscaleIPs": ["100.102.128.70"]
            }
        }"#,
    );
    let read = readings(&[("100.102.128.70", Some(v4(100, 102, 128, 70)))]);
    let node = parse_self_node(&response, &read).expect("status parses");
    assert_eq!(node.stable_id, "nJZ7SELFNODE0001");
    assert_eq!(node.node_name, "marcolenovo.tail80a42d.ts.net.");
    assert_eq!(node.addresses, vec![v4(100, 102, 128, 70)]);
    assert!(matches!(
        parse_self_node(&read_status("{}"), &[]),
        Err(LocalApiError::Parse(_))
    ));
}

#[test]
fn cidr_and_bare_addresses_are_both_accepted_without_duplicates() {
    let node = node(
        None,
        None,
        &["100.64.0.2/32", "100.64.0.2/32"],
        &["100.64.0.2", "fd7a::1"],
    );
    let bare = bare_addresses(&node);
    assert_eq!(bare, ["100.64.0.2", "100.64.0.2", "100.64.0.2", "fd7a::1"]);
    let six = Address::V6(0xfd7a_0000_0000_0000_0000_0000_0000_0001);
    let read = [
        Some(v4(100, 64, 0, 2)),
        Some(v4(100, 64, 0, 2)),
        Some(v4(100, 64, 0, 2)),
        Some(six),
        None,
    ];
    assert_eq!(parse_addresses(&read), vec![v4(100, 64, 0, 2), six]);
    // What was read elsewhere counts for nothing, and what was not read is left
    // out.
    let read = readings(&[
        ("10.0.0.1", Some(v4(10, 0, 0, 1))),
        ("fd7a::1", Some(six)),
        ("fd7a::1", None),
    ]);
    let own = parse_self_node(
        &Ok(StatusResponse {
            self_node: Some(node),
        }),
        &read,
    );
    assert_eq!(own.expect("node").addresses, vec![six]);
}

#[test]
fn headers_over_the_cap_are_refused_even_where_they_end_later() {
    let flood = |padding: usize| {
        let mut raw = b"HTTP/1.1 200 OK\r\nContent-Length: 2\r\nX: ".to_vec();
        raw.resize(raw.len() + padding, b'a');
        raw.extend_from_slice(b"\r\n\r\n{}");
        raw
    };
    let fixed = flood(0).len() - 6;
    let fits = flood(HEADER_CAP - fixed);
    assert!(response_is_complete(&fits).expect("within the cap"));
    assert_eq!(parse_http_response(&fits).expect("within the cap").1, b"{}");
    let over = flood(HEADER_CAP - fixed + 1);
    assert_eq!(
        response_is_complete(&over).expect_err("over the cap").message(),
        "tailscale localapi protocol: response headers exceed 8 KiB"
    );
    assert_eq!(
        parse_http_response(&over).expect_err("over the cap").message(),
        "tailscale localapi protocol: response headers did not end within 8 KiB"
    );
}

#[test]
fn a_user_id_is_text_whatever_it_was() {
    let whois = |id: Option<Value>| {
        let response = WhoIsResponse {
            node: Some(node(Some("n"), None, &[], &[])),
            user_profile: Some(WhoIsUser {
                id,
                login_name: None,
            }),
            cap_map: Value::Bool(true),
        };
        parse_whois(&Ok(response), &[]).expect("whois")
    };
    assert_eq!(whois(Some(Value::String("u1".to_string()))).user_id, "u1");
    assert_eq!(whois(Some(Value::from(-3))).user_id, "-3");
    assert_eq!(whois(Some(Value::Null)).user_id, "");
    assert_eq!(whois(Some(Value::Array(vec![Value::from(1)]))).user_id, "[1]");
    let nobody = whois(None);
    assert_eq!(nobody.user_id, "");
    assert_eq!(nobody.login_name, "");
    assert_eq!(nobody.node_name, "");
    assert!(nobody.cap_map_present);
}

#[test]
fn a_missing_pipe_is_reported_as_absent() {
    let name = "\\\\.\\pipe\\devboule-localapi-does-not-exist";
    let client = LocalApiClient::with_pipe_name(name, 200);
    assert_eq!(client.endpoint, Endpoint::Pipe(name.to_string()));
    assert_eq!(client.timeout_ms, 200);
    assert!(matches!(
        open_pipe_step(name, OpenFailure::NotFound, true),
        OpenStep::Sleep
    ));
    match open_pipe_step(name, OpenFailure::NotFound, false) {
        OpenStep::Fail(LocalApiError::Absent(_)) => {}
        other => panic!("expected Absent, got {other:?}"),
    }
    assert!(matches!(
        open_pipe_step(name, OpenFailure::Busy, true),
        OpenStep::WaitForInstance
    ));
    match open_pipe_step("p", OpenFailure::Busy, false) {
        OpenStep::Fail(error) => assert_eq!(
            error.message(),
            "tailscale localapi transport: CreateFileW(p) failed with os error 231"
        ),
        other => panic!("expected a failure, got {other:?}"),
    }
    assert!(matches!(
        open_pipe_step(name, OpenFailure::Other(5), true),
        OpenStep::Fail(LocalApiError::Transport(_))
    ));
}

#[test]
fn the_default_endpoint_is_the_platforms_unless_configured() {
    assert_eq!(
        LocalApiClient::new(Platform::Windows, None).endpoint,
        Endpoint::Pipe(LOCALAPI_PIPE.to_string())
    );
    assert_eq!(
        LocalApiClient::new(Platform::Windows, Some("")).endpoint,
        Endpoint::Pipe(LOCALAPI_PIPE.to_string())
    );
    let unix = LocalApiClient::with_timeout(Platform::Unix, None, 9);
    assert_eq!(
        unix.endpoint,
        Endpoint::UnixSocket(DEFAULT_UNIX_SOCKET.to_string())
    );
    assert_eq!(unix.timeout_ms, 9);
    let chosen = LocalApiClient::new(Platform::Unix, Some("/tmp/x"));
    assert_eq!(chosen.endpoint, Endpoint::UnixSocket("/tmp/x".to_string()));
    assert_eq!(chosen.timeout_ms, DEFAULT_TIMEOUT_MS);
    let given = LocalApiClient::with_endpoint(Endpoint::Pipe("p".to_string()), 1);
    assert_eq!(given.endpoint, Endpoint::Pipe("p".to_string()));
}

#[test]
fn requests_name_the_path() {
    assert_eq!(
        request_text(&whois_path("100.74.116.126:443")),
        "GET /localapi/v0/whois?addr=100.74.116.126:443 HTTP/1.1\r\nHost: local-tailscaled.sock\r\nConnection: close\r\n\r\n"
    );
    assert_eq!(status_path(), "/localapi/v0/status");
}

#[test]
fn reading_stops_at_a_complete_response_and_stays_bounded() {
    let mut raw = Vec::new();
    let first = read_response(
        &mut raw,
        ReadEvent::Bytes(b"HTTP/1.1 200 OK\r\nContent-Length: 2\r\n\r\n{".to_vec()),
    );
    assert!(matches!(first, ReadStep::More));
    let second = read_response(&mut raw, ReadEvent::Bytes(b"}".to_vec()));
    assert!(matches!(second, ReadStep::Done));
    assert_eq!(response_body(&raw).expect("body"), b"{}");

    let mut raw = Vec::new();
    let flood = read_response(&mut raw, ReadEvent::Bytes(vec![b'a'; HEADER_CAP + 1]));
    assert!(matches!(flood, ReadStep::Fail(LocalApiError::Protocol(_))));
    let mut raw = Vec::new();
    let huge = read_response(
        &mut raw,
        ReadEvent::Bytes(vec![b'a'; HEADER_CAP + BODY_CAP + 1]),
    );
    match huge {
        ReadStep::Fail(error) => assert_eq!(
            error.message(),
            "tailscale localapi protocol: response exceeds the 64 KiB body cap"
        ),
        other => panic!("expected a failure, got {other:?}"),
    }
    let mut raw = b"x".to_vec();
    assert!(matches!(
        read_response(&mut raw, ReadEvent::Bytes(Vec::new())),
        ReadStep::Done
    ));
    assert!(matches!(
        read_response(&mut raw, ReadEvent::Deadline),
        ReadStep::Fail(LocalApiError::Timeout)
    ));
    let failed = ReadEvent::Failed {
        timed_out: false,
        error: "broken".to_string(),
    };
    match read_response(&mut raw, failed) {
        ReadStep::Fail(error) => assert_eq!(
            error.message(),
            "tailscale localapi transport: reading the response: broken"
        ),
        other => panic!("expected a failure, got {other:?}"),
    }
    assert_eq!(
        map_io(true, "writing the request", "x").message(),
        "tailscale localapi timed out"
    );
}

#[test]
fn errors_speak_for_themselves() {
    assert_eq!(
        LocalApiError::Absent("gone".to_string()).message(),
        "tailscale is not running: gone"
    );
    assert_eq!(
        LocalApiError::Unsupported("u".to_string()).message(),
        "tailscale localapi unsupported: u"
    );
    assert_eq!(
        LocalApiError::Status(502).message(),
        "tailscale localapi answered HTTP 502"
    );
    assert_eq!(
        LocalApiError::Parse("p".to_string()).message(),
        "tailscale localapi json: p"
    );
}

#[test]
fn the_sandboxed_transport_is_refused_in_words() {
    assert_eq!(
        macos_sandbox_is_a_later_slice().message(),
        "tailscale localapi unsupported: the macOS App Store tailscaled transport (loopback port plus a same-user token) is slice 6"
    );
}
