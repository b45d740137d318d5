use endfield_patch::modules::http::{decimal_digits, redirect_url, DISPATCH_PORT, PORT};

#[test]
fn redirects_plain_request_to_game_port() {
    assert_eq!(
        redirect_url("https://game.example.com/api/login?id=7").as_deref(),
        Some("http://127.0.0.1:21000/api/login?id=7")
    );
}

#[test]
fn redirects_server_list_to_dispatch_port() {
    assert_eq!(
        redirect_url("https://dispatch.example.com/v1/get_server_list?lang=en").as_deref(),
        Some("http://127.0.0.1:21041/v1/get_server_list?lang=en")
    );
}

#[test]
fn redirects_remote_config_to_dispatch_port() {
    assert_eq!(
        redirect_url("https://cfg.example.com/remote_config").as_deref(),
        Some("http://127.0.0.1:21041/remote_config")
    );
}

#[test]
fn dispatch_marker_in_query_counts() {
    assert_eq!(
        redirect_url("https://a.example.com/x?next=/remote_config").as_deref(),
        Some("http://127.0.0.1:21041/x?next=/remote_config")
    );
}

#[test]
fn dispatch_marker_needs_leading_slash() {
    assert_eq!(
        redirect_url("https://remote_config.example.com/x").as_deref(),
        Some("http://127.0.0.1:21000/x")
    );
}

#[test]
fn url_without_path_gets_root_path() {
    assert_eq!(
        redirect_url("https://game.example.com").as_deref(),
        Some("http://127.0.0.1:21000/")
    );
    assert_eq!(redirect_url("https://").as_deref(), Some("http://127.0.0.1:21000/"));
}

#[test]
fn non_https_requests_are_left_alone() {
    assert_eq!(redirect_url("http://game.example.com/a"), None);
    assert_eq!(redirect_url("HTTPS://game.example.com/a"), None);
    assert_eq!(redirect_url("https:/x"), None);
    assert_eq!(redirect_url(""), None);
}

#[test]
fn redirected_url_is_not_redirected_again() {
    for url in [
        "https://a.example.com/get_server_list",
        "https://b.example.com/",
        "https://c.example.com",
    ] {
        let target = redirect_url(url).unwrap();
        assert_eq!(redirect_url(&target), None);
        assert!(target.starts_with("http://127.0.0.1:"));
    }
}

#[test]
fn redirect_keeps_non_ascii_path() {
    assert_eq!(
        redirect_url("https://h.example.com/é/ü?q=ß").as_deref(),
        Some("http://127.0.0.1:21000/é/ü?q=ß")
    );
}

#[test]
fn decimal_digits_of_ports() {
    let s: String = decimal_digits(PORT).into_iter().collect();
    assert_eq!(s, "21000");
    let s: String = decimal_digits(DISPATCH_PORT).into_iter().collect();
    assert_eq!(s, "21041");
    let s: String = decimal_digits(0).into_iter().collect();
    assert_eq!(s, "0");
    let s: String = decimal_digits(65535).into_iter().collect();
    assert_eq!(s, "65535");
}
