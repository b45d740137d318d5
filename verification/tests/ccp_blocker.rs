use endfield_patch::modules::ccp_blocker::{is_blocked, sinkhole_host};

#[test]
fn blocks_each_telemetry_host() {
    for host in [
        "event-log-api-ipv6.hypergryph.com",
        "event-log-api-data-lake-prod-cn.hypergryph.com",
        "pc.crashsight.qq.com",
        "crashsight.wetest.net",
    ] {
        assert!(is_blocked(host), "{host}");
        assert_eq!(sinkhole_host(host), Some(b"0.0.0.0\0".to_vec()));
    }
}

#[test]
fn leaves_other_hosts_alone() {
    for host in [
        "",
        "hypergryph.com",
        "pc.crashsight.qq.com.",
        "PC.CRASHSIGHT.QQ.COM",
        "xcrashsight.wetest.net",
        "game-config.gryphline.com",
    ] {
        assert!(!is_blocked(host), "{host}");
        assert_eq!(sinkhole_host(host), None);
    }
}

#[test]
fn sinkhole_address_is_not_blocked() {
    assert!(!is_blocked("0.0.0.0"));
}
