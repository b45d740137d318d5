//! Sinkholing of the telemetry and crash-report hosts.
use vstd::prelude::*;

use crate::il2cpp::{cstr_bytes, AsCStr};
use crate::text::{chars_eq, str_chars};

verus! {

/// Marker for the module that blocks telemetry hosts.
pub struct CcpBlocker;

/// The host names whose lookups are redirected to the unspecified address.
pub open spec fn blocked_hosts() -> Seq<Seq<char>> {
    seq![
        "event-log-api-ipv6.hypergryph.com"@,
        "event-log-api-data-lake-prod-cn.hypergryph.com"@,
        "pc.crashsight.qq.com"@,
        "crashsight.wetest.net"@,
    ]
}

/// The address that a blocked host name is replaced by.
pub open spec fn sinkhole_address() -> Seq<char> {
    "0.0.0.0"@
}

/// Whether lookups of `host` are blocked.
pub fn is_blocked(host: &str) -> (r: bool)
    ensures
        r == blocked_hosts().contains(host@),
        r == (host@ == "event-log-api-ipv6.hypergryph.com"@ || host@
            == "event-log-api-data-lake-prod-cn.hypergryph.com"@ || host@
            == "pc.crashsight.qq.com"@ || host@ == "crashsight.wetest.net"@),
{
    let h = str_chars(host);
    let r = chars_eq(&h, &str_chars("event-log-api-ipv6.hypergryph.com"))
        || chars_eq(&h, &str_chars("event-log-api-data-lake-prod-cn.hypergryph.com"))
        || chars_eq(&h, &str_chars("pc.crashsight.qq.com"))
        || chars_eq(&h, &str_chars("crashsight.wetest.net"));
    let ghost b = blocked_hosts();
    assert(b[0] == "event-log-api-ipv6.hypergryph.com"@);
    assert(b[1] == "event-log-api-data-lake-prod-cn.hypergryph.com"@);
    assert(b[2] == "pc.crashsight.qq.com"@);
    assert(b[3] == "crashsight.wetest.net"@);
    if r {
        assert(b.contains(host@));
    } else {
        assert forall|i: int| 0 <= i < b.len() implies b[i] != host@ by {}
    }
    r
}

/// The C string that the looked-up host name is overwritten with, or
/// `None` when lookups of `host` are left alone.
pub fn sinkhole_host(host: &str) -> (r: Option<Vec<u8>>)
    ensures
        r is Some <==> blocked_hosts().contains(host@),
        r is Some <==> (host@ == "event-log-api-ipv6.hypergryph.com"@ || host@
            == "event-log-api-data-lake-prod-cn.hypergryph.com"@ || host@
            == "pc.crashsight.qq.com"@ || host@ == "crashsight.wetest.net"@),
        r matches Some(bytes) ==> bytes@ == cstr_bytes(sinkhole_address()),
{
    if is_blocked(host) {
        Some("0.0.0.0".as_cstr())
    } else {
        None
    }
}

/// The sinkhole address is not itself a blocked host, so a rewritten
/// lookup is not rewritten again.
pub proof fn law_sinkhole_not_blocked()
    ensures
        !blocked_hosts().contains(sinkhole_address()),
{
    reveal_strlit("0.0.0.0");
    reveal_strlit("event-log-api-ipv6.hypergryph.com");
    reveal_strlit("event-log-api-data-lake-prod-cn.hypergryph.com");
    reveal_strlit("pc.crashsight.qq.com");
    reveal_strlit("crashsight.wetest.net");
    let b = blocked_hosts();
    assert forall|i: int| 0 <= i < b.len() implies b[i] != sinkhole_address() by {
        assert(b[i].len() != sinkhole_address().len());
    }
}

/// Exactly four hosts are blocked: a host name is blocked if and only if
/// it is one of the two event-log hosts or one of the two crash-report
/// hosts; every other name (the game's own servers among them) is looked
/// up as usual.
pub proof fn law_blocked_hosts_exact(host: Seq<char>)
    ensures
        blocked_hosts().len() == 4,
        blocked_hosts().contains(host) <==> (host == "event-log-api-ipv6.hypergryph.com"@ || host
            == "event-log-api-data-lake-prod-cn.hypergryph.com"@ || host == "pc.crashsight.qq.com"@
            || host == "crashsight.wetest.net"@),
{
    let b = blocked_hosts();
    assert(b[0] == "event-log-api-ipv6.hypergryph.com"@);
    assert(b[1] == "event-log-api-data-lake-prod-cn.hypergryph.com"@);
    assert(b[2] == "pc.crashsight.qq.com"@);
    assert(b[3] == "crashsight.wetest.net"@);
    if b.contains(host) {
        let i = choose|i: int| 0 <= i < b.len() && b[i] == host;
        assert(i == 0 || i == 1 || i == 2 || i == 3);
    }
}

} // verus!
