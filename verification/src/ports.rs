//! Choosing listening ports for the services.
//!
//! Whether a port can be bound is asked of the operating system; that question
//! is handed in as a probe, and every search below is stated for every answer
//! the probe may give.

use vstd::prelude::*;
use crate::service::{display_name_of, ServiceType};
use crate::text::{decimal, push_decimal, push_str, push_chars};

verus! {

/// The MySQL port that the default settings use.
pub const DEFAULT_MYSQL_PORT: u16 = 3306;

/// A port the search may take: not zero and not held by another service.
pub open spec fn eligible(p: u16, reserved: Seq<u16>) -> bool {
    p > 0 && !reserved.contains(p)
}

/// The probe may have answered `true` for `p`.
pub open spec fn probe_said<F: Fn(u16) -> bool>(probe: F, p: u16, answer: bool) -> bool {
    call_ensures(probe, (p,), answer)
}

/// `p` is a port the search takes.
pub open spec fn accepted<F: Fn(u16) -> bool>(probe: F, p: u16, reserved: Seq<u16>) -> bool {
    eligible(p, reserved) && probe_said(probe, p, true)
}

/// `p` is a port the search passes over.
pub open spec fn rejected<F: Fn(u16) -> bool>(probe: F, p: u16, reserved: Seq<u16>) -> bool {
    !eligible(p, reserved) || probe_said(probe, p, false)
}

/// Every port of `lo..=hi` was passed over.
pub open spec fn range_rejected<F: Fn(u16) -> bool>(
    probe: F,
    lo: int,
    hi: int,
    reserved: Seq<u16>,
) -> bool {
    forall|q: int| lo <= q <= hi ==> #[trigger] rejected(probe, q as u16, reserved)
}

/// `a + b`, or `u16::MAX` where that does not fit.
pub open spec fn saturating(a: u16, b: u16) -> u16 {
    if a + b > u16::MAX {
        u16::MAX
    } else {
        (a + b) as u16
    }
}

/// The first port tried after the preferred one. Next to the default MySQL
/// port one port is skipped, where X Protocol or a second server often sits.
pub open spec fn first_fallback_spec(t: ServiceType, preferred: u16) -> u16 {
    if t == ServiceType::MySQL && preferred == DEFAULT_MYSQL_PORT {
        saturating(preferred, 2)
    } else {
        saturating(preferred, 1)
    }
}

/// The last port of the nearby search.
pub open spec fn nearby_end(t: ServiceType, preferred: u16) -> u16 {
    let first = first_fallback_spec(t, preferred);
    let end = saturating(preferred, 100);
    if end >= first {
        end
    } else {
        first
    }
}

/// The first port of the dynamic range scanned last.
pub const DYNAMIC_PORT_START: u16 = 49152;

/// The preferred port was passed over.
pub open spec fn preferred_rejected<F: Fn(u16) -> bool>(
    probe: F,
    preferred: u16,
    reserved: Seq<u16>,
) -> bool {
    rejected(probe, preferred, reserved)
}

/// What a search for a port for `t` near `preferred` may return: the preferred
/// port if it is free, else the first free port of the nearby range, else the
/// first free port of the dynamic range, else nothing.
pub open spec fn search_outcome<F: Fn(u16) -> bool>(
    probe: F,
    t: ServiceType,
    preferred: u16,
    reserved: Seq<u16>,
    r: Option<u16>,
) -> bool {
    let first = first_fallback_spec(t, preferred) as int;
    let end = nearby_end(t, preferred) as int;
    match r {
        Some(p) => {
            &&& accepted(probe, p, reserved)
            &&& {
                ||| p == preferred
                ||| (preferred_rejected(probe, preferred, reserved) && first <= p <= end
                    && range_rejected(probe, first, p - 1, reserved))
                ||| (preferred_rejected(probe, preferred, reserved) && range_rejected(
                    probe,
                    first,
                    end,
                    reserved,
                ) && DYNAMIC_PORT_START <= p && range_rejected(
                    probe,
                    DYNAMIC_PORT_START as int,
                    p - 1,
                    reserved,
                ))
            }
        },
        None => {
            &&& preferred_rejected(probe, preferred, reserved)
            &&& range_rejected(probe, first, end, reserved)
            &&& range_rejected(probe, DYNAMIC_PORT_START as int, u16::MAX as int, reserved)
        },
    }
}

/// Whether `reserved` holds `p`.
pub fn is_reserved(reserved: &[u16], p: u16) -> (b: bool)
    ensures
        b == reserved@.contains(p),
{
    let mut i: usize = 0;
    while i < reserved.len()
        invariant
            i <= reserved.len(),
            forall|j: int| 0 <= j < i ==> reserved@[j] != p,
        decreases reserved.len() - i,
    {
        if reserved[i] == p {
            assert(reserved@[i as int] == p);
            return true;
        }
        i = i + 1;
    }
    false
}

/// The first port tried after the preferred one.
pub fn first_fallback_port(service_type: ServiceType, preferred_port: u16) -> (p: u16)
    ensures
        p == first_fallback_spec(service_type, preferred_port),
{
    if service_type == ServiceType::MySQL && preferred_port == DEFAULT_MYSQL_PORT {
        preferred_port.saturating_add(2)
    } else {
        preferred_port.saturating_add(1)
    }
}

/// Scans `lo..=hi` for the first port that is eligible and that the probe accepts.
fn search_range<F: Fn(u16) -> bool>(lo: u16, hi: u16, reserved: &[u16], probe: &F) -> (r:
    Option<u16>)
    requires
        lo <= hi,
        forall|p: u16| call_requires(*probe, (p,)),
    ensures
        match r {
            Some(p) => lo <= p <= hi && accepted(*probe, p, reserved@) && range_rejected(
                *probe,
                lo as int,
                p - 1,
                reserved@,
            ),
            None => range_rejected(*probe, lo as int, hi as int, reserved@),
        },
{
    let mut port: u32 = lo as u32;
    while port <= hi as u32
        invariant
            lo <= port <= hi as u32 + 1,
            forall|p: u16| call_requires(*probe, (p,)),
            range_rejected(*probe, lo as int, port - 1, reserved@),
        decreases hi as u32 + 1 - port,
    {
        let p = port as u16;
        if p > 0 && !is_reserved(reserved, p) {
            if probe(p) {
                return Some(p);
            }
        }
        assert(rejected(*probe, p, reserved@));
        assert forall|q: int| lo <= q <= port implies #[trigger] rejected(
            *probe,
            q as u16,
            reserved@,
        ) by {
            if q < port {
                assert(lo <= q <= port - 1);
            }
        }
        port = port + 1;
    }
    None
}

/// Looks for a port for `service_type` that no other service holds: the
/// preferred port if it can be bound, else one close above it, else one in the
/// dynamic range.
pub fn find_available_port_excluding<F: Fn(u16) -> bool>(
    service_type: ServiceType,
    preferred_port: u16,
    reserved_ports: &[u16],
    probe: &F,
) -> (r: Option<u16>)
    requires
        forall|p: u16| call_requires(*probe, (p,)),
    ensures
        search_outcome(*probe, service_type, preferred_port, reserved_ports@, r),
{
    if preferred_port > 0 && !is_reserved(reserved_ports, preferred_port) {
        if probe(preferred_port) {
            return Some(preferred_port);
        }
    }
    assert(preferred_rejected(*probe, preferred_port, reserved_ports@));
    let first = first_fallback_port(service_type, preferred_port);
    let end = preferred_port.saturating_add(100);
    let last = if end >= first {
        end
    } else {
        first
    };
    match search_range(first, last, reserved_ports, probe) {
        Some(p) => {
            return Some(p);
        },
        None => {},
    }
    search_range(DYNAMIC_PORT_START, 65535, reserved_ports, probe)
}

/// The message given when no port can be found.
pub open spec fn no_port_message(t: ServiceType, preferred: u16) -> Seq<char> {
    "No available fallback port found for "@ + display_name_of(t) + " near "@ + decimal(
        preferred as nat,
    ) + "."@
}

/// Like [`find_available_port_excluding`], with an error message where no
/// port is found.
pub fn select_available_port<F: Fn(u16) -> bool>(
    service_type: ServiceType,
    preferred_port: u16,
    reserved_ports: &[u16],
    probe: &F,
) -> (r: Result<u16, String>)
    requires
        forall|p: u16| call_requires(*probe, (p,)),
    ensures
        match r {
            Ok(p) => search_outcome(*probe, service_type, preferred_port, reserved_ports@, Some(p)),
            Err(e) => search_outcome(*probe, service_type, preferred_port, reserved_ports@, None)
                && e@ == no_port_message(service_type, preferred_port),
        },
{
    match find_available_port_excluding(service_type, preferred_port, reserved_ports, probe) {
        Some(p) => Ok(p),
        None => {
            let mut msg = String::new();
            push_str(&mut msg, "No available fallback port found for ");
            push_str(&mut msg, service_type.display_name());
            push_str(&mut msg, " near ");
            let mut d: Vec<char> = Vec::new();
            push_decimal(&mut d, preferred_port as u64);
            push_chars(&mut msg, d.as_slice());
            push_str(&mut msg, ".");
            assert(msg@ =~= no_port_message(service_type, preferred_port));
            Err(msg)
        },
    }
}

/// The port for the web server. Where the preferred port is taken, stale web
/// server processes of this runtime are stopped first (`stop_stale`, which
/// answers how many it stopped, after waiting for the port where it stopped
/// any) and the preferred port is tried once more; only then is another port
/// searched for.
pub fn select_caddy_port<F: Fn(u16) -> bool, G: FnOnce() -> Result<usize, String>>(
    preferred_port: u16,
    reserved_ports: &[u16],
    probe: &F,
    stop_stale: G,
) -> (r: Result<u16, String>)
    requires
        forall|p: u16| call_requires(*probe, (p,)),
        call_requires(stop_stale, ()),
    ensures
        match r {
            Ok(p) => (p == preferred_port && !reserved_ports@.contains(p) && probe_said(
                *probe,
                p,
                true,
            )) || search_outcome(*probe, ServiceType::Caddy, preferred_port, reserved_ports@, Some(p)),
            Err(e) => call_ensures(stop_stale, (), Err(e)) || (search_outcome(
                *probe,
                ServiceType::Caddy,
                preferred_port,
                reserved_ports@,
                None,
            ) && e@ == no_port_message(ServiceType::Caddy, preferred_port)),
        },
{
    if !is_reserved(reserved_ports, preferred_port) && probe(preferred_port) {
        return Ok(preferred_port);
    }
    let stopped = match stop_stale() {
        Ok(n) => n,
        Err(e) => {
            return Err(e);
        },
    };
    if stopped > 0 {
        if !is_reserved(reserved_ports, preferred_port) && probe(preferred_port) {
            return Ok(preferred_port);
        }
    }
    select_available_port(ServiceType::Caddy, preferred_port, reserved_ports, probe)
}

/// What [`find_available_port`] may return: the preferred port where the probe
/// accepts it, else the first accepted port above it and below 65535, and the
/// preferred port again where none is (so 65535 gives 65535 whatever the probe
/// answers).
pub open spec fn simple_search_outcome<F: Fn(u16) -> bool>(probe: F, preferred: u16, r: u16) -> bool {
    ||| (r == preferred && probe_said(probe, preferred, true))
    ||| (probe_said(probe, preferred, false) && preferred < r < u16::MAX && probe_said(probe, r, true)
        && forall|q: int| preferred < q < r ==> #[trigger] probe_said(probe, q as u16, false))
    ||| (r == preferred && probe_said(probe, preferred, false) && forall|q: int|
        preferred < q < u16::MAX ==> #[trigger] probe_said(probe, q as u16, false))
}

/// Finds an available port starting from the preferred port (`available` says
/// whether nothing listens on a port and it can be bound).
pub fn find_available_port<F: Fn(u16) -> bool>(preferred: u16, available: &F) -> (r: u16)
    requires
        forall|p: u16| call_requires(*available, (p,)),
    ensures
        simple_search_outcome(*available, preferred, r),
        preferred == u16::MAX ==> r == u16::MAX,
{
    if available(preferred) {
        return preferred;
    }
    if preferred == u16::MAX {
        return preferred;
    }
    let mut port: u16 = preferred + 1;
    while port < 65535
        invariant
            preferred < port <= u16::MAX,
            forall|p: u16| call_requires(*available, (p,)),
            probe_said(*available, preferred, false),
            forall|q: int| preferred < q < port ==> #[trigger] probe_said(
                *available,
                q as u16,
                false,
            ),
        decreases u16::MAX - port,
    {
        if available(port) {
            return port;
        }
        port = port + 1;
    }
    preferred
}

} // verus!
