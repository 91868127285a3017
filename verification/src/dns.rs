//! Planning the DNS responder: which zone to build and where to bind it.
//!
//! The responder serves one authoritative zone holding a single A record for
//! the zone origin itself, pointing at whichever address the process ended up
//! with. When no address is available at all the responder is never started;
//! that is a logged, non-error outcome.

use crate::ip::Ipv4;
use vstd::prelude::*;

verus! {

/// UDP port the responder binds.
pub const DNS_PORT: u16 = 53;

/// Time-to-live of the single served record, in seconds.
pub const RECORD_TTL_SECS: u32 = 3600;

pub open spec fn spec_zone_origin() -> Seq<char> {
    "aliyun-hk.ms.net."@
}

/// The fixed origin of the single authoritative zone.
pub fn zone_origin() -> (r: String)
    ensures
        r@ == spec_zone_origin(),
{
    "aliyun-hk.ms.net.".to_owned()
}

/// Where the resolved address came from, if anywhere.
#[derive(Clone, Copy, Debug, PartialEq, Eq, Structural)]
pub enum BindTarget {
    /// The user configured the address statically.
    Static(Ipv4),
    /// The tunnel coordinator assigned the address within the wait bound.
    Acquired(Ipv4),
    /// Neither source produced an address; the responder stays down.
    Unavailable,
}

/// Classify the outcome of address resolution. The static address is
/// consulted first: when it is present, acquisition never ran and its result
/// is irrelevant.
pub fn bind_target(static_address: Option<Ipv4>, acquired: Option<Ipv4>) -> (t: BindTarget)
    ensures
        static_address matches Some(a) ==> t == BindTarget::Static(a),
        static_address is None ==> t == (match acquired {
            Some(a) => BindTarget::Acquired(a),
            None => BindTarget::Unavailable,
        }),
{
    match static_address {
        Some(a) => BindTarget::Static(a),
        None => match acquired {
            Some(a) => BindTarget::Acquired(a),
            None => BindTarget::Unavailable,
        },
    }
}

/// Everything the DNS engine needs: the zone origin, the A record served for
/// that origin, and the socket address to bind.
pub struct DnsPlan {
    pub origin: String,
    pub record_address: Ipv4,
    pub ttl_secs: u32,
    pub bind_address: Ipv4,
    pub port: u16,
}

impl DnsPlan {
    pub open spec fn wf(self) -> bool {
        &&& self.origin@ == spec_zone_origin()
        &&& self.record_address == self.bind_address
        &&& self.ttl_secs == RECORD_TTL_SECS
        &&& self.port == DNS_PORT
    }
}

/// Build the responder's plan. A plan exists exactly when an address is
/// available; it binds that address on port 53 and serves it as the single
/// A record of the fixed zone, TTL one hour.
pub fn plan_dns(target: BindTarget) -> (r: Option<DnsPlan>)
    ensures
        r is Some <==> !(target == BindTarget::Unavailable),
        r matches Some(p) ==> ({
            &&& p.wf()
            &&& (target == BindTarget::Static(p.bind_address) || target == BindTarget::Acquired(
                p.bind_address,
            ))
        }),
{
    let addr = match target {
        BindTarget::Static(a) => a,
        BindTarget::Acquired(a) => a,
        BindTarget::Unavailable => {
            return None;
        },
    };
    Some(
        DnsPlan {
            origin: zone_origin(),
            record_address: addr,
            ttl_secs: RECORD_TTL_SECS,
            bind_address: addr,
            port: DNS_PORT,
        },
    )
}

} // verus!
