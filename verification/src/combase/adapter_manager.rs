//! Routing of point keys to protocol adapters: a key names its protocol before
//! the first colon, as in `modbus:pump_speed`. The manager knows the configured
//! points by key and the protocols that have an adapter; a read or a write goes to
//! the adapter of the key's protocol, once the point and the adapter are found.

use vstd::prelude::*;
use crate::error::push_str;
use crate::text::{before_first, str_eq, text_before};

verus! {

/// Determines the protocol from a point key of the form "protocol:point_name":
/// the text before the first colon, or the whole key when it has none.
pub fn protocol_of(key: &str) -> (r: String)
    ensures
        r@ == before_first(key@, ':'),
{
    text_before(key, ':')
}


/// Whether `s` holds the text `t`.
pub open spec fn lists(s: Seq<String>, t: Seq<char>) -> bool {
    exists|i: int| 0 <= i < s.len() && #[trigger] s[i]@ == t
}

/// Where a read or write of the point with key `key` goes: the protocol whose
/// adapter serves it, or why there is none.
pub open spec fn route_of(points: Seq<String>, adapters: Seq<String>, key: Seq<char>) -> Result<Seq<char>, Seq<char>> {
    if !lists(points, key) {
        Err("Point not found: "@ + key)
    } else if !lists(adapters, before_first(key, ':')) {
        Err("Adapter not found for protocol: "@ + before_first(key, ':'))
    } else {
        Ok(before_first(key, ':'))
    }
}

/// The point keys the manager knows and the protocols that have an adapter.
pub struct AdapterManager {
    points: Vec<String>,
    adapters: Vec<String>,
}

/// Whether `t` is one of the texts of `s`.
fn listed(s: &Vec<String>, t: &str) -> (r: bool)
    ensures
        r == lists(s@, t@),
{
    let n = s.len();
    let mut i: usize = 0;
    while i < n
        invariant
            n == s@.len(),
            i <= n,
            forall|j: int| 0 <= j < i ==> #[trigger] s@[j]@ != t@,
        decreases n - i,
    {
        if str_eq(s[i].as_str(), t) {
            return true;
        }
        i = i + 1;
    }
    false
}

impl AdapterManager {
    /// The configured point keys.
    pub closed spec fn point_keys(&self) -> Seq<String> {
        self.points@
    }

    /// The protocols that have an adapter.
    pub closed spec fn adapter_protocols(&self) -> Seq<String> {
        self.adapters@
    }

    /// A manager for the given point keys and the protocols whose adapters were set up.
    pub fn new(points: Vec<String>, adapters: Vec<String>) -> (m: Self)
        ensures
            m.point_keys() == points@,
            m.adapter_protocols() == adapters@,
    {
        AdapterManager { points, adapters }
    }

    /// The protocol whose adapter serves a read or write of point `point_key`, or the
    /// error: the point is not configured, or its protocol has no adapter.
    pub fn route(&self, point_key: &str) -> (r: Result<String, String>)
        ensures
            match route_of(self.point_keys(), self.adapter_protocols(), point_key@) {
                Ok(p) => r matches Ok(q) && q@ == p,
                Err(m) => r matches Err(e) && e@ == m,
            },
    {
        if !listed(&self.points, point_key) {
            let mut msg = String::new();
            push_str(&mut msg, "Point not found: ");
            push_str(&mut msg, point_key);
            return Err(msg);
        }
        let protocol = protocol_of(point_key);
        if !listed(&self.adapters, protocol.as_str()) {
            let mut msg = String::new();
            push_str(&mut msg, "Adapter not found for protocol: ");
            push_str(&mut msg, protocol.as_str());
            return Err(msg);
        }
        Ok(protocol)
    }
}

} // verus!
