//! Capacity replies: the baseline a node offers and the warning for a
//! reply that carries no KEM public key.
use vstd::prelude::*;

verus! {

pub const DEFAULT_CAPACITY_CPU_MILLI: u32 = 1000;

pub const DEFAULT_CAPACITY_MEMORY_BYTES: u64 = 536870912;

pub const DEFAULT_CAPACITY_STORAGE_BYTES: u64 = 1073741824;

/// Input parameters for building a capacity reply.
#[derive(Debug, Clone)]
pub struct CapacityReplyParams<'a> {
    pub ok: bool,
    pub cpu_milli: u32,
    pub memory_bytes: u64,
    pub storage_bytes: u64,
    pub request_id: &'a str,
    pub responder_peer: &'a str,
    pub region: &'a str,
    pub capabilities: Vec<&'a str>,
}

/// Capacity reply payload alongside the optional encoded KEM public key.
#[derive(Debug, Clone)]
pub struct CapacityReply {
    pub payload: Vec<u8>,
    pub kem_pub_b64: Option<String>,
}

/// Baseline capacity parameters shared across request-response paths:
/// available, 1000 millicores, 512 MiB of memory, 1 GiB of storage, region
/// `local`, the single capability `default`.
pub fn baseline_capacity_params<'a>(request_id: &'a str, responder_peer: &'a str) -> (p:
    CapacityReplyParams<'a>)
    ensures
        p.ok,
        p.cpu_milli == DEFAULT_CAPACITY_CPU_MILLI,
        p.memory_bytes == DEFAULT_CAPACITY_MEMORY_BYTES,
        p.storage_bytes == DEFAULT_CAPACITY_STORAGE_BYTES,
        p.request_id@ == request_id@,
        p.responder_peer@ == responder_peer@,
        p.region@ == "local"@,
        p.capabilities@.len() == 1,
        p.capabilities@[0]@ == "default"@,
{
    let mut capabilities: Vec<&'a str> = Vec::new();
    capabilities.push("default");
    CapacityReplyParams {
        ok: true,
        cpu_milli: DEFAULT_CAPACITY_CPU_MILLI,
        memory_bytes: DEFAULT_CAPACITY_MEMORY_BYTES,
        storage_bytes: DEFAULT_CAPACITY_STORAGE_BYTES,
        request_id,
        responder_peer,
        region: "local",
        capabilities,
    }
}

/// The warning to log when a capacity reply lacks a KEM public key (absent
/// or empty), and nothing otherwise.
pub fn warn_missing_kem(context: &str, peer_label: &str, kem_pub_b64: Option<&str>) -> (w: Option<
    String,
>)
    ensures
        match kem_pub_b64 {
            Some(k) if k@.len() > 0 => w is None,
            _ => w matches Some(s) && s@ == "libp2p: "@ + context@
                + " capacity reply missing KEM public key for "@ + peer_label@,
        },
{
    let missing = match kem_pub_b64 {
        Some(k) => k.is_empty(),
        None => true,
    };
    if missing {
        Some(
            String::from_str("libp2p: ").concat(context).concat(
                " capacity reply missing KEM public key for ",
            ).concat(peer_label),
        )
    } else {
        None
    }
}

/// What a node's resource check found for a capacity request.
#[derive(Debug, Clone, Copy, PartialEq, Eq, Structural)]
pub struct CapacityCheck {
    pub has_capacity: bool,
    pub available_cpu_milli: u32,
    pub available_memory_bytes: u64,
    pub available_storage_bytes: u64,
}

/// Whether `p` is the baseline reply for the request and responder with
/// the given resources in place of the default ones.
pub open spec fn baseline_with(
    p: CapacityReplyParams,
    request_id: &str,
    responder_peer: &str,
    cpu_milli: u32,
    memory_bytes: u64,
    storage_bytes: u64,
) -> bool {
    &&& p.ok
    &&& p.cpu_milli == cpu_milli
    &&& p.memory_bytes == memory_bytes
    &&& p.storage_bytes == storage_bytes
    &&& p.request_id@ == request_id@
    &&& p.responder_peer@ == responder_peer@
    &&& p.region@ == "local"@
    &&& p.capabilities@.len() == 1
    &&& p.capabilities@[0]@ == "default"@
}

/// The reply to a scheduler capacity request: none while scheduling is
/// disabled on this node or when the resource check found no room;
/// otherwise an available reply that offers what the check found.
pub fn scheduler_reply_params<'a>(
    request_id: &'a str,
    responder_peer: &'a str,
    scheduling_disabled: bool,
    check: CapacityCheck,
) -> (r: Option<CapacityReplyParams<'a>>)
    ensures
        r is None <==> (scheduling_disabled || !check.has_capacity),
        r matches Some(p) ==> baseline_with(
            p,
            request_id,
            responder_peer,
            check.available_cpu_milli,
            check.available_memory_bytes,
            check.available_storage_bytes,
        ),
{
    if scheduling_disabled || !check.has_capacity {
        return None;
    }
    Some(
        local_capacity_params(
            request_id,
            responder_peer,
            check.available_cpu_milli,
            check.available_memory_bytes,
            check.available_storage_bytes,
        ),
    )
}

/// The reply a node gives itself for its own capacity query: the baseline
/// with the requested resources.
pub fn local_capacity_params<'a>(
    request_id: &'a str,
    responder_peer: &'a str,
    cpu_milli: u32,
    memory_bytes: u64,
    storage_bytes: u64,
) -> (p: CapacityReplyParams<'a>)
    ensures
        baseline_with(p, request_id, responder_peer, cpu_milli, memory_bytes, storage_bytes),
{
    let mut p = baseline_capacity_params(request_id, responder_peer);
    p.cpu_milli = cpu_milli;
    p.memory_bytes = memory_bytes;
    p.storage_bytes = storage_bytes;
    p
}

} // verus!
