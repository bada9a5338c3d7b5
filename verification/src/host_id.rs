//! Derivation of the three-byte machine id from a host identifier.
//!
//! Reading the host identifier itself (a kernel-reported UUID or similar)
//! is platform work that lives outside this library; what lives here is the
//! derivation: the machine id is the first three bytes of the host
//! identifier's digest.

use vstd::prelude::*;
use vstd::string::StringSliceAdditionalSpecFns;

verus! {

/// The three bytes that identify the generating host.
pub type MachineIdBytes = [u8; 3];

/// What md5::compute returns for the given bytes.
pub uninterp spec fn md5_of(data: Seq<u8>) -> Seq<u8>;

/// Relies on md5::compute: a sixteen-byte digest that depends on the input
/// bytes alone.
#[verifier::external_body]
fn md5_digest(data: &[u8]) -> (r: [u8; 16])
    ensures
        r@ == md5_of(data@),
{
    md5::compute(data).0
}

/// Derives the machine id from a non-empty host identifier: the first three
/// bytes of the identifier's digest.
pub fn machine_id_from_host(host_id: &str) -> (r: MachineIdBytes)
    requires
        host_id@.len() > 0,
    ensures
        r@ == md5_of(host_id.spec_bytes()).subrange(0, 3),
{
    let digest = md5_digest(host_id.as_bytes());
    let r: MachineIdBytes = [digest[0], digest[1], digest[2]];
    proof {
        assert(r@ =~= md5_of(host_id.spec_bytes()).subrange(0, 3));
    }
    r
}

} // verus!
