//! Utility functions for dealing with extracted values in PT packets.

use vstd::prelude::*;

use crate::bitops::bit64;
use crate::decoder::level1::IpReconstructionPattern;

verus! {

/// The full 64-bit instruction pointer encoded by `pattern` against the
/// retained `last_ip`, or `None` when the IP is out of context.
pub open spec fn spec_reconstruct_ip(last_ip: u64, pattern: IpReconstructionPattern) -> Option<
    u64,
> {
    match pattern {
        IpReconstructionPattern::OutOfContext => None,
        IpReconstructionPattern::TwoBytesWithLastIp(p) => Some(
            (last_ip & 0xFFFF_FFFF_FFFF_0000) | (p as u64),
        ),
        IpReconstructionPattern::FourBytesWithLastIp(p) => Some(
            (last_ip & 0xFFFF_FFFF_0000_0000) | (p as u64),
        ),
        IpReconstructionPattern::SixBytesExtended(p) => Some(
            if bit64(p, 47) {
                p | 0xFFFF_0000_0000_0000
            } else {
                p
            },
        ),
        IpReconstructionPattern::SixBytesWithLastIp(p) => Some(
            (last_ip & 0xFFFF_0000_0000_0000) | (p as u64),
        ),
        IpReconstructionPattern::EightBytes(p) => Some(p),
    }
}

/// Follow the `ip_reconstruction_pattern` to update `last_ip`.
///
/// Returns `true` if `last_ip` was updated; `false` means the target of the
/// FUP or TIP is out of context and `last_ip` is untouched.
pub fn reconstruct_ip_and_update_last(
    last_ip: &mut u64,
    ip_reconstruction_pattern: IpReconstructionPattern,
) -> (r: bool)
    ensures
        match spec_reconstruct_ip(*old(last_ip), ip_reconstruction_pattern) {
            Some(ip) => r && *final(last_ip) == ip,
            None => !r && *final(last_ip) == *old(last_ip),
        },
{
    let ip: u64 = match ip_reconstruction_pattern {
        IpReconstructionPattern::OutOfContext => {
            return false;
        },
        IpReconstructionPattern::TwoBytesWithLastIp(payload) => (*last_ip & 0xFFFF_FFFF_FFFF_0000)
            | (payload as u64),
        IpReconstructionPattern::FourBytesWithLastIp(payload) => (*last_ip & 0xFFFF_FFFF_0000_0000)
            | (payload as u64),
        IpReconstructionPattern::SixBytesExtended(payload) => {
            if (payload >> 47) & 1 == 1 {
                payload | 0xFFFF_0000_0000_0000
            } else {
                payload
            }
        },
        IpReconstructionPattern::SixBytesWithLastIp(payload) => (*last_ip & 0xFFFF_0000_0000_0000)
            | (payload as u64),
        IpReconstructionPattern::EightBytes(payload) => payload,
    };
    *last_ip = ip;
    true
}

} // verus!
