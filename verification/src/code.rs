//! Probe-name resolution for the kernel bytecode host.
//!
//! The runtime loads the opaque bytecode image, walks the programs it
//! declares, and attaches each one under the target these functions
//! compute: kprobe names attach to the kernel function of the same
//! name, except for two aliases that both redirect to `tcp_v4_connect`;
//! trace-point names are written `<category>/<name>` and split on the
//! first slash.

use vstd::prelude::*;
use vstd::string::StringSliceAdditionalSpecFns;
use crate::text::{bytes_eq, bytes_of, find_byte, spec_find};

verus! {

/// The kernel function a kprobe program of this name attaches to.
pub open spec fn spec_kprobe_target(name: Seq<u8>) -> Seq<u8> {
    if name == "call-tcp-connect".spec_bytes() || name == "exit-tcp-connect".spec_bytes() {
        "tcp_v4_connect".spec_bytes()
    } else {
        name
    }
}

/// The category and name a trace-point program of this name attaches
/// to: the parts before and after the first slash, or an empty category
/// when there is no slash.
pub open spec fn spec_tracepoint_parts(name: Seq<u8>) -> (Seq<u8>, Seq<u8>) {
    let i = spec_find(name, 47);
    if i < name.len() {
        (name.take(i), name.skip(i + 1))
    } else {
        (Seq::empty(), name)
    }
}

/// Resolve a kprobe program name to the kernel function it attaches to.
pub fn kprobe_target(name: &[u8]) -> (t: Vec<u8>)
    ensures
        t@ == spec_kprobe_target(name@),
{
    if bytes_eq(name, "call-tcp-connect".as_bytes()) || bytes_eq(
        name,
        "exit-tcp-connect".as_bytes(),
    ) {
        let target = "tcp_v4_connect".as_bytes();
        let t = bytes_of(target, 0, target.len());
        proof {
            assert(target@.subrange(0, target@.len() as int) =~= target@);
        }
        t
    } else {
        let t = bytes_of(name, 0, name.len());
        proof {
            assert(name@.subrange(0, name@.len() as int) =~= name@);
        }
        t
    }
}

/// Split a trace-point program name into its category and name.
pub fn tracepoint_parts(name: &[u8]) -> (r: (Vec<u8>, Vec<u8>))
    ensures
        (r.0@, r.1@) == spec_tracepoint_parts(name@),
{
    let i = find_byte(name, 47);
    proof {
        crate::text::lemma_find(name@, 47);
    }
    if i < name.len() {
        let category = bytes_of(name, 0, i);
        let rest = bytes_of(name, i + 1, name.len());
        proof {
            assert(name@.subrange(0, i as int) =~= name@.take(i as int));
            assert(name@.subrange(i + 1, name@.len() as int) =~= name@.skip(i + 1));
        }
        (category, rest)
    } else {
        let empty: Vec<u8> = Vec::new();
        let whole = bytes_of(name, 0, name.len());
        proof {
            assert(empty@ =~= Seq::<u8>::empty());
            assert(name@.subrange(0, name@.len() as int) =~= name@);
        }
        (empty, whole)
    }
}

} // verus!
