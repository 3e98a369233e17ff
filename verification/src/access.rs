//! Gating of connection requests on the socket endpoint.
//!
//! After a cutoff moment, a request is turned away unless its query string
//! carries a `from` pair naming an accepted origin page; before that
//! moment, everything is let in. The server extracts the query pairs and
//! the wall-clock time and asks this module for the verdict.

use vstd::prelude::*;

verus! {

/// From this moment on (Unix seconds) requests must name an accepted
/// origin.
pub const FROM_QUERY_CUTOFF_UNIX: i64 = 1724017056;

/// The query key naming the requesting page: `from`.
pub open spec fn from_key() -> Seq<u8> {
    seq![102u8, 114u8, 111u8, 109u8]
}

/// An accepted origin value: `cc2`.
pub open spec fn cc2_value() -> Seq<u8> {
    seq![99u8, 99u8, 50u8]
}

/// The other accepted origin value: `index`.
pub open spec fn index_value() -> Seq<u8> {
    seq![105u8, 110u8, 100u8, 101u8, 120u8]
}

/// A query pair that marks the request as welcome.
pub open spec fn allowed_pair(k: Seq<u8>, v: Seq<u8>) -> bool {
    k == from_key() && (v == cc2_value() || v == index_value())
}

/// Byte-for-byte equality of two buffers.
fn bytes_eq(a: &Vec<u8>, b: &Vec<u8>) -> (r: bool)
    ensures
        r == (a@ == b@),
{
    if a.len() != b.len() {
        return false;
    }
    let mut i: usize = 0;
    while i < a.len()
        invariant
            i <= a@.len(),
            a@.len() == b@.len(),
            forall|k: int| 0 <= k < i ==> a@[k] == b@[k],
        decreases a@.len() - i,
    {
        if a[i] != b[i] {
            return false;
        }
        i = i + 1;
    }
    proof {
        assert(a@ =~= b@);
    }
    true
}

/// Decides whether a connection request is rejected: true exactly when the
/// cutoff has passed and no query pair names an accepted origin.
pub fn bad_from_query(now_unix: i64, pairs: &Vec<(Vec<u8>, Vec<u8>)>) -> (r: bool)
    ensures
        r == (now_unix > FROM_QUERY_CUTOFF_UNIX && !(exists|i: int|
            0 <= i < pairs@.len() && allowed_pair((#[trigger] pairs@[i]).0@, pairs@[i].1@))),
{
    if now_unix <= FROM_QUERY_CUTOFF_UNIX {
        return false;
    }
    let key: Vec<u8> = vec![102, 114, 111, 109];
    let v1: Vec<u8> = vec![99, 99, 50];
    let v2: Vec<u8> = vec![105, 110, 100, 101, 120];
    proof {
        assert(key@ =~= from_key());
        assert(v1@ =~= cc2_value());
        assert(v2@ =~= index_value());
    }
    let mut i: usize = 0;
    while i < pairs.len()
        invariant
            i <= pairs@.len(),
            key@ == from_key(),
            v1@ == cc2_value(),
            v2@ == index_value(),
            forall|k: int| 0 <= k < i ==> !allowed_pair((#[trigger] pairs@[k]).0@, pairs@[k].1@),
        decreases pairs@.len() - i,
    {
        let pair: &(Vec<u8>, Vec<u8>) = &pairs[i];
        if bytes_eq(&pair.0, &key) && (bytes_eq(&pair.1, &v1) || bytes_eq(&pair.1, &v2)) {
            proof {
                assert(allowed_pair(pairs@[i as int].0@, pairs@[i as int].1@));
            }
            return false;
        }
        i = i + 1;
    }
    true
}

} // verus!
