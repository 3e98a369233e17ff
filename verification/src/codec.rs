//! The variable-length diff/snapshot wire format.
//!
//! A frame is zero or more sections concatenated in a fixed order, all fields
//! little-endian: first an update section (tag 2, entry count, then per entry
//! a 32-bit client id and the two float coordinates), present only when it
//! has at least one entry; then a remove section (tag 3, id count, then the
//! 32-bit ids), present only when it has at least one id. A frame with zero
//! sections is never sent; the encoder signals "nothing to send" with `None`.

use crate::position::position_bytes;
use crate::position::Position;
use vstd::bytes::lemma_auto_spec_u32_to_from_le_bytes;
use vstd::bytes::spec_u32_to_le_bytes;
use vstd::bytes::u32_to_le_bytes;
use vstd::prelude::*;

verus! {

/// Wire tag of an update section.
pub const UPDATE_TAG: u32 = 2;

/// Wire tag of a remove section.
pub const REMOVE_TAG: u32 = 3;

/// One update entry: client id, then x bits, then y bits.
pub open spec fn entry_bytes(e: (u32, Position)) -> Seq<u8> {
    spec_u32_to_le_bytes(e.0) + position_bytes(e.1)
}

/// The update entries concatenated in order.
pub open spec fn entries_bytes(es: Seq<(u32, Position)>) -> Seq<u8>
    decreases es.len(),
{
    if es.len() == 0 {
        Seq::empty()
    } else {
        entries_bytes(es.drop_last()) + entry_bytes(es.last())
    }
}

/// The removed ids concatenated in order.
pub open spec fn ids_bytes(ids: Seq<u32>) -> Seq<u8>
    decreases ids.len(),
{
    if ids.len() == 0 {
        Seq::empty()
    } else {
        ids_bytes(ids.drop_last()) + spec_u32_to_le_bytes(ids.last())
    }
}

/// An update section: tag, entry count, entries.
pub open spec fn update_section(es: Seq<(u32, Position)>) -> Seq<u8>
    recommends
        es.len() <= u32::MAX,
{
    spec_u32_to_le_bytes(UPDATE_TAG) + spec_u32_to_le_bytes(es.len() as u32) + entries_bytes(es)
}

/// A remove section: tag, id count, ids.
pub open spec fn remove_section(ids: Seq<u32>) -> Seq<u8>
    recommends
        ids.len() <= u32::MAX,
{
    spec_u32_to_le_bytes(REMOVE_TAG) + spec_u32_to_le_bytes(ids.len() as u32) + ids_bytes(ids)
}

/// A whole diff frame: each section appears exactly when it is non-empty.
pub open spec fn diff_bytes(es: Seq<(u32, Position)>, ids: Seq<u32>) -> Seq<u8>
    recommends
        es.len() <= u32::MAX,
        ids.len() <= u32::MAX,
{
    (if es.len() > 0 {
        update_section(es)
    } else {
        Seq::<u8>::empty()
    }) + (if ids.len() > 0 {
        remove_section(ids)
    } else {
        Seq::<u8>::empty()
    })
}

/// Appends the little-endian bytes of one 32-bit value.
fn push_u32_le(out: &mut Vec<u8>, v: u32)
    ensures
        final(out)@ == old(out)@ + spec_u32_to_le_bytes(v),
{
    let mut b: Vec<u8> = u32_to_le_bytes(v);
    out.append(&mut b);
}

/// Appends every update entry in order.
fn push_entries(out: &mut Vec<u8>, es: &Vec<(u32, Position)>)
    ensures
        final(out)@ == old(out)@ + entries_bytes(es@),
{
    let mut i: usize = 0;
    while i < es.len()
        invariant
            i <= es.len(),
            out@ == old(out)@ + entries_bytes(es@.subrange(0, i as int)),
        decreases es.len() - i,
    {
        let e: (u32, Position) = es[i];
        push_u32_le(out, e.0);
        push_u32_le(out, e.1.x_bits);
        push_u32_le(out, e.1.y_bits);
        i = i + 1;
        proof {
            let pre = es@.subrange(0, i - 1);
            let cur = es@.subrange(0, i as int);
            assert(cur.drop_last() =~= pre);
            assert(cur.last() == es@[i - 1]);
            assert(out@ =~= old(out)@ + entries_bytes(cur));
        }
    }
    proof {
        assert(es@.subrange(0, es@.len() as int) =~= es@);
    }
}

/// Appends every removed id in order.
fn push_ids(out: &mut Vec<u8>, ids: &Vec<u32>)
    ensures
        final(out)@ == old(out)@ + ids_bytes(ids@),
{
    let mut i: usize = 0;
    while i < ids.len()
        invariant
            i <= ids.len(),
            out@ == old(out)@ + ids_bytes(ids@.subrange(0, i as int)),
        decreases ids.len() - i,
    {
        let id: u32 = ids[i];
        push_u32_le(out, id);
        i = i + 1;
        proof {
            let pre = ids@.subrange(0, i - 1);
            let cur = ids@.subrange(0, i as int);
            assert(cur.drop_last() =~= pre);
            assert(cur.last() == ids@[i - 1]);
            assert(out@ =~= old(out)@ + ids_bytes(cur));
        }
    }
    proof {
        assert(ids@.subrange(0, ids@.len() as int) =~= ids@);
    }
}

/// Builds the diff frame carrying the given update entries and removed ids.
/// Returns `None` exactly when both are empty: the explicit "nothing to
/// send" signal. A returned frame is never empty.
pub fn encode_diff(updates: &Vec<(u32, Position)>, removes: &Vec<u32>) -> (r: Option<Vec<u8>>)
    requires
        updates@.len() <= u32::MAX,
        removes@.len() <= u32::MAX,
    ensures
        r is None <==> updates@.len() == 0 && removes@.len() == 0,
        r matches Some(m) ==> m@ == diff_bytes(updates@, removes@) && m@.len() > 0,
{
    if updates.len() == 0 && removes.len() == 0 {
        return None;
    }
    proof {
        lemma_auto_spec_u32_to_from_le_bytes();
    }
    let mut out: Vec<u8> = Vec::new();
    if updates.len() > 0 {
        push_u32_le(&mut out, UPDATE_TAG);
        push_u32_le(&mut out, updates.len() as u32);
        push_entries(&mut out, updates);
        proof {
            assert(out@ =~= update_section(updates@));
        }
    }
    if removes.len() > 0 {
        let ghost head = out@;
        push_u32_le(&mut out, REMOVE_TAG);
        push_u32_le(&mut out, removes.len() as u32);
        push_ids(&mut out, removes);
        proof {
            assert(out@ =~= head + remove_section(removes@));
        }
    }
    proof {
        assert(out@ =~= diff_bytes(updates@, removes@));
    }
    Some(out)
}

/// Builds a bare update section listing the given entries: the wire shape of
/// the connect-time snapshot.
pub fn encode_update_section(entries: &Vec<(u32, Position)>) -> (r: Vec<u8>)
    requires
        0 < entries@.len() <= u32::MAX,
    ensures
        r@ == update_section(entries@),
        r@.len() > 0,
{
    proof {
        lemma_auto_spec_u32_to_from_le_bytes();
    }
    let mut out: Vec<u8> = Vec::new();
    push_u32_le(&mut out, UPDATE_TAG);
    push_u32_le(&mut out, entries.len() as u32);
    push_entries(&mut out, entries);
    proof {
        assert(out@ =~= update_section(entries@));
    }
    out
}

} // verus!
