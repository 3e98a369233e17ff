//! The two textual (JSON) control messages that cross the hub boundary.
//!
//! Server to client, once, right after connect: the assigned-ID notification
//! `{"myid":N}`. Either direction: the content-free heartbeat acknowledgment
//! `{"heartbeat":true}` (or `false`). Both are ASCII; the crate builds and
//! reads them as bytes. The inbound parser accepts JSON whitespace between
//! tokens and nothing else around them.

use vstd::prelude::*;

verus! {

/// The decimal digits of `n`, most significant first, as ASCII bytes.
pub open spec fn dec_digits(n: u32) -> Seq<u8>
    decreases n,
{
    if n < 10 {
        seq![(48 + n) as u8]
    } else {
        dec_digits(n / 10).push((48 + n % 10) as u8)
    }
}

/// Appends the decimal digits of `n`.
fn push_decimal(out: &mut Vec<u8>, n: u32)
    ensures
        final(out)@ == old(out)@ + dec_digits(n),
    decreases n,
{
    if n < 10 {
        out.push(48 + n as u8);
        proof {
            assert(out@ =~= old(out)@ + dec_digits(n));
        }
    } else {
        push_decimal(out, n / 10);
        out.push(48 + (n % 10) as u8);
        proof {
            assert(out@ =~= old(out)@ + dec_digits(n));
        }
    }
}

/// The bytes of `{"myid":` — the opening of the assigned-ID notification.
pub open spec fn myid_prefix() -> Seq<u8> {
    seq![123u8, 34u8, 109u8, 121u8, 105u8, 100u8, 34u8, 58u8]
}

/// The assigned-ID notification `{"myid":N}` for client id `n`.
pub open spec fn myid_bytes(n: u32) -> Seq<u8> {
    myid_prefix() + dec_digits(n) + seq![125u8]
}

/// Builds the assigned-ID notification `{"myid":N}`.
pub fn myid_message(n: u32) -> (r: Vec<u8>)
    ensures
        r@ == myid_bytes(n),
{
    let mut out: Vec<u8> = Vec::new();
    out.push(123);
    out.push(34);
    out.push(109);
    out.push(121);
    out.push(105);
    out.push(100);
    out.push(34);
    out.push(58);
    proof {
        assert(out@ =~= myid_prefix());
    }
    push_decimal(&mut out, n);
    out.push(125);
    proof {
        assert(out@ =~= myid_bytes(n));
    }
    out
}

/// The liveness probe `{"heartbeat":true}` that the server sends.
pub open spec fn heartbeat_bytes() -> Seq<u8> {
    seq![
        123u8,
        34u8,
        104u8,
        101u8,
        97u8,
        114u8,
        116u8,
        98u8,
        101u8,
        97u8,
        116u8,
        34u8,
        58u8,
        116u8,
        114u8,
        117u8,
        101u8,
        125u8,
    ]
}

/// Builds the liveness probe `{"heartbeat":true}`.
pub fn heartbeat_message() -> (r: Vec<u8>)
    ensures
        r@ == heartbeat_bytes(),
{
    let out: Vec<u8> = vec![123, 34, 104, 101, 97, 114, 116, 98, 101, 97, 116, 34, 58, 116, 114, 117, 101, 125];
    proof {
        assert(out@ =~= heartbeat_bytes());
    }
    out
}

/// JSON whitespace: space, tab, line feed, carriage return.
pub open spec fn is_ws(b: u8) -> bool {
    b == 32 || b == 9 || b == 10 || b == 13
}

/// The first index at or after `i` that holds a non-whitespace byte, or the
/// end of the input.
pub open spec fn skip_ws(s: Seq<u8>, i: int) -> int
    recommends
        0 <= i <= s.len(),
    decreases s.len() - i,
{
    if i < s.len() && is_ws(s[i]) {
        skip_ws(s, i + 1)
    } else {
        i
    }
}

/// The token `t` appears in `s` starting exactly at index `i`.
pub open spec fn token_at(s: Seq<u8>, i: int, t: Seq<u8>) -> bool
    recommends
        0 <= i,
{
    i + t.len() <= s.len() && s.subrange(i, i + t.len()) == t
}

/// The quoted key `"heartbeat"`.
pub open spec fn heartbeat_key() -> Seq<u8> {
    seq![34u8, 104u8, 101u8, 97u8, 114u8, 116u8, 98u8, 101u8, 97u8, 116u8, 34u8]
}

/// The literal `true`.
pub open spec fn true_token() -> Seq<u8> {
    seq![116u8, 114u8, 117u8, 101u8]
}

/// The literal `false`.
pub open spec fn false_token() -> Seq<u8> {
    seq![102u8, 97u8, 108u8, 115u8, 101u8]
}

/// What `parse_heartbeat` accepts: an object with the single key
/// `"heartbeat"` and a boolean value, with JSON whitespace allowed between
/// tokens, and nothing else before or after. Yields the boolean.
pub open spec fn spec_parse_heartbeat(s: Seq<u8>) -> Option<bool> {
    let i0 = skip_ws(s, 0);
    if !(i0 < s.len() && s[i0] == 123) {
        None
    } else {
        let i1 = skip_ws(s, i0 + 1);
        if !token_at(s, i1, heartbeat_key()) {
            None
        } else {
            let i2 = skip_ws(s, i1 + heartbeat_key().len());
            if !(i2 < s.len() && s[i2] == 58) {
                None
            } else {
                let i3 = skip_ws(s, i2 + 1);
                if token_at(s, i3, true_token()) {
                    spec_parse_close(s, i3 + true_token().len(), true)
                } else if token_at(s, i3, false_token()) {
                    spec_parse_close(s, i3 + false_token().len(), false)
                } else {
                    None
                }
            }
        }
    }
}

/// The tail of the grammar after the boolean: whitespace, `}`, whitespace,
/// end of input.
pub open spec fn spec_parse_close(s: Seq<u8>, i: int, val: bool) -> Option<bool>
    recommends
        0 <= i <= s.len(),
{
    let i4 = skip_ws(s, i);
    if !(i4 < s.len() && s[i4] == 125) {
        None
    } else if skip_ws(s, i4 + 1) == s.len() {
        Some(val)
    } else {
        None
    }
}

/// Decides whether one byte is JSON whitespace.
fn ws_byte(b: u8) -> (r: bool)
    ensures
        r == is_ws(b),
{
    b == 32 || b == 9 || b == 10 || b == 13
}

/// Advances past JSON whitespace.
fn skip_ws_from(s: &Vec<u8>, i: usize) -> (j: usize)
    requires
        i <= s@.len(),
    ensures
        j == skip_ws(s@, i as int),
        i <= j <= s@.len(),
{
    let mut j: usize = i;
    while j < s.len() && ws_byte(s[j])
        invariant
            i <= j <= s@.len(),
            skip_ws(s@, i as int) == skip_ws(s@, j as int),
        decreases s@.len() - j,
    {
        j = j + 1;
    }
    j
}

/// Tests whether `t` appears in `s` starting exactly at index `i`.
fn match_token(s: &Vec<u8>, i: usize, t: &Vec<u8>) -> (r: bool)
    requires
        i <= s@.len(),
    ensures
        r == token_at(s@, i as int, t@),
{
    let n: usize = s.len();
    if n - i < t.len() {
        proof {
            assert(!token_at(s@, i as int, t@));
        }
        return false;
    }
    let mut k: usize = 0;
    while k < t.len()
        invariant
            0 <= k <= t@.len(),
            i + t@.len() <= s@.len(),
            s@.len() == n,
            forall|m: int| 0 <= m < k ==> s@[i + m] == t@[m],
        decreases t@.len() - k,
    {
        assert(i + k < n);
        if s[i + k] != t[k] {
            proof {
                assert(s@.subrange(i as int, i + t@.len())[k as int] != t@[k as int]);
            }
            return false;
        }
        k = k + 1;
    }
    proof {
        assert(s@.subrange(i as int, i + t@.len()) =~= t@);
    }
    true
}

/// Parses an inbound heartbeat acknowledgment. Returns the boolean it
/// carries, or `None` when the bytes are not a heartbeat message — a
/// protocol violation that closes the connection.
pub fn parse_heartbeat(s: &Vec<u8>) -> (r: Option<bool>)
    ensures
        r == spec_parse_heartbeat(s@),
{
    let key: Vec<u8> = vec![34, 104, 101, 97, 114, 116, 98, 101, 97, 116, 34];
    let tok_true: Vec<u8> = vec![116, 114, 117, 101];
    let tok_false: Vec<u8> = vec![102, 97, 108, 115, 101];
    proof {
        assert(key@ =~= heartbeat_key());
        assert(tok_true@ =~= true_token());
        assert(tok_false@ =~= false_token());
    }
    let i0: usize = skip_ws_from(s, 0);
    if !(i0 < s.len() && s[i0] == 123) {
        return None;
    }
    let i1: usize = skip_ws_from(s, i0 + 1);
    if !match_token(s, i1, &key) {
        return None;
    }
    let i2: usize = skip_ws_from(s, i1 + key.len());
    if !(i2 < s.len() && s[i2] == 58) {
        return None;
    }
    let i3: usize = skip_ws_from(s, i2 + 1);
    let val: bool;
    let after: usize;
    if match_token(s, i3, &tok_true) {
        val = true;
        after = i3 + tok_true.len();
    } else if match_token(s, i3, &tok_false) {
        val = false;
        after = i3 + tok_false.len();
    } else {
        return None;
    }
    let i4: usize = skip_ws_from(s, after);
    if !(i4 < s.len() && s[i4] == 125) {
        return None;
    }
    if skip_ws_from(s, i4 + 1) == s.len() {
        Some(val)
    } else {
        None
    }
}

} // verus!
