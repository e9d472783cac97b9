//! Splitting a frame's payload into transport-sized fragments, and the laws
//! that tie the pieces back to the payload.

use vstd::prelude::*;
use vstd::arithmetic::div_mod::lemma_fundamental_div_mod_converse;
use crate::envelope::FrameEnvelope;

verus! {

/// A part of one frame, sized to fit one transport message.
#[derive(Debug, Clone)]
pub struct Fragment {
    pub producer_id: u32,
    pub sequence_number: u32,
    pub fragment_index: u64,
    pub fragment_count: u64,
    pub bytes: Vec<u8>,
}

/// How many fragments a payload of `len` bytes needs when one message holds
/// `m` bytes: `ceil(len / m)`, and a single empty fragment for an empty payload.
pub open spec fn fragment_count_for(len: nat, m: nat) -> nat {
    if len == 0 {
        1
    } else {
        ((len + m - 1) as nat / m) as nat
    }
}

/// One past the last byte of fragment `i`.
pub open spec fn piece_end(len: nat, m: nat, i: nat) -> nat {
    if (i + 1) * m <= len {
        ((i + 1) * m) as nat
    } else {
        len
    }
}

/// The bytes that fragment `i` of payload `p` carries.
pub open spec fn piece(p: Seq<u8>, m: nat, i: nat) -> Seq<u8> {
    p.subrange((i * m) as int, piece_end(p.len(), m, i) as int)
}

/// The bytes of parts `0..n`, concatenated in index order.
pub open spec fn assemble(parts: Map<nat, Seq<u8>>, n: nat) -> Seq<u8>
    decreases n,
{
    if n == 0 {
        Seq::empty()
    } else {
        assemble(parts, (n - 1) as nat) + parts[(n - 1) as nat]
    }
}

/// `parts` holds, under each index below the fragment count, that piece of `p`.
pub open spec fn holds_pieces(parts: Map<nat, Seq<u8>>, p: Seq<u8>, m: nat) -> bool {
    forall|i: nat|
        i < fragment_count_for(p.len(), m) ==> parts.contains_key(i) && #[trigger] parts[i]
            == piece(p, m, i)
}

/// A non-empty payload needs at least one fragment.
proof fn lemma_count_positive(len: nat, m: nat)
    requires
        m > 0,
        len > 0,
    ensures
        fragment_count_for(len, m) >= 1,
{
    let x = (len + m - 1) as int;
    vstd::arithmetic::div_mod::lemma_fundamental_div_mod(x, m as int);
    vstd::arithmetic::div_mod::lemma_mod_pos_bound(x, m as int);
    let q = x / (m as int);
    assert(q >= 1) by (nonlinear_arith)
        requires
            x == m * q + x % (m as int),
            x % (m as int) < m,
            x >= m,
            m > 0,
    ;
}

/// `count` is the number of fragments exactly when they cover a non-empty
/// payload and the last one starts inside it.
proof fn lemma_count_from_bounds(len: nat, m: nat, count: nat)
    requires
        m > 0,
        len > 0,
        count > 0,
        (count - 1) * m < len,
        len <= count * m,
    ensures
        count == fragment_count_for(len, m),
{
    let r = len + m - 1 - count * m;
    assert((count - 1) * m == count * m - m) by (nonlinear_arith);
    lemma_fundamental_div_mod_converse((len + m - 1) as int, m as int, count as int, r);
}

/// Fragment `i` below the count starts inside the payload.
proof fn lemma_piece_starts_inside(len: nat, m: nat, i: nat)
    requires
        m > 0,
        len > 0,
        i < fragment_count_for(len, m),
    ensures
        i * m < len,
{
    let n = fragment_count_for(len, m);
    let x = (len + m - 1) as int;
    assert(x == (x / (m as int)) * m + x % (m as int)) by {
        vstd::arithmetic::div_mod::lemma_fundamental_div_mod(x, m as int);
    }
    assert(0 <= x % (m as int) && x % (m as int) < m) by {
        vstd::arithmetic::div_mod::lemma_mod_pos_bound(x, m as int);
    }
    assert(i * m + m <= n * m) by (nonlinear_arith)
        requires
            i + 1 <= n,
            m > 0,
    ;
}

/// Splitting a payload and concatenating the pieces in index order gives
/// back the payload, and every piece but the last fills a whole message.
pub proof fn lemma_fragment_round_trip(p: Seq<u8>, m: nat, parts: Map<nat, Seq<u8>>)
    requires
        m > 0,
        holds_pieces(parts, p, m),
    ensures
        assemble(parts, fragment_count_for(p.len(), m)) == p,
        forall|i: nat|
            i + 1 < fragment_count_for(p.len(), m) ==> (#[trigger] piece(p, m, i)).len() == m,
        forall|i: nat| i < fragment_count_for(p.len(), m) ==> (#[trigger] piece(p, m, i)).len() <= m,
        p.len() > 0 ==> (fragment_count_for(p.len(), m) - 1) * m < p.len() <= fragment_count_for(
            p.len(),
            m,
        ) * m,
{
    let len = p.len();
    let n = fragment_count_for(len, m);
    if len == 0 {
        assert(piece_end(0, m, 0) == 0);
        assert(assemble(parts, 1) =~= assemble(parts, 0) + parts[0]);
        assert(p =~= Seq::<u8>::empty());
    } else {
        lemma_count_positive(len, m);
        lemma_assemble_prefix(p, m, parts, n);
        lemma_piece_starts_inside(len, m, (n - 1) as nat);
        let x = (len + m - 1) as int;
        vstd::arithmetic::div_mod::lemma_fundamental_div_mod(x, m as int);
        vstd::arithmetic::div_mod::lemma_mod_pos_bound(x, m as int);
        assert(len <= n * m) by (nonlinear_arith)
            requires
                x == m * n + x % (m as int),
                x % (m as int) <= m - 1,
                x == len + m - 1,
        ;
        assert(piece_end(len, m, (n - 1) as nat) == len);
        assert(p.subrange(0, len as int) =~= p);
        assert forall|i: nat| i + 1 < n implies (#[trigger] piece(p, m, i)).len() == m by {
            lemma_piece_starts_inside(len, m, i + 1);
            assert((i + 1) * m == i * m + m) by (nonlinear_arith);
        }
        assert forall|i: nat| i < n implies (#[trigger] piece(p, m, i)).len() <= m by {
            lemma_piece_starts_inside(len, m, i);
            assert((i + 1) * m == i * m + m) by (nonlinear_arith);
        }
    }
}

/// The first `k` pieces, concatenated, are the payload's prefix up to the
/// end of piece `k - 1`.
proof fn lemma_assemble_prefix(p: Seq<u8>, m: nat, parts: Map<nat, Seq<u8>>, k: nat)
    requires
        m > 0,
        p.len() > 0,
        k <= fragment_count_for(p.len(), m),
        holds_pieces(parts, p, m),
    ensures
        k > 0 ==> assemble(parts, k) == p.subrange(0, piece_end(p.len(), m, (k - 1) as nat) as int),
        k == 0 ==> assemble(parts, k) == Seq::<u8>::empty(),
    decreases k,
{
    if k > 1 {
        lemma_assemble_prefix(p, m, parts, (k - 1) as nat);
        let j = (k - 1) as nat;
        lemma_piece_starts_inside(p.len(), m, j);
        assert(j * m == (j - 1 + 1) * m);
        assert(piece_end(p.len(), m, (j - 1) as nat) == j * m);
        assert(parts[j] == piece(p, m, j));
        assert((j + 1) * m == j * m + m) by (nonlinear_arith);
        assert(p.subrange(0, (j * m) as int) + p.subrange((j * m) as int, piece_end(p.len(), m, j) as int)
            =~= p.subrange(0, piece_end(p.len(), m, j) as int));
    } else if k == 1 {
        assert(parts[0] == piece(p, m, 0));
        assert(assemble(parts, 1) =~= assemble(parts, 0) + parts[0]);
        assert(0 * m == 0);
    }
}

} // verus!

verus! {

/// Copies `p[start..end]` into a new vector.
fn copy_range(p: &Vec<u8>, start: usize, end: usize) -> (r: Vec<u8>)
    requires
        start <= end <= p@.len(),
    ensures
        r@ == p@.subrange(start as int, end as int),
{
    let mut r: Vec<u8> = Vec::with_capacity(end - start);
    let mut k: usize = start;
    while k < end
        invariant
            start <= k <= end <= p@.len(),
            r@ == p@.subrange(start as int, k as int),
        decreases end - k,
    {
        r.push(p[k]);
        proof {
            assert(p@.subrange(start as int, k + 1) =~= p@.subrange(start as int, k as int).push(
                p@[k as int],
            ));
        }
        k += 1;
    }
    r
}

/// Splits the envelope's payload into fragments of `max_message_size` bytes
/// (the last may be shorter), in increasing index order. A payload that fits
/// travels as a single fragment.
pub fn fragment_frame(envelope: &FrameEnvelope, max_message_size: usize) -> (r: Vec<Fragment>)
    requires
        max_message_size > 0,
    ensures
        r@.len() == fragment_count_for(envelope.payload@.len(), max_message_size as nat),
        forall|i: int|
            0 <= i < r@.len() ==> {
                &&& (#[trigger] r@[i]).producer_id == envelope.producer_id
                &&& r@[i].sequence_number == envelope.sequence_number
                &&& r@[i].fragment_index == i
                &&& r@[i].fragment_count == r@.len()
                &&& r@[i].bytes@ == piece(envelope.payload@, max_message_size as nat, i as nat)
            },
{
    let p = &envelope.payload;
    let len = p.len();
    let m = max_message_size;
    let ghost n = fragment_count_for(len as nat, m as nat);
    let mut pieces: Vec<Vec<u8>> = Vec::new();
    if len == 0 {
        pieces.push(Vec::new());
        proof {
            assert(piece(p@, m as nat, 0) =~= Seq::<u8>::empty());
        }
    } else {
        let mut start: usize = 0;
        assert(pieces@.len() * m == 0) by (nonlinear_arith)
            requires
                pieces@.len() == 0,
        ;
        while start < len
            invariant
                len == p@.len(),
                len > 0,
                m > 0,
                start as int == if pieces@.len() * m <= len {
                    pieces@.len() * m
                } else {
                    len as int
                },
                start <= len,
                forall|i: int|
                    0 <= i < pieces@.len() ==> (#[trigger] pieces@[i])@ == piece(
                        p@,
                        m as nat,
                        i as nat,
                    ),
                pieces@.len() > 0 ==> (pieces@.len() - 1) * m < len,
            decreases len - start,
        {
            let end = if len - start > m {
                start + m
            } else {
                len
            };
            let ghost i = pieces@.len();
            proof {
                assert((i + 1) * m == i * m + m) by (nonlinear_arith);
                assert(end as nat == piece_end(len as nat, m as nat, i));
            }
            let bytes = copy_range(p, start, end);
            pieces.push(bytes);
            proof {
                assert(pieces@[i as int]@ == piece(p@, m as nat, i));
            }
            start = end;
        }
        proof {
            let c = pieces@.len();
            assert(c * m >= len) by {
                if c * m < len {
                    assert(start == len);
                }
            }
            assert(c > 0);
            lemma_count_from_bounds(len as nat, m as nat, c);
        }
    }
    let count = pieces.len() as u64;
    let mut r: Vec<Fragment> = Vec::new();
    let mut j: usize = 0;
    let ghost all = pieces@;
    while pieces.len() > 0
        invariant
            pieces@ == all.subrange(j as int, all.len() as int),
            j <= all.len(),
            all.len() <= usize::MAX,
            pieces@.len() == all.len() - j,
            count == all.len(),
            r@.len() == j,
            forall|i: int|
                0 <= i < j ==> {
                    &&& (#[trigger] r@[i]).producer_id == envelope.producer_id
                    &&& r@[i].sequence_number == envelope.sequence_number
                    &&& r@[i].fragment_index == i
                    &&& r@[i].fragment_count == count
                    &&& r@[i].bytes@ == all[i]@
                },
        decreases pieces@.len(),
    {
        let bytes = pieces.remove(0);
        r.push(
            Fragment {
                producer_id: envelope.producer_id,
                sequence_number: envelope.sequence_number,
                fragment_index: j as u64,
                fragment_count: count,
                bytes,
            },
        );
        j += 1;
    }
    r
}

} // verus!
