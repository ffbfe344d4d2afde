//! How a firmware image is cut into blocks, and a block into chunks.
//!
//! An image is cut into pages of equal length but for a shorter last one;
//! each page travels as one block. A block is cut the same way into chunks
//! that fit one write. Both cuts are the same operation at two sizes, so the
//! rules are stated once, for pieces of a sequence.

use vstd::prelude::*;
use vstd::arithmetic::div_mod::lemma_fundamental_div_mod_converse;

verus! {

/// Number of pieces of at most `size` bytes that `len` bytes are cut into:
/// `len / size`, rounded up.
pub open spec fn piece_count(len: nat, size: nat) -> nat
    recommends
        size > 0,
{
    ((len + size - 1) / (size as int)) as nat
}

/// Offset of the piece `index` in bytes.
pub open spec fn piece_start(size: nat, index: nat) -> nat {
    index * size
}

/// Length of the piece `index`: `size`, but for a last piece that holds what
/// is left, and zero past the last piece.
pub open spec fn piece_len(len: nat, size: nat, index: nat) -> nat {
    if piece_start(size, index) >= len {
        0
    } else if len - piece_start(size, index) < size {
        (len - piece_start(size, index)) as nat
    } else {
        size
    }
}

/// The bytes of the piece `index` of `bytes`; none past the last piece.
pub open spec fn piece(bytes: Seq<u8>, size: nat, index: nat) -> Seq<u8> {
    if piece_len(bytes.len(), size, index) == 0 {
        Seq::empty()
    } else {
        bytes.subrange(
            piece_start(size, index) as int,
            (piece_start(size, index) + piece_len(bytes.len(), size, index)) as int,
        )
    }
}

/// The pieces of `bytes` from the piece `from` on, in order.
pub open spec fn pieces_from(bytes: Seq<u8>, size: nat, from: nat) -> Seq<Seq<u8>> {
    Seq::new(
        (piece_count(bytes.len(), size) - from) as nat,
        |i: int| piece(bytes, size, (from + i) as nat),
    )
}

/// Rounding up is exact: the pieces cover the bytes, and one piece fewer
/// would not.
pub proof fn lemma_piece_count_bounds(len: nat, size: nat)
    requires
        size > 0,
    ensures
        piece_count(len, size) * size >= len,
        len > 0 ==> piece_count(len, size) >= 1 && (piece_count(len, size) - 1) * size < len,
        len == 0 ==> piece_count(len, size) == 0,
        piece_count(len, size) <= len,
{
    let n = piece_count(len, size) as int;
    let x = len + size - 1;
    let d = size as int;
    assert(n == x / d);
    assert(x == d * (x / d) + x % d && 0 <= x % d < d) by (nonlinear_arith)
        requires
            d > 0,
    ;
    assert(n * d == d * n) by (nonlinear_arith);
    if len > 0 {
        assert(n >= 1) by (nonlinear_arith)
            requires
                x == d * n + x % d,
                x % d < d,
                x >= d,
                d > 0,
        ;
        assert((n - 1) * d == n * d - d) by (nonlinear_arith);
        assert(n <= len) by (nonlinear_arith)
            requires
                n * d <= len + d - 1,
                d >= 1,
                n >= 1,
                len >= 1,
        ;
    } else {
        assert(n == 0) by (nonlinear_arith)
            requires
                x == d * n + x % d,
                0 <= x % d,
                x == d - 1,
                d > 0,
                n >= 0,
        ;
    }
}

/// A piece exists where its index is below the count, and only there.
pub proof fn lemma_piece_in_range(len: nat, size: nat, index: nat)
    requires
        size > 0,
    ensures
        index < piece_count(len, size) <==> piece_start(size, index) < len,
        index < piece_count(len, size) ==> 0 < piece_len(len, size, index) <= size,
        index >= piece_count(len, size) ==> piece_len(len, size, index) == 0,
        piece_start(size, index) + piece_len(len, size, index) <= len || piece_len(
            len,
            size,
            index,
        ) == 0,
{
    lemma_piece_count_bounds(len, size);
    let n = piece_count(len, size) as int;
    let d = size as int;
    let i = index as int;
    if i < n {
        assert(i * d <= (n - 1) * d) by (nonlinear_arith)
            requires
                i <= n - 1,
                d > 0,
        ;
    } else {
        assert(i * d >= n * d) by (nonlinear_arith)
            requires
                i >= n,
                d > 0,
        ;
    }
}

/// All pieces but the last are full, and the last holds what the full ones
/// leave: `len - (count - 1) * size`.
pub proof fn law_last_piece_holds_the_rest(len: nat, size: nat)
    requires
        size > 0,
        len > 0,
    ensures
        piece_count(len, size) >= 1,
        piece_len(len, size, (piece_count(len, size) - 1) as nat) == len - (piece_count(len, size)
            - 1) * size,
        forall|index: nat|
            index + 1 < piece_count(len, size) ==> #[trigger] piece_len(len, size, index) == size,
{
    lemma_piece_count_bounds(len, size);
    let n = piece_count(len, size) as int;
    let d = size as int;
    assert(n * d == (n - 1) * d + d) by (nonlinear_arith);
    assert forall|index: nat| index + 1 < piece_count(len, size) implies #[trigger] piece_len(
        len,
        size,
        index,
    ) == size by {
        let i = index as int;
        assert((i + 1) * d <= (n - 1) * d) by (nonlinear_arith)
            requires
                i + 1 <= n - 1,
                d > 0,
        ;
        assert((i + 1) * d == i * d + d) by (nonlinear_arith);
    }
}

/// The pieces from `from` on, put end to end, are the bytes from that piece's
/// offset on.
pub proof fn lemma_pieces_from_rebuild(bytes: Seq<u8>, size: nat, from: nat)
    requires
        size > 0,
        from <= piece_count(bytes.len(), size),
    ensures
        from < piece_count(bytes.len(), size) ==> pieces_from(bytes, size, from).flatten()
            == bytes.skip(piece_start(size, from) as int),
        from == piece_count(bytes.len(), size) ==> pieces_from(bytes, size, from).flatten()
            == Seq::<u8>::empty(),
    decreases piece_count(bytes.len(), size) - from,
{
    let count = piece_count(bytes.len(), size);
    let parts = pieces_from(bytes, size, from);
    if from < count {
        lemma_piece_in_range(bytes.len(), size, from);
        lemma_piece_in_range(bytes.len(), size, from + 1);
        lemma_pieces_from_rebuild(bytes, size, from + 1);
        let rest = pieces_from(bytes, size, from + 1);
        assert(parts.drop_first() =~= rest);
        assert(parts.first() == piece(bytes, size, from));
        assert((from + 1) * size == from * size + size) by (nonlinear_arith);
        assert(parts.flatten() =~= bytes.skip(piece_start(size, from) as int));
    }
}

/// Cutting loses nothing: the pieces of `bytes`, put end to end in order, are
/// `bytes`, and there are `piece_count` of them, none longer than `size`.
pub proof fn law_pieces_rebuild(bytes: Seq<u8>, size: nat)
    requires
        size > 0,
    ensures
        pieces_from(bytes, size, 0).len() == piece_count(bytes.len(), size),
        pieces_from(bytes, size, 0).flatten() == bytes,
        forall|i: int|
            0 <= i < pieces_from(bytes, size, 0).len() ==> 0 < (#[trigger] pieces_from(
                bytes,
                size,
                0,
            )[i]).len() <= size,
{
    lemma_pieces_from_rebuild(bytes, size, 0);
    lemma_piece_count_bounds(bytes.len(), size);
    assert(0 * size == 0) by (nonlinear_arith);
    assert(bytes.skip(0) =~= bytes);
    assert forall|i: int| 0 <= i < pieces_from(bytes, size, 0).len() implies 0 < (
    #[trigger] pieces_from(bytes, size, 0)[i]).len() <= size by {
        lemma_piece_in_range(bytes.len(), size, i as nat);
    }
}

/// The pieces from a later piece on are the tail of the pieces from an
/// earlier one: what was cut before is not cut again.
pub proof fn lemma_pieces_from_skip(bytes: Seq<u8>, size: nat, from: nat, done: nat)
    requires
        from + done <= piece_count(bytes.len(), size),
    ensures
        pieces_from(bytes, size, from + done) == pieces_from(bytes, size, from).skip(done as int),
{
    assert(pieces_from(bytes, size, from + done) =~= pieces_from(bytes, size, from).skip(
        done as int,
    ));
}

/// Counts the pieces of at most `size` bytes that `len` bytes are cut into.
pub fn count_pieces(len: usize, size: usize) -> (count: usize)
    requires
        size > 0,
    ensures
        count == piece_count(len as nat, size as nat),
{
    let full: usize = len / size;
    let rest: usize = len % size;
    proof {
        lemma_piece_count_bounds(len as nat, size as nat);
        let d = size as int;
        let q = full as int;
        let r = rest as int;
        assert(len == d * q + r) by (nonlinear_arith)
            requires
                q == len as int / d,
                r == len as int % d,
                d > 0,
        ;
        if r == 0 {
            lemma_fundamental_div_mod_converse(len + size - 1, d, q, d - 1);
        } else {
            assert(d * (q + 1) == d * q + d) by (nonlinear_arith);
            lemma_fundamental_div_mod_converse(len + size - 1, d, q + 1, r - 1);
        }
    }
    if rest == 0 {
        full
    } else {
        full + 1
    }
}

/// Length of the piece `index` when `len` bytes are cut into pieces of at
/// most `size` bytes; zero past the last piece.
pub fn measure_piece(len: usize, size: usize, index: usize) -> (piece: usize)
    requires
        size > 0,
    ensures
        piece == piece_len(len as nat, size as nat, index as nat),
        index < piece_count(len as nat, size as nat) ==> index * size + piece <= len,
{
    let count: usize = count_pieces(len, size);
    proof {
        lemma_piece_in_range(len as nat, size as nat, index as nat);
    }
    if index >= count {
        0
    } else {
        let start: usize = index * size;
        let rest: usize = len - start;
        if rest < size {
            rest
        } else {
            size
        }
    }
}

/// Borrows the piece `index` of `bytes`; it is empty past the last piece.
pub fn take_piece<'a>(bytes: &'a [u8], size: usize, index: usize) -> (part: &'a [u8])
    requires
        size > 0,
    ensures
        part@ == piece(bytes@, size as nat, index as nat),
{
    let len: usize = measure_piece(bytes.len(), size, index);
    proof {
        lemma_piece_in_range(bytes@.len(), size as nat, index as nat);
    }
    if len == 0 {
        let part: &[u8] = vstd::slice::slice_subrange(bytes, 0, 0);
        assert(part@ =~= piece(bytes@, size as nat, index as nat));
        part
    } else {
        let start: usize = index * size;
        vstd::slice::slice_subrange(bytes, start, start + len)
    }
}

} // verus!
