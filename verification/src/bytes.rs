//! Byte strings: their lexicographic order, and the big-endian layout of
//! unsigned numbers, which that order agrees with.

use vstd::prelude::*;
use crate::ordered::{OrderedKey, Plain};

verus! {

/// `a` and `b` agree below position `k`, and there `a` ends while `b` goes
/// on, or `a` has the smaller byte.
pub open spec fn precedes_at(a: Seq<u8>, b: Seq<u8>, k: int) -> bool {
    &&& 0 <= k <= a.len()
    &&& k < b.len()
    &&& forall|i: int| 0 <= i < k ==> a[i] == b[i]
    &&& k < a.len() ==> a[k] < b[k]
}

/// The lexicographic order on byte strings.
pub open spec fn lex_less(a: Seq<u8>, b: Seq<u8>) -> bool {
    exists|k: int| precedes_at(a, b, k)
}

pub proof fn lemma_lex_irreflexive(a: Seq<u8>)
    ensures
        !lex_less(a, a),
{
}

pub proof fn lemma_lex_transitive(a: Seq<u8>, b: Seq<u8>, c: Seq<u8>)
    requires
        lex_less(a, b),
        lex_less(b, c),
    ensures
        lex_less(a, c),
{
    let k1 = choose|k: int| precedes_at(a, b, k);
    let k2 = choose|k: int| precedes_at(b, c, k);
    let k = if k1 <= k2 { k1 } else { k2 };
    assert(precedes_at(a, c, k));
}

/// Two byte strings that agree below `from` are equal, or one of them is
/// before the other.
proof fn lemma_lex_total_from(a: Seq<u8>, b: Seq<u8>, from: int)
    requires
        0 <= from <= a.len(),
        from <= b.len(),
        forall|i: int| 0 <= i < from ==> a[i] == b[i],
    ensures
        a == b || lex_less(a, b) || lex_less(b, a),
    decreases a.len() - from,
{
    if from == a.len() {
        if from == b.len() {
            assert(a =~= b);
        } else {
            assert(precedes_at(a, b, from));
        }
    } else if from == b.len() {
        assert(precedes_at(b, a, from));
    } else if a[from] < b[from] {
        assert(precedes_at(a, b, from));
    } else if b[from] < a[from] {
        assert(precedes_at(b, a, from));
    } else {
        lemma_lex_total_from(a, b, from + 1);
    }
}

pub proof fn lemma_lex_total(a: Seq<u8>, b: Seq<u8>)
    ensures
        a == b || lex_less(a, b) || lex_less(b, a),
{
    lemma_lex_total_from(a, b, 0);
}

/// Whether `a` is before `b` in the lexicographic order.
pub fn bytes_less(a: &Vec<u8>, b: &Vec<u8>) -> (less: bool)
    ensures
        less == lex_less(a@, b@),
{
    let mut i: usize = 0;
    while i < a.len() && i < b.len() && a[i] == b[i]
        invariant
            i <= a.len(),
            i <= b.len(),
            forall|j: int| 0 <= j < i ==> a@[j] == b@[j],
        decreases a.len() - i,
    {
        i += 1;
    }
    let less = if i == b.len() {
        false
    } else if i == a.len() {
        true
    } else {
        a[i] < b[i]
    };
    proof {
        if less {
            assert(precedes_at(a@, b@, i as int));
        } else if lex_less(a@, b@) {
            let k = choose|k: int| precedes_at(a@, b@, k);
            if k < i {
            } else if k > i {
                assert(a@[i as int] == b@[i as int]);
            }
        }
    }
    less
}

/// Whether `a` and `b` hold the same bytes.
pub fn bytes_equal(a: &Vec<u8>, b: &Vec<u8>) -> (equal: bool)
    ensures
        equal == (a@ == b@),
{
    if a.len() != b.len() {
        return false;
    }
    let mut i: usize = 0;
    while i < a.len()
        invariant
            a.len() == b.len(),
            i <= a.len(),
            forall|j: int| 0 <= j < i ==> a@[j] == b@[j],
        decreases a.len() - i,
    {
        if a[i] != b[i] {
            return false;
        }
        i += 1;
    }
    assert(a@ =~= b@);
    true
}

impl Plain for Vec<u8> {
    type Model = Seq<u8>;

    open spec fn model(&self) -> Seq<u8> {
        self@
    }

    fn duplicate(&self) -> (copy: Self) {
        let copy = self.clone();
        assert(copy@ =~= self@);
        copy
    }
}

impl OrderedKey for Vec<u8> {
    open spec fn precedes(a: Seq<u8>, b: Seq<u8>) -> bool {
        lex_less(a, b)
    }

    proof fn lemma_irreflexive(a: Seq<u8>) {
        lemma_lex_irreflexive(a);
    }

    proof fn lemma_transitive(a: Seq<u8>, b: Seq<u8>, c: Seq<u8>) {
        lemma_lex_transitive(a, b, c);
    }

    proof fn lemma_total(a: Seq<u8>, b: Seq<u8>) {
        lemma_lex_total(a, b);
    }

    fn is_before(&self, other: &Self) -> (before: bool) {
        bytes_less(self, other)
    }
}

/// The byte strings of `rows`.
pub open spec fn byte_strings(rows: Seq<Vec<u8>>) -> Seq<Seq<u8>> {
    rows.map_values(|row: Vec<u8>| row@)
}

impl Plain for Vec<Vec<u8>> {
    type Model = Seq<Seq<u8>>;

    open spec fn model(&self) -> Seq<Seq<u8>> {
        byte_strings(self@)
    }

    fn duplicate(&self) -> (copy: Self) {
        let mut copy: Vec<Vec<u8>> = Vec::new();
        let mut i: usize = 0;
        while i < self.len()
            invariant
                i <= self.len(),
                copy@.len() == i,
                forall|j: int| 0 <= j < i ==> (#[trigger] copy@[j])@ == self@[j]@,
            decreases self.len() - i,
        {
            copy.push(self[i].duplicate());
            i += 1;
        }
        assert(byte_strings(copy@) =~= byte_strings(self@));
        copy
    }
}

/// The `width` low bytes of `value`, the most significant one first.
pub open spec fn be_bytes(value: nat, width: nat) -> Seq<u8>
    decreases width,
{
    if width == 0 {
        Seq::empty()
    } else {
        be_bytes(value / 256, (width - 1) as nat).push((value % 256) as u8)
    }
}

/// The number that `bytes` spell, the most significant byte first.
pub open spec fn be_value(bytes: Seq<u8>) -> nat
    decreases bytes.len(),
{
    if bytes.len() == 0 {
        0
    } else {
        be_value(bytes.drop_last()) * 256 + bytes.last() as nat
    }
}

/// 256 to the power of `width`.
pub open spec fn span(width: nat) -> nat
    decreases width,
{
    if width == 0 {
        1
    } else {
        256 * span((width - 1) as nat)
    }
}

pub proof fn lemma_be_len(value: nat, width: nat)
    ensures
        be_bytes(value, width).len() == width,
    decreases width,
{
    if width > 0 {
        lemma_be_len(value / 256, (width - 1) as nat);
    }
}

/// Reading the bytes of a number that fits into them gives the number back.
pub proof fn lemma_be_value_of_bytes(value: nat, width: nat)
    requires
        value < span(width),
    ensures
        be_value(be_bytes(value, width)) == value,
    decreases width,
{
    if width > 0 {
        let rest = be_bytes(value / 256, (width - 1) as nat);
        assert(value / 256 < span((width - 1) as nat)) by (nonlinear_arith)
            requires
                value < 256 * span((width - 1) as nat),
        ;
        lemma_be_value_of_bytes(value / 256, (width - 1) as nat);
        assert(be_bytes(value, width).drop_last() =~= rest);
        assert(be_bytes(value, width).last() == (value % 256) as u8);
    }
}

/// Writing the number that bytes spell gives the bytes back.
pub proof fn lemma_be_bytes_of_value(bytes: Seq<u8>)
    ensures
        be_value(bytes) < span(bytes.len()),
        be_bytes(be_value(bytes), bytes.len()) == bytes,
    decreases bytes.len(),
{
    if bytes.len() > 0 {
        let rest = bytes.drop_last();
        lemma_be_bytes_of_value(rest);
        let value = be_value(bytes);
        assert(value / 256 == be_value(rest) && value % 256 == bytes.last() as nat) by {
            let high = be_value(rest);
            let low = bytes.last() as nat;
            assert((high * 256 + low) / 256 == high && (high * 256 + low) % 256 == low)
                by (nonlinear_arith)
                requires
                    low < 256,
            ;
        }
        assert(value < 256 * span(rest.len())) by (nonlinear_arith)
            requires
                value == be_value(rest) * 256 + bytes.last() as nat,
                be_value(rest) < span(rest.len()),
                (bytes.last() as nat) < 256,
        ;
        assert(be_bytes(value, bytes.len()) =~= bytes);
    }
}

/// Among numbers that fit into `width` bytes the smaller one has the
/// byte string that comes first.
pub proof fn lemma_be_order(x: nat, y: nat, width: nat)
    requires
        x < y,
        y < span(width),
    ensures
        lex_less(be_bytes(x, width), be_bytes(y, width)),
    decreases width,
{
    lemma_be_len(x, width);
    lemma_be_len(y, width);
    if width == 0 {
    } else {
        let a = be_bytes(x, width);
        let b = be_bytes(y, width);
        let rest = (width - 1) as nat;
        lemma_be_len(x / 256, rest);
        lemma_be_len(y / 256, rest);
        assert(x / 256 <= y / 256 && y / 256 < span(rest)) by (nonlinear_arith)
            requires
                x < y,
                y < 256 * span(rest),
        ;
        if x / 256 < y / 256 {
            lemma_be_order(x / 256, y / 256, rest);
            let a_high = be_bytes(x / 256, rest);
            let b_high = be_bytes(y / 256, rest);
            let k = choose|k: int| precedes_at(a_high, b_high, k);
            assert forall|i: int| 0 <= i < k implies a[i] == b[i] by {
                assert(a[i] == a_high[i] && b[i] == b_high[i]);
            }
            assert(a[k] == a_high[k] && b[k] == b_high[k]);
            assert(precedes_at(a, b, k));
        } else {
            assert(x % 256 < y % 256) by (nonlinear_arith)
                requires
                    x < y,
                    x / 256 == y / 256,
            ;
            assert(precedes_at(a, b, width - 1));
        }
    }
}

/// The `width` low bytes of `value`, the most significant one first.
pub fn be_encode(value: u64, width: usize) -> (bytes: Vec<u8>)
    ensures
        bytes@ == be_bytes(value as nat, width as nat),
    decreases width,
{
    if width == 0 {
        Vec::new()
    } else {
        let mut bytes = be_encode(value / 256, width - 1);
        bytes.push((value % 256) as u8);
        bytes
    }
}

/// The number that up to eight bytes spell, the most significant one first.
pub fn be_u64(bytes: &[u8]) -> (value: u64)
    requires
        bytes@.len() <= 8,
    ensures
        value == be_value(bytes@),
{
    let mut value: u64 = 0;
    let mut i: usize = 0;
    while i < bytes.len()
        invariant
            i <= bytes@.len() <= 8,
            value == be_value(bytes@.take(i as int)),
            value < span(i as nat),
        decreases bytes@.len() - i,
    {
        proof {
            let next = bytes@.take(i + 1);
            assert(next.drop_last() =~= bytes@.take(i as int));
            assert(next.last() == bytes@[i as int]);
            lemma_span_bound(i as nat);
            assert(value * 256 + bytes@[i as int] < span((i + 1) as nat)) by (nonlinear_arith)
                requires
                    value < span(i as nat),
                    bytes@[i as int] < 256,
                    span((i + 1) as nat) == 256 * span(i as nat),
            ;
            lemma_span_bound((i + 1) as nat);
        }
        value = value * 256 + bytes[i] as u64;
        i += 1;
    }
    assert(bytes@.take(bytes@.len() as int) =~= bytes@);
    value
}

/// Up to eight bytes, the span stays within what a `u64` holds, and one
/// more than it holds at eight.
pub proof fn lemma_span_bound(width: nat)
    requires
        width <= 8,
    ensures
        span(width) <= 0x1_0000_0000_0000_0000,
        width < 8 ==> span(width) <= 0x100_0000_0000_0000,
        span(8) == 0x1_0000_0000_0000_0000,
        span(4) == 0x1_0000_0000,
        span(2) == 0x1_0000,
        span(1) == 0x100,
{
    reveal_with_fuel(span, 10);
}

} // verus!
