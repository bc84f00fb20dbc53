//! The buffer flattener: joins the buffer runs of one column into one
//! contiguous run, and expands packed bits into one byte per value.

use vstd::prelude::*;
use vstd::string::*;
use arrow_buffer::bit_iterator::BitIterator;
use crate::error::{ErrorModel, ParquetNativeError};

verus! {

/// The contents of the runs, run by run.
pub open spec fn run_contents<T>(runs: Seq<Vec<T>>) -> Seq<Seq<T>> {
    Seq::new(runs.len(), |i: int| runs[i]@)
}

/// Number of elements that the runs hold together.
pub open spec fn total_len<T>(runs: Seq<Seq<T>>) -> nat
    decreases runs.len(),
{
    if runs.len() == 0 {
        0
    } else {
        total_len(runs.drop_last()) + runs.last().len()
    }
}

/// Joining keeps every element, and keeps them in order: the joined runs
/// hold as many elements as the runs together, and element `i` of run `k`
/// stands behind all elements of the runs before `k`, at distance `i`.
pub proof fn lemma_join_keeps_order<T>(runs: Seq<Seq<T>>, k: int, i: int)
    requires
        0 <= k < runs.len(),
        0 <= i < runs[k].len(),
    ensures
        runs.flatten().len() == total_len(runs),
        total_len(runs.take(k)) + i < runs.flatten().len(),
        runs.flatten()[total_len(runs.take(k)) + i] == runs[k][i],
    decreases runs.len(),
{
    let front = runs.drop_last();
    assert(runs == front.push(runs.last()));
    front.lemma_flatten_push(runs.last());
    lemma_join_len(front);
    if k == runs.len() - 1 {
        assert(runs.take(k) == front);
    } else {
        lemma_join_keeps_order(front, k, i);
        assert(front.take(k) == runs.take(k));
    }
}

/// The joined runs hold as many elements as the runs together.
pub proof fn lemma_join_len<T>(runs: Seq<Seq<T>>)
    ensures
        runs.flatten().len() == total_len(runs),
    decreases runs.len(),
{
    if runs.len() > 0 {
        let front = runs.drop_last();
        assert(runs == front.push(runs.last()));
        front.lemma_flatten_push(runs.last());
        lemma_join_len(front);
    }
}

/// Joining the runs of several batches one batch after the other gives
/// what joining each batch and then the results gives: rows stay in order
/// across batches, and none is lost or added.
pub proof fn lemma_join_across_batches<T>(first: Seq<Seq<T>>, second: Seq<Seq<T>>)
    ensures
        (first + second).flatten() == first.flatten() + second.flatten(),
        (first + second).flatten().len() == total_len(first) + total_len(second),
{
    vstd::seq_lib::lemma_flatten_concat(first, second);
    lemma_join_len(first);
    lemma_join_len(second);
}

/// Whether bit `i` of a packed bit string is set; within a byte the least
/// significant bit comes first.
pub open spec fn bit_at(bytes: Seq<u8>, i: int) -> bool {
    bytes[i / 8] & (1u8 << ((i % 8) as u8)) != 0
}

/// The byte that stands for one boolean in a host array.
pub open spec fn byte_of_bit(bit: bool) -> u8 {
    if bit {
        1
    } else {
        0
    }
}

/// The first `len` bits of a packed bit string, one byte per bit.
pub open spec fn expand_bits(bytes: Seq<u8>, len: int) -> Seq<u8> {
    Seq::new(len as nat, |i: int| byte_of_bit(bit_at(bytes, i)))
}

/// Bit `i` of a sequence of booleans, false beyond its end.
pub open spec fn bit_or_clear(bits: Seq<bool>, i: int) -> bool {
    0 <= i < bits.len() && bits[i]
}

/// The given weight for a set bit, zero for a clear one.
pub open spec fn weight_of(bit: bool, weight: u8) -> u8 {
    if bit {
        weight
    } else {
        0
    }
}

/// The byte whose bit `k` is the given boolean, for `k` from 0 to 7.
pub open spec fn byte_of_bools(
    b0: bool,
    b1: bool,
    b2: bool,
    b3: bool,
    b4: bool,
    b5: bool,
    b6: bool,
    b7: bool,
) -> u8 {
    weight_of(b0, 1) | weight_of(b1, 2) | weight_of(b2, 4) | weight_of(b3, 8) | weight_of(b4, 16)
        | weight_of(b5, 32) | weight_of(b6, 64) | weight_of(b7, 128)
}

/// The packed form of a sequence of booleans: one bit per value, eight to
/// a byte, the least significant bit first, the last byte filled up with
/// clear bits.
pub open spec fn pack_bits(bits: Seq<bool>) -> Seq<u8> {
    Seq::new(
        ((bits.len() + 7) / 8) as nat,
        |b: int|
            byte_of_bools(
                bit_or_clear(bits, 8 * b),
                bit_or_clear(bits, 8 * b + 1),
                bit_or_clear(bits, 8 * b + 2),
                bit_or_clear(bits, 8 * b + 3),
                bit_or_clear(bits, 8 * b + 4),
                bit_or_clear(bits, 8 * b + 5),
                bit_or_clear(bits, 8 * b + 6),
                bit_or_clear(bits, 8 * b + 7),
            ),
    )
}

proof fn lemma_byte_of_bools(
    b0: bool,
    b1: bool,
    b2: bool,
    b3: bool,
    b4: bool,
    b5: bool,
    b6: bool,
    b7: bool,
    k: u8,
)
    by (bit_vector)
    requires
        k < 8,
    ensures
        (byte_of_bools(b0, b1, b2, b3, b4, b5, b6, b7) & (1u8 << k) != 0) == (if k == 0 {
            b0
        } else if k == 1 {
            b1
        } else if k == 2 {
            b2
        } else if k == 3 {
            b3
        } else if k == 4 {
            b4
        } else if k == 5 {
            b5
        } else if k == 6 {
            b6
        } else {
            b7
        }),
{
}

/// Boolean round trip: expanding the packed form of any sequence of
/// booleans gives the sequence back, value for value and in order.
pub proof fn lemma_expand_inverts_pack(bits: Seq<bool>)
    ensures
        8 * pack_bits(bits).len() >= bits.len(),
        expand_bits(pack_bits(bits), bits.len() as int) == bits.map_values(
            |b: bool| byte_of_bit(b),
        ),
{
    let packed = pack_bits(bits);
    assert forall|i: int| 0 <= i < bits.len() implies bit_at(packed, i) == bits[i] by {
        let b = i / 8;
        let k = (i % 8) as u8;
        lemma_byte_of_bools(
            bit_or_clear(bits, 8 * b),
            bit_or_clear(bits, 8 * b + 1),
            bit_or_clear(bits, 8 * b + 2),
            bit_or_clear(bits, 8 * b + 3),
            bit_or_clear(bits, 8 * b + 4),
            bit_or_clear(bits, 8 * b + 5),
            bit_or_clear(bits, 8 * b + 6),
            bit_or_clear(bits, 8 * b + 7),
            k,
        );
        assert(i == 8 * b + k);
    }
    assert(expand_bits(packed, bits.len() as int) =~= bits.map_values(|b: bool| byte_of_bit(b)));
}

/// Text of the error that refuses a bit string shorter than the row count.
pub open spec fn short_bits_message() -> Seq<char> {
    "bit buffer is too short for the row count"@
}

/// Reads the first `len` bits of `buffer` with
/// `arrow_buffer::bit_iterator::BitIterator::new(buffer, 0, len)`, which
/// panics unless the buffer holds at least `len` bits. The iterator yields
/// bit `i` as `buffer[i / 8] & (1 << (i % 8)) != 0`, for `i` from 0 up to
/// `len`, and the results are collected in that order.
#[verifier::external_body]
fn unpack_bits(buffer: &Vec<u8>, len: usize) -> (bits: Vec<bool>)
    requires
        len <= 8 * buffer@.len(),
    ensures
        bits@.len() == len,
        forall|i: int| 0 <= i < len ==> #[trigger] bits@[i] == bit_at(buffer@, i),
{
    BitIterator::new(buffer.as_slice(), 0, len).collect()
}

/// Concatenates the runs of one column, in their order, each run's elements
/// in their order.
pub fn concat_buffers<T: Copy>(runs: &Vec<Vec<T>>) -> (values: Vec<T>)
    ensures
        values@ == run_contents(runs@).flatten(),
{
    let mut values: Vec<T> = Vec::new();
    let mut r: usize = 0;
    while r < runs.len()
        invariant
            r <= runs.len(),
            values@ == run_contents(runs@).take(r as int).flatten(),
        decreases runs.len() - r,
    {
        let run = &runs[r];
        let ghost before = values@;
        let mut i: usize = 0;
        while i < run.len()
            invariant
                i <= run.len(),
                values@ == before + run@.take(i as int),
            decreases run.len() - i,
        {
            values.push(run[i]);
            proof {
                assert(run@.take(i + 1) == run@.take(i as int).push(run@[i as int]));
            }
            i += 1;
        }
        proof {
            let contents = run_contents(runs@);
            assert(run@.take(run.len() as int) == run@);
            assert(contents.take(r + 1) == contents.take(r as int).push(run@));
            contents.take(r as int).lemma_flatten_push(run@);
        }
        r += 1;
    }
    assert(run_contents(runs@).take(runs.len() as int) == run_contents(runs@));
    values
}

/// Concatenates the packed-bit runs of a boolean column and expands the
/// first `len` bits into one byte per value, 1 for a set bit and 0 for a
/// clear one. Fewer than `len` bits in the runs are refused.
pub fn concat_buffers_bool(runs: &Vec<Vec<u8>>, len: usize) -> (result: Result<
    Vec<u8>,
    ParquetNativeError,
>)
    ensures
        match result {
            Ok(values) => {
                &&& len <= 8 * run_contents(runs@).flatten().len()
                &&& values@ == expand_bits(run_contents(runs@).flatten(), len as int)
            },
            Err(e) => {
                &&& len > 8 * run_contents(runs@).flatten().len()
                &&& e@ == ErrorModel::Arrow(short_bits_message())
            },
        },
{
    let buffer = concat_buffers(runs);
    if buffer.len() < len / 8 || (buffer.len() == len / 8 && len % 8 != 0) {
        return Err(
            ParquetNativeError::Arrow(String::from_str("bit buffer is too short for the row count")),
        );
    }
    let bits = unpack_bits(&buffer, len);
    let mut values: Vec<u8> = Vec::new();
    let mut i: usize = 0;
    while i < len
        invariant
            i <= len,
            bits@.len() == len,
            values@.len() == i,
            forall|j: int| 0 <= j < len ==> #[trigger] bits@[j] == bit_at(buffer@, j),
            forall|j: int| 0 <= j < i ==> #[trigger] values@[j] == byte_of_bit(bit_at(buffer@, j)),
        decreases len - i,
    {
        values.push(if bits[i] { 1 } else { 0 });
        i += 1;
    }
    assert(values@ =~= expand_bits(buffer@, len as int));
    Ok(values)
}

} // verus!
