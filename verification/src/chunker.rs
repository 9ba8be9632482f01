//! From lines to batches.
//!
//! The first `skip` lines are left out; the rest is cut into consecutive
//! batches of a fixed size, the last of which may be shorter.

use crate::lines::lines_view;
use itertools::Itertools;
use vstd::arithmetic::div_mod::*;
use vstd::arithmetic::mul::*;
use vstd::prelude::*;

verus! {

/// What is left of `lines` once the first `skip` of them are dropped.
pub open spec fn remaining<A>(lines: Seq<A>, skip: nat) -> Seq<A> {
    if skip >= lines.len() {
        Seq::empty()
    } else {
        lines.skip(skip as int)
    }
}

/// The number of batches that `total` items fill: `total / size`, rounded up.
pub open spec fn batch_count(total: nat, size: nat) -> nat {
    if size == 0 {
        0
    } else {
        ((total + size - 1) / (size as int)) as nat
    }
}

/// The end of batch `k` among `total` items.
pub open spec fn batch_end(total: nat, size: nat, k: int) -> int {
    if (k + 1) * size <= total {
        (k + 1) * size
    } else {
        total as int
    }
}

/// Batch `k` of `items`: the items from `k * size` on, `size` of them or as
/// many as there are.
pub open spec fn batch_at<A>(items: Seq<A>, size: nat, k: int) -> Seq<A> {
    items.subrange(k * size, batch_end(items.len(), size, k))
}

/// The batches of `items`, in order.
pub open spec fn batches_of<A>(items: Seq<A>, size: nat) -> Seq<Seq<A>> {
    Seq::new(batch_count(items.len(), size), |k: int| batch_at(items, size, k))
}

/// The bytes of each line of each batch.
pub open spec fn batches_view(batches: Seq<Vec<Vec<u8>>>) -> Seq<Seq<Seq<u8>>> {
    Seq::new(batches.len(), |k: int| lines_view(batches[k]@))
}

/// Calls `itertools::Itertools::chunks` on the lines in order and copies
/// each chunk out. Trusted: the chunks are consecutive runs of `size` lines,
/// the last one shorter where the lines do not fill it, and none is empty.
/// The call panics on a `size` of zero.
#[verifier::external_body]
fn chunks(lines: &[Vec<u8>], size: usize) -> (batches: Vec<Vec<Vec<u8>>>)
    requires
        size > 0,
    ensures
        batches_view(batches@) == batches_of(lines_view(lines@), size as nat),
{
    let mut batches = Vec::new();
    for chunk in &lines.iter().chunks(size) {
        batches.push(chunk.cloned().collect());
    }
    batches
}

/// Rounding up: the batches hold all items, and the last one is not empty.
pub proof fn lemma_batch_count(total: nat, size: nat)
    requires
        size > 0,
    ensures
        total == 0 <==> batch_count(total, size) == 0,
        (batch_count(total, size) - 1) * size < total || total == 0,
        total <= batch_count(total, size) * size,
        total % size == 0 ==> total == batch_count(total, size) * size,
        total % size != 0 ==> total == (batch_count(total, size) - 1) * size + total % size,
{
    let c = (total + size - 1) / (size as int);
    let q = (total / size) as int;
    let r = (total % size) as int;
    lemma_fundamental_div_mod(total as int, size as int);
    lemma_mod_bound(total as int, size as int);
    assert(total == size * q + r);
    if r == 0 {
        // total + size - 1 == size * q + (size - 1)
        lemma_fundamental_div_mod_converse(total + size - 1, size as int, q, size - 1);
        assert(c == q);
        lemma_mul_is_commutative(size as int, q as int);
    } else {
        // total + size - 1 == size * (q + 1) + (r - 1)
        lemma_mul_is_distributive_add(size as int, q as int, 1);
        lemma_fundamental_div_mod_converse(total + size - 1, size as int, q + 1, r - 1);
        assert(c == q + 1);
        lemma_mul_is_commutative(size as int, q as int);
    }
    assert(q == 0 ==> size * q == 0) by (nonlinear_arith);
    assert(q >= 0);
    assert(c * size == (if r == 0 {
        total as int
    } else {
        total + size - r
    }) && (c - 1) * size == c * size - size) by (nonlinear_arith)
        requires
            total == size * q + r,
            c == (if r == 0 {
                q
            } else {
                q + 1
            }),
    ;
}

/// Only one number rounds `total / size` up.
pub proof fn lemma_batch_count_unique(total: nat, size: nat, count: int)
    requires
        size > 0,
        (count - 1) * size < total <= count * size,
    ensures
        count == batch_count(total, size),
{
    let c = batch_count(total, size) as int;
    lemma_batch_count(total, size);
    if total == 0 {
        assert(count == 0) by (nonlinear_arith)
            requires
                size > 0,
                (count - 1) * size < 0 <= count * size,
        ;
    } else {
        assert(count == c) by (nonlinear_arith)
            requires
                size > 0,
                (count - 1) * size < total <= count * size,
                (c - 1) * size < total <= c * size,
        ;
    }
}

/// One item more starts a new batch exactly when the items so far fill
/// their batches.
pub proof fn lemma_batch_count_step(total: nat, size: nat)
    requires
        size > 0,
    ensures
        total % size == 0 ==> batch_count(total + 1, size) == batch_count(total, size) + 1
            && batch_count(total, size) * size == total,
        total % size != 0 ==> batch_count(total + 1, size) == batch_count(total, size),
{
    let c = batch_count(total, size) as int;
    lemma_batch_count(total, size);
    lemma_mod_bound(total as int, size as int);
    if total % size == 0 {
        assert(c * size < total + 1 <= (c + 1) * size) by (nonlinear_arith)
            requires
                size > 0,
                total == c * size,
        ;
        lemma_batch_count_unique(total + 1, size, c + 1);
    } else {
        assert((c - 1) * size + size == c * size) by (nonlinear_arith);
        lemma_batch_count_unique(total + 1, size, c);
    }
}

/// Drops the first `skip` lines and cuts the rest into batches of `size`.
pub fn batches(lines: &Vec<Vec<u8>>, skip: usize, size: usize) -> (batches: Vec<Vec<Vec<u8>>>)
    requires
        size > 0,
    ensures
        batches_view(batches@) == batches_of(
            remaining(lines_view(lines@), skip as nat),
            size as nat,
        ),
{
    let all = lines.as_slice();
    let from: usize = if skip >= all.len() {
        all.len()
    } else {
        skip
    };
    let rest = vstd::slice::slice_subrange(all, from, all.len());
    assert(lines_view(rest@) =~= remaining(lines_view(lines@), skip as nat));
    chunks(rest, size)
}

/// The chunker yields `ceil(max(0, L - s) / size)` batches of a key list of
/// `L` lines after a skip of `s`: none where nothing remains, and else the
/// least number whose batches hold every remaining line.
pub proof fn law_number_of_batches<A>(lines: Seq<A>, skip: nat, size: nat)
    requires
        size > 0,
    ensures
        remaining(lines, skip).len() == if skip >= lines.len() {
            0
        } else {
            lines.len() - skip
        },
        batches_of(remaining(lines, skip), size).len() == batch_count(
            remaining(lines, skip).len(),
            size,
        ),
        skip >= lines.len() ==> batches_of(remaining(lines, skip), size).len() == 0,
        skip < lines.len() ==> {
            let count = batches_of(remaining(lines, skip), size).len();
            &&& count >= 1
            &&& (count - 1) * size < lines.len() - skip <= count * size
        },
{
    lemma_batch_count(remaining(lines, skip).len(), size);
}

/// Every batch but the last holds `size` items. The last holds what the
/// division leaves: `total % size` items, or `size` where that is zero.
pub proof fn law_batch_sizes<A>(items: Seq<A>, size: nat, k: int)
    requires
        size > 0,
        0 <= k < batches_of(items, size).len(),
    ensures
        k < batches_of(items, size).len() - 1 ==> batches_of(items, size)[k].len() == size,
        k == batches_of(items, size).len() - 1 ==> batches_of(items, size)[k].len() == if items.len()
            % size == 0 {
            size
        } else {
            items.len() % size
        },
        1 <= batches_of(items, size)[k].len() <= size,
{
    let total = items.len();
    let count = batch_count(total, size);
    lemma_batch_count(total, size);
    lemma_mod_bound(total as int, size as int);
    lemma_mul_is_distributive_add_other_way(size as int, k, 1);
    assert((k + 1) * size == k * size + size);
    assert(0 <= k * size) by {
        lemma_mul_nonnegative(k, size as int);
    }
    if k < count - 1 {
        assert((k + 1) * size <= (count - 1) * size) by {
            lemma_mul_inequality(k + 1, count - 1, size as int);
        }
    } else {
        assert(k * size == (count - 1) * size);
    }
}

/// The batches hold the items in order and each item once: item `i` is
/// entry `i % size` of batch `i / size`.
pub proof fn law_batches_keep_order<A>(items: Seq<A>, size: nat, i: int)
    requires
        size > 0,
        0 <= i < items.len(),
    ensures
        0 <= i / (size as int) < batches_of(items, size).len(),
        0 <= i % (size as int) < batches_of(items, size)[i / (size as int)].len(),
        batches_of(items, size)[i / (size as int)][i % (size as int)] == items[i],
{
    let total = items.len();
    let count = batch_count(total, size);
    let k = i / (size as int);
    let r = i % (size as int);
    lemma_batch_count(total, size);
    lemma_fundamental_div_mod(i, size as int);
    lemma_mod_bound(i, size as int);
    lemma_mul_is_commutative(size as int, k);
    assert(i == k * size + r);
    assert(0 <= k) by {
        lemma_div_pos_is_pos(i, size as int);
    }
    lemma_mul_is_distributive_add_other_way(size as int, k, 1);
    assert((k + 1) * size == k * size + size);
    if k >= count {
        assert(count * size <= k * size) by {
            lemma_mul_inequality(count as int, k, size as int);
        }
    }
}

} // verus!
