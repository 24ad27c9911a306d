//! One's-complement checksum arithmetic (RFC 1071) and its incremental
//! update (RFC 1624).
//!
//! The Internet checksum of a stream of 16-bit words is the complement of
//! their one's-complement sum. That sum is the ordinary sum of the words with
//! every carry out of the low 16 bits added back in, see [`ones_fold`].
//! Because the fold of a sum only depends on the folds of its parts, a
//! checksum can follow a change of a few words without the rest of the
//! stream being read again.
use vstd::prelude::*;

verus! {

/// The one's-complement fold of `n`: the carries out of the low 16 bits are
/// added back in until none is left.
///
/// Zero stays zero. Every other number folds to the one value in `1..=0xFFFF`
/// that is congruent to it modulo `0xFFFF`.
#[verifier::opaque]
pub open spec fn ones_fold(n: nat) -> u16 {
    if n == 0 {
        0u16
    } else {
        ((n - 1) % 65535 + 1) as u16
    }
}

/// The one's-complement sum of two words.
pub open spec fn ones_add(a: u16, b: u16) -> u16 {
    ones_fold((a + b) as nat)
}

/// The one's complement of a word: every bit flipped.
pub open spec fn ones_not(a: u16) -> u16 {
    (0xFFFF - a) as u16
}

/// One step of the fold: the high half of `n` added to its low half.
pub open spec fn fold_step(n: nat) -> nat {
    n % 65536 + n / 65536
}

/// The sum of a stream of words.
pub open spec fn word_sum(words: Seq<u16>) -> nat
    decreases words.len(),
{
    if words.len() == 0 {
        0
    } else {
        word_sum(words.drop_last()) + words.last() as nat
    }
}

/// The Internet checksum of a stream of words, computed from scratch.
pub open spec fn internet_checksum(words: Seq<u16>) -> u16 {
    ones_not(ones_fold(word_sum(words)))
}

/// A word is its own fold.
pub proof fn lemma_fold_of_word(w: u16)
    ensures
        ones_fold(w as nat) == w,
{
    reveal(ones_fold);
}

/// The fold of a number is zero only for zero, and congruent to the number
/// modulo `0xFFFF`.
pub proof fn lemma_fold_congruent(n: nat)
    ensures
        ones_fold(n) == 0 <==> n == 0,
        ones_fold(n) as int % 65535 == n as int % 65535,
{
    reveal(ones_fold);
}

/// Two numbers with the same remainder modulo `0xFFFF` fold to the same word,
/// provided that both are zero or neither is.
pub proof fn lemma_fold_unique(m: nat, n: nat)
    requires
        m as int % 65535 == n as int % 65535,
        m == 0 <==> n == 0,
    ensures
        ones_fold(m) == ones_fold(n),
{
    reveal(ones_fold);
}

/// Congruence modulo `0xFFFF` survives adding the same number to both sides
/// and any multiple of `0xFFFF` to one.
pub proof fn lemma_congruent_shift(a: int, b: int, rest: int, turns: int)
    requires
        a % 65535 == b % 65535,
    ensures
        (a + rest + 65535 * turns) % 65535 == (b + rest) % 65535,
{
}

/// A step of the fold does not change what a number folds to, and makes every
/// number above `0xFFFF` smaller.
pub proof fn lemma_fold_step(n: nat)
    ensures
        ones_fold(fold_step(n)) == ones_fold(n),
        n > 0xFFFF ==> fold_step(n) < n,
        n <= 0xFFFF ==> fold_step(n) == n,
{
    lemma_fold_unique(fold_step(n), n);
}

/// The fold of a sum is the one's-complement sum of the folds.
pub proof fn lemma_fold_sum(m: nat, n: nat)
    ensures
        ones_fold(m + n) == ones_add(ones_fold(m), ones_fold(n)),
{
    lemma_fold_congruent(m);
    lemma_fold_congruent(n);
    lemma_fold_unique(m + n, (ones_fold(m) + ones_fold(n)) as nat);
}

/// The one's-complement sum does not depend on the order of its operands.
pub proof fn lemma_ones_add_commutative(a: u16, b: u16)
    ensures
        ones_add(a, b) == ones_add(b, a),
{
}

/// The one's-complement sum does not depend on how its operands are grouped.
pub proof fn lemma_ones_add_associative(a: u16, b: u16, c: u16)
    ensures
        ones_add(ones_add(a, b), c) == ones_add(a, ones_add(b, c)),
{
    lemma_fold_of_word(a);
    lemma_fold_of_word(c);
    lemma_fold_sum((a + b) as nat, c as nat);
    lemma_fold_sum(a as nat, (b + c) as nat);
}

/// Two words can be added to a sum in either order.
pub proof fn lemma_updates_commute(sum: u16, a: u16, b: u16)
    ensures
        ones_add(ones_add(sum, a), b) == ones_add(ones_add(sum, b), a),
{
    lemma_ones_add_associative(sum, a, b);
    lemma_ones_add_associative(sum, b, a);
    lemma_ones_add_commutative(a, b);
}

/// The one's-complement sum of a stream of words and one more word is the
/// fold of the whole sum.
pub proof fn lemma_ones_add_is_fold(m: nat, w: u16)
    ensures
        ones_add(ones_fold(m), w) == ones_fold(m + w as nat),
{
    lemma_fold_of_word(w);
    lemma_fold_sum(m, w as nat);
}

/// Adding a word and removing it again leaves every sum but the all-zero one
/// as it was. The all-zero sum becomes `0xFFFF`, the other zero of
/// one's-complement arithmetic.
pub proof fn lemma_add_then_remove(x: u16, w: u16)
    ensures
        x != 0 ==> ones_add(ones_add(x, w), ones_not(w)) == x,
        x == 0 ==> ones_add(ones_add(x, w), ones_not(w)) == 0xFFFF,
{
    lemma_fold_of_word(x);
    lemma_fold_of_word(0xFFFF);
    lemma_fold_congruent((x + 0xFFFF) as nat);
    lemma_ones_add_is_fold((x + w) as nat, ones_not(w));
    lemma_fold_unique((x + w + ones_not(w)) as nat, (x + 0xFFFF) as nat);
}

/// The sum of two streams laid end to end is the sum of their sums.
pub proof fn lemma_word_sum_concat(a: Seq<u16>, b: Seq<u16>)
    ensures
        word_sum(a + b) == word_sum(a) + word_sum(b),
    decreases b.len(),
{
    if b.len() == 0 {
        assert(a + b =~= a);
    } else {
        lemma_word_sum_concat(a, b.drop_last());
        assert((a + b).drop_last() =~= a + b.drop_last());
    }
}

/// Whether `update` is what replacing the words `removed` by the words
/// `added` does to a one's-complement sum: congruent, modulo `0xFFFF`, to the
/// sum of `added` less the sum of `removed`.
pub open spec fn replaces(update: u16, removed: Seq<u16>, added: Seq<u16>) -> bool {
    (word_sum(removed) + update) % 65535 == word_sum(added) % 65535
}

/// Whether two updates undo each other: what one adds the other removes.
pub open spec fn cancel(there: u16, back: u16) -> bool {
    (there + back) % 65535 == 0
}

/// Removing words and adding others, pair by pair, is an update that
/// replaces the first by the second.
pub proof fn lemma_remove_add_replaces(update: u16, removed: Seq<u16>, added: Seq<u16>, old: u16, new: u16)
    requires
        replaces(update, removed, added),
    ensures
        replaces(
            ChecksumUpdate::spec_added(ChecksumUpdate::spec_removed(update, old), new),
            removed.push(old),
            added.push(new),
        ),
{
    lemma_fold_of_word(update);
    lemma_ones_add_is_fold(update as nat, ones_not(old));
    lemma_ones_add_is_fold((update + ones_not(old)) as nat, new);
    lemma_fold_congruent((update + ones_not(old) + new) as nat);
    assert(removed.push(old).drop_last() =~= removed);
    assert(added.push(new).drop_last() =~= added);
}

/// An update that replaces some words and the update that puts them back
/// undo each other.
pub proof fn lemma_replaces_cancel(there: u16, back: u16, a: Seq<u16>, b: Seq<u16>)
    requires
        replaces(there, a, b),
        replaces(back, b, a),
    ensures
        cancel(there, back),
{
}

/// A running one's-complement sum of the words that a rewrite adds to a
/// packet and of the complements of the words that it removes.
///
/// The value is a plain word, see [`ChecksumUpdate::view`]: the sum so far,
/// folded. Every operation returns a new value, so partial sums can be kept
/// and combined in any order.
#[derive(Clone, Copy, Debug)]
pub struct ChecksumUpdate {
    sum: u32,
}

impl View for ChecksumUpdate {
    type V = u16;

    /// The folded one's-complement sum of everything recorded so far.
    closed spec fn view(&self) -> u16 {
        ones_fold(self.sum as nat)
    }
}

impl Default for ChecksumUpdate {
    /// The empty update: nothing added, nothing removed.
    fn default() -> (r: Self)
        ensures
            r@ == 0,
    {
        proof {
            lemma_fold_of_word(0);
        }
        ChecksumUpdate { sum: 0 }
    }
}

/// Adds the high half of `sum` to its low half.
fn fold_once(sum: u32) -> (r: u32)
    ensures
        r == fold_step(sum as nat),
        r <= 0x1FFFE,
{
    let low: u32 = sum & 0xFFFF;
    let high: u32 = sum >> 16;
    assert(low == sum % 65536 && high == sum / 65536) by (bit_vector)
        requires
            low == sum & 0xFFFF,
            high == sum >> 16,
    ;
    low + high
}

impl ChecksumUpdate {
    /// The sum `sum` after `val` has been added to it.
    pub open spec fn spec_added(sum: u16, val: u16) -> u16 {
        ones_add(sum, val)
    }

    /// The sum `sum` after `val` has been removed from it.
    pub open spec fn spec_removed(sum: u16, val: u16) -> u16 {
        ones_add(sum, ones_not(val))
    }

    /// Starts from the checksum that a packet carries: the complement of the
    /// sum of its words.
    pub fn new(checksum: u16) -> (r: Self)
        ensures
            r@ == ones_not(checksum),
    {
        let inverted: u16 = !checksum;
        assert(inverted == 0xFFFF - checksum) by (bit_vector)
            requires
                inverted == !checksum,
        ;
        proof {
            lemma_fold_of_word(inverted);
        }
        ChecksumUpdate { sum: inverted as u32 }
    }

    /// Records that `val` is now part of the packet.
    pub fn add_u16(self, val: u16) -> (r: Self)
        ensures
            r@ == Self::spec_added(self@, val),
    {
        let folded: u32 = fold_once(self.sum);
        proof {
            lemma_fold_step(self.sum as nat);
            lemma_fold_of_word(val);
            lemma_fold_sum(folded as nat, val as nat);
        }
        ChecksumUpdate { sum: folded + val as u32 }
    }

    /// Records that `val` is no longer part of the packet, by adding its
    /// complement.
    pub fn remove_u16(self, val: u16) -> (r: Self)
        ensures
            r@ == Self::spec_removed(self@, val),
    {
        let inverted: u16 = !val;
        assert(inverted == 0xFFFF - val) by (bit_vector)
            requires
                inverted == !val,
        ;
        self.add_u16(inverted)
    }

    /// Merges another update into this one.
    pub fn add_update(self, update: ChecksumUpdate) -> (r: Self)
        ensures
            r@ == ones_add(self@, update@),
    {
        let left: u32 = fold_once(self.sum);
        let right: u32 = fold_once(update.sum);
        proof {
            lemma_fold_step(self.sum as nat);
            lemma_fold_step(update.sum as nat);
            lemma_fold_sum(left as nat, right as nat);
        }
        ChecksumUpdate { sum: left + right }
    }

    /// Folds the remaining carries and complements the sum: the checksum to
    /// write into the packet.
    pub fn into_checksum(self) -> (checksum: u16)
        ensures
            checksum == ones_not(self@),
    {
        let mut sum: u32 = self.sum;
        while sum > 0xFFFF
            invariant
                ones_fold(sum as nat) == self@,
            decreases sum,
        {
            proof {
                lemma_fold_step(sum as nat);
            }
            sum = fold_once(sum);
        }
        let folded: u16 = sum as u16;
        proof {
            lemma_fold_of_word(folded);
        }
        let checksum: u16 = !folded;
        assert(checksum == 0xFFFF - folded) by (bit_vector)
            requires
                checksum == !folded,
        ;
        checksum
    }
}

} // verus!
