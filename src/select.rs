use vstd::prelude::*;
use crate::draw::{push_char, random_below, shuffle_indices};

verus! {

/// The first `n` colors dealt by coin flips: `flips[i]` sends color `i` to the
/// character bucket (first), otherwise to the line bucket (second).
pub open spec fn deal(colors: Seq<String>, flips: Seq<bool>, n: nat) -> (Seq<String>, Seq<String>)
    decreases n,
{
    if n == 0 {
        (Seq::empty(), Seq::empty())
    } else {
        let (c, l) = deal(colors, flips, (n - 1) as nat);
        if flips[n - 1] {
            (c.push(colors[n - 1]), l)
        } else {
            (c, l.push(colors[n - 1]))
        }
    }
}

/// The palette partition: every color but the last is dealt by its flip; the
/// last goes to the smaller bucket, the character bucket on a tie.
pub open spec fn partition_of(colors: Seq<String>, flips: Seq<bool>) -> (Seq<String>, Seq<String>)
    recommends
        colors.len() >= 1,
{
    let (c, l) = deal(colors, flips, (colors.len() - 1) as nat);
    let last = colors.last();
    if c.len() <= l.len() {
        (c.push(last), l)
    } else {
        (c, l.push(last))
    }
}

proof fn lemma_deal_len(colors: Seq<String>, flips: Seq<bool>, n: nat)
    ensures
        deal(colors, flips, n).0.len() + deal(colors, flips, n).1.len() == n,
    decreases n,
{
    if n > 0 {
        lemma_deal_len(colors, flips, (n - 1) as nat);
    }
}

/// With at least two colors, both buckets of the partition are non-empty,
/// whatever the flips.
pub proof fn lemma_partition_nonempty(colors: Seq<String>, flips: Seq<bool>)
    requires
        colors.len() >= 2,
    ensures
        partition_of(colors, flips).0.len() >= 1,
        partition_of(colors, flips).1.len() >= 1,
{
    lemma_deal_len(colors, flips, (colors.len() - 1) as nat);
}

/// Partitions `colors` into a character bucket and a line bucket, using
/// `flips[i]` for color `i` (all but the last).
pub fn partition_palette(colors: &Vec<String>, flips: &Vec<bool>) -> (r: (Vec<String>, Vec<String>))
    requires
        colors@.len() >= 1,
        flips@.len() + 1 >= colors@.len(),
    ensures
        (r.0@, r.1@) == partition_of(colors@, flips@),
{
    let n = colors.len() - 1;
    let mut chars: Vec<String> = Vec::new();
    let mut lines: Vec<String> = Vec::new();
    let mut i: usize = 0;
    while i < n
        invariant
            n + 1 == colors@.len(),
            flips@.len() >= n,
            i <= n,
            (chars@, lines@) == deal(colors@, flips@, i as nat),
        decreases n - i,
    {
        let c = colors[i].clone();
        if flips[i] {
            chars.push(c);
        } else {
            lines.push(c);
        }
        i = i + 1;
    }
    let last = colors[n].clone();
    if chars.len() <= lines.len() {
        chars.push(last);
    } else {
        lines.push(last);
    }
    (chars, lines)
}

/// Partitions `colors` with one fair coin flip per color but the last.
pub fn random_partition(colors: &Vec<String>) -> (r: (Vec<String>, Vec<String>))
    requires
        colors@.len() >= 1,
    ensures
        exists|flips: Seq<bool>|
            flips.len() + 1 == colors@.len() && (r.0@, r.1@) == #[trigger] partition_of(colors@, flips),
{
    let n = colors.len() - 1;
    let mut flips: Vec<bool> = Vec::new();
    while flips.len() < n
        invariant
            flips@.len() <= n,
        decreases n - flips@.len(),
    {
        flips.push(random_below(2) == 1);
    }
    partition_palette(colors, &flips)
}

/// The answer spelled by `draws`, each an index into `alphabet`.
pub open spec fn spelled(alphabet: Seq<char>, draws: Seq<usize>) -> Seq<char> {
    draws.map_values(|d: usize| alphabet[d as int])
}

/// Spells the answer whose characters are `alphabet[draws[i]]`.
pub fn answer_from_draws(alphabet: &Vec<char>, draws: &Vec<usize>) -> (r: String)
    requires
        forall|i: int| 0 <= i < draws@.len() ==> #[trigger] draws@[i] < alphabet@.len(),
    ensures
        r@ == spelled(alphabet@, draws@),
{
    let mut s = String::new();
    let mut i: usize = 0;
    while i < draws.len()
        invariant
            i <= draws@.len(),
            forall|k: int| 0 <= k < draws@.len() ==> #[trigger] draws@[k] < alphabet@.len(),
            s@ == spelled(alphabet@, draws@.take(i as int)),
        decreases draws@.len() - i,
    {
        push_char(&mut s, alphabet[draws[i]]);
        assert(draws@.take(i + 1) == draws@.take(i as int).push(draws@[i as int]));
        i = i + 1;
    }
    assert(draws@.take(i as int) == draws@);
    s
}

/// Draws an answer of `length` characters, each uniform over `alphabet`.
pub fn random_answer(alphabet: &Vec<char>, length: usize) -> (r: String)
    requires
        alphabet@.len() > 0,
    ensures
        r@.len() == length,
        forall|i: int| 0 <= i < length ==> alphabet@.contains(#[trigger] r@[i]),
{
    let mut draws: Vec<usize> = Vec::new();
    while draws.len() < length
        invariant
            draws@.len() <= length,
            alphabet@.len() > 0,
            forall|i: int| 0 <= i < draws@.len() ==> #[trigger] draws@[i] < alphabet@.len(),
        decreases length - draws@.len(),
    {
        draws.push(random_below(alphabet.len()));
    }
    let r = answer_from_draws(alphabet, &draws);
    assert forall|i: int| 0 <= i < length implies alphabet@.contains(#[trigger] r@[i]) by {
        assert(r@[i] == alphabet@[draws@[i] as int]);
    }
    r
}

/// The indices `0, 1, ..., n - 1` in increasing order.
pub open spec fn identity_order(n: nat) -> Seq<usize> {
    Seq::new(n, |i: int| i as usize)
}

/// A uniformly shuffled draw order: a permutation of `0..n`.
pub fn shuffled_order(n: usize) -> (r: Vec<usize>)
    ensures
        r@.len() == n,
        r@.to_multiset() == identity_order(n as nat).to_multiset(),
{
    let mut order: Vec<usize> = Vec::new();
    let mut i: usize = 0;
    while i < n
        invariant
            i <= n,
            order@ == identity_order(i as nat),
        decreases n - i,
    {
        order.push(i);
        assert(order@ == identity_order((i + 1) as nat));
        i = i + 1;
    }
    shuffle_indices(&mut order);
    order
}

} // verus!
