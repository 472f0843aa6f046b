//! Blackjack hand scoring.
//!
//! A [`Hand`] is an ordered, append-only sequence of card ranks. Its value is
//! the best total under the usual rule: every Ace is first counted at its
//! soft value of 11, and while the total exceeds 21 and a soft Ace remains,
//! one Ace is demoted to count 1 (subtracting a flat 10). The evaluator runs
//! this as an explicit two-phase fold — accumulate, then demote — rather
//! than attempting any inline per-card demotion; the final corrective pass
//! alone already performs the minimal number of demotions, so nothing is
//! gained by short-circuiting during accumulation.

use vstd::prelude::*;

verus! {

/// The thirteen card ranks. Every rank except the Ace has a fixed point
/// value (Two..=Ten at face value, the court cards at 10); an Ace counts 11
/// until demotion makes it count 1.
#[derive(Clone, Copy, Debug, PartialEq, Eq, Structural)]
pub enum Rank {
    Ace,
    Two,
    Three,
    Four,
    Five,
    Six,
    Seven,
    Eight,
    Nine,
    Ten,
    Jack,
    Queen,
    King,
}

/// The points a rank contributes before any demotion: the fixed value of a
/// non-Ace rank, and 11 (the soft value) for an Ace.
pub open spec fn rank_value(r: Rank) -> nat {
    match r {
        Rank::Ace => 11,
        Rank::Two => 2,
        Rank::Three => 3,
        Rank::Four => 4,
        Rank::Five => 5,
        Rank::Six => 6,
        Rank::Seven => 7,
        Rank::Eight => 8,
        Rank::Nine => 9,
        Rank::Ten => 10,
        Rank::Jack => 10,
        Rank::Queen => 10,
        Rank::King => 10,
    }
}

/// The accumulated total with every Ace still counted at 11.
pub open spec fn soft_total(cards: Seq<Rank>) -> nat
    decreases cards.len(),
{
    if cards.len() == 0 {
        0
    } else {
        soft_total(cards.drop_last()) + rank_value(cards.last())
    }
}

/// How many Aces the hand holds.
pub open spec fn ace_count(cards: Seq<Rank>) -> nat
    decreases cards.len(),
{
    if cards.len() == 0 {
        0
    } else {
        ace_count(cards.drop_last()) + if cards.last() is Ace {
            1nat
        } else {
            0nat
        }
    }
}

/// The corrective pass: while the total exceeds 21 and a soft Ace remains,
/// demote one Ace from 11 to 1.
pub open spec fn demote(total: nat, soft_aces: nat) -> nat
    decreases soft_aces,
{
    if total > 21 && soft_aces > 0 {
        demote((total - 10) as nat, (soft_aces - 1) as nat)
    } else {
        total
    }
}

/// The value of a hand: accumulate every Ace at 11, then demote Aces one at
/// a time while the total is over 21.
pub open spec fn hand_value(cards: Seq<Rank>) -> nat {
    demote(soft_total(cards), ace_count(cards))
}

impl Rank {
    /// The points this rank contributes before any demotion (an Ace at its
    /// soft value of 11).
    pub fn points(self) -> (p: u32)
        ensures
            p == rank_value(self),
    {
        match self {
            Rank::Ace => 11,
            Rank::Two => 2,
            Rank::Three => 3,
            Rank::Four => 4,
            Rank::Five => 5,
            Rank::Six => 6,
            Rank::Seven => 7,
            Rank::Eight => 8,
            Rank::Nine => 9,
            Rank::Ten => 10,
            Rank::Jack => 10,
            Rank::Queen => 10,
            Rank::King => 10,
        }
    }
}

/// The soft total of a prefix never exceeds the soft total of the whole
/// hand: every rank contributes a positive number of points.
proof fn lemma_soft_total_prefix(cards: Seq<Rank>, i: int)
    requires
        0 <= i <= cards.len(),
    ensures
        soft_total(cards.take(i)) <= soft_total(cards),
    decreases cards.len(),
{
    if i == cards.len() {
        assert(cards.take(i) =~= cards);
    } else {
        assert(cards.take(i) =~= cards.drop_last().take(i));
        lemma_soft_total_prefix(cards.drop_last(), i);
    }
}

/// Removing one card takes its points out of the soft total, and takes it
/// out of the Ace count if it is an Ace.
proof fn lemma_tally_remove(cards: Seq<Rank>, j: int)
    requires
        0 <= j < cards.len(),
    ensures
        soft_total(cards.remove(j)) + rank_value(cards[j]) == soft_total(cards),
        ace_count(cards.remove(j)) + (if cards[j] is Ace {
            1nat
        } else {
            0nat
        }) == ace_count(cards),
    decreases cards.len(),
{
    if j == cards.len() - 1 {
        assert(cards.remove(j) =~= cards.drop_last());
    } else {
        assert(cards.remove(j).drop_last() =~= cards.drop_last().remove(j));
        assert(cards.remove(j).last() == cards.last());
        lemma_tally_remove(cards.drop_last(), j);
    }
}

/// Two hands made of the same cards have the same soft total and the same
/// Ace count, whatever the order the cards were dealt in.
proof fn lemma_tally_multiset(a: Seq<Rank>, b: Seq<Rank>)
    requires
        a.to_multiset() == b.to_multiset(),
    ensures
        soft_total(a) == soft_total(b),
        ace_count(a) == ace_count(b),
    decreases a.len(),
{
    broadcast use vstd::seq_lib::group_to_multiset_ensures;

    if a.len() == 0 {
        assert(a.to_multiset().len() == a.len());
        assert(b.to_multiset().len() == b.len());
    } else {
        let x = a.last();
        assert(a.contains(x));
        assert(b.to_multiset().count(x) > 0);
        assert(b.contains(x));
        let j = choose|j: int| 0 <= j < b.len() && b[j] == x;
        assert(a.drop_last() =~= a.remove(a.len() - 1));
        assert(a.drop_last().to_multiset() == b.remove(j).to_multiset());
        lemma_tally_multiset(a.drop_last(), b.remove(j));
        lemma_tally_remove(b, j);
    }
}

/// The value of a hand does not depend on the order the cards were dealt
/// in: two hands holding the same cards are worth the same.
pub proof fn lemma_value_order_independent(a: Seq<Rank>, b: Seq<Rank>)
    requires
        a.to_multiset() == b.to_multiset(),
    ensures
        hand_value(a) == hand_value(b),
{
    lemma_tally_multiset(a, b);
}

/// A hand without an Ace is worth exactly the sum of its fixed point
/// values; no demotion can apply.
pub proof fn lemma_value_without_aces(cards: Seq<Rank>)
    requires
        ace_count(cards) == 0,
    ensures
        hand_value(cards) == soft_total(cards),
{
}

/// In a hand with exactly one Ace, the Ace counts as 11 whenever counting
/// it as 11 does not bust the hand.
pub proof fn lemma_single_ace_counts_eleven(cards: Seq<Rank>)
    requires
        ace_count(cards) == 1,
        soft_total(cards) <= 21,
    ensures
        hand_value(cards) == soft_total(cards),
{
}

/// Demotion facts, by induction on the number of soft Aces: demotion never
/// raises the total, a bust result means every Ace was demoted, and full
/// demotion is a floor on the result.
proof fn lemma_demote_facts(total: nat, soft_aces: nat)
    ensures
        demote(total, soft_aces) <= total,
        demote(total, soft_aces) > 21 ==> demote(total, soft_aces) + 10 * soft_aces == total,
        total - 10 * soft_aces <= demote(total, soft_aces),
        total > 21 && demote(total, soft_aces) <= 21 ==> demote(total, soft_aces) > 11,
    decreases soft_aces,
{
    if total > 21 && soft_aces > 0 {
        lemma_demote_facts((total - 10) as nat, (soft_aces - 1) as nat);
    }
}

/// A hand whose value exceeds 21 is a true bust: every Ace has been demoted
/// to 1 and the value is the fully demoted total. In every case the value
/// lies between the fully demoted total and the soft total.
pub proof fn lemma_bust_is_fully_demoted(cards: Seq<Rank>)
    ensures
        hand_value(cards) <= soft_total(cards),
        hand_value(cards) > 21 ==> hand_value(cards) + 10 * ace_count(cards) == soft_total(
            cards,
        ),
        soft_total(cards) - 10 * ace_count(cards) <= hand_value(cards),
{
    lemma_demote_facts(soft_total(cards), ace_count(cards));
}

/// Demotion is minimal: when a hand needed demotion at all and still came
/// out valid, its value sits above 11 — one fewer demotion would have left
/// it bust.
pub proof fn lemma_demotion_minimal(cards: Seq<Rank>)
    ensures
        soft_total(cards) > 21 && hand_value(cards) <= 21 ==> 11 < hand_value(cards),
{
    lemma_demote_facts(soft_total(cards), ace_count(cards));
}

/// An ordered, append-only sequence of dealt card ranks. The evaluator only
/// reads it; a hand has no invariant beyond holding valid ranks, and any
/// hand — including the empty one — evaluates to a defined total.
#[derive(Debug)]
pub struct Hand {
    cards: Vec<Rank>,
}

impl View for Hand {
    type V = Seq<Rank>;

    closed spec fn view(&self) -> Seq<Rank> {
        self.cards@
    }
}

impl Hand {
    /// An empty hand, worth 0.
    pub fn new() -> (h: Hand)
        ensures
            h@ == Seq::<Rank>::empty(),
    {
        Hand { cards: Vec::new() }
    }

    /// Append one dealt card to the end of the hand.
    pub fn append(&mut self, rank: Rank)
        ensures
            final(self)@ == old(self)@.push(rank),
    {
        self.cards.push(rank);
    }

    /// The best total for this hand: every Ace counts 11 unless that busts
    /// the hand, in which case Aces are demoted to count 1, one at a time,
    /// until the hand is valid or no soft Ace remains.
    ///
    /// Evaluation reads the hand and leaves it unchanged; the result is a
    /// function of the cards alone.
    pub fn value(&self) -> (v: u32)
        requires
            soft_total(self@) <= u32::MAX,
        ensures
            v == hand_value(self@),
    {
        let n = self.cards.len();
        let mut total: u32 = 0;
        let mut soft_aces: usize = 0;
        let mut i: usize = 0;
        while i < n
            invariant
                i <= n,
                n == self@.len(),
                soft_total(self@) <= u32::MAX,
                total == soft_total(self@.take(i as int)),
                soft_aces == ace_count(self@.take(i as int)),
                soft_aces <= i,
            decreases n - i,
        {
            let card = self.cards[i];
            proof {
                lemma_soft_total_prefix(self@, i + 1);
                assert(self@.take(i + 1).drop_last() =~= self@.take(i as int));
                assert(self@.take(i + 1).last() == self@[i as int]);
            }
            total = total + card.points();
            if card == Rank::Ace {
                soft_aces = soft_aces + 1;
            }
            i = i + 1;
        }
        assert(self@.take(n as int) =~= self@);
        while total > 21 && soft_aces > 0
            invariant
                demote(total as nat, soft_aces as nat) == hand_value(self@),
            decreases soft_aces,
        {
            total = total - 10;
            soft_aces = soft_aces - 1;
        }
        total
    }

    /// Whether the hand is bust: its value exceeds 21 even after every
    /// possible Ace demotion.
    pub fn is_bust(&self) -> (b: bool)
        requires
            soft_total(self@) <= u32::MAX,
        ensures
            b == (hand_value(self@) > 21),
    {
        self.value() > 21
    }
}

} // verus!
