//! Dice rolls and their outcomes: rolling `amount` dice of `dice` sides,
//! summing them with a bonus, and deciding opposed rolls.
use vstd::prelude::*;
use rand::Rng;
use crate::text::{decimal, push_decimal};

verus! {

/// The random number generator of the current thread.
#[verifier::external_type_specification]
#[verifier::external_body]
pub struct ExThreadRng(rand::rngs::ThreadRng);

/// Trusted: `rand::thread_rng`, which hands out the lazily seeded generator
/// of the current thread. Nothing is stated of the generator's state; its
/// first use in a thread panics when the system's randomness cannot be read,
/// which no argument decides.
#[verifier::external_body]
fn thread_rng() -> rand::rngs::ThreadRng {
    rand::thread_rng()
}

/// Trusted: `Rng::gen_range` on the inclusive range `low..=high`. Its source
/// asserts that the range is not empty (`low <= high`, else it panics) and
/// samples uniformly from it, so the result lies in `low..=high`; which value
/// comes out is left to chance and not stated.
#[verifier::external_body]
fn gen_range_inclusive(rng: &mut rand::rngs::ThreadRng, low: u32, high: u32) -> (r: u32)
    requires
        low <= high,
    ensures
        low <= r <= high,
{
    rng.gen_range(low..=high)
}

/// The label of a roll: `"{amount}d{dice}"`.
pub open spec fn dice_label_text(dice: u32, amount: u32) -> Seq<char> {
    decimal(amount as nat) + seq!['d'] + decimal(dice as nat)
}

/// `amount` dice with `dice` sides each, labelled `"{amount}d{dice}"`.
#[derive(Debug, Clone)]
pub struct Roll {
    pub dice_label: String,
    pub dice: u32,
    pub amount: u32,
}

impl Roll {
    pub fn new(dice: u32, amount: u32) -> (r: Roll)
        ensures
            r.dice == dice,
            r.amount == amount,
            r.dice_label@ == dice_label_text(dice, amount),
    {
        let mut label = String::new();
        push_decimal(&mut label, amount);
        crate::text::push_char(&mut label, 'd');
        push_decimal(&mut label, dice);
        Roll { dice_label: label, dice, amount }
    }
}

/// Whether `rolled` could come out of rolling `amount` dice of `dice` sides.
pub open spec fn valid_rolls(rolled: Seq<u32>, dice: u32, amount: u32) -> bool {
    &&& rolled.len() == amount
    &&& forall|i: int| 0 <= i < rolled.len() ==> 1 <= #[trigger] rolled[i] <= dice
}

impl Roll {
    /// Rolls every die once. With no sides to a die (`dice == 0`) and at
    /// least one die, `gen_range` panics, so such rolls are left out.
    fn roll(&self) -> (res: (Vec<u32>, String))
        requires
            self.dice >= 1 || self.amount == 0,
        ensures
            valid_rolls(res.0@, self.dice, self.amount),
            res.1@ == self.dice_label@,
    {
        let mut rng = thread_rng();
        let mut rolls: Vec<u32> = Vec::new();
        let mut k: u32 = 0;
        while k < self.amount
            invariant
                k <= self.amount,
                self.dice >= 1 || self.amount == 0,
                valid_rolls(rolls@, self.dice, k),
            decreases self.amount - k,
        {
            let r = gen_range_inclusive(&mut rng, 1, self.dice);
            rolls.push(r);
            k = k + 1;
        }
        (rolls, self.dice_label.clone())
    }
}

/// Whether the highest die counts as a 20 or as a 1.
pub enum Critical {
    Twenty,
    One,
}

/// The critical value that `crit` stands for.
pub open spec fn critical_value(crit: Critical) -> u32 {
    match crit {
        Critical::Twenty => 20,
        Critical::One => 1,
    }
}

/// The greatest element of a non-empty sequence.
pub open spec fn seq_max(s: Seq<u32>) -> u32
    decreases s.len(),
{
    if s.len() <= 1 {
        if s.len() == 1 {
            s[0]
        } else {
            0
        }
    } else if s.last() > seq_max(s.drop_last()) {
        s.last()
    } else {
        seq_max(s.drop_last())
    }
}

/// The least element of a non-empty sequence.
pub open spec fn seq_min(s: Seq<u32>) -> u32
    decreases s.len(),
{
    if s.len() <= 1 {
        if s.len() == 1 {
            s[0]
        } else {
            0
        }
    } else if s.last() < seq_min(s.drop_last()) {
        s.last()
    } else {
        seq_min(s.drop_last())
    }
}

/// The sum of a sequence.
pub open spec fn seq_sum(s: Seq<u32>) -> int
    decreases s.len(),
{
    if s.len() == 0 {
        0
    } else {
        seq_sum(s.drop_last()) + s.last()
    }
}

/// `s` without the first occurrence of `v` (unchanged when `v` is absent).
pub open spec fn remove_first(s: Seq<u32>, v: u32) -> Seq<u32>
    decreases s.len(),
{
    if s.len() == 0 {
        s
    } else if s[0] == v {
        s.drop_first()
    } else {
        seq![s[0]] + remove_first(s.drop_first(), v)
    }
}

/// The `max` of an outcome: the highest die for a critical of 20, the
/// lowest for a critical of 1.
pub open spec fn outcome_max(rolled: Seq<u32>, crit: Critical) -> u32 {
    if critical_value(crit) == 20 {
        seq_max(rolled)
    } else {
        seq_min(rolled)
    }
}

/// The `min` of an outcome: the lowest die for a critical of 20, the
/// highest for a critical of 1.
pub open spec fn outcome_min(rolled: Seq<u32>, crit: Critical) -> u32 {
    if critical_value(crit) == 20 {
        seq_min(rolled)
    } else {
        seq_max(rolled)
    }
}

/// The dice that count towards the result: for an attribute roll, all but
/// one lowest die (the first of them), as Dragonbane picks attributes.
pub open spec fn kept_dice(rolled: Seq<u32>, attribute: bool) -> Seq<u32> {
    if attribute {
        remove_first(rolled, seq_min(rolled))
    } else {
        rolled
    }
}

/// `"Roll: {label} + {bonus}"`.
pub open spec fn roll_description_text(label: Seq<char>, bonus: u32) -> Seq<char> {
    "Roll: "@ + label + " + "@ + decimal(bonus as nat)
}

/// The result of a roll, with what is needed to decide opposed rolls.
#[derive(Debug, Clone)]
pub struct Outcome {
    pub roll_description: String,
    pub base_result: u32,
    pub max: u32,
    pub min: u32,
    pub attribute: bool,
    pub critical: u32,
}

impl Outcome {
    /// Whether `self` is what `Outcome::new` makes of `rolled`, the dice
    /// that came out of rolling a roll labelled `label`.
    pub open spec fn is_outcome_of(
        self,
        label: Seq<char>,
        crit: Critical,
        bonus: u32,
        attribute: bool,
        rolled: Seq<u32>,
    ) -> bool {
        &&& self.roll_description@ == roll_description_text(label, bonus)
        &&& self.base_result == seq_sum(kept_dice(rolled, attribute)) + bonus
        &&& self.max == outcome_max(rolled, crit)
        &&& self.min == outcome_min(rolled, crit)
        &&& self.attribute == attribute
        &&& self.critical == critical_value(crit)
    }
}

fn critical_number(crit: &Critical) -> (c: u32)
    ensures
        c == critical_value(*crit),
{
    match crit {
        Critical::Twenty => 20,
        Critical::One => 1,
    }
}

fn max_of(v: &Vec<u32>) -> (m: u32)
    requires
        v.len() > 0,
    ensures
        m == seq_max(v@),
{
    let mut m = v[0];
    let mut i: usize = 1;
    assert(v@.take(1).drop_last() =~= v@.take(0));
    while i < v.len()
        invariant
            1 <= i <= v.len(),
            m == seq_max(v@.take(i as int)),
        decreases v.len() - i,
    {
        assert(v@.take(i + 1).drop_last() =~= v@.take(i as int));
        if v[i] > m {
            m = v[i];
        }
        i = i + 1;
    }
    assert(v@.take(v.len() as int) =~= v@);
    m
}

fn min_of(v: &Vec<u32>) -> (m: u32)
    requires
        v.len() > 0,
    ensures
        m == seq_min(v@),
{
    let mut m = v[0];
    let mut i: usize = 1;
    while i < v.len()
        invariant
            1 <= i <= v.len(),
            m == seq_min(v@.take(i as int)),
        decreases v.len() - i,
    {
        assert(v@.take(i + 1).drop_last() =~= v@.take(i as int));
        if v[i] < m {
            m = v[i];
        }
        i = i + 1;
    }
    assert(v@.take(v.len() as int) =~= v@);
    m
}

proof fn lemma_remove_first_at(s: Seq<u32>, v: u32, i: int)
    requires
        0 <= i < s.len(),
        s[i] == v,
        forall|j: int| 0 <= j < i ==> s[j] != v,
    ensures
        remove_first(s, v) == s.remove(i),
    decreases i,
{
    if i == 0 {
        assert(s.drop_first() =~= s.remove(0));
    } else {
        assert(s[0] != v);
        let t = s.drop_first();
        assert forall|j: int| 0 <= j < i - 1 implies t[j] != v by {
            assert(t[j] == s[j + 1]);
        }
        lemma_remove_first_at(t, v, i - 1);
        assert(seq![s[0]] + t.remove(i - 1) =~= s.remove(i));
    }
}

proof fn lemma_remove_first_absent(s: Seq<u32>, v: u32)
    requires
        forall|j: int| 0 <= j < s.len() ==> s[j] != v,
    ensures
        remove_first(s, v) == s,
    decreases s.len(),
{
    if s.len() > 0 {
        let t = s.drop_first();
        assert forall|j: int| 0 <= j < t.len() implies t[j] != v by {
            assert(t[j] == s[j + 1]);
        }
        lemma_remove_first_absent(t, v);
        assert(seq![s[0]] + t =~= s);
    }
}

/// Removes the first element of `v` equal to `x`, if there is one.
fn remove_first_of(v: &mut Vec<u32>, x: u32)
    ensures
        final(v)@ == remove_first(old(v)@, x),
{
    let mut i: usize = 0;
    while i < v.len()
        invariant
            i <= v.len(),
            v@ == old(v)@,
            forall|j: int| 0 <= j < i ==> v@[j] != x,
        decreases v.len() - i,
    {
        if v[i] == x {
            proof {
                lemma_remove_first_at(v@, x, i as int);
            }
            v.remove(i);
            return;
        }
        i = i + 1;
    }
    proof {
        lemma_remove_first_absent(v@, x);
    }
}

proof fn lemma_sum_prefix(s: Seq<u32>, j: int)
    requires
        0 <= j <= s.len(),
    ensures
        0 <= seq_sum(s.take(j)) <= seq_sum(s),
    decreases s.len(),
{
    if s.len() == 0 {
        assert(s.take(j) =~= s);
    } else if j == s.len() {
        assert(s.take(j) =~= s);
        lemma_sum_prefix(s.drop_last(), j - 1);
    } else {
        lemma_sum_prefix(s.drop_last(), j);
        assert(s.drop_last().take(j) =~= s.take(j));
        lemma_sum_prefix(s.drop_last(), s.len() - 1);
        assert(s.drop_last().take(s.len() - 1) =~= s.drop_last());
    }
}

fn sum_of(v: &Vec<u32>) -> (total: u32)
    requires
        seq_sum(v@) <= u32::MAX,
    ensures
        total == seq_sum(v@),
{
    let mut total: u32 = 0;
    let mut i: usize = 0;
    while i < v.len()
        invariant
            i <= v.len(),
            seq_sum(v@) <= u32::MAX,
            total == seq_sum(v@.take(i as int)),
        decreases v.len() - i,
    {
        assert(v@.take(i + 1).drop_last() =~= v@.take(i as int));
        proof {
            lemma_sum_prefix(v@, i + 1);
        }
        total = total + v[i];
        i = i + 1;
    }
    assert(v@.take(v.len() as int) =~= v@);
    total
}

impl Outcome {
    /// The outcome of a roll whose dice came out as `rolled`.
    /// With no die rolled there is no highest die to take (a panic), and a
    /// sum beyond `u32::MAX` overflows; both are left out.
    pub fn from_rolls(
        roll: &Roll,
        crit: &Critical,
        bonus: u32,
        attribute: bool,
        rolled: Vec<u32>,
    ) -> (out: Outcome)
        requires
            rolled.len() > 0,
            seq_sum(kept_dice(rolled@, attribute)) + bonus <= u32::MAX,
        ensures
            out.roll_description@ == roll_description_text(roll.dice_label@, bonus),
            out.base_result == seq_sum(kept_dice(rolled@, attribute)) + bonus,
            out.max == outcome_max(rolled@, *crit),
            out.min == outcome_min(rolled@, *crit),
            out.attribute == attribute,
            out.critical == critical_value(*crit),
    {
        let critical = critical_number(crit);
        let mut rolled = rolled;
        let mut roll_description = String::new();
        roll_description.append("Roll: ");
        roll_description.append(roll.dice_label.as_str());
        roll_description.append(" + ");
        push_decimal(&mut roll_description, bonus);
        let highest = max_of(&rolled);
        let lowest = min_of(&rolled);
        let (max, min) = if critical == 20 {
            (highest, lowest)
        } else {
            (lowest, highest)
        };
        // An attribute roll drops the lowest die before the sum.
        if attribute == true {
            remove_first_of(&mut rolled, lowest);
        }
        let mut base_result: u32 = sum_of(&rolled);
        base_result = base_result + bonus;
        Outcome { roll_description, base_result, max, min, attribute, critical }
    }
}

/// Whether every element of `s` lies in `lo..=hi`.
pub open spec fn all_within(s: Seq<u32>, lo: int, hi: int) -> bool {
    forall|i: int| 0 <= i < s.len() ==> lo <= #[trigger] s[i] <= hi
}

proof fn lemma_max_min_present(s: Seq<u32>)
    requires
        s.len() > 0,
    ensures
        s.contains(seq_max(s)),
        s.contains(seq_min(s)),
    decreases s.len(),
{
    if s.len() == 1 {
        assert(s[0] == seq_max(s));
    } else {
        lemma_max_min_present(s.drop_last());
        let t = s.drop_last();
        let i = choose|i: int| 0 <= i < t.len() && t[i] == seq_max(t);
        let k = choose|k: int| 0 <= k < t.len() && t[k] == seq_min(t);
        assert(s[i] == t[i]);
        assert(s[k] == t[k]);
        assert(s[s.len() - 1] == s.last());
    }
}

proof fn lemma_remove_first_len(s: Seq<u32>, v: u32)
    requires
        s.contains(v),
    ensures
        remove_first(s, v).len() == s.len() - 1,
    decreases s.len(),
{
    if s[0] != v {
        let t = s.drop_first();
        let i = choose|i: int| 0 <= i < s.len() && s[i] == v;
        assert(t[i - 1] == v);
        lemma_remove_first_len(t, v);
    }
}

proof fn lemma_remove_first_within(s: Seq<u32>, v: u32, lo: int, hi: int)
    requires
        all_within(s, lo, hi),
    ensures
        all_within(remove_first(s, v), lo, hi),
    decreases s.len(),
{
    if s.len() > 0 && s[0] != v {
        let t = s.drop_first();
        assert(all_within(t, lo, hi)) by {
            assert forall|i: int| 0 <= i < t.len() implies lo <= #[trigger] t[i] <= hi by {
                assert(t[i] == s[i + 1]);
            }
        }
        lemma_remove_first_within(t, v, lo, hi);
        let r = seq![s[0]] + remove_first(t, v);
        assert forall|i: int| 0 <= i < r.len() implies lo <= #[trigger] r[i] <= hi by {
            if i > 0 {
                assert(r[i] == remove_first(t, v)[i - 1]);
            }
        }
    } else if s.len() > 0 {
        let t = s.drop_first();
        assert forall|i: int| 0 <= i < t.len() implies lo <= #[trigger] t[i] <= hi by {
            assert(t[i] == s[i + 1]);
        }
    }
}

proof fn lemma_sum_bounds(s: Seq<u32>, d: int)
    requires
        all_within(s, 1, d),
    ensures
        s.len() <= seq_sum(s) <= s.len() * d,
    decreases s.len(),
{
    if s.len() > 0 {
        let t = s.drop_last();
        assert(all_within(t, 1, d)) by {
            assert forall|i: int| 0 <= i < t.len() implies 1 <= #[trigger] t[i] <= d by {
                assert(t[i] == s[i]);
            }
        }
        lemma_sum_bounds(t, d);
        assert(1 <= s[s.len() - 1] <= d);
        let n = t.len() as int;
        assert(n * d + d == (n + 1) * d) by (nonlinear_arith);
        assert(seq_sum(s) == seq_sum(t) + s.last());
    } else {
        assert(s.len() == 0);
        assert(0 * d == 0) by (nonlinear_arith);
    }
}

/// How many dice count towards the result of an attribute or plain roll.
pub open spec fn kept_count(amount: u32, attribute: bool) -> int {
    if attribute {
        amount - 1
    } else {
        amount as int
    }
}

proof fn lemma_kept_bounds(rolled: Seq<u32>, attribute: bool, dice: u32, amount: u32)
    requires
        amount >= 1,
        valid_rolls(rolled, dice, amount),
    ensures
        kept_dice(rolled, attribute).len() == kept_count(amount, attribute),
        kept_count(amount, attribute) <= seq_sum(kept_dice(rolled, attribute))
            <= kept_count(amount, attribute) * dice,
{
    assert(all_within(rolled, 1, dice as int));
    if attribute {
        lemma_max_min_present(rolled);
        lemma_remove_first_len(rolled, seq_min(rolled));
        lemma_remove_first_within(rolled, seq_min(rolled), 1, dice as int);
    }
    lemma_sum_bounds(kept_dice(rolled, attribute), dice as int);
}

impl Outcome {
    /// Rolls `roll` and makes an outcome of the dice that came out, as
    /// `Outcome::from_rolls` states. The dice are left to chance: the
    /// contract says that some legal throw of them gives this outcome, and
    /// bounds the result by the number of dice that count.
    /// With no dice, or dice without sides, rolling panics; a result that
    /// could exceed `u32::MAX` could overflow. Those rolls are left out.
    pub fn new(roll: &Roll, crit: &Critical, bonus: u32, attribute: bool) -> (out: Outcome)
        requires
            roll.amount >= 1,
            roll.dice >= 1,
            kept_count(roll.amount, attribute) * roll.dice + bonus <= u32::MAX,
        ensures
            exists|rolled: Seq<u32>|
                valid_rolls(rolled, roll.dice, roll.amount) && #[trigger] out.is_outcome_of(
                    roll.dice_label@,
                    *crit,
                    bonus,
                    attribute,
                    rolled,
                ),
            kept_count(roll.amount, attribute) + bonus <= out.base_result
                <= kept_count(roll.amount, attribute) * roll.dice + bonus,
            out.roll_description@ == roll_description_text(roll.dice_label@, bonus),
            out.attribute == attribute,
            out.critical == critical_value(*crit),
    {
        let rolled = roll.roll().0;
        proof {
            lemma_kept_bounds(rolled@, attribute, roll.dice, roll.amount);
        }
        let ghost rs = rolled@;
        let out = Outcome::from_rolls(roll, crit, bonus, attribute, rolled);
        assert(valid_rolls(rs, roll.dice, roll.amount) && out.is_outcome_of(roll.dice_label@, *crit, bonus, attribute, rs));
        out
    }

    /// Decides a roll against an opposing one. The difficulty to beat is
    /// the opposition's result when it is an attribute roll, else
    /// `difficulty`. With a critical of 20 the roll wins when it reaches both
    /// the difficulty and the opposition's result; otherwise when it stays
    /// at or below both.
    pub fn success_of_roll(&self, opposition: &Outcome, difficulty: u32) -> (res: (bool, u32))
        ensures
            res.1 == (if opposition.attribute {
                opposition.base_result
            } else {
                difficulty
            }),
            res.0 == (if self.critical == 20 {
                self.base_result >= res.1 && self.base_result >= opposition.base_result
            } else {
                self.base_result <= res.1 && self.base_result <= opposition.base_result
            }),
    {
        let difficulty = if opposition.attribute == true {
            opposition.base_result
        } else {
            difficulty
        };
        let winner: bool;
        if self.critical == 20 {
            winner = if self.base_result >= difficulty && self.base_result >= opposition.base_result {
                true
            } else {
                false
            }
        } else {
            winner = if self.base_result <= difficulty && self.base_result <= opposition.base_result {
                true
            } else {
                false
            }
        }
        (winner, difficulty)
    }
}

proof fn lemma_sum_front(s: Seq<u32>)
    requires
        s.len() > 0,
    ensures
        seq_sum(s) == s[0] + seq_sum(s.drop_first()),
    decreases s.len(),
{
    if s.len() == 1 {
        assert(s.drop_first() =~= Seq::<u32>::empty());
        assert(s.drop_last() =~= Seq::<u32>::empty());
    } else {
        let t = s.drop_last();
        lemma_sum_front(t);
        assert(t.drop_first() =~= s.drop_first().drop_last());
        assert(s.drop_first().last() == s.last());
    }
}

proof fn lemma_remove_first_sum(s: Seq<u32>, v: u32)
    requires
        s.contains(v),
    ensures
        seq_sum(remove_first(s, v)) == seq_sum(s) - v,
    decreases s.len(),
{
    lemma_sum_front(s);
    let rest = s.drop_first();
    if s[0] != v {
        let i = choose|i: int| 0 <= i < s.len() && s[i] == v;
        assert(rest[i - 1] == v);
        lemma_remove_first_sum(rest, v);
        let r = seq![s[0]] + remove_first(rest, v);
        lemma_sum_front(r);
        assert(r.drop_first() =~= remove_first(rest, v));
    }
}

/// An attribute roll counts every die but one lowest: its result is the sum
/// of all dice less the lowest, plus the bonus.
pub proof fn lemma_attribute_drops_lowest(rolled: Seq<u32>)
    requires
        rolled.len() > 0,
    ensures
        seq_sum(kept_dice(rolled, true)) == seq_sum(rolled) - seq_min(rolled),
        kept_dice(rolled, true).len() == rolled.len() - 1,
{
    lemma_max_min_present(rolled);
    lemma_remove_first_sum(rolled, seq_min(rolled));
    lemma_remove_first_len(rolled, seq_min(rolled));
}

proof fn lemma_extremes_bound(s: Seq<u32>)
    requires
        s.len() > 0,
    ensures
        forall|i: int| 0 <= i < s.len() ==> seq_min(s) <= #[trigger] s[i] <= seq_max(s),
    decreases s.len(),
{
    if s.len() > 1 {
        let t = s.drop_last();
        lemma_extremes_bound(t);
        assert forall|i: int| 0 <= i < s.len() implies seq_min(s) <= #[trigger] s[i] <= seq_max(s) by {
            if i < s.len() - 1 {
                assert(s[i] == t[i]);
            }
        }
    }
}

/// The dice that an outcome keeps as best and worst: with a critical of 20
/// `max` is a highest die and `min` a lowest one; with a critical of 1 the
/// other way round.
pub proof fn lemma_outcome_extremes(rolled: Seq<u32>, crit: Critical)
    requires
        rolled.len() > 0,
    ensures
        rolled.contains(outcome_max(rolled, crit)),
        rolled.contains(outcome_min(rolled, crit)),
        critical_value(crit) == 20 ==> forall|i: int|
            0 <= i < rolled.len() ==> outcome_min(rolled, crit) <= #[trigger] rolled[i] <= outcome_max(
                rolled,
                crit,
            ),
        critical_value(crit) == 1 ==> forall|i: int|
            0 <= i < rolled.len() ==> outcome_max(rolled, crit) <= #[trigger] rolled[i] <= outcome_min(
                rolled,
                crit,
            ),
{
    lemma_max_min_present(rolled);
    lemma_extremes_bound(rolled);
}

} // verus!
