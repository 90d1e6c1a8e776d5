//! The terms of a score and the one step that adds a term to a score table.

use vstd::prelude::*;
use vstd::string::*;

use crate::esr_util::{
    micro_text, milli_text, nano_text, spec_micro_text, spec_milli_text, spec_nano_text,
};

verus! {

/// The largest count, in millionths, that a term can hold.
pub const MAX_COUNT: u128 = 0x1_0000_0000_0000_0000_0000_0000;

/// The largest weight, in thousandths and without its sign, that a term can
/// hold.
pub const MAX_WEIGHT: i64 = 16_777_216;

/// The largest score, in billionths and without its sign, to which a term can
/// still be added.
pub const MAX_SCORE: i128 = 0x2000_0000_0000_0000_0000_0000_0000_0000;

/// One line of a score table.
pub struct ScoreTermView {
    /// What was counted.
    pub label: Seq<char>,
    /// The count, in millionths.
    pub count: nat,
    /// The weight of one, in thousandths.
    pub weight: int,
    /// What the term adds to the score, in billionths.
    pub contribution: int,
}

/// One line of a score table: what was counted, the count in millionths, the
/// weight in thousandths, and their product in billionths.
#[derive(Debug)]
pub struct ScoreTerm {
    label: String,
    count: u128,
    weight: i64,
    contribution: i128,
}

impl View for ScoreTerm {
    type V = ScoreTermView;

    closed spec fn view(&self) -> ScoreTermView {
        ScoreTermView {
            label: self.label@,
            count: self.count as nat,
            weight: self.weight as int,
            contribution: self.contribution as int,
        }
    }
}

/// The three columns in which a line is shown: what was counted, the count
/// times the weight, and what the line adds to the score, each number with
/// three decimals.
pub open spec fn spec_columns(term: ScoreTermView) -> (Seq<char>, Seq<char>, Seq<char>) {
    (
        term.label,
        spec_micro_text(term.count as int) + " * "@ + spec_milli_text(term.weight),
        spec_nano_text(term.contribution),
    )
}

impl ScoreTerm {
    #[verifier::type_invariant]
    spec fn is_product(self) -> bool {
        self.count <= MAX_COUNT && self.contribution == self.count * self.weight
    }

    /// The three columns in which the line is shown.
    pub fn columns(&self) -> (r: (String, String, String))
        ensures
            r.0@ == spec_columns(self@).0,
            r.1@ == spec_columns(self@).1,
            r.2@ == spec_columns(self@).2,
    {
        proof {
            use_type_invariant(self);
        }
        let product = micro_text(self.count as i128).concat(" * ").concat(
            milli_text(self.weight as i128).as_str(),
        );
        (self.label.clone(), product, nano_text(self.contribution))
    }

    pub fn get_label(&self) -> (r: &str)
        ensures
            r@ == self@.label,
    {
        self.label.as_str()
    }

    pub fn get_count(&self) -> (r: u128)
        ensures
            r == self@.count,
    {
        self.count
    }

    pub fn get_weight(&self) -> (r: i64)
        ensures
            r == self@.weight,
    {
        self.weight
    }

    /// What the line adds to the score: the count times the weight.
    pub fn get_contribution(&self) -> (r: i128)
        ensures
            r == self@.contribution,
            r == self@.count * self@.weight,
    {
        proof {
            use_type_invariant(self);
        }
        self.contribution
    }
}

/// The term for a count under a weight.
pub open spec fn spec_term(label: Seq<char>, count: nat, weight: int) -> ScoreTermView {
    ScoreTermView { label, count, weight, contribution: count * weight }
}

/// The lines behind a table, one for one.
pub open spec fn table_view(table: Seq<ScoreTerm>) -> Seq<ScoreTermView> {
    Seq::new(table.len(), |i: int| table[i]@)
}

/// What the lines with a weight above zero add up to.
pub open spec fn spec_gain(table: Seq<ScoreTermView>) -> int
    decreases table.len(),
{
    if table.len() == 0 {
        0
    } else if table.last().weight > 0 {
        spec_gain(table.drop_last()) + table.last().contribution
    } else {
        spec_gain(table.drop_last())
    }
}

/// What the lines with a weight below zero add up to.
pub open spec fn spec_loss(table: Seq<ScoreTermView>) -> int
    decreases table.len(),
{
    if table.len() == 0 {
        0
    } else if table.last().weight < 0 {
        spec_loss(table.drop_last()) + table.last().contribution
    } else {
        spec_loss(table.drop_last())
    }
}

/// What one more line does to the two sums of a table.
pub proof fn lemma_sums_push(table: Seq<ScoreTermView>, term: ScoreTermView)
    ensures
        spec_gain(table.push(term)) == spec_gain(table) + if term.weight > 0 {
            term.contribution
        } else {
            0
        },
        spec_loss(table.push(term)) == spec_loss(table) + if term.weight < 0 {
            term.contribution
        } else {
            0
        },
{
    assert(table.push(term).drop_last() =~= table);
}

/// Appends the term for `count` under `weight` to the table, and adds what it
/// contributes to the score.
pub fn score_add(
    table: &mut Vec<ScoreTerm>,
    score: &mut i128,
    label: &str,
    count: u128,
    weight: i64,
)
    requires
        count <= MAX_COUNT,
        -MAX_WEIGHT <= weight <= MAX_WEIGHT,
        -MAX_SCORE <= *old(score) <= MAX_SCORE,
    ensures
        table_view(final(table)@) == table_view(old(table)@).push(
            spec_term(label@, count as nat, weight as int),
        ),
        *final(score) == *old(score) + count * weight,
        spec_gain(table_view(final(table)@)) == spec_gain(table_view(old(table)@)) + if weight > 0 {
            count * weight
        } else {
            0
        },
        spec_loss(table_view(final(table)@)) == spec_loss(table_view(old(table)@)) + if weight < 0 {
            count * weight
        } else {
            0
        },
{
    assert(-0x1_0000_0000_0000_0000_0000_0000 * 16_777_216 <= count * weight
        <= 0x1_0000_0000_0000_0000_0000_0000 * 16_777_216) by (nonlinear_arith)
        requires
            0 <= count <= 0x1_0000_0000_0000_0000_0000_0000,
            -16_777_216 <= weight <= 16_777_216,
    ;
    let incr: i128 = count as i128 * weight as i128;
    let ghost before = table_view(table@);
    table.push(ScoreTerm { label: String::from_str(label), count, weight, contribution: incr });
    assert(table_view(table@) =~= before.push(spec_term(label@, count as nat, weight as int)));
    proof {
        lemma_sums_push(before, spec_term(label@, count as nat, weight as int));
    }
    *score = *score + incr;
}

} // verus!
