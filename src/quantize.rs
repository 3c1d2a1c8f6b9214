use vstd::prelude::*;
use vstd::arithmetic::div_mod::lemma_fundamental_div_mod_converse;
use vstd::arithmetic::mul::lemma_mul_is_distributive_add_other_way;
use crate::color::ColorError;

verus! {

/// A position between two colours: `num / den` of the way from the first.
#[derive(Debug, Clone, Copy, PartialEq, Eq, Structural)]
pub struct Fraction {
    pub num: usize,
    pub den: usize,
}

/// One colour to interpolate: `fraction` of the way from colour `start` of a
/// list to colour `end`.
#[derive(Debug, Clone, Copy, PartialEq, Eq, Structural)]
pub struct Step {
    pub start: usize,
    pub end: usize,
    pub fraction: Fraction,
}

/// The position of step `i` out of `steps`, both ends included.
pub open spec fn step_fraction(i: int, steps: int) -> Fraction {
    Fraction { num: i as usize, den: (steps - 1) as usize }
}

/// Entry `k` of the plan for a list of colours: pairs in order, `steps` each.
pub open spec fn plan_step(k: int, steps: int) -> Step {
    Step {
        start: (k / steps) as usize,
        end: (k / steps + 1) as usize,
        fraction: step_fraction(k % steps, steps),
    }
}

impl Fraction {
    /// Whether this fraction is exactly one half.
    pub open spec fn is_half(self) -> bool {
        2 * self.num == self.den
    }
}

/// The positions of `steps` evenly spaced colours from a start colour to an
/// end colour, both included.
pub fn quantize_fractions(steps: usize) -> (r: Result<Vec<Fraction>, ColorError>)
    ensures
        match r {
            Ok(v) => steps >= 2 && v@.len() == steps && forall|i: int|
                0 <= i < steps ==> #[trigger] v@[i] == step_fraction(i, steps as int),
            Err(e) => steps < 2 && e == ColorError::InvalidStepCount,
        },
{
    if steps < 2 {
        return Err(ColorError::InvalidStepCount);
    }
    let mut v: Vec<Fraction> = Vec::new();
    let mut i: usize = 0;
    while i < steps
        invariant
            2 <= steps,
            i <= steps,
            v@.len() == i,
            forall|k: int| 0 <= k < i ==> #[trigger] v@[k] == step_fraction(k, steps as int),
        decreases steps - i,
    {
        v.push(Fraction { num: i, den: steps - 1 });
        i += 1;
    }
    Ok(v)
}

/// The colours to interpolate for a list of `colors` colours: `steps` for each
/// pair of neighbours, in list order, so that each inner colour ends one pair
/// and starts the next.
pub fn quantize_plan(colors: usize, steps: usize) -> (r: Result<Vec<Step>, ColorError>)
    requires
        colors >= 2 && steps >= 2 ==> (colors - 1) * steps <= usize::MAX,
    ensures
        match r {
            Ok(v) => colors >= 2 && steps >= 2 && v@.len() == (colors - 1) * steps && forall|k: int|
                0 <= k < v@.len() ==> #[trigger] v@[k] == plan_step(k, steps as int),
            Err(e) => (colors < 2 && e == ColorError::InsufficientColors) || (colors >= 2 && steps
                < 2 && e == ColorError::InvalidStepCount),
        },
{
    if colors < 2 {
        return Err(ColorError::InsufficientColors);
    }
    let fractions = match quantize_fractions(steps) {
        Ok(f) => f,
        Err(e) => return Err(e),
    };
    let pairs = colors - 1;
    let mut v: Vec<Step> = Vec::new();
    let mut p: usize = 0;
    while p < pairs
        invariant
            steps >= 2,
            pairs == colors - 1,
            pairs * steps <= usize::MAX,
            p <= pairs,
            fractions@.len() == steps,
            forall|i: int| 0 <= i < steps ==> #[trigger] fractions@[i] == step_fraction(i, steps as int),
            v@.len() == p * steps,
            forall|k: int| 0 <= k < v@.len() ==> #[trigger] v@[k] == plan_step(k, steps as int),
        decreases pairs - p,
    {
        let mut i: usize = 0;
        while i < steps
            invariant
                steps >= 2,
                p < pairs,
                pairs * steps <= usize::MAX,
                i <= steps,
                fractions@.len() == steps,
                forall|i: int| 0 <= i < steps ==> #[trigger] fractions@[i] == step_fraction(i, steps as int),
                v@.len() == p * steps + i,
                forall|k: int| 0 <= k < v@.len() ==> #[trigger] v@[k] == plan_step(k, steps as int),
            decreases steps - i,
        {
            proof {
                lemma_fundamental_div_mod_converse(
                    p * steps + i,
                    steps as int,
                    p as int,
                    i as int,
                );
                assert(p * steps + i < pairs * steps) by (nonlinear_arith)
                    requires
                        p < pairs,
                        i < steps,
                ;
            }
            v.push(Step { start: p, end: p + 1, fraction: fractions[i] });
            i += 1;
        }
        proof {
            lemma_mul_is_distributive_add_other_way(steps as int, p as int, 1);
        }
        p += 1;
    }
    Ok(v)
}

} // verus!
