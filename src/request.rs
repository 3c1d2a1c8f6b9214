use vstd::prelude::*;
use crate::color::{ColorError, ColorModel, ColorSpec};
use crate::grammar::parse_spec;
use crate::parse::parse_color;
use crate::quantize::{plan_step, quantize_plan, Step};

verus! {

/// What a list of colour texts means, read in order: the first malformed text
/// gives the error.
pub open spec fn parse_list_spec(texts: Seq<Seq<char>>) -> Result<Seq<ColorModel>, ColorError>
    decreases texts.len(),
{
    if texts.len() == 0 {
        Ok(Seq::empty())
    } else {
        match parse_list_spec(texts.drop_last()) {
            Err(e) => Err(e),
            Ok(front) => match parse_spec(texts.last()) {
                Err(e) => Err(e),
                Ok(c) => Ok(front.push(c)),
            },
        }
    }
}

pub open spec fn texts_of(inputs: Seq<String>) -> Seq<Seq<char>> {
    inputs.map_values(|s: String| s@)
}

pub open spec fn models_of(colors: Seq<ColorSpec>) -> Seq<ColorModel> {
    colors.map_values(|c: ColorSpec| c@)
}

pub open spec fn list_view(r: Result<Vec<ColorSpec>, ColorError>) -> Result<
    Seq<ColorModel>,
    ColorError,
> {
    match r {
        Ok(v) => Ok(models_of(v@)),
        Err(e) => Err(e),
    }
}

/// Parses a list of colours in order. The first malformed one rejects the list.
pub fn parse_colors(inputs: &Vec<String>) -> (r: Result<Vec<ColorSpec>, ColorError>)
    ensures
        list_view(r) == parse_list_spec(texts_of(inputs@)),
{
    let mut v: Vec<ColorSpec> = Vec::new();
    let mut i: usize = 0;
    assert(texts_of(inputs@).take(0) =~= Seq::<Seq<char>>::empty());
    assert(models_of(v@) =~= Seq::<ColorModel>::empty());
    while i < inputs.len()
        invariant
            i <= inputs@.len(),
            parse_list_spec(texts_of(inputs@).take(i as int)) == Ok::<_, ColorError>(models_of(v@)),
        decreases inputs@.len() - i,
    {
        let ghost texts = texts_of(inputs@);
        assert(texts.take(i + 1).drop_last() =~= texts.take(i as int));
        assert(texts.take(i + 1).last() == inputs@[i as int]@);
        match parse_color(inputs[i].as_str()) {
            Ok(c) => {
                let ghost before = v@;
                v.push(c);
                assert(models_of(v@) =~= models_of(before).push(c@));
            },
            Err(e) => {
                proof {
                    lemma_error_persists(texts, i as int + 1);
                }
                return Err(e);
            },
        }
        i += 1;
    }
    assert(texts_of(inputs@).take(i as int) =~= texts_of(inputs@));
    Ok(v)
}

/// Once a prefix of the list fails, the whole list fails with the same error.
proof fn lemma_error_persists(texts: Seq<Seq<char>>, n: int)
    requires
        0 <= n <= texts.len(),
        parse_list_spec(texts.take(n)) is Err,
    ensures
        parse_list_spec(texts) == parse_list_spec(texts.take(n)),
    decreases texts.len() - n,
{
    if n < texts.len() {
        assert(texts.take(n + 1).drop_last() =~= texts.take(n));
        lemma_error_persists(texts, n + 1);
    } else {
        assert(texts.take(n) =~= texts);
    }
}

/// A list that parses gives one colour per text.
proof fn lemma_parsed_length(texts: Seq<Seq<char>>)
    requires
        parse_list_spec(texts) is Ok,
    ensures
        parse_list_spec(texts)->Ok_0.len() == texts.len(),
    decreases texts.len(),
{
    if texts.len() > 0 {
        lemma_parsed_length(texts.drop_last());
    }
}

/// The colours to average: at least one, each well formed.
pub fn average_request(inputs: &Vec<String>) -> (r: Result<Vec<ColorSpec>, ColorError>)
    ensures
        list_view(r) == if inputs@.len() == 0 {
            Err(ColorError::EmptyInput)
        } else {
            parse_list_spec(texts_of(inputs@))
        },
{
    if inputs.len() == 0 {
        return Err(ColorError::EmptyInput);
    }
    parse_colors(inputs)
}

/// The colours of a quantize request and the steps to interpolate between them.
pub fn quantize_request(inputs: &Vec<String>, steps: usize) -> (r: Result<
    (Vec<ColorSpec>, Vec<Step>),
    ColorError,
>)
    requires
        inputs@.len() >= 2 && steps >= 2 ==> (inputs@.len() - 1) * steps <= usize::MAX,
    ensures
        match parse_list_spec(texts_of(inputs@)) {
            Err(e) => r == Err::<(Vec<ColorSpec>, Vec<Step>), _>(e),
            Ok(colors) => if colors.len() < 2 {
                r == Err::<(Vec<ColorSpec>, Vec<Step>), _>(ColorError::InsufficientColors)
            } else if steps < 2 {
                r == Err::<(Vec<ColorSpec>, Vec<Step>), _>(ColorError::InvalidStepCount)
            } else {
                &&& r is Ok
                &&& models_of(r->Ok_0.0@) == colors
                &&& r->Ok_0.1@.len() == (colors.len() - 1) * steps
                &&& forall|k: int|
                    0 <= k < r->Ok_0.1@.len() ==> #[trigger] r->Ok_0.1@[k] == plan_step(
                        k,
                        steps as int,
                    )
            },
        },
{
    let colors = match parse_colors(inputs) {
        Ok(c) => c,
        Err(e) => return Err(e),
    };
    proof {
        lemma_parsed_length(texts_of(inputs@));
        assert(models_of(colors@).len() == colors@.len());
    }
    match quantize_plan(colors.len(), steps) {
        Ok(plan) => Ok((colors, plan)),
        Err(e) => Err(e),
    }
}

} // verus!
