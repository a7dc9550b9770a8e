use crate::text::{sat_add, Suggestion};
use vstd::prelude::*;
use vstd::string::*;

verus! {

/// Some suggestion of `vals` has a description.
pub open spec fn has_description(vals: Seq<Suggestion>) -> bool {
    exists|k: int| 0 <= k < vals.len() && (#[trigger] vals[k]).description is Some
}

/// Width a value needs in a column: its length and the padding.
pub open spec fn padded_len(s: Suggestion, pad: nat) -> nat {
    sat_add(s.value@.len(), pad)
}

/// Length of the longest value; 0 for an empty list.
pub open spec fn longest_value(vals: Seq<Suggestion>) -> nat
    decreases vals.len(),
{
    if vals.len() == 0 {
        0
    } else {
        let rest = longest_value(vals.drop_last());
        let l = vals.last().value@.len();
        if rest >= l { rest } else { l }
    }
}

/// Largest padded length of a value; 0 for an empty list.
pub open spec fn widest_cell(vals: Seq<Suggestion>, pad: nat) -> nat
    decreases vals.len(),
{
    if vals.len() == 0 {
        0
    } else {
        let rest = widest_cell(vals.drop_last(), pad);
        let l = padded_len(vals.last(), pad);
        if rest >= l { rest } else { l }
    }
}

/// The widest cell is as wide as some value needs, and no value needs more.
pub proof fn lemma_widest_cell(vals: Seq<Suggestion>, pad: nat)
    ensures
        forall|k: int| 0 <= k < vals.len() ==> padded_len(#[trigger] vals[k], pad) <= widest_cell(vals, pad),
        vals.len() > 0 ==> exists|k: int|
            0 <= k < vals.len() && widest_cell(vals, pad) == padded_len(#[trigger] vals[k], pad),
    decreases vals.len(),
{
    if vals.len() > 0 {
        let init = vals.drop_last();
        lemma_widest_cell(init, pad);
        assert forall|k: int| 0 <= k < vals.len() implies padded_len(#[trigger] vals[k], pad)
            <= widest_cell(vals, pad) by {
            if k < vals.len() - 1 {
                assert(vals[k] == init[k]);
            }
        }
        if widest_cell(init, pad) >= padded_len(vals.last(), pad) && init.len() > 0 {
            let k = choose|k: int| 0 <= k < init.len() && widest_cell(init, pad) == padded_len(#[trigger] init[k], pad);
            assert(vals[k] == init[k]);
        } else {
            assert(vals[vals.len() - 1] == vals.last());
        }
    }
}

/// Whether some suggestion has a description.
pub fn any_description(values: &Vec<Suggestion>) -> (r: bool)
    ensures
        r == has_description(values@),
{
    let mut i: usize = 0;
    while i < values.len()
        invariant
            i <= values@.len(),
            forall|k: int| 0 <= k < i ==> (#[trigger] values@[k]).description is None,
        decreases values@.len() - i,
    {
        if values[i].description.is_some() {
            return true;
        }
        i = i + 1;
    }
    false
}

/// Length of the longest value.
pub fn longest_value_len(values: &Vec<Suggestion>) -> (r: usize)
    ensures
        r == longest_value(values@),
{
    let mut best: usize = 0;
    let mut i: usize = 0;
    while i < values.len()
        invariant
            i <= values@.len(),
            best == longest_value(values@.subrange(0, i as int)),
        decreases values@.len() - i,
    {
        let l = values[i].value.as_str().unicode_len();
        assert(values@.subrange(0, i + 1).drop_last() == values@.subrange(0, i as int));
        if l > best {
            best = l;
        }
        i = i + 1;
    }
    assert(values@.subrange(0, values@.len() as int) == values@);
    best
}

/// Largest padded length of a value.
pub fn widest_cell_len(values: &Vec<Suggestion>, pad: usize) -> (r: usize)
    ensures
        r == widest_cell(values@, pad as nat),
{
    let mut best: usize = 0;
    let mut i: usize = 0;
    while i < values.len()
        invariant
            i <= values@.len(),
            best == widest_cell(values@.subrange(0, i as int), pad as nat),
        decreases values@.len() - i,
    {
        let l = values[i].value.as_str().unicode_len().saturating_add(pad);
        assert(values@.subrange(0, i + 1).drop_last() == values@.subrange(0, i as int));
        if l > best {
            best = l;
        }
        i = i + 1;
    }
    assert(values@.subrange(0, values@.len() as int) == values@);
    best
}

} // verus!
