//! The bookkeeping of a map over a vector whose items are worked on in any
//! order: each input goes out with its position, and each output goes into
//! the slot of that position.

use vstd::prelude::*;

verus! {

/// The items of `s`, each with its position.
pub open spec fn numbered<T>(s: Seq<T>) -> Seq<(usize, T)> {
    Seq::new(s.len(), |i: int| (i as usize, s[i]))
}

/// The slots after the outputs `outputs[..n]` have been put into them, each
/// at its position: a later output for a position replaces an earlier one.
pub open spec fn arranged<U>(slots: Seq<U>, outputs: Seq<(usize, U)>, n: nat) -> Seq<U>
    decreases n,
{
    if n == 0 || n > outputs.len() {
        slots
    } else {
        arranged(slots, outputs, (n - 1) as nat).update(
            outputs[n - 1].0 as int,
            outputs[n - 1].1,
        )
    }
}

/// Every output has a slot.
pub open spec fn in_range<U>(outputs: Seq<(usize, U)>, slots: nat) -> bool {
    forall|k: int| 0 <= k < outputs.len() ==> (#[trigger] outputs[k]).0 < slots
}

/// One of the outputs `outputs[..n]` is for position `i`.
pub open spec fn has_output<U>(outputs: Seq<(usize, U)>, n: nat, i: int) -> bool {
    exists|k: int| 0 <= k < n && k < outputs.len() && (#[trigger] outputs[k]).0 == i
}

/// Each output holds the result for its position.
pub open spec fn holds_results<U>(outputs: Seq<(usize, U)>, results: Seq<U>) -> bool {
    forall|k: int|
        0 <= k < outputs.len() ==> (#[trigger] outputs[k]).0 < results.len() && outputs[k].1
            == results[outputs[k].0 as int]
}

proof fn arranged_so_far<U>(slots: Seq<U>, outputs: Seq<(usize, U)>, results: Seq<U>, n: nat)
    requires
        n <= outputs.len(),
        slots.len() == results.len(),
        holds_results(outputs, results),
    ensures
        arranged(slots, outputs, n).len() == slots.len(),
        forall|i: int|
            0 <= i < slots.len() ==> #[trigger] arranged(slots, outputs, n)[i] == (if has_output(
                outputs,
                n,
                i,
            ) {
                results[i]
            } else {
                slots[i]
            }),
    decreases n,
{
    if n > 0 {
        let before = arranged(slots, outputs, (n - 1) as nat);
        let last = outputs[n - 1];
        arranged_so_far(slots, outputs, results, (n - 1) as nat);
        assert forall|i: int| 0 <= i < slots.len() implies #[trigger] arranged(slots, outputs, n)[i]
            == (if has_output(outputs, n, i) {
            results[i]
        } else {
            slots[i]
        }) by {
            if i == last.0 {
                assert(has_output(outputs, n, i));
            } else {
                if has_output(outputs, n, i) {
                    let k = choose|k: int|
                        0 <= k < n && k < outputs.len() && (#[trigger] outputs[k]).0 == i;
                    assert(k < n - 1);
                    assert(has_output(outputs, (n - 1) as nat, i));
                }
                if has_output(outputs, (n - 1) as nat, i) {
                    let k = choose|k: int|
                        0 <= k < n - 1 && k < outputs.len() && (#[trigger] outputs[k]).0 == i;
                    assert(has_output(outputs, n, i));
                }
            }
        }
    }
}

/// Where each output holds the result for its position and every position
/// has an output, the outputs put into their slots are the results in
/// order, in whatever order the outputs came.
pub proof fn arranged_outputs_are_results<U>(
    slots: Seq<U>,
    outputs: Seq<(usize, U)>,
    results: Seq<U>,
)
    requires
        slots.len() == results.len(),
        holds_results(outputs, results),
        forall|i: int| 0 <= i < results.len() ==> has_output(outputs, outputs.len(), i),
    ensures
        arranged(slots, outputs, outputs.len()) == results,
{
    arranged_so_far(slots, outputs, results, outputs.len());
    assert(arranged(slots, outputs, outputs.len()) =~= results);
}

/// Pairs each input with its position.
pub fn indexed<T>(input_vec: Vec<T>) -> (tagged: Vec<(usize, T)>)
    ensures
        tagged@ == numbered(input_vec@),
{
    let ghost inputs = input_vec@;
    let mut tagged: Vec<(usize, T)> = Vec::new();
    let mut index: usize = 0;
    let count = input_vec.len();
    for input in iter: input_vec.into_iter()
        invariant
            iter.seq() == inputs,
            inputs.len() == count,
            index == iter.index(),
            tagged@.len() == index,
            forall|k: int| 0 <= k < index ==> tagged@[k] == (k as usize, inputs[k]),
    {
        tagged.push((index, input));
        index += 1;
    }
    assert(tagged@ =~= numbered(inputs));
    tagged
}

/// Puts each output into the slot of its position.
pub fn arrange<U>(output_vec: Vec<U>, outputs: Vec<(usize, U)>) -> (arranged_vec: Vec<U>)
    requires
        in_range(outputs@, output_vec@.len()),
    ensures
        arranged_vec@ == arranged(output_vec@, outputs@, outputs@.len()),
{
    let mut output_vec = output_vec;
    let ghost slots = output_vec@;
    let ghost all = outputs@;
    for output in iter: outputs.into_iter()
        invariant
            iter.seq() == all,
            in_range(all, slots.len()),
            output_vec@.len() == slots.len(),
            output_vec@ == arranged(slots, all, iter.index() as nat),
    {
        let (index, value) = output;
        output_vec.set(index, value);
    }
    output_vec
}

} // verus!
