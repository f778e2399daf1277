//! What clipping makes of the weights of a network, and that clamping again changes nothing.

use crate::optimiser::nnue_clip::{ClipWork, NnuePytorchClipping};
use crate::optimiser::AdditionalUpdate;
use vstd::prelude::*;

verus! {

/// What a device does with weights, which are values of any kind `W`: `clip` is what becomes of
/// weights whose sum with offsets is to be in range, given the weights, the offsets, the rows and
/// columns of both, and the range; `clamp` is what becomes of weights that are to be in range.
#[verifier::reject_recursive_types(F)]
#[verifier::reject_recursive_types(W)]
pub struct Clipper<F, W> {
    pub clip: spec_fn(W, W, (usize, usize), (usize, usize), F, F) -> W,
    pub clamp: spec_fn(W, F, F) -> W,
}

impl<F, W> Clipper<F, W> {
    /// The weights by their names, after a piece of work.
    pub open spec fn performed(
        self,
        work: ClipWork<F>,
        named: spec_fn(Seq<char>) -> W,
    ) -> spec_fn(Seq<char>) -> W {
        match work {
            ClipWork::ClipWithRepeatedOffset {
                weights,
                rows,
                cols,
                offset,
                offset_rows,
                offset_cols,
                min,
                max,
            } => |id: Seq<char>|
                if id == weights@ {
                    (self.clip)(
                        named(id),
                        named(offset@),
                        (rows, cols),
                        (offset_rows, offset_cols),
                        min,
                        max,
                    )
                } else {
                    named(id)
                },
            ClipWork::Clamp { weights, min, max } => |id: Seq<char>|
                if id == weights@ {
                    (self.clamp)(named(id), min, max)
                } else {
                    named(id)
                },
        }
    }

    /// The weights by their names, after work in order.
    pub open spec fn performed_all(
        self,
        work: Seq<ClipWork<F>>,
        named: spec_fn(Seq<char>) -> W,
    ) -> spec_fn(Seq<char>) -> W
        decreases work.len(),
    {
        if work.len() == 0 {
            named
        } else {
            self.performed_all(work.drop_first(), self.performed(work[0], named))
        }
    }
}

/// Clipping clips the first layer by its offsets and the hidden range, clamps the second to the
/// hidden range and the third to the output range, and leaves all other weights alone.
pub proof fn law_clip_work<F: Copy, W>(
    clipping: NnuePytorchClipping<F>,
    device: Clipper<F, W>,
    named: spec_fn(Seq<char>) -> W,
    id: Seq<char>,
)
    ensures
        device.performed_all(clipping.work(), named)(id) == if id == "l1w"@ {
            (device.clip)(
                named("l1w"@),
                named("l1fw"@),
                (clipping.l1_rows, clipping.l1_cols),
                (clipping.l1_offset_rows, clipping.l1_offset_cols),
                clipping.hidden_min,
                clipping.hidden_max,
            )
        } else if id == "l2w"@ {
            (device.clamp)(named(id), clipping.hidden_min, clipping.hidden_max)
        } else if id == "l3w"@ {
            (device.clamp)(named(id), clipping.output_min, clipping.output_max)
        } else {
            named(id)
        },
{
    reveal_with_fuel(Clipper::performed_all, 4);
    reveal_strlit("l1w");
    reveal_strlit("l2w");
    reveal_strlit("l3w");
    let work = clipping.work();
    assert("l1w"@[1] == '1' && "l2w"@[1] == '2' && "l3w"@[1] == '3');
    assert(work.drop_first() =~= seq![work[1], work[2]]);
    assert(work.drop_first().drop_first() =~= seq![work[2]]);
    assert(work.drop_first().drop_first().drop_first() =~= seq![]);
}

/// The work is three pieces, in order: the first layer with its offsets, the second layer, and the
/// third.
pub proof fn law_clip_order<F: Copy>(clipping: NnuePytorchClipping<F>)
    ensures
        clipping.work().len() == 3,
        clipping.work()[0] == (ClipWork::ClipWithRepeatedOffset {
            weights: "l1w",
            rows: clipping.l1_rows,
            cols: clipping.l1_cols,
            offset: "l1fw",
            offset_rows: clipping.l1_offset_rows,
            offset_cols: clipping.l1_offset_cols,
            min: clipping.hidden_min,
            max: clipping.hidden_max,
        }),
        clipping.work()[1] == (ClipWork::Clamp {
            weights: "l2w",
            min: clipping.hidden_min,
            max: clipping.hidden_max,
        }),
        clipping.work()[2] == (ClipWork::Clamp {
            weights: "l3w",
            min: clipping.output_min,
            max: clipping.output_max,
        }),
{
}

/// On a device where a second clamp to the same range changes nothing, clipping twice leaves the
/// second and the third layer as clipping once leaves them.
pub proof fn law_clamping_again_changes_nothing<F: Copy, W>(
    clipping: NnuePytorchClipping<F>,
    device: Clipper<F, W>,
    named: spec_fn(Seq<char>) -> W,
)
    requires
        forall|w: W|
            #![trigger (device.clamp)(w, clipping.hidden_min, clipping.hidden_max)]
            (device.clamp)(
                (device.clamp)(w, clipping.hidden_min, clipping.hidden_max),
                clipping.hidden_min,
                clipping.hidden_max,
            ) == (device.clamp)(w, clipping.hidden_min, clipping.hidden_max),
        forall|w: W|
            #![trigger (device.clamp)(w, clipping.output_min, clipping.output_max)]
            (device.clamp)(
                (device.clamp)(w, clipping.output_min, clipping.output_max),
                clipping.output_min,
                clipping.output_max,
            ) == (device.clamp)(w, clipping.output_min, clipping.output_max),
    ensures
        ({
            let once = device.performed_all(clipping.work(), named);
            let twice = device.performed_all(clipping.work(), once);
            twice("l2w"@) == once("l2w"@) && twice("l3w"@) == once("l3w"@)
        }),
{
    reveal_strlit("l1w");
    reveal_strlit("l2w");
    reveal_strlit("l3w");
    assert("l1w"@[1] == '1' && "l2w"@[1] == '2' && "l3w"@[1] == '3');
    let once = device.performed_all(clipping.work(), named);
    law_clip_work(clipping, device, named, "l2w"@);
    law_clip_work(clipping, device, named, "l3w"@);
    law_clip_work(clipping, device, once, "l2w"@);
    law_clip_work(clipping, device, once, "l3w"@);
}

/// A number that is clamped to a range: the lower end where the number is below it, the upper end
/// where the number is above it, else the number.
pub open spec fn clamped<F>(less: spec_fn(F, F) -> bool, value: F, min: F, max: F) -> F {
    if less(value, min) {
        min
    } else if less(max, value) {
        max
    } else {
        value
    }
}

/// Whether a range is one: its ends are not below themselves, and the upper end is not below the
/// lower.
pub open spec fn is_range<F>(less: spec_fn(F, F) -> bool, min: F, max: F) -> bool {
    !less(min, min) && !less(max, max) && !less(max, min)
}

/// Where weights are lists of numbers and a clamp clamps each of them, clipping twice leaves the
/// second and the third layer as clipping once leaves them, whatever the numbers are, also those
/// that are neither below nor above any other.
pub proof fn law_clamping_numbers_again_changes_nothing<F: Copy>(
    clipping: NnuePytorchClipping<F>,
    less: spec_fn(F, F) -> bool,
    device: Clipper<F, Seq<F>>,
    named: spec_fn(Seq<char>) -> Seq<F>,
)
    requires
        is_range(less, clipping.hidden_min, clipping.hidden_max),
        is_range(less, clipping.output_min, clipping.output_max),
        forall|w: Seq<F>, min: F, max: F| #[trigger]
            (device.clamp)(w, min, max) == w.map_values(|v: F| clamped(less, v, min, max)),
    ensures
        ({
            let once = device.performed_all(clipping.work(), named);
            let twice = device.performed_all(clipping.work(), once);
            twice("l2w"@) == once("l2w"@) && twice("l3w"@) == once("l3w"@)
        }),
{
    assert forall|w: Seq<F>|
        #![trigger (device.clamp)(w, clipping.hidden_min, clipping.hidden_max)]
        (device.clamp)(
            (device.clamp)(w, clipping.hidden_min, clipping.hidden_max),
            clipping.hidden_min,
            clipping.hidden_max,
        ) == (device.clamp)(w, clipping.hidden_min, clipping.hidden_max) by {
        lemma_clamped_again(less, device, w, clipping.hidden_min, clipping.hidden_max);
    }
    assert forall|w: Seq<F>|
        #![trigger (device.clamp)(w, clipping.output_min, clipping.output_max)]
        (device.clamp)(
            (device.clamp)(w, clipping.output_min, clipping.output_max),
            clipping.output_min,
            clipping.output_max,
        ) == (device.clamp)(w, clipping.output_min, clipping.output_max) by {
        lemma_clamped_again(less, device, w, clipping.output_min, clipping.output_max);
    }
    law_clamping_again_changes_nothing(clipping, device, named);
}

proof fn lemma_clamped_again<F>(
    less: spec_fn(F, F) -> bool,
    device: Clipper<F, Seq<F>>,
    w: Seq<F>,
    min: F,
    max: F,
)
    requires
        is_range(less, min, max),
        forall|w: Seq<F>, min: F, max: F| #[trigger]
            (device.clamp)(w, min, max) == w.map_values(|v: F| clamped(less, v, min, max)),
    ensures
        (device.clamp)((device.clamp)(w, min, max), min, max) == (device.clamp)(w, min, max),
{
    let once = (device.clamp)(w, min, max);
    assert((device.clamp)(once, min, max) =~= once);
}

} // verus!
