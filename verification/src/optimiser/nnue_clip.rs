//! Keeping the weights of the later layers of a network in range.

use crate::optimiser::AdditionalUpdate;
use std::ops::Neg;
use vstd::prelude::*;
use vstd::std_specs::ops::NegSpec;

verus! {

/// The sizes of the first layer's weights and of their offsets, and the ranges of the weights,
/// with numbers of the type `F`.
#[derive(Debug)]
pub struct NnuePytorchClipping<F> {
    pub l1_rows: usize,
    pub l1_cols: usize,
    pub l1_offset_rows: usize,
    pub l1_offset_cols: usize,
    pub hidden_min: F,
    pub hidden_max: F,
    pub output_min: F,
    pub output_max: F,
}

impl<F: Copy> Clone for NnuePytorchClipping<F> {
    fn clone(&self) -> (clipping: Self)
        ensures
            clipping == *self,
    {
        NnuePytorchClipping {
            l1_rows: self.l1_rows,
            l1_cols: self.l1_cols,
            l1_offset_rows: self.l1_offset_rows,
            l1_offset_cols: self.l1_offset_cols,
            hidden_min: self.hidden_min,
            hidden_max: self.hidden_max,
            output_min: self.output_min,
            output_max: self.output_max,
        }
    }
}

/// A piece of work on weights, which are given by their names.
#[derive(Debug)]
pub enum ClipWork<F> {
    /// Clip weights so that their sum with repeated offsets is in range.
    ClipWithRepeatedOffset {
        weights: &'static str,
        rows: usize,
        cols: usize,
        offset: &'static str,
        offset_rows: usize,
        offset_cols: usize,
        min: F,
        max: F,
    },
    /// Clip weights to a range.
    Clamp { weights: &'static str, min: F, max: F },
}

impl<F: Copy + Neg<Output = F>> NnuePytorchClipping<F> {
    /// Ranges that go as far below zero as above it.
    pub fn new(
        l1_rows: usize,
        l1_cols: usize,
        l1_offset_rows: usize,
        l1_offset_cols: usize,
        hidden_clip: F,
        output_clip: F,
    ) -> (clipping: Self)
        requires
            hidden_clip.neg_req(),
            output_clip.neg_req(),
        ensures
            clipping.l1_rows == l1_rows,
            clipping.l1_cols == l1_cols,
            clipping.l1_offset_rows == l1_offset_rows,
            clipping.l1_offset_cols == l1_offset_cols,
            call_ensures(F::neg, (hidden_clip,), clipping.hidden_min),
            clipping.hidden_max == hidden_clip,
            call_ensures(F::neg, (output_clip,), clipping.output_min),
            clipping.output_max == output_clip,
    {
        NnuePytorchClipping {
            l1_rows,
            l1_cols,
            l1_offset_rows,
            l1_offset_cols,
            hidden_min: hidden_clip.neg(),
            hidden_max: hidden_clip,
            output_min: output_clip.neg(),
            output_max: output_clip,
        }
    }
}

impl<F: Copy> AdditionalUpdate for NnuePytorchClipping<F> {
    type Work = ClipWork<F>;

    open spec fn work(&self) -> Seq<ClipWork<F>> {
        seq![
            ClipWork::ClipWithRepeatedOffset {
                weights: "l1w",
                rows: self.l1_rows,
                cols: self.l1_cols,
                offset: "l1fw",
                offset_rows: self.l1_offset_rows,
                offset_cols: self.l1_offset_cols,
                min: self.hidden_min,
                max: self.hidden_max,
            },
            ClipWork::Clamp { weights: "l2w", min: self.hidden_min, max: self.hidden_max },
            ClipWork::Clamp { weights: "l3w", min: self.output_min, max: self.output_max },
        ]
    }

    fn apply_update(&mut self) -> (work: Vec<ClipWork<F>>)
        ensures
            *final(self) == *old(self),
    {
        let work: Vec<ClipWork<F>> = vec![
            ClipWork::ClipWithRepeatedOffset {
                weights: "l1w",
                rows: self.l1_rows,
                cols: self.l1_cols,
                offset: "l1fw",
                offset_rows: self.l1_offset_rows,
                offset_cols: self.l1_offset_cols,
                min: self.hidden_min,
                max: self.hidden_max,
            },
            ClipWork::Clamp { weights: "l2w", min: self.hidden_min, max: self.hidden_max },
            ClipWork::Clamp { weights: "l3w", min: self.output_min, max: self.output_max },
        ];
        assert(work@ =~= self.work());
        work
    }
}

} // verus!
