//! How the stages that process a tile are put together.
//!
//! Processing is a row of stages, each working on what the one before it
//! made: the first reads the wire format, the next turns each layer into
//! geometry. The stages themselves come from outside; here is what holds
//! them together. [`in_order`] runs one stage after the other and stops at
//! the first that can do nothing with its input. [`each_layer`] runs a
//! stage on every layer by itself, so that a layer that fails costs no
//! other layer anything.

use crate::procedure::{PipelineError, ProcessedLayer};
use vstd::prelude::*;

verus! {

/// One layer of a tile as the wire format holds it.
#[derive(Debug, PartialEq, Eq)]
pub struct RawLayer {
    pub name: String,
    pub data: Vec<u8>,
}

/// Runs `first` on `input` and `second` on what `first` made of it.
///
/// If `first` fails, `second` is left out and the error of `first` is the
/// result. Otherwise the result is that of `second`.
pub fn in_order<A, B, C, F, G>(first: F, second: G, input: A) -> (result: Result<C, PipelineError>)
    where
        F: FnOnce(A) -> Result<B, PipelineError>,
        G: FnOnce(B) -> Result<C, PipelineError>,
    requires
        call_requires(first, (input,)),
        forall|between: B| #[trigger]
            call_ensures(first, (input,), Ok(between)) ==> call_requires(second, (between,)),
    ensures
        match result {
            Ok(output) => exists|between: B| #[trigger]
                call_ensures(first, (input,), Ok(between)) && call_ensures(
                    second,
                    (between,),
                    Ok(output),
                ),
            Err(error) => call_ensures(first, (input,), Err(error)) || exists|between: B| #[trigger]
                call_ensures(first, (input,), Ok(between)) && call_ensures(
                    second,
                    (between,),
                    Err(error),
                ),
        },
{
    match first(input) {
        Ok(between) => second(between),
        Err(error) => Err(error),
    }
}

/// Runs `stage` on each of `layers` by itself, in their order, and gives
/// what it made of each under the layer's name. A layer for which `stage`
/// gives nothing counts as failed; the other layers are not touched by it.
pub fn each_layer<F>(layers: &Vec<RawLayer>, stage: F) -> (processed: Vec<ProcessedLayer>)
    where F: Fn(&RawLayer) -> Option<Vec<u8>>
    requires
        forall|i: int| 0 <= i < layers.len() ==> call_requires(stage, (&#[trigger] layers[i],)),
    ensures
        processed.len() == layers.len(),
        forall|i: int|
            0 <= i < layers.len() ==> (#[trigger] processed[i]).name@ == layers[i].name@
                && call_ensures(stage, (&layers[i],), processed[i].geometry),
{
    let mut processed: Vec<ProcessedLayer> = Vec::new();
    let mut index: usize = 0;
    while index < layers.len()
        invariant
            index <= layers.len(),
            processed.len() == index,
            forall|i: int| 0 <= i < layers.len() ==> call_requires(stage, (&#[trigger] layers[i],)),
            forall|i: int|
                0 <= i < index ==> (#[trigger] processed[i]).name@ == layers[i].name@
                    && call_ensures(stage, (&layers[i],), processed[i].geometry),
        decreases layers.len() - index,
    {
        let geometry = stage(&layers[index]);
        processed.push(ProcessedLayer { name: layers[index].name.clone(), geometry });
        index = index + 1;
    }
    processed
}

} // verus!
