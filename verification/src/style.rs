//! The part of a style that decides which layers are requested.

use crate::layers::{distinct_names, LayerSet};
use vstd::prelude::*;

verus! {

/// One layer of a style. It may draw from a named layer of the tiles.
#[derive(Debug, PartialEq, Eq)]
pub struct StyleLayer {
    pub id: String,
    pub source_layer: Option<String>,
}

/// A style: its layers, in drawing order.
#[derive(Debug, PartialEq, Eq)]
pub struct Style {
    pub layers: Vec<StyleLayer>,
}

/// The source layer that `layer` names, if it names one.
pub open spec fn source_layer_of(layer: StyleLayer) -> Option<Seq<char>> {
    match layer.source_layer {
        Some(name) => Some(name@),
        None => None,
    }
}

impl Style {
    /// A style with these layers.
    pub fn new(layers: Vec<StyleLayer>) -> (style: Self)
        ensures
            style.layers == layers,
    {
        Style { layers }
    }

    /// The source layers that the style's layers name, each once, in the
    /// order in which the style first names them.
    pub open spec fn source_layer_names(&self) -> Seq<Seq<char>> {
        distinct_names(self.layers@.filter_map(|layer: StyleLayer| source_layer_of(layer)))
    }

    /// The set of source layers that the style draws from.
    pub fn source_layers(&self) -> (set: LayerSet)
        ensures
            set@ == self.source_layer_names(),
    {
        let ghost pick = |layer: StyleLayer| source_layer_of(layer);
        let mut set = LayerSet::new();
        let mut index: usize = 0;
        while index < self.layers.len()
            invariant
                index <= self.layers.len(),
                pick == |layer: StyleLayer| source_layer_of(layer),
                set@ == distinct_names(self.layers@.take(index as int).filter_map(pick)),
            decreases self.layers.len() - index,
        {
            proof {
                self.layers@.lemma_filter_map_take_succ(pick, index as int);
            }
            match &self.layers[index].source_layer {
                Some(name) => {
                    let ghost named = self.layers@.take(index as int).filter_map(pick);
                    assert((named + seq![name@]).drop_last() =~= named);
                    set.insert(name.clone());
                },
                None => {
                    assert(self.layers@.take(index as int).filter_map(pick) + Seq::<
                        Seq<char>,
                    >::empty() =~= self.layers@.take(index as int).filter_map(pick));
                },
            }
            index = index + 1;
        }
        assert(self.layers@.take(index as int) =~= self.layers@);
        set
    }
}

} // verus!
