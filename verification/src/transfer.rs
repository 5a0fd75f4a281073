//! What crosses the boundary between the driver and the substrate that runs
//! tile procedures: requests one way, messages the other way.
//!
//! Every type here owns its data. A value can be moved to another thread or
//! worker as it is; nothing in it refers back to the sender.

use crate::coords::TileCoordinate;
use crate::layers::LayerSet;
use vstd::prelude::*;

verus! {

/// A request for the layers of one tile.
#[derive(Debug, PartialEq, Eq)]
pub struct TileRequest {
    pub coords: TileCoordinate,
    pub layers: LayerSet,
}

/// What a [`TileRequest`] says.
pub struct TileRequestView {
    pub coords: TileCoordinate,
    pub layers: Seq<Seq<char>>,
}

impl View for TileRequest {
    type V = TileRequestView;

    open spec fn view(&self) -> TileRequestView {
        TileRequestView { coords: self.coords, layers: self.layers@ }
    }
}

impl Clone for TileRequest {
    fn clone(&self) -> (copy: Self)
        ensures
            copy@ == self@,
    {
        TileRequest { coords: self.coords, layers: self.layers.clone() }
    }
}

/// What is handed to a procedure.
#[derive(Debug, PartialEq, Eq)]
pub enum Input {
    /// Fetch and process one tile.
    TileRequest(TileRequest),
    /// An input that no procedure handles yet.
    NotYetImplemented,
}

/// What an [`Input`] says.
pub enum InputView {
    TileRequest(TileRequestView),
    NotYetImplemented,
}

impl View for Input {
    type V = InputView;

    open spec fn view(&self) -> InputView {
        match self {
            Input::TileRequest(request) => InputView::TileRequest(request@),
            Input::NotYetImplemented => InputView::NotYetImplemented,
        }
    }
}

/// One layer of one tile, decoded: the layer's name and its geometry as
/// bytes, ready for the renderer.
#[derive(Debug, PartialEq, Eq)]
pub struct DecodedLayer {
    pub coords: TileCoordinate,
    pub name: String,
    pub geometry: Vec<u8>,
}

/// What a [`DecodedLayer`] holds.
pub struct DecodedLayerView {
    pub coords: TileCoordinate,
    pub name: Seq<char>,
    pub geometry: Seq<u8>,
}

impl View for DecodedLayer {
    type V = DecodedLayerView;

    open spec fn view(&self) -> DecodedLayerView {
        DecodedLayerView { coords: self.coords, name: self.name@, geometry: self.geometry@ }
    }
}

/// The notice that one layer of one tile could not be had.
#[derive(Debug, PartialEq, Eq)]
pub struct LayerUnavailable {
    pub coords: TileCoordinate,
    pub name: String,
}

/// What a [`LayerUnavailable`] says.
pub struct LayerUnavailableView {
    pub coords: TileCoordinate,
    pub name: Seq<char>,
}

impl View for LayerUnavailable {
    type V = LayerUnavailableView;

    open spec fn view(&self) -> LayerUnavailableView {
        LayerUnavailableView { coords: self.coords, name: self.name@ }
    }
}

/// What a procedure reports back.
#[derive(Debug, PartialEq, Eq)]
pub enum Message {
    DecodedLayer(DecodedLayer),
    LayerUnavailable(LayerUnavailable),
}

/// What a [`Message`] says.
pub enum MessageView {
    DecodedLayer(DecodedLayerView),
    LayerUnavailable(LayerUnavailableView),
}

impl View for Message {
    type V = MessageView;

    open spec fn view(&self) -> MessageView {
        match self {
            Message::DecodedLayer(layer) => MessageView::DecodedLayer(layer@),
            Message::LayerUnavailable(notice) => MessageView::LayerUnavailable(notice@),
        }
    }
}

impl Message {
    /// The tile that the message is about.
    pub fn coords(&self) -> (coords: TileCoordinate)
        ensures
            coords == self@.coords(),
    {
        match self {
            Message::DecodedLayer(layer) => layer.coords,
            Message::LayerUnavailable(notice) => notice.coords,
        }
    }
}

impl MessageView {
    /// The tile that the message is about.
    pub open spec fn coords(self) -> TileCoordinate {
        match self {
            MessageView::DecodedLayer(layer) => layer.coords,
            MessageView::LayerUnavailable(notice) => notice.coords,
        }
    }

    /// The layer that the message is about.
    pub open spec fn name(self) -> Seq<char> {
        match self {
            MessageView::DecodedLayer(layer) => layer.name,
            MessageView::LayerUnavailable(notice) => notice.name,
        }
    }
}

} // verus!
