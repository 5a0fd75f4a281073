//! The tile state store: for each tile, whether its fetch is under way, its
//! layers are here, or it could not be had.
//!
//! The store is the one place that says whether a tile must be requested.
//! A tile without an entry is unknown. The driver makes an entry when it
//! requests the tile; after that only messages from the procedure that
//! fetches the tile change the entry:
//!
//! ```text
//! unknown ──mark_pending──▶ Pending ──mark_ready──────▶ Ready
//!                           ▲     └───mark_unavailable─▶ Unavailable
//!                           └──────────mark_pending──────────┘
//! ```
//!
//! A message that finds its tile in no state to take it is dropped and
//! changes nothing. A tile that was unavailable is requested again when it
//! is next looked at; since the view is looked at only when it moved, a
//! source that keeps failing is not asked frame after frame.
//!
//! The store is plain data with one owner; where several threads reach it,
//! the owner puts it behind a lock.

use crate::coords::{lemma_quad_key_fits, lemma_quad_key_identifies_tile, TileCoordinate};
use crate::transfer::{DecodedLayer, DecodedLayerView, Message, MessageView};
use std::collections::HashMap;
use vstd::prelude::*;

verus! {

/// The state of a tile that has an entry.
#[derive(Clone, Copy, Debug, PartialEq, Eq, Structural)]
pub enum TileState {
    /// Requested; the fetch is under way.
    Pending,
    /// Decoded layers are here.
    Ready,
    /// The fetch or the decoding failed.
    Unavailable,
}

/// The entry of one tile.
#[derive(Debug, PartialEq, Eq)]
pub enum TileEntry {
    Pending,
    /// The decoded layers, in the order of arrival.
    Ready(Vec<DecodedLayer>),
    /// The names of the layers reported unavailable, in the order of
    /// arrival.
    Unavailable(Vec<String>),
}

/// What a [`TileEntry`] holds.
pub enum TileEntryView {
    Pending,
    Ready(Seq<DecodedLayerView>),
    Unavailable(Seq<Seq<char>>),
}

/// What each of `layers` holds.
pub open spec fn layer_views(layers: Seq<DecodedLayer>) -> Seq<DecodedLayerView> {
    layers.map_values(|layer: DecodedLayer| layer@)
}

/// The characters of each of `names`.
pub open spec fn name_views(names: Seq<String>) -> Seq<Seq<char>> {
    names.map_values(|name: String| name@)
}

impl View for TileEntry {
    type V = TileEntryView;

    open spec fn view(&self) -> TileEntryView {
        match self {
            TileEntry::Pending => TileEntryView::Pending,
            TileEntry::Ready(layers) => TileEntryView::Ready(layer_views(layers@)),
            TileEntry::Unavailable(names) => TileEntryView::Unavailable(name_views(names@)),
        }
    }
}

impl TileEntryView {
    pub open spec fn state(self) -> TileState {
        match self {
            TileEntryView::Pending => TileState::Pending,
            TileEntryView::Ready(_) => TileState::Ready,
            TileEntryView::Unavailable(_) => TileState::Unavailable,
        }
    }
}

/// The store as a mathematical map from tiles to entries.
pub type StoreModel = Map<TileCoordinate, TileEntryView>;

/// Whether one of `layers` has the name `name`.
pub open spec fn holds_layer(layers: Seq<DecodedLayerView>, name: Seq<char>) -> bool {
    exists|i: int| 0 <= i < layers.len() && (#[trigger] layers[i]).name == name
}

/// The state of `c` in `m`, `None` for a tile without an entry.
pub open spec fn state_in(m: StoreModel, c: TileCoordinate) -> Option<TileState> {
    if m.contains_key(c) {
        Some(m[c].state())
    } else {
        None
    }
}

/// Whether `c` must be requested: it has an address, and it is unknown or
/// was unavailable.
pub open spec fn needs_fetch_in(m: StoreModel, c: TileCoordinate) -> bool {
    c.has_address() && state_in(m, c) != Some(TileState::Pending) && state_in(m, c) != Some(
        TileState::Ready,
    )
}

/// The store after `c` was marked pending.
pub open spec fn marked_pending(m: StoreModel, c: TileCoordinate) -> StoreModel {
    if needs_fetch_in(m, c) {
        m.insert(c, TileEntryView::Pending)
    } else {
        m
    }
}

/// Whether a decoded layer for `c` is taken: `c` is pending, or ready
/// without a layer of that name.
pub open spec fn takes_layer(m: StoreModel, c: TileCoordinate, layer: DecodedLayerView) -> bool {
    m.contains_key(c) && match m[c] {
        TileEntryView::Pending => true,
        TileEntryView::Ready(layers) => !holds_layer(layers, layer.name),
        TileEntryView::Unavailable(_) => false,
    }
}

/// The store after a decoded layer for `c` came in.
pub open spec fn marked_ready(
    m: StoreModel,
    c: TileCoordinate,
    layer: DecodedLayerView,
) -> StoreModel {
    if takes_layer(m, c, layer) {
        match m[c] {
            TileEntryView::Ready(layers) => m.insert(c, TileEntryView::Ready(layers.push(layer))),
            _ => m.insert(c, TileEntryView::Ready(seq![layer])),
        }
    } else {
        m
    }
}

/// Whether the notice that layer `name` of `c` is unavailable is taken: `c`
/// is pending, or unavailable without that name on record.
pub open spec fn takes_notice(m: StoreModel, c: TileCoordinate, name: Seq<char>) -> bool {
    m.contains_key(c) && match m[c] {
        TileEntryView::Pending => true,
        TileEntryView::Ready(_) => false,
        TileEntryView::Unavailable(names) => !names.contains(name),
    }
}

/// The store after the notice that layer `name` of `c` is unavailable.
pub open spec fn marked_unavailable(
    m: StoreModel,
    c: TileCoordinate,
    name: Seq<char>,
) -> StoreModel {
    if takes_notice(m, c, name) {
        match m[c] {
            TileEntryView::Unavailable(names) => m.insert(
                c,
                TileEntryView::Unavailable(names.push(name)),
            ),
            _ => m.insert(c, TileEntryView::Unavailable(seq![name])),
        }
    } else {
        m
    }
}

/// Whether `message` is taken.
pub open spec fn takes_message(m: StoreModel, message: MessageView) -> bool {
    match message {
        MessageView::DecodedLayer(layer) => takes_layer(m, layer.coords, layer),
        MessageView::LayerUnavailable(notice) => takes_notice(m, notice.coords, notice.name),
    }
}

/// The store after `message` came in.
pub open spec fn applied(m: StoreModel, message: MessageView) -> StoreModel {
    match message {
        MessageView::DecodedLayer(layer) => marked_ready(m, layer.coords, layer),
        MessageView::LayerUnavailable(notice) => marked_unavailable(
            m,
            notice.coords,
            notice.name,
        ),
    }
}

/// A tile could not be marked pending: its fetch is under way already, its
/// layers are here, or it has no address.
#[derive(Clone, Copy, Debug, PartialEq, Eq, Structural)]
pub struct AlreadyPendingError {
    pub coords: TileCoordinate,
}

/// The tile state store.
pub struct TileStateStore {
    entries: HashMap<u64, TileEntry>,
}

impl View for TileStateStore {
    type V = StoreModel;

    /// The entry of each tile that has one.
    closed spec fn view(&self) -> StoreModel {
        Map::new(
            |c: TileCoordinate| c.has_address() && self.entries@.contains_key(c.quad_key() as u64),
            |c: TileCoordinate| self.entries@[c.quad_key() as u64]@,
        )
    }
}

impl TileStateStore {
    /// A store without entries.
    pub fn new() -> (store: Self)
        ensures
            store@ == Map::<TileCoordinate, TileEntryView>::empty(),
    {
        let store = TileStateStore { entries: HashMap::new() };
        store
    }

    /// Only tiles with an address have entries.
    pub proof fn lemma_entries_have_addresses(&self)
        ensures
            forall|c: TileCoordinate| #[trigger] self@.contains_key(c) ==> c.has_address(),
    {
    }

    /// The state of `coords`, `None` for a tile without an entry.
    pub fn state(&self, coords: &TileCoordinate) -> (state: Option<TileState>)
        ensures
            state == state_in(self@, *coords),
    {
        match coords.build_quad_key() {
            None => None,
            Some(key) => match self.entries.get(&key) {
                None => None,
                Some(TileEntry::Pending) => Some(TileState::Pending),
                Some(TileEntry::Ready(_)) => Some(TileState::Ready),
                Some(TileEntry::Unavailable(_)) => Some(TileState::Unavailable),
            },
        }
    }

    /// Whether `coords` must be requested: it has an address, and no fetch
    /// of it is under way and its layers are not here. A tile that was
    /// unavailable must be requested again.
    pub fn needs_fetch(&self, coords: &TileCoordinate) -> (needed: bool)
        ensures
            needed == needs_fetch_in(self@, *coords),
    {
        match coords.build_quad_key() {
            None => false,
            Some(key) => match self.entries.get(&key) {
                None => true,
                Some(TileEntry::Unavailable(_)) => true,
                Some(_) => false,
            },
        }
    }

    /// Marks `coords` pending, if it needs fetching. Otherwise the store
    /// stays as it is and the error comes back.
    pub fn mark_pending(&mut self, coords: &TileCoordinate) -> (result: Result<
        (),
        AlreadyPendingError,
    >)
        ensures
            result is Ok <==> needs_fetch_in(old(self)@, *coords),
            result matches Err(e) ==> e.coords == *coords,
            final(self)@ == marked_pending(old(self)@, *coords),
            result is Ok ==> !needs_fetch_in(final(self)@, *coords),
    {
        let key = match coords.build_quad_key() {
            Some(key) => key,
            None => {
                return Err(AlreadyPendingError { coords: *coords });
            },
        };
        proof {
            lemma_quad_key_identifies_tile(*coords);
            lemma_quad_key_fits(*coords);
        }
        let free = match self.entries.get(&key) {
            None => true,
            Some(TileEntry::Unavailable(_)) => true,
            Some(_) => false,
        };
        if !free {
            return Err(AlreadyPendingError { coords: *coords });
        }
        self.entries.insert(key, TileEntry::Pending);
        Ok(())
    }

    /// Takes in a decoded layer of `coords` and says whether it was taken.
    ///
    /// A pending tile becomes ready with this layer. A ready tile gets the
    /// layer added, unless it holds one of that name: then it keeps the one
    /// it has. For a tile that is unknown or unavailable the layer comes too
    /// late: it is dropped.
    pub fn mark_ready(&mut self, coords: &TileCoordinate, layer: DecodedLayer) -> (taken: bool)
        ensures
            taken == takes_layer(old(self)@, *coords, layer@),
            final(self)@ == marked_ready(old(self)@, *coords, layer@),
    {
        let key = match coords.build_quad_key() {
            Some(key) => key,
            None => {
                return false;
            },
        };
        proof {
            lemma_quad_key_identifies_tile(*coords);
            lemma_quad_key_fits(*coords);
        }
        match self.entries.remove(&key) {
            None => {
                false
            },
            Some(TileEntry::Pending) => {
                let mut layers: Vec<DecodedLayer> = Vec::new();
                layers.push(layer);
                assert(layer_views(layers@) =~= seq![layer@]);
                self.entries.insert(key, TileEntry::Ready(layers));
                true
            },
            Some(TileEntry::Ready(layers)) => {
                let mut layers = layers;
                if has_layer_named(&layers, &layer.name) {
                    self.entries.insert(key, TileEntry::Ready(layers));
                    false
                } else {
                    let ghost before = layer_views(layers@);
                    layers.push(layer);
                    assert(layer_views(layers@) =~= before.push(layer@));
                    self.entries.insert(key, TileEntry::Ready(layers));
                    assert(self@ =~= old(self)@.insert(
                        *coords,
                        TileEntryView::Ready(before.push(layer@)),
                    ));
                    true
                }
            },
            Some(TileEntry::Unavailable(names)) => {
                self.entries.insert(key, TileEntry::Unavailable(names));
                false
            },
        }
    }

    /// Takes in the notice that layer `name` of `coords` is unavailable and
    /// says whether it was taken.
    ///
    /// A pending tile becomes unavailable. A tile that is unavailable gets
    /// the name put on record, unless it is there. For a tile that is
    /// unknown or ready the notice is dropped.
    pub fn mark_unavailable(&mut self, coords: &TileCoordinate, name: String) -> (taken: bool)
        ensures
            taken == takes_notice(old(self)@, *coords, name@),
            final(self)@ == marked_unavailable(old(self)@, *coords, name@),
    {
        let key = match coords.build_quad_key() {
            Some(key) => key,
            None => {
                return false;
            },
        };
        proof {
            lemma_quad_key_identifies_tile(*coords);
            lemma_quad_key_fits(*coords);
        }
        match self.entries.remove(&key) {
            None => {
                false
            },
            Some(TileEntry::Pending) => {
                let mut names: Vec<String> = Vec::new();
                names.push(name);
                assert(name_views(names@) =~= seq![name@]);
                self.entries.insert(key, TileEntry::Unavailable(names));
                assert(self@ =~= old(self)@.insert(
                    *coords,
                    TileEntryView::Unavailable(seq![name@]),
                ));
                true
            },
            Some(TileEntry::Ready(layers)) => {
                self.entries.insert(key, TileEntry::Ready(layers));
                false
            },
            Some(TileEntry::Unavailable(names)) => {
                let mut names = names;
                if has_name(&names, &name) {
                    self.entries.insert(key, TileEntry::Unavailable(names));
                    false
                } else {
                    let ghost before = name_views(names@);
                    names.push(name);
                    assert(name_views(names@) =~= before.push(name@));
                    self.entries.insert(key, TileEntry::Unavailable(names));
                    assert(self@ =~= old(self)@.insert(
                        *coords,
                        TileEntryView::Unavailable(before.push(name@)),
                    ));
                    true
                }
            },
        }
    }

    /// Takes in a message from a procedure and says whether it was taken.
    pub fn apply(&mut self, message: Message) -> (taken: bool)
        ensures
            taken == takes_message(old(self)@, message@),
            final(self)@ == applied(old(self)@, message@),
    {
        match message {
            Message::DecodedLayer(layer) => {
                let coords = layer.coords;
                self.mark_ready(&coords, layer)
            },
            Message::LayerUnavailable(notice) => self.mark_unavailable(
                &notice.coords,
                notice.name,
            ),
        }
    }

    /// The decoded layers of `coords`, if it is ready.
    pub fn ready_layers(&self, coords: &TileCoordinate) -> (layers: Option<&Vec<DecodedLayer>>)
        ensures
            match layers {
                Some(layers) => self@.contains_key(*coords) && self@[*coords]
                    == TileEntryView::Ready(layer_views(layers@)),
                None => state_in(self@, *coords) != Some(TileState::Ready),
            },
    {
        match coords.build_quad_key() {
            None => None,
            Some(key) => match self.entries.get(&key) {
                Some(TileEntry::Ready(layers)) => Some(layers),
                _ => None,
            },
        }
    }

    /// Drops every entry. This is the hook for whoever decides that the
    /// cache must go; afterwards every tile is unknown.
    pub fn evict_all(&mut self)
        ensures
            final(self)@ == Map::<TileCoordinate, TileEntryView>::empty(),
    {
        self.entries.clear();
    }
}

/// Whether one of `layers` has the name `name`.
fn has_layer_named(layers: &Vec<DecodedLayer>, name: &String) -> (found: bool)
    ensures
        found == holds_layer(layer_views(layers@), name@),
{
    let mut index: usize = 0;
    while index < layers.len()
        invariant
            index <= layers.len(),
            forall|i: int| 0 <= i < index ==> (#[trigger] layer_views(layers@)[i]).name != name@,
        decreases layers.len() - index,
    {
        if layers[index].name == *name {
            assert(layer_views(layers@)[index as int].name == name@);
            return true;
        }
        index = index + 1;
    }
    false
}

/// Whether `name` is one of `names`.
fn has_name(names: &Vec<String>, name: &String) -> (found: bool)
    ensures
        found == name_views(names@).contains(name@),
{
    let mut index: usize = 0;
    while index < names.len()
        invariant
            index <= names.len(),
            forall|i: int| 0 <= i < index ==> name_views(names@)[i] != name@,
        decreases names.len() - index,
    {
        if names[index] == *name {
            assert(name_views(names@)[index as int] == name@);
            return true;
        }
        index = index + 1;
    }
    false
}

/// A tile that was marked pending cannot be marked pending again: the
/// second attempt finds that it needs no fetching and changes nothing. So
/// no tile has two fetches under way.
pub proof fn lemma_pending_blocks_second_request(m: StoreModel, c: TileCoordinate)
    requires
        needs_fetch_in(m, c),
    ensures
        state_in(marked_pending(m, c), c) == Some(TileState::Pending),
        !needs_fetch_in(marked_pending(m, c), c),
        marked_pending(marked_pending(m, c), c) == marked_pending(m, c),
{
}

/// A tile that is ready stays ready whatever message comes in, and a
/// decoded layer that comes in a second time changes nothing: the entry
/// keeps the layer it has.
pub proof fn lemma_ready_is_kept(
    m: StoreModel,
    c: TileCoordinate,
    layer: DecodedLayerView,
    again: DecodedLayerView,
    message: MessageView,
)
    requires
        takes_layer(m, c, layer),
        again.name == layer.name,
    ensures
        state_in(marked_ready(m, c, layer), c) == Some(TileState::Ready),
        !takes_layer(marked_ready(m, c, layer), c, again),
        marked_ready(marked_ready(m, c, layer), c, again) == marked_ready(m, c, layer),
        state_in(applied(marked_ready(m, c, layer), message), c) == Some(TileState::Ready),
{
    match m[c] {
        TileEntryView::Ready(layers) => {
            assert(layers.push(layer)[layers.len() as int].name == again.name);
        },
        _ => {
            assert(seq![layer][0].name == again.name);
        },
    }
}

/// Messages make no entries and change no state but that of a pending
/// tile: an entry becomes ready or unavailable only from pending.
pub proof fn lemma_messages_change_pending_only(
    m: StoreModel,
    message: MessageView,
    c: TileCoordinate,
)
    ensures
        applied(m, message).dom() == m.dom(),
        state_in(applied(m, message), c) != state_in(m, c) ==> state_in(m, c) == Some(
            TileState::Pending,
        ),
{
}

/// A pending tile whose layer is reported unavailable needs fetching again:
/// the next time it is in view, it is requested once more.
pub proof fn lemma_unavailable_is_fetched_again(m: StoreModel, c: TileCoordinate, name: Seq<char>)
    requires
        c.has_address(),
        state_in(m, c) == Some(TileState::Pending),
    ensures
        takes_notice(m, c, name),
        state_in(marked_unavailable(m, c, name), c) == Some(TileState::Unavailable),
        needs_fetch_in(marked_unavailable(m, c, name), c),
{
}

/// Whether `entry` holds no layer name twice.
pub open spec fn names_once(entry: TileEntryView) -> bool {
    match entry {
        TileEntryView::Pending => true,
        TileEntryView::Ready(layers) => forall|i: int, j: int|
            0 <= i < j < layers.len() ==> (#[trigger] layers[i]).name != (#[trigger] layers[j]).name,
        TileEntryView::Unavailable(names) => names.no_duplicates(),
    }
}

/// No operation puts a layer name into an entry twice: an entry that is
/// made holds each of its names once, and an entry that holds each of its
/// names once still does after any message.
pub proof fn lemma_names_stay_once(m: StoreModel, message: MessageView, c: TileCoordinate)
    requires
        m.contains_key(c) ==> names_once(m[c]),
    ensures
        applied(m, message).contains_key(c) ==> names_once(applied(m, message)[c]),
        marked_pending(m, c).contains_key(c) ==> names_once(marked_pending(m, c)[c]),
{
    if m.contains_key(c) && message.coords() == c && takes_message(m, message) {
        match (m[c], message) {
            (TileEntryView::Ready(layers), MessageView::DecodedLayer(layer)) => {
                assert(names_once(TileEntryView::Ready(layers.push(layer))));
            },
            (TileEntryView::Unavailable(names), MessageView::LayerUnavailable(notice)) => {
                assert(names.push(notice.name).no_duplicates());
            },
            _ => {},
        }
    }
}

} // verus!
