//! What a whole answer does to the store.
//!
//! The messages that answer one request come in as a batch, in the order
//! in which the procedure sent them. Because the decoded layers come before
//! the notices, the batch settles its tile the same way whatever failed: a
//! tile of which any layer was decoded becomes ready, and a tile of which
//! none was becomes unavailable and is requested again when it is next in
//! view.

use crate::coords::TileCoordinate;
use crate::procedure::{
    decoded_message, decoded_messages, layer_messages, message_views, unavailable_message,
    unavailable_messages, ProcessedLayerView,
};
use crate::store::{applied, state_in, takes_message, StoreModel, TileState, TileStateStore};
use crate::transfer::{Message, MessageView, TileRequestView};
use std::collections::VecDeque;
use vstd::prelude::*;

verus! {

/// The store after each of `messages` came in, the first one first.
pub open spec fn applied_all(m: StoreModel, messages: Seq<MessageView>) -> StoreModel
    decreases messages.len(),
{
    if messages.len() == 0 {
        m
    } else {
        applied_all(applied(m, messages[0]), messages.skip(1))
    }
}

/// How many of `messages` are taken when they come in one after the other.
pub open spec fn taken_of(m: StoreModel, messages: Seq<MessageView>) -> nat
    decreases messages.len(),
{
    if messages.len() == 0 {
        0
    } else {
        let first: nat = if takes_message(m, messages[0]) {
            1
        } else {
            0
        };
        first + taken_of(applied(m, messages[0]), messages.skip(1))
    }
}

/// Whether each of `messages` is about the tile `c`.
pub open spec fn all_about(messages: Seq<MessageView>, c: TileCoordinate) -> bool {
    forall|i: int| 0 <= i < messages.len() ==> (#[trigger] messages[i]).coords() == c
}

/// Whether each of `messages` is a notice that a layer is unavailable.
pub open spec fn all_notices(messages: Seq<MessageView>) -> bool {
    forall|i: int| 0 <= i < messages.len() ==> (#[trigger] messages[i]) is LayerUnavailable
}

/// Whether each of `messages` carries a decoded layer.
pub open spec fn all_decoded(messages: Seq<MessageView>) -> bool {
    forall|i: int| 0 <= i < messages.len() ==> (#[trigger] messages[i]) is DecodedLayer
}

impl TileStateStore {
    /// Takes in `messages`, the first one first, and says how many were
    /// taken.
    pub fn apply_all(&mut self, messages: VecDeque<Message>) -> (taken: usize)
        ensures
            final(self)@ == applied_all(old(self)@, message_views(messages@)),
            taken == taken_of(old(self)@, message_views(messages@)),
    {
        let mut messages = messages;
        let ghost all = message_views(messages@);
        let mut taken: usize = 0;
        proof {
            lemma_taken_of_at_most_all(self@, all);
        }
        assert(all.len() == messages.len());
        while messages.len() > 0
            invariant
                applied_all(old(self)@, all) == applied_all(self@, message_views(messages@)),
                taken + taken_of(self@, message_views(messages@)) == taken_of(old(self)@, all),
                taken_of(old(self)@, all) <= all.len() <= usize::MAX,
            decreases messages.len(),
        {
            let ghost before = message_views(messages@);
            let message = messages.pop_front().unwrap();
            assert(message_views(messages@) =~= before.skip(1));
            if self.apply(message) {
                taken = taken + 1;
            }
        }
        taken
    }
}

/// No more messages are taken than come in.
pub proof fn lemma_taken_of_at_most_all(m: StoreModel, messages: Seq<MessageView>)
    ensures
        taken_of(m, messages) <= messages.len(),
    decreases messages.len(),
{
    if messages.len() > 0 {
        lemma_taken_of_at_most_all(applied(m, messages[0]), messages.skip(1));
    }
}

/// Two batches one after the other are one batch.
pub proof fn lemma_applied_all_in_turn(
    m: StoreModel,
    first: Seq<MessageView>,
    second: Seq<MessageView>,
)
    ensures
        applied_all(m, first + second) == applied_all(applied_all(m, first), second),
    decreases first.len(),
{
    if first.len() > 0 {
        assert((first + second).skip(1) =~= first.skip(1) + second);
        lemma_applied_all_in_turn(applied(m, first[0]), first.skip(1), second);
    }
}

/// Messages about one tile leave every other tile as it is.
pub proof fn lemma_other_tiles_stay(
    m: StoreModel,
    messages: Seq<MessageView>,
    c: TileCoordinate,
    other: TileCoordinate,
)
    requires
        all_about(messages, c),
        other != c,
    ensures
        applied_all(m, messages).contains_key(other) == m.contains_key(other),
        m.contains_key(other) ==> applied_all(m, messages)[other] == m[other],
    decreases messages.len(),
{
    if messages.len() > 0 {
        assert(all_about(messages.skip(1), c));
        lemma_other_tiles_stay(applied(m, messages[0]), messages.skip(1), c, other);
    }
}

/// A ready tile stays ready through any batch.
pub proof fn lemma_ready_through_batch(
    m: StoreModel,
    messages: Seq<MessageView>,
    c: TileCoordinate,
)
    requires
        state_in(m, c) == Some(TileState::Ready),
    ensures
        state_in(applied_all(m, messages), c) == Some(TileState::Ready),
    decreases messages.len(),
{
    if messages.len() > 0 {
        lemma_ready_through_batch(applied(m, messages[0]), messages.skip(1), c);
    }
}

/// Decoded layers for a pending tile make it ready.
pub proof fn lemma_decoded_layers_make_ready(
    m: StoreModel,
    messages: Seq<MessageView>,
    c: TileCoordinate,
)
    requires
        state_in(m, c) == Some(TileState::Pending),
        all_about(messages, c),
        all_decoded(messages),
        messages.len() > 0,
    ensures
        state_in(applied_all(m, messages), c) == Some(TileState::Ready),
{
    lemma_ready_through_batch(applied(m, messages[0]), messages.skip(1), c);
}

/// Notices for a tile that is pending or unavailable leave it unavailable.
pub proof fn lemma_notices_make_unavailable(
    m: StoreModel,
    messages: Seq<MessageView>,
    c: TileCoordinate,
)
    requires
        state_in(m, c) == Some(TileState::Pending) || state_in(m, c) == Some(
            TileState::Unavailable,
        ),
        all_about(messages, c),
        all_notices(messages),
        messages.len() > 0,
    ensures
        state_in(applied_all(m, messages), c) == Some(TileState::Unavailable),
    decreases messages.len(),
{
    assert(messages[0].coords() == c && messages[0] is LayerUnavailable);
    let rest = messages.skip(1);
    if rest.len() > 0 {
        assert(all_about(rest, c) && all_notices(rest));
        lemma_notices_make_unavailable(applied(m, messages[0]), rest, c);
    }
}

proof fn lemma_kinds_of_answers(
    coords: TileCoordinate,
    layers: Seq<ProcessedLayerView>,
    names: Seq<Seq<char>>,
)
    ensures
        all_about(
            names.filter_map(|name: Seq<char>| decoded_message(coords, layers, name)),
            coords,
        ),
        all_decoded(names.filter_map(|name: Seq<char>| decoded_message(coords, layers, name))),
        all_about(
            names.filter_map(|name: Seq<char>| unavailable_message(coords, layers, name)),
            coords,
        ),
        all_notices(
            names.filter_map(|name: Seq<char>| unavailable_message(coords, layers, name)),
        ),
    decreases names.len(),
{
    let pick_decoded = |name: Seq<char>| decoded_message(coords, layers, name);
    let pick_unavailable = |name: Seq<char>| unavailable_message(coords, layers, name);
    let decoded = names.filter_map(pick_decoded);
    let unavailable = names.filter_map(pick_unavailable);
    if names.len() > 0 {
        let rest = names.drop_last();
        lemma_kinds_of_answers(coords, layers, rest);
        assert(all_about(decoded, coords) && all_decoded(decoded));
        assert(all_about(unavailable, coords) && all_notices(unavailable));
    }
}

/// The answer to a request settles its tile and touches no other.
///
/// When the messages that answer `request` come in for a tile that is
/// pending, the tile is ready if any requested layer was decoded, and
/// unavailable if none was. Only a request for no layer at all leaves it
/// pending. Every other tile stays as it is.
pub proof fn lemma_answer_settles_tile(
    m: StoreModel,
    request: TileRequestView,
    layers: Seq<ProcessedLayerView>,
    other: TileCoordinate,
)
    requires
        state_in(m, request.coords) == Some(TileState::Pending),
        other != request.coords,
    ensures
        state_in(applied_all(m, layer_messages(request, layers)), request.coords) == Some(
            if decoded_messages(request, layers).len() > 0 {
                TileState::Ready
            } else if request.layers.len() > 0 {
                TileState::Unavailable
            } else {
                TileState::Pending
            },
        ),
        applied_all(m, layer_messages(request, layers)).contains_key(other) == m.contains_key(
            other,
        ),
        m.contains_key(other) ==> applied_all(m, layer_messages(request, layers))[other]
            == m[other],
{
    let c = request.coords;
    let decoded = decoded_messages(request, layers);
    let unavailable = unavailable_messages(request, layers);
    let messages = layer_messages(request, layers);
    lemma_kinds_of_answers(c, layers, request.layers);
    crate::procedure::lemma_one_answer_for_each_layer(request, layers);
    assert(all_about(messages, c));
    lemma_other_tiles_stay(m, messages, c, other);
    lemma_applied_all_in_turn(m, decoded, unavailable);
    if decoded.len() > 0 {
        lemma_decoded_layers_make_ready(m, decoded, c);
        lemma_ready_through_batch(applied_all(m, decoded), unavailable, c);
    } else if unavailable.len() > 0 {
        lemma_notices_make_unavailable(m, unavailable, c);
    }
}

} // verus!
