//! The tile procedure: what happens to one request after it was submitted.
//!
//! The procedure fetches the tile's bytes, has them processed layer by
//! layer, and reports each requested layer back: decoded, or unavailable.
//! Fetching, processing and sending are done by whoever runs the procedure.
//! What to do next is decided here, as a state machine: every step takes
//! what the last action brought and names the next action.
//!
//! ```text
//! schedule ─▶ Fetch ─▶ Process ─▶ Send … Send ─▶ Finish
//! ```
//!
//! A fetch that fails and bytes that cannot be processed at all end the
//! work early, but not silently: every requested layer is reported
//! unavailable, and the procedure finishes with the error. One layer that
//! fails takes no other layer with it.

use crate::coords::TileCoordinate;
use crate::transfer::{
    DecodedLayer, DecodedLayerView, Input, InputView, LayerUnavailable, LayerUnavailableView,
    Message, MessageView, TileRequest, TileRequestView,
};
use std::collections::VecDeque;
use vstd::prelude::*;

verus! {

/// Why the bytes of a tile could not be had.
#[derive(Clone, Copy, Debug, PartialEq, Eq, Structural)]
pub enum FetchError {
    /// The data source did not answer in time.
    Timeout,
    /// The data source has no such tile.
    NotFound,
    /// The transport failed.
    Transport,
}

/// The stages that process the bytes of a tile, in their order.
#[derive(Clone, Copy, Debug, PartialEq, Eq, Structural)]
pub enum PipelineStage {
    /// Reads the wire format.
    Decode,
    /// Turns each layer into geometry.
    Tessellate,
}

/// A stage could do nothing with what it was given: the payload as a whole
/// is lost.
#[derive(Clone, Copy, Debug, PartialEq, Eq, Structural)]
pub struct PipelineError {
    pub stage: PipelineStage,
}

/// A message could not be delivered: nobody receives any more.
#[derive(Clone, Copy, Debug, PartialEq, Eq, Structural)]
pub struct SendError {
}

/// What went wrong inside a procedure.
#[derive(Clone, Copy, Debug, PartialEq, Eq, Structural)]
pub enum ExecutionError {
    Fetch(FetchError),
    Pipeline(PipelineError),
}

/// How a procedure can fail.
#[derive(Clone, Copy, Debug, PartialEq, Eq, Structural)]
pub enum ProcedureError {
    /// The procedure was given something it does not handle: an input of
    /// the wrong kind, or an event out of turn.
    IncompatibleInput,
    /// The fetch or the processing failed.
    Execution(ExecutionError),
    /// A message could not be delivered.
    Send(SendError),
}

/// What processing made of one layer of a tile.
#[derive(Debug, PartialEq, Eq)]
pub struct ProcessedLayer {
    pub name: String,
    /// The layer's geometry, `None` if this layer could not be processed.
    pub geometry: Option<Vec<u8>>,
}

/// What a [`ProcessedLayer`] holds.
pub struct ProcessedLayerView {
    pub name: Seq<char>,
    pub geometry: Option<Seq<u8>>,
}

/// What `geometry` holds.
pub open spec fn geometry_view(geometry: Option<Vec<u8>>) -> Option<Seq<u8>> {
    match geometry {
        Some(bytes) => Some(bytes@),
        None => None,
    }
}

impl View for ProcessedLayer {
    type V = ProcessedLayerView;

    open spec fn view(&self) -> ProcessedLayerView {
        ProcessedLayerView { name: self.name@, geometry: geometry_view(self.geometry) }
    }
}

/// What each of `layers` holds.
pub open spec fn processed_views(layers: Seq<ProcessedLayer>) -> Seq<ProcessedLayerView> {
    layers.map_values(|layer: ProcessedLayer| layer@)
}

/// The geometry that processing gave for the layer `name`: that of the
/// first of `layers` with this name. `None` if there is no such layer or it
/// could not be processed.
pub open spec fn geometry_of(layers: Seq<ProcessedLayerView>, name: Seq<char>) -> Option<Seq<u8>>
    decreases layers.len(),
{
    if layers.len() == 0 {
        None
    } else if layers[0].name == name {
        layers[0].geometry
    } else {
        geometry_of(layers.skip(1), name)
    }
}

/// The message that carries the layer `name` of `coords`, if processing
/// gave its geometry.
pub open spec fn decoded_message(
    coords: TileCoordinate,
    layers: Seq<ProcessedLayerView>,
    name: Seq<char>,
) -> Option<MessageView> {
    match geometry_of(layers, name) {
        Some(geometry) => Some(
            MessageView::DecodedLayer(DecodedLayerView { coords, name, geometry }),
        ),
        None => None,
    }
}

/// The notice that the layer `name` of `coords` is unavailable, if
/// processing did not give its geometry.
pub open spec fn unavailable_message(
    coords: TileCoordinate,
    layers: Seq<ProcessedLayerView>,
    name: Seq<char>,
) -> Option<MessageView> {
    match geometry_of(layers, name) {
        Some(_) => None,
        None => Some(MessageView::LayerUnavailable(LayerUnavailableView { coords, name })),
    }
}

/// The decoded layers among the requested ones, in the order of the
/// request.
pub open spec fn decoded_messages(
    request: TileRequestView,
    layers: Seq<ProcessedLayerView>,
) -> Seq<MessageView> {
    request.layers.filter_map(|name: Seq<char>| decoded_message(request.coords, layers, name))
}

/// The notices for the requested layers that are not among the decoded
/// ones, in the order of the request.
pub open spec fn unavailable_messages(
    request: TileRequestView,
    layers: Seq<ProcessedLayerView>,
) -> Seq<MessageView> {
    request.layers.filter_map(
        |name: Seq<char>| unavailable_message(request.coords, layers, name),
    )
}

/// The messages that answer `request` when processing gave `layers`: one
/// for each requested layer. The decoded layers come first, then the
/// notices for those that are unavailable. What processing gave beyond the
/// request is left out.
pub open spec fn layer_messages(
    request: TileRequestView,
    layers: Seq<ProcessedLayerView>,
) -> Seq<MessageView> {
    decoded_messages(request, layers) + unavailable_messages(request, layers)
}

/// What each of `messages` says.
pub open spec fn message_views(messages: Seq<Message>) -> Seq<MessageView> {
    messages.map_values(|message: Message| message@)
}

/// The geometry that processing gave for the layer `name`.
fn find_geometry<'a>(layers: &'a Vec<ProcessedLayer>, name: &String) -> (geometry: Option<
    &'a Vec<u8>,
>)
    ensures
        match geometry {
            Some(bytes) => geometry_of(processed_views(layers@), name@) == Some(bytes@),
            None => geometry_of(processed_views(layers@), name@) is None,
        },
{
    let ghost all = processed_views(layers@);
    let mut index: usize = 0;
    assert(all.skip(0) =~= all);
    while index < layers.len()
        invariant
            index <= layers.len(),
            all == processed_views(layers@),
            geometry_of(all, name@) == geometry_of(all.skip(index as int), name@),
        decreases layers.len() - index,
    {
        assert(all.skip(index as int).skip(1) =~= all.skip(index + 1));
        if layers[index].name == *name {
            return match &layers[index].geometry {
                Some(bytes) => Some(bytes),
                None => None,
            };
        }
        index = index + 1;
    }
    None
}

/// The messages that answer `request` when processing gave `layers`.
pub fn build_layer_messages(request: &TileRequest, layers: &Vec<ProcessedLayer>) -> (messages:
    VecDeque<Message>)
    ensures
        message_views(messages@) == layer_messages(request@, processed_views(layers@)),
{
    let ghost given = processed_views(layers@);
    let ghost names = request.layers@;
    let ghost pick_decoded = |name: Seq<char>| decoded_message(request.coords, given, name);
    let ghost pick_unavailable = |name: Seq<char>| unavailable_message(request.coords, given, name);
    let mut messages: VecDeque<Message> = VecDeque::new();
    let count = request.layers.len();
    let mut index: usize = 0;
    while index < count
        invariant
            index <= count,
            count == request.layers@.len(),
            names == request.layers@,
            given == processed_views(layers@),
            pick_decoded == |name: Seq<char>| decoded_message(request.coords, given, name),
            message_views(messages@) == names.take(index as int).filter_map(pick_decoded),
        decreases count - index,
    {
        let name = request.layers.get(index).unwrap();
        proof {
            names.lemma_filter_map_take_succ(pick_decoded, index as int);
        }
        match find_geometry(layers, name) {
            Some(bytes) => {
                let geometry = bytes.clone();
                let message = Message::DecodedLayer(
                    DecodedLayer { coords: request.coords, name: name.clone(), geometry },
                );
                messages.push_back(message);
            },
            None => {},
        }
        index = index + 1;
    }
    assert(names.take(count as int) =~= names);
    let ghost decoded = message_views(messages@);
    index = 0;
    while index < count
        invariant
            index <= count,
            count == request.layers@.len(),
            names == request.layers@,
            given == processed_views(layers@),
            decoded == names.filter_map(pick_decoded),
            pick_unavailable == |name: Seq<char>|
                unavailable_message(request.coords, given, name),
            message_views(messages@) == decoded + names.take(index as int).filter_map(
                pick_unavailable,
            ),
        decreases count - index,
    {
        let name = request.layers.get(index).unwrap();
        proof {
            names.lemma_filter_map_take_succ(pick_unavailable, index as int);
        }
        let ghost notices = names.take(index as int).filter_map(pick_unavailable);
        match find_geometry(layers, name) {
            Some(_) => {},
            None => {
                let message = Message::LayerUnavailable(
                    LayerUnavailable { coords: request.coords, name: name.clone() },
                );
                messages.push_back(message);
                assert(decoded + (notices + seq![message@]) =~= (decoded + notices)
                    + seq![message@]);
            },
        }
        index = index + 1;
    }
    messages
}

/// What the last action brought.
#[derive(Debug, PartialEq, Eq)]
pub enum Event {
    /// The fetch ended: with the tile's bytes, or with an error.
    Fetched(Result<Vec<u8>, FetchError>),
    /// Processing ended: with what it made of each layer, or with the error
    /// of the stage that could do nothing.
    Processed(Result<Vec<ProcessedLayer>, PipelineError>),
    /// The message was delivered, or it was not.
    Sent(Result<(), SendError>),
}

/// What an [`Event`] says.
pub enum EventView {
    Fetched(Result<Seq<u8>, FetchError>),
    Processed(Result<Seq<ProcessedLayerView>, PipelineError>),
    Sent(Result<(), SendError>),
}

impl View for Event {
    type V = EventView;

    open spec fn view(&self) -> EventView {
        match self {
            Event::Fetched(Ok(payload)) => EventView::Fetched(Ok(payload@)),
            Event::Fetched(Err(error)) => EventView::Fetched(Err(*error)),
            Event::Processed(Ok(layers)) => EventView::Processed(Ok(processed_views(layers@))),
            Event::Processed(Err(error)) => EventView::Processed(Err(*error)),
            Event::Sent(result) => EventView::Sent(*result),
        }
    }
}

/// What is to be done next.
#[derive(Debug, PartialEq, Eq)]
pub enum Action {
    /// Fetch the bytes of this tile from the data source.
    Fetch(TileCoordinate),
    /// Run the processing stages over the payload.
    Process { request: TileRequest, payload: Vec<u8> },
    /// Deliver this message.
    Send(Message),
    /// Nothing is left to do. The procedure ended like this.
    Finish(Result<(), ProcedureError>),
}

/// What an [`Action`] says.
pub enum ActionView {
    Fetch(TileCoordinate),
    Process { request: TileRequestView, payload: Seq<u8> },
    Send(MessageView),
    Finish(Result<(), ProcedureError>),
}

impl View for Action {
    type V = ActionView;

    open spec fn view(&self) -> ActionView {
        match self {
            Action::Fetch(coords) => ActionView::Fetch(*coords),
            Action::Process { request, payload } => ActionView::Process {
                request: request@,
                payload: payload@,
            },
            Action::Send(message) => ActionView::Send(message@),
            Action::Finish(outcome) => ActionView::Finish(*outcome),
        }
    }
}

/// Where a procedure stands.
#[derive(Debug, PartialEq, Eq)]
pub enum Procedure {
    /// Waits for the bytes of the tile.
    Fetching { request: TileRequest },
    /// Waits for the processing of the bytes.
    Processing { request: TileRequest },
    /// Waits for the delivery of a message. `outbox` holds the messages
    /// that follow it, `outcome` how the procedure ends once all are out.
    Sending { outbox: VecDeque<Message>, outcome: Result<(), ProcedureError> },
    /// Has ended.
    Finished { outcome: Result<(), ProcedureError> },
}

/// What a [`Procedure`] holds.
pub enum ProcedureView {
    Fetching { request: TileRequestView },
    Processing { request: TileRequestView },
    Sending { outbox: Seq<MessageView>, outcome: Result<(), ProcedureError> },
    Finished { outcome: Result<(), ProcedureError> },
}

impl View for Procedure {
    type V = ProcedureView;

    open spec fn view(&self) -> ProcedureView {
        match self {
            Procedure::Fetching { request } => ProcedureView::Fetching { request: request@ },
            Procedure::Processing { request } => ProcedureView::Processing { request: request@ },
            Procedure::Sending { outbox, outcome } => ProcedureView::Sending {
                outbox: message_views(outbox@),
                outcome: *outcome,
            },
            Procedure::Finished { outcome } => ProcedureView::Finished { outcome: *outcome },
        }
    }
}

/// The end of a procedure with `outcome`.
pub open spec fn finished(outcome: Result<(), ProcedureError>) -> (ProcedureView, ActionView) {
    (ProcedureView::Finished { outcome }, ActionView::Finish(outcome))
}

/// The step that sends the first of `outbox`, or ends the procedure with
/// `outcome` if nothing is left to send.
pub open spec fn sending(outbox: Seq<MessageView>, outcome: Result<(), ProcedureError>) -> (
    ProcedureView,
    ActionView,
) {
    if outbox.len() == 0 {
        finished(outcome)
    } else {
        (ProcedureView::Sending { outbox: outbox.skip(1), outcome }, ActionView::Send(outbox[0]))
    }
}

/// How a procedure starts on `input`.
pub open spec fn started(input: InputView) -> (ProcedureView, ActionView) {
    match input {
        InputView::TileRequest(request) => (
            ProcedureView::Fetching { request },
            ActionView::Fetch(request.coords),
        ),
        InputView::NotYetImplemented => finished(Err(ProcedureError::IncompatibleInput)),
    }
}

/// How a procedure in `state` goes on when `event` comes in.
pub open spec fn stepped(state: ProcedureView, event: EventView) -> (ProcedureView, ActionView) {
    match (state, event) {
        (ProcedureView::Finished { outcome }, _) => finished(outcome),
        (ProcedureView::Fetching { request }, EventView::Fetched(Ok(payload))) => (
            ProcedureView::Processing { request },
            ActionView::Process { request, payload },
        ),
        (ProcedureView::Fetching { request }, EventView::Fetched(Err(error))) => sending(
            layer_messages(request, Seq::empty()),
            Err(ProcedureError::Execution(ExecutionError::Fetch(error))),
        ),
        (ProcedureView::Processing { request }, EventView::Processed(Ok(layers))) => sending(
            layer_messages(request, layers),
            Ok(()),
        ),
        (ProcedureView::Processing { request }, EventView::Processed(Err(error))) => sending(
            layer_messages(request, Seq::empty()),
            Err(ProcedureError::Execution(ExecutionError::Pipeline(error))),
        ),
        (ProcedureView::Sending { outbox, outcome }, EventView::Sent(Ok(_))) => sending(
            outbox,
            outcome,
        ),
        (ProcedureView::Sending { outbox, outcome }, EventView::Sent(Err(error))) => finished(
            Err(ProcedureError::Send(error)),
        ),
        _ => finished(Err(ProcedureError::IncompatibleInput)),
    }
}

/// The end of a procedure with `outcome`.
fn finish(outcome: Result<(), ProcedureError>) -> (next: (Procedure, Action))
    ensures
        (next.0@, next.1@) == finished(outcome),
{
    (Procedure::Finished { outcome }, Action::Finish(outcome))
}

/// The step that sends the first of `outbox`, or ends the procedure.
fn send_next(outbox: VecDeque<Message>, outcome: Result<(), ProcedureError>) -> (next: (
    Procedure,
    Action,
))
    ensures
        (next.0@, next.1@) == sending(message_views(outbox@), outcome),
{
    let mut outbox = outbox;
    let ghost before = outbox@;
    match outbox.pop_front() {
        Some(message) => {
            assert(message_views(outbox@) =~= message_views(before).skip(1));
            (Procedure::Sending { outbox, outcome }, Action::Send(message))
        },
        None => finish(outcome),
    }
}

impl Procedure {
    /// Starts the procedure for `input`: a tile request is answered by
    /// fetching the tile; any other input ends the procedure at once with
    /// [`ProcedureError::IncompatibleInput`].
    pub fn start(input: Input) -> (next: (Procedure, Action))
        ensures
            (next.0@, next.1@) == started(input@),
    {
        match input {
            Input::TileRequest(request) => {
                let coords = request.coords;
                (Procedure::Fetching { request }, Action::Fetch(coords))
            },
            Input::NotYetImplemented => finish(Err(ProcedureError::IncompatibleInput)),
        }
    }

    /// Takes in what the last action brought and names the next action.
    pub fn step(self, event: Event) -> (next: (Procedure, Action))
        ensures
            (next.0@, next.1@) == stepped(self@, event@),
    {
        match self {
            Procedure::Finished { outcome } => finish(outcome),
            Procedure::Fetching { request } => match event {
                Event::Fetched(Ok(payload)) => {
                    let copy = request.clone();
                    (Procedure::Processing { request }, Action::Process { request: copy, payload })
                },
                Event::Fetched(Err(error)) => {
                    let nothing: Vec<ProcessedLayer> = Vec::new();
                    assert(processed_views(nothing@) =~= Seq::<ProcessedLayerView>::empty());
                    send_next(
                        build_layer_messages(&request, &nothing),
                        Err(ProcedureError::Execution(ExecutionError::Fetch(error))),
                    )
                },
                _ => finish(Err(ProcedureError::IncompatibleInput)),
            },
            Procedure::Processing { request } => match event {
                Event::Processed(Ok(layers)) => send_next(
                    build_layer_messages(&request, &layers),
                    Ok(()),
                ),
                Event::Processed(Err(error)) => {
                    let nothing: Vec<ProcessedLayer> = Vec::new();
                    assert(processed_views(nothing@) =~= Seq::<ProcessedLayerView>::empty());
                    send_next(
                        build_layer_messages(&request, &nothing),
                        Err(ProcedureError::Execution(ExecutionError::Pipeline(error))),
                    )
                },
                _ => finish(Err(ProcedureError::IncompatibleInput)),
            },
            Procedure::Sending { outbox, outcome } => match event {
                Event::Sent(Ok(_)) => send_next(outbox, outcome),
                Event::Sent(Err(error)) => finish(Err(ProcedureError::Send(error))),
                _ => finish(Err(ProcedureError::IncompatibleInput)),
            },
        }
    }

    /// How the procedure ended, `None` while it has not.
    pub fn outcome(&self) -> (outcome: Option<Result<(), ProcedureError>>)
        ensures
            outcome == match self@ {
                ProcedureView::Finished { outcome } => Some(outcome),
                _ => None,
            },
    {
        match self {
            Procedure::Finished { outcome } => Some(*outcome),
            _ => None,
        }
    }
}

/// The one message that answers for the layer `name` of `coords`: the
/// decoded layer if processing gave its geometry, the notice that it is
/// unavailable if not.
pub open spec fn answer_for(
    coords: TileCoordinate,
    layers: Seq<ProcessedLayerView>,
    name: Seq<char>,
) -> MessageView {
    match geometry_of(layers, name) {
        Some(geometry) => MessageView::DecodedLayer(DecodedLayerView { coords, name, geometry }),
        None => MessageView::LayerUnavailable(LayerUnavailableView { coords, name }),
    }
}

/// Whether each of `messages` is the answer for one of `names`.
pub open spec fn answers_only(
    messages: Seq<MessageView>,
    coords: TileCoordinate,
    layers: Seq<ProcessedLayerView>,
    names: Seq<Seq<char>>,
) -> bool {
    forall|j: int|
        0 <= j < messages.len() ==> names.contains((#[trigger] messages[j]).name())
            && messages[j] == answer_for(coords, layers, messages[j].name())
}

proof fn lemma_answers_split(
    coords: TileCoordinate,
    layers: Seq<ProcessedLayerView>,
    names: Seq<Seq<char>>,
)
    ensures
        names.filter_map(|name: Seq<char>| decoded_message(coords, layers, name)).len()
            + names.filter_map(|name: Seq<char>| unavailable_message(coords, layers, name)).len()
            == names.len(),
        answers_only(
            names.filter_map(|name: Seq<char>| decoded_message(coords, layers, name)),
            coords,
            layers,
            names,
        ),
        answers_only(
            names.filter_map(|name: Seq<char>| unavailable_message(coords, layers, name)),
            coords,
            layers,
            names,
        ),
        forall|i: int|
            0 <= i < names.len() ==> {
                ||| names.filter_map(
                    |name: Seq<char>| decoded_message(coords, layers, name),
                ).contains(answer_for(coords, layers, #[trigger] names[i]))
                ||| names.filter_map(
                    |name: Seq<char>| unavailable_message(coords, layers, name),
                ).contains(answer_for(coords, layers, names[i]))
            },
    decreases names.len(),
{
    let pick_decoded = |name: Seq<char>| decoded_message(coords, layers, name);
    let pick_unavailable = |name: Seq<char>| unavailable_message(coords, layers, name);
    let decoded = names.filter_map(pick_decoded);
    let unavailable = names.filter_map(pick_unavailable);
    if names.len() > 0 {
        let rest = names.drop_last();
        let last = names.last();
        let rest_decoded = rest.filter_map(pick_decoded);
        let rest_unavailable = rest.filter_map(pick_unavailable);
        lemma_answers_split(coords, layers, rest);
        assert forall|j: int| 0 <= j < decoded.len() implies names.contains(
            (#[trigger] decoded[j]).name(),
        ) && decoded[j] == answer_for(coords, layers, decoded[j].name()) by {
            if j < rest_decoded.len() {
                assert(rest.contains(rest_decoded[j].name()));
            }
        }
        assert forall|j: int| 0 <= j < unavailable.len() implies names.contains(
            (#[trigger] unavailable[j]).name(),
        ) && unavailable[j] == answer_for(coords, layers, unavailable[j].name()) by {
            if j < rest_unavailable.len() {
                assert(rest.contains(rest_unavailable[j].name()));
            }
        }
        assert forall|i: int| 0 <= i < names.len() implies decoded.contains(
            answer_for(coords, layers, #[trigger] names[i]),
        ) || unavailable.contains(answer_for(coords, layers, names[i])) by {
            let answer = answer_for(coords, layers, names[i]);
            if i < rest.len() {
                assert(rest[i] == names[i]);
                if rest_decoded.contains(answer) {
                    let j = choose|j: int| 0 <= j < rest_decoded.len() && rest_decoded[j] == answer;
                    assert(decoded[j] == answer);
                } else {
                    let j = choose|j: int|
                        0 <= j < rest_unavailable.len() && rest_unavailable[j] == answer;
                    assert(unavailable[j] == answer);
                }
            } else if geometry_of(layers, last) is Some {
                assert(decoded[decoded.len() - 1] == answer);
            } else {
                assert(unavailable[unavailable.len() - 1] == answer);
            }
        }
    }
}

/// Every requested layer gets its own answer, and nothing else is said:
/// there are as many messages as requested layers, each is the answer for
/// one requested layer, and each requested layer has its answer among them.
/// So a layer that fails shows as one notice for this layer, beside the
/// decoded layers of the others.
pub proof fn lemma_one_answer_for_each_layer(
    request: TileRequestView,
    layers: Seq<ProcessedLayerView>,
)
    ensures
        layer_messages(request, layers).len() == request.layers.len(),
        answers_only(layer_messages(request, layers), request.coords, layers, request.layers),
        forall|i: int|
            0 <= i < request.layers.len() ==> layer_messages(request, layers).contains(
                answer_for(request.coords, layers, #[trigger] request.layers[i]),
            ),
{
    let decoded = decoded_messages(request, layers);
    let unavailable = unavailable_messages(request, layers);
    let messages = layer_messages(request, layers);
    lemma_answers_split(request.coords, layers, request.layers);
    assert(answers_only(messages, request.coords, layers, request.layers));
    assert forall|i: int| 0 <= i < request.layers.len() implies messages.contains(
        answer_for(request.coords, layers, #[trigger] request.layers[i]),
    ) by {
        let answer = answer_for(request.coords, layers, request.layers[i]);
        if decoded.contains(answer) {
            let j = choose|j: int| 0 <= j < decoded.len() && decoded[j] == answer;
            assert(messages[j] == answer);
        } else {
            let j = choose|j: int| 0 <= j < unavailable.len() && unavailable[j] == answer;
            assert(messages[j + decoded.len()] == answer);
        }
    }
}

/// When nothing was processed, every requested layer is reported
/// unavailable, in the order of the request.
pub proof fn lemma_nothing_processed(request: TileRequestView)
    ensures
        layer_messages(request, Seq::empty()) == request.layers.map_values(
            |name: Seq<char>|
                MessageView::LayerUnavailable(
                    LayerUnavailableView { coords: request.coords, name },
                ),
        ),
{
    lemma_all_unavailable(request.coords, request.layers);
}

proof fn lemma_all_unavailable(coords: TileCoordinate, names: Seq<Seq<char>>)
    ensures
        names.filter_map(|name: Seq<char>| decoded_message(coords, Seq::empty(), name))
            == Seq::<MessageView>::empty(),
        names.filter_map(|name: Seq<char>| unavailable_message(coords, Seq::empty(), name))
            == names.map_values(
            |name: Seq<char>|
                MessageView::LayerUnavailable(LayerUnavailableView { coords, name }),
        ),
    decreases names.len(),
{
    if names.len() > 0 {
        lemma_all_unavailable(coords, names.drop_last());
    }
}

/// Where a procedure stands, and what it asks for, after `sent` messages
/// of `outbox` went out without fault.
pub open spec fn after_sends(
    outbox: Seq<MessageView>,
    outcome: Result<(), ProcedureError>,
    sent: nat,
) -> (ProcedureView, ActionView)
    decreases sent,
{
    if sent == 0 {
        sending(outbox, outcome)
    } else {
        stepped(after_sends(outbox, outcome, (sent - 1) as nat).0, EventView::Sent(Ok(())))
    }
}

/// Messages go out one at a time, in their order, and the procedure ends
/// when the last is out: after `sent` deliveries the procedure asks for the
/// delivery of the next message, and after the last for the end with the
/// outcome that was set.
pub proof fn lemma_messages_go_out_in_order(
    outbox: Seq<MessageView>,
    outcome: Result<(), ProcedureError>,
    sent: nat,
)
    requires
        sent <= outbox.len(),
    ensures
        after_sends(outbox, outcome, sent) == if sent < outbox.len() {
            (
                ProcedureView::Sending { outbox: outbox.skip(sent as int + 1), outcome },
                ActionView::Send(outbox[sent as int]),
            )
        } else {
            finished(outcome)
        },
    decreases sent,
{
    if sent > 0 {
        lemma_messages_go_out_in_order(outbox, outcome, (sent - 1) as nat);
        let rest = outbox.skip(sent as int);
        if sent < outbox.len() {
            assert(rest.skip(1) =~= outbox.skip(sent as int + 1));
        }
    }
}

} // verus!
