use maplibre::coords::TileCoordinate;
use maplibre::layers::LayerSet;
use maplibre::procedure::{
    build_layer_messages, Action, Event, ExecutionError, FetchError, PipelineError,
    PipelineStage, Procedure, ProcedureError, ProcessedLayer, SendError,
};
use maplibre::request_stage::schedule;
use maplibre::transfer::{DecodedLayer, Input, LayerUnavailable, Message, TileRequest};

fn coords() -> TileCoordinate {
    TileCoordinate::new(1, 2, 3)
}

fn request(names: &[&str]) -> TileRequest {
    TileRequest {
        coords: coords(),
        layers: LayerSet::from_names(names.iter().map(|name| name.to_string()).collect()),
    }
}

fn decoded(name: &str, geometry: &[u8]) -> Message {
    Message::DecodedLayer(DecodedLayer {
        coords: coords(),
        name: name.to_string(),
        geometry: geometry.to_vec(),
    })
}

fn unavailable(name: &str) -> Message {
    Message::LayerUnavailable(LayerUnavailable { coords: coords(), name: name.to_string() })
}

fn processed(name: &str, geometry: Option<&[u8]>) -> ProcessedLayer {
    ProcessedLayer { name: name.to_string(), geometry: geometry.map(|bytes| bytes.to_vec()) }
}

/// Runs the procedure to its end with sends that succeed, and gives the
/// messages sent and the outcome.
fn run_sends(mut state: Procedure, mut action: Action) -> (Vec<Message>, Result<(), ProcedureError>) {
    let mut sent = Vec::new();
    loop {
        match action {
            Action::Send(message) => {
                sent.push(message);
                let next = state.step(Event::Sent(Ok(())));
                state = next.0;
                action = next.1;
            }
            Action::Finish(outcome) => {
                assert_eq!(state.outcome(), Some(outcome));
                return (sent, outcome);
            }
            other => panic!("unexpected action {:?}", other),
        }
    }
}

#[test]
fn failed_layer_does_not_take_its_sibling_along() {
    let (state, action) = schedule(Input::TileRequest(request(&["water", "roads"])));
    assert_eq!(action, Action::Fetch(coords()));
    assert_eq!(state.outcome(), None);
    let (state, action) = state.step(Event::Fetched(Ok(vec![1, 2, 3])));
    assert_eq!(
        action,
        Action::Process { request: request(&["water", "roads"]), payload: vec![1, 2, 3] }
    );
    let (state, action) = state.step(Event::Processed(Ok(vec![
        processed("water", Some(&[7, 8])),
        processed("roads", None),
    ])));
    let (sent, outcome) = run_sends(state, action);
    assert_eq!(sent, vec![decoded("water", &[7, 8]), unavailable("roads")]);
    assert_eq!(outcome, Ok(()));
}

#[test]
fn decoded_layers_are_sent_before_notices() {
    let messages = build_layer_messages(
        &request(&["parks", "water", "roads", "labels"]),
        &vec![
            processed("roads", Some(&[1])),
            processed("extra", Some(&[2])),
            processed("water", None),
            processed("labels", Some(&[])),
            processed("roads", Some(&[9, 9])),
        ],
    );
    let messages: Vec<Message> = messages.into_iter().collect();
    assert_eq!(
        messages,
        vec![decoded("roads", &[1]), decoded("labels", &[]), unavailable("parks"), unavailable("water")]
    );
}

#[test]
fn first_outcome_of_a_name_decides() {
    let messages = build_layer_messages(
        &request(&["water"]),
        &vec![processed("water", None), processed("water", Some(&[1]))],
    );
    let messages: Vec<Message> = messages.into_iter().collect();
    assert_eq!(messages, vec![unavailable("water")]);
}

#[test]
fn request_without_layers_gets_no_message() {
    let messages = build_layer_messages(&request(&[]), &vec![processed("water", Some(&[1]))]);
    assert!(messages.is_empty());
    let (state, _) = schedule(Input::TileRequest(request(&[])));
    let (state, _) = state.step(Event::Fetched(Ok(vec![1])));
    let (state, action) = state.step(Event::Processed(Ok(Vec::new())));
    assert_eq!(action, Action::Finish(Ok(())));
    assert_eq!(state.outcome(), Some(Ok(())));
}

#[test]
fn failed_fetch_reports_every_layer_unavailable() {
    let (state, _) = schedule(Input::TileRequest(request(&["water", "roads"])));
    let (state, action) = state.step(Event::Fetched(Err(FetchError::Timeout)));
    let (sent, outcome) = run_sends(state, action);
    assert_eq!(sent, vec![unavailable("water"), unavailable("roads")]);
    assert_eq!(
        outcome,
        Err(ProcedureError::Execution(ExecutionError::Fetch(FetchError::Timeout)))
    );
}

#[test]
fn each_fetch_error_is_passed_on() {
    for error in [FetchError::Timeout, FetchError::NotFound, FetchError::Transport] {
        let (state, _) = schedule(Input::TileRequest(request(&[])));
        let (_, action) = state.step(Event::Fetched(Err(error)));
        assert_eq!(
            action,
            Action::Finish(Err(ProcedureError::Execution(ExecutionError::Fetch(error))))
        );
    }
}

#[test]
fn payload_that_cannot_be_processed_ends_the_work() {
    for stage in [PipelineStage::Decode, PipelineStage::Tessellate] {
        let (state, _) = schedule(Input::TileRequest(request(&["water", "roads"])));
        let (state, _) = state.step(Event::Fetched(Ok(vec![0xff])));
        let (state, action) = state.step(Event::Processed(Err(PipelineError { stage })));
        let (sent, outcome) = run_sends(state, action);
        assert_eq!(sent, vec![unavailable("water"), unavailable("roads")]);
        assert_eq!(
            outcome,
            Err(ProcedureError::Execution(ExecutionError::Pipeline(PipelineError { stage })))
        );
    }
}

#[test]
fn input_of_another_kind_is_refused() {
    let (state, action) = schedule(Input::NotYetImplemented);
    assert_eq!(action, Action::Finish(Err(ProcedureError::IncompatibleInput)));
    assert_eq!(state.outcome(), Some(Err(ProcedureError::IncompatibleInput)));
    let (state, action) = Procedure::start(Input::NotYetImplemented);
    assert_eq!(action, Action::Finish(Err(ProcedureError::IncompatibleInput)));
    // A finished procedure stays finished.
    let (state, action) = state.step(Event::Fetched(Ok(vec![1])));
    assert_eq!(action, Action::Finish(Err(ProcedureError::IncompatibleInput)));
    assert_eq!(state.outcome(), Some(Err(ProcedureError::IncompatibleInput)));
}

#[test]
fn failed_send_ends_the_procedure() {
    let (state, _) = schedule(Input::TileRequest(request(&["water", "roads"])));
    let (state, _) = state.step(Event::Fetched(Ok(vec![1])));
    let (state, action) = state.step(Event::Processed(Ok(vec![
        processed("water", Some(&[1])),
        processed("roads", Some(&[2])),
    ])));
    assert_eq!(action, Action::Send(decoded("water", &[1])));
    assert_eq!(state.outcome(), None);
    let (state, action) = state.step(Event::Sent(Err(SendError {})));
    assert_eq!(action, Action::Finish(Err(ProcedureError::Send(SendError {}))));
    assert_eq!(state.outcome(), Some(Err(ProcedureError::Send(SendError {}))));
}

#[test]
fn event_out_of_turn_is_refused() {
    let (state, _) = schedule(Input::TileRequest(request(&["water"])));
    let (state, action) = state.step(Event::Sent(Ok(())));
    assert_eq!(action, Action::Finish(Err(ProcedureError::IncompatibleInput)));
    assert_eq!(state.outcome(), Some(Err(ProcedureError::IncompatibleInput)));

    let (state, _) = schedule(Input::TileRequest(request(&["water"])));
    let (state, _) = state.step(Event::Fetched(Ok(vec![1])));
    let (_, action) = state.step(Event::Fetched(Ok(vec![1])));
    assert_eq!(action, Action::Finish(Err(ProcedureError::IncompatibleInput)));

    let (state, _) = schedule(Input::TileRequest(request(&["water"])));
    let (state, _) = state.step(Event::Fetched(Ok(vec![1])));
    let (state, _) = state.step(Event::Processed(Ok(Vec::new())));
    let (_, action) = state.step(Event::Processed(Ok(Vec::new())));
    assert_eq!(action, Action::Finish(Err(ProcedureError::IncompatibleInput)));
}

#[test]
fn finished_procedure_keeps_its_outcome() {
    let (state, _) = schedule(Input::TileRequest(request(&[])));
    let (state, _) = state.step(Event::Fetched(Ok(vec![1])));
    let (state, action) = state.step(Event::Processed(Ok(Vec::new())));
    assert_eq!(action, Action::Finish(Ok(())));
    let (state, action) = state.step(Event::Sent(Err(SendError {})));
    assert_eq!(action, Action::Finish(Ok(())));
    assert_eq!(state.outcome(), Some(Ok(())));
}
