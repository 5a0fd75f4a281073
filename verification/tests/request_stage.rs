use maplibre::apc::{AsyncProcedureCall, TaskQueue};
use maplibre::coords::TileCoordinate;
use maplibre::layers::LayerSet;
use maplibre::procedure::{Action, Event, ExecutionError, FetchError, ProcedureError};
use maplibre::request_stage::{schedule, MapContext, RequestReport, RequestStage};
use maplibre::store::{TileState, TileStateStore};
use maplibre::style::{Style, StyleLayer};
use maplibre::transfer::{DecodedLayer, Input, TileRequest};
use maplibre::view::{CameraPose, Footprint, ViewRegion, ViewState, Zoom};

const TILE_AT_3: i64 = 1 << 27;

fn style() -> Style {
    Style::new(vec![
        StyleLayer { id: "rivers".to_string(), source_layer: Some("water".to_string()) },
        StyleLayer { id: "background".to_string(), source_layer: None },
        StyleLayer { id: "streets".to_string(), source_layer: Some("roads".to_string()) },
        StyleLayer { id: "lakes".to_string(), source_layer: Some("water".to_string()) },
    ])
}

fn layers() -> LayerSet {
    LayerSet::from_names(vec!["water".to_string(), "roads".to_string()])
}

fn request(x: i32, y: i32, z: u8) -> Input {
    Input::TileRequest(TileRequest { coords: TileCoordinate::new(x, y, z), layers: layers() })
}

fn stage() -> RequestStage<TaskQueue<u8>, u8> {
    RequestStage::new(7, TaskQueue::new())
}

fn drain(stage: &mut RequestStage<TaskQueue<u8>, u8>) -> Vec<Input> {
    let mut inputs = Vec::new();
    while let Some(task) = stage.apc.next_task() {
        assert_eq!(task.client, 7);
        inputs.push(task.input);
    }
    inputs
}

/// A view at zoom 3 that sees exactly the tile (1, 2, 3).
fn context() -> MapContext {
    let footprint = Footprint {
        min_x: TILE_AT_3,
        min_y: 2 * TILE_AT_3,
        max_x: 2 * TILE_AT_3 - 1,
        max_y: 3 * TILE_AT_3 - 1,
    };
    let camera = CameraPose { x: 0, y: 0, z: 1000, yaw: 0, pitch: 0 };
    MapContext {
        view_state: ViewState::new(Zoom::new(3000), camera, Some(footprint)),
        style: style(),
        tile_repository: TileStateStore::new(),
    }
}

#[test]
fn new_stage_holds_what_it_was_given() {
    let mut stage: RequestStage<TaskQueue<u8>, u8> = RequestStage::new(42, TaskQueue::new());
    assert_eq!(stage.http_source_client, 42);
    assert_eq!(stage.apc.len(), 0);
    stage.apc.submit(Input::NotYetImplemented, 1);
    assert_eq!(stage.apc.len(), 1);
}

#[test]
fn request_tile_marks_and_submits() {
    let mut stage = stage();
    let mut store = TileStateStore::new();
    let coords = TileCoordinate::new(1, 2, 3);
    assert_eq!(stage.request_tile(&mut store, &coords, &layers()), Ok(true));
    assert_eq!(store.state(&coords), Some(TileState::Pending));
    assert_eq!(drain(&mut stage), vec![request(1, 2, 3)]);
    // Pending: nothing more happens.
    assert_eq!(stage.request_tile(&mut store, &coords, &layers()), Ok(false));
    assert_eq!(store.state(&coords), Some(TileState::Pending));
    assert_eq!(drain(&mut stage), Vec::new());
    // No address: nothing happens either.
    let nowhere = TileCoordinate::new(-1, 2, 3);
    assert_eq!(stage.request_tile(&mut store, &nowhere, &layers()), Ok(false));
    assert_eq!(store.state(&nowhere), None);
    assert_eq!(drain(&mut stage), Vec::new());
}

#[test]
fn every_addressable_tile_in_view_is_examined_once() {
    let mut stage = stage();
    let mut store = TileStateStore::new();
    let region = ViewRegion::new(-1, -1, 2, 1, 1);
    let report = stage.request_tiles_in_view(&mut store, &style(), &region);
    assert_eq!(
        report,
        RequestReport {
            examined: 4,
            dispatched: vec![
                TileCoordinate::new(0, 0, 1),
                TileCoordinate::new(0, 1, 1),
                TileCoordinate::new(1, 0, 1),
                TileCoordinate::new(1, 1, 1),
            ],
        }
    );
    assert_eq!(
        drain(&mut stage),
        vec![request(0, 0, 1), request(0, 1, 1), request(1, 0, 1), request(1, 1, 1)]
    );
    for coords in report.dispatched.iter() {
        assert_eq!(store.state(coords), Some(TileState::Pending));
    }
    assert_eq!(store.state(&TileCoordinate::new(-1, 0, 1)), None);
    assert_eq!(store.state(&TileCoordinate::new(2, 0, 1)), None);
}

#[test]
fn only_tiles_that_need_fetching_are_dispatched() {
    let mut stage = stage();
    let mut store = TileStateStore::new();
    let pending = TileCoordinate::new(0, 1, 1);
    let ready = TileCoordinate::new(1, 0, 1);
    let unavailable = TileCoordinate::new(1, 1, 1);
    store.mark_pending(&pending).unwrap();
    store.mark_pending(&ready).unwrap();
    store.mark_ready(
        &ready,
        DecodedLayer { coords: ready, name: "water".to_string(), geometry: vec![1] },
    );
    store.mark_pending(&unavailable).unwrap();
    store.mark_unavailable(&unavailable, "water".to_string());
    let region = ViewRegion::new(0, 0, 1, 1, 1);
    let report = stage.request_tiles_in_view(&mut store, &style(), &region);
    assert_eq!(report.examined, 4);
    assert_eq!(report.dispatched, vec![TileCoordinate::new(0, 0, 1), unavailable]);
    assert_eq!(drain(&mut stage), vec![request(0, 0, 1), request(1, 1, 1)]);
    assert_eq!(store.state(&pending), Some(TileState::Pending));
    assert_eq!(store.state(&ready), Some(TileState::Ready));
    assert_eq!(store.state(&unavailable), Some(TileState::Pending));
    // A second pass finds nothing left to request.
    let report = stage.request_tiles_in_view(&mut store, &style(), &region);
    assert_eq!(report, RequestReport { examined: 4, dispatched: Vec::new() });
    assert_eq!(drain(&mut stage), Vec::new());
}

#[test]
fn region_off_the_grid_examines_nothing() {
    let mut stage = stage();
    let mut store = TileStateStore::new();
    for region in [
        ViewRegion::new(8, 0, 9, 3, 3),
        ViewRegion::new(-5, 0, -1, 3, 3),
        ViewRegion::new(0, 8, 3, i32::MAX, 3),
        ViewRegion::new(3, 3, 2, 3, 3),
        ViewRegion::new(0, 0, 0, 0, 31),
        ViewRegion::new(i32::MIN, i32::MIN, i32::MAX, -1, 30),
    ] {
        let report = stage.request_tiles_in_view(&mut store, &style(), &region);
        assert_eq!(report, RequestReport { examined: 0, dispatched: Vec::new() });
    }
    assert_eq!(drain(&mut stage), Vec::new());
}

#[test]
fn region_is_clipped_to_the_grid() {
    let mut stage = stage();
    let mut store = TileStateStore::new();
    let region = ViewRegion::new(6, -3, i32::MAX, 0, 3);
    let report = stage.request_tiles_in_view(&mut store, &style(), &region);
    assert_eq!(report.examined, 2);
    assert_eq!(
        report.dispatched,
        vec![TileCoordinate::new(6, 0, 3), TileCoordinate::new(7, 0, 3)]
    );
}

#[test]
fn run_requests_what_is_in_view() {
    let mut stage = stage();
    let mut context = context();
    let report = stage.run(&mut context);
    assert_eq!(
        report,
        Some(RequestReport { examined: 1, dispatched: vec![TileCoordinate::new(1, 2, 3)] })
    );
    assert_eq!(
        context.tile_repository.state(&TileCoordinate::new(1, 2, 3)),
        Some(TileState::Pending)
    );
    assert_eq!(drain(&mut stage), vec![request(1, 2, 3)]);
    assert_eq!(context.view_state.camera.reference_value, Some(context.view_state.camera.inner));
    assert_eq!(context.view_state.zoom.reference_value, Some(Zoom::new(3000)));
}

#[test]
fn run_without_view_region_requests_nothing() {
    let mut stage = stage();
    let mut context = context();
    context.view_state.footprint = None;
    assert_eq!(stage.run(&mut context), None);
    assert_eq!(drain(&mut stage), Vec::new());
    // The references move all the same.
    assert_eq!(context.view_state.zoom.reference_value, Some(Zoom::new(3000)));
    assert_eq!(context.view_state.camera.reference_value, Some(context.view_state.camera.inner));
    // So the next run, with a footprint but no move, requests nothing.
    context.view_state.footprint = Some(Footprint { min_x: 0, min_y: 0, max_x: 1, max_y: 1 });
    assert_eq!(stage.run(&mut context), None);
    assert_eq!(drain(&mut stage), Vec::new());
}

#[test]
fn small_moves_request_nothing_even_if_tiles_are_missing() {
    let mut stage = stage();
    let mut context = context();
    let coords = TileCoordinate::new(1, 2, 3);
    assert!(stage.run(&mut context).is_some());
    drain(&mut stage);
    // The fetch fails: the tile is missing and may be fetched again.
    assert!(context.tile_repository.mark_unavailable(&coords, "water".to_string()));
    assert!(context.tile_repository.needs_fetch(&coords));
    // The camera moves by 0.01, the threshold is 0.05.
    let mut camera = context.view_state.camera.inner;
    camera.x += 10;
    context.view_state.camera.set(camera);
    assert_eq!(stage.run(&mut context), None);
    assert_eq!(drain(&mut stage), Vec::new());
    assert_eq!(context.tile_repository.state(&coords), Some(TileState::Unavailable));
    // Again 0.01 further: measured against the last frame, not the first.
    for _ in 0..10 {
        camera.x += 10;
        context.view_state.camera.set(camera);
        assert_eq!(stage.run(&mut context), None);
    }
    assert_eq!(drain(&mut stage), Vec::new());
}

#[test]
fn zoom_beyond_its_threshold_requests_again() {
    let mut stage = stage();
    let mut context = context();
    let coords = TileCoordinate::new(1, 2, 3);
    assert!(stage.run(&mut context).is_some());
    drain(&mut stage);
    context.tile_repository.mark_unavailable(&coords, "water".to_string());
    // Exactly the threshold is not enough.
    context.view_state.zoom.set(Zoom::new(3050));
    assert_eq!(stage.run(&mut context), None);
    // More than the threshold is, with the camera standing still.
    context.view_state.zoom.set(Zoom::new(3101));
    let report = stage.run(&mut context);
    assert_eq!(report, Some(RequestReport { examined: 1, dispatched: vec![coords] }));
    assert_eq!(drain(&mut stage), vec![request(1, 2, 3)]);
    assert_eq!(context.tile_repository.state(&coords), Some(TileState::Pending));
}

#[test]
fn camera_beyond_its_threshold_requests_again() {
    let mut stage = stage();
    let mut context = context();
    assert!(stage.run(&mut context).is_some());
    drain(&mut stage);
    let mut camera = context.view_state.camera.inner;
    camera.yaw -= 51;
    context.view_state.camera.set(camera);
    // The tile in view is pending: it is examined, and not requested again.
    assert_eq!(
        stage.run(&mut context),
        Some(RequestReport { examined: 1, dispatched: Vec::new() })
    );
    assert_eq!(drain(&mut stage), Vec::new());
}

#[test]
fn failed_fetch_is_retried_when_the_tile_is_seen_again() {
    let mut stage = stage();
    let mut context = context();
    let coords = TileCoordinate::new(1, 2, 3);
    assert!(context.tile_repository.needs_fetch(&coords));
    let report = stage.run(&mut context).unwrap();
    assert_eq!(report.dispatched, vec![coords]);
    assert_eq!(context.tile_repository.state(&coords), Some(TileState::Pending));
    assert!(!context.tile_repository.needs_fetch(&coords));

    // The substrate runs the procedure; the fetch times out.
    let task = stage.apc.next_task().unwrap();
    let (mut state, mut action) = schedule(task.input);
    assert_eq!(action, Action::Fetch(coords));
    let mut event = Event::Fetched(Err(FetchError::Timeout));
    let mut delivered = 0;
    let outcome = loop {
        let next = state.step(event);
        state = next.0;
        action = next.1;
        match action {
            Action::Send(message) => {
                assert!(context.tile_repository.apply(message));
                delivered += 1;
                event = Event::Sent(Ok(()));
            }
            Action::Finish(outcome) => break outcome,
            other => panic!("unexpected action {:?}", other),
        }
    };
    assert_eq!(delivered, 2);
    assert_eq!(
        outcome,
        Err(ProcedureError::Execution(ExecutionError::Fetch(FetchError::Timeout)))
    );
    assert_eq!(context.tile_repository.state(&coords), Some(TileState::Unavailable));
    assert!(context.tile_repository.needs_fetch(&coords));

    // The same region is looked at again.
    let region = context.view_state.create_view_region().unwrap();
    assert_eq!(region, ViewRegion::new(1, 2, 1, 2, 3));
    let report =
        stage.request_tiles_in_view(&mut context.tile_repository, &context.style, &region);
    assert_eq!(report, RequestReport { examined: 1, dispatched: vec![coords] });
    assert_eq!(drain(&mut stage), vec![request(1, 2, 3)]);
}
