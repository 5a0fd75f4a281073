use maplibre::coords::TileCoordinate;
use maplibre::layers::LayerSet;
use maplibre::procedure::{build_layer_messages, ProcessedLayer};
use maplibre::store::{TileState, TileStateStore};
use maplibre::transfer::{DecodedLayer, TileRequest};

fn tile() -> TileCoordinate {
    TileCoordinate::new(1, 2, 3)
}

fn water_and_roads() -> TileRequest {
    TileRequest {
        coords: tile(),
        layers: LayerSet::from_names(vec!["water".to_string(), "roads".to_string()]),
    }
}

fn outcome(name: &str, geometry: Option<Vec<u8>>) -> ProcessedLayer {
    ProcessedLayer { name: name.to_string(), geometry }
}

#[test]
fn answer_with_a_decoded_layer_makes_the_tile_ready() {
    let mut store = TileStateStore::new();
    let neighbour = TileCoordinate::new(2, 2, 3);
    store.mark_pending(&tile()).unwrap();
    store.mark_pending(&neighbour).unwrap();
    // The failed layer comes first in what was processed; the decoded one is
    // sent first all the same.
    let messages = build_layer_messages(
        &water_and_roads(),
        &vec![outcome("roads", None), outcome("water", Some(vec![4, 5]))],
    );
    assert_eq!(messages.len(), 2);
    assert_eq!(store.apply_all(messages), 1);
    assert_eq!(store.state(&tile()), Some(TileState::Ready));
    assert_eq!(
        store.ready_layers(&tile()),
        Some(&vec![DecodedLayer { coords: tile(), name: "water".to_string(), geometry: vec![4, 5] }])
    );
    assert_eq!(store.state(&neighbour), Some(TileState::Pending));
}

#[test]
fn answer_without_a_decoded_layer_makes_the_tile_unavailable() {
    let mut store = TileStateStore::new();
    store.mark_pending(&tile()).unwrap();
    let messages = build_layer_messages(&water_and_roads(), &vec![outcome("water", None)]);
    assert_eq!(store.apply_all(messages), 2);
    assert_eq!(store.state(&tile()), Some(TileState::Unavailable));
    assert!(store.needs_fetch(&tile()));
}

#[test]
fn answer_for_a_tile_that_is_not_pending_is_dropped() {
    let mut store = TileStateStore::new();
    let messages = build_layer_messages(
        &water_and_roads(),
        &vec![outcome("water", Some(vec![1])), outcome("roads", Some(vec![2]))],
    );
    assert_eq!(store.apply_all(messages), 0);
    assert_eq!(store.state(&tile()), None);
    assert_eq!(store.apply_all(std::collections::VecDeque::new()), 0);
}

#[test]
fn answer_that_comes_twice_changes_nothing_the_second_time() {
    let mut store = TileStateStore::new();
    store.mark_pending(&tile()).unwrap();
    let processed = vec![outcome("water", Some(vec![1])), outcome("roads", Some(vec![2]))];
    assert_eq!(store.apply_all(build_layer_messages(&water_and_roads(), &processed)), 2);
    assert_eq!(store.apply_all(build_layer_messages(&water_and_roads(), &processed)), 0);
    assert_eq!(store.state(&tile()), Some(TileState::Ready));
    assert_eq!(store.ready_layers(&tile()).map(|layers| layers.len()), Some(2));
}
