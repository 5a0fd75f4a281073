use std::cell::Cell;

use maplibre::pipeline::{each_layer, in_order, RawLayer};
use maplibre::procedure::{PipelineError, PipelineStage, ProcessedLayer};

fn raw(name: &str, data: &[u8]) -> RawLayer {
    RawLayer { name: name.to_string(), data: data.to_vec() }
}

/// A wire format for trying things out: each layer is a length, a letter
/// for its name, and that many bytes.
fn decode(payload: Vec<u8>) -> Result<Vec<RawLayer>, PipelineError> {
    let mut layers = Vec::new();
    let mut rest = payload.as_slice();
    while !rest.is_empty() {
        let length = rest[0] as usize;
        if rest.len() < 2 + length {
            return Err(PipelineError { stage: PipelineStage::Decode });
        }
        layers.push(RawLayer {
            name: (rest[1] as char).to_string(),
            data: rest[2..2 + length].to_vec(),
        });
        rest = &rest[2 + length..];
    }
    Ok(layers)
}

/// Doubles every byte of a layer, and gives up on a layer without bytes.
fn tessellate(layer: &RawLayer) -> Option<Vec<u8>> {
    if layer.data.is_empty() {
        None
    } else {
        Some(layer.data.iter().map(|byte| byte.wrapping_mul(2)).collect())
    }
}

#[test]
fn stages_run_one_after_the_other() {
    let result = in_order(
        decode,
        |layers: Vec<RawLayer>| Ok(each_layer(&layers, tessellate)),
        vec![2, b'w', 10, 20, 0, b'r', 1, b'p', 7],
    );
    assert_eq!(
        result,
        Ok(vec![
            ProcessedLayer { name: "w".to_string(), geometry: Some(vec![20, 40]) },
            ProcessedLayer { name: "r".to_string(), geometry: None },
            ProcessedLayer { name: "p".to_string(), geometry: Some(vec![14]) },
        ])
    );
}

#[test]
fn stage_that_fails_stops_the_row() {
    let second_ran = Cell::new(false);
    let result: Result<Vec<ProcessedLayer>, PipelineError> = in_order(
        decode,
        |layers: Vec<RawLayer>| {
            second_ran.set(true);
            Ok(each_layer(&layers, tessellate))
        },
        vec![5, b'w', 1],
    );
    assert_eq!(result, Err(PipelineError { stage: PipelineStage::Decode }));
    assert!(!second_ran.get());
}

#[test]
fn failure_of_a_later_stage_is_the_result() {
    let result: Result<u8, PipelineError> = in_order(
        |input: u8| Ok(input + 1),
        |between: u8| {
            if between == 4 {
                Err(PipelineError { stage: PipelineStage::Tessellate })
            } else {
                Ok(between * 2)
            }
        },
        3,
    );
    assert_eq!(result, Err(PipelineError { stage: PipelineStage::Tessellate }));
    let result: Result<u8, PipelineError> =
        in_order(|input: u8| Ok(input + 1), |between: u8| Ok(between * 2), 4);
    assert_eq!(result, Ok(10));
}

#[test]
fn each_layer_keeps_order_and_names() {
    let calls = Cell::new(0);
    let processed = each_layer(
        &vec![raw("water", &[1]), raw("roads", &[]), raw("parks", &[3, 4])],
        |layer: &RawLayer| {
            calls.set(calls.get() + 1);
            tessellate(layer)
        },
    );
    assert_eq!(calls.get(), 3);
    assert_eq!(
        processed,
        vec![
            ProcessedLayer { name: "water".to_string(), geometry: Some(vec![2]) },
            ProcessedLayer { name: "roads".to_string(), geometry: None },
            ProcessedLayer { name: "parks".to_string(), geometry: Some(vec![6, 8]) },
        ]
    );
    assert_eq!(each_layer(&Vec::new(), tessellate), Vec::new());
}
