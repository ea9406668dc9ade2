use papyrus_network::executor::execute_query;
use papyrus_network::wire::{
    decode_data_or_fin,
    decode_frame,
    decode_query,
    encode_data_or_fin,
    encode_frame,
    encode_query,
    DataOrFin,
    Direction,
    Query,
};

fn sample_query() -> Query {
    Query {
        start_block: 7,
        start_block_hash: Some(vec![0xabu8; 32]),
        limit: 64,
        direction: Direction::Backward,
        step: 2,
    }
}

#[test]
fn query_round_trips_with_hash() {
    let q = sample_query();
    let bytes = encode_query(&q);
    assert_eq!(decode_query(&bytes), Some(q));
}

#[test]
fn query_round_trips_without_hash() {
    let q = Query {
        start_block: 0,
        start_block_hash: None,
        limit: 3,
        direction: Direction::Forward,
        step: 1,
    };
    let bytes = encode_query(&q);
    assert_eq!(bytes.len(), 26);
    assert_eq!(decode_query(&bytes), Some(q));
}

#[test]
fn truncated_query_is_rejected() {
    let q = sample_query();
    let mut bytes = encode_query(&q);
    bytes.pop();
    assert_eq!(decode_query(&bytes), None);
}

#[test]
fn fin_is_the_empty_payload() {
    assert_eq!(encode_data_or_fin(DataOrFin::Fin), Vec::<u8>::new());
    assert_eq!(decode_data_or_fin(Vec::new()), DataOrFin::Fin);
    let d = DataOrFin::Data(vec![9, 8, 7]);
    assert_eq!(decode_data_or_fin(encode_data_or_fin(d.clone())), d);
}

#[test]
fn frame_envelope_round_trips() {
    let payload = vec![1u8, 2, 3, 4, 5];
    let framed = encode_frame(&payload);
    let (back, next) = decode_frame(&framed, 0).unwrap();
    assert_eq!(back, payload);
    assert_eq!(next, framed.len());
    // an incomplete buffer holds no frame
    let partial: Vec<u8> = framed[..framed.len() - 1].to_vec();
    assert!(decode_frame(&partial, 0).is_none());
}

fn store_of(n: usize) -> Vec<Vec<u8>> {
    (0..n).map(|i| vec![i as u8 + 1]).collect()
}

fn query(start: u64, limit: u64) -> Query {
    Query { start_block: start, start_block_hash: None, limit, direction: Direction::Forward, step: 1 }
}

#[test]
fn limit_zero_yields_exactly_one_fin() {
    let out = execute_query(&query(0, 0), &store_of(5), 100);
    assert_eq!(out, vec![DataOrFin::Fin]);
}

#[test]
fn full_range_is_streamed_then_fin() {
    let out = execute_query(&query(0, 3), &store_of(3), 100000);
    assert_eq!(
        out,
        vec![
            DataOrFin::Data(vec![1]),
            DataOrFin::Data(vec![2]),
            DataOrFin::Data(vec![3]),
            DataOrFin::Fin,
        ]
    );
}

#[test]
fn truncated_store_ends_early_with_fin() {
    let out = execute_query(&query(0, 100), &store_of(1), 100);
    assert_eq!(out, vec![DataOrFin::Data(vec![1]), DataOrFin::Fin]);
}

#[test]
fn zero_read_ahead_still_terminates_with_same_answer() {
    let q = query(1, 10);
    let store = store_of(6);
    let unbuffered = execute_query(&q, &store, 0);
    let buffered = execute_query(&q, &store, 100000);
    assert_eq!(unbuffered, buffered);
    assert_eq!(unbuffered.len(), 6);
    assert_eq!(unbuffered.last(), Some(&DataOrFin::Fin));
}

#[test]
fn backward_walk_with_step() {
    let q = Query {
        start_block: 4,
        start_block_hash: None,
        limit: 3,
        direction: Direction::Backward,
        step: 2,
    };
    let out = execute_query(&q, &store_of(5), 1);
    assert_eq!(
        out,
        vec![
            DataOrFin::Data(vec![5]),
            DataOrFin::Data(vec![3]),
            DataOrFin::Data(vec![1]),
            DataOrFin::Fin,
        ]
    );
}

#[test]
fn zero_step_query_is_out_of_bounds_and_gets_fin() {
    let q = Query {
        start_block: 0,
        start_block_hash: None,
        limit: 5,
        direction: Direction::Forward,
        step: 0,
    };
    let out = execute_query(&q, &store_of(5), 10);
    assert_eq!(out, vec![DataOrFin::Fin]);
}

#[test]
fn start_beyond_store_gets_fin_only() {
    let out = execute_query(&query(10, 5), &store_of(3), 10);
    assert_eq!(out, vec![DataOrFin::Fin]);
}
