use julie_extract_artifact::resolution_buffer::{BufferedOp, KeyedOp, WriteBuffer};

fn collapsed(records: &[(&str, Option<u32>)]) -> Vec<(String, Option<u32>)> {
    let mut buffer = WriteBuffer::new();
    for (key, op) in records {
        let op = match op {
            Some(v) => BufferedOp::Upsert(*v),
            None => BufferedOp::Demote,
        };
        buffer.record(key.to_string(), op);
    }
    buffer
        .collapse()
        .into_iter()
        .map(|KeyedOp { key, op }| {
            let op = match op {
                BufferedOp::Upsert(v) => Some(v),
                BufferedOp::Demote => None,
            };
            (key, op)
        })
        .collect()
}

#[test]
fn each_key_keeps_its_last_operation_in_key_order() {
    let out = collapsed(&[("b", Some(1)), ("a", Some(2)), ("b", Some(3)), ("c", None)]);
    assert_eq!(
        out,
        vec![("a".to_string(), Some(2)), ("b".to_string(), Some(3)), ("c".to_string(), None)]
    );
}

#[test]
fn recorded_then_demoted_writes_a_delete_and_the_reverse_an_upsert() {
    assert_eq!(collapsed(&[("k", Some(7)), ("k", None)]), vec![("k".to_string(), None)]);
    assert_eq!(collapsed(&[("k", None), ("k", Some(7))]), vec![("k".to_string(), Some(7))]);
}

#[test]
fn the_order_of_different_keys_does_not_matter() {
    let one = collapsed(&[("x", Some(1)), ("y", Some(2)), ("x", None)]);
    let other = collapsed(&[("y", Some(2)), ("x", Some(1)), ("x", None)]);
    assert_eq!(one, other);
}

#[test]
fn an_empty_buffer_collapses_to_nothing() {
    let buffer: WriteBuffer<u32> = WriteBuffer::new();
    assert!(buffer.is_empty());
    assert!(buffer.collapse().is_empty());
}
