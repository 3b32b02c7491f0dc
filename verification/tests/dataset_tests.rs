//! Tests of the dataset sources.

use petridish::dataset::{DatasetHandler, EmptyDataset, ValueDataset};

#[test]
fn test_empty_dataset_emission() {
    let mut ds = DatasetHandler::Empty(EmptyDataset::new(3));
    ds.prepare();
    let mut count = 0;
    while let Some(rec) = ds.get_next_data() {
        assert!(rec.is_empty());
        count += 1;
    }
    assert_eq!(count, 3);
    // Prepared again, the stream replays in full.
    ds.prepare();
    assert!(ds.get_next_data().is_some());
}

#[test]
fn test_value_dataset_replays_records() {
    let records = vec![vec![1i64, 2], vec![3i64]];
    let mut ds = DatasetHandler::Values(ValueDataset::new(records));
    ds.prepare();
    assert_eq!(ds.get_next_data().unwrap(), vec![1i64, 2]);
    assert_eq!(ds.get_next_data().unwrap(), vec![3i64]);
    assert!(ds.get_next_data().is_none());
}
