use pvoutput_sync::solar_data::SolarData;
use pvoutput_sync::store::SampleStore;

fn reading_for(device_id: u8, tracker_id: u8, timestamp: u64) -> SolarData {
    SolarData {
        id: 0,
        device_id,
        tracker_id,
        timestamp,
        energy_generation: 5,
        power_generation: 100,
        temperature: "20.5".to_string(),
        voltage: "231".to_string(),
    }
}

fn store_with(count: u64, device_id: u8, tracker_id: u8) -> SampleStore {
    let mut store = SampleStore::new();
    for k in 0..count {
        store.insert(reading_for(device_id, tracker_id, 1705320000 + 60 * k)).unwrap();
    }
    store
}

fn ids(batch: &[SolarData]) -> Vec<u64> {
    batch.iter().map(|s| s.id).collect()
}

fn flags(store: &SampleStore) -> Vec<Option<bool>> {
    (0..=store.len() as u64 + 1).map(|id| store.is_uploaded(id)).collect()
}

#[test]
fn a_new_store_is_empty() {
    let store = SampleStore::new();
    assert_eq!(store.len(), 0);
    assert_eq!(store.is_uploaded(1), None);
    assert!(store.select_pending(2, 1, 30).is_empty());
}

#[test]
fn ids_are_given_in_order_from_one() {
    let mut store = SampleStore::new();
    let mut given = reading_for(2, 1, 10);
    given.id = 77;
    assert_eq!(store.insert(given), Some(1));
    assert_eq!(store.insert(reading_for(3, 1, 11)), Some(2));
    assert_eq!(store.insert(reading_for(2, 1, 12)), Some(3));
    assert_eq!(store.len(), 3);
    assert_eq!(store.is_uploaded(1), Some(false));
    assert_eq!(store.is_uploaded(4), None);
    let batch = store.select_pending(2, 1, 30);
    assert_eq!(ids(&batch), vec![1, 3]);
    assert_eq!(batch[0].timestamp, 10);
    assert_eq!(batch[1].timestamp, 12);
    assert_eq!(batch[0].temperature, "20.5");
}

#[test]
fn selection_never_exceeds_the_limit() {
    let store = store_with(35, 2, 1);
    let batch = store.select_pending(2, 1, 30);
    assert_eq!(ids(&batch), (1..=30).collect::<Vec<u64>>());
    assert_eq!(store.select_pending(2, 1, 0).len(), 0);
    assert_eq!(ids(&store.select_pending(2, 1, 1)), vec![1]);
    assert_eq!(store.select_pending(2, 1, 35).len(), 35);
    assert_eq!(store.select_pending(2, 1, usize::MAX).len(), 35);
}

#[test]
fn selection_keeps_to_the_tracker() {
    let mut store = SampleStore::new();
    for k in 0..9u64 {
        let (device, tracker) = [(2, 1), (2, 2), (3, 1)][(k % 3) as usize];
        store.insert(reading_for(device, tracker, k)).unwrap();
    }
    assert_eq!(ids(&store.select_pending(2, 1, 30)), vec![1, 4, 7]);
    assert_eq!(ids(&store.select_pending(2, 2, 30)), vec![2, 5, 8]);
    assert_eq!(ids(&store.select_pending(3, 1, 30)), vec![3, 6, 9]);
    assert!(store.select_pending(3, 2, 30).is_empty());
}

#[test]
fn commit_marks_exactly_the_given_ids() {
    let mut store = store_with(6, 2, 1);
    store.mark_uploaded(&vec![5, 2, 40]);
    assert_eq!(
        flags(&store),
        vec![None, Some(false), Some(true), Some(false), Some(false), Some(true), Some(false), None]
    );
    assert_eq!(ids(&store.select_pending(2, 1, 30)), vec![1, 3, 4, 6]);
    assert_eq!(store.len(), 6);
}

#[test]
fn commit_of_nothing_changes_nothing() {
    let mut store = store_with(3, 2, 1);
    let before = store.clone();
    store.mark_uploaded(&vec![]);
    assert_eq!(store, before);
}

#[test]
fn commit_twice_is_commit_once() {
    let mut once = store_with(8, 2, 1);
    let mut twice = once.clone();
    let batch = vec![1, 2, 3, 7];
    once.mark_uploaded(&batch);
    twice.mark_uploaded(&batch);
    twice.mark_uploaded(&batch);
    assert_eq!(once, twice);
}

#[test]
fn uploaded_never_goes_back() {
    let mut store = store_with(4, 2, 1);
    store.mark_uploaded(&vec![1, 2]);
    store.mark_uploaded(&vec![3]);
    assert_eq!(flags(&store)[1..5], [Some(true), Some(true), Some(true), Some(false)]);
}

#[test]
fn commit_leaves_the_samples_as_they_were() {
    let mut store = store_with(3, 2, 1);
    let before = store.select_pending(2, 1, 30);
    store.mark_uploaded(&vec![1]);
    let after = store.select_pending(2, 1, 30);
    assert_eq!(after, before[1..].to_vec());
}

#[test]
fn cycles_drain_in_ascending_id_order() {
    let mut store = SampleStore::new();
    for k in 0..70u64 {
        let tracker = if k % 7 == 0 { 2 } else { 1 };
        store.insert(reading_for(2, tracker, k)).unwrap();
    }
    let waiting = ids(&store.select_pending(2, 1, usize::MAX));
    let other = store.select_pending(2, 2, usize::MAX);
    let mut delivered: Vec<u64> = Vec::new();
    let mut cycles = 0;
    loop {
        let batch = store.select_pending(2, 1, 30);
        if batch.is_empty() {
            break;
        }
        assert!(batch.len() <= 30);
        delivered.extend(ids(&batch));
        store.mark_uploaded(&ids(&batch));
        cycles += 1;
    }
    assert_eq!(cycles, 2);
    assert_eq!(delivered, waiting);
    assert!(delivered.windows(2).all(|w| w[0] < w[1]));
    assert_eq!(store.select_pending(2, 2, usize::MAX), other);
}
