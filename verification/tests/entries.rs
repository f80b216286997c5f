use cache_cache::{Cache, Entries};
use std::error::Error;
use std::time::Duration;

fn get_position(ids: &[u8]) -> Result<Vec<f64>, Box<dyn Error>> {
    Ok(ids.iter().map(|&id| f64::from(id) * 10.0).collect())
}

#[test]
fn batch_refreshes_the_missing_keys() {
    let mut present_position = Cache::with_expiry_duration(Duration::from_secs(100));
    present_position.insert(10, 0.0);

    let mut asked: Vec<Vec<u8>> = Vec::new();
    let pos = present_position.entries(&[10, 11, 12]).or_try_insert_with(|ids| {
        asked.push(ids.to_vec());
        get_position(ids)
    });

    assert!(pos.is_ok());
    assert_eq!(pos.unwrap(), vec![0.0, 110.0, 120.0]);
    assert_eq!(asked, vec![vec![11, 12]]);
    assert_eq!(present_position.get(&10), Some(&0.0));
    assert_eq!(present_position.get(&11), Some(&110.0));
    assert_eq!(present_position.get(&12), Some(&120.0));
}

#[test]
fn batch_end_to_end() {
    let mut present_position = Cache::with_expiry_duration(Duration::from_millis(10));
    present_position.insert_at(10, 0.0, 1_000_000_000);

    let mut asked: Vec<Vec<u8>> = Vec::new();
    let pos = present_position.entries(&[10, 11, 12]).or_try_insert_with_at(
        |ids| {
            asked.push(ids.to_vec());
            get_position(ids)
        },
        1_001_000_000,
    );

    assert!(pos.is_ok());
    assert_eq!(pos.unwrap(), vec![0.0, 110.0, 120.0]);
    assert_eq!(asked, vec![vec![11, 12]]);
    assert_eq!(present_position.get_at(&10, 1_001_000_000), Some(&0.0));
    assert_eq!(present_position.get_at(&11, 1_001_000_000), Some(&110.0));
    assert_eq!(present_position.get_at(&12, 1_001_000_000), Some(&120.0));
    assert_eq!(present_position.get_at(&10, 1_010_000_001), None);
    assert_eq!(present_position.get_at(&11, 1_011_000_000), Some(&110.0));
    assert_eq!(present_position.get_at(&12, 1_011_000_001), None);
}

#[test]
fn batch_with_short_expiry_returns_the_requested_order() {
    let mut present_position = Cache::with_expiry_duration(Duration::from_millis(10));
    present_position.insert(10, 0.0);
    let pos = present_position.entries(&[10, 11, 12]).or_try_insert_with(get_position);
    assert!(pos.is_ok());
    let pos = pos.unwrap();
    assert_eq!(pos.len(), 3);
    assert!(pos[0] == 0.0 || pos[0] == 100.0);
    assert_eq!(pos[1], 110.0);
    assert_eq!(pos[2], 120.0);
}

#[test]
fn batch_or_insert_with_refreshes_the_missing_keys() {
    let mut present_position = Cache::with_expiry_duration(Duration::from_secs(100));
    present_position.insert(10, 0.0);
    let pos = present_position
        .entries(&[10, 11, 12])
        .or_insert_with(|ids| ids.iter().map(|&id| f64::from(id) * 10.0).collect());
    assert_eq!(pos, vec![0.0, 110.0, 120.0]);
    assert_eq!(present_position.get(&12), Some(&120.0));
}

#[test]
fn batch_or_insert_gives_the_default_to_missing_keys() {
    let mut target_positions = Cache::keep_last();
    target_positions.insert(11, 90);

    let values = target_positions.entries(&[10, 11, 12]).or_insert(0);
    assert_eq!(values, vec![0, 90, 0]);
    assert_eq!(target_positions[&10], 0);
    assert_eq!(target_positions[&11], 90);
    assert_eq!(target_positions[&12], 0);
}

#[test]
fn batch_or_insert_stamps_only_what_it_wrote() {
    let mut cache: Cache<u8, u32> = Cache::with_expiry_nanos(10);
    cache.insert_at(1, 7, 100);
    cache.insert_at(2, 8, 50);
    let values = cache.entries(&[2, 1, 3, 2]).or_insert_at(0, 105);
    assert_eq!(values, vec![0, 7, 0, 0]);
    assert_eq!(cache.get_at(&1, 110), Some(&7));
    assert_eq!(cache.get_at(&1, 111), None);
    assert_eq!(cache.get_at(&2, 115), Some(&0));
    assert_eq!(cache.get_at(&2, 116), None);
    assert_eq!(cache.get_at(&3, 115), Some(&0));
    assert_eq!(cache.get_at(&3, 116), None);
}

#[test]
fn batch_of_fresh_keys_does_not_call_the_producer() {
    let mut cache: Cache<u8, u32> = Cache::keep_last();
    cache.insert(10, 1);
    cache.insert(11, 2);
    cache.insert(12, 3);

    let mut calls = 0;
    let r: Result<Vec<u32>, String> = cache.entries(&[12, 10, 12, 11, 10]).or_try_insert_with(|_| {
        calls += 1;
        Err(String::from("not needed"))
    });
    assert_eq!(r, Ok(vec![3, 1, 3, 2, 1]));
    assert_eq!(calls, 0);

    let mut calls = 0;
    let values = cache.entries(&[11, 11, 10]).or_insert_with(|_| {
        calls += 1;
        Vec::new()
    });
    assert_eq!(values, vec![2, 2, 1]);
    assert_eq!(calls, 0);
}

#[test]
fn batch_of_no_keys_returns_nothing() {
    let mut cache: Cache<u8, u32> = Cache::keep_last();
    let mut calls = 0;
    let r: Result<Vec<u32>, String> = cache.entries(&[]).or_try_insert_with(|_| {
        calls += 1;
        Ok(Vec::new())
    });
    assert_eq!(r, Ok(Vec::new()));
    assert_eq!(calls, 0);
    assert_eq!(cache.entries(&[]).or_insert(4), Vec::<u32>::new());
}

#[test]
fn batch_asks_once_for_a_repeated_key() {
    let mut cache: Cache<u8, u32> = Cache::keep_last();
    let mut asked: Vec<Vec<u8>> = Vec::new();
    let r: Result<Vec<u32>, String> = cache.entries(&[11, 11]).or_try_insert_with(|ids| {
        asked.push(ids.to_vec());
        Ok(ids.iter().map(|&id| u32::from(id) + 100).collect())
    });
    assert_eq!(r, Ok(vec![111, 111]));
    assert_eq!(asked, vec![vec![11]]);
    assert_eq!(cache.get(&11), Some(&111));
}

#[test]
fn batch_asks_in_the_order_of_first_occurrence() {
    let mut cache: Cache<u8, u32> = Cache::with_expiry_nanos(10);
    cache.insert_at(10, 1, 100);
    cache.insert_at(13, 4, 50);
    let entries = cache.entries(&[12, 11, 12, 10, 13, 11]);
    assert_eq!(entries.missing_at(105), vec![12, 11, 13]);
    assert_eq!(entries.missing_at(111), vec![12, 11, 10, 13]);
    assert_eq!(entries.missing_at(60), vec![12, 11]);

    let mut asked: Vec<Vec<u8>> = Vec::new();
    let values = cache.entries(&[12, 11, 12, 10, 13, 11]).or_insert_with_at(
        |ids| {
            asked.push(ids.to_vec());
            ids.iter().map(|&id| u32::from(id) * 2).collect()
        },
        105,
    );
    assert_eq!(values, vec![24, 22, 24, 1, 26, 22]);
    assert_eq!(asked, vec![vec![12, 11, 13]]);
}

#[test]
fn failed_batch_writes_nothing() {
    let mut cache: Cache<u8, u32> = Cache::keep_last();
    cache.insert(10, 1);
    let mut asked: Vec<Vec<u8>> = Vec::new();
    let r: Result<Vec<u32>, String> = cache.entries(&[10, 11, 12]).or_try_insert_with(|ids| {
        asked.push(ids.to_vec());
        Err(String::from("bus error"))
    });
    assert_eq!(r, Err(String::from("bus error")));
    assert_eq!(asked, vec![vec![11, 12]]);
    assert_eq!(cache.get(&10), Some(&1));
    assert_eq!(cache.get(&11), None);
    assert_eq!(cache.get(&12), None);
    assert_eq!(cache.insert(11, 5), None);
}

#[test]
fn failed_batch_keeps_expired_values_as_they_were() {
    let mut cache: Cache<u8, u32> = Cache::with_expiry_nanos(10);
    cache.insert_at(10, 1, 100);
    cache.insert_at(11, 2, 50);
    let r: Result<Vec<u32>, u8> = cache.entries(&[10, 11]).or_try_insert_with_at(|_| Err(9), 105);
    assert_eq!(r, Err(9));
    assert_eq!(cache.get_at(&10, 105), Some(&1));
    assert_eq!(cache.get_at(&11, 105), None);
    assert_eq!(cache.get_at(&11, 60), Some(&2));
}

#[test]
fn expired_key_is_refreshed_and_stamped_anew() {
    let mut cache: Cache<u8, u32> = Cache::with_expiry_nanos(10);
    cache.insert_at(10, 1, 100);
    cache.insert_at(11, 2, 50);
    let r: Result<Vec<u32>, u8> = cache
        .entries(&[11, 10])
        .or_try_insert_with_at(|ids| Ok(ids.iter().map(|&id| u32::from(id) + 1).collect()), 105);
    assert_eq!(r, Ok(vec![12, 1]));
    assert_eq!(cache.get_at(&11, 115), Some(&12));
    assert_eq!(cache.get_at(&11, 116), None);
    assert_eq!(cache.get_at(&10, 110), Some(&1));
    assert_eq!(cache.get_at(&10, 111), None);
}

#[test]
fn merge_writes_each_value_under_its_key() {
    let mut cache: Cache<u8, u32> = Cache::with_expiry_nanos(10);
    cache.insert_at(10, 1, 100);
    let entries: Entries<u8, u32> = cache.entries(&[12, 10, 11, 12]);
    let out = entries.merge_at(&[12, 11], vec![30, 20], 200);
    assert_eq!(out, vec![30, 1, 20, 30]);
    assert_eq!(cache.get_at(&12, 210), Some(&30));
    assert_eq!(cache.get_at(&11, 210), Some(&20));
    assert_eq!(cache.get_at(&12, 211), None);
    assert_eq!(cache.get_at(&10, 110), Some(&1));
    assert_eq!(cache.get_at(&10, 200), None);
}

#[test]
fn entries_borrow_the_keys_and_the_cache() {
    let mut cache: Cache<u8, u32> = Cache::keep_last();
    cache.insert(1, 2);
    let keys = [1, 3];
    let entries = cache.entries(&keys);
    assert_eq!(entries.keys, &[1, 3]);
    assert_eq!(entries.cache.get(&1), Some(&2));
    assert_eq!(entries.or_insert(0), vec![2, 0]);
}
