use checkout_pool::registry::{get_components, ConnectionPool, POOL_COUNT};

#[test]
fn test_increase_ordering_single_threaded() {
    let mut pool: ConnectionPool<i32> = ConnectionPool::new();
    let expected_values = [0, 1, 2, 3, 4, 5, 6, 7, 8, 9, 0, 1, 2, 3, 4];

    for i in expected_values {
        let new_value = pool.get_index();
        assert_eq!(new_value, i);
    }
}

#[test]
fn test_increase_ordering_multithreaded() {
    // under heavy use the allocator hands out many slots in a row; every
    // one of 1000 back-to-back allocations stays inside the pool
    let mut pool: ConnectionPool<i32> = ConnectionPool::new();

    for _ in 0..1000 {
        let new_value = pool.get_index();
        assert_eq!(new_value < 10, true);
    }
}

#[test]
fn test_store_connection() {
    let mut pool: ConnectionPool<i32> = ConnectionPool::new();

    let connection_id = pool.store_connection(1);
    let connection_id_two = pool.store_connection(2);

    // get the index and id of the connection
    let raw_id = connection_id.split("://").collect::<Vec<&str>>()[1];
    let raw_index: usize = connection_id.split("://").collect::<Vec<&str>>()[0].parse().unwrap();
    let raw_id_two = connection_id_two.split("://").collect::<Vec<&str>>()[1];
    let raw_index_two: usize =
        connection_id_two.split("://").collect::<Vec<&str>>()[0].parse().unwrap();

    // get the connections back out of the pool
    let value_one = *pool.get_connection(raw_index, raw_id).unwrap();
    let value_two = *pool.get_connection(raw_index_two, raw_id_two).unwrap();

    assert_eq!(value_one, 1);
    assert_eq!(value_two, 2);
}

#[test]
fn test_close_connection() {
    let mut pool: ConnectionPool<i32> = ConnectionPool::new();

    let connection_id = pool.store_connection(1);

    let raw_id = connection_id.split("://").collect::<Vec<&str>>()[1].to_string();
    let raw_index: usize = connection_id.split("://").collect::<Vec<&str>>()[0].parse().unwrap();

    let outcome = pool.close_connection(connection_id);

    assert_eq!(outcome, Ok(()));
    let another_outcome = match pool.get_connection(raw_index, &raw_id) {
        Some(_) => Err("Expected None".to_string()),
        None => Ok(()),
    };
    assert_eq!(another_outcome, Ok(()));
}

#[test]
fn test_get_components() {
    let false_connection_id = "test".to_string();

    match get_components(false_connection_id) {
        Ok(_) => panic!("Expected an error"),
        Err(e) => assert_eq!(e.to_string(), "Invalid: connection ID 'test' is not valid".to_string()),
    }

    let false_connection_id = "10://test".to_string();

    match get_components(false_connection_id) {
        Ok(_) => panic!("Expected an error"),
        Err(e) => assert_eq!(e.to_string(), "Invalid: connection ID: 10 is out of bounds".to_string()),
    }
}

#[test]
fn identifier_round_trips_through_components() {
    let mut pool: ConnectionPool<String> = ConnectionPool::new();

    // if the fresh-key source misbehaved (say, an empty or colon-ridden
    // key) the identifier would no longer parse back to one shard and a
    // 36-character key
    let id = pool.store_connection("resource".to_string());
    let (index, key) = get_components(id).unwrap();
    assert!(index < POOL_COUNT);
    assert_eq!(key.chars().count(), 36);
    assert_eq!(pool.get_connection(index, &key).unwrap().as_str(), "resource");

    // two stored connections get distinct identifiers
    let id_two = pool.store_connection("other".to_string());
    let (index_two, key_two) = get_components(id_two).unwrap();
    assert_ne!((index, key), (index_two, key_two));
}

#[test]
fn components_accept_full_numeral_grammar() {
    // the numeric prefix follows the standard unsigned grammar
    let (index, key) = get_components("+3://abc".to_string()).unwrap();
    assert_eq!(index, 3);
    assert_eq!(key, "abc");

    let err = get_components("://abc".to_string()).unwrap_err();
    assert_eq!(err, "cannot parse integer from empty string");

    let err = get_components("a://abc".to_string()).unwrap_err();
    assert_eq!(err, "invalid digit found in string");

    let err = get_components("99999999999999999999://abc".to_string()).unwrap_err();
    assert_eq!(err, "number too large to fit in target type");

    let err = get_components("1://a://b".to_string()).unwrap_err();
    assert_eq!(err, "Invalid: connection ID '1://a://b' is not valid");
}

#[test]
fn closing_twice_or_never_stored_changes_nothing() {
    let mut pool: ConnectionPool<i32> = ConnectionPool::new();

    let keep = pool.store_connection(5);
    let (keep_index, keep_key) = get_components(keep).unwrap();

    let id = pool.store_connection(1);

    // closing twice: the second close succeeds and is a no-op
    assert_eq!(pool.close_connection(id.clone()), Ok(()));
    assert_eq!(pool.close_connection(id), Ok(()));

    // closing an identifier that was never stored succeeds too
    assert_eq!(pool.close_connection("4://never-stored".to_string()), Ok(()));

    // and the unrelated connection is still there
    assert_eq!(*pool.get_connection(keep_index, &keep_key).unwrap(), 5);
}

#[test]
fn shards_are_isolated() {
    let mut pool: ConnectionPool<i32> = ConnectionPool::new();

    // two back-to-back stores land in different shards
    let first = pool.store_connection(1);
    let second = pool.store_connection(2);
    let (first_index, _) = get_components(first.clone()).unwrap();
    let (second_index, second_key) = get_components(second).unwrap();
    assert_ne!(first_index, second_index);

    // removing the first leaves the second visible
    pool.close_connection(first).unwrap();
    assert_eq!(*pool.get_connection(second_index, &second_key).unwrap(), 2);
}
