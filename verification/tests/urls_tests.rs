use checkout_pool::urls::{extract_connection_components, ConnectProtocol};

#[test]
fn test_ws() {
    let url = "ws://localhost:8000/namespace/database".to_string();
    let (url, namespace, database) = extract_connection_components(url).unwrap();

    assert_eq!(url, "ws://localhost:8000".to_string());
    assert_eq!(database.unwrap(), "database".to_string());
    assert_eq!(namespace.unwrap(), "namespace".to_string());
}

#[test]
fn test_http() {
    let url = "http://localhost:8000/namespace/database".to_string();
    let (url, namespace, database) = extract_connection_components(url).unwrap();

    assert_eq!(url, "http://localhost:8000".to_string());
    assert_eq!(database.unwrap(), "database".to_string());
    assert_eq!(namespace.unwrap(), "namespace".to_string());
}

#[test]
fn test_rocksdb() {
    let url = "rocksdb://tmp/test.db".to_string();
    let (url, namespace, database) = extract_connection_components(url).unwrap();

    assert_eq!(url, "rocksdb://tmp/test.db".to_string());
    assert_eq!(database, None);
    assert_eq!(namespace, None);
}

#[test]
fn test_rocksdb_three_lines() {
    let url = "rocksdb:///tmp/test.db".to_string();
    let (url, namespace, database) = extract_connection_components(url).unwrap();

    assert_eq!(url, "rocksdb:///tmp/test.db".to_string());
    assert_eq!(database, None);
    assert_eq!(namespace, None);
}

#[test]
fn url_without_separator_is_invalid() {
    let err = extract_connection_components("test".to_string()).unwrap_err();
    assert_eq!(err, "invalid url");
}

#[test]
fn url_with_namespace_only() {
    let url = "ws://localhost:8000/namespace".to_string();
    let (url, namespace, database) = extract_connection_components(url).unwrap();

    assert_eq!(url, "ws://localhost:8000");
    assert_eq!(namespace.unwrap(), "namespace");
    assert_eq!(database, None);
}

#[test]
fn url_with_too_many_segments_is_invalid() {
    let err = extract_connection_components("ws://host/a/b/c".to_string()).unwrap_err();
    assert_eq!(err, "invalid address provided");
}

#[test]
fn protocol_names_read_case_insensitively() {
    assert_eq!(ConnectProtocol::from_string("ws".to_string()), Ok(ConnectProtocol::WS));
    assert_eq!(ConnectProtocol::from_string("WS".to_string()), Ok(ConnectProtocol::WS));
    assert_eq!(ConnectProtocol::from_string("http".to_string()), Ok(ConnectProtocol::HTTP));
    assert_eq!(ConnectProtocol::from_string("Http".to_string()), Ok(ConnectProtocol::HTTP));
    assert_eq!(
        ConnectProtocol::from_string("tcp".to_string()),
        Err("Invalid protocol: tcp".to_string())
    );
}

#[test]
fn memory_store_opens_under_its_own_name() {
    let (url, namespace, database) =
        checkout_pool::urls::connection_plan("memory".to_string()).unwrap();
    assert_eq!(url, "memory");
    assert_eq!(namespace, None);
    assert_eq!(database, None);

    let (url, namespace, database) =
        checkout_pool::urls::connection_plan("ws://localhost:8000/namespace/database".to_string())
            .unwrap();
    assert_eq!(url, "ws://localhost:8000");
    assert_eq!(namespace.unwrap(), "namespace");
    assert_eq!(database.unwrap(), "database");
}
