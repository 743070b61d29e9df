use scylla::transport::connection_params::ConnectionParams;
use scylla::transport::Compression;

#[test]
fn compression_is_named_as_the_protocol_names_it() {
    assert_eq!(Compression::LZ4.to_string(), "lz4");
    assert_eq!(Compression::Snappy.to_string(), "snappy");
}

#[test]
fn default_parameters_ask_for_no_compression_and_no_delay() {
    let params = ConnectionParams::default();
    assert!(params.compression.is_none());
    assert!(params.nodelay);
}
