use csv_to_parquet::policy::{
    build_policy, ColumnEncoding, CompressionChoice, StatsLevel, WriterOptions,
};
use csv_to_parquet::ConfigError;

fn options() -> WriterOptions {
    WriterOptions {
        compression: None,
        encoding: None,
        statistics: None,
        data_pagesize_limit: None,
        dictionary_pagesize_limit: None,
        write_batch_size: None,
        max_row_group_size: None,
        created_by: None,
        dictionary: None,
    }
}

#[test]
fn defaults_pass_through_unset() {
    let p = build_policy(options()).unwrap();
    assert_eq!(p.compression, None);
    assert_eq!(p.encoding, None);
    assert_eq!(p.statistics, None);
    assert_eq!(p.data_pagesize_limit, None);
    assert_eq!(p.dictionary_pagesize_limit, None);
    assert_eq!(p.write_batch_size, None);
    assert_eq!(p.max_row_group_size, None);
    assert!(p.created_by.is_none());
    assert!(p.dictionary, "dictionary encoding is enabled unless explicitly disabled");
}

#[test]
fn compression_families_resolve_to_their_maximum_level() {
    let cases = [
        ("uncompressed", CompressionChoice::Uncompressed),
        ("snappy", CompressionChoice::Snappy),
        ("gzip", CompressionChoice::Gzip(9)),
        ("lzo", CompressionChoice::Lzo),
        ("brotli", CompressionChoice::Brotli(11)),
        ("lz4", CompressionChoice::Lz4),
        ("zstd", CompressionChoice::Zstd(22)),
    ];
    for (name, want) in cases {
        let mut o = options();
        o.compression = Some(name.to_string());
        let p = build_policy(o).unwrap();
        assert_eq!(p.compression, Some(want));
    }
}

#[test]
fn encodings_resolve_by_name() {
    let cases = [
        ("plain", ColumnEncoding::Plain),
        ("rle", ColumnEncoding::Rle),
        ("delta-binary-packed", ColumnEncoding::DeltaBinaryPacked),
        ("delta-length-byte-array", ColumnEncoding::DeltaLengthByteArray),
        ("delta-byte-array", ColumnEncoding::DeltaByteArray),
    ];
    for (name, want) in cases {
        let mut o = options();
        o.encoding = Some(name.to_string());
        let p = build_policy(o).unwrap();
        assert_eq!(p.encoding, Some(want));
    }
}

#[test]
fn statistics_resolve_by_name() {
    let cases = [
        ("none", StatsLevel::Off),
        ("chunk", StatsLevel::Chunk),
        ("page", StatsLevel::Page),
    ];
    for (name, want) in cases {
        let mut o = options();
        o.statistics = Some(name.to_string());
        let p = build_policy(o).unwrap();
        assert_eq!(p.statistics, Some(want));
    }
}

#[test]
fn unknown_compression_is_rejected() {
    let mut o = options();
    o.compression = Some("deflate".to_string());
    let r = build_policy(o);
    assert!(matches!(r, Err(ConfigError::UnknownCompression(v)) if v == "deflate"));
}

#[test]
fn unknown_encoding_is_rejected() {
    let mut o = options();
    o.encoding = Some("huffman".to_string());
    let r = build_policy(o);
    assert!(matches!(r, Err(ConfigError::UnknownEncoding(v)) if v == "huffman"));
}

#[test]
fn unknown_statistics_is_rejected() {
    let mut o = options();
    o.statistics = Some("row".to_string());
    let r = build_policy(o);
    assert!(matches!(r, Err(ConfigError::UnknownStatistics(v)) if v == "row"));
}

#[test]
fn dictionary_encoding_cannot_be_the_fallback() {
    let mut o = options();
    o.encoding = Some("rle-dictionary".to_string());
    let r = build_policy(o);
    assert!(matches!(
        r,
        Err(ConfigError::DictionaryFallbackEncoding(v)) if v == "rle-dictionary"
    ));
}

#[test]
fn zero_write_batch_size_is_rejected() {
    let mut o = options();
    o.write_batch_size = Some(0);
    assert!(matches!(build_policy(o), Err(ConfigError::ZeroWriteBatchSize)));
}

#[test]
fn zero_row_group_size_is_rejected() {
    let mut o = options();
    o.max_row_group_size = Some(0);
    assert!(matches!(build_policy(o), Err(ConfigError::ZeroRowGroupSize)));
}

#[test]
fn sizes_and_provenance_carry_over() {
    let mut o = options();
    o.data_pagesize_limit = Some(4096);
    o.dictionary_pagesize_limit = Some(8192);
    o.write_batch_size = Some(7);
    o.max_row_group_size = Some(100);
    o.created_by = Some("test writer".to_string());
    o.dictionary = Some(false);
    let p = build_policy(o).unwrap();
    assert_eq!(p.data_pagesize_limit, Some(4096));
    assert_eq!(p.dictionary_pagesize_limit, Some(8192));
    assert_eq!(p.write_batch_size, Some(7));
    assert_eq!(p.max_row_group_size, Some(100));
    assert_eq!(p.created_by.as_deref(), Some("test writer"));
    assert!(!p.dictionary);
}
