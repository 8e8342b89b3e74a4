//! The writer policy: every writer option validated and assembled once
//! into one immutable value before any data is read.
//!
//! Each compression family that takes a level is pinned to the family's
//! maximum supported level by a closed lookup table; an out-of-range
//! level is an internal invariant violation, not a user-facing error, so
//! the policy's well-formedness carries the ranges.

use vstd::prelude::*;

use crate::ConfigError;

verus! {

/// The compression families the target format offers.
#[derive(Clone, Copy, PartialEq, Eq, Structural, Debug)]
pub enum CompressionFamily {
    Uncompressed,
    Snappy,
    Gzip,
    Lzo,
    Brotli,
    Lz4,
    Zstd,
}

/// A compression family with its concrete level, where one applies.
#[derive(Clone, Copy, PartialEq, Eq, Structural, Debug)]
pub enum CompressionChoice {
    Uncompressed,
    Snappy,
    Gzip(u32),
    Lzo,
    Brotli(u32),
    Lz4,
    Zstd(i32),
}

/// The column encodings the target format offers.
#[derive(Clone, Copy, PartialEq, Eq, Structural, Debug)]
pub enum ColumnEncoding {
    Plain,
    Rle,
    DeltaBinaryPacked,
    DeltaLengthByteArray,
    DeltaByteArray,
    RleDictionary,
}

/// How fine the recorded column statistics are.
#[derive(Clone, Copy, PartialEq, Eq, Structural, Debug)]
pub enum StatsLevel {
    Off,
    Chunk,
    Page,
}

/// The name each compression family answers to.
pub open spec fn compression_of_name(s: Seq<char>) -> Option<CompressionFamily> {
    if s == "uncompressed"@ {
        Option::Some(CompressionFamily::Uncompressed)
    } else if s == "snappy"@ {
        Option::Some(CompressionFamily::Snappy)
    } else if s == "gzip"@ {
        Option::Some(CompressionFamily::Gzip)
    } else if s == "lzo"@ {
        Option::Some(CompressionFamily::Lzo)
    } else if s == "brotli"@ {
        Option::Some(CompressionFamily::Brotli)
    } else if s == "lz4"@ {
        Option::Some(CompressionFamily::Lz4)
    } else if s == "zstd"@ {
        Option::Some(CompressionFamily::Zstd)
    } else {
        Option::None
    }
}

/// The name each column encoding answers to.
pub open spec fn encoding_of_name(s: Seq<char>) -> Option<ColumnEncoding> {
    if s == "plain"@ {
        Option::Some(ColumnEncoding::Plain)
    } else if s == "rle"@ {
        Option::Some(ColumnEncoding::Rle)
    } else if s == "delta-binary-packed"@ {
        Option::Some(ColumnEncoding::DeltaBinaryPacked)
    } else if s == "delta-length-byte-array"@ {
        Option::Some(ColumnEncoding::DeltaLengthByteArray)
    } else if s == "delta-byte-array"@ {
        Option::Some(ColumnEncoding::DeltaByteArray)
    } else if s == "rle-dictionary"@ {
        Option::Some(ColumnEncoding::RleDictionary)
    } else {
        Option::None
    }
}

/// The name each statistics granularity answers to.
pub open spec fn statistics_of_name(s: Seq<char>) -> Option<StatsLevel> {
    if s == "none"@ {
        Option::Some(StatsLevel::Off)
    } else if s == "chunk"@ {
        Option::Some(StatsLevel::Chunk)
    } else if s == "page"@ {
        Option::Some(StatsLevel::Page)
    } else {
        Option::None
    }
}

/// The closed family-to-level table: each family that takes a level gets
/// its maximum supported one.
pub open spec fn family_level(f: CompressionFamily) -> CompressionChoice {
    match f {
        CompressionFamily::Uncompressed => CompressionChoice::Uncompressed,
        CompressionFamily::Snappy => CompressionChoice::Snappy,
        CompressionFamily::Gzip => CompressionChoice::Gzip(9),
        CompressionFamily::Lzo => CompressionChoice::Lzo,
        CompressionFamily::Brotli => CompressionChoice::Brotli(11),
        CompressionFamily::Lz4 => CompressionChoice::Lz4,
        CompressionFamily::Zstd => CompressionChoice::Zstd(22),
    }
}

/// A level within its family's supported range.
pub open spec fn choice_wf(c: CompressionChoice) -> bool {
    match c {
        CompressionChoice::Gzip(l) => l <= 9,
        CompressionChoice::Brotli(l) => l <= 11,
        CompressionChoice::Zstd(l) => -131072 <= l <= 22,
        _ => true,
    }
}

/// Character-for-character equality of two text slices.
fn str_eq(a: &str, b: &str) -> (r: bool)
    ensures
        r == (a@ == b@),
{
    let an = a.unicode_len();
    let bn = b.unicode_len();
    if an != bn {
        return false;
    }
    let mut i: usize = 0;
    while i < an
        invariant
            i <= an == a@.len() == b@.len(),
            forall|t: int| 0 <= t < i ==> a@[t] == b@[t],
        decreases an - i,
    {
        if a.get_char(i) != b.get_char(i) {
            return false;
        }
        i += 1;
    }
    proof {
        assert(a@ =~= b@);
    }
    true
}

/// Resolves a compression family name, rejecting unrecognized names
/// before any data is read.
pub fn parse_compression(s: &str) -> (r: Result<CompressionFamily, ConfigError>)
    ensures
        r matches Ok(f) ==> compression_of_name(s@) == Option::Some(f),
        r is Err <==> compression_of_name(s@) is None,
        r matches Err(e) ==> e matches ConfigError::UnknownCompression(v) && v@ == s@,
{
    if str_eq(s, "uncompressed") {
        Ok(CompressionFamily::Uncompressed)
    } else if str_eq(s, "snappy") {
        Ok(CompressionFamily::Snappy)
    } else if str_eq(s, "gzip") {
        Ok(CompressionFamily::Gzip)
    } else if str_eq(s, "lzo") {
        Ok(CompressionFamily::Lzo)
    } else if str_eq(s, "brotli") {
        Ok(CompressionFamily::Brotli)
    } else if str_eq(s, "lz4") {
        Ok(CompressionFamily::Lz4)
    } else if str_eq(s, "zstd") {
        Ok(CompressionFamily::Zstd)
    } else {
        Err(ConfigError::UnknownCompression(s.to_owned()))
    }
}

/// Resolves a column encoding name.
pub fn parse_encoding(s: &str) -> (r: Result<ColumnEncoding, ConfigError>)
    ensures
        r matches Ok(f) ==> encoding_of_name(s@) == Option::Some(f),
        r is Err <==> encoding_of_name(s@) is None,
        r matches Err(e) ==> e matches ConfigError::UnknownEncoding(v) && v@ == s@,
{
    if str_eq(s, "plain") {
        Ok(ColumnEncoding::Plain)
    } else if str_eq(s, "rle") {
        Ok(ColumnEncoding::Rle)
    } else if str_eq(s, "delta-binary-packed") {
        Ok(ColumnEncoding::DeltaBinaryPacked)
    } else if str_eq(s, "delta-length-byte-array") {
        Ok(ColumnEncoding::DeltaLengthByteArray)
    } else if str_eq(s, "delta-byte-array") {
        Ok(ColumnEncoding::DeltaByteArray)
    } else if str_eq(s, "rle-dictionary") {
        Ok(ColumnEncoding::RleDictionary)
    } else {
        Err(ConfigError::UnknownEncoding(s.to_owned()))
    }
}

/// Resolves a statistics granularity name.
pub fn parse_statistics(s: &str) -> (r: Result<StatsLevel, ConfigError>)
    ensures
        r matches Ok(f) ==> statistics_of_name(s@) == Option::Some(f),
        r is Err <==> statistics_of_name(s@) is None,
        r matches Err(e) ==> e matches ConfigError::UnknownStatistics(v) && v@ == s@,
{
    if str_eq(s, "none") {
        Ok(StatsLevel::Off)
    } else if str_eq(s, "chunk") {
        Ok(StatsLevel::Chunk)
    } else if str_eq(s, "page") {
        Ok(StatsLevel::Page)
    } else {
        Err(ConfigError::UnknownStatistics(s.to_owned()))
    }
}

/// Picks the concrete level for a compression family.
pub fn resolve_compression(f: CompressionFamily) -> (c: CompressionChoice)
    ensures
        c == family_level(f),
        choice_wf(c),
{
    match f {
        CompressionFamily::Uncompressed => CompressionChoice::Uncompressed,
        CompressionFamily::Snappy => CompressionChoice::Snappy,
        CompressionFamily::Gzip => CompressionChoice::Gzip(9),
        CompressionFamily::Lzo => CompressionChoice::Lzo,
        CompressionFamily::Brotli => CompressionChoice::Brotli(11),
        CompressionFamily::Lz4 => CompressionChoice::Lz4,
        CompressionFamily::Zstd => CompressionChoice::Zstd(22),
    }
}

/// The independently optional writer configuration, as the caller hands
/// it over; an absent value takes the target format's own default, and
/// dictionary encoding is enabled unless explicitly disabled.
pub struct WriterOptions {
    pub compression: Option<String>,
    pub encoding: Option<String>,
    pub statistics: Option<String>,
    pub data_pagesize_limit: Option<usize>,
    pub dictionary_pagesize_limit: Option<usize>,
    pub write_batch_size: Option<usize>,
    pub max_row_group_size: Option<usize>,
    pub created_by: Option<String>,
    pub dictionary: Option<bool>,
}

/// The validated, immutable writer policy.
pub struct WriterPolicy {
    pub compression: Option<CompressionChoice>,
    pub encoding: Option<ColumnEncoding>,
    pub statistics: Option<StatsLevel>,
    pub data_pagesize_limit: Option<usize>,
    pub dictionary_pagesize_limit: Option<usize>,
    pub write_batch_size: Option<usize>,
    pub max_row_group_size: Option<usize>,
    pub created_by: Option<String>,
    pub dictionary: bool,
}

impl WriterPolicy {
    /// Every level stands within its family's range, the fallback
    /// encoding is not a dictionary encoding (the target writer refuses
    /// one; the dictionary flag selects dictionary encoding instead), and
    /// the row-count sizes are at least one (the target writer refuses
    /// zero for either).
    pub open spec fn wf(&self) -> bool {
        &&& (self.compression matches Option::Some(c) ==> choice_wf(c))
        &&& self.encoding != Option::Some(ColumnEncoding::RleDictionary)
        &&& self.write_batch_size != Option::Some(0usize)
        &&& self.max_row_group_size != Option::Some(0usize)
    }
}

/// All three enumerated names, where given, are recognized.
pub open spec fn names_ok(
    compression: Option<Seq<char>>,
    encoding: Option<Seq<char>>,
    statistics: Option<Seq<char>>,
) -> bool {
    &&& (compression matches Option::Some(s) ==> compression_of_name(s) is Some)
    &&& (encoding matches Option::Some(s) ==> encoding_of_name(s) is Some && encoding_of_name(s)
        != Option::Some(ColumnEncoding::RleDictionary))
    &&& (statistics matches Option::Some(s) ==> statistics_of_name(s) is Some)
}

/// The row-count sizes, where given, are at least one.
pub open spec fn sizes_ok(write_batch_size: Option<usize>, max_row_group_size: Option<usize>) -> bool {
    write_batch_size != Option::Some(0usize) && max_row_group_size != Option::Some(0usize)
}

/// The compression the policy resolves a named family to.
pub open spec fn spec_compression(o: Option<Seq<char>>) -> Option<CompressionChoice>
    recommends
        o matches Option::Some(s) ==> compression_of_name(s) is Some,
{
    match o {
        Option::None => Option::None,
        Option::Some(s) => Option::Some(family_level(compression_of_name(s)->Some_0)),
    }
}

pub open spec fn spec_encoding(o: Option<Seq<char>>) -> Option<ColumnEncoding> {
    match o {
        Option::None => Option::None,
        Option::Some(s) => Option::Some(encoding_of_name(s)->Some_0),
    }
}

pub open spec fn spec_statistics(o: Option<Seq<char>>) -> Option<StatsLevel> {
    match o {
        Option::None => Option::None,
        Option::Some(s) => Option::Some(statistics_of_name(s)->Some_0),
    }
}

/// Validates and assembles the writer options into one immutable policy,
/// or rejects the first unrecognized name; a pure value transformation
/// with no side effects.
pub fn build_policy(opts: WriterOptions) -> (r: Result<WriterPolicy, ConfigError>)
    ensures
        r is Ok <==> names_ok(
            opts.compression.deep_view(),
            opts.encoding.deep_view(),
            opts.statistics.deep_view(),
        ) && sizes_ok(opts.write_batch_size, opts.max_row_group_size),
        r matches Ok(p) ==> {
            &&& p.wf()
            &&& p.compression == spec_compression(opts.compression.deep_view())
            &&& p.encoding == spec_encoding(opts.encoding.deep_view())
            &&& p.statistics == spec_statistics(opts.statistics.deep_view())
            &&& p.data_pagesize_limit == opts.data_pagesize_limit
            &&& p.dictionary_pagesize_limit == opts.dictionary_pagesize_limit
            &&& p.write_batch_size == opts.write_batch_size
            &&& p.max_row_group_size == opts.max_row_group_size
            &&& p.created_by.deep_view() == opts.created_by.deep_view()
            &&& p.dictionary == (match opts.dictionary {
                Option::Some(b) => b,
                Option::None => true,
            })
        },
        r matches Err(e) ==> match e {
            ConfigError::UnknownCompression(v) => opts.compression.deep_view()
                == Option::Some(v@) && compression_of_name(v@) is None,
            ConfigError::UnknownEncoding(v) => opts.encoding.deep_view() == Option::Some(v@)
                && encoding_of_name(v@) is None,
            ConfigError::DictionaryFallbackEncoding(v) => opts.encoding.deep_view()
                == Option::Some(v@) && encoding_of_name(v@) == Option::Some(
                ColumnEncoding::RleDictionary,
            ),
            ConfigError::UnknownStatistics(v) => opts.statistics.deep_view() == Option::Some(v@)
                && statistics_of_name(v@) is None,
            ConfigError::ZeroWriteBatchSize => opts.write_batch_size == Option::Some(0usize),
            ConfigError::ZeroRowGroupSize => opts.max_row_group_size == Option::Some(0usize),
        },
{
    let compression = match &opts.compression {
        Option::Some(s) => {
            match parse_compression(s.as_str()) {
                Ok(f) => Option::Some(resolve_compression(f)),
                Err(e) => {
                    return Err(e);
                },
            }
        },
        Option::None => Option::None,
    };
    let encoding = match &opts.encoding {
        Option::Some(s) => {
            match parse_encoding(s.as_str()) {
                Ok(ColumnEncoding::RleDictionary) => {
                    return Err(ConfigError::DictionaryFallbackEncoding(s.clone()));
                },
                Ok(f) => Option::Some(f),
                Err(e) => {
                    return Err(e);
                },
            }
        },
        Option::None => Option::None,
    };
    let statistics = match &opts.statistics {
        Option::Some(s) => {
            match parse_statistics(s.as_str()) {
                Ok(f) => Option::Some(f),
                Err(e) => {
                    return Err(e);
                },
            }
        },
        Option::None => Option::None,
    };
    if opts.write_batch_size == Option::Some(0usize) {
        return Err(ConfigError::ZeroWriteBatchSize);
    }
    if opts.max_row_group_size == Option::Some(0usize) {
        return Err(ConfigError::ZeroRowGroupSize);
    }
    Ok(
        WriterPolicy {
            compression,
            encoding,
            statistics,
            data_pagesize_limit: opts.data_pagesize_limit,
            dictionary_pagesize_limit: opts.dictionary_pagesize_limit,
            write_batch_size: opts.write_batch_size,
            max_row_group_size: opts.max_row_group_size,
            created_by: opts.created_by,
            dictionary: match opts.dictionary {
                Option::Some(b) => b,
                Option::None => true,
            },
        },
    )
}

} // verus!
