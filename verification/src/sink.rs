//! The batch sink: consumes the row decoder's batch sequence under one
//! writer policy, encoding each batch as it arrives, and finalizes the
//! artifact on completion. Batches are never reordered, retried, or
//! deduplicated; any failure aborts the run.

use vstd::prelude::*;

use parquet::file::properties::WriterProperties;

use crate::arrow_glue::artifact_bytes;
use crate::arrow_glue::batch_model;
use crate::arrow_glue::close_accepts;
use crate::arrow_glue::column_array;
use crate::arrow_glue::make_arrow_schema;
use crate::arrow_glue::make_record_batch;
use crate::arrow_glue::props_build;
use crate::arrow_glue::props_builder;
use crate::arrow_glue::props_compression;
use crate::arrow_glue::props_created_by;
use crate::arrow_glue::props_data_page_size;
use crate::arrow_glue::props_dictionary;
use crate::arrow_glue::props_dictionary_page_size;
use crate::arrow_glue::props_encoding;
use crate::arrow_glue::props_max_row_group_size;
use crate::arrow_glue::props_model;
use crate::arrow_glue::props_statistics;
use crate::arrow_glue::props_write_batch_size;
use crate::arrow_glue::rb_accepts;
use crate::arrow_glue::schema_model;
use crate::arrow_glue::sink_model;
use crate::arrow_glue::write_accepts;
use crate::arrow_glue::writer_accepts;
use crate::arrow_glue::writer_close;
use crate::arrow_glue::writer_new;
use crate::arrow_glue::writer_write;
use crate::arrow_glue::ColumnArray;
use crate::arrow_glue::SinkState;
use crate::arrow_glue::SinkWriter;
use crate::batch::batch_cols;
use crate::batch::col_floats_parseable;
use crate::batch::Batch;
use crate::batch::Column;
use crate::batch::ColumnV;
use crate::ConvertError;
use crate::decode::column_cells;
use crate::decode::decoded_column;
use crate::decode::row_ok;
use crate::decode::RowDecoder;
use crate::EncodeError;
use crate::policy::WriterPolicy;
use crate::rows::data_rows_of;
use crate::schema::ColumnSchema;
use crate::schema::FieldV;

verus! {

/// Rows buffered per decoded batch: bounded, to cap memory; batch
/// boundaries carry no meaning beyond iteration order.
pub const DECODE_BATCH_ROWS: usize = 1024;

/// Builds the target writer's properties from a validated policy; an
/// absent option leaves the target format's own default standing.
fn build_props(policy: &WriterPolicy) -> (r: WriterProperties)
    requires
        policy.wf(),
    ensures
        props_model(r) == *policy,
{
    let mut b = props_builder();
    b = props_dictionary(b, policy.dictionary);
    if let Option::Some(s) = policy.statistics {
        b = props_statistics(b, s);
    }
    if let Option::Some(c) = policy.compression {
        b = props_compression(b, c);
    }
    if let Option::Some(e) = policy.encoding {
        b = props_encoding(b, e);
    }
    if let Option::Some(v) = policy.write_batch_size {
        b = props_write_batch_size(b, v);
    }
    if let Option::Some(v) = policy.data_pagesize_limit {
        b = props_data_page_size(b, v);
    }
    if let Option::Some(v) = policy.dictionary_pagesize_limit {
        b = props_dictionary_page_size(b, v);
    }
    if let Option::Some(v) = policy.max_row_group_size {
        b = props_max_row_group_size(b, v);
    }
    match &policy.created_by {
        Option::Some(s) => {
            b = props_created_by(b, s.clone());
        },
        Option::None => {},
    }
    props_build(b)
}

/// Encodes batches into an in-memory artifact under one immutable policy.
pub struct BatchSink {
    pub writer: SinkWriter,
    pub arrow_schema: arrow::datatypes::Schema,
    pub schema: ColumnSchema,
    pub rows_written: usize,
}

impl BatchSink {
    /// The opaque writer really carries the sink's schema.
    pub open spec fn wf(&self) -> bool {
        &&& schema_model(self.arrow_schema) == self.schema@
        &&& sink_model(self.writer).schema == self.schema@
    }

    /// Opens a sink over the resolved schema and policy. Succeeds exactly
    /// when the target writer opens over them, and then nothing has been
    /// written yet.
    pub fn new(schema: ColumnSchema, policy: &WriterPolicy) -> (r: Result<BatchSink, EncodeError>)
        requires
            policy.wf(),
        ensures
            r is Ok <==> writer_accepts(schema@, *policy),
            r matches Ok(s) ==> s.schema@ == schema@ && s.rows_written == 0 && s.wf()
                && sink_model(s.writer) == (SinkState {
                schema: schema@,
                policy: *policy,
                batches: Seq::empty(),
            }),
            r matches Err(e) ==> e is Create,
    {
        let arrow_schema = make_arrow_schema(&schema);
        let props = build_props(policy);
        match writer_new(&arrow_schema, props) {
            Ok(writer) => Ok(BatchSink { writer, arrow_schema, schema, rows_written: 0 }),
            Err(m) => Err(EncodeError::Create(m)),
        }
    }

    /// Encodes one batch. Succeeds exactly when the target encoder
    /// accepts the batch's columns in the writer's present state; then
    /// the batch's columns are appended to what the writer holds and its
    /// rows to the written count. On failure the run must be abandoned.
    pub fn write_batch(&mut self, b: Batch) -> (r: Result<(), EncodeError>)
        requires
            old(self).wf(),
            b.wf(old(self).schema@),
            old(self).rows_written + b.rows <= usize::MAX,
        ensures
            final(self).schema == old(self).schema,
            final(self).arrow_schema == old(self).arrow_schema,
            r is Ok <==> rb_accepts(old(self).schema@, batch_cols(b)) && write_accepts(
                sink_model(old(self).writer),
                (old(self).schema@, batch_cols(b)),
            ),
            r is Ok ==> final(self).rows_written == old(self).rows_written + b.rows
                && final(self).wf() && sink_model(final(self).writer) == (SinkState {
                schema: sink_model(old(self).writer).schema,
                policy: sink_model(old(self).writer).policy,
                batches: sink_model(old(self).writer).batches.push(batch_cols(b)),
            }),
            r matches Err(e) ==> (e is Batch || e is Write) && final(self).rows_written == old(
                self,
            ).rows_written,
    {
        let rows = b.rows;
        let mut arrays: Vec<ColumnArray> = Vec::new();
        let mut cols = b.columns;
        let ghost target = batch_cols(b);
        proof {
            assert(cols@.map_values(|c: Column| c@) =~= target.skip(0));
            assert(arrays@.map_values(|a: ColumnArray| crate::arrow_glue::array_model(a)) =~= target.take(0));
            assert(forall|j: int| 0 <= j < cols@.len() ==> col_floats_parseable(
                #[trigger] cols@[j]@,
            ));
        }
        while cols.len() > 0
            invariant
                arrays@.len() + cols@.len() == target.len(),
                arrays@.map_values(|a: ColumnArray| crate::arrow_glue::array_model(a)) =~= target.take(
                    arrays@.len() as int,
                ),
                cols@.map_values(|c: Column| c@) =~= target.skip(arrays@.len() as int),
                forall|j: int| 0 <= j < cols@.len() ==> col_floats_parseable(
                    #[trigger] cols@[j]@,
                ),
            decreases cols@.len(),
        {
            let ghost k = arrays@.len() as int;
            let ghost oldcols = cols@;
            let c = cols.remove(0);
            proof {
                assert(oldcols.map_values(|c: Column| c@)[0] == c@);
                assert(c@ == target.skip(k)[0]);
                assert(target.skip(k)[0] == target[k]);
                assert forall|t: int| 0 <= t < cols@.len() implies cols@.map_values(
                    |c: Column| c@,
                )[t] == #[trigger] target.skip(k + 1)[t] by {
                    assert(cols@[t] == oldcols[t + 1]);
                    assert(oldcols.map_values(|c: Column| c@)[t + 1] == target.skip(k)[t + 1]);
                    assert(target.skip(k)[t + 1] == target[k + 1 + t]);
                }
                assert(cols@.map_values(|c: Column| c@) =~= target.skip(k + 1));
            }
            arrays.push(column_array(c));
            proof {
                assert(arrays@.map_values(|a: ColumnArray| crate::arrow_glue::array_model(a))
                    =~= target.take(k + 1));
            }
        }
        proof {
            assert(arrays@.map_values(|a: ColumnArray| crate::arrow_glue::array_model(a))
                =~= target);
        }
        let rb = match make_record_batch(&self.arrow_schema, arrays) {
            Ok(rb) => rb,
            Err(m) => {
                return Err(EncodeError::Batch(m));
            },
        };
        proof {
            assert(batch_model(rb) == (old(self).schema@, target));
        }
        match writer_write(&mut self.writer, &rb) {
            Ok(()) => {
                self.rows_written = self.rows_written + rows;
                Ok(())
            },
            Err(m) => Err(EncodeError::Write(m)),
        }
    }

    /// Finalizes the artifact: writes the trailing metadata and returns
    /// the finished bytes with the total row count. Succeeds exactly when
    /// finalizing does, and the bytes are the named encoding of the
    /// writer's state. A failure here is reported distinctly from a
    /// mid-stream write failure.
    pub fn finish(self) -> (r: Result<(Vec<u8>, usize), EncodeError>)
        ensures
            r is Ok <==> close_accepts(sink_model(self.writer)),
            r matches Ok((bytes, n)) ==> n == self.rows_written && bytes@ == artifact_bytes(
                sink_model(self.writer),
            ),
            r matches Err(e) ==> e is Finalize,
    {
        match writer_close(self.writer) {
            Ok(bytes) => Ok((bytes, self.rows_written)),
            Err(m) => Err(EncodeError::Finalize(m)),
        }
    }
}

/// The decoded columns of the rows `lo..hi`, one per schema field.
pub open spec fn batch_columns(
    rows: Seq<Seq<Seq<u8>>>,
    lo: int,
    hi: int,
    schema: Seq<FieldV>,
) -> Seq<ColumnV> {
    Seq::new(
        schema.len(),
        |j: int| decoded_column(column_cells(rows.subrange(lo, hi), j), schema[j].data_type),
    )
}

/// The batch sequence the conversion hands the sink for the rows from
/// `lo` on: chunks of [`DECODE_BATCH_ROWS`], the last one shorter.
pub open spec fn chunked_batches(
    rows: Seq<Seq<Seq<u8>>>,
    schema: Seq<FieldV>,
    lo: int,
) -> Seq<Seq<ColumnV>>
    decreases rows.len() - lo,
{
    if lo < 0 || lo >= rows.len() {
        Seq::empty()
    } else {
        let hi = if rows.len() - lo <= DECODE_BATCH_ROWS as int {
            rows.len() as int
        } else {
            lo + DECODE_BATCH_ROWS
        };
        seq![batch_columns(rows, lo, hi, schema)] + chunked_batches(rows, schema, hi)
    }
}

/// The whole batch sequence of a source's data rows.
pub open spec fn full_batches(
    src: Seq<u8>,
    delimiter: u8,
    has_header: bool,
    schema: Seq<FieldV>,
) -> Seq<Seq<ColumnV>> {
    chunked_batches(data_rows_of(src, delimiter, has_header), schema, 0)
}

/// Whether the target encoder accepts a whole run: the writer opens, it
/// accepts every batch in the state the earlier ones left, and finalize
/// succeeds.
pub open spec fn run_accepted(
    schema: Seq<FieldV>,
    policy: WriterPolicy,
    batches: Seq<Seq<ColumnV>>,
) -> bool {
    &&& writer_accepts(schema, policy)
    &&& (forall|k: int|
        0 <= k < batches.len() ==> rb_accepts(schema, #[trigger] batches[k]) && write_accepts(
            (SinkState { schema, policy, batches: batches.take(k) }),
            (schema, batches[k]),
        ))
    &&& close_accepts((SinkState { schema, policy, batches }))
}

/// Runs the whole conversion over in-memory source bytes: decodes the
/// data rows against the resolved schema and encodes them under the
/// policy into a finalized artifact.
///
/// Succeeds exactly when every data row fits the schema and the target
/// encoder accepts the run; the artifact is then the named encoding of
/// exactly the decoded columns of the data rows, in source order, under
/// the policy, and holds as many rows as the source has data rows. The
/// first row that does not fit the schema aborts the run with that row's
/// fault; a run that fails returns no artifact at all.
pub fn convert(
    src: &[u8],
    schema: ColumnSchema,
    delimiter: u8,
    has_header: bool,
    policy: &WriterPolicy,
) -> (r: Result<(Vec<u8>, usize), ConvertError>)
    requires
        policy.wf(),
    ensures
        r is Ok <==> (forall|t: int|
            0 <= t < data_rows_of(src@, delimiter, has_header).len() ==> row_ok(
                #[trigger] data_rows_of(src@, delimiter, has_header)[t],
                schema@,
            )) && run_accepted(schema@, *policy, full_batches(src@, delimiter, has_header, schema@)),
        r matches Ok((bytes, n)) ==> {
            &&& n == data_rows_of(src@, delimiter, has_header).len()
            &&& bytes@ == artifact_bytes(
                (SinkState {
                    schema: schema@,
                    policy: *policy,
                    batches: full_batches(src@, delimiter, has_header, schema@),
                }),
            )
        },
        r matches Err(ConvertError::Decode(e)) ==> {
            let rows = data_rows_of(src@, delimiter, has_header);
            &&& 0 <= e.row < rows.len()
            &&& !row_ok(rows[e.row as int], schema@)
            &&& crate::decode::row_error(rows[e.row as int], schema@, e.col as int, e.fault)
            &&& forall|t: int| 0 <= t < e.row ==> row_ok(#[trigger] rows[t], schema@)
        },
{
    let sink_schema = schema.clone();
    let mut decoder = RowDecoder::new(src, delimiter, has_header, schema, DECODE_BATCH_ROWS);
    let mut sink = match BatchSink::new(sink_schema, policy) {
        Ok(s) => s,
        Err(e) => {
            proof {
                assert(!run_accepted(
                    schema@,
                    *policy,
                    full_batches(src@, delimiter, has_header, schema@),
                ));
            }
            return Err(ConvertError::Encode(e));
        },
    };
    let total = decoder.total_rows();
    proof {
        assert(sink_model(sink.writer).batches + chunked_batches(
            decoder.rows.deep_view(),
            schema@,
            0,
        ) =~= full_batches(src@, delimiter, has_header, schema@));
    }
    while decoder.pos < total
        invariant
            decoder.wf(),
            decoder.schema@ == schema@,
            decoder.batch_rows == DECODE_BATCH_ROWS,
            sink.schema@ == schema@,
            sink.wf(),
            decoder.rows.deep_view() == data_rows_of(src@, delimiter, has_header),
            total == decoder.rows@.len(),
            sink.rows_written == decoder.pos,
            forall|t: int| 0 <= t < decoder.pos ==> row_ok(
                #[trigger] decoder.rows.deep_view()[t],
                decoder.schema@,
            ),
            writer_accepts(schema@, *policy),
            sink_model(sink.writer).schema == schema@,
            sink_model(sink.writer).policy == *policy,
            sink_model(sink.writer).batches + chunked_batches(
                decoder.rows.deep_view(),
                schema@,
                decoder.pos as int,
            ) =~= full_batches(src@, delimiter, has_header, schema@),
            forall|k: int| 0 <= k < sink_model(sink.writer).batches.len() ==> rb_accepts(
                schema@,
                #[trigger] full_batches(src@, delimiter, has_header, schema@)[k],
            ) && write_accepts(
                (SinkState {
                    schema: schema@,
                    policy: *policy,
                    batches: full_batches(src@, delimiter, has_header, schema@).take(k),
                }),
                (schema@, full_batches(src@, delimiter, has_header, schema@)[k]),
            ),
        decreases total - decoder.pos,
    {
        let ghost full = full_batches(src@, delimiter, has_header, schema@);
        let ghost rows_v = decoder.rows.deep_view();
        let ghost pos0 = decoder.pos as int;
        let ghost done = sink_model(sink.writer).batches;
        let ghost k = done.len() as int;
        let ghost pre = sink_model(sink.writer);
        match decoder.next_batch() {
            Ok(Option::None) => {
                return vstd::pervasive::unreached();
            },
            Ok(Option::Some(b)) => {
                proof {
                    let hi = decoder.pos as int;
                    assert(batch_cols(b) =~= batch_columns(rows_v, pos0, hi, schema@));
                    assert(chunked_batches(rows_v, schema@, pos0) =~= seq![
                        batch_columns(rows_v, pos0, hi, schema@),
                    ] + chunked_batches(rows_v, schema@, hi));
                    assert(full[k] == (done + chunked_batches(rows_v, schema@, pos0))[k]);
                    assert(full[k] == batch_cols(b));
                    assert(done =~= full.take(k));
                    assert(pre =~= (SinkState {
                        schema: schema@,
                        policy: *policy,
                        batches: full.take(k),
                    }));
                }
                match sink.write_batch(b) {
                    Ok(()) => {
                        proof {
                            assert(rb_accepts(schema@, full[k]));
                            assert(write_accepts(
                                (SinkState {
                                    schema: schema@,
                                    policy: *policy,
                                    batches: full.take(k),
                                }),
                                (schema@, full[k]),
                            ));
                            assert(sink_model(sink.writer).batches =~= full.take(k + 1));
                            assert(sink_model(sink.writer).batches + chunked_batches(
                                rows_v,
                                schema@,
                                decoder.pos as int,
                            ) =~= full);
                        }
                    },
                    Err(e) => {
                        proof {
                            assert(!(rb_accepts(schema@, full[k]) && write_accepts(
                                (SinkState {
                                    schema: schema@,
                                    policy: *policy,
                                    batches: full.take(k),
                                }),
                                (schema@, full[k]),
                            )));
                            assert(!run_accepted(schema@, *policy, full));
                        }
                        return Err(ConvertError::Encode(e));
                    },
                }
            },
            Err(e) => {
                proof {
                    let rows_g = data_rows_of(src@, delimiter, has_header);
                    assert(decoder.rows.deep_view() == rows_g);
                    assert forall|t: int| 0 <= t < e.row implies row_ok(
                        #[trigger] rows_g[t],
                        schema@,
                    ) by {
                        assert(rows_g[t] == decoder.rows.deep_view()[t]);
                    }
                    assert(!row_ok(rows_g[e.row as int], schema@));
                }
                return Err(ConvertError::Decode(e));
            },
        }
    }
    let ghost full = full_batches(src@, delimiter, has_header, schema@);
    let ghost final_model = sink_model(sink.writer);
    proof {
        let rows_g = data_rows_of(src@, delimiter, has_header);
        assert(decoder.pos == total);
        assert forall|t: int| 0 <= t < rows_g.len() implies row_ok(
            #[trigger] rows_g[t],
            schema@,
        ) by {
            assert(rows_g[t] == decoder.rows.deep_view()[t]);
        }
        assert(chunked_batches(decoder.rows.deep_view(), schema@, decoder.pos as int)
            =~= Seq::<Seq<ColumnV>>::empty());
        assert(final_model.batches =~= full);
        assert(final_model =~= (SinkState { schema: schema@, policy: *policy, batches: full }));
    }
    match sink.finish() {
        Ok((bytes, n)) => {
            proof {
                assert(run_accepted(schema@, *policy, full));
            }
            Ok((bytes, n))
        },
        Err(e) => {
            proof {
                assert(!close_accepts(final_model));
                assert(!run_accepted(schema@, *policy, full));
            }
            Err(ConvertError::Encode(e))
        },
    }
}

} // verus!
