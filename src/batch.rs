//! Per-file buffering of bulk lines by destination index, and what a bulk
//! response does to the run.

use crate::document::{compact_document, compacted, Document, Entry, FieldValue, JsonModel};
use crate::error::ImportError;
use crate::loader::{index_for, FlightLoader};
use crate::lookup::{first_header, first_position};
use crate::row::{present, FieldModel, RawRow};
use crate::text::{json_quote, json_string, opt_chars, opt_str_chars};
use crate::transform::timestamp_of;
use vstd::prelude::*;
use vstd::string::*;

verus! {

/// How many item errors of a failed bulk request are reported.
pub const MAX_REPORTED_ITEM_ERRORS: usize = 5;

/// What became of one row.
#[derive(Debug, PartialEq, Eq)]
pub enum RowStep {
    /// No index could be chosen: the row has no usable year.
    Skipped,
    /// The row gave a document with no field in it.
    Empty,
    /// The compacted document and the index it goes to.
    Routed { index: String, document: Document },
}

/// The bulk lines waiting for one index.
#[derive(Debug, PartialEq, Eq)]
pub struct IndexBuffer {
    pub index: String,
    pub lines: Vec<String>,
    pub count: usize,
}

/// What an index buffer stands for.
pub struct BufferModel {
    pub index: Seq<char>,
    pub lines: Seq<Seq<char>>,
    pub count: nat,
}

impl IndexBuffer {
    pub open spec fn model(&self) -> BufferModel {
        BufferModel {
            index: self.index@,
            lines: self.lines@.map_values(|l: String| l@),
            count: self.count as nat,
        }
    }
}

/// Lines to send in one bulk request, all for one index.
#[derive(Debug, PartialEq, Eq)]
pub struct Batch {
    pub index: String,
    pub lines: Vec<String>,
}

impl Batch {
    pub open spec fn model(&self) -> (Seq<char>, Seq<Seq<char>>) {
        (self.index@, self.lines@.map_values(|l: String| l@))
    }
}

/// What the store answered to a bulk request: its `errors` flag, when it is a
/// boolean, and the `error` of each item that has one, in item order.
#[derive(Debug, PartialEq, Eq)]
pub struct BulkResponse {
    pub errors: Option<bool>,
    pub item_errors: Vec<String>,
}

/// The state of one pass over one file: the buffers in the order their
/// indices first appeared, and the row and document counts.
#[derive(Debug, PartialEq, Eq)]
pub struct FilePass {
    pub buffers: Vec<IndexBuffer>,
    pub processed_rows: usize,
    pub indexed_docs: usize,
}

/// Position of the first buffer for `index`, or -1.
pub open spec fn buffer_position(bufs: Seq<BufferModel>, index: Seq<char>) -> int
    decreases bufs.len(),
{
    if bufs.len() == 0 {
        -1
    } else if bufs[0].index == index {
        0
    } else if buffer_position(bufs.drop_first(), index) < 0 {
        -1
    } else {
        buffer_position(bufs.drop_first(), index) + 1
    }
}

/// The buffers after a document's two lines go to `index`, and the lines to
/// flush if the buffer reached `batch_size` documents.
pub open spec fn buffered(
    bufs: Seq<BufferModel>,
    index: Seq<char>,
    action: Seq<char>,
    body: Seq<char>,
    batch_size: nat,
) -> (Seq<BufferModel>, Option<Seq<Seq<char>>>) {
    let p = buffer_position(bufs, index);
    let at = if p >= 0 {
        p
    } else {
        bufs.len() as int
    };
    let base = if p >= 0 {
        bufs
    } else {
        bufs.push(BufferModel { index, lines: Seq::empty(), count: 0 })
    };
    let lines = base[at].lines + seq![action, body];
    let count = base[at].count + 1;
    if count >= batch_size {
        (base.update(at, BufferModel { index: base[at].index, lines: Seq::empty(), count: 0 }), Some(lines))
    } else {
        (base.update(at, BufferModel { index: base[at].index, lines, count }), None)
    }
}

/// The batches still waiting in `bufs`, in buffer order.
pub open spec fn pending(bufs: Seq<BufferModel>) -> Seq<(Seq<char>, Seq<Seq<char>>)>
    decreases bufs.len(),
{
    if bufs.len() == 0 {
        Seq::empty()
    } else if bufs.last().count > 0 {
        pending(bufs.drop_last()).push((bufs.last().index, bufs.last().lines))
    } else {
        pending(bufs.drop_last())
    }
}

/// The bulk action line that sends the next line to `index`.
pub open spec fn action_text(index: Seq<char>) -> Seq<char> {
    "{\"index\":{\"_index\":"@ + json_string(index) + "}}"@
}

/// The item errors that a failed bulk request reports: the first few.
pub open spec fn reported_errors(e: Seq<Seq<char>>) -> Seq<Seq<char>> {
    if e.len() <= MAX_REPORTED_ITEM_ERRORS {
        e
    } else {
        e.subrange(0, MAX_REPORTED_ITEM_ERRORS as int)
    }
}

/// A failed bulk request that lists item errors reports at least one of
/// them, and never more than the limit.
pub proof fn lemma_failed_flush_reports_errors(e: Seq<Seq<char>>)
    requires
        e.len() > 0,
    ensures
        0 < reported_errors(e).len() <= MAX_REPORTED_ITEM_ERRORS,
        reported_errors(e)[0] == e[0],
{
}

/// Whether a header names a timestamp column, `@timestamp` or `FlightDate`.
pub fn has_timestamp_column(headers: &Vec<String>) -> (r: bool)
    ensures
        r == (first_position(headers@, "@timestamp"@) >= 0 || first_position(
            headers@,
            "FlightDate"@,
        ) >= 0),
{
    first_header(headers, "@timestamp").is_some() || first_header(headers, "FlightDate").is_some()
}

/// The bulk action line for `index`.
pub fn action_line(index: &str) -> (r: Result<String, ImportError>)
    ensures
        r is Ok,
        r matches Ok(t) ==> t@ == action_text(index@),
{
    match json_quote(index) {
        Ok(q) => {
            let mut out = "{\"index\":{\"_index\":".to_owned();
            out.append(q.as_str());
            out.append("}}");
            Ok(out)
        },
        Err(_) => Err(ImportError::Serialization),
    }
}

impl FlightLoader {
    /// The index a row goes to, given the file's year and month hints.
    pub open spec fn destination(
        &self,
        row: Seq<FieldModel>,
        year: Option<Seq<char>>,
        month: Option<Seq<char>>,
    ) -> Option<Seq<char>> {
        index_for(self.index_prefix@, timestamp_of(row), year, month)
    }

    /// The index of a row's document, from its timestamp and the file's hints.
    pub fn row_index(&self, row: &RawRow, file_year: Option<&str>, file_month: Option<&str>) -> (r:
        Option<String>)
        ensures
            opt_chars(r) == self.destination(
                row@,
                opt_str_chars(file_year),
                opt_str_chars(file_month),
            ),
    {
        let ts = match row.present("@timestamp") {
            Some(t) => Some(t),
            None => row.present("FlightDate"),
        };
        match &ts {
            Some(t) => self.extract_index_name(Some(t.as_str()), file_year, file_month),
            None => self.extract_index_name(None, file_year, file_month),
        }
    }

    /// What becomes of `row`: skipped without an index, dropped when its
    /// document is empty, else its compacted document and index.
    pub fn route_row(&self, row: &RawRow, file_year: Option<&str>, file_month: Option<&str>) -> (r:
        RowStep)
        ensures
            match r {
                RowStep::Skipped => self.destination(
                    row@,
                    opt_str_chars(file_year),
                    opt_str_chars(file_month),
                ) is None,
                RowStep::Empty => self.destination(
                    row@,
                    opt_str_chars(file_year),
                    opt_str_chars(file_month),
                ) is Some && compacted(self.document_of(row@)).len() == 0,
                RowStep::Routed { index, document } => self.destination(
                    row@,
                    opt_str_chars(file_year),
                    opt_str_chars(file_month),
                ) == Some(index@) && document@ == compacted(self.document_of(row@))
                    && document@.len() > 0,
            },
    {
        let doc = self.transform_row(row);
        let index = self.row_index(row, file_year, file_month);
        match index {
            None => RowStep::Skipped,
            Some(index) => {
                let document = compact_document(&doc);
                if document.entries.len() == 0 {
                    RowStep::Empty
                } else {
                    RowStep::Routed { index, document }
                }
            },
        }
    }

    /// A preview of the row's document: compacted, with its index under
    /// `__index` when it has one.
    pub fn sample_row(&self, row: &RawRow, file_year: Option<&str>, file_month: Option<&str>) -> (r:
        Document)
        ensures
            r@ == match self.destination(
                row@,
                opt_str_chars(file_year),
                opt_str_chars(file_month),
            ) {
                Some(i) => compacted(self.document_of(row@)).push(
                    ("__index"@, JsonModel::Text(i)),
                ),
                None => compacted(self.document_of(row@)),
            },
    {
        let doc = self.transform_row(row);
        let mut out = compact_document(&doc);
        let index = self.row_index(row, file_year, file_month);
        if let Some(i) = index {
            let ghost before = out.entries@;
            let e = Entry { key: "__index".to_owned(), value: FieldValue::Text(i) };
            out.entries.push(e);
            assert(out@ =~= before.map_values(|e: Entry| e.model()).push(e.model()));
        }
        out
    }

    /// Takes in the store's answer to the bulk request for `batch`. When the
    /// store reports errors, the run stops with the first item errors;
    /// otherwise each pair of lines counts as one loaded document.
    pub fn record_flush(&mut self, pass: &mut FilePass, batch: &Batch, response: &BulkResponse) -> (r:
        Result<usize, ImportError>)
        requires
            response.errors != Some(true) ==> old(self).loaded_records + batch.lines@.len() / 2
                <= usize::MAX,
            response.errors != Some(true) ==> old(pass).indexed_docs + batch.lines@.len() / 2
                <= usize::MAX,
        ensures
            response.errors == Some(true) ==> {
                &&& r matches Err(ImportError::BulkIndexing { index, item_errors })
                &&& index@ == batch.index@
                &&& item_errors@.map_values(|s: String| s@) == reported_errors(
                    response.item_errors@.map_values(|s: String| s@),
                )
                &&& *final(self) == *old(self)
                &&& *final(pass) == *old(pass)
            },
            response.errors != Some(true) ==> {
                &&& r matches Ok(n) && n == batch.lines@.len() / 2
                &&& final(self).loaded_records == old(self).loaded_records + batch.lines@.len() / 2
                &&& final(pass).indexed_docs == old(pass).indexed_docs + batch.lines@.len() / 2
                &&& final(self).index_prefix == old(self).index_prefix
                &&& final(self).batch_size == old(self).batch_size
                &&& final(self).refresh == old(self).refresh
                &&& final(self).airport_lookup == old(self).airport_lookup
                &&& final(self).cancellation_lookup == old(self).cancellation_lookup
                &&& final(self).ensured_indices == old(self).ensured_indices
                &&& final(self).total_records == old(self).total_records
                &&& final(pass).buffers == old(pass).buffers
                &&& final(pass).processed_rows == old(pass).processed_rows
            },
    {
        if response.errors == Some(true) {
            let mut reported: Vec<String> = Vec::new();
            let n = if response.item_errors.len() < MAX_REPORTED_ITEM_ERRORS {
                response.item_errors.len()
            } else {
                MAX_REPORTED_ITEM_ERRORS
            };
            let mut i: usize = 0;
            while i < n
                invariant
                    i <= n <= response.item_errors.len(),
                    n <= MAX_REPORTED_ITEM_ERRORS,
                    n == response.item_errors.len() || n == MAX_REPORTED_ITEM_ERRORS,
                    reported@.map_values(|s: String| s@) =~= response.item_errors@.map_values(
                        |s: String| s@,
                    ).subrange(0, i as int),
                decreases n - i,
            {
                let ghost before = reported@;
                let e = response.item_errors[i].clone();
                reported.push(e);
                assert(reported@.map_values(|s: String| s@) =~= before.map_values(|s: String| s@).push(
                    e@,
                ));
                i = i + 1;
            }
            proof {
                let all = response.item_errors@.map_values(|s: String| s@);
                if all.len() <= MAX_REPORTED_ITEM_ERRORS {
                    assert(all.subrange(0, n as int) =~= all);
                }
            }
            return Err(ImportError::BulkIndexing { index: batch.index.clone(), item_errors: reported });
        }
        let docs = batch.lines.len() / 2;
        self.loaded_records = self.loaded_records + docs;
        pass.indexed_docs = pass.indexed_docs + docs;
        Ok(docs)
    }
}

impl FilePass {
    pub open spec fn buffer_models(&self) -> Seq<BufferModel> {
        self.buffers@.map_values(|b: IndexBuffer| b.model())
    }

    /// Each buffer holds two lines per document and its count can still grow.
    pub open spec fn wf(&self) -> bool {
        forall|i: int|
            0 <= i < self.buffers@.len() ==> {
                &&& (#[trigger] self.buffers@[i]).count < usize::MAX
                &&& self.buffers@[i].lines@.len() == 2 * self.buffers@[i].count
            }
    }

    /// A pass with no buffer and nothing counted.
    pub fn new() -> (r: FilePass)
        ensures
            r.wf(),
            r.buffers@.len() == 0,
            r.processed_rows == 0,
            r.indexed_docs == 0,
    {
        FilePass { buffers: Vec::new(), processed_rows: 0, indexed_docs: 0 }
    }

    /// Counts `row` as processed and routes it; no buffer changes, so a
    /// skipped row stays out of every buffer.
    pub fn admit_row(
        &mut self,
        loader: &FlightLoader,
        row: &RawRow,
        file_year: Option<&str>,
        file_month: Option<&str>,
    ) -> (r: RowStep)
        requires
            old(self).processed_rows < usize::MAX,
        ensures
            final(self).processed_rows == old(self).processed_rows + 1,
            final(self).buffers == old(self).buffers,
            final(self).indexed_docs == old(self).indexed_docs,
            match r {
                RowStep::Skipped => loader.destination(
                    row@,
                    opt_str_chars(file_year),
                    opt_str_chars(file_month),
                ) is None,
                RowStep::Empty => loader.destination(
                    row@,
                    opt_str_chars(file_year),
                    opt_str_chars(file_month),
                ) is Some && compacted(loader.document_of(row@)).len() == 0,
                RowStep::Routed { index, document } => loader.destination(
                    row@,
                    opt_str_chars(file_year),
                    opt_str_chars(file_month),
                ) == Some(index@) && document@ == compacted(loader.document_of(row@))
                    && document@.len() > 0,
            },
    {
        self.processed_rows = self.processed_rows + 1;
        loader.route_row(row, file_year, file_month)
    }

    fn find_buffer(&self, index: &str) -> (r: Option<usize>)
        ensures
            match r {
                Some(i) => buffer_position(self.buffer_models(), index@) == i,
                None => buffer_position(self.buffer_models(), index@) == -1,
            },
    {
        let k = index.to_owned();
        let mut i: usize = 0;
        while i < self.buffers.len()
            invariant
                i <= self.buffers.len(),
                k@ == index@,
                forall|j: int| 0 <= j < i ==> self.buffers@[j].index@ != index@,
            decreases self.buffers.len() - i,
        {
            if self.buffers[i].index == k {
                proof {
                    lemma_buffer_position_at(self.buffer_models(), index@, i as int);
                }
                return Some(i);
            }
            i = i + 1;
        }
        proof {
            lemma_buffer_position_at(self.buffer_models(), index@, self.buffers@.len() as int);
        }
        None
    }

    /// Appends a document's action and body lines to the buffer of `index`,
    /// made on first use. When the buffer reaches `batch_size` documents its
    /// lines are handed back for flushing and it starts again empty.
    pub fn buffer_lines(
        &mut self,
        index: &str,
        action: String,
        body: String,
        batch_size: usize,
    ) -> (r: Option<Batch>)
        requires
            old(self).wf(),
        ensures
            final(self).wf(),
            final(self).buffer_models() == buffered(
                old(self).buffer_models(),
                index@,
                action@,
                body@,
                batch_size as nat,
            ).0,
            match r {
                Some(b) => buffered(
                    old(self).buffer_models(),
                    index@,
                    action@,
                    body@,
                    batch_size as nat,
                ).1 == Some(b.model().1) && b.index@ == index@,
                None => buffered(
                    old(self).buffer_models(),
                    index@,
                    action@,
                    body@,
                    batch_size as nat,
                ).1 is None,
            },
            final(self).processed_rows == old(self).processed_rows,
            final(self).indexed_docs == old(self).indexed_docs,
    {
        let ghost bufs = self.buffer_models();
        proof {
            lemma_buffer_position_bounds(bufs, index@);
        }
        let at = match self.find_buffer(index) {
            Some(i) => i,
            None => {
                let fresh = IndexBuffer { index: index.to_owned(), lines: Vec::new(), count: 0 };
                assert(fresh.model() == BufferModel {
                    index: index@,
                    lines: Seq::<Seq<char>>::empty(),
                    count: 0,
                }) by {
                    assert(fresh.lines@.map_values(|l: String| l@) =~= Seq::<Seq<char>>::empty());
                }
                self.buffers.push(fresh);
                assert(self.buffer_models() =~= bufs.push(
                    BufferModel { index: index@, lines: Seq::empty(), count: 0 },
                ));
                self.buffers.len() - 1
            },
        };
        let ghost base = self.buffer_models();
        assert(at < self.buffers@.len());
        assert(self.wf());
        let ghost old_lines = self.buffers@[at as int].lines@;
        assert(self.buffers@[at as int].count < usize::MAX);
        let b = &mut self.buffers[at];
        b.lines.push(action);
        b.lines.push(body);
        b.count = b.count + 1;
        assert(b.lines@ =~= old_lines.push(action).push(body));
        if b.count >= batch_size {
            let mut taken: Vec<String> = Vec::new();
            std::mem::swap(&mut b.lines, &mut taken);
            b.count = 0;
            assert(taken@.map_values(|l: String| l@) =~= base[at as int].lines + seq![action@, body@]);
            assert(b.lines@.map_values(|l: String| l@) =~= Seq::<Seq<char>>::empty());
            assert(self.buffer_models() =~= base.update(
                at as int,
                BufferModel { index: base[at as int].index, lines: Seq::empty(), count: 0 },
            ));
            Some(Batch { index: index.to_owned(), lines: taken })
        } else {
            assert(b.lines@.map_values(|l: String| l@) =~= base[at as int].lines + seq![action@, body@]);
            assert(self.buffer_models() =~= base.update(
                at as int,
                BufferModel {
                    index: base[at as int].index,
                    lines: base[at as int].lines + seq![action@, body@],
                    count: base[at as int].count + 1,
                },
            ));
            None
        }
    }

    /// Writes `document` as its two bulk lines and buffers them for `index`,
    /// which must already have been created in this run; a full buffer is
    /// handed back at the loader's batch size.
    pub fn buffer_document(&mut self, loader: &FlightLoader, index: &str, document: &Document) -> (r:
        Result<Option<Batch>, ImportError>)
        requires
            old(self).wf(),
            loader.ensured_indices@.map_values(|s: String| s@).contains(index@),
        ensures
            final(self).wf(),
            r is Ok,
            r matches Ok(flushed) ==> {
                let (bufs, out) = buffered(
                    old(self).buffer_models(),
                    index@,
                    action_text(index@),
                    crate::document::object_text(document@),
                    loader.batch_size as nat,
                );
                &&& final(self).buffer_models() == bufs
                &&& match flushed {
                    Some(b) => out == Some(b.model().1) && b.index@ == index@,
                    None => out is None,
                }
                &&& final(self).processed_rows == old(self).processed_rows
                &&& final(self).indexed_docs == old(self).indexed_docs
            },
    {
        let action = match action_line(index) {
            Ok(a) => a,
            Err(e) => return Err(e),
        };
        let body = match document.to_json() {
            Ok(b) => b,
            Err(e) => return Err(e),
        };
        Ok(self.buffer_lines(index, action, body, loader.batch_size))
    }

    /// Hands back the lines of every buffer that holds documents, in buffer
    /// order, and empties all buffers.
    pub fn drain_pending(&mut self) -> (r: Vec<Batch>)
        requires
            old(self).wf(),
        ensures
            final(self).wf(),
            r@.map_values(|b: Batch| b.model()) == pending(old(self).buffer_models()),
            final(self).buffer_models() == old(self).buffer_models().map_values(
                |b: BufferModel| BufferModel { index: b.index, lines: Seq::empty(), count: 0 },
            ),
            final(self).processed_rows == old(self).processed_rows,
            final(self).indexed_docs == old(self).indexed_docs,
    {
        let ghost bufs = self.buffer_models();
        let mut out: Vec<Batch> = Vec::new();
        let n = self.buffers.len();
        let mut i: usize = 0;
        while i < n
            invariant
                i <= n,
                n == self.buffers@.len(),
                bufs.len() == n,
                self.wf(),
                forall|j: int| i <= j < n ==> #[trigger] self.buffer_models()[j] == bufs[j],
                forall|j: int|
                    0 <= j < i ==> #[trigger] self.buffer_models()[j] == (BufferModel {
                        index: bufs[j].index,
                        lines: Seq::empty(),
                        count: 0,
                    }),
                out@.map_values(|b: Batch| b.model()) == pending(bufs.subrange(0, i as int)),
                self.processed_rows == old(self).processed_rows,
                self.indexed_docs == old(self).indexed_docs,
            decreases n - i,
        {
            let ghost before = out@;
            let ghost prev = self.buffer_models();
            let ghost cleared = BufferModel { index: bufs[i as int].index, lines: Seq::empty(), count: 0 };
            assert(prev[i as int] == bufs[i as int]);
            assert(bufs.subrange(0, i + 1).drop_last() =~= bufs.subrange(0, i as int));
            assert(bufs.subrange(0, i + 1).last() == bufs[i as int]);
            let b = &mut self.buffers[i];
            let mut taken: Vec<String> = Vec::new();
            std::mem::swap(&mut b.lines, &mut taken);
            let count = b.count;
            b.count = 0;
            assert(taken@.map_values(|l: String| l@) =~= bufs[i as int].lines);
            assert(b.lines@.map_values(|l: String| l@) =~= Seq::<Seq<char>>::empty());
            if count > 0 {
                let batch = Batch { index: b.index.clone(), lines: taken };
                out.push(batch);
                assert(out@.map_values(|b: Batch| b.model()) =~= before.map_values(
                    |b: Batch| b.model(),
                ).push(batch.model()));
            }
            assert(self.buffer_models() =~= prev.update(i as int, cleared));
            i = i + 1;
        }
        assert(bufs.subrange(0, n as int) =~= bufs);
        assert(self.buffer_models() =~= bufs.map_values(
            |b: BufferModel| BufferModel { index: b.index, lines: Seq::empty(), count: 0 },
        ));
        out
    }
}

/// A row with neither `@timestamp` nor `FlightDate`, from a file whose name
/// gives no year, has no index: `admit_row` counts it and skips it, leaving
/// every buffer as it was.
pub proof fn lemma_undated_row_is_skipped(
    loader: FlightLoader,
    row: Seq<FieldModel>,
    month: Option<Seq<char>>,
)
    requires
        present(row, "@timestamp"@) is None,
        present(row, "FlightDate"@) is None,
    ensures
        loader.destination(row, None, month) is None,
{
}

/// The action and body lines of each document, in order.
pub open spec fn pair_lines(docs: Seq<(Seq<char>, Seq<char>)>) -> Seq<Seq<char>>
    decreases docs.len(),
{
    if docs.len() == 0 {
        Seq::empty()
    } else {
        pair_lines(docs.drop_last()) + seq![docs.last().0, docs.last().1]
    }
}

/// The buffers after each document's lines go to `index` in turn, and the
/// batches flushed on the way.
pub open spec fn buffer_run(
    bufs: Seq<BufferModel>,
    index: Seq<char>,
    docs: Seq<(Seq<char>, Seq<char>)>,
    batch_size: nat,
) -> (Seq<BufferModel>, Seq<Seq<Seq<char>>>)
    decreases docs.len(),
{
    if docs.len() == 0 {
        (bufs, Seq::empty())
    } else {
        let prev = buffer_run(bufs, index, docs.drop_last(), batch_size);
        let step = buffered(prev.0, index, docs.last().0, docs.last().1, batch_size);
        (
            step.0,
            match step.1 {
                Some(lines) => prev.1.push(lines),
                None => prev.1,
            },
        )
    }
}

proof fn lemma_absent_position(bufs: Seq<BufferModel>, index: Seq<char>)
    requires
        buffer_position(bufs, index) == -1,
    ensures
        forall|j: int| 0 <= j < bufs.len() ==> (#[trigger] bufs[j]).index != index,
    decreases bufs.len(),
{
    if bufs.len() > 0 {
        lemma_absent_position(bufs.drop_first(), index);
        assert forall|j: int| 0 <= j < bufs.len() implies (#[trigger] bufs[j]).index != index by {
            if j > 0 {
                assert(bufs[j] == bufs.drop_first()[j - 1]);
            }
        }
    }
}

proof fn lemma_appended_position(bufs: Seq<BufferModel>, index: Seq<char>, last: BufferModel)
    requires
        buffer_position(bufs, index) == -1,
        last.index == index,
    ensures
        buffer_position(bufs.push(last), index) == bufs.len(),
{
    lemma_absent_position(bufs, index);
    let grown = bufs.push(last);
    assert forall|j: int| 0 <= j < bufs.len() implies grown[j].index != index by {
        assert(grown[j] == bufs[j]);
    }
    lemma_buffer_position_at(grown, index, bufs.len() as int);
}

proof fn lemma_run_below_threshold(
    bufs: Seq<BufferModel>,
    index: Seq<char>,
    docs: Seq<(Seq<char>, Seq<char>)>,
    batch_size: nat,
)
    requires
        buffer_position(bufs, index) == -1,
        0 < docs.len() < batch_size,
    ensures
        buffer_run(bufs, index, docs, batch_size) == (
            bufs.push(BufferModel { index, lines: pair_lines(docs), count: docs.len() }),
            Seq::<Seq<Seq<char>>>::empty(),
        ),
    decreases docs.len(),
{
    let prefix = docs.drop_last();
    let (a, d) = docs.last();
    let held = BufferModel { index, lines: pair_lines(prefix), count: prefix.len() };
    let prev_bufs = if prefix.len() == 0 {
        bufs
    } else {
        bufs.push(held)
    };
    if prefix.len() == 0 {
        assert(buffer_run(bufs, index, prefix, batch_size) == (bufs, Seq::<Seq<Seq<char>>>::empty()));
        assert(pair_lines(prefix) =~= Seq::<Seq<char>>::empty());
    } else {
        lemma_run_below_threshold(bufs, index, prefix, batch_size);
        lemma_appended_position(bufs, index, held);
    }
    let prev = buffer_run(bufs, index, prefix, batch_size);
    assert(prev.0 == prev_bufs);
    assert(prev.1 == Seq::<Seq<Seq<char>>>::empty());
    let at = bufs.len() as int;
    let base = bufs.push(held);
    assert(buffer_position(prev_bufs, index) == -1 ==> prev_bufs.push(
        BufferModel { index, lines: Seq::empty(), count: 0 },
    ) =~= base);
    assert(base[at] == held);
    let grown = BufferModel { index, lines: held.lines + seq![a, d], count: held.count + 1 };
    assert(grown.lines =~= pair_lines(docs));
    let step = buffered(prev_bufs, index, a, d, batch_size);
    assert(step == (base.update(at, grown), Option::<Seq<Seq<char>>>::None));
    assert(base.update(at, grown) =~= bufs.push(
        BufferModel { index, lines: pair_lines(docs), count: docs.len() },
    ));
}

proof fn lemma_run_at_threshold(
    bufs: Seq<BufferModel>,
    index: Seq<char>,
    docs: Seq<(Seq<char>, Seq<char>)>,
    batch_size: nat,
)
    requires
        buffer_position(bufs, index) == -1,
        docs.len() == batch_size,
        batch_size >= 1,
    ensures
        buffer_run(bufs, index, docs, batch_size) == (
            bufs.push(BufferModel { index, lines: Seq::empty(), count: 0 }),
            seq![pair_lines(docs)],
        ),
{
    let prefix = docs.drop_last();
    let (a, d) = docs.last();
    let held = BufferModel { index, lines: pair_lines(prefix), count: prefix.len() };
    let fresh = BufferModel { index, lines: Seq::empty(), count: 0 };
    let prev_bufs = if prefix.len() == 0 {
        bufs
    } else {
        bufs.push(held)
    };
    if prefix.len() == 0 {
        assert(buffer_run(bufs, index, prefix, batch_size) == (bufs, Seq::<Seq<Seq<char>>>::empty()));
        assert(pair_lines(prefix) =~= Seq::<Seq<char>>::empty());
    } else {
        lemma_run_below_threshold(bufs, index, prefix, batch_size);
        lemma_appended_position(bufs, index, held);
    }
    let prev = buffer_run(bufs, index, prefix, batch_size);
    assert(prev.0 == prev_bufs);
    assert(prev.1 == Seq::<Seq<Seq<char>>>::empty());
    let at = bufs.len() as int;
    let base = bufs.push(held);
    assert(buffer_position(prev_bufs, index) == -1 ==> prev_bufs.push(fresh) =~= base);
    assert(base[at] == held);
    let lines = held.lines + seq![a, d];
    assert(lines =~= pair_lines(docs));
    let step = buffered(prev_bufs, index, a, d, batch_size);
    assert(step == (base.update(at, fresh), Some(lines)));
    assert(base.update(at, fresh) =~= bufs.push(fresh));
    assert(Seq::<Seq<Seq<char>>>::empty().push(lines) =~= seq![pair_lines(docs)]);
}

/// With batch size `b` of at least two, the first `b` documents for a new
/// index give exactly one flush, which holds all their lines and leaves the
/// buffer empty; document `b + 1` then starts the buffer afresh without a
/// flush.
pub proof fn lemma_threshold_flushes_once(
    bufs: Seq<BufferModel>,
    index: Seq<char>,
    docs: Seq<(Seq<char>, Seq<char>)>,
    b: nat,
)
    requires
        buffer_position(bufs, index) == -1,
        b >= 2,
        docs.len() == b + 1,
    ensures
        buffer_run(bufs, index, docs.take(b as int), b) == (
            bufs.push(BufferModel { index, lines: Seq::empty(), count: 0 }),
            seq![pair_lines(docs.take(b as int))],
        ),
        buffer_run(bufs, index, docs, b) == (
            bufs.push(BufferModel { index, lines: seq![docs[b as int].0, docs[b as int].1], count: 1 }),
            seq![pair_lines(docs.take(b as int))],
        ),
{
    let first = docs.take(b as int);
    lemma_run_at_threshold(bufs, index, first, b);
    assert(docs.drop_last() =~= first);
    let fresh = BufferModel { index, lines: Seq::empty(), count: 0 };
    lemma_appended_position(bufs, index, fresh);
    let base = bufs.push(fresh);
    assert(fresh.lines + seq![docs.last().0, docs.last().1] =~= seq![docs[b as int].0, docs[b as int].1]);
    assert(base.update(bufs.len() as int, BufferModel {
        index,
        lines: fresh.lines + seq![docs.last().0, docs.last().1],
        count: 1,
    }) =~= bufs.push(BufferModel { index, lines: seq![docs[b as int].0, docs[b as int].1], count: 1 }));
}

/// How many of `rows` have an index, from a file whose name gives no year.
pub open spec fn routable_count(
    loader: FlightLoader,
    rows: Seq<Seq<FieldModel>>,
    month: Option<Seq<char>>,
) -> nat
    decreases rows.len(),
{
    if rows.len() == 0 {
        0
    } else {
        routable_count(loader, rows.drop_last(), month) + if loader.destination(
            rows.last(),
            None,
            month,
        ) is Some {
            1nat
        } else {
            0nat
        }
    }
}

/// How many of `rows` have neither a `@timestamp` nor a `FlightDate`.
pub open spec fn undated_count(rows: Seq<Seq<FieldModel>>) -> nat
    decreases rows.len(),
{
    if rows.len() == 0 {
        0
    } else {
        undated_count(rows.drop_last()) + if present(rows.last(), "@timestamp"@) is None && present(
            rows.last(),
            "FlightDate"@,
        ) is None {
            1nat
        } else {
            0nat
        }
    }
}

/// Of `n` rows from a file whose name gives no year, the `k` undated ones
/// are all skipped: at most `n - k` rows reach an index.
pub proof fn lemma_undated_rows_never_routed(
    loader: FlightLoader,
    rows: Seq<Seq<FieldModel>>,
    month: Option<Seq<char>>,
)
    ensures
        routable_count(loader, rows, month) + undated_count(rows) <= rows.len(),
    decreases rows.len(),
{
    if rows.len() > 0 {
        lemma_undated_rows_never_routed(loader, rows.drop_last(), month);
        let row = rows.last();
        if present(row, "@timestamp"@) is None && present(row, "FlightDate"@) is None {
            lemma_undated_row_is_skipped(loader, row, month);
        }
    }
}

proof fn lemma_buffer_position_bounds(bufs: Seq<BufferModel>, index: Seq<char>)
    ensures
        -1 <= buffer_position(bufs, index) < bufs.len(),
        buffer_position(bufs, index) >= 0 ==> bufs[buffer_position(bufs, index)].index == index,
    decreases bufs.len(),
{
    if bufs.len() > 0 && bufs[0].index != index {
        lemma_buffer_position_bounds(bufs.drop_first(), index);
    }
}

proof fn lemma_buffer_position_at(bufs: Seq<BufferModel>, index: Seq<char>, i: int)
    requires
        0 <= i <= bufs.len(),
        forall|j: int| 0 <= j < i ==> bufs[j].index != index,
        i < bufs.len() ==> bufs[i].index == index,
    ensures
        buffer_position(bufs, index) == if i < bufs.len() {
            i
        } else {
            -1
        },
    decreases i,
{
    if i > 0 {
        lemma_buffer_position_at(bufs.drop_first(), index, i - 1);
    }
}

} // verus!
