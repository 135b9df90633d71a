use crate::crawler::csv_sink::CsvSink;
use crate::crawler::empty_field::EmptyField;
use crate::crawler::timestamp::{moment_text, Timestamp};
use crate::error_kind::ErrorKind;
use crate::reading::Reading;
use crate::text::texts;
use vstd::prelude::*;
use vstd::string::StringExecFns;

verus! {

/// A buffered row as contracts see it: one cell per column, absent where the
/// reading had no value, and the seconds of the moment it was taken.
pub type Row = (Seq<Option<Seq<char>>>, int);

/// A series: its columns and the rows that wait to be written out, oldest
/// first.
#[derive(Debug, Clone)]
pub struct Dataset {
    fields: Vec<EmptyField>,
    values: Vec<(Vec<Option<String>>, Timestamp)>,
}

pub open spec fn cells(values: Seq<Option<String>>) -> Seq<Option<Seq<char>>> {
    values.map_values(
        |value: Option<String>|
            match value {
                Some(text) => Some(text@),
                None => None,
            },
    )
}

/// The cells of a reading laid out by column: the value's text where the
/// reading names the column, absent where it does not.
pub open spec fn aligned_values(
    names: Seq<Seq<char>>,
    data: Map<Seq<char>, (Seq<char>, Seq<char>)>,
) -> Seq<Option<Seq<char>>> {
    Seq::new(
        names.len(),
        |i: int|
            if data.contains_key(names[i]) {
                Some(data[names[i]].0)
            } else {
                None
            },
    )
}

/// What a cell is written as: its text, or nothing.
pub open spec fn cell_text(value: Option<Seq<char>>) -> Seq<char> {
    match value {
        Some(text) => text,
        None => Seq::empty(),
    }
}

/// The first record of a file: `timestamp`, then the column names in order.
pub open spec fn header_record(names: Seq<Seq<char>>) -> Seq<Seq<char>> {
    seq!["timestamp"@] + names
}

/// The record of a row: its moment as text, then its cells in column order.
pub open spec fn row_record(row: Row) -> Seq<Seq<char>> {
    seq![moment_text(row.1).unwrap()] + row.0.map_values(|value: Option<Seq<char>>| cell_text(value))
}

pub open spec fn row_records(rows: Seq<Row>) -> Seq<Seq<Seq<char>>> {
    rows.map_values(|row: Row| row_record(row))
}

/// What a file gets before the first row: the header if it held nothing.
pub open spec fn header_part(names: Seq<Seq<char>>, file_len: u64) -> Seq<Seq<Seq<char>>> {
    if file_len == 0 {
        seq![header_record(names)]
    } else {
        Seq::empty()
    }
}

/// The column definitions of a table, each behind a comma.
pub open spec fn column_definitions(names: Seq<Seq<char>>) -> Seq<char>
    decreases names.len(),
{
    if names.len() == 0 {
        Seq::empty()
    } else {
        column_definitions(names.drop_last()) + ", `"@ + names.last() + "` float"@
    }
}

/// The statement that makes sure a series has its table: a `timestamp`
/// column, which is the key, and one `float` column per field.
pub open spec fn create_table_text(table: Seq<char>, names: Seq<Seq<char>>) -> Seq<char> {
    "CREATE TABLE IF NOT EXISTS `"@ + table + "` (`timestamp` timestamp"@ + column_definitions(
        names,
    ) + ", PRIMARY KEY (`timestamp`))"@
}

/// The column names of an insert, each behind a comma.
pub open spec fn column_list(names: Seq<Seq<char>>) -> Seq<char>
    decreases names.len(),
{
    if names.len() == 0 {
        Seq::empty()
    } else {
        column_list(names.drop_last()) + ", "@ + names.last()
    }
}

/// What a cell is inserted as: its text, or `NULL`.
pub open spec fn sql_value(value: Option<Seq<char>>) -> Seq<char> {
    match value {
        Some(text) => text,
        None => "NULL"@,
    }
}

/// The cells of a row in an insert, each behind a comma.
pub open spec fn sql_values(values: Seq<Option<Seq<char>>>) -> Seq<char>
    decreases values.len(),
{
    if values.len() == 0 {
        Seq::empty()
    } else {
        sql_values(values.drop_last()) + ", "@ + sql_value(values.last())
    }
}

/// One row of an insert: the moment in quotes, then the cells.
pub open spec fn sql_row(row: Row) -> Seq<char> {
    "(\""@ + moment_text(row.1).unwrap() + "\""@ + sql_values(row.0) + ")"@
}

/// The rows of an insert, with a comma between two of them.
pub open spec fn sql_rows(rows: Seq<Row>) -> Seq<char>
    decreases rows.len(),
{
    if rows.len() == 0 {
        Seq::empty()
    } else if rows.len() == 1 {
        sql_row(rows[0])
    } else {
        sql_rows(rows.drop_last()) + ", "@ + sql_row(rows.last())
    }
}

/// The statement that inserts all the given rows at once.
pub open spec fn insert_text(table: Seq<char>, names: Seq<Seq<char>>, rows: Seq<Row>) -> Seq<
    char,
> {
    "INSERT INTO `"@ + table + "` (timestamp"@ + column_list(names) + ") VALUES "@ + sql_rows(rows)
}

/// The writer holds what the file is known to have, and beyond that at
/// most the one record `pending`, of which it is not known whether it got
/// through.
pub open spec fn at_most_pending(
    taken: Seq<Seq<Seq<char>>>,
    confirmed: Seq<Seq<Seq<char>>>,
    pending: Seq<Seq<char>>,
) -> bool {
    taken == confirmed || taken == confirmed.push(pending)
}

/// What one attempt to write a series out leaves behind. `rows` were
/// buffered before and `rest` after; the file behind the sink was known to
/// have got `taken` before and `now_taken` after. The rows that left the
/// buffer are the oldest ones, and the file got exactly them, in order,
/// behind the header if one was due.
/// An attempt that went through leaves no row; one that failed leaves the
/// row it failed on and all later ones, or failed on the header and changed
/// nothing.
pub open spec fn csv_saved(
    rows: Seq<Row>,
    rest: Seq<Row>,
    names: Seq<Seq<char>>,
    file_len: u64,
    taken: Seq<Seq<Seq<char>>>,
    now_taken: Seq<Seq<Seq<char>>>,
    went_through: bool,
) -> bool {
    let written = rows.len() - rest.len();
    let head = header_part(names, file_len);
    &&& 0 <= written <= rows.len()
    &&& rest == rows.skip(written)
    &&& if went_through {
        written == rows.len() && now_taken == taken + head + row_records(rows)
    } else {
        ||| written < rows.len() && now_taken == taken + head + row_records(rows.take(written))
        ||| file_len == 0 && written == 0 && now_taken == taken
    }
}

/// The rows that a series holds after readings were inserted one after the
/// other, each with its moment: the rows it had, then one row per reading,
/// in the order of the insertions.
pub open spec fn rows_after(
    rows: Seq<Row>,
    names: Seq<Seq<char>>,
    readings: Seq<(Map<Seq<char>, (Seq<char>, Seq<char>)>, int)>,
) -> Seq<Row>
    decreases readings.len(),
{
    if readings.len() == 0 {
        rows
    } else {
        rows_after(rows, names, readings.drop_last()).push(
            (aligned_values(names, readings.last().0), readings.last().1),
        )
    }
}

/// Inserting keeps the order of arrival, whatever the moments are: the row
/// of the `i`-th reading stands `i` places behind the rows that were there.
pub proof fn lemma_inserted_rows_keep_their_order(
    rows: Seq<Row>,
    names: Seq<Seq<char>>,
    readings: Seq<(Map<Seq<char>, (Seq<char>, Seq<char>)>, int)>,
)
    ensures
        rows_after(rows, names, readings).len() == rows.len() + readings.len(),
        forall|i: int| 0 <= i < rows.len() ==> rows_after(rows, names, readings)[i] == rows[i],
        forall|i: int|
            0 <= i < readings.len() ==> #[trigger] rows_after(rows, names, readings)[rows.len() + i]
                == (aligned_values(names, readings[i].0), readings[i].1),
    decreases readings.len(),
{
    if readings.len() > 0 {
        lemma_inserted_rows_keep_their_order(rows, names, readings.drop_last());
        let shorter = rows_after(rows, names, readings.drop_last());
        assert forall|i: int| 0 <= i < readings.len() implies #[trigger] rows_after(
            rows,
            names,
            readings,
        )[rows.len() + i] == (aligned_values(names, readings[i].0), readings[i].1) by {
            if i < readings.len() - 1 {
                assert(shorter[rows.len() + i] == (
                    aligned_values(names, readings.drop_last()[i].0),
                    readings.drop_last()[i].1,
                ));
            }
        }
    }
}

/// A save that went through got the rows into the file in the order in
/// which they were inserted, one record per row behind what the file had
/// and the header if one was due, and left the buffer empty.
pub proof fn lemma_saved_rows_keep_their_order(
    rows: Seq<Row>,
    rest: Seq<Row>,
    names: Seq<Seq<char>>,
    file_len: u64,
    taken: Seq<Seq<Seq<char>>>,
    now_taken: Seq<Seq<Seq<char>>>,
)
    requires
        csv_saved(rows, rest, names, file_len, taken, now_taken, true),
    ensures
        rest.len() == 0,
        now_taken.len() == taken.len() + header_part(names, file_len).len() + rows.len(),
        forall|i: int| 0 <= i < taken.len() ==> now_taken[i] == taken[i],
        forall|i: int|
            0 <= i < rows.len() ==> #[trigger] now_taken[taken.len() + header_part(
                names,
                file_len,
            ).len() + i] == row_record(rows[i]),
{
}

/// Saving an empty buffer writes no row. The file gets its header if it
/// held nothing, and nothing at all if it held something.
pub proof fn lemma_saving_nothing_writes_at_most_the_header(
    rest: Seq<Row>,
    names: Seq<Seq<char>>,
    file_len: u64,
    taken: Seq<Seq<Seq<char>>>,
    now_taken: Seq<Seq<Seq<char>>>,
    went_through: bool,
)
    requires
        csv_saved(Seq::<Row>::empty(), rest, names, file_len, taken, now_taken, went_through),
    ensures
        rest.len() == 0,
        went_through && file_len == 0 ==> now_taken == taken.push(header_record(names)),
        went_through && file_len != 0 ==> now_taken == taken,
        !went_through ==> file_len == 0 && now_taken == taken,
{
    if went_through {
        assert(row_records(Seq::<Row>::empty()) =~= Seq::<Seq<Seq<char>>>::empty());
        if file_len == 0 {
            assert(now_taken =~= taken.push(header_record(names)));
        } else {
            assert(now_taken =~= taken);
        }
    }
}

/// The header goes into a file once. Take two saves of a series, one
/// after the other, into a file that held nothing before the first and
/// something before the second: the file got the header, then the rows
/// of the first save, then those of the second, and no second header.
pub proof fn lemma_header_goes_in_once(
    first: Seq<Row>,
    second: Seq<Row>,
    names: Seq<Seq<char>>,
    len_at_second: u64,
    taken_by_first: Seq<Seq<Seq<char>>>,
    taken_by_second: Seq<Seq<Seq<char>>>,
)
    requires
        len_at_second != 0,
        csv_saved(
            first,
            Seq::<Row>::empty(),
            names,
            0,
            Seq::<Seq<Seq<char>>>::empty(),
            taken_by_first,
            true,
        ),
        csv_saved(
            second,
            Seq::<Row>::empty(),
            names,
            len_at_second,
            Seq::<Seq<Seq<char>>>::empty(),
            taken_by_second,
            true,
        ),
    ensures
        taken_by_first + taken_by_second == seq![header_record(names)] + row_records(
            first + second,
        ),
{
    assert(taken_by_first + taken_by_second =~= seq![header_record(names)] + row_records(
        first + second,
    ));
}

/// A save into a file that held something adds row records only.
pub proof fn lemma_no_header_into_a_file_with_content(
    rows: Seq<Row>,
    rest: Seq<Row>,
    names: Seq<Seq<char>>,
    file_len: u64,
    taken: Seq<Seq<Seq<char>>>,
    now_taken: Seq<Seq<Seq<char>>>,
    went_through: bool,
)
    requires
        file_len != 0,
        csv_saved(rows, rest, names, file_len, taken, now_taken, went_through),
    ensures
        now_taken == taken + row_records(rows.take(rows.len() - rest.len())),
{
    let written = rows.len() - rest.len();
    if went_through {
        assert(rows.take(written) =~= rows);
    }
    assert(now_taken =~= taken + row_records(rows.take(written)));
}

/// A cell that the reading has no value for is absent in the row and
/// empty in the row's record; one that it has a value for holds that
/// value's text.
pub proof fn lemma_missing_field_is_an_empty_cell(
    names: Seq<Seq<char>>,
    data: Map<Seq<char>, (Seq<char>, Seq<char>)>,
    secs: int,
    column: int,
)
    requires
        0 <= column < names.len(),
    ensures
        aligned_values(names, data).len() == names.len(),
        row_record((aligned_values(names, data), secs)).len() == names.len() + 1,
        !data.contains_key(names[column]) ==> aligned_values(names, data)[column] is None
            && row_record((aligned_values(names, data), secs))[column + 1] == Seq::<char>::empty(),
        data.contains_key(names[column]) ==> aligned_values(names, data)[column] == Some(
            data[names[column]].0,
        ) && row_record((aligned_values(names, data), secs))[column + 1] == data[names[column]].0,
{
}

/// A save that failed on a row got the rows before it into the file, in
/// order, and took exactly them out of the buffer: the row it failed on and
/// all later ones are still there, in order. A save that failed on the
/// header got nothing into the file and took nothing out.
pub proof fn lemma_failed_save_keeps_the_unwritten_rows(
    rows: Seq<Row>,
    rest: Seq<Row>,
    names: Seq<Seq<char>>,
    file_len: u64,
    taken: Seq<Seq<Seq<char>>>,
    now_taken: Seq<Seq<Seq<char>>>,
)
    requires
        csv_saved(rows, rest, names, file_len, taken, now_taken, false),
    ensures
        rest.len() <= rows.len(),
        forall|i: int|
            0 <= i < rest.len() ==> #[trigger] rest[i] == rows[rows.len() - rest.len() + i],
        rest.len() > 0 || (rows.len() == 0 && file_len == 0 && now_taken == taken),
        now_taken == taken || now_taken == taken + header_part(names, file_len) + row_records(
            rows.take(rows.len() - rest.len()),
        ),
{
}

/// No row is lost and none gets into the file twice over a save that
/// failed and the next one, which went through. The second save finds the
/// file empty exactly if it was empty before the first and the first got
/// nothing into it. Then the two saves together got into the file the
/// header, if one was due at the first, and every row once, in order.
pub proof fn lemma_retry_writes_every_row_once(
    rows: Seq<Row>,
    rest: Seq<Row>,
    names: Seq<Seq<char>>,
    len_at_first: u64,
    len_at_retry: u64,
    got_by_first: Seq<Seq<Seq<char>>>,
    got_by_retry: Seq<Seq<Seq<char>>>,
)
    requires
        csv_saved(
            rows,
            rest,
            names,
            len_at_first,
            Seq::<Seq<Seq<char>>>::empty(),
            got_by_first,
            false,
        ),
        csv_saved(
            rest,
            Seq::<Row>::empty(),
            names,
            len_at_retry,
            Seq::<Seq<Seq<char>>>::empty(),
            got_by_retry,
            true,
        ),
        len_at_retry == 0 <==> len_at_first == 0 && got_by_first.len() == 0,
    ensures
        got_by_first + got_by_retry == header_part(names, len_at_first) + row_records(rows),
{
    let written = rows.len() - rest.len();
    assert(rows.take(written) + rows.skip(written) =~= rows);
    assert(got_by_first + got_by_retry =~= header_part(names, len_at_first) + row_records(rows));
}

/// A suffix of aligned rows is aligned.
proof fn lemma_suffix_wf(rows: Seq<Row>, rest: Seq<Row>, written: int, names: Seq<Seq<char>>)
    requires
        0 <= written <= rows.len(),
        rest == rows.skip(written),
    ensures
        (forall|i: int| 0 <= i < rows.len() ==> (#[trigger] rows[i]).0.len() == names.len())
            ==> (forall|i: int| 0 <= i < rest.len() ==> (#[trigger] rest[i]).0.len() == names.len()),
{
    if forall|i: int| 0 <= i < rows.len() ==> (#[trigger] rows[i]).0.len() == names.len() {
        assert forall|i: int| 0 <= i < rest.len() implies (#[trigger] rest[i]).0.len()
            == names.len() by {
            assert(rest[i] == rows[i + written]);
        }
    }
}

impl Dataset {
    /// The column names, in column order.
    pub closed spec fn field_names(&self) -> Seq<Seq<char>> {
        self.fields@.map_values(|field: EmptyField| field.name@)
    }

    /// The column units, in column order.
    pub closed spec fn field_units(&self) -> Seq<Seq<char>> {
        self.fields@.map_values(|field: EmptyField| field.unit@)
    }

    /// The buffered rows, oldest first.
    pub closed spec fn rows(&self) -> Seq<Row> {
        self.values@.map_values(|row: (Vec<Option<String>>, Timestamp)| (cells(row.0@), row.1@))
    }

    /// Every buffered row has one cell per column.
    pub open spec fn wf(&self) -> bool {
        forall|i: int|
            0 <= i < self.rows().len() ==> (#[trigger] self.rows()[i]).0.len()
                == self.field_names().len()
    }

    /// An empty series whose columns are the given names, each with the unit
    /// at the same position.
    pub fn new(field_names: &[String], field_units: &[String]) -> (dataset: Self)
        requires
            field_names.len() <= field_units.len(),
        ensures
            dataset.field_names() == texts(field_names@),
            dataset.field_units() == texts(field_units@.take(field_names.len() as int)),
            dataset.rows().len() == 0,
            dataset.wf(),
    {
        let mut fields: Vec<EmptyField> = Vec::new();
        let mut index: usize = 0;
        while index < field_names.len()
            invariant
                index <= field_names.len() <= field_units.len(),
                fields.len() == index,
                forall|j: int|
                    0 <= j < index ==> fields[j].name@ == field_names[j]@ && fields[j].unit@
                        == field_units[j]@,
            decreases field_names.len() - index,
        {
            fields.push(
                EmptyField { name: field_names[index].clone(), unit: field_units[index].clone() },
            );
            index += 1;
        }
        let dataset = Self { fields, values: Vec::new() };
        assert(dataset.field_names() =~= texts(field_names@));
        assert(dataset.field_units() =~= texts(field_units@.take(field_names.len() as int)));
        dataset
    }

    /// The header record of this series.
    pub fn header(&self) -> (record: Vec<String>)
        ensures
            texts(record@) == header_record(self.field_names()),
    {
        let mut record: Vec<String> = Vec::new();
        record.push(String::from_str("timestamp"));
        let mut index: usize = 0;
        while index < self.fields.len()
            invariant
                index <= self.fields.len(),
                record.len() == index + 1,
                record[0]@ == "timestamp"@,
                forall|j: int| 0 <= j < index ==> record[j + 1]@ == self.fields[j].name@,
            decreases self.fields.len() - index,
        {
            record.push(self.fields[index].name.clone());
            index += 1;
        }
        assert(texts(record@) =~= header_record(self.field_names()));
        record
    }

    /// The record of the oldest buffered row.
    pub fn front_record(&self) -> (record: Vec<String>)
        requires
            self.rows().len() > 0,
        ensures
            texts(record@) == row_record(self.rows()[0]),
    {
        let row = &self.values[0];
        let mut record: Vec<String> = Vec::new();
        record.push(row.1.to_text());
        let mut index: usize = 0;
        while index < row.0.len()
            invariant
                index <= row.0.len(),
                record.len() == index + 1,
                moment_text(row.1@) == Some(record[0]@),
                forall|j: int| 0 <= j < index ==> record[j + 1]@ == cell_text(cells(row.0@)[j]),
            decreases row.0.len() - index,
        {
            let text = match &row.0[index] {
                Some(text) => text.clone(),
                None => String::new(),
            };
            record.push(text);
            index += 1;
        }
        assert(self.rows()[0] == (cells(row.0@), row.1@));
        assert(texts(record@) =~= row_record(self.rows()[0]));
        record
    }

    /// Takes the outcome of writing the oldest row: a row that was written
    /// leaves the buffer, a row that was not stays, and the failure is
    /// reported with the writer's message.
    pub fn settle_write(&mut self, outcome: Result<(), String>) -> (res: Result<(), ErrorKind>)
        requires
            old(self).rows().len() > 0,
        ensures
            final(self).field_names() == old(self).field_names(),
            final(self).field_units() == old(self).field_units(),
            match outcome {
                Ok(()) => res == Ok::<(), ErrorKind>(()) && final(self).rows() == old(self).rows().skip(1),
                Err(message) => res == Err::<(), ErrorKind>(ErrorKind::CouldNotWriteToCsv(message))
                    && final(self).rows() == old(self).rows(),
            },
    {
        match outcome {
            Ok(()) => {
                let ghost before = self.rows();
                self.values.remove(0);
                assert(self.rows() =~= before.skip(1));
                Ok(())
            },
            Err(message) => Err(ErrorKind::CouldNotWriteToCsv(message)),
        }
    }

    /// Writes the buffered rows to `sink`, oldest first, after the header
    /// if the file behind the sink held nothing when it was opened
    /// (`file_len` is its length then). Every record is flushed, and a row
    /// leaves the buffer only once the file is known to have it. The first
    /// failure ends the call: the rows that the file has are gone from the
    /// buffer, the row that failed and all later ones are still there. The
    /// sink must be settled, as a new one is; it is settled again after a
    /// call that went through.
    pub fn save_to_csv(&mut self, sink: &mut CsvSink, file_len: u64) -> (res: Result<
        (),
        ErrorKind,
    >)
        requires
            old(sink).settled(),
        ensures
            res is Ok ==> final(sink).settled(),
            res is Err ==> at_most_pending(
                final(sink).taken(),
                final(sink)@,
                if file_len == 0 && final(sink)@ == old(sink)@ {
                    header_record(old(self).field_names())
                } else {
                    row_record(final(self).rows()[0])
                },
            ),
            final(self).field_names() == old(self).field_names(),
            final(self).field_units() == old(self).field_units(),
            old(self).wf() ==> final(self).wf(),
            res matches Err(error) ==> error is CouldNotWriteToCsv,
            csv_saved(
                old(self).rows(),
                final(self).rows(),
                old(self).field_names(),
                file_len,
                old(sink)@,
                final(sink)@,
                res is Ok,
            ),
    {
        let ghost rows = self.rows();
        let ghost taken = sink@;
        let ghost head = header_part(self.field_names(), file_len);
        assert(rows.skip(0) =~= rows);
        if file_len == 0 {
            let header = self.header();
            assert(texts(header@).len() == header.len());
            match sink.put(&header) {
                Ok(()) => {},
                Err(message) => {
                    return Err(ErrorKind::CouldNotWriteToCsv(message));
                },
            }
        }
        assert(sink@ =~= taken + head + row_records(rows.take(0)));
        let ghost mut written: int = 0;
        while self.values.len() > 0
            invariant
                self.field_names() == old(self).field_names(),
                self.field_units() == old(self).field_units(),
                rows == old(self).rows(),
                0 <= written <= rows.len(),
                self.rows() == rows.skip(written),
                self.rows().len() == self.values.len(),
                sink.settled(),
                sink@ == taken + head + row_records(rows.take(written)),
                taken == old(sink)@,
                head == header_part(old(self).field_names(), file_len),
            decreases self.values.len(),
        {
            let record = self.front_record();
            assert(texts(record@).len() == record.len());
            let outcome = sink.put(&record);
            let ghost failed = outcome is Err;
            match self.settle_write(outcome) {
                Ok(()) => {
                    proof {
                        assert(rows.skip(written)[0] == rows[written]);
                        assert(rows.skip(written).skip(1) =~= rows.skip(written + 1));
                        assert(row_records(rows.take(written)).push(row_record(rows[written]))
                            =~= row_records(rows.take(written + 1)));
                        assert(taken + head + row_records(rows.take(written + 1)) =~= (taken
                            + head + row_records(rows.take(written))).push(
                            row_record(rows[written]),
                        ));
                        written = written + 1;
                    }
                },
                Err(error) => {
                    proof {
                        lemma_suffix_wf(rows, self.rows(), written, self.field_names());
                    }
                    return Err(error);
                },
            }
        }
        proof {
            assert(rows.take(written) =~= rows);
            lemma_suffix_wf(rows, self.rows(), written, self.field_names());
        }
        Ok(())
    }

    /// The statement that makes sure the series has its table.
    pub fn create_table_statement(&self, table_name: &str) -> (statement: String)
        ensures
            statement@ == create_table_text(table_name@, self.field_names()),
    {
        let mut statement = String::from_str("CREATE TABLE IF NOT EXISTS `");
        statement.append(table_name);
        statement.append("` (`timestamp` timestamp");
        let ghost head = statement@;
        let ghost names = self.field_names();
        let mut index: usize = 0;
        assert(names.take(0) =~= Seq::<Seq<char>>::empty());
        assert(statement@ =~= head + column_definitions(names.take(0)));
        while index < self.fields.len()
            invariant
                index <= self.fields.len(),
                names == self.field_names(),
                names.len() == self.fields.len(),
                statement@ == head + column_definitions(names.take(index as int)),
            decreases self.fields.len() - index,
        {
            proof {
                assert(names.take(index + 1).drop_last() =~= names.take(index as int));
                assert(names.take(index + 1).last() == self.fields[index as int].name@);
            }
            statement.append(", `");
            statement.append(self.fields[index].name.as_str());
            statement.append("` float");
            assert(statement@ =~= head + column_definitions(names.take(index + 1)));
            index += 1;
        }
        assert(names.take(index as int) =~= names);
        statement.append(", PRIMARY KEY (`timestamp`))");
        statement
    }

    /// One row of the insert statement.
    fn row_statement(row: &(Vec<Option<String>>, Timestamp)) -> (text: String)
        ensures
            text@ == sql_row((cells(row.0@), row.1@)),
    {
        let mut text = String::from_str("(\"");
        text.append(row.1.to_text().as_str());
        text.append("\"");
        let ghost head = text@;
        let ghost values = cells(row.0@);
        let mut index: usize = 0;
        assert(values.take(0) =~= Seq::<Option<Seq<char>>>::empty());
        assert(text@ =~= head + sql_values(values.take(0)));
        while index < row.0.len()
            invariant
                index <= row.0.len(),
                values == cells(row.0@),
                text@ == head + sql_values(values.take(index as int)),
            decreases row.0.len() - index,
        {
            proof {
                assert(values.take(index + 1).drop_last() =~= values.take(index as int));
                assert(values.take(index + 1).last() == values[index as int]);
            }
            text.append(", ");
            match &row.0[index] {
                Some(value) => {
                    text.append(value.as_str());
                },
                None => {
                    text.append("NULL");
                },
            }
            assert(text@ =~= head + sql_values(values.take(index + 1)));
            index += 1;
        }
        assert(values.take(index as int) =~= values);
        text.append(")");
        text
    }

    /// The statement that inserts all buffered rows at once.
    pub fn insert_statement(&self, table_name: &str) -> (statement: String)
        ensures
            statement@ == insert_text(table_name@, self.field_names(), self.rows()),
    {
        let mut statement = String::from_str("INSERT INTO `");
        statement.append(table_name);
        statement.append("` (timestamp");
        let ghost start = statement@;
        let ghost names = self.field_names();
        let mut index: usize = 0;
        assert(names.take(0) =~= Seq::<Seq<char>>::empty());
        assert(statement@ =~= start + column_list(names.take(0)));
        while index < self.fields.len()
            invariant
                index <= self.fields.len(),
                names == self.field_names(),
                names.len() == self.fields.len(),
                statement@ == start + column_list(names.take(index as int)),
            decreases self.fields.len() - index,
        {
            proof {
                assert(names.take(index + 1).drop_last() =~= names.take(index as int));
                assert(names.take(index + 1).last() == self.fields[index as int].name@);
            }
            statement.append(", ");
            statement.append(self.fields[index].name.as_str());
            assert(statement@ =~= start + column_list(names.take(index + 1)));
            index += 1;
        }
        assert(names.take(index as int) =~= names);
        statement.append(") VALUES ");
        let ghost head = statement@;
        let ghost rows = self.rows();
        let mut at: usize = 0;
        assert(rows.take(0) =~= Seq::<Row>::empty());
        assert(statement@ =~= head + sql_rows(rows.take(0)));
        while at < self.values.len()
            invariant
                at <= self.values.len(),
                rows == self.rows(),
                rows.len() == self.values.len(),
                statement@ == head + sql_rows(rows.take(at as int)),
            decreases self.values.len() - at,
        {
            proof {
                assert(rows.take(at + 1).drop_last() =~= rows.take(at as int));
                assert(rows.take(at + 1).last() == rows[at as int]);
                assert(rows[at as int] == (cells(self.values[at as int].0@), self.values[at as int].1@));
                if at == 0 {
                    assert(rows.take(1)[0] == rows[0]);
                }
            }
            if at > 0 {
                statement.append(", ");
            }
            statement.append(Self::row_statement(&self.values[at]).as_str());
            assert(statement@ =~= head + sql_rows(rows.take(at + 1)));
            at += 1;
        }
        assert(rows.take(at as int) =~= rows);
        statement
    }

    /// Takes the outcome of running the insert statement: all buffered
    /// rows leave the buffer if it went through and none of them if it did
    /// not, in which case the failure is reported with the database's
    /// message.
    pub fn save_to_db(&mut self, outcome: Result<(), String>) -> (res: Result<(), ErrorKind>)
        ensures
            final(self).field_names() == old(self).field_names(),
            final(self).field_units() == old(self).field_units(),
            old(self).wf() ==> final(self).wf(),
            match outcome {
                Ok(()) => res == Ok::<(), ErrorKind>(()) && final(self).rows().len() == 0,
                Err(message) => res == Err::<(), ErrorKind>(ErrorKind::CouldNotWriteToDB(message))
                    && final(self).rows() == old(self).rows(),
            },
    {
        match outcome {
            Ok(()) => {
                self.values.clear();
                Ok(())
            },
            Err(message) => Err(ErrorKind::CouldNotWriteToDB(message)),
        }
    }

    /// How many rows wait to be written out.
    pub fn len(&self) -> (count: usize)
        ensures
            count == self.rows().len(),
    {
        self.values.len()
    }

    /// Appends one row: for each column the value that `data` has under the
    /// column's name, absent where it has none. Rows stay in the order of
    /// the calls, whatever their moments are.
    pub fn insert_row(&mut self, data: &Reading, timestamp: &Timestamp)
        ensures
            final(self).field_names() == old(self).field_names(),
            final(self).field_units() == old(self).field_units(),
            final(self).rows() == old(self).rows().push(
                (aligned_values(old(self).field_names(), data@), timestamp@),
            ),
            old(self).wf() ==> final(self).wf(),
    {
        let mut new_row: Vec<Option<String>> = Vec::new();
        let mut index: usize = 0;
        while index < self.fields.len()
            invariant
                index <= self.fields.len(),
                new_row.len() == index,
                forall|j: int|
                    0 <= j < index ==> cells(new_row@)[j] == aligned_values(
                        self.field_names(),
                        data@,
                    )[j],
            decreases self.fields.len() - index,
        {
            let cell = match data.get(&self.fields[index].name) {
                Some(entry) => Some(entry.value.clone()),
                None => None,
            };
            proof {
                let names = self.field_names();
                let wanted = aligned_values(names, data@);
                assert(names[index as int] == self.fields[index as int].name@);
                assert(wanted[index as int] == (match cell {
                    Some(text) => Some(text@),
                    None => None,
                }));
                let so_far = new_row@;
                assert forall|j: int| 0 <= j < index implies cells(so_far.push(cell))[j]
                    == wanted[j] by {
                    assert(so_far.push(cell)[j] == so_far[j]);
                    assert(cells(so_far)[j] == wanted[j]);
                }
                assert(so_far.push(cell)[index as int] == cell);
            }
            new_row.push(cell);
            index += 1;
        }
        assert(cells(new_row@) =~= aligned_values(self.field_names(), data@));
        let ghost before = self.rows();
        self.values.push((new_row, *timestamp));
        assert(self.rows() =~= before.push(
            (aligned_values(self.field_names(), data@), timestamp@),
        ));
    }
}

} // verus!
