use crate::text::texts;
use vstd::prelude::*;

verus! {

/// A CSV writer of the csv crate in its default configuration, on some
/// byte sink. The writer gathers records in a buffer of its own and hands
/// them on to the byte sink when the buffer is full, when it is flushed,
/// and when it is dropped.
#[verifier::external_body]
pub struct CsvSink {
    writer: csv::Writer<Box<dyn std::io::Write>>,
}

#[verifier::external_type_specification]
#[verifier::external_body]
pub struct ExCsvError(csv::Error);

/// The complete records, fields and terminator, that the writer has taken
/// into its buffer or handed on, oldest first, each as the list of its
/// fields.
pub uninterp spec fn sink_records(sink: CsvSink) -> Seq<Seq<Seq<char>>>;

/// The records of which a flush has confirmed that the byte sink has them:
/// those that the writer had taken when `flush` last returned `Ok`.
pub uninterp spec fn sink_flushed(sink: CsvSink) -> Seq<Seq<Seq<char>>>;

/// Whether the writer is in order: no call on it has failed, so that its
/// buffer holds no field of a record that was never finished and nothing
/// that the byte sink has refused.
pub uninterp spec fn sink_clean(sink: CsvSink) -> bool;

impl View for CsvSink {
    type V = Seq<Seq<Seq<char>>>;

    /// The records that the byte sink is known to have.
    open spec fn view(&self) -> Seq<Seq<Seq<char>>> {
        sink_flushed(*self)
    }
}

/// `csv::Writer::from_writer`: a writer in order that has taken no record.
#[verifier::external_body]
fn writer_on<W: std::io::Write + 'static>(target: W) -> (sink: CsvSink)
    ensures
        sink_records(sink) == Seq::<Seq<Seq<char>>>::empty(),
        sink_flushed(sink) == Seq::<Seq<Seq<char>>>::empty(),
        sink_clean(sink),
{
    CsvSink { writer: csv::Writer::from_writer(Box::new(target)) }
}

/// `csv::Writer::write_record`, on a writer in order and a record with at
/// least one field. On `Ok` the writer has taken the whole record and is
/// still in order. On `Err` it has taken no further complete record; it may
/// hold fields of the one that failed, so nothing is said of its order.
/// Whether the call succeeds is up to the byte sink below and to the
/// writer's check that all records have as many fields as the first. The
/// call confirms nothing about the byte sink.
#[verifier::external_body]
fn write_record(sink: &mut CsvSink, record: &Vec<String>) -> (outcome: Result<(), csv::Error>)
    requires
        sink_clean(*old(sink)),
        record.len() > 0,
    ensures
        sink_flushed(*final(sink)) == sink_flushed(*old(sink)),
        outcome is Ok ==> sink_clean(*final(sink)) && sink_records(*final(sink)) == sink_records(
            *old(sink),
        ).push(texts(record@)),
        outcome is Err ==> sink_records(*final(sink)) == sink_records(*old(sink)),
{
    sink.writer.write_record(record)
}

/// `csv::Writer::flush`, on a writer in order: it hands the buffer on and
/// flushes the byte sink. On `Ok` the byte sink has every record that the
/// writer has taken, and the writer is still in order. On `Err` nothing
/// more is confirmed. The writer takes no record in this call.
#[verifier::external_body]
fn flush(sink: &mut CsvSink) -> (outcome: Result<(), csv::Error>)
    requires
        sink_clean(*old(sink)),
    ensures
        sink_records(*final(sink)) == sink_records(*old(sink)),
        outcome is Ok ==> sink_clean(*final(sink)) && sink_flushed(*final(sink)) == sink_records(
            *final(sink),
        ),
        outcome is Err ==> sink_flushed(*final(sink)) == sink_flushed(*old(sink)),
{
    match sink.writer.flush() {
        Ok(()) => Ok(()),
        Err(error) => Err(csv::Error::from(error)),
    }
}

/// The opened file of one series: the sink on it, and the length that the
/// file had when it was opened.
pub struct SeriesFile {
    pub sink: CsvSink,
    pub len: u64,
}

impl CsvSink {
    /// The records that the writer has taken, whether or not the byte
    /// sink has them yet.
    pub open spec fn taken(&self) -> Seq<Seq<Seq<char>>> {
        sink_records(*self)
    }

    /// The writer is in order and the byte sink has all that the writer
    /// has taken. A new sink is settled, and stays so as long as every
    /// `put` succeeds.
    pub open spec fn settled(&self) -> bool {
        sink_clean(*self) && sink_records(*self) == sink_flushed(*self)
    }

    /// A sink that writes CSV records to `target`.
    pub fn from_writer<W: std::io::Write + 'static>(target: W) -> (sink: CsvSink)
        ensures
            sink.settled(),
            sink@ == Seq::<Seq<Seq<char>>>::empty(),
    {
        writer_on(target)
    }

    /// Writes one record and flushes, so that on `Ok` the byte sink has
    /// the record. A failure is reported as the writer's message; the byte
    /// sink is then known to have no more than before, though the writer
    /// may have taken the record.
    pub fn put(&mut self, record: &Vec<String>) -> (outcome: Result<(), String>)
        requires
            old(self).settled(),
            record.len() > 0,
        ensures
            match outcome {
                Ok(()) => final(self).settled() && final(self)@ == old(self)@.push(
                    texts(record@),
                ),
                Err(_) => final(self)@ == old(self)@,
            },
            final(self).taken() == old(self).taken() || final(self).taken() == old(self).taken().push(texts(record@)),
    {
        match Self::report(write_record(self, record)) {
            Ok(()) => Self::report(flush(self)),
            Err(message) => Err(message),
        }
    }

    /// What `put` makes of the writer's answer: success is reported as
    /// such, and a failure as the text that the writer's error displays
    /// as.
    pub fn report(answer: Result<(), csv::Error>) -> (outcome: Result<(), String>)
        ensures
            match answer {
                Ok(()) => outcome is Ok,
                Err(error) => outcome matches Err(message)
                    && vstd::string::to_string_from_display_ensures::<csv::Error>(
                    &error,
                    message,
                ),
            },
    {
        match answer {
            Ok(()) => Ok(()),
            Err(error) => Err(error.to_string()),
        }
    }
}

} // verus!
