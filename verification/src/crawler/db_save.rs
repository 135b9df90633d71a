use crate::crawler::crawled_inverter::{first_error, first_failure, CrawledInverter};
use crate::crawler::dataset::{create_table_text, insert_text};
use crate::crawler::series::{table_name_text, SeriesId};
use crate::error_kind::ErrorKind;
use vstd::prelude::*;

verus! {

/// What the driver of a save into the database has to do next.
#[derive(Debug)]
pub enum DbStep {
    /// Run the statement and report with `DbSave::ran`.
    Run(String),
    /// Nothing is left: close the save with `DbSave::finish`.
    Done,
}

/// One save of an inverter into the database. The series take their turns
/// in the order in which they are written out as files: the channels, then
/// the summary. A series first gets the statement that makes sure its table
/// is there, then the one that inserts all its buffered rows at once. If
/// the first fails, the second is not run. A series drops its rows only if
/// its insert went through. A failure is noted and the save goes on with
/// the next series.
#[derive(Debug)]
pub struct DbSave {
    series: usize,
    inserting: bool,
    outcomes: Vec<Result<(), ErrorKind>>,
}

/// The table of the series at place `i`.
pub open spec fn table_of(inverter: CrawledInverter, i: int) -> Seq<char> {
    table_name_text(inverter.name@, inverter.series_id(i).text())
}

impl DbSave {
    /// The place of the series whose turn it is.
    pub closed spec fn position(&self) -> int {
        self.series as int
    }

    /// Whether the table of that series is known to be there, so that the
    /// insert comes next.
    pub closed spec fn inserting(&self) -> bool {
        self.inserting
    }

    /// What came of the series whose turn is over, in their order.
    pub closed spec fn outcomes(&self) -> Seq<Result<(), ErrorKind>> {
        self.outcomes@
    }

    /// What the driver has to run next for the inverter, if anything.
    pub open spec fn next_statement(&self, inverter: CrawledInverter) -> Option<Seq<char>> {
        if self.position() < inverter.series_count() {
            let series = inverter.series(self.position());
            if self.inserting() {
                Some(
                    insert_text(
                        table_of(inverter, self.position()),
                        series.field_names(),
                        series.rows(),
                    ),
                )
            } else {
                Some(create_table_text(table_of(inverter, self.position()), series.field_names()))
            }
        } else {
            None
        }
    }

    pub fn step(&self, inverter: &CrawledInverter) -> (step: DbStep)
        requires
            inverter.wf(),
        ensures
            match step {
                DbStep::Run(statement) => self.next_statement(*inverter) == Some(statement@),
                DbStep::Done => self.next_statement(*inverter) is None,
            },
    {
        let channels = inverter.channel_datasets.len();
        if self.series > channels {
            return DbStep::Done;
        }
        let (series, id) = if self.series < channels {
            (&inverter.channel_datasets[self.series], SeriesId::Channel(self.series as u8))
        } else {
            (&inverter.summary_dataset, SeriesId::Summary)
        };
        let table = id.table_name(inverter.name.as_str());
        if self.inserting {
            DbStep::Run(series.insert_statement(table.as_str()))
        } else {
            DbStep::Run(series.create_table_statement(table.as_str()))
        }
    }

    /// Takes in what came of the statement that `step` handed out. A table
    /// statement that went through is followed by the insert of the same
    /// series; one that failed ends the series' turn with that failure. An
    /// insert ends the turn either way: the series drops its rows if it
    /// went through and keeps them all if it did not.
    pub fn ran(&mut self, inverter: &mut CrawledInverter, outcome: Result<(), String>)
        requires
            old(inverter).wf(),
            old(self).next_statement(*old(inverter)) is Some,
        ensures
            final(inverter).wf(),
            final(inverter).original_inverter == old(inverter).original_inverter,
            final(inverter).id == old(inverter).id,
            final(inverter).name == old(inverter).name,
            final(inverter).is_enabled == old(inverter).is_enabled,
            final(inverter).is_producing == old(inverter).is_producing,
            final(inverter).is_available == old(inverter).is_available,
            final(inverter).channel_count == old(inverter).channel_count,
            final(inverter).crawling_interval == old(inverter).crawling_interval,
            final(inverter).crawled_at == old(inverter).crawled_at,
            final(inverter).next_crawl_at == old(inverter).next_crawl_at,
            final(inverter).series_count() == old(inverter).series_count(),
            forall|i: int|
                0 <= i < old(inverter).series_count() && i != old(self).position() ==> final(inverter).series(i) == old(inverter).series(i),
            final(inverter).series(old(self).position()).field_names() == old(inverter).series(
                old(self).position(),
            ).field_names(),
            final(inverter).series(old(self).position()).field_units() == old(inverter).series(
                old(self).position(),
            ).field_units(),
            match outcome {
                Ok(()) => if old(self).inserting() {
                    &&& final(inverter).series(old(self).position()).rows().len() == 0
                    &&& final(self).position() == old(self).position() + 1
                    &&& !final(self).inserting()
                    &&& final(self).outcomes() == old(self).outcomes().push(Ok(()))
                } else {
                    &&& *final(inverter) == *old(inverter)
                    &&& final(self).position() == old(self).position()
                    &&& final(self).inserting()
                    &&& final(self).outcomes() == old(self).outcomes()
                },
                Err(message) => {
                    &&& final(inverter).series(old(self).position()).rows() == old(inverter).series(
                        old(self).position(),
                    ).rows()
                    &&& final(self).position() == old(self).position() + 1
                    &&& !final(self).inserting()
                    &&& final(self).outcomes() == old(self).outcomes().push(
                        Err(ErrorKind::CouldNotWriteToDB(message)),
                    )
                },
            },
    {
        if !self.inserting {
            match outcome {
                Ok(()) => {
                    self.inserting = true;
                },
                Err(message) => {
                    self.outcomes.push(Err(ErrorKind::CouldNotWriteToDB(message)));
                    self.series += 1;
                },
            }
        } else {
            let channels = inverter.channel_datasets.len();
            let result = if self.series < channels {
                inverter.channel_datasets[self.series].save_to_db(outcome)
            } else {
                inverter.summary_dataset.save_to_db(outcome)
            };
            self.outcomes.push(result);
            self.series += 1;
            self.inserting = false;
        }
    }

    /// Closes the save: the first failure that was noted, if any was.
    pub fn finish(self) -> (res: Result<(), ErrorKind>)
        ensures
            res == first_failure(self.outcomes()),
    {
        first_error(self.outcomes)
    }
}

impl CrawledInverter {
    /// Begins a save into the database, with the first series' table.
    pub fn save_to_db(&self) -> (save: DbSave)
        ensures
            save.position() == 0,
            !save.inserting(),
            save.outcomes().len() == 0,
    {
        DbSave { series: 0, inserting: false, outcomes: Vec::new() }
    }
}

} // verus!
