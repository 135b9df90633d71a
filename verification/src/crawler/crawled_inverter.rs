use crate::ahoy::{Index, Inverter, InverterList, Live};
use crate::crawler::csv_sink::SeriesFile;
use crate::crawler::dataset::{aligned_values, csv_saved, Dataset};
use crate::crawler::series::{csv_path_text, SeriesId};
use crate::crawler::timestamp::{lemma_secs_in_range, Timestamp};
use crate::error_kind::ErrorKind;
use crate::reading::Reading;
use crate::text::texts;
use vstd::prelude::*;

verus! {

/// One inverter as the crawler keeps it: who it is, when it is crawled next,
/// and the rows gathered from it since they were last written out.
#[derive(Debug)]
pub struct CrawledInverter {
    pub original_inverter: Inverter,
    pub id: u8,
    pub name: String,
    pub is_enabled: bool,
    pub is_producing: bool,
    pub is_available: bool,
    /// When the inverter was last crawled.
    pub crawled_at: Option<Timestamp>,
    /// From when on the inverter is due again, in seconds since the Unix
    /// epoch; due at once while there is none.
    pub next_crawl_at: Option<i64>,
    /// Seconds between two crawls, fixed by the first crawl.
    pub crawling_interval: Option<u64>,
    pub channel_count: u8,
    /// One series per channel.
    pub channel_datasets: Vec<Dataset>,
    /// The series of the inverter as a whole.
    pub summary_dataset: Dataset,
}

/// Whether the roster, the index and the field lists can describe the
/// inverter at position `index`.
pub open spec fn describes(index: u8, inverter_index: Index, inverter_list: InverterList, live: Live)
    -> bool {
    &&& index < inverter_index.inverter.len()
    &&& index < inverter_list.inverter.len()
    &&& live.ch0_fld_names.len() <= live.ch0_fld_units.len()
    &&& inverter_list.inverter[index as int].channels > 0 ==> live.fld_names.len()
        <= live.fld_units.len()
}

/// Whether the documents that were read hold the entries that discovery
/// looks up in them, reading in the order index, roster, field lists and
/// stopping at the first read that failed.
pub open spec fn readable(
    index: u8,
    inverter_index: Result<Index, ErrorKind>,
    inverter_list: Result<InverterList, ErrorKind>,
    live: Result<Live, ErrorKind>,
) -> bool {
    match inverter_index {
        Err(_) => true,
        Ok(state) => index < state.inverter.len() && match inverter_list {
            Err(_) => true,
            Ok(roster) => index < roster.inverter.len() && match live {
                Err(_) => true,
                Ok(names) => describes(index, state, roster, names),
            },
        },
    }
}

/// A series after it got one more row, taken from `data` at `now`.
pub open spec fn grown(before: Dataset, after: Dataset, data: Reading, now: int) -> bool {
    &&& after.field_names() == before.field_names()
    &&& after.field_units() == before.field_units()
    &&& after.rows() == before.rows().push((aligned_values(before.field_names(), data@), now))
}

/// What a crawl that got its readings leaves: the interval is fixed, the
/// next crawl is one interval after `now`, and every series has one more
/// row stamped `now`, the summary from the first reading and channel `c`
/// from reading `c + 1`.
pub open spec fn crawled(
    before: CrawledInverter,
    after: CrawledInverter,
    fields: Seq<Reading>,
    now: Timestamp,
    default_interval: u64,
) -> bool {
    let interval = before.effective_interval(default_interval);
    &&& after.original_inverter == before.original_inverter
    &&& after.id == before.id
    &&& after.name == before.name
    &&& after.is_enabled == before.is_enabled
    &&& after.is_producing == before.is_producing
    &&& after.is_available == before.is_available
    &&& after.channel_count == before.channel_count
    &&& after.crawling_interval == Some(interval)
    &&& after.crawled_at == Some(now)
    &&& after.next_crawl_at == Some((now@ + interval) as i64)
    &&& grown(before.summary_dataset, after.summary_dataset, fields[0], now@)
    &&& after.channel_datasets.len() == before.channel_datasets.len()
    &&& forall|c: int|
        0 <= c < before.channel_datasets.len() ==> grown(
            before.channel_datasets[c],
            #[trigger] after.channel_datasets[c],
            fields[c + 1],
            now@,
        )
}

/// One series after an attempt to write it out to its file, and whether
/// the attempt went through. The columns stay as they are.
pub open spec fn series_saved(
    before: Dataset,
    after: Dataset,
    file_before: SeriesFile,
    file_after: SeriesFile,
    went_through: bool,
) -> bool {
    &&& after.field_names() == before.field_names()
    &&& after.field_units() == before.field_units()
    &&& file_after.len == file_before.len
    &&& went_through ==> file_after.sink.settled()
    &&& csv_saved(
        before.rows(),
        after.rows(),
        before.field_names(),
        file_before.len,
        file_before.sink@,
        file_after.sink@,
        went_through,
    )
}

/// An inverter that was just discovered is due, whatever the time is.
pub proof fn lemma_discovered_inverter_is_due(
    inverter: CrawledInverter,
    index: u8,
    inverter_index: Index,
    inverter_list: InverterList,
    live: Live,
    now: int,
)
    requires
        inverter.discovered_from(index, inverter_index, inverter_list, live),
    ensures
        inverter.due_at(now),
{
}

/// After a crawl at `now` the inverter is due again one interval later and
/// not before: at `now` itself it is not due, unless the interval is zero.
pub proof fn lemma_crawled_inverter_waits(
    before: CrawledInverter,
    after: CrawledInverter,
    fields: Seq<Reading>,
    now: Timestamp,
    default_interval: u64,
    moment: int,
)
    requires
        crawled(before, after, fields, now, default_interval),
        now@ + before.effective_interval(default_interval) <= i64::MAX,
    ensures
        after.due_at(moment) <==> now@ + before.effective_interval(default_interval) <= moment,
        before.effective_interval(default_interval) > 0 ==> !after.due_at(now@),
{
    let next = now@ + before.effective_interval(default_interval);
    lemma_secs_in_range(now);
    assert(after.next_crawl_at == Some(next as i64));
}

/// The interval of the first crawl stays: a later crawl keeps it and
/// schedules by it, whatever default it is given.
pub proof fn lemma_interval_is_sticky(
    fresh: CrawledInverter,
    once: CrawledInverter,
    twice: CrawledInverter,
    first_fields: Seq<Reading>,
    second_fields: Seq<Reading>,
    first_now: Timestamp,
    second_now: Timestamp,
    first_default: u64,
    second_default: u64,
)
    requires
        crawled(fresh, once, first_fields, first_now, first_default),
        crawled(once, twice, second_fields, second_now, second_default),
    ensures
        once.crawling_interval == Some(fresh.effective_interval(first_default)),
        twice.crawling_interval == once.crawling_interval,
        once.effective_interval(second_default) == fresh.effective_interval(first_default),
        twice.next_crawl_at == Some(
            (second_now@ + fresh.effective_interval(first_default)) as i64,
        ),
{
}

/// The file of a series as the caller got it: opened, or the reason why it
/// could not be.
pub type OpenedFile = Result<SeriesFile, ErrorKind>;

/// Every sink among the files is settled, as a new one is.
pub open spec fn files_settled(files: Seq<OpenedFile>) -> bool {
    forall|i: int|
        0 <= i < files.len() ==> ((#[trigger] files[i]) matches Ok(file) ==> file.sink.settled())
}

/// What a save did to one series and its file, and what came of it. A
/// series whose file is open is written out, and a failure there is one of
/// writing. A series whose file could not be opened stays as it is, and the
/// reason is what came of it.
pub open spec fn series_outcome(
    before: Dataset,
    after: Dataset,
    file_before: OpenedFile,
    file_after: OpenedFile,
    outcome: Result<(), ErrorKind>,
) -> bool {
    match file_before {
        Ok(opened) => {
            &&& file_after matches Ok(now_opened) && series_saved(
                before,
                after,
                opened,
                now_opened,
                outcome is Ok,
            )
            &&& outcome matches Err(error) ==> error is CouldNotWriteToCsv
        },
        Err(reason) => {
            &&& after.field_names() == before.field_names()
            &&& after.field_units() == before.field_units()
            &&& after.rows() == before.rows()
            &&& file_after == file_before
            &&& outcome == Err::<(), ErrorKind>(reason)
        },
    }
}

/// The first failure among the outcomes, or `Ok` if there is none.
pub open spec fn first_failure(outcomes: Seq<Result<(), ErrorKind>>) -> Result<(), ErrorKind>
    decreases outcomes.len(),
{
    if outcomes.len() == 0 {
        Ok(())
    } else if outcomes[0] is Err {
        outcomes[0]
    } else {
        first_failure(outcomes.skip(1))
    }
}

/// There is no first failure exactly if nothing failed; if there is one,
/// it is the outcome at some place before which nothing failed.
pub proof fn lemma_first_failure(outcomes: Seq<Result<(), ErrorKind>>)
    ensures
        first_failure(outcomes) is Ok <==> forall|i: int|
            0 <= i < outcomes.len() ==> (#[trigger] outcomes[i]) is Ok,
        first_failure(outcomes) is Err ==> exists|i: int|
            0 <= i < outcomes.len() && #[trigger] outcomes[i] == first_failure(outcomes)
                && forall|j: int| 0 <= j < i ==> (#[trigger] outcomes[j]) is Ok,
    decreases outcomes.len(),
{
    if outcomes.len() > 0 {
        let rest = outcomes.skip(1);
        lemma_first_failure(rest);
        if outcomes[0] is Err {
            assert(outcomes[0] == first_failure(outcomes));
        } else {
            assert forall|i: int| 0 <= i < rest.len() implies rest[i] == outcomes[i + 1] by {}
            if first_failure(rest) is Ok {
                assert forall|i: int| 0 <= i < outcomes.len() implies (
                #[trigger] outcomes[i]) is Ok by {
                    if i > 0 {
                        assert(rest[i - 1] is Ok);
                    }
                }
            } else {
                let at = choose|i: int|
                    0 <= i < rest.len() && #[trigger] rest[i] == first_failure(rest)
                        && forall|j: int| 0 <= j < i ==> (#[trigger] rest[j]) is Ok;
                assert(outcomes[at + 1] == first_failure(outcomes));
                assert forall|j: int| 0 <= j < at + 1 implies (#[trigger] outcomes[j]) is Ok by {
                    if j > 0 {
                        assert(rest[j - 1] is Ok);
                    }
                }
                assert(!(outcomes[at + 1] is Ok));
            }
        }
    }
}

/// The result of several attempts: the first failure, if there is one.
pub fn first_error(outcomes: Vec<Result<(), ErrorKind>>) -> (res: Result<(), ErrorKind>)
    ensures
        res == first_failure(outcomes@),
{
    let ghost all = outcomes@;
    let mut rest = outcomes;
    while rest.len() > 0
        invariant
            all == outcomes@,
            first_failure(rest@) == first_failure(all),
        decreases rest.len(),
    {
        let ghost before = rest@;
        let outcome = rest.remove(0);
        if outcome.is_err() {
            return outcome;
        }
        assert(before.remove(0) =~= before.skip(1));
    }
    Ok(())
}

/// Nothing but the buffered rows of the series differs between the two.
pub open spec fn same_but_rows(before: CrawledInverter, after: CrawledInverter) -> bool {
    &&& after.original_inverter == before.original_inverter
    &&& after.id == before.id
    &&& after.name == before.name
    &&& after.is_enabled == before.is_enabled
    &&& after.is_producing == before.is_producing
    &&& after.is_available == before.is_available
    &&& after.channel_count == before.channel_count
    &&& after.crawling_interval == before.crawling_interval
    &&& after.crawled_at == before.crawled_at
    &&& after.next_crawl_at == before.next_crawl_at
    &&& after.channel_datasets.len() == before.channel_datasets.len()
    &&& after.summary_dataset.field_names() == before.summary_dataset.field_names()
    &&& after.summary_dataset.field_units() == before.summary_dataset.field_units()
    &&& forall|c: int|
        0 <= c < before.channel_datasets.len() ==> (#[trigger] after.channel_datasets[c]).field_names()
            == before.channel_datasets[c].field_names() && after.channel_datasets[c].field_units()
            == before.channel_datasets[c].field_units()
}

/// What a save of all series leaves, given what came of each.
pub open spec fn all_saved(
    before: CrawledInverter,
    after: CrawledInverter,
    files_before: Seq<OpenedFile>,
    files_after: Seq<OpenedFile>,
    outcomes: Seq<Result<(), ErrorKind>>,
) -> bool {
    &&& same_but_rows(before, after)
    &&& files_after.len() == files_before.len()
    &&& outcomes.len() == files_before.len()
    &&& forall|i: int|
        0 <= i < before.series_count() ==> series_outcome(
            before.series(i),
            after.series(i),
            files_before[i],
            files_after[i],
            #[trigger] outcomes[i],
        )
}

/// What a save of an inverter leaves, and what it reports: every series
/// came to something, as `all_saved` says, and the first failure among
/// them is what is reported.
pub open spec fn inverter_saved(
    before: CrawledInverter,
    after: CrawledInverter,
    files_before: Seq<OpenedFile>,
    files_after: Seq<OpenedFile>,
    res: Result<(), ErrorKind>,
) -> bool {
    exists|outcomes: Seq<Result<(), ErrorKind>>| #[trigger]
        all_saved(before, after, files_before, files_after, outcomes) && res == first_failure(
            outcomes,
        )
}

/// What a save of an inverter leaves where no series failed.
pub open spec fn inverter_saved_well(
    before: CrawledInverter,
    after: CrawledInverter,
    files_before: Seq<OpenedFile>,
    files_after: Seq<OpenedFile>,
) -> bool {
    exists|outcomes: Seq<Result<(), ErrorKind>>| #[trigger]
        all_saved(before, after, files_before, files_after, outcomes) && first_failure(
            outcomes,
        ) is Ok
}

impl CrawledInverter {
    /// How many series the inverter has: its channels and the summary.
    pub open spec fn series_count(&self) -> int {
        self.channel_datasets.len() + 1
    }

    /// The series in the order in which they are written out: the
    /// channels, then the summary.
    pub open spec fn series(&self, i: int) -> Dataset {
        if i < self.channel_datasets.len() {
            self.channel_datasets[i]
        } else {
            self.summary_dataset
        }
    }

    pub open spec fn series_id(&self, i: int) -> SeriesId {
        if i < self.channel_datasets.len() {
            SeriesId::Channel(i as u8)
        } else {
            SeriesId::Summary
        }
    }

    /// There is one series per channel, and every buffered row has one
    /// cell per column of its series.
    pub open spec fn wf(&self) -> bool {
        &&& self.channel_datasets.len() == self.channel_count
        &&& self.summary_dataset.wf()
        &&& forall|c: int| 0 <= c < self.channel_datasets.len() ==> (#[trigger] self.channel_datasets[c]).wf()
    }

    /// The inverter as discovery leaves it: described by the three
    /// documents, never crawled, with empty series.
    pub open spec fn discovered_from(
        &self,
        index: u8,
        inverter_index: Index,
        inverter_list: InverterList,
        live: Live,
    ) -> bool {
        let entry = inverter_list.inverter[index as int];
        let state = inverter_index.inverter[index as int];
        &&& self.id == entry.id
        &&& self.name@ == entry.name@
        &&& self.original_inverter.id == entry.id
        &&& self.original_inverter.name@ == entry.name@
        &&& self.original_inverter.serial@ == entry.serial@
        &&& self.original_inverter.version@ == entry.version@
        &&& self.original_inverter.enabled == entry.enabled
        &&& self.original_inverter.channels == entry.channels
        &&& self.is_enabled == state.enabled
        &&& self.is_producing == state.is_producing
        &&& self.is_available == state.is_avail
        &&& self.crawled_at is None
        &&& self.next_crawl_at is None
        &&& self.crawling_interval is None
        &&& self.channel_count == entry.channels
        &&& self.channel_datasets.len() == entry.channels
        &&& self.summary_dataset.field_names() == texts(live.ch0_fld_names@)
        &&& self.summary_dataset.field_units() == texts(
            live.ch0_fld_units@.take(live.ch0_fld_names.len() as int),
        )
        &&& self.summary_dataset.rows().len() == 0
        &&& forall|c: int|
            0 <= c < self.channel_datasets.len() ==> {
                let series = #[trigger] self.channel_datasets[c];
                &&& series.field_names() == texts(live.fld_names@)
                &&& series.field_units() == texts(
                    live.fld_units@.take(live.fld_names.len() as int),
                )
                &&& series.rows().len() == 0
            }
    }

    /// Whether the three documents can describe the inverter at position
    /// `index`, which is what `from_documents` asks for.
    pub fn described_by(index: u8, inverter_index: &Index, inverter_list: &InverterList, live: &Live)
        -> (fits: bool)
        ensures
            fits == describes(index, *inverter_index, *inverter_list, *live),
    {
        let position = index as usize;
        position < inverter_index.inverter.len() && position < inverter_list.inverter.len()
            && live.ch0_fld_names.len() <= live.ch0_fld_units.len() && (
        inverter_list.inverter[position].channels == 0 || live.fld_names.len()
            <= live.fld_units.len())
    }

    /// Whether the outcome of the three reads holds the entries that
    /// discovery looks up, which is what `fetch` asks for.
    pub fn is_readable(
        index: u8,
        inverter_index: &Result<Index, ErrorKind>,
        inverter_list: &Result<InverterList, ErrorKind>,
        live: &Result<Live, ErrorKind>,
    ) -> (fits: bool)
        ensures
            fits == readable(index, *inverter_index, *inverter_list, *live),
    {
        let position = index as usize;
        match inverter_index {
            Err(_) => true,
            Ok(state) => position < state.inverter.len() && match inverter_list {
                Err(_) => true,
                Ok(roster) => position < roster.inverter.len() && match live {
                    Err(_) => true,
                    Ok(names) => Self::described_by(index, state, roster, names),
                },
            },
        }
    }

    /// Builds the inverter at position `index` of the roster from the three
    /// documents that describe it.
    pub fn from_documents(
        index: u8,
        inverter_index: &Index,
        inverter_list: &InverterList,
        live: &Live,
    ) -> (inverter: Self)
        requires
            describes(index, *inverter_index, *inverter_list, *live),
        ensures
            inverter.discovered_from(index, *inverter_index, *inverter_list, *live),
            inverter.wf(),
    {
        let state = &inverter_index.inverter[index as usize];
        let entry = &inverter_list.inverter[index as usize];
        let mut channel_datasets: Vec<Dataset> = Vec::new();
        let mut channel: u8 = 0;
        while channel < entry.channels
            invariant
                channel <= entry.channels,
                channel_datasets.len() == channel,
                entry.channels > 0 ==> live.fld_names.len() <= live.fld_units.len(),
                forall|c: int|
                    0 <= c < channel_datasets.len() ==> {
                        let series = #[trigger] channel_datasets[c];
                        &&& series.field_names() == texts(live.fld_names@)
                        &&& series.field_units() == texts(
                            live.fld_units@.take(live.fld_names.len() as int),
                        )
                        &&& series.rows().len() == 0
                        &&& series.wf()
                    },
            decreases entry.channels - channel,
        {
            channel_datasets.push(
                Dataset::new(live.fld_names.as_slice(), live.fld_units.as_slice()),
            );
            channel += 1;
        }
        CrawledInverter {
            original_inverter: entry.clone(),
            id: entry.id,
            name: entry.name.clone(),
            is_enabled: state.enabled,
            is_producing: state.is_producing,
            is_available: state.is_avail,
            crawled_at: None,
            next_crawl_at: None,
            crawling_interval: None,
            channel_count: entry.channels,
            channel_datasets,
            summary_dataset: Dataset::new(
                live.ch0_fld_names.as_slice(),
                live.ch0_fld_units.as_slice(),
            ),
        }
    }

    /// Discovers the inverter at position `index` from the outcome of the
    /// three reads, taken in the order index, roster, field lists: the
    /// first read that failed decides, with its own error.
    pub fn fetch(
        index: u8,
        inverter_index: Result<Index, ErrorKind>,
        inverter_list: Result<InverterList, ErrorKind>,
        live: Result<Live, ErrorKind>,
    ) -> (res: Result<Self, ErrorKind>)
        requires
            readable(index, inverter_index, inverter_list, live),
        ensures
            match (inverter_index, inverter_list, live) {
                (Err(error), _, _) => res == Err::<Self, ErrorKind>(error),
                (Ok(_), Err(error), _) => res == Err::<Self, ErrorKind>(error),
                (Ok(_), Ok(_), Err(error)) => res == Err::<Self, ErrorKind>(error),
                (Ok(state), Ok(roster), Ok(names)) => res matches Ok(inverter)
                    && inverter.discovered_from(index, state, roster, names) && inverter.wf(),
            },
    {
        let state = match inverter_index {
            Ok(state) => state,
            Err(error) => {
                return Err(error);
            },
        };
        let roster = match inverter_list {
            Ok(roster) => roster,
            Err(error) => {
                return Err(error);
            },
        };
        let names = match live {
            Ok(names) => names,
            Err(error) => {
                return Err(error);
            },
        };
        Ok(Self::from_documents(index, &state, &roster, &names))
    }

    /// Whether the inverter is due at `now`: it is while it has no next
    /// crawl time, and from that time on.
    pub open spec fn due_at(&self, now: int) -> bool {
        match self.next_crawl_at {
            Some(next) => next <= now,
            None => true,
        }
    }

    pub fn is_due(&self, now: &Timestamp) -> (due: bool)
        ensures
            due == self.due_at(now@),
    {
        match self.next_crawl_at {
            Some(next) => next <= now.secs(),
            None => true,
        }
    }

    /// Takes in the outcome of one round of reading the inverter at `now`.
    /// Readings are stored and the next crawl is scheduled; a failed read
    /// is handed back and leaves the inverter as it was, so that it stays
    /// due.
    pub fn crawl(
        &mut self,
        fetched: Result<Vec<Reading>, ErrorKind>,
        now: Timestamp,
        default_interval: u64,
    ) -> (res: Result<(), ErrorKind>)
        requires
            old(self).wf(),
            fetched matches Ok(fields) ==> fields.len() > old(self).channel_count,
            fetched is Ok ==> now@ + old(self).effective_interval(default_interval) <= i64::MAX,
        ensures
            old(self).crawling_interval is Some ==> final(self).crawling_interval == old(self).crawling_interval,
            match fetched {
                Err(error) => res == Err::<(), ErrorKind>(error) && *final(self) == *old(self),
                Ok(fields) => res is Ok && final(self).wf() && crawled(
                    *old(self),
                    *final(self),
                    fields@,
                    now,
                    default_interval,
                ),
            },
    {
        let fields = match fetched {
            Ok(fields) => fields,
            Err(error) => {
                return Err(error);
            },
        };
        let interval = match self.crawling_interval {
            Some(interval) => interval,
            None => default_interval,
        };
        let next = (now.secs() as i128 + interval as i128) as i64;
        self.crawled_at = Some(now);
        self.next_crawl_at = Some(next);
        self.crawling_interval = Some(interval);
        self.summary_dataset.insert_row(&fields[0], &now);
        let mut channel: usize = 0;
        while channel < self.channel_datasets.len()
            invariant
                channel <= self.channel_datasets.len(),
                self.channel_datasets.len() == old(self).channel_datasets.len(),
                self.channel_datasets.len() < fields.len(),
                self.original_inverter == old(self).original_inverter,
                self.id == old(self).id,
                self.name == old(self).name,
                self.is_enabled == old(self).is_enabled,
                self.is_producing == old(self).is_producing,
                self.is_available == old(self).is_available,
                self.channel_count == old(self).channel_count,
                self.crawling_interval == Some(interval),
                self.crawled_at == Some(now),
                self.next_crawl_at == Some(next),
                self.summary_dataset.wf(),
                grown(old(self).summary_dataset, self.summary_dataset, fields[0], now@),
                old(self).wf(),
                forall|c: int|
                    0 <= c < channel ==> (#[trigger] self.channel_datasets[c]).wf() && grown(
                        old(self).channel_datasets[c],
                        self.channel_datasets[c],
                        fields[c + 1],
                        now@,
                    ),
                forall|c: int|
                    channel <= c < self.channel_datasets.len() ==> #[trigger] self.channel_datasets[c]
                        == old(self).channel_datasets[c],
            decreases self.channel_datasets.len() - channel,
        {
            self.channel_datasets[channel].insert_row(&fields[channel + 1], &now);
            channel += 1;
        }
        Ok(())
    }

    /// The files of the series below `folder_path`, in the order in which
    /// `save_to_csv` takes them.
    pub fn csv_paths(&self, folder_path: &str) -> (paths: Vec<String>)
        requires
            self.channel_datasets.len() <= 256,
        ensures
            paths.len() == self.series_count(),
            forall|i: int|
                0 <= i < paths.len() ==> (#[trigger] paths[i])@ == csv_path_text(
                    folder_path@,
                    self.name@,
                    self.series_id(i).text(),
                ),
    {
        let mut paths: Vec<String> = Vec::new();
        let mut channel: usize = 0;
        while channel < self.channel_datasets.len()
            invariant
                channel <= self.channel_datasets.len() <= 256,
                paths.len() == channel,
                forall|i: int|
                    0 <= i < paths.len() ==> (#[trigger] paths[i])@ == csv_path_text(
                        folder_path@,
                        self.name@,
                        self.series_id(i).text(),
                    ),
            decreases self.channel_datasets.len() - channel,
        {
            let id = SeriesId::Channel(channel as u8);
            paths.push(id.csv_path(folder_path, self.name.as_str()));
            channel += 1;
        }
        paths.push(SeriesId::Summary.csv_path(folder_path, self.name.as_str()));
        paths
    }

    /// Writes every series out to its file: `files[c]` is the file of
    /// channel `c`, the last one that of the summary. Every series whose
    /// file is open is attempted, whatever became of the ones before it.
    /// What came of each series is handed back, in the order of the files.
    pub fn save_each_to_csv(&mut self, files: &mut Vec<OpenedFile>) -> (outcomes: Vec<
        Result<(), ErrorKind>,
    >)
        requires
            old(files).len() == old(self).series_count(),
            files_settled(old(files)@),
        ensures
            all_saved(*old(self), *final(self), old(files)@, final(files)@, outcomes@),
            old(self).wf() ==> final(self).wf(),
    {
        let mut outcomes: Vec<Result<(), ErrorKind>> = Vec::new();
        let count = self.channel_datasets.len();
        let mut channel: usize = 0;
        while channel < count
            invariant
                channel <= count,
                count == self.channel_datasets.len(),
                count == old(self).channel_datasets.len(),
                files.len() == count + 1,
                files.len() == old(files).len(),
                files_settled(old(files)@),
                outcomes.len() == channel,
                self.original_inverter == old(self).original_inverter,
                self.id == old(self).id,
                self.name == old(self).name,
                self.is_enabled == old(self).is_enabled,
                self.is_producing == old(self).is_producing,
                self.is_available == old(self).is_available,
                self.channel_count == old(self).channel_count,
                self.crawling_interval == old(self).crawling_interval,
                self.crawled_at == old(self).crawled_at,
                self.next_crawl_at == old(self).next_crawl_at,
                self.summary_dataset == old(self).summary_dataset,
                forall|c: int|
                    0 <= c < channel ==> {
                        &&& old(self).channel_datasets[c].wf() ==> (#[trigger] self.channel_datasets[c]).wf()
                        &&& series_outcome(
                            old(self).channel_datasets[c],
                            self.channel_datasets[c],
                            old(files)[c],
                            files[c],
                            outcomes[c],
                        )
                    },
                forall|c: int|
                    channel <= c < count ==> #[trigger] self.channel_datasets[c] == old(self).channel_datasets[c],
                forall|c: int| channel <= c < files.len() ==> #[trigger] files[c] == old(files)[c],
            decreases count - channel,
        {
            let outcome = match &mut files[channel] {
                Ok(file) => {
                    let len = file.len;
                    self.channel_datasets[channel].save_to_csv(&mut file.sink, len)
                },
                Err(reason) => Err(reason.clone()),
            };
            outcomes.push(outcome);
            channel += 1;
        }
        let outcome = match &mut files[count] {
            Ok(file) => {
                let len = file.len;
                self.summary_dataset.save_to_csv(&mut file.sink, len)
            },
            Err(reason) => Err(reason.clone()),
        };
        outcomes.push(outcome);
        proof {
            assert forall|i: int| 0 <= i < old(self).series_count() implies series_outcome(
                old(self).series(i),
                self.series(i),
                old(files)[i],
                files[i],
                #[trigger] outcomes[i],
            ) by {
                if i < count {
                    assert(self.series(i) == self.channel_datasets[i]);
                }
            }
            assert forall|c: int| 0 <= c < count implies (#[trigger] self.channel_datasets[c]).field_names()
                == old(self).channel_datasets[c].field_names() && self.channel_datasets[c].field_units()
                == old(self).channel_datasets[c].field_units() by {
                assert(series_outcome(
                    old(self).channel_datasets[c],
                    self.channel_datasets[c],
                    old(files)[c],
                    files[c],
                    outcomes[c],
                ));
            }
            if old(self).wf() {
                assert forall|c: int| 0 <= c < self.channel_datasets.len() implies (
                #[trigger] self.channel_datasets[c]).wf() by {
                    assert(old(self).channel_datasets[c].wf());
                }
            }
        }
        outcomes
    }

    /// Writes every series out as `save_each_to_csv` does, and reports the
    /// first failure that it met, if it met one.
    pub fn save_to_csv(&mut self, files: &mut Vec<OpenedFile>) -> (res: Result<(), ErrorKind>)
        requires
            old(files).len() == old(self).series_count(),
            files_settled(old(files)@),
        ensures
            old(self).wf() ==> final(self).wf(),
            inverter_saved(*old(self), *final(self), old(files)@, final(files)@, res),
    {
        let outcomes = self.save_each_to_csv(files);
        assert(all_saved(*old(self), *self, old(files)@, files@, outcomes@));
        first_error(outcomes)
    }

    /// The seconds between two crawls: the interval that the first crawl
    /// fixed, or `default_interval` before that.
    pub open spec fn effective_interval(&self, default_interval: u64) -> u64 {
        match self.crawling_interval {
            Some(interval) => interval,
            None => default_interval,
        }
    }
}

} // verus!
