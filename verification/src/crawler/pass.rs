use crate::crawler::ahoy_crawler::{earliest_due, Crawler};
use crate::crawler::crawled_inverter::crawled;
use crate::crawler::timestamp::Timestamp;
use crate::error_kind::ErrorKind;
use crate::reading::Reading;
use vstd::prelude::*;

verus! {

/// What the driver of a pass has to do next.
#[derive(Debug, Clone, Copy, PartialEq, Eq, Structural)]
pub enum PassStep {
    /// Read the inverter and report with `CrawlPass::crawled`.
    Crawl(u8),
    /// Write the inverter's series out and report with `CrawlPass::saved`.
    Save(u8),
    /// Nothing is left: close the pass with `CrawlPass::finish`.
    Done,
}

/// One pass over the inverters that were due when it began. Each of them is
/// crawled once, in order; one whose crawl succeeded is written out right
/// after it if the pass is a saving one. A failure is noted and the pass
/// goes on with the next inverter.
#[derive(Debug)]
pub struct CrawlPass {
    due: Vec<u8>,
    crawled: usize,
    sync: bool,
    saving: bool,
    failures: Vec<(u8, ErrorKind)>,
}

/// How a pass ended.
#[derive(Debug)]
pub struct PassReport {
    /// The earliest time at which a known inverter is due next, if any has
    /// such a time.
    pub next_due: Option<i64>,
    /// The failures of the pass, oldest first, each with the inverter it
    /// happened on.
    pub failures: Vec<(u8, ErrorKind)>,
}

impl CrawlPass {
    /// The inverters of the pass, in the order in which they are crawled.
    pub closed spec fn due(&self) -> Seq<u8> {
        self.due@
    }

    /// How many of them have been crawled.
    pub closed spec fn position(&self) -> int {
        self.crawled as int
    }

    /// Whether inverters are written out after their crawl.
    pub closed spec fn sync(&self) -> bool {
        self.sync
    }

    /// Whether the inverter crawled last is still to be written out.
    pub closed spec fn saving(&self) -> bool {
        self.saving
    }

    /// The failures noted so far.
    pub closed spec fn failures(&self) -> Seq<(u8, ErrorKind)> {
        self.failures@
    }

    pub open spec fn wf(&self) -> bool {
        &&& 0 <= self.position() <= self.due().len()
        &&& self.saving() ==> self.position() > 0
    }

    /// What the driver has to do next.
    pub open spec fn next_step(&self) -> PassStep {
        if self.saving() {
            PassStep::Save(self.due()[self.position() - 1])
        } else if self.position() < self.due().len() {
            PassStep::Crawl(self.due()[self.position()])
        } else {
            PassStep::Done
        }
    }

    pub fn step(&self) -> (step: PassStep)
        requires
            self.wf(),
        ensures
            step == self.next_step(),
    {
        if self.saving {
            PassStep::Save(self.due[self.crawled - 1])
        } else if self.crawled < self.due.len() {
            PassStep::Crawl(self.due[self.crawled])
        } else {
            PassStep::Done
        }
    }

    /// Takes in the outcome of reading the inverter whose turn it is. The
    /// crawler stores the readings as `Crawler::crawl_inverter` does. A
    /// failed read is noted and leaves the crawler as it was. Either way
    /// the inverter's turn is over; it is written out next if its crawl
    /// succeeded and the pass is a saving one.
    pub fn crawled(
        &mut self,
        crawler: &mut Crawler,
        fetched: Result<Vec<Reading>, ErrorKind>,
        now: Timestamp,
        default_interval: u64,
    )
        requires
            old(self).wf(),
            old(self).next_step() is Crawl,
            old(crawler).wf(),
            old(crawler).inverters@.contains_key(old(self).next_step()->Crawl_0),
            fetched matches Ok(fields) ==> fields.len() > old(crawler).inverters@[old(self).next_step()->Crawl_0].channel_count,
            fetched is Ok ==> now@ + old(crawler).inverters@[old(self).next_step()->Crawl_0].effective_interval(default_interval) <= i64::MAX,
        ensures
            final(self).wf(),
            final(self).due() == old(self).due(),
            final(self).sync() == old(self).sync(),
            final(self).position() == old(self).position() + 1,
            final(crawler).wf(),
            final(crawler).api == old(crawler).api,
            final(crawler).inverters@.dom() == old(crawler).inverters@.dom(),
            forall|id: u8|
                id != old(self).next_step()->Crawl_0 && old(crawler).inverters@.contains_key(id)
                    ==> final(crawler).inverters@[id] == old(crawler).inverters@[id],
            match fetched {
                Err(error) => {
                    &&& final(crawler).inverters@ == old(crawler).inverters@
                    &&& final(self).failures() == old(self).failures().push(
                        (old(self).next_step()->Crawl_0, error),
                    )
                    &&& !final(self).saving()
                },
                Ok(fields) => {
                    &&& crawled(
                        old(crawler).inverters@[old(self).next_step()->Crawl_0],
                        final(crawler).inverters@[old(self).next_step()->Crawl_0],
                        fields@,
                        now,
                        default_interval,
                    )
                    &&& final(self).failures() == old(self).failures()
                    &&& final(self).saving() == old(self).sync()
                },
            },
    {
        let id = self.due[self.crawled];
        assert(self.crawled < self.due.len());
        self.crawled += 1;
        match crawler.crawl_inverter(id, fetched, now, default_interval) {
            Ok(()) => {
                self.saving = self.sync;
            },
            Err(error) => {
                self.failures.push((id, error));
            },
        }
    }

    /// Takes in the outcome of writing out the inverter that was crawled
    /// last. A failure is noted; the pass goes on either way.
    pub fn saved(&mut self, outcome: Result<(), ErrorKind>)
        requires
            old(self).wf(),
            old(self).next_step() is Save,
        ensures
            final(self).wf(),
            final(self).due() == old(self).due(),
            final(self).sync() == old(self).sync(),
            final(self).position() == old(self).position(),
            !final(self).saving(),
            final(self).failures() == match outcome {
                Ok(()) => old(self).failures(),
                Err(error) => old(self).failures().push((old(self).next_step()->Save_0, error)),
            },
    {
        self.saving = false;
        match outcome {
            Ok(()) => {},
            Err(error) => {
                let id = self.due[self.crawled - 1];
                self.failures.push((id, error));
            },
        }
    }

    /// Closes the pass: when the crawler's inverters are due next, and
    /// what failed.
    pub fn finish(self, crawler: &Crawler) -> (report: PassReport)
        ensures
            report.failures@ == self.failures(),
            match report.next_due {
                Some(moment) => earliest_due(crawler.inverters@, moment),
                None => forall|id: u8| #[trigger]
                    crawler.inverters@.contains_key(id)
                        ==> crawler.inverters@[id].next_crawl_at is None,
            },
    {
        PassReport { next_due: crawler.next_due(), failures: self.failures }
    }
}

impl Crawler {
    /// Begins a pass over the inverters that are due at `now`, by ascending
    /// id. With `sync` each of them is written out after its crawl.
    pub fn crawl_all_due_inverters(&self, now: &Timestamp, sync: bool) -> (pass: CrawlPass)
        ensures
            pass.wf(),
            pass.position() == 0,
            !pass.saving(),
            pass.sync() == sync,
            pass.failures().len() == 0,
            forall|id: u8|
                pass.due().contains(id) <==> self.inverters@.contains_key(id)
                    && self.inverters@[id].due_at(now@),
            forall|i: int, j: int| 0 <= i < j < pass.due().len() ==> pass.due()[i] < pass.due()[j],
    {
        CrawlPass {
            due: self.due_inverters(now),
            crawled: 0,
            sync,
            saving: false,
            failures: Vec::new(),
        }
    }
}

} // verus!
