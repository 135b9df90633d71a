use crate::ahoy::{AhoyApi, Index, Inverter, InverterList, Live};
use crate::crawler::crawled_inverter::{
    crawled, describes, files_settled, inverter_saved, inverter_saved_well, readable,
    CrawledInverter, OpenedFile,
};
use crate::crawler::timestamp::Timestamp;
use crate::error_kind::ErrorKind;
use crate::reading::Reading;
use std::collections::HashMap;
use vstd::prelude::*;

verus! {

broadcast use vstd::std_specs::hash::group_hash_axioms;

/// The inverters that were discovered so far, by the id under which each
/// was asked for.
pub struct Crawler {
    pub api: AhoyApi,
    pub inverters: HashMap<u8, CrawledInverter>,
}

/// Whether `moment` is the earliest time at which one of the inverters is
/// due next.
pub open spec fn earliest_due(inverters: Map<u8, CrawledInverter>, moment: i64) -> bool {
    &&& exists|id: u8| #[trigger]
        inverters.contains_key(id) && inverters[id].next_crawl_at == Some(moment)
    &&& forall|id: u8| #[trigger]
        inverters.contains_key(id) ==> (inverters[id].next_crawl_at matches Some(next) ==> moment
            <= next)
}

/// Whether one of the roster's entries has the given id.
pub open spec fn in_roster(entries: Seq<Inverter>, id: u8) -> bool {
    exists|k: int| 0 <= k < entries.len() && (#[trigger] entries[k]).id == id
}

proof fn lemma_in_roster_step(entries: Seq<Inverter>, n: int, id: u8)
    requires
        0 <= n < entries.len(),
    ensures
        in_roster(entries.take(n + 1), id) <==> in_roster(entries.take(n), id) || entries[n].id
            == id,
{
    let shorter = entries.take(n);
    let longer = entries.take(n + 1);
    if in_roster(longer, id) {
        let k = choose|k: int| 0 <= k < longer.len() && (#[trigger] longer[k]).id == id;
        if k < n {
            assert(shorter[k].id == id);
        }
    }
    if in_roster(shorter, id) {
        let k = choose|k: int| 0 <= k < shorter.len() && (#[trigger] shorter[k]).id == id;
        assert(longer[k].id == id);
    }
    if entries[n].id == id {
        assert(longer[n].id == id);
    }
}

/// What a list holds after one more id was put behind it.
proof fn lemma_pushed_contains(so_far: Seq<u8>, id: u8)
    ensures
        forall|other: u8| #[trigger]
            so_far.push(id).contains(other) <==> so_far.contains(other) || other == id,
{
    let longer = so_far.push(id);
    assert forall|other: u8| longer.contains(other) implies so_far.contains(other) || other
        == id by {
        let at = choose|i: int| 0 <= i < longer.len() && longer[i] == other;
        if at < so_far.len() {
            assert(so_far[at] == other);
        }
    }
    assert forall|other: u8| so_far.contains(other) || other == id implies longer.contains(
        other,
    ) by {
        if so_far.contains(other) {
            let at = choose|i: int| 0 <= i < so_far.len() && so_far[i] == other;
            assert(longer[at] == other);
        } else {
            assert(longer[longer.len() - 1] == other);
        }
    }
}

/// The opened files of one inverter's series, in the order in which
/// `CrawledInverter::save_to_csv` takes them.
pub struct InverterFiles {
    pub inverter_id: u8,
    pub files: Vec<OpenedFile>,
}

/// The list holds the files of every known inverter, by ascending id: as
/// many files as the inverter has series, every sink settled.
pub open spec fn files_fit(inverters: Map<u8, CrawledInverter>, files: Seq<InverterFiles>) -> bool {
    &&& forall|i: int, j: int|
        0 <= i < j < files.len() ==> files[i].inverter_id < files[j].inverter_id
    &&& forall|id: u8|
        inverters.contains_key(id) ==> exists|k: int|
            0 <= k < files.len() && (#[trigger] files[k]).inverter_id == id
    &&& forall|k: int|
        0 <= k < files.len() ==> {
            let of = #[trigger] files[k];
            &&& inverters.contains_key(of.inverter_id)
            &&& of.files.len() == inverters[of.inverter_id].series_count()
            &&& files_settled(of.files@)
        }
}

/// What a save of all inverters leaves and reports, where `attempted` of
/// them had their turn. A save without a failure gave every inverter its
/// turn, and each was saved without a failure. A save that failed stopped
/// at the first inverter whose save failed, and reports what that save
/// reported. The inverters behind it, and their files, are as they were.
pub open spec fn saved_up_to(
    before: Map<u8, CrawledInverter>,
    after: Map<u8, CrawledInverter>,
    files_before: Seq<InverterFiles>,
    files_after: Seq<InverterFiles>,
    attempted: int,
    res: Result<(), ErrorKind>,
) -> bool {
    &&& 0 <= attempted <= files_before.len()
    &&& files_after.len() == files_before.len()
    &&& res is Ok ==> attempted == files_before.len()
    &&& res is Err ==> attempted > 0
    &&& forall|k: int|
        0 <= k < files_before.len() ==> (#[trigger] files_after[k]).inverter_id
            == files_before[k].inverter_id
    &&& forall|k: int|
        0 <= k < attempted ==> if res is Err && k == attempted - 1 {
            inverter_saved(
                before[files_before[k].inverter_id],
                after[files_before[k].inverter_id],
                files_before[k].files@,
                (#[trigger] files_after[k]).files@,
                res,
            )
        } else {
            inverter_saved_well(
                before[files_before[k].inverter_id],
                after[files_before[k].inverter_id],
                files_before[k].files@,
                files_after[k].files@,
            )
        }
    &&& forall|k: int|
        attempted <= k < files_before.len() ==> after[files_before[k].inverter_id]
            == before[files_before[k].inverter_id] && #[trigger] files_after[k] == files_before[k]
}

impl Crawler {
    /// Every inverter that is kept is well formed.
    pub open spec fn wf(&self) -> bool {
        forall|id: u8| #[trigger] self.inverters@.contains_key(id) ==> self.inverters@[id].wf()
    }

    /// A crawler for the gateway at `endpoint` that knows no inverter yet.
    pub fn new(endpoint: String) -> (crawler: Crawler)
        ensures
            crawler.api.endpoint == endpoint,
            !crawler.api.offline_mode,
            crawler.inverters@ == Map::<u8, CrawledInverter>::empty(),
            crawler.wf(),
    {
        Crawler { api: AhoyApi::new(endpoint), inverters: HashMap::new() }
    }

    /// A crawler for the given gateway that knows no inverter yet.
    pub fn from(api: AhoyApi) -> (crawler: Crawler)
        ensures
            crawler.api == api,
            crawler.inverters@ == Map::<u8, CrawledInverter>::empty(),
            crawler.wf(),
    {
        Crawler { api, inverters: HashMap::new() }
    }

    /// The gateway that the crawler reads from.
    pub fn api(&self) -> (api: &AhoyApi)
        ensures
            *api == self.api,
    {
        &self.api
    }

    pub fn is_known(&self, inverter_id: u8) -> (known: bool)
        ensures
            known == self.inverters@.contains_key(inverter_id),
    {
        self.inverters.contains_key(&inverter_id)
    }

    /// Makes sure that the inverter is known. One that is known stays as it
    /// is and the documents are not looked at. One that is not is
    /// discovered from them and kept; if a read had failed, its error comes
    /// back and nothing is kept.
    pub fn get_inverter(
        &mut self,
        inverter_id: u8,
        inverter_index: Result<Index, ErrorKind>,
        inverter_list: Result<InverterList, ErrorKind>,
        live: Result<Live, ErrorKind>,
    ) -> (res: Result<(), ErrorKind>)
        requires
            !old(self).inverters@.contains_key(inverter_id) ==> readable(
                inverter_id,
                inverter_index,
                inverter_list,
                live,
            ),
        ensures
            final(self).api == old(self).api,
            old(self).wf() ==> final(self).wf(),
            old(self).inverters@.contains_key(inverter_id) ==> res is Ok && final(self).inverters@
                == old(self).inverters@,
            !old(self).inverters@.contains_key(inverter_id) ==> match (
                inverter_index,
                inverter_list,
                live,
            ) {
                (Err(error), _, _) => res == Err::<(), ErrorKind>(error) && final(self).inverters@
                    == old(self).inverters@,
                (Ok(_), Err(error), _) => res == Err::<(), ErrorKind>(error) && final(self).inverters@ == old(self).inverters@,
                (Ok(_), Ok(_), Err(error)) => res == Err::<(), ErrorKind>(error) && final(self).inverters@ == old(self).inverters@,
                (Ok(state), Ok(roster), Ok(names)) => {
                    &&& res is Ok
                    &&& final(self).inverters@.dom() == old(self).inverters@.dom().insert(
                        inverter_id,
                    )
                    &&& forall|id: u8|
                        id != inverter_id && old(self).inverters@.contains_key(id) ==> final(self).inverters@[id] == old(self).inverters@[id]
                    &&& final(self).inverters@[inverter_id].discovered_from(
                        inverter_id,
                        state,
                        roster,
                        names,
                    )
                },
            },
    {
        if self.inverters.contains_key(&inverter_id) {
            return Ok(());
        }
        match CrawledInverter::fetch(inverter_id, inverter_index, inverter_list, live) {
            Ok(inverter) => {
                self.inverters.insert(inverter_id, inverter);
                Ok(())
            },
            Err(error) => Err(error),
        }
    }

    /// Discovers every inverter of the roster from the outcome of the three
    /// reads and keeps each under its id, in place of what was kept under
    /// that id before. A failed read of the roster fails the call; so does,
    /// unless the roster is empty, a failed read of the index or of the
    /// field lists, in that order. Nothing changes then.
    pub fn init(
        &mut self,
        inverter_index: Result<Index, ErrorKind>,
        inverter_list: Result<InverterList, ErrorKind>,
        live: Result<Live, ErrorKind>,
    ) -> (res: Result<(), ErrorKind>)
        requires
            inverter_list matches Ok(roster) ==> forall|k: int|
                0 <= k < roster.inverter.len() ==> readable(
                    #[trigger] roster.inverter[k].id,
                    inverter_index,
                    inverter_list,
                    live,
                ),
        ensures
            final(self).api == old(self).api,
            old(self).wf() ==> final(self).wf(),
            match inverter_list {
                Err(error) => res == Err::<(), ErrorKind>(error) && final(self).inverters@ == old(self).inverters@,
                Ok(roster) => if roster.inverter.len() == 0 {
                    res is Ok && final(self).inverters@ == old(self).inverters@
                } else {
                    match (inverter_index, live) {
                        (Err(error), _) => res == Err::<(), ErrorKind>(error) && final(self).inverters@ == old(self).inverters@,
                        (Ok(_), Err(error)) => res == Err::<(), ErrorKind>(error) && final(self).inverters@ == old(self).inverters@,
                        (Ok(state), Ok(names)) => {
                            &&& res is Ok
                            &&& forall|k: int|
                                0 <= k < roster.inverter.len() ==> {
                                    let id = #[trigger] roster.inverter[k].id;
                                    final(self).inverters@.contains_key(id) && final(self).inverters@[id].discovered_from(id, state, roster, names)
                                }
                            &&& forall|id: u8|
                                !(#[trigger] in_roster(roster.inverter@, id)) ==> final(self).inverters@.contains_key(id) == old(self).inverters@.contains_key(
                                    id,
                                ) && final(self).inverters@[id] == old(self).inverters@[id]
                        },
                    }
                },
            },
    {
        let roster = match inverter_list {
            Ok(roster) => roster,
            Err(error) => {
                return Err(error);
            },
        };
        if roster.inverter.len() == 0 {
            return Ok(());
        }
        assert(readable(roster.inverter[0].id, inverter_index, Ok(roster), live));
        let state = match inverter_index {
            Ok(state) => state,
            Err(error) => {
                return Err(error);
            },
        };
        let names = match live {
            Ok(names) => names,
            Err(error) => {
                return Err(error);
            },
        };
        let mut position: usize = 0;
        while position < roster.inverter.len()
            invariant
                position <= roster.inverter.len(),
                self.api == old(self).api,
                old(self).wf() ==> self.wf(),
                forall|k: int|
                    0 <= k < roster.inverter.len() ==> describes(
                        #[trigger] roster.inverter[k].id,
                        state,
                        roster,
                        names,
                    ),
                forall|k: int|
                    0 <= k < position ==> {
                        let id = #[trigger] roster.inverter[k].id;
                        self.inverters@.contains_key(id) && self.inverters@[id].discovered_from(
                            id,
                            state,
                            roster,
                            names,
                        )
                    },
                forall|id: u8|
                    !(#[trigger] in_roster(roster.inverter@.take(position as int), id))
                        ==> self.inverters@.contains_key(id) == old(self).inverters@.contains_key(
                        id,
                    ) && self.inverters@[id] == old(self).inverters@[id],
            decreases roster.inverter.len() - position,
        {
            let id = roster.inverter[position].id;
            assert(describes(roster.inverter[position as int].id, state, roster, names));
            let inverter = CrawledInverter::from_documents(id, &state, &roster, &names);
            let ghost before = self.inverters@;
            self.inverters.insert(id, inverter);
            proof {
                assert forall|other: u8|
                    !(#[trigger] in_roster(
                        roster.inverter@.take(position + 1),
                        other,
                    )) implies self.inverters@.contains_key(other) == old(self).inverters@.contains_key(other) && self.inverters@[other] == old(self).inverters@[other] by {
                    lemma_in_roster_step(roster.inverter@, position as int, other);
                }
                assert forall|k: int| 0 <= k < position + 1 implies {
                    let known = #[trigger] roster.inverter[k].id;
                    self.inverters@.contains_key(known) && self.inverters@[known].discovered_from(
                        known,
                        state,
                        roster,
                        names,
                    )
                } by {
                    let known = roster.inverter[k].id;
                    if known != id {
                        assert(k < position);
                        assert(before.contains_key(known));
                        assert(self.inverters@[known] == before[known]);
                    }
                }
            }
            position += 1;
        }
        assert(roster.inverter@.take(position as int) =~= roster.inverter@);
        Ok(())
    }

    /// Writes the series of a known inverter out, as
    /// `CrawledInverter::save_to_csv` does. The other inverters are not
    /// touched.
    pub fn save_inverter_to_csv(&mut self, inverter_id: u8, files: &mut Vec<OpenedFile>) -> (res:
        Result<(), ErrorKind>)
        requires
            old(self).inverters@.contains_key(inverter_id),
            old(files).len() == old(self).inverters@[inverter_id].series_count(),
            files_settled(old(files)@),
        ensures
            final(self).api == old(self).api,
            old(self).wf() ==> final(self).wf(),
            final(self).inverters@.dom() == old(self).inverters@.dom(),
            forall|id: u8|
                id != inverter_id && old(self).inverters@.contains_key(id) ==> final(self).inverters@[id] == old(self).inverters@[id],
            inverter_saved(
                old(self).inverters@[inverter_id],
                final(self).inverters@[inverter_id],
                old(files)@,
                final(files)@,
                res,
            ),
    {
        let ghost before = self.inverters@;
        let mut inverter = self.inverters.remove(&inverter_id).unwrap();
        let res = inverter.save_to_csv(files);
        self.inverters.insert(inverter_id, inverter);
        proof {
            assert(self.inverters@.dom() =~= before.dom());
        }
        res
    }

    /// Writes every known inverter out, one after the other in the order
    /// of the list, each as `CrawledInverter::save_to_csv` does. The list
    /// holds the opened files of every known inverter, by ascending id. The
    /// first inverter whose save fails ends the call with that failure; the
    /// inverters behind it are not touched.
    pub fn save_to_csv(&mut self, files: &mut Vec<InverterFiles>) -> (res: Result<(), ErrorKind>)
        requires
            files_fit(old(self).inverters@, old(files)@),
        ensures
            final(self).api == old(self).api,
            old(self).wf() ==> final(self).wf(),
            final(self).inverters@.dom() == old(self).inverters@.dom(),
            exists|attempted: int| #[trigger]
                saved_up_to(
                    old(self).inverters@,
                    final(self).inverters@,
                    old(files)@,
                    final(files)@,
                    attempted,
                    res,
                ),
    {
        let mut position: usize = 0;
        while position < files.len()
            invariant
                position <= files.len(),
                files.len() == old(files).len(),
                files_fit(old(self).inverters@, old(files)@),
                self.api == old(self).api,
                old(self).wf() ==> self.wf(),
                self.inverters@.dom() == old(self).inverters@.dom(),
                forall|k: int|
                    0 <= k < files.len() ==> (#[trigger] files[k]).inverter_id == old(files)[k].inverter_id,
                forall|k: int|
                    0 <= k < position ==> inverter_saved_well(
                        old(self).inverters@[old(files)[k].inverter_id],
                        self.inverters@[old(files)[k].inverter_id],
                        old(files)[k].files@,
                        (#[trigger] files[k]).files@,
                    ),
                forall|k: int|
                    position <= k < files.len() ==> #[trigger] files[k] == old(files)[k],
                forall|k: int|
                    position <= k < old(files).len() ==> self.inverters@[(#[trigger] old(files)[k]).inverter_id] == old(self).inverters@[old(files)[k].inverter_id],
            decreases files.len() - position,
        {
            let inverter_id = files[position].inverter_id;
            let ghost crawler_before = self.inverters@;
            let ghost files_before = files@;
            let res = self.save_inverter_to_csv(inverter_id, &mut files[position].files);
            proof {
                assert forall|k: int| 0 <= k < position implies inverter_saved_well(
                    old(self).inverters@[old(files)[k].inverter_id],
                    self.inverters@[old(files)[k].inverter_id],
                    old(files)[k].files@,
                    (#[trigger] files[k]).files@,
                ) by {
                    assert(files[k] == files_before[k]);
                    assert(old(files)[k].inverter_id != inverter_id);
                    assert(crawler_before.contains_key(old(files)[k].inverter_id));
                }
                assert forall|k: int| position < k < files.len() implies #[trigger] files[k]
                    == old(files)[k] by {
                    assert(files[k] == files_before[k]);
                }
                assert forall|k: int| position < k < old(files).len() implies self.inverters@[(
                #[trigger] old(files)[k]).inverter_id] == old(self).inverters@[old(files)[k].inverter_id] by {
                    assert(old(files)[k].inverter_id != inverter_id);
                    assert(crawler_before.contains_key(old(files)[k].inverter_id));
                }
            }
            if res.is_err() {
                assert(saved_up_to(
                    old(self).inverters@,
                    self.inverters@,
                    old(files)@,
                    files@,
                    position + 1,
                    res,
                ));
                return res;
            }
            proof {
                let saved = old(files)[position as int].inverter_id;
                assert(inverter_saved(
                    old(self).inverters@[saved],
                    self.inverters@[saved],
                    old(files)[position as int].files@,
                    files[position as int].files@,
                    res,
                ));
                assert(inverter_saved_well(
                    old(self).inverters@[saved],
                    self.inverters@[saved],
                    old(files)[position as int].files@,
                    files[position as int].files@,
                ));
            }
            position += 1;
        }
        assert(saved_up_to(
            old(self).inverters@,
            self.inverters@,
            old(files)@,
            files@,
            files.len() as int,
            Ok(()),
        ));
        Ok(())
    }

    /// The ids of the known inverters, ascending.
    pub fn known_inverters(&self) -> (known: Vec<u8>)
        ensures
            forall|id: u8| known@.contains(id) <==> self.inverters@.contains_key(id),
            forall|i: int, j: int| 0 <= i < j < known.len() ==> known[i] < known[j],
    {
        let mut known: Vec<u8> = Vec::new();
        let mut candidate: u16 = 0;
        while candidate < 256
            invariant
                candidate <= 256,
                forall|id: u8|
                    known@.contains(id) <==> id < candidate && self.inverters@.contains_key(id),
                forall|i: int, j: int| 0 <= i < j < known.len() ==> known[i] < known[j],
                forall|i: int| 0 <= i < known.len() ==> known[i] < candidate,
            decreases 256 - candidate,
        {
            let id = candidate as u8;
            let ghost so_far = known@;
            if self.inverters.contains_key(&id) {
                known.push(id);
                proof {
                    lemma_pushed_contains(so_far, id);
                }
            }
            candidate += 1;
        }
        known
    }

    /// Takes in the outcome of reading a known inverter at `now`, as
    /// `CrawledInverter::crawl` does. The other inverters are not touched.
    /// Crawling one inverter takes two steps, since each needs reads of its
    /// own: `get_inverter` first, which discovers the inverter where it is
    /// not known yet, then this one. So the inverter must be known here.
    pub fn crawl_inverter(
        &mut self,
        inverter_id: u8,
        fetched: Result<Vec<Reading>, ErrorKind>,
        now: Timestamp,
        default_interval: u64,
    ) -> (res: Result<(), ErrorKind>)
        requires
            old(self).wf(),
            old(self).inverters@.contains_key(inverter_id),
            fetched matches Ok(fields) ==> fields.len() > old(self).inverters@[inverter_id].channel_count,
            fetched is Ok ==> now@ + old(self).inverters@[inverter_id].effective_interval(
                default_interval,
            ) <= i64::MAX,
        ensures
            final(self).api == old(self).api,
            final(self).wf(),
            final(self).inverters@.dom() == old(self).inverters@.dom(),
            forall|id: u8|
                id != inverter_id && old(self).inverters@.contains_key(id) ==> final(self).inverters@[id] == old(self).inverters@[id],
            match fetched {
                Err(error) => res == Err::<(), ErrorKind>(error) && final(self).inverters@ == old(self).inverters@,
                Ok(fields) => res is Ok && crawled(
                    old(self).inverters@[inverter_id],
                    final(self).inverters@[inverter_id],
                    fields@,
                    now,
                    default_interval,
                ),
            },
    {
        let ghost before = self.inverters@;
        let mut inverter = self.inverters.remove(&inverter_id).unwrap();
        let res = inverter.crawl(fetched, now, default_interval);
        self.inverters.insert(inverter_id, inverter);
        proof {
            assert(self.inverters@.dom() =~= before.dom());
            if res is Err {
                assert(self.inverters@ =~= before);
            }
        }
        res
    }

    /// The known inverters that are due at `now`, by ascending id.
    pub fn due_inverters(&self, now: &Timestamp) -> (due: Vec<u8>)
        ensures
            forall|id: u8|
                due@.contains(id) <==> self.inverters@.contains_key(id) && self.inverters@[id].due_at(
                    now@,
                ),
            forall|i: int, j: int| 0 <= i < j < due.len() ==> due[i] < due[j],
    {
        let mut due: Vec<u8> = Vec::new();
        let mut candidate: u16 = 0;
        while candidate < 256
            invariant
                candidate <= 256,
                forall|id: u8|
                    due@.contains(id) <==> id < candidate && self.inverters@.contains_key(id)
                        && self.inverters@[id].due_at(now@),
                forall|i: int, j: int| 0 <= i < j < due.len() ==> due[i] < due[j],
                forall|i: int| 0 <= i < due.len() ==> due[i] < candidate,
            decreases 256 - candidate,
        {
            let id = candidate as u8;
            let ghost so_far = due@;
            let is_due = match self.inverters.get(&id) {
                Some(inverter) => inverter.is_due(now),
                None => false,
            };
            if is_due {
                due.push(id);
                proof {
                    lemma_pushed_contains(so_far, id);
                }
            }
            candidate += 1;
        }
        due
    }

    /// The earliest time at which a known inverter is due next; `None`
    /// while no inverter has such a time, as when none is known.
    pub fn next_due(&self) -> (next: Option<i64>)
        ensures
            match next {
                Some(moment) => earliest_due(self.inverters@, moment),
                None => forall|id: u8| #[trigger]
                    self.inverters@.contains_key(id) ==> self.inverters@[id].next_crawl_at is None,
            },
    {
        let mut next: Option<i64> = None;
        let mut candidate: u16 = 0;
        while candidate < 256
            invariant
                candidate <= 256,
                match next {
                    Some(moment) => {
                        &&& exists|id: u8| #[trigger]
                            self.inverters@.contains_key(id) && self.inverters@[id].next_crawl_at
                                == Some(moment)
                        &&& forall|id: u8|
                            id < candidate && #[trigger] self.inverters@.contains_key(id) ==> (
                            self.inverters@[id].next_crawl_at matches Some(time) ==> moment
                                <= time)
                    },
                    None => forall|id: u8|
                        id < candidate && #[trigger] self.inverters@.contains_key(id)
                            ==> self.inverters@[id].next_crawl_at is None,
                },
            decreases 256 - candidate,
        {
            let id = candidate as u8;
            match self.inverters.get(&id) {
                Some(inverter) => {
                    assert(self.inverters@.contains_key(id));
                    match inverter.next_crawl_at {
                        Some(time) => {
                            let earlier = match next {
                                Some(moment) => time < moment,
                                None => true,
                            };
                            if earlier {
                                next = Some(time);
                            }
                        },
                        None => {},
                    }
                },
                None => {},
            }
            candidate += 1;
        }
        next
    }
}

} // verus!
