use ahoy_dtu_stats::ahoy::{
    Generic, Index, Inverter, InverterIndex, InverterList, InverterStatus, Live,
};
use ahoy_dtu_stats::crawler::crawled_inverter::OpenedFile;
use ahoy_dtu_stats::crawler::csv_sink::SeriesFile;
use ahoy_dtu_stats::crawler::{Crawler, CsvSink, InverterFiles, PassStep, Timestamp};
use ahoy_dtu_stats::{AhoyApi, ErrorKind, Reading};
use std::cell::RefCell;
use std::io::Write;
use std::rc::Rc;

#[derive(Clone)]
struct Shared {
    bytes: Rc<RefCell<Vec<u8>>>,
}

impl Shared {
    fn new() -> Shared {
        Shared { bytes: Rc::new(RefCell::new(Vec::new())) }
    }

    fn text(&self) -> String {
        String::from_utf8(self.bytes.borrow().clone()).unwrap()
    }
}

impl Write for Shared {
    fn write(&mut self, buf: &[u8]) -> std::io::Result<usize> {
        self.bytes.borrow_mut().extend_from_slice(buf);
        Ok(buf.len())
    }

    fn flush(&mut self) -> std::io::Result<()> {
        Ok(())
    }
}

/// The files of a gateway's output, by path, as they grow over the saves.
struct Folder {
    files: Vec<(String, Shared)>,
}

impl Folder {
    fn new() -> Folder {
        Folder { files: Vec::new() }
    }

    fn open(&mut self, path: &str) -> OpenedFile {
        let found = self.files.iter().position(|(known, _)| known == path);
        let at = match found {
            Some(at) => at,
            None => {
                self.files.push((path.to_string(), Shared::new()));
                self.files.len() - 1
            }
        };
        let target = self.files[at].1.clone();
        let len = target.bytes.borrow().len() as u64;
        Ok(SeriesFile { sink: CsvSink::from_writer(target), len })
    }

    fn text(&self, path: &str) -> String {
        self.files.iter().find(|(known, _)| known == path).unwrap().1.text()
    }
}

fn strings(items: &[&str]) -> Vec<String> {
    items.iter().map(|s| s.to_string()).collect()
}

fn generic() -> Generic {
    Generic {
        wifi_rssi: -68,
        ts_uptime: 1860548,
        ts_now: 1705817096,
        version: "0.7.36".to_string(),
        build: "ba218ed".to_string(),
        menu_prot: false,
        menu_mask: 61,
        menu_prot_en: false,
        esp_type: "ESP8266".to_string(),
    }
}

fn entry(id: u8, name: &str) -> Inverter {
    Inverter {
        enabled: true,
        id,
        name: name.to_string(),
        serial: "114184511809".to_string(),
        channels: 2,
        version: "10010".to_string(),
        ch_yield_cor: vec![0, 0],
        ch_name: strings(&["A", "B"]),
        ch_max_pwr: vec![Some(540), Some(540)],
    }
}

fn roster(names: &[&str]) -> InverterList {
    InverterList {
        inverter: names.iter().enumerate().map(|(id, name)| entry(id as u8, name)).collect(),
        interval: "30".to_string(),
        retries: "5".to_string(),
        max_num_inverters: 4,
        rst_mid: false,
        rst_n_avail: false,
        rst_com_stop: false,
        strt_wtht_tm: false,
        yld_eff: 1,
    }
}

fn index(names: &[&str]) -> Index {
    Index {
        generic: generic(),
        ts_now: 1705817112,
        ts_sunrise: 1705820785,
        ts_sunset: 1705853693,
        ts_offset: 0,
        dis_night_comm: true,
        inverter: names
            .iter()
            .enumerate()
            .map(|(id, name)| InverterIndex {
                enabled: true,
                id: id as u8,
                name: name.to_string(),
                version: "10010".to_string(),
                is_avail: false,
                is_producing: false,
                ts_last_success: 1705764469,
            })
            .collect(),
        warnings: vec![],
        infos: vec![],
    }
}

fn live() -> Live {
    Live {
        generic: generic(),
        refresh: 30,
        ch0_fld_units: strings(&[
            "V", "A", "W", "Hz", "", "°C", "kWh", "Wh", "W", "%", "var", "W",
        ]),
        ch0_fld_names: strings(&[
            "U_AC", "I_AC", "P_AC", "F_AC", "PF_AC", "Temp", "YieldTotal", "YieldDay", "P_DC",
            "Efficiency", "Q_AC", "MaxPower",
        ]),
        fld_units: strings(&["V", "A", "W", "Wh", "kWh", "%", "W"]),
        fld_names: strings(&[
            "U_DC", "I_DC", "P_DC", "YieldDay", "YieldTotal", "Irradiation", "MaxPower",
        ]),
        iv: vec![true, false, false, false],
    }
}

fn numbers(values: &[f32]) -> Vec<String> {
    values.iter().map(|v| v.to_string()).collect()
}

fn status() -> InverterStatus {
    InverterStatus {
        id: 0,
        enabled: true,
        name: "PV Microinverte".to_string(),
        serial: "114184511809".to_string(),
        version: "10010".to_string(),
        power_limit_read: 65535,
        power_limit_ack: false,
        ts_last_success: 1705764469,
        generation: 0,
        status: 0,
        alarm_cnt: 3,
        ch: vec![
            numbers(&[239.7, 0.0, 0.0, 49.97, 0.0, 1.9, 298.886, 37.0, 1.0, 0.0, 0.0, 475.3]),
            numbers(&[23.2, 0.02, 0.5, 18.0, 148.505, 0.093, 241.1]),
            numbers(&[23.2, 0.02, 0.5, 19.0, 150.381, 0.093, 262.0]),
        ],
        ch_name: strings(&["AC", "A", "B"]),
        ch_max_pwr: vec![None, Some(540), Some(540)],
    }
}

fn offline_api() -> AhoyApi {
    let mut api = AhoyApi::new("http://gateway.local".to_string());
    api.set_offline_mode(true);
    api
}

fn fields(crawler: &Crawler, id: u8) -> Result<Vec<Reading>, ErrorKind> {
    let inverter = &crawler.inverters[&id].original_inverter;
    crawler.api().get_inverter_fields(inverter, Ok(status()), Ok(live()), None)
}

fn at(secs: i64) -> Timestamp {
    Timestamp::from_secs(secs).unwrap()
}

fn crawl(crawler: &mut Crawler, id: u8, now: i64) -> Result<(), ErrorKind> {
    if !crawler.is_known(id) {
        crawler.get_inverter(id, Ok(index(&["PV Microinverte"])), Ok(roster(&["PV Microinverte"])), Ok(live()))?;
    }
    let fetched = fields(crawler, id);
    crawler.crawl_inverter(id, fetched, at(now), 60)
}

fn open_all(crawler: &Crawler, folder: &mut Folder) -> Vec<InverterFiles> {
    crawler
        .known_inverters()
        .into_iter()
        .map(|inverter_id| InverterFiles {
            inverter_id,
            files: crawler.inverters[&inverter_id]
                .csv_paths("./out")
                .iter()
                .map(|path| folder.open(path))
                .collect(),
        })
        .collect()
}

fn save(crawler: &mut Crawler, folder: &mut Folder) -> Result<(), ErrorKind> {
    let mut files = open_all(crawler, folder);
    crawler.save_to_csv(&mut files)
}

const T0: i64 = 1705817096;

#[test]
fn crawl_inverter() {
    let mut crawler = Crawler::from(offline_api());
    crawl(&mut crawler, 0, T0).unwrap();
    let inverter = &crawler.inverters[&0];
    assert_eq!(inverter.name, "PV Microinverte");
    assert_eq!(inverter.summary_dataset.len(), 1);
    assert_eq!(
        inverter.summary_dataset.front_record(),
        strings(&[
            "2024-01-21 06:04:56", "239.7", "0", "0", "49.97", "0", "1.9", "298.886", "37", "1",
            "0", "0", "475.3",
        ])
    );
    assert_eq!(
        inverter.channel_datasets[1].front_record(),
        strings(&["2024-01-21 06:04:56", "23.2", "0.02", "0.5", "19", "150.381", "0.093", "262"])
    );
}

#[test]
fn crawl_inverter_and_save() {
    let mut folder = Folder::new();
    let mut crawler = Crawler::from(offline_api());
    crawl(&mut crawler, 0, T0).unwrap();
    crawl(&mut crawler, 0, T0 + 60).unwrap();
    save(&mut crawler, &mut folder).unwrap();
    crawl(&mut crawler, 0, T0 + 120).unwrap();
    save(&mut crawler, &mut folder).unwrap();
    crawl(&mut crawler, 0, T0 + 180).unwrap();
    save(&mut crawler, &mut folder).unwrap();
    crawl(&mut crawler, 0, T0 + 240).unwrap();

    assert_eq!(
        folder.text("./out/PV Microinverte/0.csv"),
        "timestamp,U_DC,I_DC,P_DC,YieldDay,YieldTotal,Irradiation,MaxPower\n\
         2024-01-21 06:04:56,23.2,0.02,0.5,18,148.505,0.093,241.1\n\
         2024-01-21 06:05:56,23.2,0.02,0.5,18,148.505,0.093,241.1\n\
         2024-01-21 06:06:56,23.2,0.02,0.5,18,148.505,0.093,241.1\n\
         2024-01-21 06:07:56,23.2,0.02,0.5,18,148.505,0.093,241.1\n"
    );
    let summary = folder.text("./out/PV Microinverte/summary.csv");
    assert_eq!(summary.lines().count(), 5);
    assert_eq!(summary.matches("timestamp").count(), 1);
    assert_eq!(crawler.inverters[&0].summary_dataset.len(), 1);
}

#[test]
fn new_crawler_knows_no_inverter() {
    let crawler = Crawler::new("http://gateway.local".to_string());
    assert_eq!(crawler.api().endpoint, "http://gateway.local");
    assert!(!crawler.api().offline_mode);
    assert!(crawler.inverters.is_empty());
    assert!(crawler.known_inverters().is_empty());
    assert!(crawler.due_inverters(&at(T0)).is_empty());
    assert_eq!(crawler.next_due(), None);
}

#[test]
fn failed_discovery_keeps_nothing() {
    let mut crawler = Crawler::from(offline_api());
    let res = crawler.get_inverter(0, Ok(index(&["a"])), Err(ErrorKind::ParsingError), Ok(live()));
    assert!(matches!(res, Err(ErrorKind::ParsingError)));
    assert!(!crawler.is_known(0));
    assert!(crawler.inverters.is_empty());
}

#[test]
fn known_inverter_is_not_discovered_again() {
    let mut crawler = Crawler::from(offline_api());
    crawl(&mut crawler, 0, T0).unwrap();
    let res = crawler.get_inverter(
        0,
        Err(ErrorKind::NetworkError),
        Err(ErrorKind::NetworkError),
        Err(ErrorKind::NetworkError),
    );
    assert!(res.is_ok());
    assert_eq!(crawler.inverters[&0].summary_dataset.len(), 1);
    assert_eq!(crawler.inverters[&0].next_crawl_at, Some(T0 + 60));
}

#[test]
fn init_discovers_the_whole_roster() {
    let names = ["east", "west", "south"];
    let mut crawler = Crawler::from(offline_api());
    assert!(crawler.init(Ok(index(&names)), Ok(roster(&names)), Ok(live())).is_ok());
    assert_eq!(crawler.known_inverters(), vec![0, 1, 2]);
    assert_eq!(crawler.inverters[&1].name, "west");
    assert_eq!(crawler.due_inverters(&at(T0)), vec![0, 1, 2]);
    assert_eq!(crawler.next_due(), None);
}

#[test]
fn init_fails_with_the_failed_read() {
    let names = ["east"];
    let mut crawler = Crawler::from(offline_api());
    let res = crawler.init(Err(ErrorKind::NetworkError), Err(ErrorKind::ParsingError), Ok(live()));
    assert!(matches!(res, Err(ErrorKind::ParsingError)));
    let res = crawler.init(Err(ErrorKind::NetworkError), Ok(roster(&names)), Ok(live()));
    assert!(matches!(res, Err(ErrorKind::NetworkError)));
    let res = crawler.init(Ok(index(&names)), Ok(roster(&names)), Err(ErrorKind::ParsingError));
    assert!(matches!(res, Err(ErrorKind::ParsingError)));
    assert!(crawler.inverters.is_empty());
    let res = crawler.init(Err(ErrorKind::NetworkError), Ok(roster(&[])), Ok(live()));
    assert!(res.is_ok());
}

#[test]
fn next_due_is_the_earliest_of_all_inverters() {
    let names = ["east", "west", "south"];
    let mut crawler = Crawler::from(offline_api());
    crawler.init(Ok(index(&names)), Ok(roster(&names)), Ok(live())).unwrap();
    let fetched = fields(&crawler, 2);
    crawler.crawl_inverter(2, fetched, at(T0 + 10), 100).unwrap();
    assert_eq!(crawler.next_due(), Some(T0 + 110));
    let fetched = fields(&crawler, 0);
    crawler.crawl_inverter(0, fetched, at(T0), 60).unwrap();
    assert_eq!(crawler.next_due(), Some(T0 + 60));
    assert_eq!(crawler.due_inverters(&at(T0 + 59)), vec![1]);
    assert_eq!(crawler.due_inverters(&at(T0 + 60)), vec![0, 1]);
    assert_eq!(crawler.due_inverters(&at(T0 + 110)), vec![0, 1, 2]);
}

#[test]
fn pass_crawls_every_due_inverter_and_isolates_failures() {
    let names = ["east", "west", "south"];
    let mut folder = Folder::new();
    let mut crawler = Crawler::from(offline_api());
    crawler.init(Ok(index(&names)), Ok(roster(&names)), Ok(live())).unwrap();

    let mut pass = crawler.crawl_all_due_inverters(&at(T0), true);
    let mut crawled = Vec::new();
    let mut saved = Vec::new();
    loop {
        match pass.step() {
            PassStep::Crawl(id) => {
                crawled.push(id);
                let fetched =
                    if id == 1 { Err(ErrorKind::NetworkError) } else { fields(&crawler, id) };
                pass.crawled(&mut crawler, fetched, at(T0 + id as i64), 60);
            }
            PassStep::Save(id) => {
                saved.push(id);
                let paths = crawler.inverters[&id].csv_paths("out");
                let mut files: Vec<OpenedFile> =
                    paths.iter().map(|path| folder.open(path)).collect();
                let outcome = crawler.save_inverter_to_csv(id, &mut files);
                pass.saved(outcome);
            }
            PassStep::Done => break,
        }
    }
    let report = pass.finish(&crawler);

    assert_eq!(crawled, vec![0, 1, 2]);
    assert_eq!(saved, vec![0, 2]);
    assert_eq!(report.next_due, Some(T0 + 60));
    assert_eq!(report.failures.len(), 1);
    assert_eq!(report.failures[0].0, 1);
    assert!(matches!(report.failures[0].1, ErrorKind::NetworkError));
    assert!(crawler.inverters[&1].next_crawl_at.is_none());
    assert_eq!(crawler.inverters[&2].next_crawl_at, Some(T0 + 62));
    assert_eq!(crawler.due_inverters(&at(T0 + 5)), vec![1]);
    assert_eq!(folder.text("out/east/summary.csv").lines().count(), 2);
    assert_eq!(folder.text("out/south/1.csv").lines().count(), 2);
}

#[test]
fn pass_without_sync_only_buffers() {
    let names = ["east", "west"];
    let mut crawler = Crawler::from(offline_api());
    crawler.init(Ok(index(&names)), Ok(roster(&names)), Ok(live())).unwrap();
    let mut pass = crawler.crawl_all_due_inverters(&at(T0), false);
    let mut steps = Vec::new();
    loop {
        let step = pass.step();
        steps.push(step);
        match step {
            PassStep::Crawl(id) => {
                let fetched = fields(&crawler, id);
                pass.crawled(&mut crawler, fetched, at(T0), 60);
            }
            PassStep::Save(_) => unreachable!(),
            PassStep::Done => break,
        }
    }
    assert_eq!(steps, vec![PassStep::Crawl(0), PassStep::Crawl(1), PassStep::Done]);
    let report = pass.finish(&crawler);
    assert!(report.failures.is_empty());
    assert_eq!(report.next_due, Some(T0 + 60));
    assert_eq!(crawler.inverters[&0].summary_dataset.len(), 1);

    let pass = crawler.crawl_all_due_inverters(&at(T0 + 1), true);
    assert_eq!(pass.step(), PassStep::Done);
}

#[test]
fn failed_save_is_reported_and_the_pass_goes_on() {
    let names = ["east", "west"];
    let mut crawler = Crawler::from(offline_api());
    crawler.init(Ok(index(&names)), Ok(roster(&names)), Ok(live())).unwrap();
    let mut pass = crawler.crawl_all_due_inverters(&at(T0), true);
    assert_eq!(pass.step(), PassStep::Crawl(0));
    let fetched = fields(&crawler, 0);
    pass.crawled(&mut crawler, fetched, at(T0), 60);
    assert_eq!(pass.step(), PassStep::Save(0));
    pass.saved(Err(ErrorKind::CouldNotOpenFile("out/east/0.csv".to_string())));
    assert_eq!(pass.step(), PassStep::Crawl(1));
    let fetched = fields(&crawler, 1);
    pass.crawled(&mut crawler, fetched, at(T0), 60);
    assert_eq!(pass.step(), PassStep::Save(1));
    pass.saved(Ok(()));
    assert_eq!(pass.step(), PassStep::Done);
    let report = pass.finish(&crawler);
    assert_eq!(report.failures.len(), 1);
    assert_eq!(report.failures[0].0, 0);
    assert!(matches!(report.failures[0].1, ErrorKind::CouldNotOpenFile(ref p) if p == "out/east/0.csv"));
    assert_eq!(crawler.inverters[&0].summary_dataset.len(), 1);
}

#[test]
fn saving_all_stops_at_the_first_inverter_that_fails() {
    let names = ["east", "west", "south"];
    let mut folder = Folder::new();
    let mut crawler = Crawler::from(offline_api());
    crawler.init(Ok(index(&names)), Ok(roster(&names)), Ok(live())).unwrap();
    for id in 0..3 {
        let fetched = fields(&crawler, id);
        crawler.crawl_inverter(id, fetched, at(T0), 60).unwrap();
    }

    let mut files = open_all(&crawler, &mut folder);
    files[1].files[0] = Err(ErrorKind::CouldNotCreateFile("./out/west/0.csv".to_string()));
    let res = crawler.save_to_csv(&mut files);
    drop(files);

    assert!(matches!(res, Err(ErrorKind::CouldNotCreateFile(ref p)) if p == "./out/west/0.csv"));
    // The first inverter is written out in full.
    assert_eq!(crawler.inverters[&0].summary_dataset.len(), 0);
    assert_eq!(folder.text("./out/east/summary.csv").lines().count(), 2);
    // The second one has every series attempted but the one without a file.
    assert_eq!(crawler.inverters[&1].channel_datasets[0].len(), 1);
    assert_eq!(crawler.inverters[&1].channel_datasets[1].len(), 0);
    assert_eq!(crawler.inverters[&1].summary_dataset.len(), 0);
    // The third one is not touched.
    assert_eq!(crawler.inverters[&2].summary_dataset.len(), 1);
    assert_eq!(folder.text("./out/south/summary.csv"), "");

    // With all files open the rest goes out.
    assert!(save(&mut crawler, &mut folder).is_ok());
    assert_eq!(crawler.inverters[&1].channel_datasets[0].len(), 0);
    assert_eq!(crawler.inverters[&2].summary_dataset.len(), 0);
    assert_eq!(folder.text("./out/south/summary.csv").lines().count(), 2);
    assert_eq!(folder.text("./out/east/summary.csv").lines().count(), 2);
}

#[test]
fn saving_all_of_nothing_succeeds() {
    let mut crawler = Crawler::from(offline_api());
    let mut files = Vec::new();
    assert!(crawler.save_to_csv(&mut files).is_ok());
}
