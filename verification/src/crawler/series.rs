use crate::text::{decimal, decimal_text};
use vstd::prelude::*;
use vstd::string::StringExecFns;

verus! {

/// Which series of an inverter: one of its channels, counted from zero, or
/// the summary of the inverter as a whole.
#[derive(Debug, Clone, Copy, PartialEq, Eq, Structural)]
pub enum SeriesId {
    Channel(u8),
    Summary,
}

/// The path of a series' file: `folder/inverter/series.csv`.
pub open spec fn csv_path_text(folder: Seq<char>, inverter: Seq<char>, series: Seq<char>) -> Seq<
    char,
> {
    folder + "/"@ + inverter + "/"@ + series + ".csv"@
}

/// The name of a series' table: `inverter::series`.
pub open spec fn table_name_text(inverter: Seq<char>, series: Seq<char>) -> Seq<char> {
    inverter + "::"@ + series
}

impl SeriesId {
    /// What the series is called in file and table names.
    pub open spec fn text(self) -> Seq<char> {
        match self {
            SeriesId::Channel(index) => decimal(index as nat),
            SeriesId::Summary => "summary"@,
        }
    }

    pub fn name(&self) -> (name: String)
        ensures
            name@ == self.text(),
    {
        match self {
            SeriesId::Channel(index) => decimal_text(*index),
            SeriesId::Summary => String::from_str("summary"),
        }
    }

    pub fn csv_path(&self, folder_path: &str, inverter_name: &str) -> (path: String)
        ensures
            path@ == csv_path_text(folder_path@, inverter_name@, self.text()),
    {
        let mut path = String::from_str(folder_path);
        path.append("/");
        path.append(inverter_name);
        path.append("/");
        path.append(self.name().as_str());
        path.append(".csv");
        path
    }

    pub fn table_name(&self, inverter_name: &str) -> (name: String)
        ensures
            name@ == table_name_text(inverter_name@, self.text()),
    {
        let mut name = String::from_str(inverter_name);
        name.append("::");
        name.append(self.name().as_str());
        name
    }
}

} // verus!
