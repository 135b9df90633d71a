use crate::error_kind::ErrorKind;
use crate::reading::Reading;
use crate::text::{contains_name, decimal, decimal_text, texts};
use vstd::prelude::*;
use vstd::string::StringExecFns;

pub use crate::reading::UnitValue;

verus! {

/// Whether a field is wanted: every field is while no selection is given.
pub open spec fn is_selected(selected: Option<Vec<String>>, name: Seq<char>) -> bool {
    match selected {
        Some(list) => texts(list@).contains(name),
        None => true,
    }
}

/// The reading made of the first `upto` fields of a channel: each wanted
/// field under its name, with the value and the unit at its position.
pub open spec fn channel_reading(
    names: Seq<String>,
    units: Seq<String>,
    values: Seq<String>,
    selected: Option<Vec<String>>,
    upto: int,
) -> Map<Seq<char>, (Seq<char>, Seq<char>)>
    decreases upto,
{
    if upto <= 0 {
        Map::empty()
    } else {
        let rest = channel_reading(names, units, values, selected, upto - 1);
        if is_selected(selected, names[upto - 1]@) {
            rest.insert(names[upto - 1]@, (values[upto - 1]@, units[upto - 1]@))
        } else {
            rest
        }
    }
}

/// Every wanted field of channel `channel` has a unit and a value.
pub open spec fn channel_in_range(
    names: Seq<String>,
    units: Seq<String>,
    ch: Seq<Vec<String>>,
    channel: int,
    selected: Option<Vec<String>>,
) -> bool {
    forall|i: int|
        0 <= i < names.len() && is_selected(selected, (#[trigger] names[i])@) ==> i < units.len()
            && channel < ch.len() && i < ch[channel].len()
}

/// Every wanted field of the inverter and of each of its channels has a
/// unit and a value.
pub open spec fn status_in_range(
    inverter: Inverter,
    status: InverterStatus,
    live: Live,
    selected: Option<Vec<String>>,
) -> bool {
    &&& channel_in_range(live.ch0_fld_names@, live.ch0_fld_units@, status.ch@, 0, selected)
    &&& forall|channel: int|
        1 <= channel <= inverter.channels ==> #[trigger] channel_in_range(
            live.fld_names@,
            live.fld_units@,
            status.ch@,
            channel,
            selected,
        )
}

/// As `status_in_range`, of the outcome of the two reads.
pub open spec fn fields_readable(
    inverter: Inverter,
    status: Result<InverterStatus, ErrorKind>,
    live: Result<Live, ErrorKind>,
    selected: Option<Vec<String>>,
) -> bool {
    match (status, live) {
        (Ok(state), Ok(names)) => status_in_range(inverter, state, names, selected),
        _ => true,
    }
}

/// Whether every wanted field of channel `channel` has a unit and a value.
fn channel_covered(
    names: &Vec<String>,
    units: &Vec<String>,
    ch: &Vec<Vec<String>>,
    channel: usize,
    selected: &Option<Vec<String>>,
) -> (covered: bool)
    ensures
        covered == channel_in_range(names@, units@, ch@, channel as int, *selected),
{
    let mut index: usize = 0;
    while index < names.len()
        invariant
            index <= names.len(),
            forall|i: int|
                0 <= i < index && is_selected(*selected, (#[trigger] names@[i])@) ==> i
                    < units.len() && channel < ch.len() && i < ch[channel as int].len(),
        decreases names.len() - index,
    {
        let wanted = match selected {
            Some(list) => contains_name(list, &names[index]),
            None => true,
        };
        if wanted {
            if !(index < units.len() && channel < ch.len() && index < ch[channel].len()) {
                assert(is_selected(*selected, names@[index as int]@));
                return false;
            }
        }
        index += 1;
    }
    true
}

/// The wanted fields of one channel as a reading.
fn channel_fields(
    names: &Vec<String>,
    units: &Vec<String>,
    ch: &Vec<Vec<String>>,
    channel: usize,
    selected: &Option<Vec<String>>,
) -> (reading: Reading)
    requires
        channel_in_range(names@, units@, ch@, channel as int, *selected),
    ensures
        reading@ == channel_reading(names@, units@, ch[channel as int]@, *selected, names.len() as int),
{
    let mut reading = Reading::new();
    let mut index: usize = 0;
    while index < names.len()
        invariant
            index <= names.len(),
            channel_in_range(names@, units@, ch@, channel as int, *selected),
            reading@ == channel_reading(
                names@,
                units@,
                ch[channel as int]@,
                *selected,
                index as int,
            ),
        decreases names.len() - index,
    {
        let wanted = match selected {
            Some(list) => contains_name(list, &names[index]),
            None => true,
        };
        if wanted {
            assert(is_selected(*selected, names@[index as int]@));
            reading.insert(
                names[index].clone(),
                UnitValue::new(ch[channel][index].clone(), units[index].clone()),
            );
        }
        index += 1;
    }
    reading
}

/// The path under which the gateway lists its inverters.
pub open spec fn inverter_list_path() -> Seq<char> {
    "/api/inverter/list"@
}

/// The path under which the gateway reports the state of an inverter.
pub open spec fn inverter_status_path(id: u8) -> Seq<char> {
    "/api/inverter/id/"@ + decimal(id as nat)
}

/// The path under which the gateway names its fields.
pub open spec fn live_path() -> Seq<char> {
    "/api/live"@
}

/// The path of the gateway's index.
pub open spec fn index_path() -> Seq<char> {
    "/api/index"@
}

/// Handle on one gateway: where it is reached and whether canned answers
/// stand in for the network.
#[derive(Debug, Clone)]
pub struct AhoyApi {
    pub endpoint: String,
    pub offline_mode: bool,
}

impl AhoyApi {
    pub fn new(endpoint: String) -> (api: Self)
        ensures
            api.endpoint == endpoint,
            !api.offline_mode,
    {
        Self { endpoint, offline_mode: false }
    }

    pub fn set_offline_mode(&mut self, value: bool)
        ensures
            final(self).offline_mode == value,
            final(self).endpoint == old(self).endpoint,
    {
        self.offline_mode = value;
    }

    pub fn list_path() -> (path: String)
        ensures
            path@ == inverter_list_path(),
    {
        String::from_str("/api/inverter/list")
    }

    pub fn status_path(inverter: &Inverter) -> (path: String)
        ensures
            path@ == inverter_status_path(inverter.id),
    {
        let mut path = String::from_str("/api/inverter/id/");
        path.append(decimal_text(inverter.id).as_str());
        path
    }

    pub fn live_path() -> (path: String)
        ensures
            path@ == self::live_path(),
    {
        String::from_str("/api/live")
    }

    pub fn index_path() -> (path: String)
        ensures
            path@ == self::index_path(),
    {
        String::from_str("/api/index")
    }

    /// Whether the state and the field lists hold a unit and a value for
    /// every wanted field, which is what `get_inverter_fields` asks for.
    pub fn status_covers(
        inverter: &Inverter,
        status: &InverterStatus,
        live: &Live,
        selected_fields: &Option<Vec<String>>,
    ) -> (covered: bool)
        ensures
            covered == status_in_range(*inverter, *status, *live, *selected_fields),
    {
        if !channel_covered(
            &live.ch0_fld_names,
            &live.ch0_fld_units,
            &status.ch,
            0,
            selected_fields,
        ) {
            return false;
        }
        let mut channel: usize = 1;
        while channel <= inverter.channels as usize
            invariant
                1 <= channel <= inverter.channels + 1,
                channel_in_range(
                    live.ch0_fld_names@,
                    live.ch0_fld_units@,
                    status.ch@,
                    0,
                    *selected_fields,
                ),
                forall|c: int|
                    1 <= c < channel ==> #[trigger] channel_in_range(
                        live.fld_names@,
                        live.fld_units@,
                        status.ch@,
                        c,
                        *selected_fields,
                    ),
            decreases inverter.channels + 1 - channel,
        {
            if !channel_covered(
                &live.fld_names,
                &live.fld_units,
                &status.ch,
                channel,
                selected_fields,
            ) {
                return false;
            }
            channel += 1;
        }
        true
    }

    /// Puts the state of an inverter and the field lists together: one
    /// reading for the inverter as a whole, then one per channel, each
    /// holding the wanted fields. A failed read comes back as it is, that
    /// of the state before that of the field lists.
    pub fn get_inverter_fields(
        &self,
        inverter: &Inverter,
        status: Result<InverterStatus, ErrorKind>,
        live: Result<Live, ErrorKind>,
        selected_fields: Option<Vec<String>>,
    ) -> (res: Result<Vec<Reading>, ErrorKind>)
        requires
            fields_readable(*inverter, status, live, selected_fields),
        ensures
            match (status, live) {
                (Err(error), _) => res == Err::<Vec<Reading>, ErrorKind>(error),
                (Ok(_), Err(error)) => res == Err::<Vec<Reading>, ErrorKind>(error),
                (Ok(state), Ok(names)) => {
                    &&& res matches Ok(data)
                    &&& data.len() == inverter.channels + 1
                    &&& data[0]@ == channel_reading(
                        names.ch0_fld_names@,
                        names.ch0_fld_units@,
                        state.ch[0]@,
                        selected_fields,
                        names.ch0_fld_names.len() as int,
                    )
                    &&& forall|channel: int|
                        1 <= channel <= inverter.channels ==> (#[trigger] data[channel])@
                            == channel_reading(
                            names.fld_names@,
                            names.fld_units@,
                            state.ch[channel]@,
                            selected_fields,
                            names.fld_names.len() as int,
                        )
                },
            },
    {
        let state = match status {
            Ok(state) => state,
            Err(error) => {
                return Err(error);
            },
        };
        let names = match live {
            Ok(names) => names,
            Err(error) => {
                return Err(error);
            },
        };
        let mut data: Vec<Reading> = Vec::new();
        data.push(
            channel_fields(
                &names.ch0_fld_names,
                &names.ch0_fld_units,
                &state.ch,
                0,
                &selected_fields,
            ),
        );
        let mut channel: usize = 1;
        while channel <= inverter.channels as usize
            invariant
                1 <= channel <= inverter.channels + 1,
                data.len() == channel,
                status_in_range(*inverter, state, names, selected_fields),
                data[0]@ == channel_reading(
                    names.ch0_fld_names@,
                    names.ch0_fld_units@,
                    state.ch[0]@,
                    selected_fields,
                    names.ch0_fld_names.len() as int,
                ),
                forall|c: int|
                    1 <= c < channel ==> (#[trigger] data[c])@ == channel_reading(
                        names.fld_names@,
                        names.fld_units@,
                        state.ch[c]@,
                        selected_fields,
                        names.fld_names.len() as int,
                    ),
            decreases inverter.channels + 1 - channel,
        {
            assert(channel_in_range(
                names.fld_names@,
                names.fld_units@,
                state.ch@,
                channel as int,
                selected_fields,
            ));
            data.push(
                channel_fields(
                    &names.fld_names,
                    &names.fld_units,
                    &state.ch,
                    channel,
                    &selected_fields,
                ),
            );
            channel += 1;
        }
        Ok(data)
    }

    /// The address of a request: the endpoint followed by the path.
    pub fn url(&self, path: &str) -> (url: String)
        ensures
            url@ == self.endpoint@ + path@,
    {
        let mut url = self.endpoint.clone();
        url.append(path);
        url
    }
}

/// The roster of inverters that the gateway knows, with its settings.
#[derive(Debug)]
pub struct InverterList {
    pub inverter: Vec<Inverter>,
    pub interval: String,
    pub retries: String,
    pub max_num_inverters: u8,
    pub rst_mid: bool,
    pub rst_n_avail: bool,
    pub rst_com_stop: bool,
    pub strt_wtht_tm: bool,
    pub yld_eff: u8,
}

/// One roster entry.
#[derive(Debug)]
pub struct Inverter {
    pub enabled: bool,
    pub id: u8,
    pub name: String,
    pub serial: String,
    /// How many physical channels the inverter has.
    pub channels: u8,
    pub version: String,
    pub ch_yield_cor: Vec<u8>,
    pub ch_name: Vec<String>,
    pub ch_max_pwr: Vec<Option<u16>>,
}

impl Clone for Inverter {
    fn clone(&self) -> (copy: Self)
        ensures
            copy.enabled == self.enabled,
            copy.id == self.id,
            copy.name@ == self.name@,
            copy.serial@ == self.serial@,
            copy.channels == self.channels,
            copy.version@ == self.version@,
            copy.ch_yield_cor@ == self.ch_yield_cor@,
            copy.ch_max_pwr@ == self.ch_max_pwr@,
            texts(copy.ch_name@) == texts(self.ch_name@),
    {
        let copy = Inverter {
            enabled: self.enabled,
            id: self.id,
            name: self.name.clone(),
            serial: self.serial.clone(),
            channels: self.channels,
            version: self.version.clone(),
            ch_yield_cor: self.ch_yield_cor.clone(),
            ch_name: self.ch_name.clone(),
            ch_max_pwr: self.ch_max_pwr.clone(),
        };
        assert(texts(copy.ch_name@) =~= texts(self.ch_name@));
        copy
    }
}

/// The state of one inverter. `ch` holds, per channel (the inverter as a
/// whole first), the values of its fields as decimal text.
#[derive(Debug)]
pub struct InverterStatus {
    pub id: u8,
    pub enabled: bool,
    pub name: String,
    pub serial: String,
    pub version: String,
    pub power_limit_read: u16,
    pub power_limit_ack: bool,
    pub ts_last_success: u64,
    pub generation: u32,
    pub status: u8,
    pub alarm_cnt: u8,
    pub ch: Vec<Vec<String>>,
    pub ch_name: Vec<String>,
    pub ch_max_pwr: Vec<Option<u16>>,
}

/// The names and units of the fields that the gateway reports.
#[derive(Debug)]
pub struct Live {
    pub generic: Generic,
    pub refresh: u8,
    pub ch0_fld_units: Vec<String>,
    pub ch0_fld_names: Vec<String>,
    pub fld_units: Vec<String>,
    pub fld_names: Vec<String>,
    pub iv: Vec<bool>,
}

#[derive(Debug)]
pub struct Generic {
    pub wifi_rssi: i8,
    pub ts_uptime: u64,
    pub ts_now: u64,
    pub version: String,
    pub build: String,
    pub menu_prot: bool,
    pub menu_mask: u8,
    pub menu_prot_en: bool,
    pub esp_type: String,
}

#[derive(Debug)]
pub struct Index {
    pub generic: Generic,
    pub ts_now: u64,
    pub ts_sunrise: u64,
    pub ts_sunset: u64,
    pub ts_offset: u64,
    pub dis_night_comm: bool,
    pub inverter: Vec<InverterIndex>,
    pub warnings: Vec<String>,
    pub infos: Vec<String>,
}

#[derive(Debug)]
pub struct InverterIndex {
    pub enabled: bool,
    pub id: u8,
    pub name: String,
    pub version: String,
    pub is_avail: bool,
    pub is_producing: bool,
    pub ts_last_success: u64,
}

} // verus!
