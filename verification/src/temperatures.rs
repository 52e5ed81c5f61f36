//! Temperature sensors of the Linux `hwmon` and `thermal` classes.
//!
//! The temperature type `T` is left to the caller: the library moves
//! temperatures around but never computes with them.
use vstd::prelude::*;

use crate::error::Error;
use crate::names::{
    sibling_name, word_crit, word_input, word_label, word_max, word_temp, EntryKind,
};
use crate::text::{drop_last_char, without_last_char};
use crate::walk::{listing_read, nested_read, select, spec_select, spec_walk, walk, Listing};

verus! {

/// Hardware temperature sensor.
#[derive(Debug)]
pub struct TemperatureSensor<T> {
    pub(crate) unit: String,
    pub(crate) label: Option<String>,
    pub(crate) current: T,
    pub(crate) high: Option<T>,
    pub(crate) critical: Option<T>,
}

/// What a [`TemperatureSensor`] holds, as mathematical values.
pub struct TemperatureSensorView<T> {
    pub unit: Seq<char>,
    pub label: Option<Seq<char>>,
    pub current: T,
    pub high: Option<T>,
    pub critical: Option<T>,
}

impl<T> View for TemperatureSensor<T> {
    type V = TemperatureSensorView<T>;

    closed spec fn view(&self) -> TemperatureSensorView<T> {
        TemperatureSensorView {
            unit: self.unit@,
            label: match self.label {
                Some(l) => Some(l@),
                None => None,
            },
            current: self.current,
            high: self.high,
            critical: self.critical,
        }
    }
}

impl<T> TemperatureSensor<T> {
    /// Returns sensor unit name.
    pub fn unit(&self) -> (r: &str)
        ensures
            r@ == self@.unit,
    {
        self.unit.as_str()
    }

    /// Returns sensor label.
    pub fn label(&self) -> (r: Option<&str>)
        ensures
            match r {
                Some(l) => self@.label == Some(l@),
                None => self@.label is None,
            },
    {
        match &self.label {
            Some(l) => Some(l.as_str()),
            None => None,
        }
    }

    /// Returns the current temperature.
    pub fn current(&self) -> (r: &T)
        ensures
            *r == self@.current,
    {
        &self.current
    }

    /// Returns the high trip point temperature, if known.
    pub fn high(&self) -> (r: Option<&T>)
        ensures
            match r {
                Some(t) => self@.high == Some(*t),
                None => self@.high is None,
            },
    {
        match &self.high {
            Some(t) => Some(t),
            None => None,
        }
    }

    /// Returns the critical trip point temperature, if known.
    pub fn critical(&self) -> (r: Option<&T>)
        ensures
            match r {
                Some(t) => self@.critical == Some(*t),
                None => self@.critical is None,
            },
    {
        match &self.critical {
            Some(t) => Some(t),
            None => None,
        }
    }
}

/// A result of the library as a mathematical value.
pub open spec fn temperature_result_view<T>(r: Result<TemperatureSensor<T>, Error>) -> Result<
    TemperatureSensorView<T>,
    Error,
> {
    match r {
        Ok(s) => Ok(s@),
        Err(e) => Err(e),
    }
}

/// What was read for one `temp*_input` file of a hwmon directory.
pub struct TempReadings<T> {
    /// The directory's `name` file.
    pub unit: Result<String, Error>,
    /// The `temp*_label` file.
    pub label: Result<String, Error>,
    /// The temperature in the `temp*_input` file.
    pub current: Result<T, Error>,
    /// The temperature in the `temp*_max` file.
    pub high: Result<T, Error>,
    /// The temperature in the `temp*_crit` file.
    pub critical: Result<T, Error>,
}

/// The sensor that a set of hwmon readings describes: the unit and label
/// lose their trailing newline; a missing label, high or critical
/// temperature is no error. A failed `name` read comes first, then a
/// failed current temperature.
pub open spec fn spec_hwmon_sensor<T>(r: TempReadings<T>) -> Result<TemperatureSensorView<T>, Error> {
    match r.unit {
        Err(e) => Err(e),
        Ok(unit) => match r.current {
            Err(e) => Err(e),
            Ok(current) => Ok(
                TemperatureSensorView {
                    unit: drop_last_char(unit@),
                    label: match r.label {
                        Ok(l) => Some(drop_last_char(l@)),
                        Err(_) => None,
                    },
                    current,
                    high: match r.high {
                        Ok(t) => Some(t),
                        Err(_) => None,
                    },
                    critical: match r.critical {
                        Ok(t) => Some(t),
                        Err(_) => None,
                    },
                },
            ),
        },
    }
}

/// Builds the temperature sensor that `readings` describe.
pub fn hwmon_sensor<T>(readings: TempReadings<T>) -> (r: Result<TemperatureSensor<T>, Error>)
    ensures
        temperature_result_view(r) == spec_hwmon_sensor(readings),
{
    let TempReadings { unit, label, current, high, critical } = readings;
    let unit = match unit {
        Ok(s) => without_last_char(s),
        Err(e) => return Err(e),
    };
    let label = match label {
        Ok(s) => Some(without_last_char(s)),
        Err(_) => None,
    };
    let current = match current {
        Ok(t) => t,
        Err(e) => return Err(e),
    };
    let high = match high {
        Ok(t) => Some(t),
        Err(_) => None,
    };
    let critical = match critical {
        Ok(t) => Some(t),
        Err(_) => None,
    };
    Ok(TemperatureSensor { unit, label, current, high, critical })
}

/// The files that belong to the same hwmon sensor as a `temp*_input` file.
#[derive(Debug, Clone, Copy, PartialEq, Eq, Structural)]
pub enum SensorFile {
    /// `temp*_input`: the current temperature.
    Input,
    /// `temp*_label`: the label.
    Label,
    /// `temp*_max`: the high temperature.
    Max,
    /// `temp*_crit`: the critical temperature.
    Crit,
}

pub open spec fn sensor_file_word(which: SensorFile) -> Seq<u8> {
    match which {
        SensorFile::Input => word_input(),
        SensorFile::Label => word_label(),
        SensorFile::Max => word_max(),
        SensorFile::Crit => word_crit(),
    }
}

/// The name of the `which` file of the sensor whose input is `input_name`:
/// the input's name with its trailing `input` replaced.
pub fn sensor_file(input_name: &[u8], which: SensorFile) -> (r: Vec<u8>)
    requires
        input_name@.len() >= 5,
    ensures
        r@ == input_name@.take(input_name@.len() - 5) + sensor_file_word(which),
{
    match which {
        SensorFile::Input => {
            let w: [u8; 5] = ['i' as u8, 'n' as u8, 'p' as u8, 'u' as u8, 't' as u8];
            assert(w@ == word_input());
            sibling_name(input_name, 5, &w)
        },
        SensorFile::Label => {
            let w: [u8; 5] = ['l' as u8, 'a' as u8, 'b' as u8, 'e' as u8, 'l' as u8];
            assert(w@ == word_label());
            sibling_name(input_name, 5, &w)
        },
        SensorFile::Max => {
            let w: [u8; 3] = ['m' as u8, 'a' as u8, 'x' as u8];
            assert(w@ == word_max());
            sibling_name(input_name, 5, &w)
        },
        SensorFile::Crit => {
            let w: [u8; 4] = ['c' as u8, 'r' as u8, 'i' as u8, 't' as u8];
            assert(w@ == word_crit());
            sibling_name(input_name, 5, &w)
        },
    }
}

/// Maps the results of a walk through [`hwmon_sensor`].
pub open spec fn spec_hwmon_sensors<T>(found: Seq<Result<TempReadings<T>, Error>>) -> Seq<
    Result<TemperatureSensorView<T>, Error>,
> {
    found.map_values(
        |r: Result<TempReadings<T>, Error>|
            match r {
                Ok(readings) => spec_hwmon_sensor(readings),
                Err(e) => Err(e),
            },
    )
}

/// The temperature sensors of a hwmon walk: for each `hwmon*` directory
/// of `class/hwmon` (or its `device` subdirectory), one sensor per
/// `temp*_input` file, in listing order; a failed listing or entry
/// yields its error in its place.
pub fn hwmon<T>(class: Listing<Listing<TempReadings<T>>>) -> (r: Vec<
    Result<TemperatureSensor<T>, Error>,
>)
    requires
        nested_read(EntryKind::HwmonDir, EntryKind::TempInput, class),
    ensures
        r@.map_values(|s: Result<TemperatureSensor<T>, Error>| temperature_result_view(s))
            == spec_hwmon_sensors(spec_walk(EntryKind::HwmonDir, EntryKind::TempInput, class)),
{
    let found = walk(EntryKind::HwmonDir, EntryKind::TempInput, class);
    let ghost all = found@;
    let mut rest = found;
    let mut out: Vec<Result<TemperatureSensor<T>, Error>> = Vec::new();
    while rest.len() > 0
        invariant
            out@.len() + rest@.len() == all.len(),
            rest@ == all.skip(out@.len() as int),
            forall|i: int|
                0 <= i < out@.len() ==> temperature_result_view(#[trigger] out@[i]) == match all[i] {
                    Ok(readings) => spec_hwmon_sensor(readings),
                    Err(e) => Err(e),
                },
        decreases rest.len(),
    {
        let ghost k = out@.len() as int;
        let item = rest.remove(0);
        assert(item == all[k]);
        assert(rest@ =~= all.skip(k + 1));
        match item {
            Ok(readings) => out.push(hwmon_sensor(readings)),
            Err(e) => out.push(Err(e)),
        }
    }
    assert(out@.map_values(|s: Result<TemperatureSensor<T>, Error>| temperature_result_view(s))
        =~= spec_hwmon_sensors(all));
    out
}


/// What a thermal zone's trip point is about, from its `trip_point_*_type` file.
#[derive(Debug, Clone, Copy, PartialEq, Eq, Structural)]
pub enum TripPointKind {
    /// The file holds `critical` and a newline.
    Critical,
    /// The file holds `high` and a newline.
    High,
    /// Anything else: the trip point is not used.
    Other,
}

pub open spec fn critical_line() -> Seq<char> {
    seq!['c', 'r', 'i', 't', 'i', 'c', 'a', 'l', '\n']
}

pub open spec fn high_line() -> Seq<char> {
    seq!['h', 'i', 'g', 'h', '\n']
}

pub open spec fn spec_trip_point_kind(content: Seq<char>) -> TripPointKind {
    if content == critical_line() {
        TripPointKind::Critical
    } else if content == high_line() {
        TripPointKind::High
    } else {
        TripPointKind::Other
    }
}

fn equals_chars(s: &str, w: &[char]) -> (r: bool)
    ensures
        r == (s@ == w@),
{
    let n = s.unicode_len();
    if n != w.len() {
        return false;
    }
    let mut i: usize = 0;
    while i < n
        invariant
            n == s@.len() == w@.len(),
            i <= n,
            forall|j: int| 0 <= j < i ==> s@[j] == w@[j],
        decreases n - i,
    {
        if s.get_char(i) != w[i] {
            return false;
        }
        i = i + 1;
    }
    assert(s@ =~= w@);
    true
}

/// Tells what the content of a `trip_point_*_type` file is about; the
/// content is compared whole, trailing newline included.
pub fn trip_point_kind(content: &str) -> (r: TripPointKind)
    ensures
        r == spec_trip_point_kind(content@),
{
    let critical: [char; 9] = ['c', 'r', 'i', 't', 'i', 'c', 'a', 'l', '\n'];
    let high: [char; 5] = ['h', 'i', 'g', 'h', '\n'];
    assert(critical@ == critical_line());
    assert(high@ == high_line());
    if equals_chars(content, &critical) {
        TripPointKind::Critical
    } else if equals_chars(content, &high) {
        TripPointKind::High
    } else {
        TripPointKind::Other
    }
}

/// The `trip_point_*_temp` file that goes with a `trip_point_*_type` file.
pub fn trip_point_temp_file(type_file: &[u8]) -> (r: Vec<u8>)
    requires
        type_file@.len() >= 4,
    ensures
        r@ == type_file@.take(type_file@.len() - 4) + word_temp(),
{
    let w: [u8; 4] = ['t' as u8, 'e' as u8, 'm' as u8, 'p' as u8];
    assert(w@ == word_temp());
    sibling_name(type_file, 4, &w)
}

/// What was read for one `trip_point_*_type` file.
pub struct TripPoint<T> {
    /// The content of the type file.
    pub kind: Result<String, Error>,
    /// The temperature of the matching `trip_point_*_temp` file; it is
    /// read only for critical and high trip points.
    pub temp: Option<Result<T, Error>>,
}

/// Each critical or high trip point of `trips` carries its temperature.
pub open spec fn trips_read<T>(trips: Seq<Result<TripPoint<T>, Error>>) -> bool {
    forall|i: int|
        0 <= i < trips.len() && #[trigger] trips[i] is Ok && trips[i]->Ok_0.kind is Ok
            && spec_trip_point_kind(trips[i]->Ok_0.kind->Ok_0@) != TripPointKind::Other
            ==> trips[i]->Ok_0.temp is Some
}

/// `acc` updated with the trip points of `trips`, taken in order: a
/// critical one sets the critical temperature, a high one the high
/// temperature, a later one overriding an earlier one; the first error
/// met ends the walk.
pub open spec fn spec_apply_trip_points<T>(
    acc: TemperatureSensorView<T>,
    trips: Seq<Result<TripPoint<T>, Error>>,
) -> Result<TemperatureSensorView<T>, Error>
    decreases trips.len(),
{
    if trips.len() == 0 {
        Ok(acc)
    } else {
        match trips[0] {
            Err(e) => Err(e),
            Ok(tp) => match tp.kind {
                Err(e) => Err(e),
                Ok(content) => match spec_trip_point_kind(content@) {
                    TripPointKind::Critical => match tp.temp->0 {
                        Err(e) => Err(e),
                        Ok(t) => spec_apply_trip_points(
                            TemperatureSensorView { critical: Some(t), ..acc },
                            trips.drop_first(),
                        ),
                    },
                    TripPointKind::High => match tp.temp->0 {
                        Err(e) => Err(e),
                        Ok(t) => spec_apply_trip_points(
                            TemperatureSensorView { high: Some(t), ..acc },
                            trips.drop_first(),
                        ),
                    },
                    TripPointKind::Other => spec_apply_trip_points(acc, trips.drop_first()),
                },
            },
        }
    }
}

/// A trip point that is neither critical nor high leaves the sensor as
/// it is.
pub proof fn lemma_other_trip_point_changes_nothing<T>(
    acc: TemperatureSensorView<T>,
    tp: TripPoint<T>,
    rest: Seq<Result<TripPoint<T>, Error>>,
)
    requires
        tp.kind matches Ok(content) && spec_trip_point_kind(content@) == TripPointKind::Other,
    ensures
        spec_apply_trip_points(acc, seq![Ok(tp)] + rest) == spec_apply_trip_points(acc, rest),
{
    assert((seq![Ok::<TripPoint<T>, Error>(tp)] + rest).drop_first() =~= rest);
}

/// Of several critical trip points, the last one listed sets the
/// critical temperature: a critical trip point after the others gives
/// the sensor its temperature and changes nothing else.
pub proof fn lemma_last_critical_trip_point_wins<T>(
    acc: TemperatureSensorView<T>,
    trips: Seq<Result<TripPoint<T>, Error>>,
    tp: TripPoint<T>,
    t: T,
)
    requires
        tp.kind matches Ok(content) && spec_trip_point_kind(content@) == TripPointKind::Critical,
        tp.temp == Some(Ok::<T, Error>(t)),
        spec_apply_trip_points(acc, trips) is Ok,
    ensures
        spec_apply_trip_points(acc, trips.push(Ok(tp))) == Ok::<TemperatureSensorView<T>, Error>(
            TemperatureSensorView { critical: Some(t), ..spec_apply_trip_points(acc, trips)->Ok_0 },
        ),
    decreases trips.len(),
{
    let next = TemperatureSensorView { critical: Some(t), ..acc };
    if trips.len() == 0 {
        assert(trips.push(Ok(tp)).drop_first() =~= Seq::<Result<TripPoint<T>, Error>>::empty());
        assert(spec_apply_trip_points(next, Seq::<Result<TripPoint<T>, Error>>::empty()) == Ok::<
            TemperatureSensorView<T>,
            Error,
        >(next));
    } else {
        assert(trips.push(Ok(tp)).drop_first() =~= trips.drop_first().push(Ok(tp)));
        assert(trips.push(Ok(tp))[0] == trips[0]);
        match trips[0] {
            Err(_) => {},
            Ok(first) => match first.kind {
                Err(_) => {},
                Ok(content) => match spec_trip_point_kind(content@) {
                    TripPointKind::Critical => match first.temp->0 {
                        Err(_) => {},
                        Ok(c) => lemma_last_critical_trip_point_wins(
                            TemperatureSensorView { critical: Some(c), ..acc },
                            trips.drop_first(),
                            tp,
                            t,
                        ),
                    },
                    TripPointKind::High => match first.temp->0 {
                        Err(_) => {},
                        Ok(h) => lemma_last_critical_trip_point_wins(
                            TemperatureSensorView { high: Some(h), ..acc },
                            trips.drop_first(),
                            tp,
                            t,
                        ),
                    },
                    TripPointKind::Other => lemma_last_critical_trip_point_wins(
                        acc,
                        trips.drop_first(),
                        tp,
                        t,
                    ),
                },
            },
        }
    }
}

/// Applies the trip points `trips` to the sensor `acc`, in order.
fn apply_trip_points<T>(acc: TemperatureSensor<T>, trips: Vec<Result<TripPoint<T>, Error>>) -> (r:
    Result<TemperatureSensor<T>, Error>)
    requires
        trips_read(trips@),
    ensures
        temperature_result_view(r) == spec_apply_trip_points(acc@, trips@),
{
    let ghost goal = spec_apply_trip_points(acc@, trips@);
    let mut cur = acc;
    let mut rest = trips;
    while rest.len() > 0
        invariant
            goal == spec_apply_trip_points(acc@, trips@),
            trips_read(rest@),
            spec_apply_trip_points(cur@, rest@) == goal,
        decreases rest.len(),
    {
        let ghost before = rest@;
        let item = rest.remove(0);
        assert(rest@ =~= before.drop_first());
        assert forall|i: int|
            0 <= i < rest@.len() && #[trigger] rest@[i] is Ok && rest@[i]->Ok_0.kind is Ok
                && spec_trip_point_kind(rest@[i]->Ok_0.kind->Ok_0@) != TripPointKind::Other
                implies rest@[i]->Ok_0.temp is Some by {
            assert(rest@[i] == before[i + 1]);
        }
        let TripPoint { kind, temp } = match item {
            Ok(tp) => tp,
            Err(e) => return Err(e),
        };
        let content = match kind {
            Ok(c) => c,
            Err(e) => return Err(e),
        };
        match trip_point_kind(content.as_str()) {
            TripPointKind::Critical => {
                assert(before[0] is Ok);
                match temp {
                    Some(Ok(t)) => {
                        cur.critical = Some(t);
                    },
                    Some(Err(e)) => return Err(e),
                    None => {},
                }
            },
            TripPointKind::High => {
                assert(before[0] is Ok);
                match temp {
                    Some(Ok(t)) => {
                        cur.high = Some(t);
                    },
                    Some(Err(e)) => return Err(e),
                    None => {},
                }
            },
            TripPointKind::Other => {},
        }
    }
    Ok(cur)
}

/// What was read for one `thermal_zone*` directory.
pub struct ThermalZone<T> {
    /// The temperature in the zone's `temp` file.
    pub temp: Result<T, Error>,
    /// The zone's `type` file, which names the sensor.
    pub kind: Result<String, Error>,
    /// The listing of the zone directory, with its trip points; it is read
    /// only when both files above were.
    pub trip_points: Option<Listing<TripPoint<T>>>,
}

/// Every part of `zone` that the sensor needs was read.
pub open spec fn zone_read<T>(zone: ThermalZone<T>) -> bool {
    zone.temp is Ok && zone.kind is Ok ==> {
        &&& zone.trip_points is Some
        &&& listing_read(EntryKind::TripPointType, zone.trip_points->0)
        &&& trips_read(spec_select(EntryKind::TripPointType, zone.trip_points->0))
    }
}

/// The sensor of a thermal zone: the current temperature and the zone
/// type (without its trailing newline) as unit, no label, then the
/// zone's `trip_point_*_type` files in listing order. A failed
/// temperature comes first, then a failed type read.
pub open spec fn spec_zone_sensor<T>(zone: ThermalZone<T>) -> Result<TemperatureSensorView<T>, Error> {
    match zone.temp {
        Err(e) => Err(e),
        Ok(t) => match zone.kind {
            Err(e) => Err(e),
            Ok(unit) => spec_apply_trip_points(
                TemperatureSensorView {
                    unit: drop_last_char(unit@),
                    label: None,
                    current: t,
                    high: None,
                    critical: None,
                },
                spec_select(EntryKind::TripPointType, zone.trip_points->0),
            ),
        },
    }
}

/// Builds the sensor of one thermal zone.
pub fn zone_sensor<T>(zone: ThermalZone<T>) -> (r: Result<TemperatureSensor<T>, Error>)
    requires
        zone_read(zone),
    ensures
        temperature_result_view(r) == spec_zone_sensor(zone),
{
    let ThermalZone { temp, kind, trip_points } = zone;
    let current = match temp {
        Ok(t) => t,
        Err(e) => return Err(e),
    };
    let unit = match kind {
        Ok(s) => without_last_char(s),
        Err(e) => return Err(e),
    };
    let sensor = TemperatureSensor { unit, label: None, current, high: None, critical: None };
    match trip_points {
        Some(listing) => {
            let trips = select(EntryKind::TripPointType, listing);
            apply_trip_points(sensor, trips)
        },
        None => Ok(sensor),
    }
}

/// Every selected zone of `class` was read as far as its sensor needs.
pub open spec fn zones_read<T>(class: Listing<ThermalZone<T>>) -> bool {
    &&& listing_read(EntryKind::ThermalZone, class)
    &&& forall|i: int|
        0 <= i < spec_select(EntryKind::ThermalZone, class).len() && #[trigger] spec_select(
            EntryKind::ThermalZone,
            class,
        )[i] is Ok ==> zone_read(spec_select(EntryKind::ThermalZone, class)[i]->Ok_0)
}

pub open spec fn spec_thermal_zone<T>(class: Listing<ThermalZone<T>>) -> Seq<
    Result<TemperatureSensorView<T>, Error>,
> {
    spec_select(EntryKind::ThermalZone, class).map_values(
        |r: Result<ThermalZone<T>, Error>|
            match r {
                Ok(zone) => spec_zone_sensor(zone),
                Err(e) => Err(e),
            },
    )
}

/// The sensors of a `class/thermal` listing: one per `thermal_zone*`
/// directory, in listing order; a failed listing or entry yields its
/// error in its place.
pub fn thermal_zone<T>(class: Listing<ThermalZone<T>>) -> (r: Vec<
    Result<TemperatureSensor<T>, Error>,
>)
    requires
        zones_read(class),
    ensures
        r@.map_values(|s: Result<TemperatureSensor<T>, Error>| temperature_result_view(s))
            == spec_thermal_zone(class),
{
    let found = select(EntryKind::ThermalZone, class);
    let ghost all = found@;
    let mut rest = found;
    let mut out: Vec<Result<TemperatureSensor<T>, Error>> = Vec::new();
    while rest.len() > 0
        invariant
            out@.len() + rest@.len() == all.len(),
            all == spec_select(EntryKind::ThermalZone, class),
            zones_read(class),
            rest@ == all.skip(out@.len() as int),
            forall|i: int|
                0 <= i < out@.len() ==> temperature_result_view(#[trigger] out@[i]) == match all[i] {
                    Ok(zone) => spec_zone_sensor(zone),
                    Err(e) => Err(e),
                },
        decreases rest.len(),
    {
        let ghost k = out@.len() as int;
        let item = rest.remove(0);
        assert(item == all[k]);
        assert(rest@ =~= all.skip(k + 1));
        match item {
            Ok(zone) => {
                assert(all[k] is Ok);
                out.push(zone_sensor(zone));
            },
            Err(e) => out.push(Err(e)),
        }
    }
    assert(out@.map_values(|s: Result<TemperatureSensor<T>, Error>| temperature_result_view(s))
        =~= spec_thermal_zone(class));
    out
}

/// `first` and `second` taken in turn, one item each, starting with
/// `first`; once one runs out, the rest of the other.
pub open spec fn spec_interleave<A>(first: Seq<A>, second: Seq<A>) -> Seq<A>
    decreases first.len() + second.len(),
{
    if first.len() == 0 {
        second
    } else {
        seq![first[0]] + spec_interleave(second, first.drop_first())
    }
}

/// Merges the results of two walks the way `futures::stream::select`
/// merges two streams whose items are all ready: in turn, one item of
/// each, starting with `first`, each side keeping its own order.
pub fn interleave<A>(first: Vec<A>, second: Vec<A>) -> (r: Vec<A>)
    ensures
        r@ == spec_interleave(first@, second@),
{
    let ghost goal = spec_interleave(first@, second@);
    let mut a = first;
    let mut b = second;
    let mut out: Vec<A> = Vec::new();
    while a.len() > 0
        invariant
            out@ + spec_interleave(a@, b@) == goal,
        decreases a.len() + b.len(),
    {
        let ghost (a0, b0, o0) = (a@, b@, out@);
        let item = a.remove(0);
        assert(a@ =~= a0.drop_first());
        out.push(item);
        assert(out@ =~= o0 + seq![a0[0]]);
        assert(o0 + (seq![a0[0]] + spec_interleave(b0, a0.drop_first())) =~= out@
            + spec_interleave(b0, a@));
        std::mem::swap(&mut a, &mut b);
    }
    let mut rest = b;
    out.append(&mut rest);
    out
}

/// The temperature sensors: those of the hwmon walks, and only when
/// these yielded nothing at all, those of the thermal zones, which are
/// then produced by `thermal_zone`.
pub fn temperatures<T, F>(hwmon: Vec<Result<TemperatureSensor<T>, Error>>, thermal_zone: F) -> (r:
    Vec<Result<TemperatureSensor<T>, Error>>) where
    F: FnOnce() -> Vec<Result<TemperatureSensor<T>, Error>>,

    requires
        hwmon@.len() == 0 ==> call_requires(thermal_zone, ()),
    ensures
        hwmon@.len() > 0 ==> r == hwmon,
        hwmon@.len() == 0 ==> call_ensures(thermal_zone, (), r),
{
    if hwmon.len() > 0 {
        hwmon
    } else {
        thermal_zone()
    }
}

/// A hwmon temperature sensor is built exactly when the `name` file and
/// the input file were read. Each reading then lands in its own field:
/// the unit and label (without their last character), the current
/// temperature, the `temp*_max` reading as the high temperature and the
/// `temp*_crit` reading as the critical one; a file that could not be
/// read leaves its field empty. A failed `name` read is the error, else a
/// failed input.
pub proof fn lemma_hwmon_sensor_keeps_each_reading<T>(r: TempReadings<T>)
    ensures
        spec_hwmon_sensor(r) is Ok <==> r.unit is Ok && r.current is Ok,
        spec_hwmon_sensor(r) matches Ok(s) ==> {
            &&& s.unit == drop_last_char(r.unit->Ok_0@)
            &&& s.current == r.current->Ok_0
            &&& (r.label matches Ok(l) ==> s.label == Some(drop_last_char(l@)))
            &&& (r.label is Err ==> s.label is None)
            &&& (r.high matches Ok(t) ==> s.high == Some(t))
            &&& (r.high is Err ==> s.high is None)
            &&& (r.critical matches Ok(t) ==> s.critical == Some(t))
            &&& (r.critical is Err ==> s.critical is None)
        },
        r.unit matches Err(e) ==> spec_hwmon_sensor(r) == Err::<TemperatureSensorView<T>, Error>(e),
        r.unit is Ok ==> (r.current matches Err(e) ==> spec_hwmon_sensor(r) == Err::<
            TemperatureSensorView<T>,
            Error,
        >(e)),
{
}

/// A trip point is critical exactly when its type file holds
/// `critical` and a newline, high exactly when it holds `high` and a
/// newline; any other content (`hot`, `passive`, `active`, or `critical`
/// without its newline) is of no use.
pub proof fn lemma_trip_point_kinds(content: Seq<char>)
    ensures
        (spec_trip_point_kind(content) == TripPointKind::Critical) <==> content == seq![
            'c', 'r', 'i', 't', 'i', 'c', 'a', 'l', '\n',
        ],
        (spec_trip_point_kind(content) == TripPointKind::High) <==> content == seq![
            'h', 'i', 'g', 'h', '\n',
        ],
        (spec_trip_point_kind(content) == TripPointKind::Other) <==> (content != seq![
            'c', 'r', 'i', 't', 'i', 'c', 'a', 'l', '\n',
        ] && content != seq!['h', 'i', 'g', 'h', '\n']),
{
    assert(seq!['c', 'r', 'i', 't', 'i', 'c', 'a', 'l', '\n'] != seq!['h', 'i', 'g', 'h', '\n']) by {
        assert(seq!['c', 'r', 'i', 't', 'i', 'c', 'a', 'l', '\n'].len() == 9);
    }
}

/// A `high` trip point with temperature `t` sets the high temperature to
/// `t` and leaves the unit, label, current and critical temperature as
/// they were; the rest of the trip points then apply as before.
pub proof fn lemma_high_trip_point_sets_only_high<T>(
    acc: TemperatureSensorView<T>,
    tp: TripPoint<T>,
    t: T,
    rest: Seq<Result<TripPoint<T>, Error>>,
)
    requires
        tp.kind matches Ok(content) && content@ == seq!['h', 'i', 'g', 'h', '\n'],
        tp.temp == Some(Ok::<T, Error>(t)),
    ensures
        spec_apply_trip_points(acc, seq![Ok(tp)] + rest) == spec_apply_trip_points(
            TemperatureSensorView {
                unit: acc.unit,
                label: acc.label,
                current: acc.current,
                high: Some(t),
                critical: acc.critical,
            },
            rest,
        ),
{
    lemma_trip_point_kinds(tp.kind->Ok_0@);
    assert((seq![Ok::<TripPoint<T>, Error>(tp)] + rest).drop_first() =~= rest);
}

/// A `critical` trip point with temperature `t` sets the critical
/// temperature to `t` and leaves the unit, label, current and high
/// temperature as they were; the rest of the trip points then apply as
/// before.
pub proof fn lemma_critical_trip_point_sets_only_critical<T>(
    acc: TemperatureSensorView<T>,
    tp: TripPoint<T>,
    t: T,
    rest: Seq<Result<TripPoint<T>, Error>>,
)
    requires
        tp.kind matches Ok(content) && content@ == seq![
            'c', 'r', 'i', 't', 'i', 'c', 'a', 'l', '\n',
        ],
        tp.temp == Some(Ok::<T, Error>(t)),
    ensures
        spec_apply_trip_points(acc, seq![Ok(tp)] + rest) == spec_apply_trip_points(
            TemperatureSensorView {
                unit: acc.unit,
                label: acc.label,
                current: acc.current,
                high: acc.high,
                critical: Some(t),
            },
            rest,
        ),
{
    lemma_trip_point_kinds(tp.kind->Ok_0@);
    assert((seq![Ok::<TripPoint<T>, Error>(tp)] + rest).drop_first() =~= rest);
}

/// Trip points never change a sensor's unit, label or current
/// temperature, and with no trip points the sensor stays as it is.
pub proof fn lemma_trip_points_keep_identity<T>(
    acc: TemperatureSensorView<T>,
    trips: Seq<Result<TripPoint<T>, Error>>,
)
    ensures
        spec_apply_trip_points(acc, trips) matches Ok(s) ==> {
            &&& s.unit == acc.unit
            &&& s.label == acc.label
            &&& s.current == acc.current
        },
        trips.len() == 0 ==> spec_apply_trip_points(acc, trips) == Ok::<
            TemperatureSensorView<T>,
            Error,
        >(acc),
    decreases trips.len(),
{
    if trips.len() > 0 {
        match trips[0] {
            Err(_) => {},
            Ok(first) => match first.kind {
                Err(_) => {},
                Ok(content) => match spec_trip_point_kind(content@) {
                    TripPointKind::Critical => match first.temp->0 {
                        Err(_) => {},
                        Ok(c) => lemma_trip_points_keep_identity(
                            TemperatureSensorView {
                                unit: acc.unit,
                                label: acc.label,
                                current: acc.current,
                                high: acc.high,
                                critical: Some(c),
                            },
                            trips.drop_first(),
                        ),
                    },
                    TripPointKind::High => match first.temp->0 {
                        Err(_) => {},
                        Ok(h) => lemma_trip_points_keep_identity(
                            TemperatureSensorView {
                                unit: acc.unit,
                                label: acc.label,
                                current: acc.current,
                                high: Some(h),
                                critical: acc.critical,
                            },
                            trips.drop_first(),
                        ),
                    },
                    TripPointKind::Other => lemma_trip_points_keep_identity(
                        acc,
                        trips.drop_first(),
                    ),
                },
            },
        }
    }
}

/// A thermal zone's sensor is named after the zone's `type` file
/// (without its last character), has no label, and reads the zone's
/// `temp` file as its current temperature. A failed temperature read is
/// the error, else a failed `type` read.
pub proof fn lemma_zone_sensor_identity<T>(zone: ThermalZone<T>)
    ensures
        spec_zone_sensor(zone) matches Ok(s) ==> {
            &&& s.unit == drop_last_char(zone.kind->Ok_0@)
            &&& s.label is None
            &&& s.current == zone.temp->Ok_0
        },
        zone.temp matches Err(e) ==> spec_zone_sensor(zone) == Err::<TemperatureSensorView<T>, Error>(
            e,
        ),
        zone.temp is Ok ==> (zone.kind matches Err(e) ==> spec_zone_sensor(zone) == Err::<
            TemperatureSensorView<T>,
            Error,
        >(e)),
{
    if zone.temp is Ok && zone.kind is Ok {
        lemma_trip_points_keep_identity(
            TemperatureSensorView {
                unit: drop_last_char(zone.kind->Ok_0@),
                label: None,
                current: zone.temp->Ok_0,
                high: None,
                critical: None,
            },
            spec_select(EntryKind::TripPointType, zone.trip_points->0),
        );
    }
}

/// Interleaving loses and adds nothing: the result is as long as both
/// inputs together, starts with the first input's first item, and is the
/// other input alone when one of them is empty.
pub proof fn lemma_interleave_laws<A>(first: Seq<A>, second: Seq<A>)
    ensures
        spec_interleave(first, second).len() == first.len() + second.len(),
        first.len() > 0 ==> spec_interleave(first, second)[0] == first[0],
        first.len() == 0 ==> spec_interleave(first, second) == second,
        second.len() == 0 ==> spec_interleave(first, second) == first,
    decreases first.len() + second.len(),
{
    if first.len() > 0 {
        lemma_interleave_laws(second, first.drop_first());
        if second.len() == 0 {
            lemma_interleave_laws(second, first.drop_first());
            assert(seq![first[0]] + first.drop_first() =~= first);
        }
    }
}

} // verus!
