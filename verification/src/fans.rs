//! Fan sensors of the Linux `hwmon` class.
use vstd::prelude::*;

use crate::error::{Error, IntErrorKind};
use crate::names::{word_input, word_label, EntryKind, sibling_name};
use crate::text::{drop_last_char, parse_i32, spec_parse_i32, without_last_char};
use crate::walk::{nested_read, spec_walk, walk, Listing};

verus! {

/// Hardware fan sensor.
#[derive(Debug)]
pub struct FanSensor {
    pub(crate) unit: String,
    pub(crate) label: Option<String>,
    /// Revolutions per minute.
    pub(crate) current: i32,
}

/// What a [`FanSensor`] holds, as mathematical values.
pub struct FanSensorView {
    pub unit: Seq<char>,
    pub label: Option<Seq<char>>,
    pub current: i32,
}

impl View for FanSensor {
    type V = FanSensorView;

    closed spec fn view(&self) -> FanSensorView {
        FanSensorView {
            unit: self.unit@,
            label: match self.label {
                Some(l) => Some(l@),
                None => None,
            },
            current: self.current,
        }
    }
}

impl FanSensor {
    /// Returns sensor unit name.
    pub fn unit(&self) -> (r: &str)
        ensures
            r@ == self@.unit,
    {
        self.unit.as_str()
    }

    /// Returns sensor label.
    pub fn label(&self) -> (r: Option<&str>)
        ensures
            match r {
                Some(l) => self@.label == Some(l@),
                None => self@.label is None,
            },
    {
        match &self.label {
            Some(l) => Some(l.as_str()),
            None => None,
        }
    }

    /// Returns the frequency of the fan in revolutions per minute.
    pub fn current(&self) -> (r: i32)
        ensures
            r == self@.current,
    {
        self.current
    }
}

/// What was read for one `fan*_input` file of a hwmon directory.
pub struct FanReadings {
    /// The directory's `name` file.
    pub unit: Result<String, Error>,
    /// The `fan*_label` file next to the input.
    pub label: Result<String, Error>,
    /// The `fan*_input` file itself.
    pub input: Result<String, Error>,
    /// The path of the `fan*_input` file.
    pub input_path: Vec<u8>,
}

/// The sensor that a set of readings describes: each file loses its
/// trailing newline, a missing label is no error, and the speed must be
/// a decimal integer. A failed `name` read comes first, then a failed
/// input read.
pub open spec fn spec_hwmon_sensor(r: FanReadings) -> Result<FanSensorView, Error> {
    match r.unit {
        Err(e) => Err(e),
        Ok(unit) => match r.input {
            Err(e) => Err(e),
            Ok(input) => match spec_parse_i32(drop_last_char(input@)) {
                Err(kind) => Err(Error::InvalidData { path: r.input_path, kind }),
                Ok(rpm) => Ok(
                    FanSensorView {
                        unit: drop_last_char(unit@),
                        label: match r.label {
                            Ok(l) => Some(drop_last_char(l@)),
                            Err(_) => None,
                        },
                        current: rpm,
                    },
                ),
            },
        },
    }
}

/// A result of the library as a mathematical value.
pub open spec fn fan_result_view(r: Result<FanSensor, Error>) -> Result<FanSensorView, Error> {
    match r {
        Ok(s) => Ok(s@),
        Err(e) => Err(e),
    }
}

/// Builds the fan sensor that `readings` describe.
pub fn hwmon_sensor(readings: FanReadings) -> (r: Result<FanSensor, Error>)
    ensures
        fan_result_view(r) == spec_hwmon_sensor(readings),
{
    let FanReadings { unit, label, input, input_path } = readings;
    let unit = match unit {
        Ok(s) => without_last_char(s),
        Err(e) => return Err(e),
    };
    let label = match label {
        Ok(s) => Some(without_last_char(s)),
        Err(_) => None,
    };
    let content = match input {
        Ok(s) => without_last_char(s),
        Err(e) => return Err(e),
    };
    match parse_i32(content.as_str()) {
        Ok(rpm) => Ok(FanSensor { unit, label, current: rpm }),
        Err(kind) => Err(Error::InvalidData { path: input_path, kind }),
    }
}

/// The file next to a `fan*_input` file that holds the sensor's label.
pub fn label_file(input_name: &[u8]) -> (r: Vec<u8>)
    requires
        input_name@.len() >= 5,
    ensures
        r@ == input_name@.take(input_name@.len() - 5) + word_label(),
{
    let w: [u8; 5] = ['l' as u8, 'a' as u8, 'b' as u8, 'e' as u8, 'l' as u8];
    assert(w@ == word_label());
    sibling_name(input_name, 5, &w)
}

/// The `fan*_input` file of the sensor that `input_name` belongs to.
pub fn input_file(input_name: &[u8]) -> (r: Vec<u8>)
    requires
        input_name@.len() >= 5,
    ensures
        r@ == input_name@.take(input_name@.len() - 5) + word_input(),
{
    let w: [u8; 5] = ['i' as u8, 'n' as u8, 'p' as u8, 'u' as u8, 't' as u8];
    assert(w@ == word_input());
    sibling_name(input_name, 5, &w)
}

/// Every sensor that a walk of `class/hwmon` yields, in walk order.
pub open spec fn spec_fans(hwmon: Listing<Listing<FanReadings>>) -> Seq<Result<FanSensorView, Error>> {
    spec_walk(EntryKind::HwmonDir, EntryKind::FanInput, hwmon).map_values(
        |r: Result<FanReadings, Error>|
            match r {
                Ok(readings) => spec_hwmon_sensor(readings),
                Err(e) => Err(e),
            },
    )
}

/// The fan sensors of a `class/hwmon` listing: for each `hwmon*`
/// directory, in listing order, one sensor per `fan*_input` file; a
/// failed listing or entry yields its error in its place.
pub fn fans(hwmon: Listing<Listing<FanReadings>>) -> (r: Vec<Result<FanSensor, Error>>)
    requires
        nested_read(EntryKind::HwmonDir, EntryKind::FanInput, hwmon),
    ensures
        r@.map_values(|s: Result<FanSensor, Error>| fan_result_view(s)) == spec_fans(hwmon),
{
    let found = walk(EntryKind::HwmonDir, EntryKind::FanInput, hwmon);
    let ghost all = found@;
    let mut rest = found;
    let mut out: Vec<Result<FanSensor, Error>> = Vec::new();
    while rest.len() > 0
        invariant
            out@.len() + rest@.len() == all.len(),
            rest@ == all.skip(out@.len() as int),
            forall|i: int|
                0 <= i < out@.len() ==> fan_result_view(#[trigger] out@[i]) == match all[i] {
                    Ok(readings) => spec_hwmon_sensor(readings),
                    Err(e) => Err(e),
                },
        decreases rest.len(),
    {
        let ghost k = out@.len() as int;
        let item = rest.remove(0);
        assert(item == all[k]);
        assert(rest@ =~= all.skip(k + 1));
        match item {
            Ok(readings) => out.push(hwmon_sensor(readings)),
            Err(e) => out.push(Err(e)),
        }
    }
    assert(out@.map_values(|s: Result<FanSensor, Error>| fan_result_view(s)) =~= spec_fans(hwmon));
    out
}

/// A fan sensor is built exactly when the `name` file and the input
/// file were read and the input, without its last character, is a
/// decimal `i32`; it then has the name file's content as unit, the label
/// file's content as label when that file was read, and the parsed number
/// as speed, each without its last character. A failed `name` read is
/// the error, else a failed input read, else an `InvalidData` error that
/// names the input file.
pub proof fn lemma_fan_sensor_from_readings(r: FanReadings)
    ensures
        spec_hwmon_sensor(r) is Ok <==> {
            &&& r.unit is Ok
            &&& r.input is Ok
            &&& spec_parse_i32(drop_last_char(r.input->Ok_0@)) is Ok
        },
        spec_hwmon_sensor(r) matches Ok(s) ==> {
            &&& s.unit == drop_last_char(r.unit->Ok_0@)
            &&& s.current == spec_parse_i32(drop_last_char(r.input->Ok_0@))->Ok_0
            &&& (r.label matches Ok(l) ==> s.label == Some(drop_last_char(l@)))
            &&& (r.label is Err ==> s.label is None)
        },
        r.unit matches Err(e) ==> spec_hwmon_sensor(r) == Err::<FanSensorView, Error>(e),
        r.unit is Ok ==> (r.input matches Err(e) ==> spec_hwmon_sensor(r) == Err::<
            FanSensorView,
            Error,
        >(e)),
        r.unit is Ok && r.input is Ok ==> (spec_parse_i32(drop_last_char(r.input->Ok_0@)) matches Err(
            k,
        ) ==> spec_hwmon_sensor(r) == Err::<FanSensorView, Error>(
            Error::InvalidData { path: r.input_path, kind: k },
        )),
{
}

} // verus!
