use futures::executor::block_on;
use futures::stream::{self, StreamExt};
use heim::temperatures::interleave;
use heim::fans::hwmon_sensor;
use heim::temperatures::{
    self as temps, sensor_file, thermal_zone, trip_point_kind, trip_point_temp_file, SensorFile,
    TempReadings, ThermalZone, TripPoint, TripPointKind,
};
use heim::{fans, temperatures, Entry, Error, FanReadings, IntErrorKind, Listing, TemperatureSensor};

fn io(msg: &str) -> Error {
    Error::Io { message: msg.to_string() }
}

fn ok(s: &str) -> Result<String, Error> {
    Ok(s.to_string())
}

fn readings(unit: &str, label: Option<&str>, input: &str, path: &str) -> FanReadings {
    FanReadings {
        unit: ok(unit),
        label: match label {
            Some(l) => ok(l),
            None => Err(io("no label")),
        },
        input: ok(input),
        input_path: path.as_bytes().to_vec(),
    }
}

fn entry<R>(name: &str, readings: Option<R>) -> Result<Entry<R>, Error> {
    Ok(Entry { name: name.as_bytes().to_vec(), readings })
}

#[test]
fn fan_sensor_from_readings() {
    let s = hwmon_sensor(readings("nct6775\n", Some("CPU fan\n"), "1200\n", "/x/fan1_input")).unwrap();
    assert_eq!(s.unit(), "nct6775");
    assert_eq!(s.label(), Some("CPU fan"));
    assert_eq!(s.current(), 1200);
}

#[test]
fn fan_sensor_without_label() {
    let s = hwmon_sensor(readings("it87\n", None, "0\n", "/x/fan2_input")).unwrap();
    assert_eq!(s.unit(), "it87");
    assert_eq!(s.label(), None);
    assert_eq!(s.current(), 0);
}

#[test]
fn fan_sensor_errors() {
    let mut r = readings("it87\n", None, "12\n", "/p");
    r.unit = Err(io("unit"));
    r.input = Err(io("input"));
    assert!(matches!(hwmon_sensor(r), Err(Error::Io { message }) if message == "unit"));

    let mut r = readings("it87\n", None, "12\n", "/p");
    r.input = Err(io("input"));
    assert!(matches!(hwmon_sensor(r), Err(Error::Io { message }) if message == "input"));

    let r = readings("it87\n", None, "fast\n", "/hwmon1/fan1_input");
    match hwmon_sensor(r) {
        Err(Error::InvalidData { path, kind }) => {
            assert_eq!(path, b"/hwmon1/fan1_input".to_vec());
            assert_eq!(kind, IntErrorKind::InvalidDigit);
        }
        other => panic!("unexpected {:?}", other),
    }

    let r = readings("it87\n", None, "", "/p");
    assert!(matches!(hwmon_sensor(r), Err(Error::InvalidData { kind: IntErrorKind::Empty, .. })));
}

#[test]
fn fans_walk_in_listing_order() {
    let hwmon0: Listing<FanReadings> = Ok(vec![
        entry("name", None),
        entry("fan2_input", Some(readings("nct\n", Some("B\n"), "900\n", "/h0/fan2_input"))),
        entry("fan1_label", None),
        Err(io("bad entry")),
        entry("temp1_input", None),
        entry("fan1_input", Some(readings("nct\n", Some("A\n"), "1500\n", "/h0/fan1_input"))),
    ]);
    let class: Listing<Listing<FanReadings>> = Ok(vec![
        entry("power", None),
        entry("hwmon0", Some(hwmon0)),
        Err(io("bad dir")),
        entry("hwmon1", Some(Err(io("no listing")))),
        entry("hwmon2", Some(Ok(vec![]))),
    ]);
    let out = fans(class);
    assert_eq!(out.len(), 5);
    let first = out[0].as_ref().unwrap();
    assert_eq!((first.label(), first.current()), (Some("B"), 900));
    assert!(matches!(&out[1], Err(Error::Io { message }) if message == "bad entry"));
    let third = out[2].as_ref().unwrap();
    assert_eq!((third.unit(), third.label(), third.current()), ("nct", Some("A"), 1500));
    assert!(matches!(&out[3], Err(Error::Io { message }) if message == "bad dir"));
    assert!(matches!(&out[4], Err(Error::Io { message }) if message == "no listing"));
}

#[test]
fn fans_failed_class_listing() {
    let out = fans(Err(io("no sysfs")));
    assert_eq!(out.len(), 1);
    assert!(matches!(&out[0], Err(Error::Io { message }) if message == "no sysfs"));
    assert!(fans(Ok(vec![])).is_empty());
}

fn temp_readings(unit: &str, current: f32) -> TempReadings<f32> {
    TempReadings {
        unit: ok(unit),
        label: Err(io("no label")),
        current: Ok(current),
        high: Err(io("no max")),
        critical: Ok(100.0),
    }
}

#[test]
fn temperature_sensor_from_readings() {
    let mut r = temp_readings("coretemp\n", 45.0);
    r.label = ok("Core 0\n");
    let s = temps::hwmon_sensor(r).unwrap();
    assert_eq!(s.unit(), "coretemp");
    assert_eq!(s.label(), Some("Core 0"));
    assert_eq!(*s.current(), 45.0);
    assert_eq!(s.high(), None);
    assert_eq!(s.critical(), Some(&100.0));

    let mut r = temp_readings("coretemp\n", 45.0);
    r.current = Err(io("current"));
    assert!(matches!(temps::hwmon_sensor(r), Err(Error::Io { message }) if message == "current"));
    let mut r = temp_readings("coretemp\n", 45.0);
    r.unit = Err(io("unit"));
    r.current = Err(io("current"));
    assert!(matches!(temps::hwmon_sensor(r), Err(Error::Io { message }) if message == "unit"));
}

#[test]
fn temperature_hwmon_walk() {
    let dir: Listing<TempReadings<f32>> = Ok(vec![
        entry("temp1_input", Some(temp_readings("acpitz\n", 27.8))),
        entry("fan1_input", None),
        entry("temp2_input", Some(temp_readings("acpitz\n", 29.8))),
    ]);
    let class = Ok(vec![entry("hwmon3", Some(dir)), entry("other", None)]);
    let out = temps::hwmon(class);
    assert_eq!(out.len(), 2);
    assert_eq!(*out[0].as_ref().unwrap().current(), 27.8);
    assert_eq!(*out[1].as_ref().unwrap().current(), 29.8);
}

#[test]
fn temperature_file_names() {
    assert_eq!(sensor_file(b"temp3_input", SensorFile::Label), b"temp3_label".to_vec());
    assert_eq!(sensor_file(b"temp3_input", SensorFile::Max), b"temp3_max".to_vec());
    assert_eq!(sensor_file(b"temp3_input", SensorFile::Crit), b"temp3_crit".to_vec());
    assert_eq!(sensor_file(b"temp3_input", SensorFile::Input), b"temp3_input".to_vec());
    assert_eq!(trip_point_temp_file(b"trip_point_1_type"), b"trip_point_1_temp".to_vec());
}

#[test]
fn trip_point_kinds() {
    assert_eq!(trip_point_kind("critical\n"), TripPointKind::Critical);
    assert_eq!(trip_point_kind("high\n"), TripPointKind::High);
    assert_eq!(trip_point_kind("critical"), TripPointKind::Other);
    assert_eq!(trip_point_kind("passive\n"), TripPointKind::Other);
    assert_eq!(trip_point_kind(""), TripPointKind::Other);
}

fn trip(kind: &str, temp: Option<Result<f32, Error>>) -> TripPoint<f32> {
    TripPoint { kind: ok(kind), temp }
}

#[test]
fn thermal_zone_trip_points() {
    let trips: Listing<TripPoint<f32>> = Ok(vec![
        entry("trip_point_0_type", Some(trip("critical\n", Some(Ok(120.0))))),
        entry("trip_point_0_temp", None),
        entry("trip_point_1_type", Some(trip("passive\n", None))),
        entry("trip_point_2_type", Some(trip("high\n", Some(Ok(90.0))))),
        entry("trip_point_3_type", Some(trip("critical\n", Some(Ok(110.0))))),
    ]);
    let zone = ThermalZone { temp: Ok(42.0), kind: ok("x86_pkg_temp\n"), trip_points: Some(trips) };
    let class: Listing<ThermalZone<f32>> = Ok(vec![
        entry("cooling_device0", None),
        entry("thermal_zone0", Some(zone)),
    ]);
    let out = thermal_zone(class);
    assert_eq!(out.len(), 1);
    let s = out[0].as_ref().unwrap();
    assert_eq!(s.unit(), "x86_pkg_temp");
    assert_eq!(s.label(), None);
    assert_eq!(*s.current(), 42.0);
    assert_eq!(s.high(), Some(&90.0));
    assert_eq!(s.critical(), Some(&110.0));
}

#[test]
fn thermal_zone_errors() {
    let zone = |trips: Listing<TripPoint<f32>>| ThermalZone {
        temp: Ok(40.0),
        kind: ok("acpitz\n"),
        trip_points: Some(trips),
    };
    let out = temps::zone_sensor(zone(Err(io("no listing"))));
    assert!(matches!(out, Err(Error::Io { message }) if message == "no listing"));
    let out = temps::zone_sensor(zone(Ok(vec![
        entry("trip_point_0_type", Some(trip("high\n", Some(Err(io("no temp")))))),
    ])));
    assert!(matches!(out, Err(Error::Io { message }) if message == "no temp"));
    let out = temps::zone_sensor(zone(Ok(vec![entry(
        "trip_point_0_type",
        Some(TripPoint { kind: Err(io("no type")), temp: None }),
    )])));
    assert!(matches!(out, Err(Error::Io { message }) if message == "no type"));
    let both = ThermalZone::<f32> { temp: Err(io("temp")), kind: Err(io("type")), trip_points: None };
    assert!(matches!(temps::zone_sensor(both), Err(Error::Io { message }) if message == "temp"));
    let out = thermal_zone::<f32>(Err(io("no thermal class")));
    assert_eq!(out.len(), 1);
}

fn sensor(unit: &str, t: f32) -> Result<TemperatureSensor<f32>, Error> {
    temps::hwmon_sensor(temp_readings(unit, t))
}

#[test]
fn thermal_zones_only_when_hwmon_is_empty() {
    let out = temperatures(vec![sensor("a\n", 1.0)], || panic!("thermal zones were read"));
    assert_eq!(out.len(), 1);
    assert_eq!(out[0].as_ref().unwrap().unit(), "a");

    let hwmon: Vec<Result<TemperatureSensor<f32>, Error>> = vec![Err(io("hwmon error"))];
    let out = temperatures(hwmon, || panic!("thermal zones were read"));
    assert_eq!(out.len(), 1);

    let out = temperatures(Vec::new(), || vec![sensor("zone\n", 2.0), sensor("zone2\n", 3.0)]);
    assert_eq!(out.len(), 2);
    assert_eq!(out[1].as_ref().unwrap().unit(), "zone2");
}

#[test]
fn interleave_takes_turns() {
    assert_eq!(interleave(vec![1, 3, 5, 7], vec![2, 4]), vec![1, 2, 3, 4, 5, 7]);
    assert_eq!(interleave(vec![1], vec![2, 4, 6]), vec![1, 2, 4, 6]);
    assert_eq!(interleave(Vec::<i32>::new(), vec![2, 4]), vec![2, 4]);
    assert_eq!(interleave(vec![1, 3], Vec::new()), vec![1, 3]);
}

#[test]
fn interleave_matches_futures_select() {
    for (a, b) in [(vec![1, 3, 5, 7], vec![2, 4]), (vec![1], vec![2, 4, 6]), (vec![], vec![9])] {
        let merged: Vec<i32> = block_on(stream::select(stream::iter(a.clone()), stream::iter(b.clone())).collect());
        assert_eq!(interleave(a, b), merged);
    }
}
