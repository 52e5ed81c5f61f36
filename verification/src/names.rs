//! Names of the `sysfs` entries that hold sensor readings.
use vstd::prelude::*;

verus! {

/// `p` is a prefix of `s`, byte for byte (`<[u8]>::starts_with`).
pub open spec fn has_prefix(s: Seq<u8>, p: Seq<u8>) -> bool {
    p.len() <= s.len() && s.take(p.len() as int) == p
}

/// `p` is a suffix of `s`, byte for byte (`<[u8]>::ends_with`).
pub open spec fn has_suffix(s: Seq<u8>, p: Seq<u8>) -> bool {
    p.len() <= s.len() && s.skip(s.len() - p.len()) == p
}

pub fn starts_with(s: &[u8], p: &[u8]) -> (r: bool)
    ensures
        r == has_prefix(s@, p@),
{
    if p.len() > s.len() {
        return false;
    }
    let mut i: usize = 0;
    while i < p.len()
        invariant
            i <= p.len() <= s.len(),
            forall|j: int| 0 <= j < i ==> s@[j] == p@[j],
        decreases p.len() - i,
    {
        if s[i] != p[i] {
            assert(s@.take(p.len() as int)[i as int] != p@[i as int]);
            return false;
        }
        i = i + 1;
    }
    assert(s@.take(p.len() as int) =~= p@);
    true
}

pub fn ends_with(s: &[u8], p: &[u8]) -> (r: bool)
    ensures
        r == has_suffix(s@, p@),
{
    if p.len() > s.len() {
        return false;
    }
    let off = s.len() - p.len();
    let mut i: usize = 0;
    while i < p.len()
        invariant
            i <= p.len() <= s.len(),
            off == s.len() - p.len(),
            forall|j: int| 0 <= j < i ==> s@[off + j] == p@[j],
        decreases p.len() - i,
    {
        if s[off + i] != p[i] {
            assert(s@.skip(off as int)[i as int] != p@[i as int]);
            return false;
        }
        i = i + 1;
    }
    assert(s@.skip(off as int) =~= p@);
    true
}

pub open spec fn word_hwmon() -> Seq<u8> {
    seq!['h' as u8, 'w' as u8, 'm' as u8, 'o' as u8, 'n' as u8]
}

pub open spec fn word_fan() -> Seq<u8> {
    seq!['f' as u8, 'a' as u8, 'n' as u8]
}

pub open spec fn word_temp() -> Seq<u8> {
    seq!['t' as u8, 'e' as u8, 'm' as u8, 'p' as u8]
}

pub open spec fn word_underscore_input() -> Seq<u8> {
    seq!['_' as u8, 'i' as u8, 'n' as u8, 'p' as u8, 'u' as u8, 't' as u8]
}

pub open spec fn word_input() -> Seq<u8> {
    seq!['i' as u8, 'n' as u8, 'p' as u8, 'u' as u8, 't' as u8]
}

pub open spec fn word_label() -> Seq<u8> {
    seq!['l' as u8, 'a' as u8, 'b' as u8, 'e' as u8, 'l' as u8]
}

pub open spec fn word_max() -> Seq<u8> {
    seq!['m' as u8, 'a' as u8, 'x' as u8]
}

pub open spec fn word_crit() -> Seq<u8> {
    seq!['c' as u8, 'r' as u8, 'i' as u8, 't' as u8]
}

pub open spec fn word_type() -> Seq<u8> {
    seq!['t' as u8, 'y' as u8, 'p' as u8, 'e' as u8]
}

pub open spec fn word_thermal_zone() -> Seq<u8> {
    seq![
        't' as u8, 'h' as u8, 'e' as u8, 'r' as u8, 'm' as u8, 'a' as u8, 'l' as u8,
        '_' as u8, 'z' as u8, 'o' as u8, 'n' as u8, 'e' as u8,
    ]
}

pub open spec fn word_trip_point() -> Seq<u8> {
    seq![
        't' as u8, 'r' as u8, 'i' as u8, 'p' as u8, '_' as u8, 'p' as u8, 'o' as u8,
        'i' as u8, 'n' as u8, 't' as u8, '_' as u8,
    ]
}

/// Which entries of a directory listing a walk keeps.
#[derive(Debug, Clone, Copy, PartialEq, Eq, Structural)]
pub enum EntryKind {
    /// `hwmon*` directories under `class/hwmon`.
    HwmonDir,
    /// `fan*_input` files of a hwmon directory.
    FanInput,
    /// `temp*_input` files of a hwmon directory.
    TempInput,
    /// `thermal_zone*` directories under `class/thermal`.
    ThermalZone,
    /// `trip_point_*type` files of a thermal zone.
    TripPointType,
}

impl EntryKind {
    /// The entry called `name` is one of this kind.
    pub open spec fn spec_matches(self, name: Seq<u8>) -> bool {
        match self {
            EntryKind::HwmonDir => has_prefix(name, word_hwmon()),
            EntryKind::FanInput => has_prefix(name, word_fan()) && has_suffix(
                name,
                word_underscore_input(),
            ),
            EntryKind::TempInput => has_prefix(name, word_temp()) && has_suffix(
                name,
                word_underscore_input(),
            ),
            EntryKind::ThermalZone => has_prefix(name, word_thermal_zone()),
            EntryKind::TripPointType => has_prefix(name, word_trip_point()) && has_suffix(
                name,
                word_type(),
            ),
        }
    }

    /// Tells whether the entry called `name` is one of this kind.
    pub fn matches(self, name: &[u8]) -> (r: bool)
        ensures
            r == self.spec_matches(name@),
    {
        match self {
            EntryKind::HwmonDir => {
                let w: [u8; 5] = ['h' as u8, 'w' as u8, 'm' as u8, 'o' as u8, 'n' as u8];
                assert(w@ == word_hwmon());
                starts_with(name, &w)
            },
            EntryKind::FanInput => {
                let w: [u8; 3] = ['f' as u8, 'a' as u8, 'n' as u8];
                let x: [u8; 6] = [
                    '_' as u8, 'i' as u8, 'n' as u8, 'p' as u8, 'u' as u8, 't' as u8,
                ];
                assert(w@ == word_fan());
                assert(x@ == word_underscore_input());
                starts_with(name, &w) && ends_with(name, &x)
            },
            EntryKind::TempInput => {
                let w: [u8; 4] = ['t' as u8, 'e' as u8, 'm' as u8, 'p' as u8];
                let x: [u8; 6] = [
                    '_' as u8, 'i' as u8, 'n' as u8, 'p' as u8, 'u' as u8, 't' as u8,
                ];
                assert(w@ == word_temp());
                assert(x@ == word_underscore_input());
                starts_with(name, &w) && ends_with(name, &x)
            },
            EntryKind::ThermalZone => {
                let w: [u8; 12] = [
                    't' as u8, 'h' as u8, 'e' as u8, 'r' as u8, 'm' as u8, 'a' as u8,
                    'l' as u8, '_' as u8, 'z' as u8, 'o' as u8, 'n' as u8, 'e' as u8,
                ];
                assert(w@ == word_thermal_zone());
                starts_with(name, &w)
            },
            EntryKind::TripPointType => {
                let w: [u8; 11] = [
                    't' as u8, 'r' as u8, 'i' as u8, 'p' as u8, '_' as u8, 'p' as u8,
                    'o' as u8, 'i' as u8, 'n' as u8, 't' as u8, '_' as u8,
                ];
                let x: [u8; 4] = ['t' as u8, 'y' as u8, 'p' as u8, 'e' as u8];
                assert(w@ == word_trip_point());
                assert(x@ == word_type());
                starts_with(name, &w) && ends_with(name, &x)
            },
        }
    }
}

/// `prefix` followed by `postfix`: the name of a file next to another.
pub fn file_name(prefix: &[u8], postfix: &[u8]) -> (r: Vec<u8>)
    ensures
        r@ == prefix@ + postfix@,
{
    let mut r: Vec<u8> = Vec::new();
    let mut i: usize = 0;
    while i < prefix.len()
        invariant
            i <= prefix.len(),
            r@ == prefix@.take(i as int),
        decreases prefix.len() - i,
    {
        r.push(prefix[i]);
        i = i + 1;
        assert(r@ =~= prefix@.take(i as int));
    }
    let mut j: usize = 0;
    while j < postfix.len()
        invariant
            j <= postfix.len(),
            r@ == prefix@ + postfix@.take(j as int),
        decreases postfix.len() - j,
    {
        r.push(postfix[j]);
        j = j + 1;
        assert(r@ =~= prefix@ + postfix@.take(j as int));
    }
    assert(prefix@.take(prefix.len() as int) =~= prefix@);
    assert(postfix@.take(postfix.len() as int) =~= postfix@);
    r
}

/// `name` without its last `n` bytes.
pub open spec fn cut_suffix(name: Seq<u8>, n: nat) -> Seq<u8> {
    name.take(name.len() - n)
}

/// The name of the file `<prefix><postfix>`, where `<prefix>` is `name`
/// without its last `suffix_len` bytes (`temp1_input` → `temp1_` + postfix).
pub fn sibling_name(name: &[u8], suffix_len: usize, postfix: &[u8]) -> (r: Vec<u8>)
    requires
        suffix_len <= name.len(),
    ensures
        r@ == cut_suffix(name@, suffix_len as nat) + postfix@,
{
    let (prefix, _) = name.split_at(name.len() - suffix_len);
    file_name(prefix, postfix)
}

/// Replacing the suffix of a name by that same suffix gives the name back.
pub proof fn lemma_sibling_of_own_suffix(name: Seq<u8>, suffix: Seq<u8>)
    requires
        has_suffix(name, suffix),
    ensures
        cut_suffix(name, suffix.len()) + suffix == name,
{
    assert(cut_suffix(name, suffix.len()) + suffix =~= name);
}

/// A name that a walk keeps as a sensor input is long enough to cut its
/// trailing `input` off, and putting `input` back gives the name again:
/// the sensor's input file is the entry itself.
pub proof fn lemma_input_entry_is_own_input_file(kind: EntryKind, name: Seq<u8>)
    requires
        kind == EntryKind::FanInput || kind == EntryKind::TempInput,
        kind.spec_matches(name),
    ensures
        name.len() >= 6,
        cut_suffix(name, 5) + word_input() == name,
{
    assert(name.skip(name.len() - 6).skip(1) =~= name.skip(name.len() - 5));
    assert(word_underscore_input().skip(1) =~= word_input());
    lemma_sibling_of_own_suffix(name, word_input());
}

/// A `trip_point_*type` name is long enough to cut its trailing `type` off.
pub proof fn lemma_trip_point_name_has_type_suffix(name: Seq<u8>)
    requires
        EntryKind::TripPointType.spec_matches(name),
    ensures
        name.len() >= 11,
        cut_suffix(name, 4) + word_type() == name,
{
    lemma_sibling_of_own_suffix(name, word_type());
}

/// Which names each walk keeps, byte for byte: fan inputs are the
/// names that begin with `fan` and end with `_input`, temperature inputs
/// those that begin with `temp` and end with `_input`, hwmon directories
/// those that begin with `hwmon`, thermal zones those that begin with
/// `thermal_zone`, and trip points those that begin with `trip_point_`
/// and end with `type`. No other name is kept.
pub proof fn lemma_entry_kind_names(name: Seq<u8>)
    ensures
        EntryKind::FanInput.spec_matches(name) <==> {
            &&& name.len() >= 6
            &&& name.len() >= 3 && name.take(3) == seq!['f' as u8, 'a' as u8, 'n' as u8]
            &&& name.skip(name.len() - 6) == seq![
                '_' as u8, 'i' as u8, 'n' as u8, 'p' as u8, 'u' as u8, 't' as u8,
            ]
        },
        EntryKind::TempInput.spec_matches(name) <==> {
            &&& name.len() >= 6
            &&& name.len() >= 4 && name.take(4) == seq![
                't' as u8, 'e' as u8, 'm' as u8, 'p' as u8,
            ]
            &&& name.skip(name.len() - 6) == seq![
                '_' as u8, 'i' as u8, 'n' as u8, 'p' as u8, 'u' as u8, 't' as u8,
            ]
        },
        EntryKind::HwmonDir.spec_matches(name) <==> name.len() >= 5 && name.take(5) == seq![
            'h' as u8, 'w' as u8, 'm' as u8, 'o' as u8, 'n' as u8,
        ],
        EntryKind::ThermalZone.spec_matches(name) <==> name.len() >= 12 && name.take(12) == seq![
            't' as u8, 'h' as u8, 'e' as u8, 'r' as u8, 'm' as u8, 'a' as u8, 'l' as u8,
            '_' as u8, 'z' as u8, 'o' as u8, 'n' as u8, 'e' as u8,
        ],
        EntryKind::TripPointType.spec_matches(name) <==> {
            &&& name.len() >= 11 && name.take(11) == seq![
                't' as u8, 'r' as u8, 'i' as u8, 'p' as u8, '_' as u8, 'p' as u8, 'o' as u8,
                'i' as u8, 'n' as u8, 't' as u8, '_' as u8,
            ]
            &&& name.len() >= 4 && name.skip(name.len() - 4) == seq![
                't' as u8, 'y' as u8, 'p' as u8, 'e' as u8,
            ]
        },
{
}

} // verus!
