//! GPU temperature: reading the sensors' text and the safety decision.
use vstd::prelude::*;
use crate::text::{chars_of, parse_u32, parse_u32_chars, trim, trim_chars};

verus! {

/// The temperature (°C) that a sensor file's text reports: the file holds
/// millidegrees as a decimal number, possibly surrounded by whitespace.
pub open spec fn reading_celsius(content: Seq<char>) -> Option<u32> {
    match parse_u32(trim(content)) {
        Some(milli) => Some((milli / 1000) as u32),
        None => None,
    }
}

/// The temperature of the first reading, in order, that parses.
pub open spec fn first_celsius(readings: Seq<Seq<char>>) -> Option<u32>
    decreases readings.len(),
{
    if readings.len() == 0 {
        None
    } else {
        match reading_celsius(readings[0]) {
            Some(t) => Some(t),
            None => first_celsius(readings.drop_first()),
        }
    }
}

/// The GPU temperature given the text of the NVIDIA-style sensor files and
/// then of the AMD-style ones, each list in the order the files were found:
/// the first reading that parses, or 0 when there is none (no GPU).
pub open spec fn gpu_celsius(nvidia: Seq<Seq<char>>, amd: Seq<Seq<char>>) -> u32 {
    match first_celsius(nvidia) {
        Some(t) => t,
        None => match first_celsius(amd) {
            Some(t) => t,
            None => 0,
        },
    }
}

/// The temperature (°C) that one sensor file's text reports, if it parses.
pub fn reading_temperature(content: &str) -> (r: Option<u32>)
    ensures
        r == reading_celsius(content@),
{
    let cs = chars_of(content);
    let trimmed = trim_chars(&cs);
    match parse_u32_chars(&trimmed) {
        Some(milli) => Some(milli / 1000),
        None => None,
    }
}

/// The temperature of the first reading that parses, if any.
pub fn first_temperature(readings: &Vec<String>) -> (r: Option<u32>)
    ensures
        r == first_celsius(crate::text::string_rows(readings@)),
{
    let ghost rows = crate::text::string_rows(readings@);
    let n = readings.len();
    assert(rows.skip(0) =~= rows);
    for i in 0..n
        invariant
            n == readings@.len(),
            rows == crate::text::string_rows(readings@),
            first_celsius(rows) == first_celsius(rows.skip(i as int)),
    {
        let r = reading_temperature(readings[i].as_str());
        assert(rows.skip(i as int)[0] == readings@[i as int]@);
        assert(rows.skip(i as int).drop_first() =~= rows.skip(i + 1));
        if r.is_some() {
            return r;
        }
    }
    assert(rows.skip(n as int).len() == 0);
    None
}

/// The GPU temperature (°C) from the sensor readings; 0 when no reading
/// parses, which means that there is no GPU and no thermal restriction.
pub fn gpu_temp_from_readings(nvidia: &Vec<String>, amd: &Vec<String>) -> (t: u32)
    ensures
        t == gpu_celsius(crate::text::string_rows(nvidia@), crate::text::string_rows(amd@)),
{
    match first_temperature(nvidia) {
        Some(t) => t,
        None => match first_temperature(amd) {
            Some(t) => t,
            None => 0,
        },
    }
}

/// The GPU is in its safe zone: its temperature is below `limit`.
pub fn is_gpu_safe(temp: u32, limit: u32) -> (b: bool)
    ensures
        b == (temp < limit),
{
    if temp >= limit {
        return false;
    }
    true
}

/// Without any sensor reading the temperature is 0, which every positive
/// limit accepts and the limit 0 refuses.
pub proof fn law_no_gpu_is_cold(limit: u32)
    ensures
        gpu_celsius(seq![], seq![]) == 0,
        (gpu_celsius(seq![], seq![]) < limit) <==> limit > 0,
{
}

/// A reported temperature never exceeds what a `u32` of millidegrees allows.
pub proof fn law_reading_bound(content: Seq<char>)
    ensures
        reading_celsius(content) matches Some(t) ==> t <= u32::MAX / 1000,
{
}

/// The first reading that parses decides: if reading `i` parses and none
/// before it does, the temperature is reading `i`'s, whatever follows; if
/// no reading parses there is none.
pub proof fn law_first_parsable_reading_decides(readings: Seq<Seq<char>>)
    ensures
        forall|i: int|
            0 <= i < readings.len() && #[trigger] reading_celsius(readings[i]) is Some && (forall|j: int|
                0 <= j < i ==> reading_celsius(readings[j]) is None) ==> first_celsius(readings)
                == reading_celsius(readings[i]),
        (forall|j: int| 0 <= j < readings.len() ==> reading_celsius(readings[j]) is None)
            ==> first_celsius(readings) is None,
    decreases readings.len(),
{
    if readings.len() > 0 {
        let rest = readings.drop_first();
        law_first_parsable_reading_decides(rest);
        assert forall|i: int|
            0 <= i < readings.len() && #[trigger] reading_celsius(readings[i]) is Some && (forall|j: int|
                0 <= j < i ==> reading_celsius(readings[j]) is None) implies first_celsius(readings)
            == reading_celsius(readings[i]) by {
            if i > 0 {
                assert(reading_celsius(readings[0]) is None);
                assert(rest[i - 1] == readings[i]);
                assert(reading_celsius(rest[i - 1]) is Some);
                assert forall|j: int| 0 <= j < i - 1 implies reading_celsius(rest[j]) is None by {
                    assert(rest[j] == readings[j + 1]);
                }
            }
        }
        if forall|j: int| 0 <= j < readings.len() ==> reading_celsius(readings[j]) is None {
            assert(reading_celsius(readings[0]) is None);
            assert forall|j: int| 0 <= j < rest.len() implies reading_celsius(rest[j]) is None by {
                assert(rest[j] == readings[j + 1]);
            }
        }
    }
}

/// Readings after one that parses never change the temperature.
pub proof fn law_later_readings_do_not_matter(first: Seq<Seq<char>>, later: Seq<Seq<char>>)
    requires
        first_celsius(first) is Some,
    ensures
        first_celsius(first + later) == first_celsius(first),
    decreases first.len(),
{
    let all = first + later;
    assert(all[0] == first[0]);
    if reading_celsius(first[0]) is None {
        assert(all.drop_first() =~= first.drop_first() + later);
        law_later_readings_do_not_matter(first.drop_first(), later);
    }
}

/// The NVIDIA-style readings take precedence: once one of them parses, the
/// AMD-style readings do not count; only without any parsable NVIDIA-style
/// reading is the temperature that of the AMD-style ones alone.
pub proof fn law_nvidia_readings_take_precedence(nvidia: Seq<Seq<char>>, amd: Seq<Seq<char>>)
    ensures
        first_celsius(nvidia) matches Some(t) ==> gpu_celsius(nvidia, amd) == t,
        forall|other: Seq<Seq<char>>|
            first_celsius(nvidia) is Some ==> #[trigger] gpu_celsius(nvidia, other) == gpu_celsius(
                nvidia,
                amd,
            ),
        first_celsius(nvidia) is None ==> gpu_celsius(nvidia, amd) == gpu_celsius(seq![], amd),
        (forall|j: int| 0 <= j < nvidia.len() ==> reading_celsius(nvidia[j]) is None)
            ==> gpu_celsius(nvidia, amd) == gpu_celsius(seq![], amd),
{
    law_first_parsable_reading_decides(nvidia);
}

} // verus!
