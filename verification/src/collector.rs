//! The metrics collector this exporter publishes through.
//!
//! Gauges, their registration and their text encoding are the work of the
//! `prometheus` crate. Nothing in this file is proved: each contract below
//! records what the crate's code does, and the rest of the library is
//! proved from these contracts.

use crate::exposition::{series_text, Series};
use vstd::prelude::*;

verus! {

/// An integer gauge of the `prometheus` crate (`prometheus::IntGauge`).
#[verifier::external_body]
pub struct StatusGauge {
    handle: prometheus::IntGauge,
}

/// `prometheus::Registry`, the set of registered collectors.
#[verifier::external_type_specification]
#[verifier::external_body]
pub struct ExCollectors(prometheus::Registry);

/// `prometheus::Error`.
#[verifier::external_type_specification]
#[verifier::external_body]
pub struct ExCollectorError(prometheus::Error);

/// The value a gauge holds.
pub uninterp spec fn gauge_reading(gauge: StatusGauge) -> int;

/// The family name, help text and constant labels a gauge was made with,
/// the labels in the order in which the crate writes them.
pub uninterp spec fn gauge_series(gauge: StatusGauge) -> Series;

/// The series of the gauges registered with a collector registry.
pub uninterp spec fn registered(collectors: prometheus::Registry) -> Set<Series>;

/// Whether a collector registry that holds the series `held` accepts a
/// gauge of the series `series`. The registry decides by hashes of the
/// new series and of the series it holds.
pub uninterp spec fn admits(held: Set<Series>, series: Series) -> bool;

/// Whether `c` may start a name: an ASCII letter or `_`, and in a family
/// name (`colon` set) also `:`.
pub open spec fn name_start(c: char, colon: bool) -> bool {
    ||| 'a' as u32 <= c as u32 <= 'z' as u32
    ||| 'A' as u32 <= c as u32 <= 'Z' as u32
    ||| c == '_'
    ||| (colon && c == ':')
}

/// Whether `c` may stand in a name: what may start it, or an ASCII digit.
pub open spec fn name_char(c: char, colon: bool) -> bool {
    name_start(c, colon) || '0' as u32 <= c as u32 <= '9' as u32
}

/// Whether every character of `s` may stand in a name.
pub open spec fn name_chars(s: Seq<char>, colon: bool) -> bool
    decreases s.len(),
{
    s.len() == 0 || (name_chars(s.drop_last(), colon) && name_char(s.last(), colon))
}

/// Whether `s` is a name the crate accepts: a family name with `colon`
/// set, a label name without.
pub open spec fn valid_name(s: Seq<char>, colon: bool) -> bool {
    s.len() > 0 && name_start(s[0], colon) && name_chars(s, colon)
}

/// Whether the crate makes a gauge of this description: it asks for help
/// text, a valid family name and valid label names.
pub open spec fn describable(
    family: Seq<char>,
    help: Seq<char>,
    first_label: Seq<char>,
    second_label: Seq<char>,
) -> bool {
    &&& help.len() > 0
    &&& valid_name(family, true)
    &&& valid_name(first_label, false)
    &&& valid_name(second_label, false)
}

/// Whether the first character of `first` comes before the first character
/// of `second`, so that `first` sorts before `second`.
pub open spec fn leads(first: Seq<char>, second: Seq<char>) -> bool {
    first.len() > 0 && second.len() > 0 && (first[0] as u32) < (second[0] as u32)
}

/// `IntGauge::with_opts` on `Opts::new(family, help)` with two constant
/// labels added by `Opts::const_label`.
///
/// The crate makes the gauge exactly when the description passes its
/// checks of the help text and of the names. The gauge starts at zero and
/// carries the given family and help. The crate keeps constant labels
/// sorted by name, so the labels are claimed in the order given only where
/// the first name sorts first.
#[verifier::external_body]
pub(crate) fn gauge_create(
    family: &str,
    help: &str,
    first: (&str, &str),
    second: (&str, &str),
) -> (res: Result<StatusGauge, prometheus::Error>)
    ensures
        res is Ok <==> describable(family@, help@, first.0@, second.0@),
        res matches Ok(gauge) ==> {
            &&& gauge_reading(gauge) == 0
            &&& gauge_series(gauge).family == family@
            &&& gauge_series(gauge).help == help@
            &&& leads(first.0@, second.0@) ==> gauge_series(gauge).labels == seq![
                (first.0@, first.1@),
                (second.0@, second.1@),
            ]
        },
{
    let opts = prometheus::Opts::new(family, help)
        .const_label(first.0, first.1)
        .const_label(second.0, second.1);
    match prometheus::IntGauge::with_opts(opts) {
        Ok(handle) => Ok(StatusGauge { handle }),
        Err(error) => Err(error),
    }
}

/// `IntGauge::set`: the gauge holds `reading` afterwards and is otherwise
/// the same gauge.
#[verifier::external_body]
pub(crate) fn gauge_set(gauge: &mut StatusGauge, reading: i64)
    ensures
        gauge_reading(*final(gauge)) == reading,
        gauge_series(*final(gauge)) == gauge_series(*old(gauge)),
{
    gauge.handle.set(reading)
}

/// `IntGauge::get`: the value the gauge holds.
#[verifier::external_body]
pub(crate) fn gauge_get(gauge: &StatusGauge) -> (reading: i64)
    ensures
        reading == gauge_reading(*gauge),
{
    gauge.handle.get()
}

/// `TextEncoder::encode_to_string` on what `Collector::collect` returns for
/// the gauge: the text exposition of that one gauge.
///
/// The encoder refuses only a family without a name or without a metric,
/// and a gauge has both, so the encoding always succeeds. The text is
/// claimed for the readings 0 and 1 only, which the crate writes as `0`
/// and `1`.
#[verifier::external_body]
pub(crate) fn gauge_encode(gauge: &StatusGauge) -> (res: Result<String, prometheus::Error>)
    ensures
        res is Ok,
        res matches Ok(text) ==> (0 <= gauge_reading(*gauge) <= 1 ==> text@ == series_text(
            gauge_series(*gauge),
            gauge_reading(*gauge) as nat,
        )),
{
    let families = prometheus::core::Collector::collect(&gauge.handle);
    prometheus::TextEncoder::new().encode_to_string(&families)
}

/// `Registry::new`: a registry with nothing registered.
#[verifier::external_body]
pub(crate) fn collectors_new() -> (collectors: prometheus::Registry)
    ensures
        registered(collectors) == Set::<Series>::empty(),
{
    prometheus::Registry::new()
}

/// `Registry::register` on a clone of the gauge.
///
/// Whether the registry accepts is a matter of the series it holds and of
/// the gauge's series alone, and a registry that holds nothing accepts. It
/// refuses a gauge whose family and label values it already holds, so an
/// accepted series is a new one; a refusal leaves the registered series as
/// they were.
#[verifier::external_body]
pub(crate) fn collectors_register(
    collectors: &mut prometheus::Registry,
    gauge: &StatusGauge,
) -> (res: Result<(), prometheus::Error>)
    ensures
        res is Ok <==> admits(registered(*old(collectors)), gauge_series(*gauge)),
        registered(*old(collectors)) == Set::<Series>::empty() ==> res is Ok,
        res is Ok ==> !registered(*old(collectors)).contains(gauge_series(*gauge)),
        res is Ok ==> registered(*final(collectors)) == registered(*old(collectors)).insert(
            gauge_series(*gauge),
        ),
        res is Err ==> registered(*final(collectors)) == registered(*old(collectors)),
{
    collectors.register(Box::new(gauge.handle.clone()))
}

} // verus!
