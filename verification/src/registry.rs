//! The target registry: each configured target bound to its live gauge.

use crate::collector::{
    admits, collectors_new, collectors_register, describable, gauge_create, gauge_encode,
    gauge_get, gauge_reading, gauge_series, gauge_set, leads, name_chars, registered, StatusGauge,
};
use crate::config::{Config, Target, TargetView};
use crate::exposition::{
    escaped, escaped_char, header_length, header_text, label_list, label_text,
    lemma_escaped_plain, lemma_header_is_two_lines, lemma_line_feeds_concat,
    lemma_sample_is_one_line, line_feeds, sample_text, Series,
};
use crate::text::{decimal, decimal_text, is_digit, lemma_decimal_injective, lemma_decimal_shape};
use vstd::prelude::*;
use vstd::string::*;
use vstd::utf8::*;

verus! {

/// Name of the metric family every gauge belongs to.
pub const FAMILY: &'static str = "proccess_up";

/// Help text of the metric family.
pub const HELP: &'static str = "check if port is up";

/// Label that carries a target's name.
pub const NAME_LABEL: &'static str = "name";

/// Label that carries a target's port.
pub const PORT_LABEL: &'static str = "port";

/// The series under which a target is published.
pub open spec fn target_series(target: TargetView) -> Series {
    Series {
        family: FAMILY@,
        help: HELP@,
        labels: seq![(NAME_LABEL@, target.name), (PORT_LABEL@, decimal(target.port))],
    }
}

/// What a [`MetricEntry`] stands for in contracts: the target and its last
/// known state.
pub ghost struct EntryView {
    pub target: TargetView,
    pub up: bool,
}

/// The number a gauge shows for a state.
pub open spec fn reading_of(up: bool) -> nat {
    if up {
        1
    } else {
        0
    }
}

/// Whether the target at `j` names the same service and port as an earlier
/// one.
pub open spec fn repeats_at(targets: Seq<TargetView>, j: int) -> bool {
    exists|i: int| 0 <= i < j && #[trigger] targets[i] == targets[j]
}

/// No two targets share both name and port.
pub open spec fn distinct(targets: Seq<TargetView>) -> bool {
    forall|j: int| 0 <= j < targets.len() ==> !repeats_at(targets, j)
}

/// The targets of a registry, in order.
pub open spec fn targets_of(entries: Seq<EntryView>) -> Seq<TargetView> {
    Seq::new(entries.len(), |i: int| entries[i].target)
}

/// Every target of a configuration, none of them known to be up.
pub open spec fn all_down(targets: Seq<TargetView>) -> Seq<EntryView> {
    Seq::new(targets.len(), |i: int| EntryView { target: targets[i], up: false })
}

/// The series under which the targets are published.
pub open spec fn published(targets: Seq<TargetView>) -> Set<Series> {
    Set::new(
        |s: Series|
            exists|i: int| 0 <= i < targets.len() && s == #[trigger] target_series(targets[i]),
    )
}

/// Whether the collector admits the target at `i` once it holds the
/// series of the targets before it.
pub open spec fn admitted_at(targets: Seq<TargetView>, i: int) -> bool {
    admits(published(targets.take(i)), target_series(targets[i]))
}

/// Whether the collector admits every target in turn.
pub open spec fn admissible(targets: Seq<TargetView>) -> bool {
    forall|i: int| 0 <= i < targets.len() ==> #[trigger] admitted_at(targets, i)
}

/// The sample line of one entry.
pub open spec fn entry_line(entry: EntryView) -> Seq<char> {
    sample_text(target_series(entry.target), reading_of(entry.up))
}

/// The sample lines of the entries, in order.
pub open spec fn samples_text(entries: Seq<EntryView>) -> Seq<char>
    decreases entries.len(),
{
    if entries.len() == 0 {
        Seq::empty()
    } else {
        samples_text(entries.drop_last()) + entry_line(entries.last())
    }
}

/// The exposition of a registry: nothing for an empty registry, else the
/// family header followed by one sample line per entry, in order.
pub open spec fn exposition(entries: Seq<EntryView>) -> Seq<char> {
    if entries.len() == 0 {
        Seq::empty()
    } else {
        header_text(FAMILY@, HELP@) + samples_text(entries)
    }
}

/// The collector refused the target at `index`.
#[derive(Debug)]
pub struct RegistrationConflict {
    /// Position of the refused target in the configuration.
    pub index: usize,
}

/// The gauge of the entry at `index` could not be encoded.
#[derive(Debug)]
pub struct EncodingError {
    /// Position of the entry in the registry.
    pub index: usize,
}

/// A target bound to the gauge that publishes its state.
pub struct MetricEntry {
    target: Target,
    gauge: StatusGauge,
}

impl View for MetricEntry {
    type V = EntryView;

    closed spec fn view(&self) -> EntryView {
        EntryView { target: self.target@, up: gauge_reading(self.gauge) == 1 }
    }
}

impl MetricEntry {
    /// The gauge carries the target's labels and shows 0 or 1.
    pub closed spec fn wf(&self) -> bool {
        &&& gauge_series(self.gauge) == target_series(self.target@)
        &&& 0 <= gauge_reading(self.gauge) <= 1
    }

    /// Whether `gauge` is the gauge this entry is bound to.
    pub closed spec fn holds(&self, gauge: StatusGauge) -> bool {
        self.gauge == gauge
    }

    /// The entry for the target at `index`, given what the collector
    /// answered when the target's gauge was made and registered: the entry
    /// with that gauge, or the conflict at `index` if the collector refused.
    pub fn bind(
        target: Target,
        index: usize,
        answer: Result<StatusGauge, prometheus::Error>,
    ) -> (res: Result<MetricEntry, RegistrationConflict>)
        ensures
            match answer {
                Ok(gauge) => res matches Ok(entry) && entry.holds(gauge) && entry@.target
                    == target@,
                Err(_) => res matches Err(conflict) && conflict.index == index,
            },
    {
        match answer {
            Ok(gauge) => Ok(MetricEntry { target, gauge }),
            Err(_) => Err(RegistrationConflict { index }),
        }
    }

    /// The target this entry describes.
    pub fn target(&self) -> (target: &Target)
        ensures
            target@ == self@.target,
    {
        &self.target
    }

    /// The label pairs that identify the entry's gauge: the target's name
    /// and its port as a decimal numeral.
    pub fn labels(&self) -> (labels: Vec<(String, String)>)
        ensures
            labels@.len() == 2,
            labels@[0].0@ == NAME_LABEL@ && labels@[0].1@ == self@.target.name,
            labels@[1].0@ == PORT_LABEL@ && labels@[1].1@ == decimal(self@.target.port),
    {
        let mut labels: Vec<(String, String)> = Vec::new();
        labels.push((NAME_LABEL.to_owned(), self.target.name.clone()));
        labels.push((PORT_LABEL.to_owned(), decimal_text(self.target.port)));
        labels
    }

    /// The last state set for the target.
    pub fn is_up(&self) -> (up: bool)
        ensures
            up == self@.up,
    {
        gauge_get(&self.gauge) == 1
    }
}

/// Makes the gauge of `target` and registers it with `collectors`.
///
/// The gauge can always be made, so the outcome is the registry's: the
/// gauge comes back exactly when a registry that holds what `collectors`
/// hold admits the target's series, as one that holds nothing always does.
/// It then carries that series and shows 0, and the series was not
/// registered before. A refusal leaves the registered series as they were.
fn enroll(collectors: &mut prometheus::Registry, target: &Target) -> (res: Result<
    StatusGauge,
    prometheus::Error,
>)
    ensures
        res is Ok <==> admits(registered(*old(collectors)), target_series(target@)),
        registered(*old(collectors)) == Set::<Series>::empty() ==> res is Ok,
        match res {
            Ok(gauge) => {
                &&& gauge_series(gauge) == target_series(target@)
                &&& gauge_reading(gauge) == 0
                &&& !registered(*old(collectors)).contains(target_series(target@))
                &&& registered(*final(collectors)) == registered(*old(collectors)).insert(
                    target_series(target@),
                )
            },
            Err(_) => registered(*final(collectors)) == registered(*old(collectors)),
        },
{
    proof {
        reveal_strlit("proccess_up");
        reveal_strlit("check if port is up");
        reveal_strlit("name");
        reveal_strlit("port");
        assert(leads(NAME_LABEL@, PORT_LABEL@));
        assert(describable(FAMILY@, HELP@, NAME_LABEL@, PORT_LABEL@)) by {
            reveal_with_fuel(name_chars, 12);
        }
    }
    let port = decimal_text(target.port);
    let gauge = gauge_create(
        FAMILY,
        HELP,
        (NAME_LABEL, target.name.as_str()),
        (PORT_LABEL, port.as_str()),
    )?;
    collectors_register(collectors, &gauge)?;
    Ok(gauge)
}

/// Adds to `text` what the encoding of the gauge at `index` contributes.
///
/// `answer` is the encoder's answer for that gauge alone: the family header
/// followed by the gauge's sample line. The first gauge contributes all of
/// it; every later one contributes what follows the first `header`
/// characters, so that the header stands once. An encoder error, or an
/// encoding shorter than the header, is an encoding error at `index` and
/// leaves `text` as it was.
pub fn join_chunk(
    text: &mut String,
    index: usize,
    header: u128,
    answer: Result<String, prometheus::Error>,
) -> (res: Result<(), EncodingError>)
    ensures
        match answer {
            Ok(chunk) => if index == 0 {
                res is Ok && final(text)@ == old(text)@ + chunk@
            } else if header <= chunk@.len() {
                res is Ok && final(text)@ == old(text)@ + chunk@.skip(header as int)
            } else {
                res matches Err(fault) && fault.index == index && final(text)@ == old(text)@
            },
            Err(_) => res matches Err(fault) && fault.index == index && final(text)@ == old(
                text,
            )@,
        },
{
    let chunk = match answer {
        Ok(chunk) => chunk,
        Err(_) => {
            return Err(EncodingError { index });
        },
    };
    let whole = chunk.as_str();
    if index == 0 {
        text.append(whole);
        return Ok(());
    }
    let total = whole.unicode_len();
    if header > total as u128 {
        return Err(EncodingError { index });
    }
    let skip = header as usize;
    let tail = whole.substring_char(skip, total);
    assert(tail@ =~= chunk@.skip(header as int));
    text.append(tail);
    Ok(())
}

/// All entries of the exporter, in configuration order, with the collector
/// they are registered with.
pub struct TargetRegistry {
    entries: Vec<MetricEntry>,
    collectors: prometheus::Registry,
}

impl View for TargetRegistry {
    type V = Seq<EntryView>;

    closed spec fn view(&self) -> Seq<EntryView> {
        Seq::new(self.entries@.len(), |i: int| self.entries@[i]@)
    }
}

impl TargetRegistry {
    /// Every entry is well formed, no two entries describe the same target,
    /// and the collector holds exactly the series of the entries.
    pub closed spec fn wf(&self) -> bool {
        &&& forall|i: int| 0 <= i < self.entries@.len() ==> (#[trigger] self.entries@[i]).wf()
        &&& distinct(targets_of(self@))
        &&& registered(self.collectors) == published(targets_of(self@))
    }

    /// The series the collector holds.
    pub closed spec fn held(&self) -> Set<Series> {
        registered(self.collectors)
    }

    /// Binds every target of `config` to a gauge that starts at 0 and
    /// registers the gauge with a fresh collector.
    ///
    /// Succeeds exactly when the collector admits every target in turn,
    /// and stops at the first target it refuses. A target that repeats the
    /// name and port of an earlier one is always refused; a configuration
    /// of one target or none is always accepted.
    pub fn initialize(config: &Config) -> (res: Result<TargetRegistry, RegistrationConflict>)
        ensures
            res is Ok <==> admissible(config@),
            match res {
                Ok(registry) => {
                    &&& registry.wf()
                    &&& registry@ == all_down(config@)
                    &&& registry.held() == published(config@)
                    &&& distinct(config@)
                },
                Err(conflict) => {
                    &&& conflict.index < config@.len()
                    &&& !admitted_at(config@, conflict.index as int)
                    &&& forall|j: int| 0 <= j < conflict.index ==> admitted_at(config@, j)
                    &&& forall|j: int| 0 <= j < conflict.index ==> !repeats_at(config@, j)
                },
            },
            !distinct(config@) ==> res is Err,
            config@.len() <= 1 ==> res is Ok,
    {
        let mut collectors = collectors_new();
        let mut entries: Vec<MetricEntry> = Vec::new();
        let n = config.ports.len();
        let mut i: usize = 0;
        assert(registered(collectors) =~= published(config@.take(0)));
        while i < n
            invariant
                i <= n,
                n == config.ports@.len(),
                entries@.len() == i,
                forall|k: int| 0 <= k < i ==> (#[trigger] entries@[k]).wf(),
                forall|k: int|
                    0 <= k < i ==> (#[trigger] entries@[k])@ == (EntryView {
                        target: config@[k],
                        up: false,
                    }),
                registered(collectors) == published(config@.take(i as int)),
                forall|j: int| 0 <= j < i ==> admitted_at(config@, j),
                forall|j: int| 0 <= j < i ==> !repeats_at(config@, j),
            decreases n - i,
        {
            let ghost before = config@.take(i as int);
            let ghost after = config@.take(i + 1);
            let ghost series = target_series(config@[i as int]);
            let target = config.ports[i].clone();
            assert(i == 0 ==> registered(collectors) == Set::<Series>::empty()) by {
                assert(published(config@.take(0)) =~= Set::<Series>::empty());
            }
            let answer = enroll(&mut collectors, &target);
            assert(answer is Ok <==> admitted_at(config@, i as int));
            let entry = MetricEntry::bind(target, i, answer)?;
            proof {
                assert(registered(collectors) =~= published(after)) by {
                    assert forall|s: Series| published(after).contains(s) implies published(
                        before,
                    ).insert(series).contains(s) by {
                        let k = choose|k: int|
                            0 <= k < after.len() && s == #[trigger] target_series(after[k]);
                        if k < i {
                            assert(before[k] == after[k]);
                        }
                    }
                    assert forall|s: Series| published(before).insert(series).contains(
                        s,
                    ) implies published(after).contains(s) by {
                        if s == series {
                            assert(after[i as int] == config@[i as int]);
                        } else {
                            let k = choose|k: int|
                                0 <= k < before.len() && s == #[trigger] target_series(before[k]);
                            assert(before[k] == after[k]);
                        }
                    }
                }
                assert(!repeats_at(config@, i as int)) by {
                    if repeats_at(config@, i as int) {
                        let k = choose|k: int|
                            0 <= k < i && #[trigger] config@[k] == config@[i as int];
                        assert(before[k] == config@[k]);
                        assert(published(before).contains(target_series(before[k])));
                    }
                }
            }
            entries.push(entry);
            i += 1;
        }
        let registry = TargetRegistry { entries, collectors };
        proof {
            assert(registry@ =~= all_down(config@));
            assert(targets_of(registry@) =~= config@);
            assert(config@.take(n as int) =~= config@);
            assert(registry.held() == published(config@));
        }
        Ok(registry)
    }

    /// A well-formed registry holds no target twice, and its collector
    /// holds the series of its targets and no other.
    pub proof fn lemma_no_repeats(&self)
        requires
            self.wf(),
        ensures
            distinct(targets_of(self@)),
            self.held() == published(targets_of(self@)),
    {
    }

    /// Number of entries.
    pub fn len(&self) -> (n: usize)
        ensures
            n == self@.len(),
    {
        self.entries.len()
    }

    /// The entries, in configuration order.
    pub fn entries(&self) -> (entries: &Vec<MetricEntry>)
        ensures
            entries@.len() == self@.len(),
            forall|i: int| 0 <= i < self@.len() ==> (#[trigger] entries@[i])@ == self@[i],
    {
        &self.entries
    }

    /// Encodes the current gauge values as text exposition, in UTF-8. The
    /// encoding of a well-formed registry never fails.
    ///
    /// The collector would list the series ordered by label value. The
    /// exposition follows configuration order instead, so each gauge is
    /// encoded on its own and the header is kept from the first one only.
    pub fn render(&self) -> (res: Result<Vec<u8>, EncodingError>)
        requires
            self.wf(),
        ensures
            res matches Ok(body) && body@ == encode_utf8(exposition(self@)),
    {
        let header = header_length(FAMILY, HELP);
        let mut text = String::new();
        let n = self.entries.len();
        let mut i: usize = 0;
        assert(self@.take(0) =~= Seq::<EntryView>::empty());
        while i < n
            invariant
                self.wf(),
                i <= n,
                n == self.entries@.len(),
                header == header_text(FAMILY@, HELP@).len(),
                text@ == exposition(self@.take(i as int)),
            decreases n - i,
        {
            let answer = gauge_encode(&self.entries[i].gauge);
            proof {
                assert(self.entries@[i as int].wf());
                let next = self@.take(i + 1);
                assert(next.drop_last() =~= self@.take(i as int));
                assert(next.last() == self@[i as int]);
                assert(samples_text(self@.take(0)) =~= Seq::<char>::empty());
                if answer is Ok {
                    let chunk = answer->Ok_0;
                    let head = header_text(FAMILY@, HELP@);
                    assert(chunk@ == head + entry_line(self@[i as int]));
                    assert(chunk@.skip(head.len() as int) =~= entry_line(self@[i as int]));
                }
            }
            join_chunk(&mut text, i, header, answer)?;
            assert(text@ =~= exposition(self@.take(i + 1)));
            i += 1;
        }
        assert(self@.take(n as int) =~= self@);
        Ok(text.as_str().as_bytes_vec())
    }

    /// Sets the gauge of the entry at `index` to 1 if `up`, to 0 otherwise.
    /// No other entry changes, and no target does.
    pub fn set_status(&mut self, index: usize, up: bool)
        requires
            old(self).wf(),
            index < old(self)@.len(),
        ensures
            final(self).wf(),
            final(self)@ == old(self)@.update(
                index as int,
                EntryView { target: old(self)@[index as int].target, up },
            ),
            targets_of(final(self)@) == targets_of(old(self)@),
            final(self).held() == old(self).held(),
    {
        let reading: i64 = if up {
            1
        } else {
            0
        };
        gauge_set(&mut self.entries[index].gauge, reading);
        proof {
            assert(final(self)@ =~= old(self)@.update(
                index as int,
                EntryView { target: old(self)@[index as int].target, up },
            ));
            assert(targets_of(final(self)@) =~= targets_of(old(self)@));
        }
    }
}

/// Targets published under the same series are the same target: name and
/// port together are the identity of a series.
pub proof fn lemma_series_tells_target(a: TargetView, b: TargetView)
    requires
        target_series(a) == target_series(b),
    ensures
        a == b,
{
    let la = target_series(a).labels;
    let lb = target_series(b).labels;
    assert(la[0] == lb[0]);
    assert(la[1] == lb[1]);
    lemma_decimal_injective(a.port, b.port);
}

/// The sample line of an entry spelled out: the family name; in braces,
/// the target's name and its port as a decimal numeral, each as a quoted
/// label value; then `1` for up or `0` for down, and a line feed.
pub proof fn lemma_entry_line(entry: EntryView)
    ensures
        entry_line(entry) == FAMILY@ + ("{"@ + ((NAME_LABEL@ + "=\""@ + escaped(
            entry.target.name,
            true,
        ) + "\""@) + ","@ + (PORT_LABEL@ + "=\""@ + decimal(entry.target.port) + "\""@)) + "}"@)
            + " "@ + (if entry.up {
            "1"@
        } else {
            "0"@
        }) + "\n"@,
{
    reveal_strlit("1");
    reveal_strlit("0");
    let port = decimal(entry.target.port);
    assert(escaped(port, true) == port) by {
        lemma_decimal_shape(entry.target.port);
        assert forall|i: int| 0 <= i < port.len() implies escaped_char(
            #[trigger] port[i],
            true,
        ) == seq![port[i]] by {
            assert(is_digit(port[i]));
        }
        lemma_escaped_plain(port, true);
    }
    let labels = target_series(entry.target).labels;
    assert(labels.drop_last() =~= seq![(NAME_LABEL@, entry.target.name)]);
    assert(label_list(labels.drop_last()) == label_text(labels[0]));
    assert(decimal(1) =~= "1"@);
    assert(decimal(0) =~= "0"@);
}

/// A name without double quote, backslash or line feed stands in the
/// line as it is.
pub proof fn lemma_plain_name_stands_as_is(entry: EntryView)
    requires
        forall|i: int|
            0 <= i < entry.target.name.len() ==> {
                let c = #[trigger] entry.target.name[i];
                c != '"' && c != '\\' && c != '\n'
            },
    ensures
        entry_line(entry) == FAMILY@ + ("{"@ + ((NAME_LABEL@ + "=\""@ + entry.target.name + "\""@)
            + ","@ + (PORT_LABEL@ + "=\""@ + decimal(entry.target.port) + "\""@)) + "}"@) + " "@
            + (if entry.up {
            "1"@
        } else {
            "0"@
        }) + "\n"@,
{
    lemma_entry_line(entry);
    lemma_escaped_plain(entry.target.name, true);
}

/// Every entry has its own line in the exposition, and the lines stand in
/// the order of the entries: the line of entry `i` follows the header and
/// the lines of the entries before it, and the lines of the entries after
/// it follow.
pub proof fn lemma_exposition_order(entries: Seq<EntryView>, i: int)
    requires
        0 <= i < entries.len(),
    ensures
        exposition(entries) == header_text(FAMILY@, HELP@) + samples_text(entries.take(i))
            + entry_line(entries[i]) + samples_text(entries.skip(i + 1)),
{
    lemma_samples_split(entries, i + 1);
    let upto = entries.take(i + 1);
    assert(upto.drop_last() =~= entries.take(i));
    assert(upto.last() == entries[i]);
    assert(exposition(entries) =~= header_text(FAMILY@, HELP@) + samples_text(entries.take(i))
        + entry_line(entries[i]) + samples_text(entries.skip(i + 1)));
}

/// The sample lines of a sequence of entries are those of any prefix
/// followed by those of the rest.
pub proof fn lemma_samples_split(entries: Seq<EntryView>, at: int)
    requires
        0 <= at <= entries.len(),
    ensures
        samples_text(entries) == samples_text(entries.take(at)) + samples_text(entries.skip(at)),
    decreases entries.len() - at,
{
    if at == entries.len() {
        assert(entries.take(at) =~= entries);
        assert(entries.skip(at) =~= Seq::<EntryView>::empty());
        assert(samples_text(entries) =~= samples_text(entries) + Seq::<char>::empty());
    } else {
        let front = entries.drop_last();
        lemma_samples_split(front, at);
        assert(front.take(at) =~= entries.take(at));
        assert(entries.skip(at).drop_last() =~= front.skip(at));
        assert(entries.skip(at).last() == entries.last());
        assert(samples_text(entries) =~= samples_text(entries.take(at)) + samples_text(
            entries.skip(at),
        ));
    }
}

/// The line of an entry is one line: its only line feed is its last
/// character.
pub proof fn lemma_entry_line_is_one_line(entry: EntryView)
    ensures
        line_feeds(entry_line(entry)) == 1,
        entry_line(entry).last() == '\n',
{
    let series = target_series(entry.target);
    assert(line_feeds(FAMILY@) == 0) by {
        reveal_strlit("proccess_up");
        reveal_with_fuel(line_feeds, 12);
    }
    assert(line_feeds(NAME_LABEL@) == 0 && line_feeds(PORT_LABEL@) == 0) by {
        reveal_strlit("name");
        reveal_strlit("port");
        reveal_with_fuel(line_feeds, 5);
    }
    lemma_sample_is_one_line(series, reading_of(entry.up));
}

/// The sample lines hold exactly one line per entry.
pub proof fn lemma_one_line_per_entry(entries: Seq<EntryView>)
    ensures
        line_feeds(samples_text(entries)) == entries.len(),
    decreases entries.len(),
{
    if entries.len() > 0 {
        lemma_one_line_per_entry(entries.drop_last());
        lemma_entry_line_is_one_line(entries.last());
        lemma_line_feeds_concat(samples_text(entries.drop_last()), entry_line(entries.last()));
    }
}

/// The exposition of a registry that is not empty holds two header lines
/// and exactly one line per entry.
pub proof fn lemma_exposition_line_count(entries: Seq<EntryView>)
    requires
        entries.len() > 0,
    ensures
        line_feeds(exposition(entries)) == entries.len() + 2,
{
    assert(line_feeds(FAMILY@) == 0 && HELP@.len() > 0) by {
        reveal_strlit("proccess_up");
        reveal_strlit("check if port is up");
        reveal_with_fuel(line_feeds, 12);
    }
    lemma_header_is_two_lines(FAMILY@, HELP@);
    lemma_one_line_per_entry(entries);
    lemma_line_feeds_concat(header_text(FAMILY@, HELP@), samples_text(entries));
}

/// What was rendered from a registry is determined by its entries: two
/// renderings with no change of state in between are the same bytes.
pub proof fn lemma_rendering_is_unique(entries: Seq<EntryView>, first: Seq<u8>, second: Seq<u8>)
    requires
        first == encode_utf8(exposition(entries)),
        second == encode_utf8(exposition(entries)),
    ensures
        first == second,
{
}

} // verus!
