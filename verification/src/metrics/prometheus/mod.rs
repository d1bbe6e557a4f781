//! Gauges, counters and keyed gauge families of the `prometheus` crate, and
//! the rule by which optional status fields reach them: a present field is
//! written, an absent one leaves the series as it was.

use vstd::prelude::*;

pub mod cluster_data;
pub mod fetch_errors;

verus! {

/// The registry of the `prometheus` crate, in which collectors are filed for
/// exposition.
#[verifier::external_type_specification]
#[verifier::external_body]
pub struct ExRegistry(::prometheus::Registry);

/// The error type of the `prometheus` crate.
#[verifier::external_type_specification]
#[verifier::external_body]
pub struct ExError(::prometheus::Error);

/// Why a series could not be declared, registered or written.
#[derive(Debug)]
pub enum MetricError {
    /// A collector with the same descriptor is registered already.
    AlreadyRegistered,
    /// The number of label values differs from the number of label names.
    InconsistentCardinality { expect: usize, got: usize },
    /// The crate refused the name, the help text or a label.
    Message(String),
    /// Any other failure inside the crate.
    Other,
}

/// Tells the variants of `prometheus::Error` apart and moves their fields
/// into a `MetricError`.
#[verifier::external_body]
fn metric_error(e: ::prometheus::Error) -> MetricError {
    match e {
        ::prometheus::Error::AlreadyReg => MetricError::AlreadyRegistered,
        ::prometheus::Error::InconsistentCardinality { expect, got } => {
            MetricError::InconsistentCardinality { expect, got }
        },
        ::prometheus::Error::Msg(m) => MetricError::Message(m),
        ::prometheus::Error::Io(_) => MetricError::Other,
        ::prometheus::Error::Protobuf(_) => MetricError::Other,
    }
}

/// A letter or `_`.
pub open spec fn is_name_start(c: char) -> bool {
    ('a' <= c && c <= 'z') || ('A' <= c && c <= 'Z') || c == '_'
}

/// A decimal digit.
pub open spec fn is_name_digit(c: char) -> bool {
    '0' <= c && c <= '9'
}

/// A series name: a letter, `_` or `:`, then letters, digits, `_` and `:`.
pub open spec fn valid_metric_name(s: Seq<char>) -> bool {
    &&& s.len() > 0
    &&& is_name_start(s[0]) || s[0] == ':'
    &&& forall|i: int|
        1 <= i < s.len() ==> is_name_start(#[trigger] s[i]) || s[i] == ':' || is_name_digit(s[i])
}

/// A label name: a letter or `_`, then letters, digits and `_`.
pub open spec fn valid_label_name(s: Seq<char>) -> bool {
    &&& s.len() > 0
    &&& is_name_start(s[0])
    &&& forall|i: int| 1 <= i < s.len() ==> is_name_start(#[trigger] s[i]) || is_name_digit(s[i])
}

/// The texts of a list of labels.
pub open spec fn label_texts(labels: Seq<&str>) -> Seq<Seq<char>> {
    Seq::new(labels.len(), |i: int| labels[i]@)
}

/// Label names that a family can be declared with: each valid, none twice.
pub open spec fn valid_label_names(names: Seq<Seq<char>>) -> bool {
    &&& forall|i: int| 0 <= i < names.len() ==> valid_label_name(#[trigger] names[i])
    &&& forall|i: int, j: int| 0 <= i < j < names.len() ==> names[i] != names[j]
}

/// Whether a family can be declared under a title with these label names.
pub open spec fn declarable(title: Title, label_names: Seq<Seq<char>>) -> bool {
    valid_metric_name(title.name) && title.help.len() > 0 && valid_label_names(label_names)
}

/// The name and the help text that a series was declared with.
pub struct Title {
    pub name: Seq<char>,
    pub help: Seq<char>,
}

/// A series as a registry sees it: its title and the names of its labels.
pub struct Series {
    pub title: Title,
    pub labels: Seq<Seq<char>>,
}

/// The number under which a registry files a series: a 64-bit hash of the
/// series' name.
pub uninterp spec fn series_id(name: Seq<char>) -> u64;

/// The number by which a registry tells whether two series of one name are
/// of one shape: a 64-bit hash of the help text and the label names.
pub uninterp spec fn dim_hash(help: Seq<char>, labels: Seq<Seq<char>>) -> u64;

/// The series that are filed in a registry, each by its name and help text.
pub uninterp spec fn registry_series(registry: ::prometheus::Registry) -> Set<Title>;

/// The numbers of the series that are filed in a registry.
pub uninterp spec fn registry_ids(registry: ::prometheus::Registry) -> Set<u64>;

/// The numbers under which a registry holds its collectors. For collectors
/// of one series each, as all of this library are, these are the numbers of
/// the series.
pub uninterp spec fn registry_collectors(registry: ::prometheus::Registry) -> Set<u64>;

/// The shape that a registry has noted for each name that it was offered
/// and did not turn down at once.
pub uninterp spec fn registry_dims(registry: ::prometheus::Registry) -> Map<Seq<char>, u64>;

/// What a registry holds and has noted.
pub struct Filing {
    /// The series held, each by its name and help text.
    pub series: Set<Title>,
    /// The numbers of the series held.
    pub ids: Set<u64>,
    /// The numbers under which the collectors are held.
    pub collectors: Set<u64>,
    /// The shape noted for each name.
    pub dims: Map<Seq<char>, u64>,
}

/// What a registry holds and has noted.
pub open spec fn registry_filing(registry: ::prometheus::Registry) -> Filing {
    Filing {
        series: registry_series(registry),
        ids: registry_ids(registry),
        collectors: registry_collectors(registry),
        dims: registry_dims(registry),
    }
}

/// Whether a registry with these numbers and shapes looks at a series at
/// all: it holds no series of that number, and has noted no other shape for
/// the name.
pub open spec fn admitted(
    ids: Set<u64>,
    dims: Map<Seq<char>, u64>,
    id: u64,
    name: Seq<char>,
    dim: u64,
) -> bool {
    !ids.contains(id) && (dims.contains_key(name) ==> dims[name] == dim)
}

/// Whether a registry takes a series that it is offered: it looks at it,
/// and holds no collector under its number.
pub open spec fn taken(
    ids: Set<u64>,
    collectors: Set<u64>,
    dims: Map<Seq<char>, u64>,
    id: u64,
    name: Seq<char>,
    dim: u64,
) -> bool {
    admitted(ids, dims, id, name, dim) && !collectors.contains(id)
}

/// The shapes that a registry has noted after it was offered a series: the
/// shape of a series that it looked at is noted under the name.
pub open spec fn noted(
    ids: Set<u64>,
    dims: Map<Seq<char>, u64>,
    id: u64,
    name: Seq<char>,
    dim: u64,
) -> Map<Seq<char>, u64> {
    if admitted(ids, dims, id, name, dim) {
        dims.insert(name, dim)
    } else {
        dims
    }
}

impl Filing {
    /// A registry that holds nothing and has noted nothing.
    pub open spec fn empty() -> Filing {
        Filing {
            series: Set::empty(),
            ids: Set::empty(),
            collectors: Set::empty(),
            dims: Map::empty(),
        }
    }

    /// Whether the registry looks at a series at all: it holds no series of
    /// that number, and has noted no other shape for the name.
    pub open spec fn admits(self, s: Series) -> bool {
        admitted(
            self.ids,
            self.dims,
            series_id(s.title.name),
            s.title.name,
            dim_hash(s.title.help, s.labels),
        )
    }

    /// Whether the registry takes a series that it is offered: it admits it,
    /// and holds no collector under its number.
    pub open spec fn takes(self, s: Series) -> bool {
        taken(
            self.ids,
            self.collectors,
            self.dims,
            series_id(s.title.name),
            s.title.name,
            dim_hash(s.title.help, s.labels),
        )
    }

    /// The registry after it was offered a series. A series that it admits
    /// has its shape noted; a series that it takes is held from then on.
    pub open spec fn offered(self, s: Series) -> Filing {
        Filing {
            series: if self.takes(s) {
                self.series.insert(s.title)
            } else {
                self.series
            },
            ids: if self.takes(s) {
                self.ids.insert(series_id(s.title.name))
            } else {
                self.ids
            },
            collectors: if self.takes(s) {
                self.collectors.insert(series_id(s.title.name))
            } else {
                self.collectors
            },
            dims: noted(
                self.ids,
                self.dims,
                series_id(s.title.name),
                s.title.name,
                dim_hash(s.title.help, s.labels),
            ),
        }
    }

    /// Whether the next series of a list is gone on with: where series are
    /// declared one by one (`declare`), it must be one that can be declared.
    pub open spec fn goes_on(s: Series, declare: bool) -> bool {
        declare ==> declarable(s.title, s.labels)
    }

    /// The registry after a list of series was offered to it in order, up
    /// to the first that could not be declared, which is not offered, or
    /// that the registry refused.
    pub open spec fn offered_in_order(self, list: Seq<Series>, declare: bool) -> Filing
        decreases list.len(),
    {
        if list.len() == 0 || !Self::goes_on(list[0], declare) {
            self
        } else if self.takes(list[0]) {
            self.offered(list[0]).offered_in_order(list.drop_first(), declare)
        } else {
            self.offered(list[0])
        }
    }

    /// How many series of a list the registry takes when they are offered
    /// to it in order, up to the first that cannot be declared or that it
    /// refuses.
    pub open spec fn taken_of(self, list: Seq<Series>, declare: bool) -> nat
        decreases list.len(),
    {
        if list.len() == 0 || !Self::goes_on(list[0], declare) || !self.takes(list[0]) {
            0
        } else {
            1 + self.offered(list[0]).taken_of(list.drop_first(), declare)
        }
    }

    /// Whether the registry takes every series of a list when they are
    /// offered to it in order.
    pub open spec fn takes_all(self, list: Seq<Series>, declare: bool) -> bool {
        self.taken_of(list, declare) == list.len()
    }
}

/// No series leaves a registry: it holds what it held before it was offered
/// a list of series, and where it took them all, it holds all of them too.
pub proof fn lemma_offered_in_order(f: Filing, list: Seq<Series>, declare: bool)
    ensures
        f.series.subset_of(f.offered_in_order(list, declare).series),
        f.takes_all(list, declare) ==> f.offered_in_order(list, declare).series == f.series.union(
            Seq::new(list.len(), |i: int| list[i].title).to_set(),
        ),
    decreases list.len(),
{
    let titles = Seq::new(list.len(), |i: int| list[i].title);
    if list.len() == 0 || !Filing::goes_on(list[0], declare) {
        if list.len() == 0 {
            assert(f.series.union(titles.to_set()) =~= f.series);
        }
    } else if f.takes(list[0]) {
        let rest = list.drop_first();
        let rest_titles = Seq::new(rest.len(), |i: int| rest[i].title);
        lemma_offered_in_order(f.offered(list[0]), rest, declare);
        if f.takes_all(list, declare) {
            assert forall|t: Title|
                f.series.insert(list[0].title).union(rest_titles.to_set()).contains(t)
                    <==> f.series.union(titles.to_set()).contains(t) by {
                if rest_titles.contains(t) {
                    let i = choose|i: int| 0 <= i < rest_titles.len() && rest_titles[i] == t;
                    assert(titles[i + 1] == t);
                }
                if t == list[0].title {
                    assert(titles[0] == t);
                }
                if titles.contains(t) {
                    let i = choose|i: int| 0 <= i < titles.len() && titles[i] == t;
                    if i > 0 {
                        assert(rest_titles[i - 1] == t);
                    }
                }
            }
            assert(f.series.insert(list[0].title).union(rest_titles.to_set()) =~= f.series.union(
                titles.to_set(),
            ));
        }
    } else {
    }
}

/// What offering a list of series from a place on comes to: the series at
/// that place is offered, and the rest follows if it was taken.
pub proof fn lemma_offered_next(f: Filing, list: Seq<Series>, i: int, declare: bool)
    requires
        0 <= i < list.len(),
    ensures
        f.offered_in_order(list.skip(i), declare) == (if !Filing::goes_on(list[i], declare) {
            f
        } else if f.takes(list[i]) {
            f.offered(list[i]).offered_in_order(list.skip(i + 1), declare)
        } else {
            f.offered(list[i])
        }),
        f.taken_of(list.skip(i), declare) == (if Filing::goes_on(list[i], declare) && f.takes(
            list[i],
        ) {
            1 + f.offered(list[i]).taken_of(list.skip(i + 1), declare)
        } else {
            0
        }),
{
    assert(list.skip(i)[0] == list[i]);
    assert(list.skip(i).drop_first() =~= list.skip(i + 1));
}

/// Offering one list of series and then another comes to offering the two
/// as one list: the second is offered only if every series of the first
/// was taken.
pub proof fn lemma_offered_both(f: Filing, first: Seq<Series>, second: Seq<Series>, declare: bool)
    ensures
        f.offered_in_order(first + second, declare) == (if f.takes_all(first, declare) {
            f.offered_in_order(first, declare).offered_in_order(second, declare)
        } else {
            f.offered_in_order(first, declare)
        }),
        f.taken_of(first + second, declare) == (if f.takes_all(first, declare) {
            first.len() + f.offered_in_order(first, declare).taken_of(second, declare)
        } else {
            f.taken_of(first, declare)
        }),
        f.taken_of(first, declare) <= first.len(),
    decreases first.len(),
{
    let both = first + second;
    if first.len() == 0 {
        assert(both =~= second);
    } else {
        assert(both[0] == first[0]);
        assert(both.drop_first() =~= first.drop_first() + second);
        if Filing::goes_on(first[0], declare) && f.takes(first[0]) {
            lemma_offered_both(f.offered(first[0]), first.drop_first(), second, declare);
        }
    }
}

/// `Registry::new`: a registry that holds nothing and has noted nothing.
#[verifier::external_body]
fn registry_new() -> (registry: ::prometheus::Registry)
    ensures
        registry_series(registry) == Filing::empty().series,
        registry_ids(registry) == Filing::empty().ids,
        registry_collectors(registry) == Filing::empty().collectors,
        registry_dims(registry) == Filing::empty().dims,
{
    ::prometheus::Registry::new()
}

/// Makes a registry. It holds nothing and has noted nothing.
pub fn new_registry() -> (registry: ::prometheus::Registry)
    ensures
        registry_filing(registry) == Filing::empty(),
{
    registry_new()
}

/// The gauges of a list as a registry sees them.
pub open spec fn gauge_series(gauges: Seq<&Gauge>) -> Seq<Series> {
    Seq::new(gauges.len(), |i: int| gauges[i].series())
}

/// The counters of a list as a registry sees them.
pub open spec fn counter_series(counters: Seq<&Counter>) -> Seq<Series> {
    Seq::new(counters.len(), |i: int| counters[i].series())
}

/// Files gauges in a registry, in their order, and stops at the first that
/// the registry refuses. It succeeds exactly when the registry takes every
/// one of them.
pub fn register_gauges(gauges: &[&Gauge], registry: &mut ::prometheus::Registry) -> (r: Result<
    (),
    MetricError,
>)
    ensures
        r is Ok <==> registry_filing(*old(registry)).takes_all(gauge_series(gauges@), false),
        registry_filing(*final(registry)) == registry_filing(*old(registry)).offered_in_order(
            gauge_series(gauges@),
            false,
        ),
{
    let ghost start = registry_filing(*registry);
    let ghost list = gauge_series(gauges@);
    let mut i: usize = 0;
    assert(list.skip(0) =~= list);
    while i < gauges.len()
        invariant
            i <= gauges.len(),
            list == gauge_series(gauges@),
            start == registry_filing(*old(registry)),
            start.offered_in_order(list, false) == registry_filing(*registry).offered_in_order(
                list.skip(i as int),
                false,
            ),
            start.taken_of(list, false) == i + registry_filing(*registry).taken_of(
                list.skip(i as int),
                false,
            ),
        decreases gauges.len() - i,
    {
        assert(list.skip(i as int)[0] == gauges@[i as int].series());
        assert(list.skip(i as int).drop_first() =~= list.skip(i + 1));
        match gauges[i].register(registry) {
            Ok(()) => {
                i = i + 1;
            },
            Err(e) => {
                return Err(e);
            },
        }
    }
    Ok(())
}

/// Files counters in a registry, in their order, and stops at the first
/// that the registry refuses. It succeeds exactly when the registry takes
/// every one of them.
pub fn register_counters(counters: &[&Counter], registry: &mut ::prometheus::Registry) -> (r:
    Result<(), MetricError>)
    ensures
        r is Ok <==> registry_filing(*old(registry)).takes_all(counter_series(counters@), false),
        registry_filing(*final(registry)) == registry_filing(*old(registry)).offered_in_order(
            counter_series(counters@),
            false,
        ),
{
    let ghost start = registry_filing(*registry);
    let ghost list = counter_series(counters@);
    let mut i: usize = 0;
    assert(list.skip(0) =~= list);
    while i < counters.len()
        invariant
            i <= counters.len(),
            list == counter_series(counters@),
            start == registry_filing(*old(registry)),
            start.offered_in_order(list, false) == registry_filing(*registry).offered_in_order(
                list.skip(i as int),
                false,
            ),
            start.taken_of(list, false) == i + registry_filing(*registry).taken_of(
                list.skip(i as int),
                false,
            ),
        decreases counters.len() - i,
    {
        assert(list.skip(i as int)[0] == counters@[i as int].series());
        assert(list.skip(i as int).drop_first() =~= list.skip(i + 1));
        match counters[i].register(registry) {
            Ok(()) => {
                i = i + 1;
            },
            Err(e) => {
                return Err(e);
            },
        }
    }
    Ok(())
}

// ---------------------------------------------------------------- gauges

/// An integer gauge: one register that can be set to any value. It holds an
/// `IntGauge` of the `prometheus` crate, a generic type that cannot be
/// declared to the verifier, so nothing inside it is seen in proofs.
#[verifier::external_body]
pub struct Gauge {
    inner: ::prometheus::IntGauge,
}

/// What a gauge reads.
pub uninterp spec fn gauge_reading(g: Gauge) -> i64;

/// The name and the help text that a gauge was declared with.
pub uninterp spec fn gauge_title(g: Gauge) -> Title;

/// `IntGauge::new`: fails on an empty help text or a name that is no series
/// name; a new gauge has the name and the help text given, and reads 0.
#[verifier::external_body]
fn gauge_new(name: &str, help: &str) -> (r: Result<Gauge, ::prometheus::Error>)
    ensures
        (r is Ok) == (valid_metric_name(name@) && help@.len() > 0),
        r matches Ok(g) ==> gauge_reading(g) == 0,
        r matches Ok(g) ==> gauge_title(g) == (Title { name: name@, help: help@ }),
{
    match ::prometheus::IntGauge::new(name, help) {
        Ok(inner) => Ok(Gauge { inner }),
        Err(e) => Err(e),
    }
}

/// `IntGauge::set`: the gauge reads the value from now on. The gauge is taken
/// by `&mut`, and no second handle of it is ever written through, so that
/// what it reads is what was last set here.
#[verifier::external_body]
fn gauge_set(g: &mut Gauge, v: i64)
    ensures
        gauge_reading(*final(g)) == v,
        gauge_title(*final(g)) == gauge_title(*old(g)),
{
    g.inner.set(v)
}

/// `IntGauge::get`: what the gauge reads.
#[verifier::external_body]
fn gauge_get(g: &Gauge) -> (v: i64)
    ensures
        v == gauge_reading(*g),
{
    g.inner.get()
}

/// `Registry::register` on a handle of the gauge. The registry refuses it
/// if it holds a series of the same number already, or has noted another
/// shape for the name; then it notes the shape, and refuses still if it
/// holds a collector under the number. Else it holds the gauge from then on.
#[verifier::external_body]
fn gauge_register(g: &Gauge, registry: &mut ::prometheus::Registry) -> (r: Result<
    (),
    ::prometheus::Error,
>)
    ensures
        (r is Ok) == taken(
            registry_ids(*old(registry)),
            registry_collectors(*old(registry)),
            registry_dims(*old(registry)),
            series_id(gauge_title(*g).name),
            gauge_title(*g).name,
            dim_hash(gauge_title(*g).help, Seq::empty()),
        ),
        registry_series(*final(registry)) == (if r is Ok {
            registry_series(*old(registry)).insert(gauge_title(*g))
        } else {
            registry_series(*old(registry))
        }),
        registry_ids(*final(registry)) == (if r is Ok {
            registry_ids(*old(registry)).insert(series_id(gauge_title(*g).name))
        } else {
            registry_ids(*old(registry))
        }),
        registry_collectors(*final(registry)) == (if r is Ok {
            registry_collectors(*old(registry)).insert(series_id(gauge_title(*g).name))
        } else {
            registry_collectors(*old(registry))
        }),
        registry_dims(*final(registry)) == noted(
            registry_ids(*old(registry)),
            registry_dims(*old(registry)),
            series_id(gauge_title(*g).name),
            gauge_title(*g).name,
            dim_hash(gauge_title(*g).help, Seq::empty()),
        ),
{
    registry.register(Box::new(g.inner.clone()))
}

impl View for Gauge {
    type V = i64;

    /// The view of a gauge is what it reads.
    open spec fn view(&self) -> i64 {
        gauge_reading(*self)
    }
}

impl Gauge {
    /// The name and the help text that the gauge was declared with.
    pub open spec fn title(&self) -> Title {
        gauge_title(*self)
    }

    /// The gauge as a registry sees it: a series without labels.
    pub open spec fn series(&self) -> Series {
        Series { title: self.title(), labels: Seq::empty() }
    }

    /// Declares a gauge. It succeeds exactly on a valid name with a help text
    /// that is not empty, and the new gauge reads 0.
    pub fn new(name: &str, help: &str) -> (r: Result<Gauge, MetricError>)
        ensures
            r is Ok <==> valid_metric_name(name@) && help@.len() > 0,
            r matches Ok(g) ==> g@ == 0 && g.title() == (Title { name: name@, help: help@ }),
    {
        match gauge_new(name, help) {
            Ok(g) => Ok(g),
            Err(e) => Err(metric_error(e)),
        }
    }

    /// Declares a gauge whose name and help text are known to be valid.
    pub(crate) fn declared(name: &str, help: &str) -> (g: Gauge)
        requires
            valid_metric_name(name@),
            help@.len() > 0,
        ensures
            g@ == 0,
            g.title() == (Title { name: name@, help: help@ }),
    {
        match gauge_new(name, help) {
            Ok(g) => g,
            Err(_) => vstd::pervasive::unreached(),
        }
    }

    /// Files the gauge in a registry, for exposition. It succeeds exactly
    /// when the registry takes it: when it holds no series or collector of
    /// the same number, and has noted no other shape for the name.
    pub fn register(&self, registry: &mut ::prometheus::Registry) -> (r: Result<(), MetricError>)
        ensures
            r is Ok <==> registry_filing(*old(registry)).takes(self.series()),
            registry_filing(*final(registry)) == registry_filing(*old(registry)).offered(
                self.series(),
            ),
    {
        match gauge_register(self, registry) {
            Ok(()) => Ok(()),
            Err(e) => Err(metric_error(e)),
        }
    }

    /// Sets the gauge to a value.
    pub fn set(&mut self, v: i64)
        ensures
            final(self)@ == v,
            final(self).title() == old(self).title(),
    {
        gauge_set(self, v)
    }

    /// What the gauge reads.
    pub fn get(&self) -> (v: i64)
        ensures
            v == self@,
    {
        gauge_get(self)
    }
}

// -------------------------------------------------------------- counters

/// An integer counter: one register that only goes up. It holds an
/// `IntCounter` of the `prometheus` crate, hidden from proofs as a gauge is.
#[verifier::external_body]
pub struct Counter {
    inner: ::prometheus::IntCounter,
}

/// What a counter reads.
pub uninterp spec fn counter_reading(c: Counter) -> u64;

/// The name and the help text that a counter was declared with.
pub uninterp spec fn counter_title(c: Counter) -> Title;

/// `IntCounter::new`: fails on an empty help text or a name that is no series
/// name; a new counter has the name and the help text given, and reads 0.
#[verifier::external_body]
fn counter_new(name: &str, help: &str) -> (r: Result<Counter, ::prometheus::Error>)
    ensures
        (r is Ok) == (valid_metric_name(name@) && help@.len() > 0),
        r matches Ok(c) ==> counter_reading(c) == 0,
        r matches Ok(c) ==> counter_title(c) == (Title { name: name@, help: help@ }),
{
    match ::prometheus::IntCounter::new(name, help) {
        Ok(inner) => Ok(Counter { inner }),
        Err(e) => Err(e),
    }
}

/// `IntCounter::inc`: an atomic add of 1 to a 64-bit register, which wraps
/// to 0 past the largest value.
#[verifier::external_body]
fn counter_inc(c: &mut Counter)
    ensures
        counter_reading(*final(c)) == (if counter_reading(*old(c)) == u64::MAX {
            0
        } else {
            counter_reading(*old(c)) + 1
        }),
        counter_title(*final(c)) == counter_title(*old(c)),
{
    c.inner.inc()
}

/// `IntCounter::get`: what the counter reads.
#[verifier::external_body]
fn counter_get(c: &Counter) -> (v: u64)
    ensures
        v == counter_reading(*c),
{
    c.inner.get()
}

/// `Registry::register` on a handle of the counter. The registry refuses it
/// if it holds a series of the same number already, or has noted another
/// shape for the name; then it notes the shape, and refuses still if it
/// holds a collector under the number. Else it holds the counter from then on.
#[verifier::external_body]
fn counter_register(c: &Counter, registry: &mut ::prometheus::Registry) -> (r: Result<
    (),
    ::prometheus::Error,
>)
    ensures
        (r is Ok) == taken(
            registry_ids(*old(registry)),
            registry_collectors(*old(registry)),
            registry_dims(*old(registry)),
            series_id(counter_title(*c).name),
            counter_title(*c).name,
            dim_hash(counter_title(*c).help, Seq::empty()),
        ),
        registry_series(*final(registry)) == (if r is Ok {
            registry_series(*old(registry)).insert(counter_title(*c))
        } else {
            registry_series(*old(registry))
        }),
        registry_ids(*final(registry)) == (if r is Ok {
            registry_ids(*old(registry)).insert(series_id(counter_title(*c).name))
        } else {
            registry_ids(*old(registry))
        }),
        registry_collectors(*final(registry)) == (if r is Ok {
            registry_collectors(*old(registry)).insert(series_id(counter_title(*c).name))
        } else {
            registry_collectors(*old(registry))
        }),
        registry_dims(*final(registry)) == noted(
            registry_ids(*old(registry)),
            registry_dims(*old(registry)),
            series_id(counter_title(*c).name),
            counter_title(*c).name,
            dim_hash(counter_title(*c).help, Seq::empty()),
        ),
{
    registry.register(Box::new(c.inner.clone()))
}

impl View for Counter {
    type V = u64;

    /// The view of a counter is what it reads.
    open spec fn view(&self) -> u64 {
        counter_reading(*self)
    }
}

/// A counter's reading after one more occurrence.
pub open spec fn one_more(n: u64) -> u64 {
    if n == u64::MAX {
        0
    } else {
        (n + 1) as u64
    }
}

impl Counter {
    /// The name and the help text that the counter was declared with.
    pub open spec fn title(&self) -> Title {
        counter_title(*self)
    }

    /// The counter as a registry sees it: a series without labels.
    pub open spec fn series(&self) -> Series {
        Series { title: self.title(), labels: Seq::empty() }
    }

    /// Declares a counter. It succeeds exactly on a valid name with a help
    /// text that is not empty, and the new counter reads 0.
    pub fn new(name: &str, help: &str) -> (r: Result<Counter, MetricError>)
        ensures
            r is Ok <==> valid_metric_name(name@) && help@.len() > 0,
            r matches Ok(c) ==> c@ == 0 && c.title() == (Title { name: name@, help: help@ }),
    {
        match counter_new(name, help) {
            Ok(c) => Ok(c),
            Err(e) => Err(metric_error(e)),
        }
    }

    /// Declares a counter whose name and help text are known to be valid.
    pub(crate) fn declared(name: &str, help: &str) -> (c: Counter)
        requires
            valid_metric_name(name@),
            help@.len() > 0,
        ensures
            c@ == 0,
            c.title() == (Title { name: name@, help: help@ }),
    {
        match counter_new(name, help) {
            Ok(c) => c,
            Err(_) => vstd::pervasive::unreached(),
        }
    }

    /// Files the counter in a registry, for exposition. It succeeds exactly
    /// when the registry takes it: when it holds no series or collector of
    /// the same number, and has noted no other shape for the name.
    pub fn register(&self, registry: &mut ::prometheus::Registry) -> (r: Result<(), MetricError>)
        ensures
            r is Ok <==> registry_filing(*old(registry)).takes(self.series()),
            registry_filing(*final(registry)) == registry_filing(*old(registry)).offered(
                self.series(),
            ),
    {
        match counter_register(self, registry) {
            Ok(()) => Ok(()),
            Err(e) => Err(metric_error(e)),
        }
    }

    /// Counts one occurrence.
    pub fn inc(&mut self)
        ensures
            final(self)@ == one_more(old(self)@),
            final(self).title() == old(self).title(),
    {
        counter_inc(self)
    }

    /// What the counter reads.
    pub fn get(&self) -> (v: u64)
        ensures
            v == self@,
    {
        counter_get(self)
    }
}

// ------------------------------------------------------- keyed families

/// A family of integer gauges under one name, one gauge for each tuple of
/// label values seen so far. It holds an `IntGaugeVec` of the `prometheus`
/// crate, hidden from proofs as a gauge is.
#[verifier::external_body]
pub struct GaugeFamily {
    inner: ::prometheus::IntGaugeVec,
}

/// The key under which a family files a tuple of label values: the 64-bit
/// FNV-1a hash of the values' bytes, one value after the other with nothing
/// between them. Tuples with the same key share one gauge.
pub uninterp spec fn label_hash(values: Seq<Seq<char>>) -> u64;

/// The gauges of a family, each under the key of its label values, with what
/// it reads.
pub uninterp spec fn family_readings(f: GaugeFamily) -> Map<u64, i64>;

/// The number of label names that a family was declared with.
pub uninterp spec fn family_arity(f: GaugeFamily) -> nat;

/// The name and the help text that a family was declared with.
pub uninterp spec fn family_title(f: GaugeFamily) -> Title;

/// The label names that a family was declared with, in their order.
pub uninterp spec fn family_labels(f: GaugeFamily) -> Seq<Seq<char>>;

/// `IntGaugeVec::new` with `Opts::new`: fails on an empty help text, a name
/// that is no series name, a label that is no label name, or a label given
/// twice; a new family has no gauge yet.
#[verifier::external_body]
fn family_new(name: &str, help: &str, label_names: &[&str]) -> (r: Result<
    GaugeFamily,
    ::prometheus::Error,
>)
    ensures
        (r is Ok) == (valid_metric_name(name@) && help@.len() > 0 && valid_label_names(
            label_texts(label_names@),
        )),
        r matches Ok(f) ==> family_readings(f) == no_readings(),
        r matches Ok(f) ==> family_arity(f) == label_names@.len(),
        r matches Ok(f) ==> family_title(f) == (Title { name: name@, help: help@ }),
        r matches Ok(f) ==> family_labels(f) == label_texts(label_names@),
{
    match ::prometheus::IntGaugeVec::new(::prometheus::Opts::new(name, help), label_names) {
        Ok(inner) => Ok(GaugeFamily { inner }),
        Err(e) => Err(e),
    }
}

/// `IntGaugeVec::get_metric_with_label_values`, then `IntGauge::set` on the
/// gauge it hands out: fails when the number of values is not that of the
/// family's label names, and changes nothing then; else the gauge under the
/// values' key, made if there was none, reads the value from now on.
#[verifier::external_body]
fn family_set(f: &mut GaugeFamily, values: &[&str], v: i64) -> (r: Result<(), ::prometheus::Error>)
    ensures
        (r is Ok) == (values@.len() == family_arity(*old(f))),
        family_arity(*final(f)) == family_arity(*old(f)),
        family_title(*final(f)) == family_title(*old(f)),
        family_labels(*final(f)) == family_labels(*old(f)),
        family_readings(*final(f)) == (if r is Ok {
            family_readings(*old(f)).insert(label_hash(label_texts(values@)), v)
        } else {
            family_readings(*old(f))
        }),
{
    match f.inner.get_metric_with_label_values(values) {
        Ok(g) => Ok(g.set(v)),
        Err(e) => Err(e),
    }
}

/// `IntGaugeVec::get_metric_with_label_values`, then `IntGauge::get` on the
/// gauge it hands out: fails when the number of values is not that of the
/// family's label names, and changes nothing then; else a gauge that was not
/// there is made, reading 0, and the call gives what the gauge reads.
#[verifier::external_body]
fn family_get(f: &mut GaugeFamily, values: &[&str]) -> (r: Result<i64, ::prometheus::Error>)
    ensures
        (r is Ok) == (values@.len() == family_arity(*old(f))),
        family_arity(*final(f)) == family_arity(*old(f)),
        family_title(*final(f)) == family_title(*old(f)),
        family_labels(*final(f)) == family_labels(*old(f)),
        r matches Ok(v) ==> v == reading_or_zero(
            family_readings(*old(f)),
            label_hash(label_texts(values@)),
        ) && family_readings(*final(f)) == family_readings(*old(f)).insert(
            label_hash(label_texts(values@)),
            v,
        ),
        r is Err ==> family_readings(*final(f)) == family_readings(*old(f)),
{
    match f.inner.get_metric_with_label_values(values) {
        Ok(g) => Ok(g.get()),
        Err(e) => Err(e),
    }
}

/// `Registry::register` on a handle of the family. The registry refuses it
/// if it holds a series of the same number already, or has noted another
/// shape for the name; then it notes the shape, and refuses still if it
/// holds a collector under the number. Else it holds the family from then on.
#[verifier::external_body]
fn family_register(f: &GaugeFamily, registry: &mut ::prometheus::Registry) -> (r: Result<
    (),
    ::prometheus::Error,
>)
    ensures
        (r is Ok) == taken(
            registry_ids(*old(registry)),
            registry_collectors(*old(registry)),
            registry_dims(*old(registry)),
            series_id(family_title(*f).name),
            family_title(*f).name,
            dim_hash(family_title(*f).help, family_labels(*f)),
        ),
        registry_series(*final(registry)) == (if r is Ok {
            registry_series(*old(registry)).insert(family_title(*f))
        } else {
            registry_series(*old(registry))
        }),
        registry_ids(*final(registry)) == (if r is Ok {
            registry_ids(*old(registry)).insert(series_id(family_title(*f).name))
        } else {
            registry_ids(*old(registry))
        }),
        registry_collectors(*final(registry)) == (if r is Ok {
            registry_collectors(*old(registry)).insert(series_id(family_title(*f).name))
        } else {
            registry_collectors(*old(registry))
        }),
        registry_dims(*final(registry)) == noted(
            registry_ids(*old(registry)),
            registry_dims(*old(registry)),
            series_id(family_title(*f).name),
            family_title(*f).name,
            dim_hash(family_title(*f).help, family_labels(*f)),
        ),
{
    registry.register(Box::new(f.inner.clone()))
}

/// The readings of a family without a gauge.
pub open spec fn no_readings() -> Map<u64, i64> {
    Map::empty()
}

/// The readings of a family after a value, or none, was offered under a key:
/// a value is what the key's gauge reads from then on, and every other
/// gauge, and every gauge where there is no value, stays as it was.
pub open spec fn offered_under(readings: Map<u64, i64>, key: u64, value: Option<i64>) -> Map<
    u64,
    i64,
> {
    match value {
        Some(v) => readings.insert(key, v),
        None => readings,
    }
}

/// A gauge that was written under one key still reads what was written
/// after anything was offered under another key, and after nothing was
/// offered under its own.
pub proof fn other_key_keeps_reading(
    readings: Map<u64, i64>,
    key: u64,
    value: i64,
    later_key: u64,
    later: Option<i64>,
)
    requires
        later_key != key || later is None,
    ensures
        offered_under(offered_under(readings, key, Some(value)), later_key, later).contains_key(
            key,
        ),
        offered_under(offered_under(readings, key, Some(value)), later_key, later)[key] == value,
{
}

/// What is read under a key: the gauge's reading, or 0 where no gauge is.
pub open spec fn reading_or_zero(readings: Map<u64, i64>, key: u64) -> i64 {
    if readings.contains_key(key) {
        readings[key]
    } else {
        0
    }
}

impl GaugeFamily {
    /// The gauges of the family by the key of their label values.
    pub open spec fn readings(&self) -> Map<u64, i64> {
        family_readings(*self)
    }

    /// The number of label names, fixed when the family was declared.
    pub open spec fn arity(&self) -> nat {
        family_arity(*self)
    }

    /// The name and the help text that the family was declared with.
    pub open spec fn title(&self) -> Title {
        family_title(*self)
    }

    /// The label names that the family was declared with, in their order.
    pub open spec fn labels(&self) -> Seq<Seq<char>> {
        family_labels(*self)
    }

    /// The family as a registry sees it.
    pub open spec fn series(&self) -> Series {
        Series { title: self.title(), labels: self.labels() }
    }

    /// Declares a family with its ordered label names. It succeeds exactly on
    /// a valid name, a help text that is not empty and valid, distinct label
    /// names; the new family holds no gauge.
    pub fn new(name: &str, help: &str, label_names: &[&str]) -> (r: Result<
        GaugeFamily,
        MetricError,
    >)
        ensures
            r is Ok <==> valid_metric_name(name@) && help@.len() > 0 && valid_label_names(
                label_texts(label_names@),
            ),
            r matches Ok(f) ==> f.readings() == no_readings() && f.arity() == label_names@.len()
                && f.title() == (Title { name: name@, help: help@ }) && f.labels() == label_texts(
                label_names@,
            ),
    {
        match family_new(name, help, label_names) {
            Ok(f) => Ok(f),
            Err(e) => Err(metric_error(e)),
        }
    }

    /// Files the family in a registry, for exposition. It succeeds exactly
    /// when the registry takes it: when it holds no series or collector of
    /// the same number, and has noted no other shape for the name.
    pub fn register(&self, registry: &mut ::prometheus::Registry) -> (r: Result<(), MetricError>)
        ensures
            r is Ok <==> registry_filing(*old(registry)).takes(self.series()),
            registry_filing(*final(registry)) == registry_filing(*old(registry)).offered(
                self.series(),
            ),
    {
        match family_register(self, registry) {
            Ok(()) => Ok(()),
            Err(e) => Err(metric_error(e)),
        }
    }

    /// Writes a value to the gauge of a tuple of label values if there is a
    /// value: the first write for a tuple makes its gauge, a later one
    /// overwrites it, and no other gauge changes. Without a value nothing
    /// changes. It fails, changing nothing, exactly when there is a value and
    /// the number of label values is not the family's.
    pub fn set_if_present(&mut self, key_values: &[&str], value: Option<i64>) -> (r: Result<
        (),
        MetricError,
    >)
        ensures
            r is Ok <==> value is None || key_values@.len() == old(self).arity(),
            final(self).arity() == old(self).arity(),
            final(self).title() == old(self).title(),
            final(self).labels() == old(self).labels(),
            final(self).readings() == (if r is Ok {
                offered_under(old(self).readings(), label_hash(label_texts(key_values@)), value)
            } else {
                old(self).readings()
            }),
    {
        match value {
            Some(v) => match family_set(self, key_values, v) {
                Ok(()) => Ok(()),
                Err(e) => Err(metric_error(e)),
            },
            None => Ok(()),
        }
    }

    /// What the gauge of a tuple of label values reads. A tuple that was not
    /// written yet gets a gauge that reads 0. `None` exactly when the number
    /// of label values is not the family's.
    pub fn get(&mut self, key_values: &[&str]) -> (r: Option<i64>)
        ensures
            r is Some <==> key_values@.len() == old(self).arity(),
            final(self).arity() == old(self).arity(),
            final(self).title() == old(self).title(),
            final(self).labels() == old(self).labels(),
            r matches Some(v) ==> v == reading_or_zero(
                old(self).readings(),
                label_hash(label_texts(key_values@)),
            ) && final(self).readings() == old(self).readings().insert(
                label_hash(label_texts(key_values@)),
                v,
            ),
            r is None ==> final(self).readings() == old(self).readings(),
    {
        match family_get(self, key_values) {
            Ok(v) => Some(v),
            Err(_) => None,
        }
    }
}

// ------------------------------------------------- the set-if-present rule

/// Several series declared together for one kind of status subtree, in the
/// order in which that kind declares them: `names[i]` is the name of
/// `metrics[i]`, and no name occurs twice.
pub struct MetricGroup<T> {
    pub names: Vec<String>,
    pub metrics: Vec<T>,
}

impl<T> MetricGroup<T> {
    /// Whether there is one name for each series, and no name twice.
    pub open spec fn well_formed(self) -> bool {
        &&& self.names@.len() == self.metrics@.len()
        &&& forall|i: int, j: int|
            0 <= i < j < self.names@.len() ==> self.names@[i]@ != self.names@[j]@
    }
}

impl MetricGroup<GaugeFamily> {
    /// Whether each name is the name that its family was declared with.
    pub open spec fn well_named(self) -> bool {
        forall|i: int|
            0 <= i < self.metrics@.len() && i < self.names@.len() ==> (
            #[trigger] self.metrics@[i]).title().name == self.names@[i]@
    }
}

/// A kind of status subtree that declares a whole group of series at once
/// and writes to all of them under one tuple of label values.
pub trait StaticMetric<T>: Sized {
    /// Whether a group is one that `register` gives for that many label
    /// names.
    spec fn registered(group: MetricGroup<T>, label_count: nat) -> bool;

    /// Whether a group is as `register` makes it under a prefix: its series
    /// named after the prefix, and nothing written to them yet.
    spec fn fresh(group: MetricGroup<T>, prefix: Seq<char>) -> bool;

    /// The series that `register` declares and files, in their order.
    spec fn series(prefix: Seq<char>, desc: Seq<char>, label_names: Seq<Seq<char>>) -> Seq<
        Series,
    >;

    /// How `set` with these label values leaves a group.
    spec fn written(
        &self,
        before: MetricGroup<T>,
        labels: Seq<Seq<char>>,
        after: MetricGroup<T>,
    ) -> bool;

    /// Declares the series of the group one by one, each named by the
    /// prefix and its own suffix, and files each in the registry. It stops
    /// at the first that cannot be declared, which is not offered to the
    /// registry, or that the registry refuses. It succeeds exactly when
    /// every series can be declared and the registry takes each in its
    /// turn.
    fn register(
        registry: &mut ::prometheus::Registry,
        prefix: &str,
        desc: &str,
        label_names: &[&str],
    ) -> (r: Result<MetricGroup<T>, MetricError>)
        ensures
            r is Ok <==> registry_filing(*old(registry)).takes_all(
                Self::series(prefix@, desc@, label_texts(label_names@)),
                true,
            ),
            registry_filing(*final(registry)) == registry_filing(*old(registry)).offered_in_order(
                Self::series(prefix@, desc@, label_texts(label_names@)),
                true,
            ),
            r matches Ok(group) ==> Self::registered(group, label_names@.len()) && Self::fresh(
                group,
                prefix@,
            ),
    ;

    /// Writes the values of the subtree to the series of the group.
    fn set(&self, metric: &mut MetricGroup<T>, labels: &[&str])
        requires
            Self::registered(*old(metric), labels@.len()),
        ensures
            Self::registered(*final(metric), labels@.len()),
            self.written(*old(metric), label_texts(labels@), *final(metric)),
    ;
}

/// An optional subtree offered to a group of series.
pub trait AndSet<T> {
    /// Whether the group can take the subtree under that many label values.
    spec fn accepts(&self, group: MetricGroup<T>, label_count: nat) -> bool;

    /// How offering the subtree under these label values leaves a group.
    spec fn leaves(
        &self,
        before: MetricGroup<T>,
        labels: Seq<Seq<char>>,
        after: MetricGroup<T>,
    ) -> bool;

    /// Writes the subtree, if it is present, to a group without labels.
    fn and_set(&self, metric: &mut MetricGroup<T>)
        requires
            self.accepts(*old(metric), 0),
        ensures
            self.accepts(*final(metric), 0),
            self.leaves(*old(metric), Seq::empty(), *final(metric)),
    ;

    /// Writes the subtree, if it is present, to a group under the given
    /// label values.
    fn and_set_with_labels(&self, metric: &mut MetricGroup<T>, labels: &[&str])
        requires
            self.accepts(*old(metric), labels@.len()),
        ensures
            self.accepts(*final(metric), labels@.len()),
            self.leaves(*old(metric), label_texts(labels@), *final(metric)),
    ;
}

/// An optional value offered to one metric.
pub trait AndSetSingle<T> {
    /// How offering the value leaves the metric.
    spec fn leaves(&self, before: T, after: T) -> bool;

    /// Writes the value, if it is present, to the metric.
    fn and_set(&self, metric: &mut T)
        ensures
            self.leaves(*old(metric), *final(metric)),
    ;
}

impl AndSetSingle<Gauge> for Option<i64> {
    /// A present value is what the gauge reads afterwards, under the same
    /// name; an absent one leaves the gauge as it was.
    open spec fn leaves(&self, before: Gauge, after: Gauge) -> bool {
        match self {
            Some(item) => after@ == *item && after.title() == before.title(),
            None => after == before,
        }
    }

    fn and_set(&self, metric: &mut Gauge) {
        if let Some(item) = self {
            metric.set(*item);
        }
    }
}

impl<M, T> AndSet<T> for Option<M> where M: StaticMetric<T> {
    /// An absent subtree asks nothing of the group.
    open spec fn accepts(&self, group: MetricGroup<T>, label_count: nat) -> bool {
        self is Some ==> M::registered(group, label_count)
    }

    /// A present subtree is written; an absent one leaves the group as it
    /// was.
    open spec fn leaves(
        &self,
        before: MetricGroup<T>,
        labels: Seq<Seq<char>>,
        after: MetricGroup<T>,
    ) -> bool {
        match self {
            Some(v) => v.written(before, labels, after),
            None => after == before,
        }
    }

    fn and_set(&self, metric: &mut MetricGroup<T>) {
        let labels: Vec<&str> = Vec::new();
        assert(label_texts(labels@) == Seq::<Seq<char>>::empty());
        self.and_set_with_labels(metric, labels.as_slice());
    }

    fn and_set_with_labels(&self, metric: &mut MetricGroup<T>, labels: &[&str]) {
        if let Some(v) = self {
            v.set(metric, labels);
        }
    }
}

} // verus!
