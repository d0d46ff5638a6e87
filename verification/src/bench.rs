//! Benchmarks: arguments, workload accounting and metrics.

use vstd::prelude::*;

verus! {

/// Bytes that a record's frame adds to its payload.
pub const RECORD_FRAME_BYTES: usize = 4;

/// Longest latency that a histogram takes, in microseconds.
pub const MAX_SAMPLE_US: u64 = 599_000_000;

/// A product that stays at the greatest number where it does not fit.
pub open spec fn saturated(product: int) -> int {
    if product > usize::MAX {
        usize::MAX as int
    } else {
        product
    }
}

/// A product that stays at the greatest number where it does not fit.
pub fn saturating_product(a: usize, b: usize) -> (product: usize)
    ensures
        product == saturated(a * b),
{
    match a.checked_mul(b) {
        Some(product) => product,
        None => usize::MAX,
    }
}

/// The larger of two numbers.
pub fn larger(a: usize, b: usize) -> (most: usize)
    ensures
        most == if a >= b {
            a
        } else {
            b
        },
{
    if a >= b {
        a
    } else {
        b
    }
}

/// A latency as a histogram takes it: at least one microsecond, taken as 64
/// bits, and at most the longest one.
pub open spec fn sample(micros: int) -> int {
    let wide = (if micros < 1 {
        1
    } else {
        micros
    }) % 0x1_0000_0000_0000_0000;
    if wide > MAX_SAMPLE_US {
        MAX_SAMPLE_US as int
    } else {
        wide
    }
}

/// A latency as a histogram takes it.
pub fn sample_us(micros: u128) -> (sampled: u64)
    ensures
        sampled == sample(micros as int),
{
    let positive: u128 = if micros < 1 {
        1
    } else {
        micros
    };
    let wide: u64 = (positive % 0x1_0000_0000_0000_0000u128) as u64;
    if wide > MAX_SAMPLE_US {
        MAX_SAMPLE_US
    } else {
        wide
    }
}

/// Values known by name.
pub struct Named<T> {
    /// The names with their values; no name occurs twice.
    pub entries: Vec<(String, T)>,
}

impl<T: Copy> Named<T> {
    /// No name occurs twice.
    pub open spec fn wf(self) -> bool {
        forall|i: int, j: int|
            0 <= i < j < self.entries@.len() ==> (#[trigger] self.entries@[i]).0@ != (
            #[trigger] self.entries@[j]).0@
    }

    /// The values by their names.
    pub open spec fn values(self) -> Map<Seq<char>, T> {
        Map::new(
            |name: Seq<char>|
                exists|i: int|
                    0 <= i < self.entries@.len() && (#[trigger] self.entries@[i]).0@ == name,
            |name: Seq<char>|
                self.entries@[choose|i: int|
                    0 <= i < self.entries@.len() && (#[trigger] self.entries@[i]).0@ == name].1,
        )
    }

    /// No names.
    pub fn new() -> (named: Self)
        ensures
            named.wf(),
            named.values() == Map::<Seq<char>, T>::empty(),
    {
        let named = Named { entries: Vec::new() };
        proof {
            assert(named.values() =~= Map::<Seq<char>, T>::empty());
        }
        named
    }

    proof fn lemma_at(self, i: int)
        requires
            self.wf(),
            0 <= i < self.entries@.len(),
        ensures
            self.values().contains_key(self.entries@[i].0@),
            self.values()[self.entries@[i].0@] == self.entries@[i].1,
    {
        let name = self.entries@[i].0@;
        let j = choose|j: int|
            0 <= j < self.entries@.len() && (#[trigger] self.entries@[j]).0@ == name;
        assert(self.entries@[i].0@ == name);
        assert(self.entries@[j].0@ == name);
        if i < j {
            assert(self.entries@[i].0@ != self.entries@[j].0@);
        } else if j < i {
            assert(self.entries@[j].0@ != self.entries@[i].0@);
        }
    }

    fn find(&self, name: &String) -> (index: Option<usize>)
        ensures
            match index {
                Some(i) => i < self.entries@.len() && self.entries@[i as int].0@ == name@,
                None => forall|i: int|
                    0 <= i < self.entries@.len() ==> (#[trigger] self.entries@[i]).0@ != name@,
            },
    {
        let mut i: usize = 0;
        while i < self.entries.len()
            invariant
                i <= self.entries@.len(),
                forall|j: int| 0 <= j < i ==> (#[trigger] self.entries@[j]).0@ != name@,
            decreases self.entries@.len() - i,
        {
            if self.entries[i].0 == *name {
                return Some(i);
            }
            i = i + 1;
        }
        None
    }

    /// The value of a name.
    pub fn get(&self, name: &String) -> (value: Option<T>)
        requires
            self.wf(),
        ensures
            value == if self.values().contains_key(name@) {
                Some(self.values()[name@])
            } else {
                None
            },
    {
        match self.find(name) {
            Some(i) => {
                proof {
                    self.lemma_at(i as int);
                }
                Some(self.entries[i].1)
            },
            None => None,
        }
    }

    /// Gives a name a value.
    pub fn put(&mut self, name: &String, value: T)
        requires
            old(self).wf(),
        ensures
            final(self).wf(),
            final(self).values() == old(self).values().insert(name@, value),
    {
        let at: usize = match self.find(name) {
            Some(i) => {
                let kept: String = name.clone();
                self.entries.set(i, (kept, value));
                i
            },
            None => {
                let end: usize = self.entries.len();
                let added: String = name.clone();
                self.entries.push((added, value));
                end
            },
        };
        proof {
            let before = *old(self);
            let after = *self;
            assert(after.entries@[at as int].0@ == name@);
            assert(after.wf());
            assert forall|other: Seq<char>| after.values().contains_key(other) == before.values().insert(name@, value).contains_key(other) by {
                if before.values().contains_key(other) {
                    let i = choose|i: int|
                        0 <= i < before.entries@.len() && (#[trigger] before.entries@[i]).0@
                            == other;
                    assert(after.entries@[i].0@ == other);
                }
                if other == name@ {
                    assert(after.entries@[at as int].0@ == other);
                }
                if after.values().contains_key(other) && other != name@ {
                    let i = choose|i: int|
                        0 <= i < after.entries@.len() && (#[trigger] after.entries@[i]).0@ == other;
                    assert(i < before.entries@.len());
                    assert(before.entries@[i].0@ == other);
                }
            }
            assert forall|other: Seq<char>| after.values().contains_key(other) implies #[trigger] after.values()[other] == before.values().insert(name@, value)[other] by {
                let i = choose|i: int|
                    0 <= i < after.entries@.len() && (#[trigger] after.entries@[i]).0@ == other;
                after.lemma_at(i);
                if other != name@ {
                    assert(before.entries@[i].0@ == other);
                    before.lemma_at(i);
                } else {
                    after.lemma_at(at as int);
                }
            }
            assert(after.values() =~= before.values().insert(name@, value));
        }
    }
}

/// Metrics that a benchmark collects.
pub struct BenchMetrics {
    /// Counters.
    pub counters: Named<u64>,
    /// Gauges.
    pub gauges: Named<i64>,
    /// Number of values recorded into each histogram.
    pub histogram_samples: Named<u64>,
}

/// The value of a counter that may not be registered.
pub open spec fn counted(values: Map<Seq<char>, u64>, name: Seq<char>) -> u64 {
    if values.contains_key(name) {
        values[name]
    } else {
        0
    }
}

impl BenchMetrics {
    /// No metric's name occurs twice.
    pub open spec fn wf(self) -> bool {
        &&& self.counters.wf()
        &&& self.gauges.wf()
        &&& self.histogram_samples.wf()
    }

    /// No metrics.
    pub fn new() -> (metrics: Self)
        ensures
            metrics.wf(),
            metrics.counters.values() == Map::<Seq<char>, u64>::empty(),
            metrics.gauges.values() == Map::<Seq<char>, i64>::empty(),
            metrics.histogram_samples.values() == Map::<Seq<char>, u64>::empty(),
    {
        BenchMetrics {
            counters: Named::new(),
            gauges: Named::new(),
            histogram_samples: Named::new(),
        }
    }

    /// The value of a counter; zero if it is not registered.
    pub fn counter(&self, name: &String) -> (value: u64)
        requires
            self.wf(),
        ensures
            value == counted(self.counters.values(), name@),
    {
        match self.counters.get(name) {
            Some(value) => value,
            None => 0,
        }
    }

    /// The value of a gauge, if it is registered.
    pub fn gauge(&self, name: &String) -> (value: Option<i64>)
        requires
            self.wf(),
        ensures
            value == if self.gauges.values().contains_key(name@) {
                Some(self.gauges.values()[name@])
            } else {
                None
            },
    {
        self.gauges.get(name)
    }

    /// Number of values recorded into a histogram; zero if it is not
    /// registered.
    pub fn histogram_samples(&self, name: &String) -> (samples: u64)
        requires
            self.wf(),
        ensures
            samples == counted(self.histogram_samples.values(), name@),
    {
        match self.histogram_samples.get(name) {
            Some(samples) => samples,
            None => 0,
        }
    }

    /// Segments sealed so far. Every rotation seals the segment it rotates away
    /// from, so a nonzero count means the active segment moved.
    pub fn seal_count(&self) -> (sealed: u64)
        requires
            self.wf(),
        ensures
            sealed == counted(
                self.histogram_samples.values(),
                "chorus.wal.seal.duration_seconds"@,
            ),
    {
        let name: String = "chorus.wal.seal.duration_seconds".to_owned();
        self.histogram_samples(&name)
    }

    /// Registers a counter. One that is registered keeps its value.
    pub fn register_counter(&mut self, name: &String)
        requires
            old(self).wf(),
        ensures
            final(self).wf(),
            final(self).counters.values() == old(self).counters.values().insert(
                name@,
                counted(old(self).counters.values(), name@),
            ),
            final(self).gauges == old(self).gauges,
            final(self).histogram_samples == old(self).histogram_samples,
    {
        let value: u64 = self.counter(name);
        self.counters.put(name, value);
    }

    /// Adds to a counter, which wraps around.
    pub fn increment(&mut self, name: &String, value: u64)
        requires
            old(self).wf(),
        ensures
            final(self).wf(),
            final(self).counters.values() == old(self).counters.values().insert(
                name@,
                ((counted(old(self).counters.values(), name@) + value)
                    % 0x1_0000_0000_0000_0000) as u64,
            ),
            final(self).gauges == old(self).gauges,
            final(self).histogram_samples == old(self).histogram_samples,
    {
        let before: u64 = self.counter(name);
        let after: u64 = before.wrapping_add(value);
        self.counters.put(name, after);
    }

    /// Registers a gauge. One that is registered keeps its value.
    pub fn register_gauge(&mut self, name: &String)
        requires
            old(self).wf(),
        ensures
            final(self).wf(),
            final(self).gauges.values() == if old(self).gauges.values().contains_key(name@) {
                old(self).gauges.values()
            } else {
                old(self).gauges.values().insert(name@, 0)
            },
            final(self).counters == old(self).counters,
            final(self).histogram_samples == old(self).histogram_samples,
    {
        if self.gauges.get(name).is_none() {
            self.gauges.put(name, 0);
        }
    }

    /// Sets a gauge.
    pub fn set_gauge(&mut self, name: &String, value: i64)
        requires
            old(self).wf(),
        ensures
            final(self).wf(),
            final(self).gauges.values() == old(self).gauges.values().insert(name@, value),
            final(self).counters == old(self).counters,
            final(self).histogram_samples == old(self).histogram_samples,
    {
        self.gauges.put(name, value);
    }

    /// Registers a histogram. One that is registered keeps its samples.
    pub fn register_histogram(&mut self, name: &String)
        requires
            old(self).wf(),
        ensures
            final(self).wf(),
            final(self).histogram_samples.values() == old(self).histogram_samples.values().insert(
                name@,
                counted(old(self).histogram_samples.values(), name@),
            ),
            final(self).counters == old(self).counters,
            final(self).gauges == old(self).gauges,
    {
        let samples: u64 = self.histogram_samples(name);
        self.histogram_samples.put(name, samples);
    }

    /// Counts one value recorded into a histogram.
    pub fn record(&mut self, name: &String)
        requires
            old(self).wf(),
        ensures
            final(self).wf(),
            final(self).histogram_samples.values() == old(self).histogram_samples.values().insert(
                name@,
                ((counted(old(self).histogram_samples.values(), name@) + 1)
                    % 0x1_0000_0000_0000_0000) as u64,
            ),
            final(self).counters == old(self).counters,
            final(self).gauges == old(self).gauges,
    {
        let before: u64 = self.histogram_samples(name);
        let after: u64 = before.wrapping_add(1);
        self.histogram_samples.put(name, after);
    }
}

/// Products and the larger of two numbers are what they say, up to the greatest
/// number.
pub proof fn law_sizes_saturate(a: usize, b: usize, product: usize, most: usize)
    requires
        call_ensures(saturating_product, (a, b), product),
        call_ensures(larger, (a, b), most),
    ensures
        a * b <= usize::MAX ==> product == a * b,
        a * b > usize::MAX ==> product == usize::MAX,
        most >= a && most >= b,
        most == a || most == b,
{
}

/// A sample is the latency itself, raised to one microsecond and cut at the
/// longest of 599 seconds, for every latency that fits 64 bits.
pub proof fn law_samples_are_clamped(micros: u128, sampled: u64)
    requires
        call_ensures(sample_us, (micros,), sampled),
    ensures
        sampled <= 599_000_000,
        1 <= micros <= 599_000_000 ==> sampled == micros,
        micros == 0 ==> sampled == 1,
        599_000_000 < micros <= u64::MAX ==> sampled == 599_000_000,
{
}

/// Metrics begin empty. A counter that was never touched is zero, a gauge
/// unknown, a histogram without samples.
pub proof fn law_metrics_begin_empty(
    metrics: BenchMetrics,
    name: String,
    counter: u64,
    gauge: Option<i64>,
    samples: u64,
    sealed: u64,
)
    requires
        call_ensures(BenchMetrics::new, (), metrics),
        call_ensures(BenchMetrics::counter, (&metrics, &name), counter),
        call_ensures(BenchMetrics::gauge, (&metrics, &name), gauge),
        call_ensures(BenchMetrics::histogram_samples, (&metrics, &name), samples),
        call_ensures(BenchMetrics::seal_count, (&metrics,), sealed),
    ensures
        counter == 0,
        gauge is None,
        samples == 0,
        sealed == 0,
{
}

/// Counting adds to the one counter that is named, wrapping around, and leaves
/// every other counter, gauge and histogram alone; registering a counter changes
/// no value.
pub proof fn law_counters_add_up(
    metrics: &mut BenchMetrics,
    name: String,
    value: u64,
    before: u64,
    after: u64,
    other: String,
    other_before: u64,
    other_after: u64,
    registered: &mut BenchMetrics,
    kept_before: u64,
    kept_after: u64,
)
    requires
        call_ensures(BenchMetrics::counter, (&*old(metrics), &name), before),
        call_ensures(BenchMetrics::counter, (&*old(metrics), &other), other_before),
        call_ensures(BenchMetrics::increment, (metrics, &name, value), ()),
        call_ensures(BenchMetrics::counter, (&*final(metrics), &name), after),
        call_ensures(BenchMetrics::counter, (&*final(metrics), &other), other_after),
        call_ensures(BenchMetrics::counter, (&*old(registered), &other), kept_before),
        call_ensures(BenchMetrics::register_counter, (registered, &name), ()),
        call_ensures(BenchMetrics::counter, (&*final(registered), &other), kept_after),
    ensures
        before + value <= u64::MAX ==> after == before + value,
        before + value > u64::MAX ==> after == before + value - u64::MAX - 1,
        other@ != name@ ==> other_after == other_before,
        final(metrics).gauges == old(metrics).gauges,
        final(metrics).histogram_samples == old(metrics).histogram_samples,
        kept_after == kept_before,
        final(registered).gauges == old(registered).gauges,
        final(registered).histogram_samples == old(registered).histogram_samples,
{
}

/// A gauge reads what was set last; registering one makes it known, as zero if
/// it was not, and changes no other.
pub proof fn law_gauges_read_what_was_set(
    metrics: &mut BenchMetrics,
    name: String,
    value: i64,
    after: Option<i64>,
    other: String,
    other_before: Option<i64>,
    other_after: Option<i64>,
    registered: &mut BenchMetrics,
    kept_before: Option<i64>,
    kept_after: Option<i64>,
)
    requires
        call_ensures(BenchMetrics::gauge, (&*old(metrics), &other), other_before),
        call_ensures(BenchMetrics::set_gauge, (metrics, &name, value), ()),
        call_ensures(BenchMetrics::gauge, (&*final(metrics), &name), after),
        call_ensures(BenchMetrics::gauge, (&*final(metrics), &other), other_after),
        call_ensures(BenchMetrics::gauge, (&*old(registered), &other), kept_before),
        call_ensures(BenchMetrics::register_gauge, (registered, &name), ()),
        call_ensures(BenchMetrics::gauge, (&*final(registered), &other), kept_after),
    ensures
        after == Some(value),
        other@ != name@ ==> other_after == other_before,
        kept_before is Some ==> kept_after == kept_before,
        kept_before is None && other@ == name@ ==> kept_after == Some(0i64),
        kept_before is None && other@ != name@ ==> kept_after is None,
        final(metrics).counters == old(metrics).counters,
        final(registered).counters == old(registered).counters,
{
}

/// Recording counts one sample of the one histogram that is named; registering
/// one changes no count. Sealed segments are the samples of the seal histogram.
pub proof fn law_samples_are_counted(
    metrics: &mut BenchMetrics,
    name: String,
    before: u64,
    after: u64,
    other: String,
    other_before: u64,
    other_after: u64,
    sealed: u64,
    registered: &mut BenchMetrics,
    kept_before: u64,
    kept_after: u64,
)
    requires
        call_ensures(BenchMetrics::histogram_samples, (&*old(metrics), &name), before),
        call_ensures(BenchMetrics::histogram_samples, (&*old(metrics), &other), other_before),
        call_ensures(BenchMetrics::record, (metrics, &name), ()),
        call_ensures(BenchMetrics::histogram_samples, (&*final(metrics), &name), after),
        call_ensures(BenchMetrics::histogram_samples, (&*final(metrics), &other), other_after),
        call_ensures(BenchMetrics::seal_count, (&*final(metrics),), sealed),
        call_ensures(BenchMetrics::histogram_samples, (&*old(registered), &other), kept_before),
        call_ensures(BenchMetrics::register_histogram, (registered, &name), ()),
        call_ensures(BenchMetrics::histogram_samples, (&*final(registered), &other), kept_after),
    ensures
        before < u64::MAX ==> after == before + 1,
        before == u64::MAX ==> after == 0,
        other@ != name@ ==> other_after == other_before,
        name@ == "chorus.wal.seal.duration_seconds"@ ==> sealed == after,
        kept_after == kept_before,
        final(metrics).counters == old(metrics).counters,
        final(metrics).gauges == old(metrics).gauges,
{
}

/// A name keeps the value that it was given last, and no other name is touched.
pub proof fn law_names_keep_their_last_value<T: Copy>(
    named: &mut Named<T>,
    name: String,
    value: T,
    after: Option<T>,
    other: String,
    other_before: Option<T>,
    other_after: Option<T>,
)
    requires
        call_ensures(Named::<T>::get, (&*old(named), &other), other_before),
        call_ensures(Named::<T>::put, (named, &name, value), ()),
        call_ensures(Named::<T>::get, (&*final(named), &name), after),
        call_ensures(Named::<T>::get, (&*final(named), &other), other_after),
    ensures
        after == Some(value),
        other@ != name@ ==> other_after == other_before,
{
}

/// No name has a value at first.
pub proof fn law_names_begin_without_values<T: Copy>(
    named: Named<T>,
    name: String,
    value: Option<T>,
)
    requires
        call_ensures(Named::<T>::new, (), named),
        call_ensures(Named::<T>::get, (&named, &name), value),
    ensures
        value is None,
{
}

} // verus!
