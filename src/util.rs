//! Date-indexed series and small helpers used throughout the library.

use crate::date::{lemma_before_irreflexive, lemma_before_transitive, Date};
use vstd::prelude::*;

verus! {

/// The dates of `s` strictly increase along it.
pub open spec fn dates_increasing<V>(s: Seq<(Date, V)>) -> bool {
    forall|i: int, j: int|
        #![trigger s[i], s[j]]
        0 <= i < j < s.len() ==> s[i].0.before(s[j].0)
}

/// True when some entry of `s` is dated `d`.
pub open spec fn has_date<V>(s: Seq<(Date, V)>, d: Date) -> bool {
    exists|i: int| 0 <= i < s.len() && #[trigger] s[i].0 == d
}

/// The position of the entry dated `d` in `s` (meaningful when `has_date`).
pub open spec fn index_of<V>(s: Seq<(Date, V)>, d: Date) -> int {
    choose|i: int| 0 <= i < s.len() && #[trigger] s[i].0 == d
}

/// The value recorded for `d` in `s`, if any.
pub open spec fn value_on<V>(s: Seq<(Date, V)>, d: Date) -> Option<V> {
    if has_date(s, d) {
        Some(s[index_of(s, d)].1)
    } else {
        None
    }
}

/// The entry `offset` places away from the entry dated `d`, if both exist.
pub open spec fn offset_entry<V>(s: Seq<(Date, V)>, d: Date, offset: int) -> Option<(Date, V)> {
    if has_date(s, d) && 0 <= index_of(s, d) + offset < s.len() {
        Some(s[index_of(s, d) + offset])
    } else {
        None
    }
}

/// True when `d` lies between `start` and `end`, both included.
pub open spec fn within(d: Date, start: Date, end: Date) -> bool {
    !d.before(start) && !end.before(d)
}

/// The entries of `s` dated between `start` and `end`, both included.
pub open spec fn entries_within<V>(s: Seq<(Date, V)>, start: Date, end: Date) -> Seq<(Date, V)> {
    s.filter(|e: (Date, V)| within(e.0, start, end))
}

/// In a series with increasing dates, the entry at `i` is the one found for
/// its date.
pub proof fn lemma_index_of<V>(s: Seq<(Date, V)>, i: int)
    requires
        dates_increasing(s),
        0 <= i < s.len(),
    ensures
        has_date(s, s[i].0),
        index_of(s, s[i].0) == i,
        value_on(s, s[i].0) == Some(s[i].1),
{
    let d = s[i].0;
    assert(s[i].0 == d);
    let j = index_of(s, d);
    lemma_before_irreflexive(d);
    if j < i {
        assert(s[j].0.before(s[i].0));
    } else if j > i {
        assert(s[i].0.before(s[j].0));
    }
}

/// Errors of building a time series.
#[derive(Clone, Copy, Debug, PartialEq, Eq, Structural)]
pub enum TimeSeriesError {
    /// An entry's date does not come after the date before it.
    DateOutOfOrder(Date),
}

/// A series of values indexed by date, with dates unique and strictly
/// increasing.
#[derive(Debug, PartialEq, Eq)]
pub struct TimeSeries<V> {
    entries: Vec<(Date, V)>,
}

impl<V> View for TimeSeries<V> {
    type V = Seq<(Date, V)>;

    closed spec fn view(&self) -> Seq<(Date, V)> {
        self.entries@
    }
}

impl<V> TimeSeries<V> {
    #[verifier::type_invariant]
    spec fn inv(self) -> bool {
        dates_increasing(self.entries@)
    }

    /// The empty series.
    pub fn new() -> (r: Self)
        ensures
            r@ == Seq::<(Date, V)>::empty(),
    {
        TimeSeries { entries: Vec::new() }
    }

    /// Builds a series from entries in date order. Fails, naming the first
    /// date that does not come after its predecessor, if the dates do not
    /// strictly increase.
    pub fn from_entries(entries: Vec<(Date, V)>) -> (r: Result<Self, TimeSeriesError>)
        ensures
            r is Ok <==> dates_increasing(entries@),
            r matches Ok(ts) ==> ts@ == entries@,
            r matches Err(TimeSeriesError::DateOutOfOrder(d)) ==> exists|i: int|
                0 < i < entries@.len() && #[trigger] entries@[i].0 == d && !entries@[i
                    - 1].0.before(d),
    {
        let n = entries.len();
        let mut i: usize = 1;
        while i < n
            invariant
                n == entries@.len(),
                1 <= i,
                n == 0 || i <= n,
                forall|a: int, b: int|
                    #![trigger entries@[a], entries@[b]]
                    0 <= a < b < i && b < n ==> entries@[a].0.before(entries@[b].0),
            decreases n - i,
        {
            if !entries[i - 1].0.is_before(&entries[i].0) {
                return Err(TimeSeriesError::DateOutOfOrder(entries[i].0));
            }
            assert forall|a: int, b: int|
                #![trigger entries@[a], entries@[b]]
                0 <= a < b < i + 1 && b < n implies entries@[a].0.before(entries@[b].0) by {
                if b == i && a < i - 1 {
                    lemma_before_transitive(
                        entries@[a].0,
                        entries@[i - 1].0,
                        entries@[i as int].0,
                    );
                }
            }
            i += 1;
        }
        Ok(TimeSeries { entries })
    }

    /// Number of entries. Also states that the dates strictly increase.
    pub fn len(&self) -> (r: usize)
        ensures
            r == self@.len(),
            dates_increasing(self@),
    {
        proof {
            use_type_invariant(self);
        }
        self.entries.len()
    }

    /// True if the series has no entries.
    pub fn is_empty(&self) -> (r: bool)
        ensures
            r == (self@.len() == 0),
    {
        self.entries.len() == 0
    }

    /// The entries, in date order.
    pub fn entries(&self) -> (r: &Vec<(Date, V)>)
        ensures
            r@ == self@,
            dates_increasing(self@),
    {
        proof {
            use_type_invariant(self);
        }
        &self.entries
    }

    /// Appends an entry dated after every entry of the series; fails,
    /// leaving the series unchanged, for any other date.
    pub fn push(&mut self, date: Date, value: V) -> (r: Result<(), TimeSeriesError>)
        ensures
            r is Ok <==> (old(self)@.len() == 0 || old(self)@.last().0.before(date)),
            r is Ok ==> final(self)@ == old(self)@.push((date, value)),
            r is Err ==> final(self)@ == old(self)@ && r == Err::<(), TimeSeriesError>(
                TimeSeriesError::DateOutOfOrder(date),
            ),
    {
        proof {
            use_type_invariant(&*self);
        }
        let n = self.entries.len();
        if n > 0 && !self.entries[n - 1].0.is_before(&date) {
            return Err(TimeSeriesError::DateOutOfOrder(date));
        }
        let ghost prev = self.entries@;
        let mut entries = Vec::new();
        std::mem::swap(&mut entries, &mut self.entries);
        entries.push((date, value));
        assert forall|a: int, b: int|
            #![trigger entries@[a], entries@[b]]
            0 <= a < b < entries@.len() implies entries@[a].0.before(entries@[b].0) by {
            if b == n && a < n - 1 {
                assert(prev[a].0.before(prev[n - 1].0));
                lemma_before_transitive(entries@[a].0, prev[n - 1].0, date);
            }
        }
        *self = TimeSeries { entries };
        Ok(())
    }

    /// The value recorded on `date`, if any.
    pub fn get(&self, date: &Date) -> (r: Option<&V>)
        ensures
            match r {
                Some(v) => value_on(self@, *date) == Some(*v),
                None => value_on(self@, *date) is None,
            },
    {
        proof {
            use_type_invariant(self);
        }
        match self.position(date) {
            Some(i) => Some(&self.entries[i].1),
            None => None,
        }
    }

    /// The index of the entry dated `date`, if any.
    fn position(&self, date: &Date) -> (r: Option<usize>)
        requires
            dates_increasing(self@),
        ensures
            r is Some <==> has_date(self@, *date),
            r matches Some(i) ==> i < self@.len() && i == index_of(self@, *date) && self@[i as int].0
                == *date,
    {
        let n = self.entries.len();
        let mut i: usize = 0;
        while i < n
            invariant
                n == self@.len(),
                self.entries@ == self@,
                dates_increasing(self@),
                i <= n,
                forall|k: int| 0 <= k < i ==> #[trigger] self@[k].0 != *date,
            decreases n - i,
        {
            if self.entries[i].0 == *date {
                proof {
                    lemma_index_of(self@, i as int);
                }
                return Some(i);
            }
            i += 1;
        }
        None
    }
}

impl<V: Copy> TimeSeries<V> {
    /// The entries dated between `start` and `end`, both included.
    pub fn range(&self, start: &Date, end: &Date) -> (r: Self)
        ensures
            r@ == entries_within(self@, *start, *end),
    {
        proof {
            use_type_invariant(self);
        }
        let ghost pred = |e: (Date, V)| within(e.0, *start, *end);
        let n = self.entries.len();
        let mut out: Vec<(Date, V)> = Vec::new();
        let mut i: usize = 0;
        proof {
            reveal(Seq::filter);
            assert(self@.subrange(0, 0) =~= Seq::<(Date, V)>::empty());
        }
        while i < n
            invariant
                n == self@.len(),
                self.entries@ == self@,
                dates_increasing(self@),
                i <= n,
                pred == (|e: (Date, V)| within(e.0, *start, *end)),
                out@ == self@.subrange(0, i as int).filter(pred),
                forall|a: int, b: int|
                    #![trigger out@[a], out@[b]]
                    0 <= a < b < out@.len() ==> out@[a].0.before(out@[b].0),
                forall|a: int, j: int|
                    #![trigger out@[a], self@[j]]
                    0 <= a < out@.len() && i <= j < n ==> out@[a].0.before(self@[j].0),
            decreases n - i,
        {
            let e = self.entries[i];
            proof {
                assert(self@.subrange(0, i as int + 1) =~= self@.subrange(0, i as int).push(e));
                self@.subrange(0, i as int).lemma_filter_push(e, pred);
            }
            if !e.0.is_before(start) && !end.is_before(&e.0) {
                out.push(e);
            }
            assert forall|a: int, j: int|
                #![trigger out@[a], self@[j]]
                0 <= a < out@.len() && i + 1 <= j < n implies out@[a].0.before(self@[j].0) by {
                assert(self@[i as int].0.before(self@[j].0));
            }
            i += 1;
        }
        proof {
            assert(self@.subrange(0, n as int) =~= self@);
        }
        TimeSeries { entries: out }
    }

    /// The entry `days_after` entries after the one dated `date` (the next
    /// entry when `days_after` is 0), if both exist.
    pub fn get_after(&self, date: &Date, days_after: u32) -> (r: Option<(Date, V)>)
        ensures
            r == offset_entry(self@, *date, if days_after == 0 { 1 } else { days_after as int }),
    {
        proof {
            use_type_invariant(self);
        }
        let step: usize = if days_after == 0 { 1 } else { days_after as usize };
        match self.position(date) {
            Some(i) => {
                if step < self.entries.len() - i {
                    Some(self.entries[i + step])
                } else {
                    None
                }
            },
            None => None,
        }
    }

    /// The entry `days_before` entries before the one dated `date` (the
    /// previous entry when `days_before` is 0), if both exist.
    pub fn get_before(&self, date: &Date, days_before: u32) -> (r: Option<(Date, V)>)
        ensures
            r == offset_entry(self@, *date, -(if days_before == 0 { 1 } else { days_before as int })),
    {
        proof {
            use_type_invariant(self);
        }
        let step: usize = if days_before == 0 { 1 } else { days_before as usize };
        match self.position(date) {
            Some(i) => {
                if step <= i {
                    Some(self.entries[i - step])
                } else {
                    None
                }
            },
            None => None,
        }
    }
}

/// The first date of a series.
pub fn first_key<V>(map: &TimeSeries<V>) -> (r: Option<&Date>)
    ensures
        match r {
            Some(d) => map@.len() > 0 && *d == map@[0].0,
            None => map@.len() == 0,
        },
{
    let entries = map.entries();
    if entries.len() == 0 {
        None
    } else {
        Some(&entries[0].0)
    }
}

/// The last date of a series.
pub fn last_key<V>(map: &TimeSeries<V>) -> (r: Option<&Date>)
    ensures
        match r {
            Some(d) => map@.len() > 0 && *d == map@.last().0,
            None => map@.len() == 0,
        },
{
    let entries = map.entries();
    if entries.len() == 0 {
        None
    } else {
        Some(&entries[entries.len() - 1].0)
    }
}

/// The value of the first entry of a series.
pub fn first_value<V>(map: &TimeSeries<V>) -> (r: Option<&V>)
    ensures
        match r {
            Some(v) => map@.len() > 0 && *v == map@[0].1,
            None => map@.len() == 0,
        },
{
    let entries = map.entries();
    if entries.len() == 0 {
        None
    } else {
        Some(&entries[0].1)
    }
}

/// The value of the last entry of a series.
pub fn last_value<V>(map: &TimeSeries<V>) -> (r: Option<&V>)
    ensures
        match r {
            Some(v) => map@.len() > 0 && *v == map@.last().1,
            None => map@.len() == 0,
        },
{
    let entries = map.entries();
    if entries.len() == 0 {
        None
    } else {
        Some(&entries[entries.len() - 1].1)
    }
}

/// A stock ticker symbol.
#[derive(Debug, Default, PartialEq)]
pub struct Symbol(String);

impl View for Symbol {
    type V = Seq<char>;

    closed spec fn view(&self) -> Seq<char> {
        self.0@
    }
}

impl Symbol {
    /// Wraps `s` as a symbol.
    pub fn new(s: String) -> (r: Symbol)
        ensures
            r@ == s@,
    {
        Symbol(s)
    }

    /// The symbol's text.
    pub fn as_str(&self) -> (r: &str)
        ensures
            r@ == self@,
    {
        self.0.as_str()
    }
}

} // verus!
