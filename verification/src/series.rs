//! The decoded daily time series: date-keyed records of one trading day each.

use vstd::prelude::*;

verus! {

/// One trading day's figures. Each field keeps the provider's decimal text
/// as bytes; nothing is parsed until a computation asks for it.
#[derive(Debug)]
pub struct DailyRecord {
    pub open: Vec<u8>,
    pub high: Vec<u8>,
    pub low: Vec<u8>,
    pub close: Vec<u8>,
    pub volume: Vec<u8>,
}

/// The mathematical image of a [`DailyRecord`]: its five fields as byte strings.
pub struct RecordModel {
    pub open: Seq<u8>,
    pub high: Seq<u8>,
    pub low: Seq<u8>,
    pub close: Seq<u8>,
    pub volume: Seq<u8>,
}

impl View for DailyRecord {
    type V = RecordModel;

    open spec fn view(&self) -> RecordModel {
        RecordModel {
            open: self.open@,
            high: self.high@,
            low: self.low@,
            close: self.close@,
            volume: self.volume@,
        }
    }
}

impl DailyRecord {
    /// Builds a record from its five decimal-text fields.
    pub fn new(open: Vec<u8>, high: Vec<u8>, low: Vec<u8>, close: Vec<u8>, volume: Vec<u8>) -> (r:
        DailyRecord)
        ensures
            r@ == (RecordModel { open: open@, high: high@, low: low@, close: close@, volume: volume@ }),
    {
        DailyRecord { open, high, low, close, volume }
    }
}

/// Index of the first entry holding `date`, or `m.len()` if none does.
pub open spec fn date_index(m: Seq<(Seq<u8>, RecordModel)>, date: Seq<u8>) -> int
    decreases m.len(),
{
    if m.len() == 0 {
        0
    } else if m[0].0 == date {
        0
    } else {
        1 + date_index(m.subrange(1, m.len() as int), date)
    }
}

/// What `date_index` finds: the first matching position, or the length.
pub proof fn lemma_date_index(m: Seq<(Seq<u8>, RecordModel)>, date: Seq<u8>)
    ensures
        0 <= date_index(m, date) <= m.len(),
        date_index(m, date) < m.len() ==> m[date_index(m, date)].0 == date,
        forall|k: int| 0 <= k < date_index(m, date) ==> m[k].0 != date,
    decreases m.len(),
{
    if m.len() != 0 && m[0].0 != date {
        let rest = m.subrange(1, m.len() as int);
        lemma_date_index(rest, date);
        assert forall|k: int| 0 <= k < date_index(m, date) implies m[k].0 != date by {
            if k > 0 {
                assert(rest[k - 1] == m[k]);
            }
        }
    }
}

/// A map after storing `rec` under `date`: the first entry with that date is
/// replaced, or a new entry is appended when the date is absent.
pub open spec fn spec_insert(
    m: Seq<(Seq<u8>, RecordModel)>,
    date: Seq<u8>,
    rec: RecordModel,
) -> Seq<(Seq<u8>, RecordModel)> {
    let i = date_index(m, date);
    if i < m.len() {
        m.update(i, (date, rec))
    } else {
        m.push((date, rec))
    }
}

/// A date-keyed mapping of trading days. Dates are unique; the order of the
/// entries carries no meaning for the computations on the series.
#[derive(Debug)]
pub struct TimeSeries {
    entries: Vec<(Vec<u8>, DailyRecord)>,
}

impl View for TimeSeries {
    type V = Seq<(Seq<u8>, RecordModel)>;

    closed spec fn view(&self) -> Seq<(Seq<u8>, RecordModel)> {
        Seq::new(self.entries@.len(), |i: int| (self.entries@[i].0@, self.entries@[i].1@))
    }
}

impl TimeSeries {
    /// Keys are unique: no two entries share a date.
    pub open spec fn wf(&self) -> bool {
        forall|i: int, j: int| 0 <= i < j < self@.len() ==> self@[i].0 != self@[j].0
    }

    /// An empty series.
    pub fn new() -> (r: TimeSeries)
        ensures
            r@ == Seq::<(Seq<u8>, RecordModel)>::empty(),
            r.wf(),
    {
        let r = TimeSeries { entries: Vec::new() };
        proof {
            assert(r@ =~= Seq::<(Seq<u8>, RecordModel)>::empty());
        }
        r
    }

    /// The number of trading days held.
    pub fn len(&self) -> (n: usize)
        ensures
            n == self@.len(),
    {
        self.entries.len()
    }

    /// The record at position `i`.
    pub fn record_at(&self, i: usize) -> (r: &DailyRecord)
        requires
            i < self@.len(),
        ensures
            r@ == self@[i as int].1,
    {
        &self.entries[i].1
    }

    /// The date at position `i`.
    pub fn date_at(&self, i: usize) -> (d: &Vec<u8>)
        requires
            i < self@.len(),
        ensures
            d@ == self@[i as int].0,
    {
        &self.entries[i].0
    }

    /// Stores `rec` under `date`, replacing any record already held for that
    /// date, so that a date seen twice keeps only the later record.
    #[verifier::loop_isolation(false)]
    pub fn insert(&mut self, date: Vec<u8>, rec: DailyRecord)
        requires
            old(self).wf(),
        ensures
            final(self)@ == spec_insert(old(self)@, date@, rec@),
            final(self).wf(),
    {
        proof {
            lemma_date_index(old(self)@, date@);
        }
        let ghost m = self@;
        let ghost di = date_index(self@, date@);
        let n = self.entries.len();
        let mut i: usize = 0;
        while i < n
            invariant
                n == self.entries@.len(),
                0 <= i <= n,
                self@ == m,
                forall|k: int| 0 <= k < i ==> m[k].0 != date@,
            decreases n - i,
        {
            if crate::bytes::bytes_eq(&self.entries[i].0, date.as_slice()) {
                proof {
                    assert(m[i as int].0 == date@);
                    if di < i as int {
                        assert(m[di].0 != date@);
                        assert(false);
                    }
                    if di > i as int {
                        assert(m[i as int].0 != date@);
                        assert(false);
                    }
                    assert(di == i as int);
                }
                self.entries[i] = (date, rec);
                proof {
                    assert(self@ =~= spec_insert(m, date@, rec@));
                    assert forall|a: int, b: int|
                        0 <= a < b < self@.len() implies self@[a].0 != self@[b].0 by {
                        if self@[a].0 == self@[b].0 {
                            if a != i as int && b != i as int {
                                assert(m[a].0 == m[b].0);
                            } else if a == i as int {
                                assert(m[b].0 == date@);
                                assert(m[di].0 == date@ && di < b);
                            } else {
                                assert(m[a].0 == date@);
                                if a < di {
                                } else {
                                    assert(m[di].0 == date@ && di < b);
                                }
                            }
                        }
                    }
                }
                return ;
            }
            i = i + 1;
        }
        proof {
            assert(di == m.len());
        }
        self.entries.push((date, rec));
        proof {
            assert(self@ =~= spec_insert(m, date@, rec@));
            assert forall|a: int, b: int|
                0 <= a < b < self@.len() implies self@[a].0 != self@[b].0 by {
                if b == m.len() {
                    assert(m[a].0 != date@);
                } else {
                    assert(m[a].0 != m[b].0);
                }
            }
        }
    }
}

} // verus!
