//! Cached market state keyed by symbol code: the prices and trends the
//! display works from, and the quotes one fetch returns. A `CodeMap` is an
//! association list with unique codes, viewed as a `Map` from code text to
//! values.
use vstd::prelude::*;

verus! {

/// One symbol's latest candle, prices in hundredths.
#[derive(Clone, Copy, PartialEq, Eq, Structural)]
pub struct Quote {
    pub close: i64,
    pub timestamp: u64,
    pub open: i64,
}

/// Up, down, or flat; unknown trends are shown as flat.
#[derive(Clone, Copy, PartialEq, Eq, Structural)]
pub enum Trend {
    Up,
    Down,
    Flat,
}

struct MapEntry<V> {
    code: String,
    value: V,
}

/// A map from symbol code to `V`, with each code present once.
pub struct CodeMap<V> {
    entries: Vec<MapEntry<V>>,
}

spec fn entries_map<V>(s: Seq<MapEntry<V>>) -> Map<Seq<char>, V>
    decreases s.len(),
{
    if s.len() == 0 {
        Map::<Seq<char>, V>::empty()
    } else {
        entries_map(s.drop_last()).insert(s.last().code@, s.last().value)
    }
}

spec fn entries_unique<V>(s: Seq<MapEntry<V>>) -> bool {
    forall|i: int, j: int| 0 <= i < j < s.len() ==> (#[trigger] s[i].code@) != (#[trigger] s[j].code@)
}

proof fn lemma_entries_map_at<V>(s: Seq<MapEntry<V>>, j: int)
    requires
        entries_unique(s),
        0 <= j < s.len(),
    ensures
        entries_map(s).contains_key(s[j].code@),
        entries_map(s)[s[j].code@] == s[j].value,
    decreases s.len(),
{
    if j < s.len() - 1 {
        let d = s.drop_last();
        assert(forall|k: int| 0 <= k < d.len() ==> d[k] == s[k]);
        lemma_entries_map_at(d, j);
        assert(s[s.len() - 1].code@ != s[j].code@);
    }
}

proof fn lemma_entries_map_absent<V>(s: Seq<MapEntry<V>>, c: Seq<char>)
    requires
        forall|j: int| 0 <= j < s.len() ==> (#[trigger] s[j].code@) != c,
    ensures
        !entries_map(s).contains_key(c),
    decreases s.len(),
{
    if s.len() > 0 {
        let d = s.drop_last();
        assert(forall|k: int| 0 <= k < d.len() ==> d[k] == s[k]);
        lemma_entries_map_absent(d, c);
    }
}

impl<V: Copy> CodeMap<V> {
    pub closed spec fn view(&self) -> Map<Seq<char>, V> {
        entries_map(self.entries@)
    }

    pub closed spec fn wf(&self) -> bool {
        entries_unique(self.entries@)
    }

    /// The empty map.
    pub fn new() -> (r: Self)
        ensures
            r.wf(),
            r.view() == Map::<Seq<char>, V>::empty(),
    {
        let r = CodeMap { entries: Vec::new() };
        proof {
            assert(r.entries@.len() == 0);
        }
        r
    }

    /// Looks a code up.
    pub fn get(&self, code: &String) -> (r: Option<V>)
        requires
            self.wf(),
        ensures
            match r {
                Some(v) => self.view().contains_key(code@) && self.view()[code@] == v,
                None => !self.view().contains_key(code@),
            },
    {
        let n = self.entries.len();
        let mut j: usize = 0;
        while j < n
            invariant
                0 <= j <= n,
                n == self.entries@.len(),
                entries_unique(self.entries@),
                forall|k: int| 0 <= k < j ==> (#[trigger] self.entries@[k].code@) != code@,
            decreases n - j,
        {
            if self.entries[j].code == *code {
                proof {
                    lemma_entries_map_at(self.entries@, j as int);
                }
                return Some(self.entries[j].value);
            }
            j = j + 1;
        }
        proof {
            lemma_entries_map_absent(self.entries@, code@);
        }
        None
    }

    /// Inserts or replaces the value held under `code`.
    pub fn insert(&mut self, code: String, value: V)
        requires
            old(self).wf(),
        ensures
            final(self).wf(),
            final(self).view() == old(self).view().insert(code@, value),
    {
        let n = self.entries.len();
        let mut j: usize = 0;
        while j < n
            invariant
                0 <= j <= n,
                n == self.entries@.len(),
                entries_unique(self.entries@),
                self.entries@ == old(self).entries@,
                forall|k: int| 0 <= k < j ==> (#[trigger] self.entries@[k].code@) != code@,
            decreases n - j,
        {
            if self.entries[j].code == *(&code) {
                let ghost before = self.entries@;
                self.entries.set(j, MapEntry { code, value });
                proof {
                    lemma_set_entry(before, j as int, self.entries@[j as int], value);
                }
                return ;
            }
            j = j + 1;
        }
        let ghost before = self.entries@;
        self.entries.push(MapEntry { code, value });
        proof {
            assert(self.entries@.drop_last() =~= before);
            assert forall|i: int, k: int| 0 <= i < k < self.entries@.len() implies (
            #[trigger] self.entries@[i].code@) != (#[trigger] self.entries@[k].code@) by {
                if k < self.entries@.len() - 1 {
                    assert(before[i].code@ != before[k].code@);
                }
            }
        }
    }
}

proof fn lemma_set_entry<V>(s: Seq<MapEntry<V>>, j: int, e: MapEntry<V>, value: V)
    requires
        entries_unique(s),
        0 <= j < s.len(),
        e.code@ == s[j].code@,
        e.value == value,
    ensures
        entries_unique(s.update(j, e)),
        entries_map(s.update(j, e)) == entries_map(s).insert(s[j].code@, value),
    decreases s.len(),
{
    let t = s.update(j, e);
    assert forall|i: int, k: int| 0 <= i < k < t.len() implies (#[trigger] t[i].code@) != (
    #[trigger] t[k].code@) by {
        assert(s[i].code@ != s[k].code@);
    }
    if j == s.len() - 1 {
        assert(t.drop_last() =~= s.drop_last());
        assert(entries_map(t) =~= entries_map(s).insert(s[j].code@, value));
    } else {
        lemma_set_entry(s.drop_last(), j, e, value);
        assert(t.drop_last() =~= s.drop_last().update(j, e));
        assert(t.last() == s.last());
        assert(s[j].code@ != s.last().code@);
        assert(entries_map(t) =~= entries_map(s).insert(s[j].code@, value));
    }
}

/// The price cache: code to last known close price, in hundredths.
pub type PriceMap = CodeMap<i64>;

/// The trend cache: code to the trend of the latest successful fetch.
pub type TrendMap = CodeMap<Trend>;

/// One fetch's result: code to its latest candle.
pub type QuoteMap = CodeMap<Quote>;

} // verus!
