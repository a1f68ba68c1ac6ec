//! The entry store's read snapshot: dated journal records and the
//! date-to-color lookup that the calendar render pass uses.

use vstd::prelude::*;
use crate::date::Date;

verus! {

/// One journal entry: a dated record as the store persists it.
#[derive(Clone, Debug)]
pub struct DayRecord {
    pub date: Date,
    pub color: Option<String>,
    pub transcript: String,
    pub audio_path: String,
}

/// Spec-level image of a record: its strings as character sequences.
pub struct DayRecordView {
    pub date: Date,
    pub color: Option<Seq<char>>,
    pub transcript: Seq<char>,
    pub audio_path: Seq<char>,
}

impl View for DayRecord {
    type V = DayRecordView;

    open spec fn view(&self) -> DayRecordView {
        DayRecordView {
            date: self.date,
            color: self.color.deep_view(),
            transcript: self.transcript@,
            audio_path: self.audio_path@,
        }
    }
}

impl DeepView for DayRecord {
    type V = DayRecordView;

    open spec fn deep_view(&self) -> DayRecordView {
        self.view()
    }
}

/// The mapping a sequence of records induces when each record is inserted
/// in stored order: a later record for the same date overwrites an earlier
/// one.
pub open spec fn spec_lookup_map(rs: Seq<DayRecordView>) -> Map<Date, Option<Seq<char>>>
    decreases rs.len(),
{
    if rs.len() == 0 {
        Map::empty()
    } else {
        spec_lookup_map(rs.drop_last()).insert(rs.last().date, rs.last().color)
    }
}

/// Whether some record in the snapshot carries the given date.
pub open spec fn spec_has_entry(rs: Seq<DayRecordView>, d: Date) -> bool {
    exists|i: int| 0 <= i < rs.len() && rs[i].date == d
}

/// The date→color lookup for one render pass, built from the store
/// snapshot in stored order.
pub struct ColorLookup {
    entries: Vec<(Date, Option<String>)>,
}

/// The mapping the lookup's entry list induces, later entries overwriting
/// earlier ones.
pub open spec fn spec_assoc_map(s: Seq<(Date, Option<String>)>) -> Map<Date, Option<Seq<char>>>
    decreases s.len(),
{
    if s.len() == 0 {
        Map::empty()
    } else {
        spec_assoc_map(s.drop_last()).insert(s.last().0, s.last().1.deep_view())
    }
}

impl View for ColorLookup {
    type V = Map<Date, Option<Seq<char>>>;

    closed spec fn view(&self) -> Map<Date, Option<Seq<char>>> {
        spec_assoc_map(self.entries@)
    }
}

/// Entries at positions `j..` never mention `d`, so the induced mapping at
/// `d` is decided by the first `j` entries alone.
proof fn lemma_assoc_skip(s: Seq<(Date, Option<String>)>, j: int, d: Date)
    requires
        0 <= j <= s.len(),
        forall|k: int| j <= k < s.len() ==> (#[trigger] s[k]).0 != d,
    ensures
        spec_assoc_map(s).contains_key(d) == spec_assoc_map(s.take(j)).contains_key(d),
        spec_assoc_map(s).contains_key(d) ==> spec_assoc_map(s)[d] == spec_assoc_map(s.take(j))[d],
    decreases s.len() - j,
{
    if j < s.len() {
        lemma_assoc_skip(s.drop_last(), j, d);
        assert(s.drop_last().take(j) =~= s.take(j));
    } else {
        assert(s.take(j) =~= s);
    }
}

impl ColorLookup {
    pub fn new() -> (r: Self)
        ensures
            r@ == Map::<Date, Option<Seq<char>>>::empty(),
    {
        ColorLookup { entries: Vec::new() }
    }

    /// Records that `date` maps to `color`, overwriting any earlier entry
    /// for the same date.
    pub fn insert(&mut self, date: Date, color: Option<String>)
        ensures
            final(self)@ == old(self)@.insert(date, color.deep_view()),
    {
        self.entries.push((date, color));
        proof {
            assert(self.entries@.drop_last() =~= old(self).entries@);
        }
    }

    /// Looks a date up, flattening "no entry" and "entry without a color"
    /// into `None`, as the render pass treats both the same way.
    pub fn get_color(&self, d: Date) -> (r: Option<String>)
        ensures
            match r {
                Some(c) => self@.contains_key(d) && self@[d] == Some(c@),
                None => !self@.contains_key(d) || self@[d] is None,
            },
    {
        let ghost s = self.entries@;
        let mut j: usize = self.entries.len();
        while j > 0
            invariant
                j <= self.entries@.len(),
                self.entries@ == s,
                forall|k: int| j <= k < s.len() ==> (#[trigger] s[k]).0 != d,
            decreases j,
        {
            j = j - 1;
            let (ed, ec) = &self.entries[j];
            if *ed == d {
                proof {
                    lemma_assoc_skip(s, j + 1, d);
                    assert(s.take(j + 1).drop_last() =~= s.take(j as int));
                    assert(s.take(j + 1).last() == s[j as int]);
                }
                return match ec {
                    Some(c) => Some(c.clone()),
                    None => None,
                };
            }
        }
        proof {
            lemma_assoc_skip(s, 0, d);
            assert(s.take(0) =~= Seq::<(Date, Option<String>)>::empty());
        }
        None
    }
}

/// Builds the render pass's lookup from the store snapshot, inserting each
/// record's color in stored order.
pub fn build_color_lookup(records: &Vec<DayRecord>) -> (l: ColorLookup)
    ensures
        l@ == spec_lookup_map(records.deep_view()),
{
    let ghost rs = records.deep_view();
    let mut l = ColorLookup::new();
    let mut i: usize = 0;
    while i < records.len()
        invariant
            i <= records@.len(),
            rs == records.deep_view(),
            rs.len() == records@.len(),
            l@ == spec_lookup_map(rs.take(i as int)),
        decreases records@.len() - i,
    {
        let r = &records[i];
        let color = match &r.color {
            Some(c) => Some(c.clone()),
            None => None,
        };
        l.insert(r.date, color);
        proof {
            assert(rs.take(i + 1).drop_last() =~= rs.take(i as int));
            assert(rs.take(i + 1).last() == rs[i as int]);
        }
        i = i + 1;
    }
    proof {
        assert(rs.take(rs.len() as int) =~= rs);
    }
    l
}

/// Whether the snapshot already holds a record for the given date.
pub fn has_entry_for(records: &Vec<DayRecord>, d: Date) -> (r: bool)
    ensures
        r == spec_has_entry(records.deep_view(), d),
{
    let ghost rs = records.deep_view();
    let mut i: usize = 0;
    while i < records.len()
        invariant
            i <= records@.len(),
            rs == records.deep_view(),
            rs.len() == records@.len(),
            forall|k: int| 0 <= k < i ==> (#[trigger] rs[k]).date != d,
        decreases records@.len() - i,
    {
        if records[i].date == d {
            assert(rs[i as int].date == d);
            return true;
        }
        i = i + 1;
    }
    false
}

/// Inserting a record `r1` and then a record `r2` for the same date leaves
/// the lookup resolving that date to `r2`'s color.
pub proof fn lemma_last_record_wins(
    rs: Seq<DayRecordView>,
    r1: DayRecordView,
    r2: DayRecordView,
)
    requires
        r1.date == r2.date,
    ensures
        spec_lookup_map(rs.push(r1).push(r2)).contains_key(r2.date),
        spec_lookup_map(rs.push(r1).push(r2))[r2.date] == r2.color,
{
    let s2 = rs.push(r1).push(r2);
    assert(s2.last() == r2);
}

} // verus!
