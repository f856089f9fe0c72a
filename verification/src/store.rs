//! The canonical record store: an always-sorted, duplicate-free sequence.

use vstd::prelude::*;
use crate::record::{
    cmp_record_spec, lemma_cmp_record_flip, lemma_cmp_record_refl, lemma_cmp_record_trans,
    record_wf, Record, RecordSpec,
};
use crate::order::CmpRes;
use crate::record::RTYPE_SOA;
use crate::views::{rrset_end, rrset_run_end, RecordsIter, Rrset, RrsetIter};

verus! {

/// The records of a vector, as their mathematical contents.
pub open spec fn views_of(s: Seq<Record>) -> Seq<RecordSpec> {
    Seq::new(s.len(), |i: int| s[i]@)
}

/// Strictly ascending under the canonical order, so free of duplicates.
pub open spec fn sorted_spec(s: Seq<RecordSpec>) -> bool {
    forall|i: int, j: int|
        0 <= i < j < s.len() ==> cmp_record_spec(#[trigger] s[i], #[trigger] s[j]) == CmpRes::Lt
}

/// Every record well formed.
pub open spec fn records_wf(s: Seq<RecordSpec>) -> bool {
    forall|i: int| 0 <= i < s.len() ==> record_wf(#[trigger] s[i])
}

/// Whether `s` holds a record canonically equal to `rec`.
pub open spec fn has_equal(s: Seq<RecordSpec>, rec: RecordSpec) -> bool {
    exists|j: int| 0 <= j < s.len() && cmp_record_spec(#[trigger] s[j], rec) == CmpRes::Eq
}

/// Whether no earlier record of the collection is canonically equal to
/// the one at `i`: it is the first occurrence of its equality class.
pub open spec fn first_of_its_class(recs: Seq<Record>, i: int) -> bool {
    forall|k: int| 0 <= k < i ==> cmp_record_spec((#[trigger] recs[k])@, recs[i]@) != CmpRes::Eq
}

/// Whether `x` is the first occurrence of its canonical-equality class
/// in `recs`.
pub open spec fn is_first_occurrence_of(recs: Seq<Record>, x: RecordSpec) -> bool {
    exists|i: int| 0 <= i < recs.len() && x == (#[trigger] recs[i])@ && first_of_its_class(recs, i)
}

/// Where a record sorts into `s`, scanning from `i`: the first position
/// whose record does not come strictly before `r`.
pub open spec fn insert_pos(s: Seq<RecordSpec>, r: RecordSpec, i: int) -> int
    decreases s.len() - i,
{
    if i < s.len() && cmp_record_spec(s[i], r) == CmpRes::Lt {
        insert_pos(s, r, i + 1)
    } else {
        i
    }
}

proof fn lemma_insert_pos_from_bounds(s: Seq<RecordSpec>, r: RecordSpec, i: int)
    requires
        0 <= i <= s.len(),
    ensures
        i <= insert_pos(s, r, i) <= s.len(),
    decreases s.len() - i,
{
    if i < s.len() && cmp_record_spec(s[i], r) == CmpRes::Lt {
        lemma_insert_pos_from_bounds(s, r, i + 1);
    }
}

proof fn lemma_insert_pos_from(s: Seq<RecordSpec>, r: RecordSpec, i: int, p: int)
    requires
        0 <= i <= p <= s.len(),
        forall|j: int| i <= j < p ==> cmp_record_spec(#[trigger] s[j], r) == CmpRes::Lt,
        p == s.len() || cmp_record_spec(s[p], r) != CmpRes::Lt,
    ensures
        insert_pos(s, r, i) == p,
    decreases p - i,
{
    if i < p {
        lemma_insert_pos_from(s, r, i + 1, p);
    }
}

/// A collection of resource records kept sorted for signing.
pub struct SortedRecords {
    pub(crate) records: Vec<Record>,
}

impl View for SortedRecords {
    type V = Seq<RecordSpec>;

    closed spec fn view(&self) -> Seq<RecordSpec> {
        views_of(self.records@)
    }
}

impl SortedRecords {
    /// The store's invariant: sorted without duplicates, every record well
    /// formed.
    pub open spec fn wf(&self) -> bool {
        sorted_spec(self@) && records_wf(self@)
    }

    /// An empty store.
    pub fn new() -> (r: Self)
        ensures
            r@ == Seq::<RecordSpec>::empty(),
            r.wf(),
    {
        let r = SortedRecords { records: Vec::new() };
        proof {
            assert(r@ =~= Seq::<RecordSpec>::empty());
        }
        r
    }

    /// The number of records held.
    pub fn len(&self) -> (r: usize)
        ensures
            r == self@.len(),
    {
        self.records.len()
    }

    /// The record at position `i` in canonical order.
    pub fn record_at(&self, i: usize) -> (r: &Record)
        requires
            i < self@.len(),
        ensures
            r@ == self@[i as int],
    {
        &self.records[i]
    }

    /// Adds a record at its canonical position.  A record that is
    /// canonically equal to a stored one is refused and handed back
    /// unchanged, the store untouched.
    pub fn insert(&mut self, record: Record) -> (r: Result<(), Record>)
        requires
            old(self).wf(),
            record_wf(record@),
        ensures
            final(self).wf(),
            match r {
                Result::Err(rej) => {
                    &&& rej@ == record@
                    &&& final(self)@ == old(self)@
                    &&& exists|i: int|
                        0 <= i < old(self)@.len() && #[trigger] cmp_record_spec(
                            old(self)@[i],
                            record@,
                        ) == CmpRes::Eq
                },
                Result::Ok(_) => {
                    &&& (forall|i: int|
                        0 <= i < old(self)@.len() ==> #[trigger] cmp_record_spec(
                            old(self)@[i],
                            record@,
                        ) != CmpRes::Eq)
                    &&& final(self)@ == old(self)@.insert(
                        insert_pos(old(self)@, record@, 0),
                        record@,
                    )
                },
            },
    {
        let ghost s = self@;
        let mut lo: usize = 0;
        let mut hi: usize = self.records.len();
        while lo < hi
            invariant
                lo <= hi <= s.len(),
                self@ == s,
                s == views_of(self.records@),
                s.len() == self.records@.len(),
                sorted_spec(s),
                records_wf(s),
                forall|i: int|
                    0 <= i < lo ==> cmp_record_spec(#[trigger] s[i], record@) == CmpRes::Lt,
                forall|i: int|
                    hi <= i < s.len() ==> cmp_record_spec(#[trigger] s[i], record@) == CmpRes::Gt,
            decreases hi - lo,
        {
            let mid = lo + (hi - lo) / 2;
            proof {
                assert(s[mid as int] == self.records@[mid as int]@);
            }
            match self.records[mid].canonical_cmp(&record) {
                CmpRes::Lt => {
                    proof {
                        assert forall|i: int|
                            0 <= i < mid + 1 implies cmp_record_spec(s[i], record@)
                            == CmpRes::Lt by {
                            if i < mid {
                                lemma_cmp_record_trans(s[i], s[mid as int], record@);
                            }
                        }
                    }
                    lo = mid + 1;
                },
                CmpRes::Gt => {
                    proof {
                        assert forall|i: int|
                            mid <= i < s.len() implies cmp_record_spec(s[i], record@)
                            == CmpRes::Gt by {
                            if i > mid {
                                lemma_cmp_record_flip(s[mid as int], record@);
                                lemma_cmp_record_trans(record@, s[mid as int], s[i]);
                                lemma_cmp_record_flip(s[i], record@);
                            }
                        }
                    }
                    hi = mid;
                },
                CmpRes::Eq => {
                    return Result::Err(record);
                },
            }
        }
        proof {
            lemma_insert_pos_from(s, record@, 0, lo as int);
        }
        let ghost pos = lo as int;
        self.records.insert(lo, record);
        proof {
            assert(self@ =~= s.insert(pos, record@));
            assert forall|i: int, j: int|
                0 <= i < j < self@.len() implies cmp_record_spec(self@[i], self@[j])
                == CmpRes::Lt by {
                if j == pos {
                    // the stored record before the new one comes first
                } else if i == pos {
                    lemma_cmp_record_flip(s[j - 1], record@);
                }
            }
        }
        Result::Ok(())
    }

    /// Adds every record of the collection in turn: one that is
    /// canonically equal to a stored record is silently dropped, so of
    /// several equal records the first occurrence is the one kept.
    pub fn extend_from(&mut self, records: Vec<Record>)
        requires
            old(self).wf(),
            forall|i: int| 0 <= i < records@.len() ==> record_wf((#[trigger] records@[i])@),
        ensures
            final(self).wf(),
            forall|j: int|
                0 <= j < old(self)@.len() ==> final(self)@.contains(#[trigger] old(self)@[j]),
            forall|i: int|
                0 <= i < records@.len() ==> has_equal(final(self)@, (#[trigger] records@[i])@),
            forall|j: int|
                0 <= j < final(self)@.len() ==> old(self)@.contains(#[trigger] final(self)@[j])
                    || exists|i: int|
                    0 <= i < records@.len() && final(self)@[j] == records@[i]@
                        && first_of_its_class(records@, i) && !has_equal(
                        old(self)@,
                        records@[i]@,
                    ),
    {
        let ghost recs = records@;
        let mut i: usize = 0;
        while i < records.len()
            invariant
                i <= recs.len(),
                recs == records@,
                self.wf(),
                forall|k: int| 0 <= k < recs.len() ==> record_wf((#[trigger] recs[k])@),
                forall|j: int|
                    0 <= j < old(self)@.len() ==> self@.contains(#[trigger] old(self)@[j]),
                forall|k: int| 0 <= k < i ==> has_equal(self@, (#[trigger] recs[k])@),
                forall|j: int|
                    0 <= j < self@.len() ==> old(self)@.contains(#[trigger] self@[j]) || exists|
                        k: int,
                    |
                        0 <= k < i && self@[j] == recs[k]@ && first_of_its_class(recs, k)
                            && !has_equal(old(self)@, recs[k]@),
            decreases recs.len() - i,
        {
            let ghost before = self@;
            let rec = records[i].clone();
            proof {
                assert(recs[i as int]@ == rec@);
            }
            let res = self.insert(rec);
            proof {
                match res {
                    Result::Ok(_) => {
                        let pos = insert_pos(before, rec@, 0);
                        lemma_insert_pos_from_bounds(before, rec@, 0);
                        assert(self@ == before.insert(pos, rec@));
                        assert forall|j: int|
                            0 <= j < before.len() implies self@.contains(
                            #[trigger] before[j],
                        ) by {
                            if j < pos {
                                assert(self@[j] == before[j]);
                            } else {
                                assert(self@[j + 1] == before[j]);
                            }
                        }
                        // the record just added is the first of its class
                        // among the inputs, and its class is new here
                        assert(self@[pos] == rec@);
                        lemma_cmp_record_refl(rec@);
                        assert(has_equal(self@, recs[i as int]@));
                        assert forall|k: int|
                            0 <= k < i implies cmp_record_spec(recs[k]@, recs[i as int]@)
                            != CmpRes::Eq by {
                            if cmp_record_spec(recs[k]@, recs[i as int]@) == CmpRes::Eq {
                                let w = choose|w: int|
                                    0 <= w < before.len() && cmp_record_spec(before[w], recs[k]@)
                                        == CmpRes::Eq;
                                lemma_cmp_record_trans(before[w], recs[k]@, recs[i as int]@);
                            }
                        }
                        assert(first_of_its_class(recs, i as int));
                        assert forall|w: int|
                            0 <= w < old(self)@.len() implies cmp_record_spec(
                            old(self)@[w],
                            rec@,
                        ) != CmpRes::Eq by {
                            let j0 = choose|j0: int|
                                0 <= j0 < before.len() && before[j0] == old(self)@[w];
                        }
                        assert(!has_equal(old(self)@, recs[i as int]@));
                        // every earlier certificate survives the shift
                        assert forall|k: int|
                            0 <= k < i + 1 implies has_equal(self@, (#[trigger] recs[k])@) by {
                            if k < i {
                                let j0 = choose|j0: int|
                                    0 <= j0 < before.len() && cmp_record_spec(before[j0], recs[k]@)
                                        == CmpRes::Eq;
                                if j0 < pos {
                                    assert(self@[j0] == before[j0]);
                                } else {
                                    assert(self@[j0 + 1] == before[j0]);
                                }
                            }
                        }
                        assert forall|j: int|
                            0 <= j < self@.len() implies old(self)@.contains(
                            #[trigger] self@[j],
                        ) || exists|k: int|
                            0 <= k < i + 1 && self@[j] == recs[k]@ && first_of_its_class(recs, k)
                                && !has_equal(old(self)@, recs[k]@) by {
                            if j < pos {
                                assert(self@[j] == before[j]);
                            } else if j == pos {
                                assert(self@[j] == recs[i as int]@);
                            } else {
                                assert(self@[j] == before[j - 1]);
                            }
                        }
                    },
                    Result::Err(_) => {
                        let w = choose|w: int|
                            0 <= w < before.len() && cmp_record_spec(before[w], rec@)
                                == CmpRes::Eq;
                        assert(has_equal(self@, recs[i as int]@));
                    },
                }
            }
            i = i + 1;
        }
    }

    /// Builds a store from an arbitrary collection of records: the result
    /// is sorted under the canonical order and holds exactly one record
    /// per canonical-equality class of the input, the first occurrence of
    /// each.
    pub fn from_vec(records: Vec<Record>) -> (r: SortedRecords)
        requires
            forall|i: int| 0 <= i < records@.len() ==> record_wf((#[trigger] records@[i])@),
        ensures
            r.wf(),
            forall|i: int|
                0 <= i < records@.len() ==> has_equal(r@, (#[trigger] records@[i])@),
            forall|j: int|
                0 <= j < r@.len() ==> is_first_occurrence_of(records@, #[trigger] r@[j]),
    {
        let ghost recs = records@;
        let mut r = SortedRecords::new();
        // which input record each stored record came from
        let ghost mut src_of = Seq::<int>::empty();
        let mut i: usize = 0;
        while i < records.len()
            invariant
                i <= recs.len(),
                recs == records@,
                r.wf(),
                forall|k: int| 0 <= k < recs.len() ==> record_wf((#[trigger] recs[k])@),
                forall|k: int| 0 <= k < i ==> has_equal(r@, (#[trigger] recs[k])@),
                src_of.len() == r@.len(),
                forall|j: int|
                    0 <= j < r@.len() ==> 0 <= #[trigger] src_of[j] < i && r@[j]
                        == recs[src_of[j]]@ && first_of_its_class(recs, src_of[j]),
            decreases recs.len() - i,
        {
            let ghost before = r@;
            let rec = records[i].clone();
            proof {
                assert(recs[i as int]@ == rec@);
            }
            let res = r.insert(rec);
            proof {
                match res {
                    Result::Ok(_) => {
                        let pos = insert_pos(before, rec@, 0);
                        lemma_insert_pos_from_bounds(before, rec@, 0);
                        assert(r@ == before.insert(pos, rec@));
                        assert(r@[pos] == rec@);
                        lemma_cmp_record_refl(rec@);
                        assert(has_equal(r@, recs[i as int]@));
                        // the record just added is the first of its class
                        assert forall|k: int|
                            0 <= k < i implies cmp_record_spec(recs[k]@, recs[i as int]@)
                            != CmpRes::Eq by {
                            if cmp_record_spec(recs[k]@, recs[i as int]@) == CmpRes::Eq {
                                let w = choose|w: int|
                                    0 <= w < before.len() && cmp_record_spec(before[w], recs[k]@)
                                        == CmpRes::Eq;
                                lemma_cmp_record_trans(before[w], recs[k]@, recs[i as int]@);
                            }
                        }
                        assert(first_of_its_class(recs, i as int));
                        // every earlier certificate survives the shift
                        assert forall|k: int|
                            0 <= k < i + 1 implies has_equal(r@, (#[trigger] recs[k])@) by {
                            if k < i {
                                let j0 = choose|j0: int|
                                    0 <= j0 < before.len() && cmp_record_spec(before[j0], recs[k]@)
                                        == CmpRes::Eq;
                                if j0 < pos {
                                    assert(r@[j0] == before[j0]);
                                } else {
                                    assert(r@[j0 + 1] == before[j0]);
                                }
                            }
                        }
                        let src_before = src_of;
                        src_of = src_of.insert(pos, i as int);
                        assert forall|j: int|
                            0 <= j < r@.len() implies 0 <= #[trigger] src_of[j] < i + 1 && r@[j]
                            == recs[src_of[j]]@ && first_of_its_class(recs, src_of[j]) by {
                            if j < pos {
                                assert(r@[j] == before[j]);
                                assert(src_of[j] == src_before[j]);
                            } else if j == pos {
                                assert(src_of[j] == i as int);
                            } else {
                                assert(r@[j] == before[j - 1]);
                                assert(src_of[j] == src_before[j - 1]);
                            }
                        }
                    },
                    Result::Err(_) => {
                        let w = choose|w: int|
                            0 <= w < before.len() && cmp_record_spec(before[w], rec@)
                                == CmpRes::Eq;
                        assert(has_equal(r@, recs[i as int]@));
                    },
                }
            }
            i = i + 1;
        }
        proof {
            assert forall|j: int|
                0 <= j < r@.len() implies is_first_occurrence_of(records@, #[trigger] r@[j]) by {
                let w = src_of[j];
                assert(0 <= w < records@.len());
                assert(r@[j] == records@[w]@ && first_of_its_class(records@, w));
            }
        }
        r
    }
}

impl Default for SortedRecords {
    /// The default store is empty.
    fn default() -> (r: Self)
        ensures
            r@ == Seq::<RecordSpec>::empty(),
            r.wf(),
    {
        SortedRecords::new()
    }
}

impl SortedRecords {
    /// A cursor over the store's families.
    pub fn families<'a>(&'a self) -> (r: RecordsIter<'a>)
        ensures
            views_of(r.records@) == self@,
            r.pos == 0,
            r.wf(),
    {
        RecordsIter { records: &self.records, pos: 0 }
    }

    /// A cursor over the store's rrsets.
    pub fn rrsets<'a>(&'a self) -> (r: RrsetIter<'a>)
        ensures
            views_of(r.records@) == self@,
            r.pos == 0,
            r.wf(),
    {
        RrsetIter { records: &self.records, pos: 0 }
    }

    /// The first SOA rrset, if one is present.
    pub fn find_soa<'a>(&'a self) -> (r: Option<Rrset<'a>>)
        ensures
            match r {
                Some(rr) => {
                    &&& views_of(rr.records@) == self@
                    &&& rr.start < rr.end <= self@.len()
                    &&& self@[rr.start as int].rtype == RTYPE_SOA
                    &&& (forall|k: int|
                        0 <= k < rr.start ==> (#[trigger] self@[k]).rtype != RTYPE_SOA)
                    &&& rr.end as int == rrset_end(
                        self@,
                        self@[rr.start as int],
                        rr.start as int + 1,
                    )
                },
                None => forall|k: int|
                    0 <= k < self@.len() ==> (#[trigger] self@[k]).rtype != RTYPE_SOA,
            },
    {
        let ghost s = self@;
        let mut i: usize = 0;
        while i < self.records.len()
            invariant
                i <= s.len(),
                s == views_of(self.records@),
                s.len() == self.records@.len(),
                forall|k: int| 0 <= k < i ==> (#[trigger] s[k]).rtype != RTYPE_SOA,
            decreases s.len() - i,
        {
            proof {
                assert(s[i as int] == self.records@[i as int]@);
            }
            if self.records[i].rtype == RTYPE_SOA {
                let end = rrset_run_end(&self.records, i);
                return Some(Rrset { records: &self.records, start: i, end });
            }
            i = i + 1;
        }
        None
    }
}


/// In a sorted store the owner names never descend: families and rrsets
/// come out with owners in ascending canonical order, and the records
/// themselves ascend strictly.
pub proof fn lemma_owners_ascending(s: Seq<RecordSpec>)
    requires
        sorted_spec(s),
    ensures
        forall|i: int, j: int|
            0 <= i < j < s.len() ==> crate::order::cmp_names(
                (#[trigger] s[i]).owner,
                (#[trigger] s[j]).owner,
            ) != CmpRes::Gt,
{
    assert forall|i: int, j: int| 0 <= i < j < s.len() implies crate::order::cmp_names(
        s[i].owner,
        s[j].owner,
    ) != CmpRes::Gt by {
        assert(cmp_record_spec(s[i], s[j]) == CmpRes::Lt);
    }
}

} // verus!
