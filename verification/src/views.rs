//! Zero-copy views over the store: families, rrsets, and their cursors.
//!
//! A view is a read-only index range over the store's record vector.  A
//! family is a maximal run of records sharing owner name and class; an
//! rrset additionally shares the record type.

use vstd::prelude::*;
use crate::name::Name;
use crate::record::{
    fam_matches, in_zone_spec, same_family_spec, same_rrset_spec, FamilyName, FamilyNameSpec,
    Record, RecordSpec, RTYPE_NS,
};
use crate::store::views_of;

verus! {

/// Where the family of `first` ends, scanning from `j`: the first position
/// at or after `j` whose record is not of `first`'s family.
pub open spec fn family_end(s: Seq<RecordSpec>, first: RecordSpec, j: int) -> int
    decreases s.len() - j,
{
    if j < s.len() && same_family_spec(first, s[j]) {
        family_end(s, first, j + 1)
    } else {
        j
    }
}

/// Where the rrset of `first` ends, scanning from `j`.
pub open spec fn rrset_end(s: Seq<RecordSpec>, first: RecordSpec, j: int) -> int
    decreases s.len() - j,
{
    if j < s.len() && same_rrset_spec(first, s[j]) {
        rrset_end(s, first, j + 1)
    } else {
        j
    }
}

/// Within a family that ends at `end`, where the run of records typed `t`
/// ends, scanning from `j`.
pub open spec fn type_run_end(s: Seq<RecordSpec>, end: int, t: u16, j: int) -> int
    decreases end - j,
{
    if j < end && j < s.len() && s[j].rtype == t {
        type_run_end(s, end, t, j + 1)
    } else {
        j
    }
}

/// Where a cursor stops that drops leading records not carrying the family
/// name `ap`: the first position at or after `j` that carries it, or the end.
pub open spec fn skip_pos(s: Seq<RecordSpec>, ap: FamilyNameSpec, j: int) -> int
    decreases s.len() - j,
{
    if j < s.len() && !fam_matches(s[j], ap) {
        skip_pos(s, ap, j + 1)
    } else {
        j
    }
}

pub proof fn lemma_family_end(s: Seq<RecordSpec>, first: RecordSpec, j: int)
    requires
        0 <= j <= s.len(),
    ensures
        j <= family_end(s, first, j) <= s.len(),
        forall|k: int|
            j <= k < family_end(s, first, j) ==> same_family_spec(first, #[trigger] s[k]),
        family_end(s, first, j) < s.len() ==> !same_family_spec(first, s[family_end(s, first, j)]),
    decreases s.len() - j,
{
    if j < s.len() && same_family_spec(first, s[j]) {
        lemma_family_end(s, first, j + 1);
    }
}

pub proof fn lemma_rrset_end(s: Seq<RecordSpec>, first: RecordSpec, j: int)
    requires
        0 <= j <= s.len(),
    ensures
        j <= rrset_end(s, first, j) <= s.len(),
        forall|k: int| j <= k < rrset_end(s, first, j) ==> same_rrset_spec(first, #[trigger] s[k]),
        rrset_end(s, first, j) < s.len() ==> !same_rrset_spec(first, s[rrset_end(s, first, j)]),
    decreases s.len() - j,
{
    if j < s.len() && same_rrset_spec(first, s[j]) {
        lemma_rrset_end(s, first, j + 1);
    }
}

pub proof fn lemma_type_run_end(s: Seq<RecordSpec>, end: int, t: u16, j: int)
    requires
        0 <= j <= end <= s.len(),
    ensures
        j <= type_run_end(s, end, t, j) <= end,
        forall|k: int| j <= k < type_run_end(s, end, t, j) ==> (#[trigger] s[k]).rtype == t,
        type_run_end(s, end, t, j) < end ==> s[type_run_end(s, end, t, j)].rtype != t,
    decreases end - j,
{
    if j < end && s[j].rtype == t {
        lemma_type_run_end(s, end, t, j + 1);
    }
}

/// The cursor that drops leading records never passes one carrying the
/// sought family name: everything it skips does not carry it, and it stops
/// at the first record that does.
pub proof fn lemma_skip_pos(s: Seq<RecordSpec>, ap: FamilyNameSpec, j: int)
    requires
        0 <= j <= s.len(),
    ensures
        j <= skip_pos(s, ap, j) <= s.len(),
        forall|k: int| j <= k < skip_pos(s, ap, j) ==> !fam_matches(#[trigger] s[k], ap),
        skip_pos(s, ap, j) < s.len() ==> fam_matches(s[skip_pos(s, ap, j)], ap),
        j < s.len() && fam_matches(s[j], ap) ==> skip_pos(s, ap, j) == j,
    decreases s.len() - j,
{
    if j < s.len() && !fam_matches(s[j], ap) {
        lemma_skip_pos(s, ap, j + 1);
    }
}

/// Computes `family_end` for the family starting at `i`.
pub(crate) fn family_run_end(records: &Vec<Record>, i: usize) -> (r: usize)
    requires
        i < records@.len(),
    ensures
        r as int == family_end(views_of(records@), views_of(records@)[i as int], i as int + 1),
        i < r <= records@.len(),
{
    let ghost s = views_of(records@);
    let n = records.len();
    let mut j: usize = i + 1;
    loop
        invariant
            i < j <= s.len(),
            s == views_of(records@),
            s.len() == records@.len(),
            s.len() == n,
            family_end(s, s[i as int], i as int + 1) == family_end(s, s[i as int], j as int),
        ensures
            i < j <= s.len(),
            family_end(s, s[i as int], i as int + 1) == j as int,
        decreases s.len() - j,
    {
        if j >= records.len() {
            break;
        }
        proof {
            assert(s[j as int] == records@[j as int]@);
            assert(s[i as int] == records@[i as int]@);
        }
        if !records[i].same_family(&records[j]) {
            break;
        }
        j = j + 1;
    }
    proof {
        lemma_family_end(s, s[i as int], i as int + 1);
    }
    j
}

/// Computes `rrset_end` for the rrset starting at `i`.
pub(crate) fn rrset_run_end(records: &Vec<Record>, i: usize) -> (r: usize)
    requires
        i < records@.len(),
    ensures
        r as int == rrset_end(views_of(records@), views_of(records@)[i as int], i as int + 1),
        i < r <= records@.len(),
{
    let ghost s = views_of(records@);
    let n = records.len();
    let mut j: usize = i + 1;
    loop
        invariant
            i < j <= s.len(),
            s == views_of(records@),
            s.len() == records@.len(),
            s.len() == n,
            rrset_end(s, s[i as int], i as int + 1) == rrset_end(s, s[i as int], j as int),
        ensures
            i < j <= s.len(),
            rrset_end(s, s[i as int], i as int + 1) == j as int,
        decreases s.len() - j,
    {
        if j >= records.len() {
            break;
        }
        proof {
            assert(s[j as int] == records@[j as int]@);
            assert(s[i as int] == records@[i as int]@);
        }
        if !records[i].same_rrset(&records[j]) {
            break;
        }
        j = j + 1;
    }
    proof {
        lemma_rrset_end(s, s[i as int], i as int + 1);
    }
    j
}

/// An exact copy of the records in `[start, end)`.
pub(crate) fn copy_range(records: &Vec<Record>, start: usize, end: usize) -> (r: Vec<Record>)
    requires
        start <= end <= records@.len(),
    ensures
        r@.len() == end - start,
        forall|k: int| 0 <= k < r@.len() ==> (#[trigger] r@[k])@ == records@[start + k]@,
{
    let mut r: Vec<Record> = Vec::new();
    let mut i: usize = start;
    while i < end
        invariant
            start <= i <= end <= records@.len(),
            r@.len() == i - start,
            forall|k: int| 0 <= k < r@.len() ==> (#[trigger] r@[k])@ == records@[start + k]@,
        decreases end - i,
    {
        r.push(records[i].clone());
        i = i + 1;
    }
    r
}

/// A family view: the records in `[start, end)` share owner name and class.
pub struct Family<'a> {
    pub records: &'a Vec<Record>,
    pub start: usize,
    pub end: usize,
}

/// Whether this family itself is a zone cut below `ap`: its name is not the
/// apex name and an NS record is present.
pub open spec fn family_is_cut_spec(
    s: Seq<RecordSpec>,
    start: int,
    end: int,
    ap: FamilyNameSpec,
) -> bool {
    !fam_matches(s[start], ap) && exists|k: int|
        start <= k < end && (#[trigger] s[k]).rtype == RTYPE_NS
}

impl<'a> Family<'a> {
    pub open spec fn in_bounds(&self) -> bool {
        self.start < self.end <= self.records@.len()
    }

    /// The shared owner name, as the first record carries it.
    pub fn owner(&self) -> (r: &Name)
        requires
            self.in_bounds(),
        ensures
            r@ == self.records@[self.start as int]@.owner,
    {
        &self.records[self.start].owner
    }

    /// The shared class.
    pub fn class(&self) -> (r: u16)
        requires
            self.in_bounds(),
        ensures
            r == self.records@[self.start as int]@.class,
    {
        self.records[self.start].class
    }

    /// The family's name: owner and class.
    pub fn family_name(&self) -> (r: FamilyName)
        requires
            self.in_bounds(),
        ensures
            r@.owner == self.records@[self.start as int]@.owner,
            r@.class == self.records@[self.start as int]@.class,
    {
        FamilyName::new(self.records[self.start].owner.clone(), self.records[self.start].class)
    }

    /// A cursor over the family's rrsets.
    pub fn rrsets(&self) -> (r: FamilyIter<'a>)
        ensures
            r.records@ == self.records@,
            r.pos == self.start,
            r.end == self.end,
    {
        FamilyIter { records: self.records, pos: self.start, end: self.end }
    }

    /// The member records, in canonical order.
    pub fn records(&self) -> (r: Vec<Record>)
        requires
            self.start <= self.end <= self.records@.len(),
        ensures
            r@.len() == self.end - self.start,
            forall|k: int|
                0 <= k < r@.len() ==> (#[trigger] r@[k])@ == self.records@[self.start + k]@,
    {
        copy_range(self.records, self.start, self.end)
    }

    /// Whether this family is the parent side of a zone cut: not the apex
    /// itself, and carrying an NS record.
    pub fn is_zone_cut(&self, apex: &FamilyName) -> (r: bool)
        requires
            self.in_bounds(),
        ensures
            r == family_is_cut_spec(
                views_of(self.records@),
                self.start as int,
                self.end as int,
                apex@,
            ),
    {
        let ghost s = views_of(self.records@);
        if apex.matches_record(&self.records[self.start]) {
            proof {
                assert(s[self.start as int] == self.records@[self.start as int]@);
            }
            return false;
        }
        proof {
            assert(s[self.start as int] == self.records@[self.start as int]@);
        }
        let mut k: usize = self.start;
        while k < self.end
            invariant
                self.start <= k <= self.end <= s.len(),
                s == views_of(self.records@),
                s.len() == self.records@.len(),
                !fam_matches(s[self.start as int], apex@),
                forall|m: int| self.start <= m < k ==> (#[trigger] s[m]).rtype != RTYPE_NS,
            decreases self.end - k,
        {
            proof {
                assert(s[k as int] == self.records@[k as int]@);
            }
            if self.records[k].rtype == RTYPE_NS {
                proof {
                    assert(self.start <= k < self.end && (s[k as int]).rtype == RTYPE_NS);
                }
                return true;
            }
            k = k + 1;
        }
        false
    }

    /// Whether this family lies in the zone whose apex is `apex`.
    pub fn is_in_zone(&self, apex: &FamilyName) -> (r: bool)
        requires
            self.in_bounds(),
        ensures
            r == in_zone_spec(self.records@[self.start as int]@, apex@),
    {
        self.records[self.start].owner.ends_with(apex.owner()) && self.records[self.start].class
            == apex.class()
    }
}

/// An rrset view: the records in `[start, end)` share owner name, class,
/// and record type.
pub struct Rrset<'a> {
    pub records: &'a Vec<Record>,
    pub start: usize,
    pub end: usize,
}

impl<'a> Rrset<'a> {
    pub open spec fn in_bounds(&self) -> bool {
        self.start < self.end <= self.records@.len()
    }

    /// The shared owner name, as the first record carries it.
    pub fn owner(&self) -> (r: &Name)
        requires
            self.in_bounds(),
        ensures
            r@ == self.records@[self.start as int]@.owner,
    {
        &self.records[self.start].owner
    }

    /// The shared class.
    pub fn class(&self) -> (r: u16)
        requires
            self.in_bounds(),
        ensures
            r == self.records@[self.start as int]@.class,
    {
        self.records[self.start].class
    }

    /// The rrset's family name: owner and class.
    pub fn family_name(&self) -> (r: FamilyName)
        requires
            self.in_bounds(),
        ensures
            r@.owner == self.records@[self.start as int]@.owner,
            r@.class == self.records@[self.start as int]@.class,
    {
        FamilyName::new(self.records[self.start].owner.clone(), self.records[self.start].class)
    }

    /// The shared record type.
    pub fn rtype(&self) -> (r: u16)
        requires
            self.in_bounds(),
        ensures
            r == self.records@[self.start as int]@.rtype,
    {
        self.records[self.start].rtype
    }

    /// The rrset's nominal TTL: the first member's, by protocol convention.
    pub fn ttl(&self) -> (r: u32)
        requires
            self.in_bounds(),
        ensures
            r == self.records@[self.start as int]@.ttl,
    {
        self.records[self.start].ttl
    }

    /// The first member record.
    pub fn first(&self) -> (r: &Record)
        requires
            self.in_bounds(),
        ensures
            r@ == self.records@[self.start as int]@,
    {
        &self.records[self.start]
    }

    /// The member records, in canonical order.
    pub fn iter(&self) -> (r: Vec<Record>)
        requires
            self.start <= self.end <= self.records@.len(),
        ensures
            r@.len() == self.end - self.start,
            forall|k: int|
                0 <= k < r@.len() ==> (#[trigger] r@[k])@ == self.records@[self.start + k]@,
    {
        copy_range(self.records, self.start, self.end)
    }
}

/// A cursor that yields the store's families in canonical order.
pub struct RecordsIter<'a> {
    pub records: &'a Vec<Record>,
    pub pos: usize,
}

impl<'a> RecordsIter<'a> {
    pub open spec fn wf(&self) -> bool {
        self.pos <= self.records@.len()
    }

    /// Drops leading records until the next record carries the family name
    /// `apex`.  It never passes one that does; with the sought family
    /// already in front, the cursor is left where it stood.
    pub fn skip_before(&mut self, apex: &FamilyName)
        requires
            old(self).wf(),
        ensures
            final(self).records@ == old(self).records@,
            final(self).pos as int == skip_pos(
                views_of(old(self).records@),
                apex@,
                old(self).pos as int,
            ),
            final(self).wf(),
    {
        let ghost s = views_of(self.records@);
        loop
            invariant
                self.records@ == old(self).records@,
                self.pos <= s.len(),
                s == views_of(self.records@),
                s.len() == self.records@.len(),
                skip_pos(s, apex@, old(self).pos as int) == skip_pos(s, apex@, self.pos as int),
            ensures
                self.records@ == old(self).records@,
                self.pos <= s.len(),
                s == views_of(self.records@),
                skip_pos(s, apex@, old(self).pos as int) == self.pos as int,
            decreases s.len() - self.pos,
        {
            if self.pos >= self.records.len() {
                break;
            }
            proof {
                assert(s[self.pos as int] == self.records@[self.pos as int]@);
            }
            if apex.matches_record(&self.records[self.pos]) {
                break;
            }
            self.pos = self.pos + 1;
        }
    }

    /// The next family, as the maximal run beginning at the cursor.
    pub fn next(&mut self) -> (r: Option<Family<'a>>)
        requires
            old(self).wf(),
        ensures
            final(self).records@ == old(self).records@,
            final(self).wf(),
            old(self).pos >= old(self).records@.len() ==> r is None && final(self).pos == old(
                self,
            ).pos,
            old(self).pos < old(self).records@.len() ==> ({
                let s = views_of(old(self).records@);
                let e = family_end(s, s[old(self).pos as int], old(self).pos as int + 1);
                &&& (r matches Some(f) && f.records@ == old(self).records@ && f.start == old(
                    self,
                ).pos && f.end as int == e)
                &&& final(self).pos as int == e
            }),
    {
        if self.pos >= self.records.len() {
            return None;
        }
        let end = family_run_end(self.records, self.pos);
        let f = Family { records: self.records, start: self.pos, end };
        self.pos = end;
        Some(f)
    }
}

/// A cursor that yields the store's rrsets in canonical order.
pub struct RrsetIter<'a> {
    pub records: &'a Vec<Record>,
    pub pos: usize,
}

impl<'a> RrsetIter<'a> {
    pub open spec fn wf(&self) -> bool {
        self.pos <= self.records@.len()
    }

    /// The next rrset, as the maximal run beginning at the cursor.
    pub fn next(&mut self) -> (r: Option<Rrset<'a>>)
        requires
            old(self).wf(),
        ensures
            final(self).records@ == old(self).records@,
            final(self).wf(),
            old(self).pos >= old(self).records@.len() ==> r is None && final(self).pos == old(
                self,
            ).pos,
            old(self).pos < old(self).records@.len() ==> ({
                let s = views_of(old(self).records@);
                let e = rrset_end(s, s[old(self).pos as int], old(self).pos as int + 1);
                &&& (r matches Some(f) && f.records@ == old(self).records@ && f.start == old(
                    self,
                ).pos && f.end as int == e)
                &&& final(self).pos as int == e
            }),
    {
        if self.pos >= self.records.len() {
            return None;
        }
        let end = rrset_run_end(self.records, self.pos);
        let f = Rrset { records: self.records, start: self.pos, end };
        self.pos = end;
        Some(f)
    }
}

/// A cursor that yields one family's rrsets in canonical order.
pub struct FamilyIter<'a> {
    pub records: &'a Vec<Record>,
    pub pos: usize,
    pub end: usize,
}

impl<'a> FamilyIter<'a> {
    pub open spec fn wf(&self) -> bool {
        self.pos <= self.end <= self.records@.len()
    }

    /// The next rrset within the family: the run of the type beginning at
    /// the cursor.
    pub fn next(&mut self) -> (r: Option<Rrset<'a>>)
        requires
            old(self).wf(),
        ensures
            final(self).records@ == old(self).records@,
            final(self).end == old(self).end,
            final(self).wf(),
            old(self).pos >= old(self).end ==> r is None && final(self).pos == old(self).pos,
            old(self).pos < old(self).end ==> ({
                let s = views_of(old(self).records@);
                let e = type_run_end(
                    s,
                    old(self).end as int,
                    s[old(self).pos as int].rtype,
                    old(self).pos as int + 1,
                );
                &&& (r matches Some(f) && f.records@ == old(self).records@ && f.start == old(
                    self,
                ).pos && f.end as int == e)
                &&& final(self).pos as int == e
            }),
    {
        if self.pos >= self.end {
            return None;
        }
        let ghost s = views_of(self.records@);
        let ghost t = s[self.pos as int].rtype;
        let start = self.pos;
        let mut j: usize = self.pos + 1;
        proof {
            assert(s[start as int] == self.records@[start as int]@);
        }
        loop
            invariant
                start < j <= self.end <= s.len(),
                s == views_of(self.records@),
                s.len() == self.records@.len(),
                t == s[start as int].rtype,
                t == self.records@[start as int]@.rtype,
                type_run_end(s, self.end as int, t, start as int + 1) == type_run_end(
                    s,
                    self.end as int,
                    t,
                    j as int,
                ),
                self.pos == start,
            ensures
                start < j <= self.end,
                self.pos == start,
                self.end == old(self).end,
                self.records@ == old(self).records@,
                type_run_end(s, self.end as int, t, start as int + 1) == j as int,
            decreases self.end - j,
        {
            if j >= self.end {
                break;
            }
            proof {
                assert(s[j as int] == self.records@[j as int]@);
            }
            if self.records[j].rtype != self.records[start].rtype {
                break;
            }
            j = j + 1;
        }
        let f = Rrset { records: self.records, start, end: j };
        self.pos = j;
        Some(f)
    }
}


} // verus!
