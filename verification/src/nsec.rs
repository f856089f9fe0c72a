//! The NSEC chain builder: one record per eligible family, linked into a
//! closed ring, each carrying the types present at its owner.

use vstd::prelude::*;
use crate::name::Name;
use crate::record::{FamilyName, FamilyNameSpec, Record, RecordSpec, RTYPE_RRSIG};
use crate::sign::{lemma_type_run_lb, ranges_view, traverse, type_run_exec, walk, YieldInfo};
use crate::store::{views_of, SortedRecords};
use crate::views::{skip_pos, type_run_end};

verus! {

/// The mathematical content of an NSEC record.
pub struct NsecRecordSpec {
    pub owner: Seq<Seq<u8>>,
    pub class: u16,
    pub ttl: u32,
    pub next_name: Seq<Seq<u8>>,
    pub types: Seq<u16>,
}

/// An NSEC record: its owner, the next owner name in canonical order, and
/// the type bitmap as the ascending list of type codes present.
#[derive(Debug)]
pub struct NsecRecord {
    pub owner: Name,
    pub class: u16,
    pub ttl: u32,
    pub next_name: Name,
    pub types: Vec<u16>,
}

impl View for NsecRecord {
    type V = NsecRecordSpec;

    open spec fn view(&self) -> NsecRecordSpec {
        NsecRecordSpec {
            owner: self.owner@,
            class: self.class,
            ttl: self.ttl,
            next_name: self.next_name@,
            types: self.types@,
        }
    }
}

/// The NSEC records of a vector, as their mathematical contents.
pub open spec fn nsecs_view(v: Seq<NsecRecord>) -> Seq<NsecRecordSpec> {
    Seq::new(v.len(), |i: int| v[i]@)
}

/// The record types present in `[j, end)`, one entry per type run; the
/// store's order makes the list ascending within a family.
pub open spec fn type_list(s: Seq<RecordSpec>, j: int, end: int) -> Seq<u16>
    decreases end - j,
    via type_list_decreases
{
    if j >= end {
        Seq::empty()
    } else {
        Seq::empty().push(s[j].rtype) + type_list(s, type_run_end(s, end, s[j].rtype, j + 1), end)
    }
}

#[via_fn]
proof fn type_list_decreases(s: Seq<RecordSpec>, j: int, end: int) {
    if j < end {
        lemma_type_run_lb(s, end, s[j].rtype, j + 1);
    }
}

/// The type list with the RRSIG type set as well, kept ascending.
pub open spec fn with_rrsig_type(ts: Seq<u16>) -> Seq<u16>
    decreases ts.len(),
{
    if ts.len() == 0 {
        seq![RTYPE_RRSIG]
    } else if ts[0] == RTYPE_RRSIG {
        ts
    } else if ts[0] < RTYPE_RRSIG {
        Seq::empty().push(ts[0]) + with_rrsig_type(ts.drop_first())
    } else {
        Seq::empty().push(RTYPE_RRSIG) + ts
    }
}

/// The NSEC type bitmap of the family `[start, end)`: every type present,
/// with the RRSIG bit always set.
pub open spec fn family_types(s: Seq<RecordSpec>, start: int, end: int) -> Seq<u16> {
    with_rrsig_type(type_list(s, start, end))
}

/// The NSEC chain of a zone: one record per family the traversal yields,
/// each pointing at the next yielded owner, the last wrapping to the apex.
pub open spec fn nsec_list(s: Seq<RecordSpec>, ap: FamilyNameSpec, ttl: u32) -> Seq<
    NsecRecordSpec,
> {
    let ys = walk(s, ap, skip_pos(s, ap, 0), None);
    Seq::new(
        ys.len(),
        |k: int|
            NsecRecordSpec {
                owner: s[ys[k].start].owner,
                class: s[ys[k].start].class,
                ttl,
                next_name: if k + 1 < ys.len() {
                    s[ys[k + 1].start].owner
                } else {
                    ap.owner
                },
                types: family_types(s, ys[k].start, ys[k].end),
            },
    )
}

/// Collects the type of every type run in `[start, end)`.
fn collect_type_list(records: &Vec<Record>, start: usize, end: usize) -> (r: Vec<u16>)
    requires
        start <= end <= records@.len(),
    ensures
        r@ == type_list(views_of(records@), start as int, end as int),
{
    let ghost s = views_of(records@);
    let mut out: Vec<u16> = Vec::new();
    let mut j: usize = start;
    while j < end
        invariant
            start <= j <= end <= s.len(),
            s == views_of(records@),
            s.len() == records@.len(),
            out@ + type_list(s, j as int, end as int) == type_list(s, start as int, end as int),
        decreases end - j,
    {
        proof {
            assert(s[j as int] == records@[j as int]@);
        }
        let ghost before = out@;
        out.push(records[j].rtype);
        let re = type_run_exec(records, j, end);
        proof {
            assert(out@ + type_list(s, re as int, end as int) =~= before + type_list(
                s,
                j as int,
                end as int,
            ));
        }
        j = re;
    }
    proof {
        assert(type_list(s, end as int, end as int) =~= Seq::<u16>::empty());
        assert(out@ + Seq::<u16>::empty() =~= out@);
    }
    out
}

/// Sets the RRSIG type into an ascending type list.
fn add_rrsig_type(ts: Vec<u16>) -> (r: Vec<u16>)
    ensures
        r@ == with_rrsig_type(ts@),
{
    let n = ts.len();
    proof {
        assert(ts@.take(0) =~= Seq::<u16>::empty());
        assert(ts@.skip(0) =~= ts@);
        assert(Seq::<u16>::empty() + with_rrsig_type(ts@) =~= with_rrsig_type(ts@));
    }
    let mut i: usize = 0;
    loop
        invariant
            i <= n,
            n == ts@.len(),
            forall|k: int| 0 <= k < i ==> ts@[k] < RTYPE_RRSIG,
            with_rrsig_type(ts@) == ts@.take(i as int) + with_rrsig_type(ts@.skip(i as int)),
        ensures
            i <= n,
            n == ts@.len(),
            with_rrsig_type(ts@) == ts@.take(i as int) + with_rrsig_type(ts@.skip(i as int)),
            i == n || ts@[i as int] >= RTYPE_RRSIG,
        decreases n - i,
    {
        if i >= n {
            break;
        }
        if ts[i] >= RTYPE_RRSIG {
            break;
        }
        proof {
            let sk = ts@.skip(i as int);
            assert(sk[0] == ts@[i as int]);
            assert(sk.drop_first() =~= ts@.skip(i + 1 as int));
            assert(with_rrsig_type(sk) == Seq::empty().push(sk[0]) + with_rrsig_type(
                ts@.skip(i + 1 as int),
            ));
            assert(ts@.take(i as int) + (Seq::empty().push(ts@[i as int]) + with_rrsig_type(
                ts@.skip(i + 1 as int),
            )) =~= ts@.take(i + 1 as int) + with_rrsig_type(ts@.skip(i + 1 as int)));
        }
        i = i + 1;
    }
    if i < n {
        proof {
            assert(ts@.skip(i as int)[0] == ts@[i as int]);
        }
        if ts[i] == RTYPE_RRSIG {
            proof {
                assert(with_rrsig_type(ts@.skip(i as int)) == ts@.skip(i as int));
                assert(ts@.take(i as int) + ts@.skip(i as int) =~= ts@);
            }
            return ts;
        }
        proof {
            assert(with_rrsig_type(ts@.skip(i as int)) == Seq::empty().push(RTYPE_RRSIG)
                + ts@.skip(i as int));
        }
        let ghost tv = ts@;
        let mut v = ts;
        v.insert(i, RTYPE_RRSIG);
        proof {
            assert(v@ == tv.insert(i as int, RTYPE_RRSIG));
            assert(tv.insert(i as int, RTYPE_RRSIG) =~= tv.take(i as int) + (Seq::empty().push(
                RTYPE_RRSIG,
            ) + tv.skip(i as int)));
        }
        return v;
    }
    proof {
        assert(ts@.skip(n as int) =~= Seq::<u16>::empty());
        assert(with_rrsig_type(ts@.skip(n as int)) == seq![RTYPE_RRSIG]);
        assert(ts@.take(n as int) =~= ts@);
    }
    let ghost tv = ts@;
    let mut v = ts;
    v.push(RTYPE_RRSIG);
    proof {
        assert(v@ =~= tv.take(n as int) + with_rrsig_type(tv.skip(n as int)));
    }
    return v;
}


impl SortedRecords {
    /// Walks the zone from the apex and yields the closed NSEC ring: one
    /// record per eligible family, each naming the next eligible owner,
    /// the last wrapping back to the apex owner.
    pub fn nsecs(&self, apex: &FamilyName, ttl: u32) -> (r: Vec<NsecRecord>)
        requires
            self.wf(),
        ensures
            nsecs_view(r@) == nsec_list(self@, apex@, ttl),
    {
        let mut it = self.families();
        let recs = it.records;
        let ghost s = self@;
        it.skip_before(apex);
        let start = it.pos;
        let list = traverse(recs, apex, start);
        let ghost ys = ranges_view(list@);
        let ghost nl = nsec_list(s, apex@, ttl);
        proof {
            assert(ys == walk(s, apex@, skip_pos(s, apex@, 0), None::<Seq<Seq<u8>>>));
            assert(nl.len() == ys.len());
        }
        let mut res: Vec<NsecRecord> = Vec::new();
        let mut k: usize = 0;
        while k < list.len()
            invariant
                k <= list@.len(),
                s == views_of(recs@),
                s == self@,
                ys == ranges_view(list@),
                nl == nsec_list(s, apex@, ttl),
                ys == walk(s, apex@, skip_pos(s, apex@, 0), None::<Seq<Seq<u8>>>),
                nl.len() == ys.len(),
                ys.len() == list@.len(),
                forall|m: int|
                    0 <= m < list@.len() ==> (#[trigger] list@[m]).start < list@[m].end
                        && list@[m].end <= s.len(),
                res@.len() == k,
                forall|m: int| 0 <= m < k ==> (#[trigger] res@[m])@ == nl[m],
            decreases list@.len() - k,
        {
            let fam = list[k].start;
            let fend = list[k].end;
            proof {
                assert(ys[k as int] == list@[k as int]@);
                assert(s[fam as int] == recs@[fam as int]@);
            }
            let tl = collect_type_list(recs, fam, fend);
            let types = add_rrsig_type(tl);
            let next: Name = if k + 1 < list.len() {
                proof {
                    assert(ys[k as int + 1] == list@[k as int + 1]@);
                    assert(s[list@[k as int + 1].start as int] == recs@[list@[k as int + 1].start as int]@);
                }
                recs[list[k + 1].start].owner.clone()
            } else {
                apex.owner().clone()
            };
            let rec = NsecRecord {
                owner: recs[fam].owner.clone(),
                class: recs[fam].class,
                ttl,
                next_name: next,
                types,
            };
            proof {
                assert(nl[k as int] == NsecRecordSpec {
                    owner: s[ys[k as int].start].owner,
                    class: s[ys[k as int].start].class,
                    ttl,
                    next_name: if k as int + 1 < ys.len() {
                        s[ys[k as int + 1].start].owner
                    } else {
                        apex@.owner
                    },
                    types: family_types(s, ys[k as int].start, ys[k as int].end),
                });
                assert(rec@ == nl[k as int]);
            }
            res.push(rec);
            k = k + 1;
        }
        proof {
            assert(nsecs_view(res@) =~= nl);
        }
        res
    }
}


/// The NSEC chain is a closed ring: every record names the next record's
/// owner as its next name, and the last record wraps to the apex owner.
pub proof fn lemma_nsec_ring(s: Seq<RecordSpec>, ap: FamilyNameSpec, ttl: u32)
    ensures
        forall|k: int|
            0 <= k < nsec_list(s, ap, ttl).len() - 1 ==> (#[trigger] nsec_list(s, ap, ttl)[k]).next_name
                == nsec_list(s, ap, ttl)[k + 1].owner,
        nsec_list(s, ap, ttl).len() > 0 ==> nsec_list(s, ap, ttl)[nsec_list(s, ap, ttl).len()
            - 1].next_name == ap.owner,
{
}

/// A zone holding only its apex family yields exactly one NSEC record,
/// and its next name is the apex owner itself: a self-loop.
pub proof fn lemma_nsec_self_loop(s: Seq<RecordSpec>, ap: FamilyNameSpec, ttl: u32)
    requires
        s.len() > 0,
        forall|k: int| 0 <= k < s.len() ==> crate::record::fam_matches(#[trigger] s[k], ap),
    ensures
        nsec_list(s, ap, ttl).len() == 1,
        nsec_list(s, ap, ttl)[0].owner == s[0].owner,
        nsec_list(s, ap, ttl)[0].next_name == ap.owner,
{
    crate::views::lemma_skip_pos(s, ap, 0);
    assert(skip_pos(s, ap, 0) == 0);
    crate::order::lemma_name_eq_ends_with(s[0].owner, ap.owner);
    assert(crate::record::in_zone_spec(s[0], ap));
    let end = crate::views::family_end(s, s[0], 1);
    crate::views::lemma_family_end(s, s[0], 1);
    assert forall|k: int| 0 <= k < s.len() implies crate::record::same_family_spec(
        s[0],
        s[k],
    ) by {
        crate::order::lemma_cmp_names_flip(
            ap.owner,
            s[k].owner,
            ap.owner.len() as int,
            s[k].owner.len() as int,
        );
        crate::order::lemma_cmp_names_trans(
            s[0].owner,
            ap.owner,
            s[k].owner,
            s[0].owner.len() as int,
            ap.owner.len() as int,
            s[k].owner.len() as int,
        );
    }
    assert(end == s.len());
    assert(!crate::views::family_is_cut_spec(s, 0, end, ap));
    let ys = walk(s, ap, 0, None::<Seq<Seq<u8>>>);
    assert(walk(s, ap, end, None::<Seq<Seq<u8>>>) =~= Seq::<YieldInfo>::empty());
    assert(ys =~= Seq::empty().push(YieldInfo { start: 0, end, cut: false }));
}

proof fn lemma_type_list_members(s: Seq<RecordSpec>, j: int, end: int)
    requires
        0 <= j <= end <= s.len(),
    ensures
        forall|t: u16|
            #[trigger] type_list(s, j, end).contains(t) <==> exists|k: int|
                j <= k < end && (#[trigger] s[k]).rtype == t,
    decreases end - j,
{
    if j < end {
        let re = type_run_end(s, end, s[j].rtype, j + 1);
        crate::views::lemma_type_run_end(s, end, s[j].rtype, j + 1);
        lemma_type_list_members(s, re, end);
        let tl = type_list(s, j, end);
        let rest = type_list(s, re, end);
        assert forall|t: u16| #[trigger] tl.contains(t) implies exists|k: int|
            j <= k < end && (#[trigger] s[k]).rtype == t by {
            let w = choose|w: int| 0 <= w < tl.len() && tl[w] == t;
            if w == 0 {
                assert(s[j].rtype == t);
            } else {
                assert(rest[w - 1] == t);
                assert(rest.contains(t));
            }
        }
        assert forall|t: u16| (exists|k: int| j <= k < end && (#[trigger] s[k]).rtype == t)
            implies #[trigger] tl.contains(t) by {
            let k = choose|k: int| j <= k < end && (#[trigger] s[k]).rtype == t;
            if k < re {
                assert(s[k].rtype == s[j].rtype);
                assert(tl[0] == t);
            } else {
                assert(rest.contains(t));
                let w = choose|w: int| 0 <= w < rest.len() && rest[w] == t;
                assert(tl[w + 1] == t);
            }
        }
    } else {
        assert forall|t: u16| !(#[trigger] type_list(s, j, end).contains(t)) by {
            assert(type_list(s, j, end).len() == 0);
        }
    }
}

proof fn lemma_with_rrsig_members(ts: Seq<u16>)
    ensures
        forall|t: u16|
            #[trigger] with_rrsig_type(ts).contains(t) <==> (ts.contains(t) || t == RTYPE_RRSIG),
    decreases ts.len(),
{
    let w = with_rrsig_type(ts);
    if ts.len() == 0 {
        assert forall|t: u16| #[trigger] w.contains(t) <==> (ts.contains(t) || t
            == RTYPE_RRSIG) by {
            if t == RTYPE_RRSIG {
                assert(w[0] == t);
            }
            if w.contains(t) {
                let i = choose|i: int| 0 <= i < w.len() && w[i] == t;
                assert(i == 0);
            }
            if ts.contains(t) {
                let i = choose|i: int| 0 <= i < ts.len() && ts[i] == t;
            }
        }
    } else if ts[0] == RTYPE_RRSIG {
        assert forall|t: u16| #[trigger] w.contains(t) <==> (ts.contains(t) || t
            == RTYPE_RRSIG) by {
            if t == RTYPE_RRSIG {
                assert(w[0] == t);
            }
        }
    } else if ts[0] < RTYPE_RRSIG {
        lemma_with_rrsig_members(ts.drop_first());
        let rest = with_rrsig_type(ts.drop_first());
        assert forall|t: u16| #[trigger] w.contains(t) <==> (ts.contains(t) || t
            == RTYPE_RRSIG) by {
            if w.contains(t) {
                let i = choose|i: int| 0 <= i < w.len() && w[i] == t;
                if i == 0 {
                    assert(ts[0] == t);
                } else {
                    assert(rest[i - 1] == t);
                    assert(rest.contains(t));
                    if t != RTYPE_RRSIG {
                        assert(ts.drop_first().contains(t));
                        let m = choose|m: int|
                            0 <= m < ts.drop_first().len() && ts.drop_first()[m] == t;
                        assert(ts[m + 1] == t);
                    }
                }
            }
            if t == RTYPE_RRSIG {
                assert(rest.contains(t));
                let m = choose|m: int| 0 <= m < rest.len() && rest[m] == t;
                assert(w[m + 1] == t);
            }
            if ts.contains(t) {
                let i = choose|i: int| 0 <= i < ts.len() && ts[i] == t;
                if i == 0 {
                    assert(w[0] == t);
                } else {
                    assert(ts.drop_first()[i - 1] == t);
                    assert(ts.drop_first().contains(t));
                    assert(rest.contains(t));
                    let m = choose|m: int| 0 <= m < rest.len() && rest[m] == t;
                    assert(w[m + 1] == t);
                }
            }
        }
    } else {
        assert forall|t: u16| #[trigger] w.contains(t) <==> (ts.contains(t) || t
            == RTYPE_RRSIG) by {
            if t == RTYPE_RRSIG {
                assert(w[0] == t);
            }
            if w.contains(t) && t != RTYPE_RRSIG {
                let i = choose|i: int| 0 <= i < w.len() && w[i] == t;
                assert(ts[i - 1] == t);
            }
            if ts.contains(t) {
                let i = choose|i: int| 0 <= i < ts.len() && ts[i] == t;
                assert(w[i + 1] == t);
            }
        }
    }
}

/// The NSEC type bitmap of a family holds exactly the record types
/// present at that owner, with the RRSIG type always set and nothing else.
pub proof fn lemma_nsec_bitmap(s: Seq<RecordSpec>, j: int, end: int)
    requires
        0 <= j <= end <= s.len(),
    ensures
        forall|t: u16|
            #[trigger] family_types(s, j, end).contains(t) <==> (t == RTYPE_RRSIG || exists|k: int|
                j <= k < end && (#[trigger] s[k]).rtype == t),
{
    lemma_type_list_members(s, j, end);
    lemma_with_rrsig_members(type_list(s, j, end));
}

} // verus!
