//! Resource records and the canonical order over them.

use vstd::prelude::*;
use crate::name::{copy_bytes, name_wf, Name};
use crate::order::{
    cmp_names, cmp_octets, cmp_octets_exec, lemma_cmp_bytes_refl,
    lemma_cmp_bytes_flip, lemma_cmp_bytes_trans, lemma_cmp_names_refl, lemma_cmp_names_flip,
    lemma_cmp_names_trans, name_eq_spec, CmpRes,
};

verus! {

pub const RTYPE_A: u16 = 1;

pub const RTYPE_NS: u16 = 2;

pub const RTYPE_SOA: u16 = 6;

pub const RTYPE_AAAA: u16 = 28;

pub const RTYPE_DS: u16 = 43;

pub const RTYPE_RRSIG: u16 = 46;

pub const RTYPE_NSEC: u16 = 47;

pub const RTYPE_DNSKEY: u16 = 48;

pub const CLASS_IN: u16 = 1;

/// The mathematical content of a record.
pub struct RecordSpec {
    pub owner: Seq<Seq<u8>>,
    pub class: u16,
    pub ttl: u32,
    pub rtype: u16,
    pub rdata: Seq<u8>,
}

/// A resource record: owner name, class, TTL, record type, and the rdata
/// already in its canonical form.
#[derive(Debug)]
pub struct Record {
    pub owner: Name,
    pub class: u16,
    pub ttl: u32,
    pub rtype: u16,
    pub rdata: Vec<u8>,
}

impl View for Record {
    type V = RecordSpec;

    open spec fn view(&self) -> RecordSpec {
        RecordSpec {
            owner: self.owner@,
            class: self.class,
            ttl: self.ttl,
            rtype: self.rtype,
            rdata: self.rdata@,
        }
    }
}

/// A well-formed record: a well-formed owner name and rdata that fits the
/// wire form's 16-bit length field.
pub open spec fn record_wf(r: RecordSpec) -> bool {
    name_wf(r.owner) && r.rdata.len() <= 65535
}

/// Three-way comparison of record types.
pub open spec fn cmp_u16(a: u16, b: u16) -> CmpRes {
    if a < b {
        CmpRes::Lt
    } else if a > b {
        CmpRes::Gt
    } else {
        CmpRes::Eq
    }
}

/// The canonical total order over records: owner name first, then record
/// type, then raw rdata bytes.
pub open spec fn cmp_record_spec(a: RecordSpec, b: RecordSpec) -> CmpRes {
    match cmp_names(a.owner, b.owner) {
        CmpRes::Eq => match cmp_u16(a.rtype, b.rtype) {
            CmpRes::Eq => cmp_octets(a.rdata, b.rdata),
            r => r,
        },
        r => r,
    }
}

/// Records that belong to one family: equal owner name and class.
pub open spec fn same_family_spec(a: RecordSpec, b: RecordSpec) -> bool {
    name_eq_spec(a.owner, b.owner) && a.class == b.class
}

/// Records that belong to one rrset: one family and equal record type.
pub open spec fn same_rrset_spec(a: RecordSpec, b: RecordSpec) -> bool {
    same_family_spec(a, b) && a.rtype == b.rtype
}

pub proof fn lemma_cmp_record_refl(a: RecordSpec)
    ensures
        cmp_record_spec(a, a) == CmpRes::Eq,
{
    lemma_cmp_names_refl(a.owner, a.owner.len() as int);
    lemma_cmp_bytes_refl(a.rdata, 0, false);
}

pub proof fn lemma_cmp_record_flip(a: RecordSpec, b: RecordSpec)
    ensures
        (cmp_record_spec(a, b) == CmpRes::Lt) <==> (cmp_record_spec(b, a) == CmpRes::Gt),
        (cmp_record_spec(a, b) == CmpRes::Eq) <==> (cmp_record_spec(b, a) == CmpRes::Eq),
{
    lemma_cmp_names_flip(a.owner, b.owner, a.owner.len() as int, b.owner.len() as int);
    lemma_cmp_bytes_flip(a.rdata, b.rdata, 0, false);
}

pub proof fn lemma_cmp_record_trans(a: RecordSpec, b: RecordSpec, c: RecordSpec)
    ensures
        cmp_record_spec(a, b) == CmpRes::Eq && cmp_record_spec(b, c) == CmpRes::Eq
            ==> cmp_record_spec(a, c) == CmpRes::Eq,
        cmp_record_spec(a, b) == CmpRes::Lt && cmp_record_spec(b, c) != CmpRes::Gt
            ==> cmp_record_spec(a, c) == CmpRes::Lt,
        cmp_record_spec(a, b) != CmpRes::Gt && cmp_record_spec(b, c) == CmpRes::Lt
            ==> cmp_record_spec(a, c) == CmpRes::Lt,
{
    lemma_cmp_names_trans(
        a.owner,
        b.owner,
        c.owner,
        a.owner.len() as int,
        b.owner.len() as int,
        c.owner.len() as int,
    );
    lemma_cmp_names_flip(a.owner, b.owner, a.owner.len() as int, b.owner.len() as int);
    lemma_cmp_names_flip(b.owner, c.owner, b.owner.len() as int, c.owner.len() as int);
    lemma_cmp_names_flip(a.owner, c.owner, a.owner.len() as int, c.owner.len() as int);
    lemma_cmp_bytes_trans(a.rdata, b.rdata, c.rdata, 0, false);
    lemma_cmp_bytes_flip(a.rdata, b.rdata, 0, false);
    lemma_cmp_bytes_flip(b.rdata, c.rdata, 0, false);
}

impl Record {
    /// Three-way comparison with another record under the canonical order.
    pub fn canonical_cmp(&self, other: &Record) -> (r: CmpRes)
        ensures
            r == cmp_record_spec(self@, other@),
    {
        match self.owner.canonical_cmp(&other.owner) {
            CmpRes::Eq => {
                if self.rtype < other.rtype {
                    CmpRes::Lt
                } else if self.rtype > other.rtype {
                    CmpRes::Gt
                } else {
                    cmp_octets_exec(&self.rdata, &other.rdata)
                }
            },
            r => r,
        }
    }

    /// Whether the two records belong to one family.
    pub fn same_family(&self, other: &Record) -> (r: bool)
        ensures
            r == same_family_spec(self@, other@),
    {
        self.owner.name_eq(&other.owner) && self.class == other.class
    }

    /// Whether the two records belong to one rrset.
    pub fn same_rrset(&self, other: &Record) -> (r: bool)
        ensures
            r == same_rrset_spec(self@, other@),
    {
        self.same_family(other) && self.rtype == other.rtype
    }
}

impl Clone for Record {
    /// A clone carries the same content.
    fn clone(&self) -> (r: Self)
        ensures
            r@ == self@,
    {
        Record {
            owner: self.owner.clone(),
            class: self.class,
            ttl: self.ttl,
            rtype: self.rtype,
            rdata: copy_bytes(&self.rdata),
        }
    }
}

/// The mathematical content of a family name.
pub struct FamilyNameSpec {
    pub owner: Seq<Seq<u8>>,
    pub class: u16,
}

/// The identifier of a family: an owner name and a class.
#[derive(Debug)]
pub struct FamilyName {
    owner: Name,
    class: u16,
}

impl View for FamilyName {
    type V = FamilyNameSpec;

    closed spec fn view(&self) -> FamilyNameSpec {
        FamilyNameSpec { owner: self.owner@, class: self.class }
    }
}

/// Whether a record carries exactly this family name.
pub open spec fn fam_matches(rec: RecordSpec, ap: FamilyNameSpec) -> bool {
    name_eq_spec(rec.owner, ap.owner) && rec.class == ap.class
}

/// Whether a record lies in the zone below `ap`: its owner equals the apex
/// owner or descends from it, in the same class.
pub open spec fn in_zone_spec(rec: RecordSpec, ap: FamilyNameSpec) -> bool {
    crate::order::name_ends_with(rec.owner, ap.owner) && rec.class == ap.class
}

impl FamilyName {
    pub fn new(owner: Name, class: u16) -> (r: Self)
        ensures
            r@.owner == owner@,
            r@.class == class,
    {
        FamilyName { owner, class }
    }

    /// The owner name.
    pub fn owner(&self) -> (r: &Name)
        ensures
            r@ == self@.owner,
    {
        &self.owner
    }

    /// The class.
    pub fn class(&self) -> (r: u16)
        ensures
            r == self@.class,
    {
        self.class
    }

    /// An owned copy of this family name.
    pub fn to_name(&self) -> (r: FamilyName)
        ensures
            r@ == self@,
    {
        FamilyName { owner: self.owner.clone(), class: self.class }
    }

    /// Builds a record at this family name from a TTL, a record type, and
    /// rdata in canonical form.
    pub fn into_record(self, ttl: u32, rtype: u16, rdata: Vec<u8>) -> (r: Record)
        ensures
            r@.owner == self@.owner,
            r@.class == self@.class,
            r@.ttl == ttl,
            r@.rtype == rtype,
            r@.rdata == rdata@,
    {
        Record { owner: self.owner, class: self.class, ttl, rtype, rdata }
    }

    /// Case-insensitive equality with another family name.
    pub fn name_eq(&self, other: &FamilyName) -> (r: bool)
        ensures
            r == (name_eq_spec(self@.owner, other@.owner) && self@.class == other@.class),
    {
        self.owner.name_eq(&other.owner) && self.class == other.class
    }

    /// Whether `rec` carries exactly this family name.
    pub fn matches_record(&self, rec: &Record) -> (r: bool)
        ensures
            r == fam_matches(rec@, self@),
    {
        rec.owner.name_eq(&self.owner) && self.class == rec.class
    }
}

impl Clone for FamilyName {
    /// A clone carries the same owner and class.
    fn clone(&self) -> (r: Self)
        ensures
            r@ == self@,
    {
        FamilyName { owner: self.owner.clone(), class: self.class }
    }
}

} // verus!
