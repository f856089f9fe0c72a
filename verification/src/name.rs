//! Owner names as label sequences.
//!
//! A name is held as its labels in display order, the root label left
//! implicit.  All comparisons are case-insensitive; the canonical (wire)
//! form writes each label lower-cased behind a length byte and closes with
//! the root's zero byte.

use vstd::prelude::*;
use crate::order::{
    cmp_label, cmp_label_exec, cmp_names, cmp_names_rem, name_ends_with, name_eq_spec, CmpRes,
};

verus! {

/// An owner name: its labels from the leftmost one towards the root.
#[derive(Debug)]
pub struct Name {
    labels: Vec<Vec<u8>>,
}

/// The labels of a label vector, as mathematical sequences.
pub open spec fn labels_view(labels: Seq<Vec<u8>>) -> Seq<Seq<u8>> {
    Seq::new(labels.len(), |i: int| labels[i]@)
}

impl View for Name {
    type V = Seq<Seq<u8>>;

    closed spec fn view(&self) -> Seq<Seq<u8>> {
        labels_view(self.labels@)
    }
}

/// Bytes the name occupies in wire form, counting from label `i` on:
/// a length byte per label plus the closing root byte.
pub open spec fn labels_wire_len(labels: Seq<Seq<u8>>, i: int) -> int
    decreases labels.len() - i,
{
    if i >= labels.len() {
        1
    } else {
        1 + labels[i].len() + labels_wire_len(labels, i + 1)
    }
}

/// A well-formed name: every label holds 1 to 63 bytes and the whole name
/// fits in the 255 bytes the wire form allows.
pub open spec fn name_wf(labels: Seq<Seq<u8>>) -> bool {
    &&& labels.len() <= 127
    &&& (forall|i: int| 0 <= i < labels.len() ==> 1 <= #[trigger] labels[i].len() <= 63)
    &&& labels_wire_len(labels, 0) <= 255
}

/// The label count stamped into an RRSIG: real labels, a leading wildcard
/// label left uncounted.
pub open spec fn rrsig_label_count_spec(labels: Seq<Seq<u8>>) -> int {
    if labels.len() > 0 && labels[0] == seq![42u8] {
        labels.len() - 1
    } else {
        labels.len() as int
    }
}

proof fn lemma_wire_len_monotonic(labels: Seq<Seq<u8>>, i: int, j: int)
    requires
        i <= j,
    ensures
        labels_wire_len(labels, i) >= labels_wire_len(labels, j),
    decreases j - i,
{
    if i < j {
        lemma_wire_len_monotonic(labels, i + 1, j);
    }
}

impl Name {
    pub open spec fn wf(&self) -> bool {
        name_wf(self@)
    }

    /// Builds a name from its labels, refusing one that is not well formed.
    pub fn new(labels: Vec<Vec<u8>>) -> (r: Option<Name>)
        ensures
            match r {
                Some(n) => n@ == labels_view(labels@) && n.wf(),
                None => !name_wf(labels_view(labels@)),
            },
    {
        proof {
            assert(labels_view(labels@).len() == labels@.len());
        }
        if labels.len() > 127 {
            return None;
        }
        let mut i: usize = 0;
        while i < labels.len()
            invariant
                i <= labels.len(),
                forall|k: int| 0 <= k < i ==> 1 <= #[trigger] labels@[k]@.len() <= 63,
            decreases labels.len() - i,
        {
            proof {
                assert(labels_view(labels@)[i as int] == labels@[i as int]@);
            }
            if labels[i].len() < 1 || labels[i].len() > 63 {
                return None;
            }
            i = i + 1;
        }
        let ghost lv = labels_view(labels@);
        proof {
            assert(forall|k: int|
                0 <= k < lv.len() ==> #[trigger] lv[k] == labels@[k]@);
        }
        let mut total: usize = 1;
        let mut j: usize = labels.len();
        while j > 0
            invariant
                j <= labels.len(),
                lv.len() == labels@.len(),
                lv == labels_view(labels@),
                forall|k: int| 0 <= k < lv.len() ==> #[trigger] lv[k] == labels@[k]@,
                forall|k: int| 0 <= k < labels@.len() ==> 1 <= #[trigger] labels@[k]@.len() <= 63,
                total == labels_wire_len(lv, j as int),
                total <= 255,
            decreases j,
    {
            j = j - 1;
            total = total + 1 + labels[j].len();
            if total > 255 {
                proof {
                    lemma_wire_len_monotonic(lv, 0, j as int);
                }
                return None;
            }
        }
        Some(Name { labels })
    }

    /// The number of labels.
    pub fn label_count(&self) -> (r: usize)
        ensures
            r == self@.len(),
    {
        self.labels.len()
    }

    /// The label at position `i`, counted from the leftmost label.
    pub fn label_at(&self, i: usize) -> (r: &Vec<u8>)
        requires
            i < self@.len(),
        ensures
            r@ == self@[i as int],
    {
        &self.labels[i]
    }

    /// Three-way canonical comparison with another name.
    pub fn canonical_cmp(&self, other: &Name) -> (r: CmpRes)
        ensures
            r == cmp_names(self@, other@),
    {
        let mut ra: usize = self.labels.len();
        let mut rb: usize = other.labels.len();
        loop
            invariant
                ra <= self@.len(),
                rb <= other@.len(),
                cmp_names(self@, other@) == cmp_names_rem(self@, other@, ra as int, rb as int),
            decreases ra,
        {
            if ra == 0 && rb == 0 {
                return CmpRes::Eq;
            } else if ra == 0 {
                return CmpRes::Lt;
            } else if rb == 0 {
                return CmpRes::Gt;
            }
            let c = cmp_label_exec(&self.labels[ra - 1], &other.labels[rb - 1]);
            match c {
                CmpRes::Eq => {
                    ra = ra - 1;
                    rb = rb - 1;
                },
                _ => {
                    return c;
                },
            }
        }
    }

    /// Case-insensitive equality with another name.
    pub fn name_eq(&self, other: &Name) -> (r: bool)
        ensures
            r == name_eq_spec(self@, other@),
    {
        matches!(self.canonical_cmp(other), CmpRes::Eq)
    }

    /// Whether this name equals `base` or lies beneath it.
    pub fn ends_with(&self, base: &Name) -> (r: bool)
        ensures
            r == name_ends_with(self@, base@),
    {
        if base.labels.len() > self.labels.len() {
            return false;
        }
        proof {
            assert(self@.len() == self.labels@.len());
            assert(base@.len() == base.labels@.len());
        }
        let off = self.labels.len() - base.labels.len();
        let mut k: usize = 0;
        while k < base.labels.len()
            invariant
                k <= base@.len(),
                base@.len() <= self@.len(),
                off == self@.len() - base@.len(),
                self@.len() == self.labels@.len(),
                base@.len() == base.labels@.len(),
                self@.len() <= usize::MAX,
                forall|j: int| 0 <= j < k ==> cmp_label(self@[off + j], base@[j]) == CmpRes::Eq,
            decreases base@.len() - k,
        {
            proof {
                assert(self@[off + k as int] == self.labels@[off + k as int]@);
                assert(base@[k as int] == base.labels@[k as int]@);
            }
            match cmp_label_exec(&self.labels[off + k], &base.labels[k]) {
                CmpRes::Eq => {
                    k = k + 1;
                },
                _ => {
                    return false;
                },
            }
        }
        true
    }

    /// The label count for an RRSIG over this owner name.
    pub fn rrsig_label_count(&self) -> (r: u8)
        requires
            self.wf(),
        ensures
            r as int == rrsig_label_count_spec(self@),
    {
        if self.labels.len() > 0 && self.labels[0].len() == 1 && self.labels[0][0] == 42 {
            proof {
                assert(self@[0] =~= seq![42u8]);
            }
            (self.labels.len() - 1) as u8
        } else {
            proof {
                if self@.len() > 0 && self@[0] == seq![42u8] {
                    assert(self@[0].len() == 1 && self@[0][0] == 42u8);
                }
            }
            self.labels.len() as u8
        }
    }
}

/// An exact copy of a byte vector.
pub fn copy_bytes(v: &Vec<u8>) -> (r: Vec<u8>)
    ensures
        r@ == v@,
{
    let mut r: Vec<u8> = Vec::new();
    let mut i: usize = 0;
    while i < v.len()
        invariant
            i <= v.len(),
            r@ == v@.take(i as int),
        decreases v.len() - i,
    {
        r.push(v[i]);
        proof {
            assert(r@ =~= v@.take(i + 1 as int));
        }
        i = i + 1;
    }
    proof {
        assert(v@.take(v@.len() as int) =~= v@);
    }
    r
}

impl Clone for Name {
    /// A clone carries the same labels.
    fn clone(&self) -> (r: Self)
        ensures
            r@ == self@,
    {
        let mut ls: Vec<Vec<u8>> = Vec::new();
        let mut i: usize = 0;
        while i < self.labels.len()
            invariant
                i <= self.labels.len(),
                ls.len() == i,
                forall|j: int| 0 <= j < i ==> (#[trigger] ls@[j])@ == self@[j],
            decreases self.labels.len() - i,
        {
            proof {
                assert(self@[i as int] == self.labels@[i as int]@);
            }
            ls.push(copy_bytes(&self.labels[i]));
            i = i + 1;
        }
        proof {
            assert(labels_view(ls@) =~= self@);
        }
        Name { labels: ls }
    }
}

} // verus!
