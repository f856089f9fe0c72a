//! The canonical total order used throughout DNSSEC.
//!
//! Owner names are compared label by label starting from the label nearest
//! the root, each label case-insensitively; records are compared by owner
//! name, then record type, then raw canonical-form rdata bytes.

use vstd::prelude::*;

verus! {

/// Outcome of a three-way comparison under the canonical order.
#[derive(Clone, Copy, PartialEq, Eq, Structural, Debug)]
pub enum CmpRes {
    Lt,
    Eq,
    Gt,
}

/// ASCII case folding: upper-case letters map to lower case, everything else
/// is left unchanged.
pub open spec fn fold_byte_spec(b: u8) -> u8 {
    if 65 <= b && b <= 90 {
        (b + 32) as u8
    } else {
        b
    }
}

/// The byte a comparison looks at: folded for owner-name labels, raw for
/// rdata.
pub open spec fn byte_key(b: u8, folded: bool) -> u8 {
    if folded {
        fold_byte_spec(b)
    } else {
        b
    }
}

/// Lexicographic comparison of two byte sequences from position `i` on,
/// case-insensitively when `folded` is set.
pub open spec fn cmp_bytes_from(a: Seq<u8>, b: Seq<u8>, i: int, folded: bool) -> CmpRes
    decreases a.len() - i,
{
    if i >= a.len() && i >= b.len() {
        CmpRes::Eq
    } else if i >= a.len() {
        CmpRes::Lt
    } else if i >= b.len() {
        CmpRes::Gt
    } else if byte_key(a[i], folded) < byte_key(b[i], folded) {
        CmpRes::Lt
    } else if byte_key(a[i], folded) > byte_key(b[i], folded) {
        CmpRes::Gt
    } else {
        cmp_bytes_from(a, b, i + 1, folded)
    }
}

/// Case-insensitive comparison of two labels.
pub open spec fn cmp_label(a: Seq<u8>, b: Seq<u8>) -> CmpRes {
    cmp_bytes_from(a, b, 0, true)
}

/// Raw lexicographic comparison of two byte sequences.
pub open spec fn cmp_octets(a: Seq<u8>, b: Seq<u8>) -> CmpRes {
    cmp_bytes_from(a, b, 0, false)
}

/// Canonical order on names with `ra` and `rb` labels still to compare:
/// labels are compared from the back, which is the label nearest the root.
pub open spec fn cmp_names_rem(a: Seq<Seq<u8>>, b: Seq<Seq<u8>>, ra: int, rb: int) -> CmpRes
    decreases ra,
{
    if ra <= 0 && rb <= 0 {
        CmpRes::Eq
    } else if ra <= 0 {
        CmpRes::Lt
    } else if rb <= 0 {
        CmpRes::Gt
    } else {
        match cmp_label(a[ra - 1], b[rb - 1]) {
            CmpRes::Eq => cmp_names_rem(a, b, ra - 1, rb - 1),
            r => r,
        }
    }
}

/// Canonical order on owner names, given as their label sequences.
pub open spec fn cmp_names(a: Seq<Seq<u8>>, b: Seq<Seq<u8>>) -> CmpRes {
    cmp_names_rem(a, b, a.len() as int, b.len() as int)
}

/// Case-insensitive equality of owner names.
pub open spec fn name_eq_spec(a: Seq<Seq<u8>>, b: Seq<Seq<u8>>) -> bool {
    cmp_names(a, b) == CmpRes::Eq
}

/// `a` ends with `b`: the labels of `b` are a case-insensitive suffix of the
/// labels of `a`, so the name `a` is `b` itself or a descendant of it.
pub open spec fn name_ends_with(a: Seq<Seq<u8>>, b: Seq<Seq<u8>>) -> bool {
    b.len() <= a.len() && forall|k: int|
        0 <= k < b.len() ==> cmp_label(a[a.len() - b.len() + k], b[k]) == CmpRes::Eq
}

pub proof fn lemma_cmp_bytes_refl(a: Seq<u8>, i: int, folded: bool)
    ensures
        cmp_bytes_from(a, a, i, folded) == CmpRes::Eq,
    decreases a.len() - i,
{
    if i < a.len() {
        lemma_cmp_bytes_refl(a, i + 1, folded);
    }
}

pub proof fn lemma_cmp_bytes_flip(a: Seq<u8>, b: Seq<u8>, i: int, folded: bool)
    ensures
        (cmp_bytes_from(a, b, i, folded) == CmpRes::Lt) <==> (cmp_bytes_from(b, a, i, folded)
            == CmpRes::Gt),
        (cmp_bytes_from(a, b, i, folded) == CmpRes::Eq) <==> (cmp_bytes_from(b, a, i, folded)
            == CmpRes::Eq),
    decreases a.len() - i,
{
    if i < a.len() && i < b.len() && byte_key(a[i], folded) == byte_key(b[i], folded) {
        lemma_cmp_bytes_flip(a, b, i + 1, folded);
    }
}

pub proof fn lemma_cmp_bytes_trans(a: Seq<u8>, b: Seq<u8>, c: Seq<u8>, i: int, folded: bool)
    ensures
        cmp_bytes_from(a, b, i, folded) == CmpRes::Eq && cmp_bytes_from(b, c, i, folded)
            == CmpRes::Eq ==> cmp_bytes_from(a, c, i, folded) == CmpRes::Eq,
        cmp_bytes_from(a, b, i, folded) == CmpRes::Lt && cmp_bytes_from(b, c, i, folded)
            != CmpRes::Gt ==> cmp_bytes_from(a, c, i, folded) == CmpRes::Lt,
        cmp_bytes_from(a, b, i, folded) != CmpRes::Gt && cmp_bytes_from(b, c, i, folded)
            == CmpRes::Lt ==> cmp_bytes_from(a, c, i, folded) == CmpRes::Lt,
    decreases a.len() - i,
{
    if i < a.len() && i < b.len() && i < c.len() && byte_key(a[i], folded) == byte_key(
        b[i],
        folded,
    ) && byte_key(b[i], folded) == byte_key(c[i], folded) {
        lemma_cmp_bytes_trans(a, b, c, i + 1, folded);
    }
}

pub proof fn lemma_cmp_names_refl(a: Seq<Seq<u8>>, ra: int)
    ensures
        cmp_names_rem(a, a, ra, ra) == CmpRes::Eq,
    decreases ra,
{
    if ra > 0 {
        lemma_cmp_bytes_refl(a[ra - 1], 0, true);
        lemma_cmp_names_refl(a, ra - 1);
    }
}

pub proof fn lemma_cmp_names_flip(a: Seq<Seq<u8>>, b: Seq<Seq<u8>>, ra: int, rb: int)
    ensures
        (cmp_names_rem(a, b, ra, rb) == CmpRes::Lt) <==> (cmp_names_rem(b, a, rb, ra)
            == CmpRes::Gt),
        (cmp_names_rem(a, b, ra, rb) == CmpRes::Eq) <==> (cmp_names_rem(b, a, rb, ra)
            == CmpRes::Eq),
    decreases ra,
{
    if ra > 0 && rb > 0 {
        lemma_cmp_bytes_flip(a[ra - 1], b[rb - 1], 0, true);
        if cmp_label(a[ra - 1], b[rb - 1]) == CmpRes::Eq {
            lemma_cmp_names_flip(a, b, ra - 1, rb - 1);
        }
    }
}

pub proof fn lemma_cmp_names_trans(
    a: Seq<Seq<u8>>,
    b: Seq<Seq<u8>>,
    c: Seq<Seq<u8>>,
    ra: int,
    rb: int,
    rc: int,
)
    ensures
        cmp_names_rem(a, b, ra, rb) == CmpRes::Eq && cmp_names_rem(b, c, rb, rc) == CmpRes::Eq
            ==> cmp_names_rem(a, c, ra, rc) == CmpRes::Eq,
        cmp_names_rem(a, b, ra, rb) == CmpRes::Lt && cmp_names_rem(b, c, rb, rc) != CmpRes::Gt
            ==> cmp_names_rem(a, c, ra, rc) == CmpRes::Lt,
        cmp_names_rem(a, b, ra, rb) != CmpRes::Gt && cmp_names_rem(b, c, rb, rc) == CmpRes::Lt
            ==> cmp_names_rem(a, c, ra, rc) == CmpRes::Lt,
    decreases ra,
{
    if ra > 0 && rb > 0 && rc > 0 {
        lemma_cmp_bytes_trans(a[ra - 1], b[rb - 1], c[rc - 1], 0, true);
        if cmp_label(a[ra - 1], b[rb - 1]) == CmpRes::Eq {
            lemma_cmp_bytes_flip(a[ra - 1], b[rb - 1], 0, true);
            lemma_cmp_bytes_trans(b[rb - 1], a[ra - 1], c[rc - 1], 0, true);
        }
        if cmp_label(b[rb - 1], c[rc - 1]) == CmpRes::Eq {
            lemma_cmp_bytes_trans(a[ra - 1], c[rc - 1], b[rb - 1], 0, true);
            lemma_cmp_bytes_flip(b[rb - 1], c[rc - 1], 0, true);
            lemma_cmp_bytes_trans(a[ra - 1], b[rb - 1], c[rc - 1], 0, true);
        }
        if cmp_label(a[ra - 1], b[rb - 1]) == CmpRes::Eq && cmp_label(b[rb - 1], c[rc - 1])
            == CmpRes::Eq {
            lemma_cmp_names_trans(a, b, c, ra - 1, rb - 1, rc - 1);
        }
    }
}

/// Names are canonically equal exactly when they have the same number of
/// labels and corresponding labels are case-insensitively equal.
pub proof fn lemma_cmp_names_eq_pointwise(a: Seq<Seq<u8>>, b: Seq<Seq<u8>>, ra: int, rb: int)
    requires
        0 <= ra <= a.len(),
        0 <= rb <= b.len(),
    ensures
        cmp_names_rem(a, b, ra, rb) == CmpRes::Eq <==> (ra == rb && forall|k: int|
            0 <= k < ra ==> cmp_label(a[k], b[k]) == CmpRes::Eq),
    decreases ra,
{
    if ra > 0 && rb > 0 {
        lemma_cmp_names_eq_pointwise(a, b, ra - 1, rb - 1);
    }
}

/// Equal names end with each other.
pub proof fn lemma_name_eq_ends_with(a: Seq<Seq<u8>>, b: Seq<Seq<u8>>)
    requires
        name_eq_spec(a, b),
    ensures
        name_ends_with(a, b),
        name_ends_with(b, a),
{
    lemma_cmp_names_eq_pointwise(a, b, a.len() as int, b.len() as int);
    lemma_cmp_names_flip(a, b, a.len() as int, b.len() as int);
    lemma_cmp_names_eq_pointwise(b, a, b.len() as int, a.len() as int);
}

/// Case folding of a single byte.
pub fn fold_byte(b: u8) -> (r: u8)
    ensures
        r == fold_byte_spec(b),
{
    if 65 <= b && b <= 90 {
        b + 32
    } else {
        b
    }
}

/// Case-insensitive three-way comparison of two labels.
pub fn cmp_label_exec(a: &Vec<u8>, b: &Vec<u8>) -> (r: CmpRes)
    ensures
        r == cmp_label(a@, b@),
{
    let mut i: usize = 0;
    loop
        invariant
            0 <= i <= a.len(),
            0 <= i <= b.len(),
            cmp_label(a@, b@) == cmp_bytes_from(a@, b@, i as int, true),
        decreases a.len() - i,
    {
        if i >= a.len() && i >= b.len() {
            return CmpRes::Eq;
        } else if i >= a.len() {
            return CmpRes::Lt;
        } else if i >= b.len() {
            return CmpRes::Gt;
        }
        let x = fold_byte(a[i]);
        let y = fold_byte(b[i]);
        if x < y {
            return CmpRes::Lt;
        } else if x > y {
            return CmpRes::Gt;
        }
        i = i + 1;
    }
}

/// Raw three-way comparison of two byte sequences.
pub fn cmp_octets_exec(a: &Vec<u8>, b: &Vec<u8>) -> (r: CmpRes)
    ensures
        r == cmp_octets(a@, b@),
{
    let mut i: usize = 0;
    loop
        invariant
            0 <= i <= a.len(),
            0 <= i <= b.len(),
            cmp_octets(a@, b@) == cmp_bytes_from(a@, b@, i as int, false),
        decreases a.len() - i,
    {
        if i >= a.len() && i >= b.len() {
            return CmpRes::Eq;
        } else if i >= a.len() {
            return CmpRes::Lt;
        } else if i >= b.len() {
            return CmpRes::Gt;
        }
        if a[i] < b[i] {
            return CmpRes::Lt;
        } else if a[i] > b[i] {
            return CmpRes::Gt;
        }
        i = i + 1;
    }
}

} // verus!
