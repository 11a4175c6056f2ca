//! The schema reconciler: matching a caller's declared row type against
//! the server's provided row type, and recording, for each provided row
//! node, the permutation that sends each provided field to its place in
//! the declared row.

use vstd::prelude::*;

use crate::raw_ty::str_eq;
use crate::types::{Error, TrinoTy, TrinoTyV, ty_view};

verus! {

/// A field sequence of a row type.
pub type RowFieldsV = Seq<(Seq<char>, TrinoTyV)>;

/// Whether some field of `fs` carries the name `name`.
pub open spec fn spec_has_name(fs: RowFieldsV, name: Seq<char>) -> bool {
    exists|j: int| 0 <= j < fs.len() && (#[trigger] fs[j]).0 == name
}

/// The first index of the field named `name`.
pub open spec fn spec_name_index(fs: RowFieldsV, name: Seq<char>) -> int
    decreases fs,
{
    if fs.len() == 0 {
        0
    } else if fs[0].0 == name {
        0
    } else {
        1 + spec_name_index(fs.drop_first(), name)
    }
}

/// No two fields share a name.
pub open spec fn spec_distinct_names(fs: RowFieldsV) -> bool {
    forall|i: int, j: int|
        0 <= i < j < fs.len() ==> (#[trigger] fs[i]).0 != (#[trigger] fs[j]).0
}

pub proof fn lemma_name_index(fs: RowFieldsV, name: Seq<char>)
    requires
        spec_has_name(fs, name),
    ensures
        0 <= spec_name_index(fs, name) < fs.len(),
        fs[spec_name_index(fs, name)].0 == name,
    decreases fs,
{
    if fs.len() == 0 {
    } else if fs[0].0 == name {
    } else {
        let j = choose|j: int| 0 <= j < fs.len() && (#[trigger] fs[j]).0 == name;
        assert(fs.drop_first()[j - 1] == fs[j]);
        lemma_name_index(fs.drop_first(), name);
    }
}

/// Whether a declared type `target` accepts a provided type: `Unknown`
/// accepts anything; `Optional` defers to its payload; integers match any
/// integer and floats any float (width coercion is the decoder's job);
/// `decimal` and `char` must match their parameters exactly; compound
/// shapes recurse; rows must carry the same set of distinct field names,
/// in any order, with each name-matched pair compatible.
pub open spec fn spec_compatible(target: TrinoTyV, provided: TrinoTyV) -> bool
    decreases target, provided,
{
    match (target, provided) {
        (TrinoTyV::Unknown, _) => true,
        (TrinoTyV::Optional(t), p) => spec_compatible(*t, p),
        (TrinoTyV::Decimal(p1, s1), TrinoTyV::Decimal(p2, s2)) => p1 == p2 && s1 == s2,
        (TrinoTyV::Boolean, TrinoTyV::Boolean) => true,
        (TrinoTyV::Date, TrinoTyV::Date) => true,
        (TrinoTyV::Time, TrinoTyV::Time) => true,
        (TrinoTyV::TimeWithTimeZone, TrinoTyV::TimeWithTimeZone) => true,
        (TrinoTyV::Timestamp, TrinoTyV::Timestamp) => true,
        (TrinoTyV::TimestampWithTimeZone, TrinoTyV::TimestampWithTimeZone) => true,
        (TrinoTyV::IntervalYearToMonth, TrinoTyV::IntervalYearToMonth) => true,
        (TrinoTyV::IntervalDayToSecond, TrinoTyV::IntervalDayToSecond) => true,
        (TrinoTyV::TrinoInt(_), TrinoTyV::TrinoInt(_)) => true,
        (TrinoTyV::TrinoFloat(_), TrinoTyV::TrinoFloat(_)) => true,
        (TrinoTyV::Varchar, TrinoTyV::Varchar) => true,
        (TrinoTyV::Char(a), TrinoTyV::Char(b)) => a == b,
        (TrinoTyV::Tuple(t1), TrinoTyV::Tuple(t2)) => t1.len() == t2.len() && spec_tuple_compat(
            t1,
            t2,
        ),
        (TrinoTyV::Row(f1), TrinoTyV::Row(f2)) => f1.len() == f2.len() && spec_distinct_names(f1)
            && spec_distinct_names(f2) && spec_rows_compat(f1, f2),
        (TrinoTyV::Array(t1), TrinoTyV::Array(t2)) => spec_compatible(*t1, *t2),
        (TrinoTyV::MapOf(k1, v1), TrinoTyV::MapOf(k2, v2)) => spec_compatible(*k1, *k2)
            && spec_compatible(*v1, *v2),
        (TrinoTyV::IpAddress, TrinoTyV::IpAddress) => true,
        (TrinoTyV::Uuid, TrinoTyV::Uuid) => true,
        (TrinoTyV::Json, TrinoTyV::Json) => true,
        _ => false,
    }
}

/// Pairwise compatibility of equal-length tuples, checked positionally
/// over the provided side.
pub open spec fn spec_tuple_compat(t1: Seq<TrinoTyV>, t2: Seq<TrinoTyV>) -> bool
    decreases t1, t2,
{
    if t2.len() == 0 || t1.len() == 0 {
        t1.len() == t2.len()
    } else {
        spec_compatible(t1[0], t2[0]) && spec_tuple_compat(t1.drop_first(), t2.drop_first())
    }
}

/// Every provided field's name occurs in the target, and the name-matched
/// pair of types is compatible.
pub open spec fn spec_rows_compat(f1: RowFieldsV, f2: RowFieldsV) -> bool
    decreases f1, f2,
{
    if f2.len() == 0 {
        true
    } else if f1.len() == 0 {
        false
    } else {
        spec_has_name(f1, f2[0].0) && spec_compatible(
            f1[spec_name_clamped(f1, f2[0].0)].1,
            f2[0].1,
        ) && spec_rows_compat(f1, f2.drop_first())
    }
}

/// `spec_name_index`, clamped into range so that it can index a field
/// sequence; under `spec_has_name` the two agree.
pub open spec fn spec_name_clamped(fs: RowFieldsV, name: Seq<char>) -> int {
    if 0 <= spec_name_index(fs, name) < fs.len() {
        spec_name_index(fs, name)
    } else {
        0
    }
}

pub proof fn lemma_tuple_compat_pointwise(t1: Seq<TrinoTyV>, t2: Seq<TrinoTyV>)
    requires
        t1.len() == t2.len(),
    ensures
        spec_tuple_compat(t1, t2) <==> (forall|i: int|
            0 <= i < t1.len() ==> spec_compatible(#[trigger] t1[i], t2[i])),
    decreases t1,
{
    if t1.len() == 0 {
    } else {
        lemma_tuple_compat_pointwise(t1.drop_first(), t2.drop_first());
        if spec_tuple_compat(t1, t2) {
            assert forall|i: int| 0 <= i < t1.len() implies spec_compatible(
                #[trigger] t1[i],
                t2[i],
            ) by {
                if i > 0 {
                    assert(t1.drop_first()[i - 1] == t1[i]);
                    assert(t2.drop_first()[i - 1] == t2[i]);
                }
            }
        } else {
            if spec_compatible(t1[0], t2[0]) {
                let j = choose|j: int|
                    0 <= j < t1.drop_first().len() && !spec_compatible(
                        #[trigger] t1.drop_first()[j],
                        t2.drop_first()[j],
                    );
                assert(t1[j + 1] == t1.drop_first()[j]);
                assert(t2[j + 1] == t2.drop_first()[j]);
            }
        }
    }
}

pub proof fn lemma_rows_compat_pointwise(f1: RowFieldsV, f2: RowFieldsV)
    ensures
        spec_rows_compat(f1, f2) <==> (forall|i: int|
            0 <= i < f2.len() ==> spec_has_name(f1, (#[trigger] f2[i]).0) && spec_compatible(
                f1[spec_name_index(f1, f2[i].0)].1,
                f2[i].1,
            )),
    decreases f2,
{
    if f2.len() == 0 {
    } else if f1.len() == 0 {
        assert(!spec_has_name(f1, f2[0].0));
        assert(!spec_rows_compat(f1, f2));
    } else {
        lemma_rows_compat_pointwise(f1, f2.drop_first());
        if spec_has_name(f1, f2[0].0) {
            lemma_name_index(f1, f2[0].0);
            assert(spec_name_clamped(f1, f2[0].0) == spec_name_index(f1, f2[0].0));
        }
        if spec_rows_compat(f1, f2) {
            assert forall|i: int| 0 <= i < f2.len() implies spec_has_name(
                f1,
                (#[trigger] f2[i]).0,
            ) && spec_compatible(f1[spec_name_index(f1, f2[i].0)].1, f2[i].1) by {
                if i > 0 {
                    assert(f2.drop_first()[i - 1] == f2[i]);
                }
            }
        } else {
            if spec_has_name(f1, f2[0].0) && spec_compatible(
                f1[spec_name_index(f1, f2[0].0)].1,
                f2[0].1,
            ) {
                let j = choose|j: int|
                    0 <= j < f2.drop_first().len() && !(spec_has_name(
                        f1,
                        (#[trigger] f2.drop_first()[j]).0,
                    ) && spec_compatible(
                        f1[spec_name_index(f1, f2.drop_first()[j].0)].1,
                        f2.drop_first()[j].1,
                    ));
                assert(f2[j + 1] == f2.drop_first()[j]);
            }
        }
    }
}

/// The node of a provided type tree at a child-index path: `Optional`,
/// `Array` and `MapOf` children sit at indices 0 (and 1 for a map's
/// value); a `Tuple`'s or `Row`'s i-th member sits at index i.
pub open spec fn spec_node_at(ty: TrinoTyV, path: Seq<usize>) -> Option<TrinoTyV>
    decreases path.len(),
{
    if path.len() == 0 {
        Some(ty)
    } else {
        let i = path[0];
        match ty {
            TrinoTyV::Optional(t) => if i == 0 {
                spec_node_at(*t, path.drop_first())
            } else {
                None
            },
            TrinoTyV::Array(t) => if i == 0 {
                spec_node_at(*t, path.drop_first())
            } else {
                None
            },
            TrinoTyV::MapOf(k, v) => if i == 0 {
                spec_node_at(*k, path.drop_first())
            } else if i == 1 {
                spec_node_at(*v, path.drop_first())
            } else {
                None
            },
            TrinoTyV::Tuple(ts) => if (i as int) < ts.len() {
                spec_node_at(ts[i as int], path.drop_first())
            } else {
                None
            },
            TrinoTyV::Row(fs) => if (i as int) < fs.len() {
                spec_node_at(fs[i as int].1, path.drop_first())
            } else {
                None
            },
            _ => None,
        }
    }
}

/// The declared-side node that reconciliation pairs with the provided
/// node at `path`: `Optional` wrappers are looked through at every step,
/// a `Row` target follows the provided field's name-matched field, and
/// an `Unknown` target stops the walk. The result is returned with its
/// `Optional` wrappers removed.
pub open spec fn spec_target_at(target: TrinoTyV, provided: TrinoTyV, path: Seq<usize>) -> Option<
    TrinoTyV,
>
    decreases path.len(), target,
{
    match target {
        TrinoTyV::Optional(t) => spec_target_at(*t, provided, path),
        _ => {
            if path.len() == 0 {
                Some(target)
            } else {
                let i = path[0];
                match (target, provided) {
                    (TrinoTyV::Array(t1), TrinoTyV::Array(t2)) => if i == 0 {
                        spec_target_at(*t1, *t2, path.drop_first())
                    } else {
                        None
                    },
                    (TrinoTyV::MapOf(k1, v1), TrinoTyV::MapOf(k2, v2)) => if i == 0 {
                        spec_target_at(*k1, *k2, path.drop_first())
                    } else if i == 1 {
                        spec_target_at(*v1, *v2, path.drop_first())
                    } else {
                        None
                    },
                    (TrinoTyV::Tuple(t1), TrinoTyV::Tuple(t2)) => if (i as int) < t1.len() && (
                    i as int) < t2.len() {
                        spec_target_at(t1[i as int], t2[i as int], path.drop_first())
                    } else {
                        None
                    },
                    (TrinoTyV::Row(f1), TrinoTyV::Row(f2)) => if (i as int) < f2.len()
                        && spec_has_name(f1, f2[i as int].0) {
                        spec_target_at(
                            f1[spec_name_index(f1, f2[i as int].0)].1,
                            f2[i as int].1,
                            path.drop_first(),
                        )
                    } else {
                        None
                    },
                    _ => None,
                }
            }
        },
    }
}

/// A recorded permutation entry is correct for the row pair at its path:
/// it sends each provided field to the target field of the same name.
pub open spec fn spec_entry_ok(
    target: TrinoTyV,
    provided: TrinoTyV,
    path: Seq<usize>,
    perm: Seq<usize>,
) -> bool {
    &&& spec_node_at(provided, path) matches Some(pnode)
    &&& spec_node_at(provided, path).unwrap() matches TrinoTyV::Row(pf)
    &&& spec_target_at(target, provided, path) matches Some(tnode)
    &&& spec_target_at(target, provided, path).unwrap() matches TrinoTyV::Row(tf)
    &&& {
        let pf = spec_node_at(provided, path).unwrap()->Row_0;
        let tf = spec_target_at(target, provided, path).unwrap()->Row_0;
        &&& perm.len() == pf.len()
        &&& forall|i: int|
            0 <= i < perm.len() ==> (#[trigger] perm[i] as int) < tf.len() && tf[perm[i] as int].0
                == pf[i].0
    }
}

/// A permutation whose entries pick out name-matched target fields is
/// injective whenever the provided field names are distinct: no two
/// provided fields land on the same target field.
pub proof fn lemma_row_perm_injective(tf: RowFieldsV, pf: RowFieldsV, perm: Seq<usize>)
    requires
        perm.len() == pf.len(),
        spec_distinct_names(pf),
        forall|i: int|
            0 <= i < perm.len() ==> (#[trigger] perm[i] as int) < tf.len() && tf[perm[i] as int].0
                == pf[i].0,
    ensures
        forall|i: int, j: int| 0 <= i < j < perm.len() ==> perm[i] != perm[j],
{
    assert forall|i: int, j: int| 0 <= i < j < perm.len() implies perm[i] != perm[j] by {
        if perm[i] == perm[j] {
            assert(pf[i].0 == tf[perm[i] as int].0);
            assert(pf[j].0 == tf[perm[j] as int].0);
        }
    }
}

/// A type with its `Optional` wrappers removed.
pub open spec fn spec_unopt(t: TrinoTyV) -> TrinoTyV
    decreases t,
{
    match t {
        TrinoTyV::Optional(x) => spec_unopt(*x),
        _ => t,
    }
}

proof fn lemma_target_at_unopt(target: TrinoTyV, provided: TrinoTyV, path: Seq<usize>)
    ensures
        spec_target_at(target, provided, path) == spec_target_at(
            spec_unopt(target),
            provided,
            path,
        ),
    decreases target,
{
    match target {
        TrinoTyV::Optional(t) => {
            lemma_target_at_unopt(*t, provided, path);
        },
        _ => {},
    }
}

/// The pair of child nodes that reconciliation descends to at child
/// index `i`: the provided child, paired with the declared child that
/// matches it (positionally, or by field name for rows).
pub open spec fn spec_step(target: TrinoTyV, provided: TrinoTyV, i: usize) -> Option<
    (TrinoTyV, TrinoTyV),
> {
    match (spec_unopt(target), provided) {
        (TrinoTyV::Array(t1), TrinoTyV::Array(t2)) => if i == 0 {
            Some((*t1, *t2))
        } else {
            None
        },
        (TrinoTyV::MapOf(k1, v1), TrinoTyV::MapOf(k2, v2)) => if i == 0 {
            Some((*k1, *k2))
        } else if i == 1 {
            Some((*v1, *v2))
        } else {
            None
        },
        (TrinoTyV::Tuple(t1), TrinoTyV::Tuple(t2)) => if (i as int) < t1.len() && (i as int)
            < t2.len() {
            Some((t1[i as int], t2[i as int]))
        } else {
            None
        },
        (TrinoTyV::Row(f1), TrinoTyV::Row(f2)) => if (i as int) < f2.len() && spec_has_name(
            f1,
            f2[i as int].0,
        ) {
            Some((f1[spec_name_index(f1, f2[i as int].0)].1, f2[i as int].1))
        } else {
            None
        },
        _ => None,
    }
}

proof fn lemma_entry_lift(
    target: TrinoTyV,
    provided: TrinoTyV,
    i: usize,
    suffix: Seq<usize>,
    perm: Seq<usize>,
)
    requires
        spec_step(target, provided, i) is Some,
        spec_entry_ok(
            spec_step(target, provided, i).unwrap().0,
            spec_step(target, provided, i).unwrap().1,
            suffix,
            perm,
        ),
    ensures
        spec_entry_ok(target, provided, seq![i] + suffix, perm),
{
    let (tc, pc) = spec_step(target, provided, i).unwrap();
    let path = seq![i] + suffix;
    assert(path.len() >= 1);
    assert(path[0] == i);
    assert(path.drop_first() =~= suffix);
    lemma_target_at_unopt(target, provided, path);
    assert(spec_node_at(provided, path) == spec_node_at(pc, suffix));
    assert(spec_target_at(spec_unopt(target), provided, path) == spec_target_at(tc, pc, suffix));
}

proof fn lemma_entry_unopt(target: TrinoTyV, provided: TrinoTyV, path: Seq<usize>, perm: Seq<usize>)
    requires
        target matches TrinoTyV::Optional(t),
        spec_entry_ok(*target->Optional_0, provided, path, perm),
    ensures
        spec_entry_ok(target, provided, path, perm),
{
    lemma_target_at_unopt(target, provided, path);
    lemma_target_at_unopt(*target->Optional_0, provided, path);
}

/// Copy a path.
fn clone_path(p: &Vec<usize>) -> (r: Vec<usize>)
    ensures
        r@ == p@,
{
    let mut out: Vec<usize> = Vec::new();
    let n = p.len();
    let mut i: usize = 0;
    while i < n
        invariant
            i <= n,
            n == p@.len(),
            out@ =~= p@.take(i as int),
        decreases n - i,
    {
        out.push(p[i]);
        proof {
            assert(out@ =~= p@.take(i + 1 as int));
        }
        i += 1;
    }
    proof {
        assert(p@.take(n as int) =~= p@);
    }
    out
}

/// Walk a declared/provided pair of type trees, checking compatibility
/// and recording, for each provided row node, the permutation that sends
/// its fields to the name-matched declared fields. Entries are recorded
/// under the provided node's child-index path, extending `path`.
#[verifier::loop_isolation(false)]
#[verifier::rlimit(100)]
fn extract_rec(
    target: &TrinoTy,
    provided: &TrinoTy,
    path: &Vec<usize>,
    out: &mut Vec<(Vec<usize>, Vec<usize>)>,
) -> (r: Result<(), Error>)
    ensures
        r is Ok <==> spec_compatible(target@, provided@),
        final(out)@.len() >= old(out)@.len(),
        forall|j: int| 0 <= j < old(out)@.len() ==> final(out)@[j] == old(out)@[j],
        forall|j: int|
            old(out)@.len() <= j < final(out)@.len() ==> {
                let e = #[trigger] final(out)@[j];
                &&& e.0@.len() >= path@.len()
                &&& e.0@.take(path@.len() as int) == path@
                &&& spec_entry_ok(target@, provided@, e.0@.skip(path@.len() as int), e.1@)
            },
        (r is Ok && spec_unopt(target@) is Row && provided@ is Row) ==> (final(out)@.len() > old(
            out,
        )@.len() && final(out)@[old(out)@.len() as int].0@ == path@),
        r is Ok ==> spec_entries_complete(target@, provided@, path@, final(out)@),
        r matches Err(e) ==> e is InvalidTrinoType,
    decreases *target,
{
    match (target, provided) {
        (TrinoTy::Unknown, _) => {
            proof {
                lemma_flat_no_row_pairs(target@, provided@);
            }
            Ok(())
        },
        (TrinoTy::Optional(t), p) => {
            let ghost out0 = out@;
            let r = extract_rec(t, p, path, out);
            proof {
                assert forall|j: int|
                    out0.len() <= j < out@.len() implies {
                    let e = #[trigger] out@[j];
                    spec_entry_ok(target@, provided@, e.0@.skip(path@.len() as int), e.1@)
                } by {
                    let e = out@[j];
                    lemma_entry_unopt(
                        target@,
                        provided@,
                        e.0@.skip(path@.len() as int),
                        e.1@,
                    );
                }
                if r is Ok {
                    assert forall|p: Seq<usize>|
                        #[trigger] spec_row_pair_at(target@, provided@, p) implies spec_has_path(
                        out@,
                        path@ + p,
                    ) by {
                        assert(spec_target_at(target@, provided@, p) == spec_target_at(
                            t@,
                            provided@,
                            p,
                        ));
                        assert(spec_row_pair_at(t@, provided@, p));
                    }
                }
            }
            r
        },
        (TrinoTy::Decimal(p1, s1), TrinoTy::Decimal(p2, s2)) => {
            if *p1 == *p2 && *s1 == *s2 {
                proof {
                    lemma_flat_no_row_pairs(target@, provided@);
                }
                Ok(())
            } else {
                Err(Error::InvalidTrinoType)
            }
        },
        (TrinoTy::Boolean, TrinoTy::Boolean) => {
            proof {
                lemma_flat_no_row_pairs(target@, provided@);
            }
            Ok(())
        },
        (TrinoTy::Date, TrinoTy::Date) => {
            proof {
                lemma_flat_no_row_pairs(target@, provided@);
            }
            Ok(())
        },
        (TrinoTy::Time, TrinoTy::Time) => {
            proof {
                lemma_flat_no_row_pairs(target@, provided@);
            }
            Ok(())
        },
        (TrinoTy::TimeWithTimeZone, TrinoTy::TimeWithTimeZone) => {
            proof {
                lemma_flat_no_row_pairs(target@, provided@);
            }
            Ok(())
        },
        (TrinoTy::Timestamp, TrinoTy::Timestamp) => {
            proof {
                lemma_flat_no_row_pairs(target@, provided@);
            }
            Ok(())
        },
        (TrinoTy::TimestampWithTimeZone, TrinoTy::TimestampWithTimeZone) => {
            proof {
                lemma_flat_no_row_pairs(target@, provided@);
            }
            Ok(())
        },
        (TrinoTy::IntervalYearToMonth, TrinoTy::IntervalYearToMonth) => {
            proof {
                lemma_flat_no_row_pairs(target@, provided@);
            }
            Ok(())
        },
        (TrinoTy::IntervalDayToSecond, TrinoTy::IntervalDayToSecond) => {
            proof {
                lemma_flat_no_row_pairs(target@, provided@);
            }
            Ok(())
        },
        (TrinoTy::TrinoInt(_), TrinoTy::TrinoInt(_)) => {
            proof {
                lemma_flat_no_row_pairs(target@, provided@);
            }
            Ok(())
        },
        (TrinoTy::TrinoFloat(_), TrinoTy::TrinoFloat(_)) => {
            proof {
                lemma_flat_no_row_pairs(target@, provided@);
            }
            Ok(())
        },
        (TrinoTy::Varchar, TrinoTy::Varchar) => {
            proof {
                lemma_flat_no_row_pairs(target@, provided@);
            }
            Ok(())
        },
        (TrinoTy::Char(a), TrinoTy::Char(b)) => {
            if *a == *b {
                proof {
                    lemma_flat_no_row_pairs(target@, provided@);
                }
                Ok(())
            } else {
                Err(Error::InvalidTrinoType)
            }
        },
        (TrinoTy::IpAddress, TrinoTy::IpAddress) => {
            proof {
                lemma_flat_no_row_pairs(target@, provided@);
            }
            Ok(())
        },
        (TrinoTy::Uuid, TrinoTy::Uuid) => {
            proof {
                lemma_flat_no_row_pairs(target@, provided@);
            }
            Ok(())
        },
        (TrinoTy::Json, TrinoTy::Json) => {
            proof {
                lemma_flat_no_row_pairs(target@, provided@);
            }
            Ok(())
        },
        (TrinoTy::Array(t1), TrinoTy::Array(t2)) => {
            let mut child_path = clone_path(path);
            child_path.push(0);
            let ghost out0 = out@;
            let r = extract_rec(t1, t2, &child_path, out);
            proof {
                lift_entries(target@, provided@, 0, path@, out0, out@);
                if r is Ok {
                    assert forall|p: Seq<usize>|
                        #[trigger] spec_row_pair_at(target@, provided@, p) implies spec_has_path(
                        out@,
                        path@ + p,
                    ) by {
                        lemma_row_pair_step(target@, provided@, p);
                        assert(spec_step(target@, provided@, p[0]) == Some((t1@, t2@)));
                        assert(spec_has_path(out@, child_path@ + p.drop_first()));
                        assert(child_path@ + p.drop_first() =~= path@ + p);
                    }
                }
            }
            r
        },
        (TrinoTy::MapOf(k1, v1), TrinoTy::MapOf(k2, v2)) => {
            let mut kp = clone_path(path);
            kp.push(0);
            let ghost out0 = out@;
            let rk = extract_rec(k1, k2, &kp, out);
            proof {
                lift_entries(target@, provided@, 0, path@, out0, out@);
            }
            match rk {
                Ok(_) => {},
                Err(e) => {
                    return Err(e);
                },
            }
            let mut vp = clone_path(path);
            vp.push(1);
            let ghost out1 = out@;
            let rv = extract_rec(v1, v2, &vp, out);
            proof {
                lift_entries(target@, provided@, 1, path@, out1, out@);
                if rv is Ok {
                    lemma_complete_mono(k1@, k2@, kp@, out1, out@);
                    assert forall|p: Seq<usize>|
                        #[trigger] spec_row_pair_at(target@, provided@, p) implies spec_has_path(
                        out@,
                        path@ + p,
                    ) by {
                        lemma_row_pair_step(target@, provided@, p);
                        if p[0] == 0 {
                            assert(spec_step(target@, provided@, p[0]) == Some((k1@, k2@)));
                            assert(spec_has_path(out@, kp@ + p.drop_first()));
                            assert(kp@ + p.drop_first() =~= path@ + p);
                        } else {
                            assert(spec_step(target@, provided@, p[0]) == Some((v1@, v2@)));
                            assert(spec_has_path(out@, vp@ + p.drop_first()));
                            assert(vp@ + p.drop_first() =~= path@ + p);
                        }
                    }
                }
            }
            rv
        },
        (TrinoTy::Tuple(t1), TrinoTy::Tuple(t2)) => {
            if t1.len() != t2.len() {
                proof {
                    assert(!spec_compatible(target@, provided@));
                }
                return Err(Error::InvalidTrinoType);
            }
            let n = t1.len();
            let ghost t1v = target@->Tuple_0;
            let ghost t2v = provided@->Tuple_0;
            proof {
                lemma_tuple_compat_pointwise(t1v, t2v);
            }
            let mut i: usize = 0;
            while i < n
                invariant
                    i <= n,
                    out@.len() >= old(out)@.len(),
                    forall|j: int| 0 <= j < old(out)@.len() ==> out@[j] == old(out)@[j],
                    forall|j: int|
                        old(out)@.len() <= j < out@.len() ==> {
                            let e = #[trigger] out@[j];
                            &&& e.0@.len() >= path@.len()
                            &&& e.0@.take(path@.len() as int) == path@
                            &&& spec_entry_ok(
                                target@,
                                provided@,
                                e.0@.skip(path@.len() as int),
                                e.1@,
                            )
                        },
                    forall|j: int| 0 <= j < i ==> spec_compatible(#[trigger] t1v[j], t2v[j]),
                    forall|k: usize|
                        k < i ==> #[trigger] spec_child_complete(target@, provided@, path@, k, out@),
                decreases n - i,
            {
                let mut cp = clone_path(path);
                cp.push(i);
                let ghost outb = out@;
                let r = extract_rec(&t1[i], &t2[i], &cp, out);
                proof {
                    lift_entries(target@, provided@, i, path@, outb, out@);
                }
                match r {
                    Ok(_) => {},
                    Err(e) => {
                        return Err(e);
                    },
                }
                proof {
                    assert(spec_step(target@, provided@, i) == Some(
                        (ty_view(t1@[i as int]), ty_view(t2@[i as int])),
                    ));
                    assert(spec_child_complete(target@, provided@, path@, i, out@));
                    assert forall|k: usize|
                        k < i implies #[trigger] spec_child_complete(
                        target@,
                        provided@,
                        path@,
                        k,
                        out@,
                    ) by {
                        assert(spec_child_complete(target@, provided@, path@, k, outb));
                        if spec_step(target@, provided@, k) is Some {
                            let cpk = spec_step(target@, provided@, k).unwrap();
                            lemma_complete_mono(cpk.0, cpk.1, path@.push(k), outb, out@);
                        }
                    }
                }
                i += 1;
            }
            proof {
                assert forall|p: Seq<usize>|
                    #[trigger] spec_row_pair_at(target@, provided@, p) implies spec_has_path(
                    out@,
                    path@ + p,
                ) by {
                    if p.len() == 0 {
                        assert(spec_target_at(target@, provided@, p) == Some(target@));
                        assert(false);
                    } else {
                        lemma_row_pair_step(target@, provided@, p);
                        let cp0 = spec_step(target@, provided@, p[0]).unwrap();
                        assert((p[0] as int) < n);
                        assert(spec_child_complete(target@, provided@, path@, p[0], out@));
                        assert(spec_has_path(out@, path@.push(p[0]) + p.drop_first()));
                        assert(path@.push(p[0]) + p.drop_first() =~= path@ + p);
                    }
                }
            }
            Ok(())
        },
        (TrinoTy::Row(f1), TrinoTy::Row(f2)) => {
            let ghost f1v = target@->Row_0;
            let ghost f2v = provided@->Row_0;
            proof {
                assert(forall|x: int|
                    0 <= x < f1v.len() ==> #[trigger] f1v[x] == (f1@[x].0@, ty_view(f1@[x].1)));
                assert(forall|x: int|
                    0 <= x < f2v.len() ==> #[trigger] f2v[x] == (f2@[x].0@, ty_view(f2@[x].1)));
            }
            if f1.len() != f2.len() {
                return Err(Error::InvalidTrinoType);
            }
            let n = f2.len();
            let mut i: usize = 0;
            while i < n
                invariant
                    i <= n,
                    forall|a: int, b: int| 0 <= a < b < i ==> (#[trigger] f1v[a]).0 != (
                    #[trigger] f1v[b]).0,
                decreases n - i,
            {
                let mut j: usize = 0;
                while j < i
                    invariant
                        j <= i,
                        forall|b: int| 0 <= b < j ==> (#[trigger] f1v[b]).0 != f1v[i as int].0,
                    decreases i - j,
                {
                    if str_eq(f1[j].0.as_str(), f1[i].0.as_str()) {
                        proof {
                            assert(f1v[j as int].0 == f1v[i as int].0);
                            assert(!spec_distinct_names(f1v));
                        }
                        return Err(Error::InvalidTrinoType);
                    }
                    j += 1;
                }
                i += 1;
            }
            proof {
                assert(spec_distinct_names(f1v));
            }
            let mut i: usize = 0;
            while i < n
                invariant
                    i <= n,
                    forall|a: int, b: int| 0 <= a < b < i ==> (#[trigger] f2v[a]).0 != (
                    #[trigger] f2v[b]).0,
                decreases n - i,
            {
                let mut j: usize = 0;
                while j < i
                    invariant
                        j <= i,
                        forall|b: int| 0 <= b < j ==> (#[trigger] f2v[b]).0 != f2v[i as int].0,
                    decreases i - j,
                {
                    if str_eq(f2[j].0.as_str(), f2[i].0.as_str()) {
                        proof {
                            assert(f2v[j as int].0 == f2v[i as int].0);
                            assert(!spec_distinct_names(f2v));
                        }
                        return Err(Error::InvalidTrinoType);
                    }
                    j += 1;
                }
                i += 1;
            }
            proof {
                assert(spec_distinct_names(f2v));
                lemma_rows_compat_pointwise(f1v, f2v);
            }
            let mut perm: Vec<usize> = Vec::new();
            let mut i: usize = 0;
            while i < n
                invariant
                    i <= n,
                    perm@.len() == i,
                    forall|k: int|
                        0 <= k < i ==> ((#[trigger] perm@[k]) as int) < f1v.len()
                            && f1v[perm@[k] as int].0 == f2v[k].0 && perm@[k] as int
                            == spec_name_index(f1v, f2v[k].0),
                decreases n - i,
            {
                let mut j: usize = 0;
                let mut found: usize = n;
                while j < n
                    invariant
                        j <= n,
                        found <= n,
                        found == n ==> forall|b: int|
                            0 <= b < j ==> (#[trigger] f1v[b]).0 != f2v[i as int].0,
                        found < n ==> f1v[found as int].0 == f2v[i as int].0 && (forall|b: int|
                            0 <= b < found ==> (#[trigger] f1v[b]).0 != f2v[i as int].0),
                    decreases n - j,
                {
                    if found == n {
                        if str_eq(f1[j].0.as_str(), f2[i].0.as_str()) {
                            found = j;
                        }
                    }
                    j += 1;
                }
                if found == n {
                    proof {
                        assert(!spec_has_name(f1v, f2v[i as int].0));
                        assert(!spec_rows_compat(f1v, f2v));
                    }
                    return Err(Error::InvalidTrinoType);
                }
                proof {
                    assert(spec_has_name(f1v, f2v[i as int].0));
                    lemma_name_index(f1v, f2v[i as int].0);
                    let ni = spec_name_index(f1v, f2v[i as int].0);
                    if ni != found {
                        assert(f1v[ni].0 == f1v[found as int].0);
                    }
                }
                perm.push(found);
                i += 1;
            }
            let ghost permv = perm@;
            let cp = clone_path(path);
            let pcopy = clone_path(&perm);
            let ghost out_before = out@;
            out.push((cp, pcopy));
            proof {
                assert(spec_entry_ok(target@, provided@, Seq::<usize>::empty(), permv));
                assert(out@[out_before.len() as int].0@ == path@);
                assert(path@.take(path@.len() as int) =~= path@);
                assert(path@.skip(path@.len() as int) =~= Seq::<usize>::empty());
            }
            let mut i: usize = 0;
            while i < n
                invariant
                    i <= n,
                    perm@ == permv,
                    perm@.len() == n,
                    forall|k: int|
                        0 <= k < n ==> ((#[trigger] perm@[k]) as int) < f1v.len()
                            && f1v[perm@[k] as int].0 == f2v[k].0 && perm@[k] as int
                            == spec_name_index(f1v, f2v[k].0),
                    out@.len() > old(out)@.len(),
                    out@.len() >= old(out)@.len(),
                    forall|j: int| 0 <= j < old(out)@.len() ==> out@[j] == old(out)@[j],
                    out@[old(out)@.len() as int].0@ == path@,
                    forall|j: int|
                        old(out)@.len() <= j < out@.len() ==> {
                            let e = #[trigger] out@[j];
                            &&& e.0@.len() >= path@.len()
                            &&& e.0@.take(path@.len() as int) == path@
                            &&& spec_entry_ok(
                                target@,
                                provided@,
                                e.0@.skip(path@.len() as int),
                                e.1@,
                            )
                        },
                    forall|k: int|
                        0 <= k < i ==> spec_compatible(
                            f1v[spec_name_index(f1v, (#[trigger] f2v[k]).0)].1,
                            f2v[k].1,
                        ),
                    forall|k: usize|
                        k < i ==> #[trigger] spec_child_complete(target@, provided@, path@, k, out@),
                decreases n - i,
            {
                let j = perm[i];
                let mut cp2 = clone_path(path);
                cp2.push(i);
                let ghost outb = out@;
                let r = extract_rec(&f1[j].1, &f2[i].1, &cp2, out);
                proof {
                    assert(spec_step(target@, provided@, i) == Some(
                        (f1v[spec_name_index(f1v, f2v[i as int].0)].1, f2v[i as int].1),
                    ));
                    lift_entries(target@, provided@, i, path@, outb, out@);
                }
                match r {
                    Ok(_) => {},
                    Err(e) => {
                        proof {
                            assert(ty_view(f1@[j as int].1) == f1v[j as int].1);
                            assert(!spec_compatible(
                                f1v[spec_name_index(f1v, f2v[i as int].0)].1,
                                f2v[i as int].1,
                            ));
                            assert(!spec_rows_compat(f1v, f2v));
                        }
                        return Err(e);
                    },
                }
                proof {
                    assert(ty_view(f1@[j as int].1) == f1v[j as int].1);
                    assert(spec_compatible(
                        f1v[spec_name_index(f1v, f2v[i as int].0)].1,
                        f2v[i as int].1,
                    ));
                    assert(spec_child_complete(target@, provided@, path@, i, out@));
                    assert forall|k: usize|
                        k < i implies #[trigger] spec_child_complete(
                        target@,
                        provided@,
                        path@,
                        k,
                        out@,
                    ) by {
                        assert(spec_child_complete(target@, provided@, path@, k, outb));
                        if spec_step(target@, provided@, k) is Some {
                            let cpk = spec_step(target@, provided@, k).unwrap();
                            lemma_complete_mono(cpk.0, cpk.1, path@.push(k), outb, out@);
                        }
                    }
                }
                i += 1;
            }
            proof {
                assert forall|k: int| 0 <= k < n implies spec_has_name(
                    f1v,
                    (#[trigger] f2v[k]).0,
                ) by {
                    assert((perm@[k] as int) < f1v.len());
                    assert(f1v[perm@[k] as int].0 == f2v[k].0);
                }
                assert(spec_rows_compat(f1v, f2v));
                assert forall|p: Seq<usize>|
                    #[trigger] spec_row_pair_at(target@, provided@, p) implies spec_has_path(
                    out@,
                    path@ + p,
                ) by {
                    if p.len() == 0 {
                        assert(path@ + p =~= path@);
                        assert(out@[old(out)@.len() as int].0@ == path@ + p);
                    } else {
                        lemma_row_pair_step(target@, provided@, p);
                        assert((p[0] as int) < n);
                        assert(spec_child_complete(target@, provided@, path@, p[0], out@));
                        assert(spec_has_path(out@, path@.push(p[0]) + p.drop_first()));
                        assert(path@.push(p[0]) + p.drop_first() =~= path@ + p);
                    }
                }
            }
            Ok(())
        },
        _ => {
            proof {
                assert(!spec_compatible(target@, provided@));
            }
            Err(Error::InvalidTrinoType)
        },
    }
}

/// Lift entries recorded for the `i`-th child pair to the parent node.
proof fn lift_entries(
    target: TrinoTyV,
    provided: TrinoTyV,
    i: usize,
    path: Seq<usize>,
    before: Seq<(Vec<usize>, Vec<usize>)>,
    after: Seq<(Vec<usize>, Vec<usize>)>,
)
    requires
        spec_step(target, provided, i) is Some,
        after.len() >= before.len(),
        forall|j: int|
            before.len() <= j < after.len() ==> {
                let e = #[trigger] after[j];
                &&& e.0@.len() >= path.len() + 1
                &&& e.0@.take((path.len() + 1) as int) == path.push(i)
                &&& spec_entry_ok(
                    spec_step(target, provided, i).unwrap().0,
                    spec_step(target, provided, i).unwrap().1,
                    e.0@.skip((path.len() + 1) as int),
                    e.1@,
                )
            },
    ensures
        forall|j: int|
            before.len() <= j < after.len() ==> {
                let e = #[trigger] after[j];
                &&& e.0@.len() >= path.len()
                &&& e.0@.take(path.len() as int) == path
                &&& spec_entry_ok(target, provided, e.0@.skip(path.len() as int), e.1@)
            },
{
    assert forall|j: int|
        before.len() <= j < after.len() implies {
        let e = #[trigger] after[j];
        &&& e.0@.len() >= path.len()
        &&& e.0@.take(path.len() as int) == path
        &&& spec_entry_ok(target, provided, e.0@.skip(path.len() as int), e.1@)
    } by {
        let e = after[j];
        assert(e.0@.take((path.len() + 1) as int) == path.push(i));
        assert(e.0@.take(path.len() as int) =~= path.push(i).take(path.len() as int));
        assert(path.push(i).take(path.len() as int) =~= path);
        assert(e.0@.take((path.len() + 1) as int)[path.len() as int] == e.0@[path.len() as int]);
        assert(path.push(i)[path.len() as int] == i);
        assert(e.0@[path.len() as int] == i);
        let suffix = e.0@.skip((path.len() + 1) as int);
        lemma_entry_lift(target, provided, i, suffix, e.1@);
        assert(e.0@.skip(path.len() as int) =~= seq![i] + suffix);
    }
}

/// Exact equality of two index paths.
fn usize_vec_eq(a: &Vec<usize>, b: &Vec<usize>) -> (r: bool)
    ensures
        r == (a@ == b@),
{
    if a.len() != b.len() {
        return false;
    }
    let n = a.len();
    let mut i: usize = 0;
    while i < n
        invariant
            i <= n,
            n == a@.len() == b@.len(),
            forall|j: int| 0 <= j < i ==> a@[j] == b@[j],
        decreases n - i,
    {
        if a[i] != b[i] {
            return false;
        }
        i += 1;
    }
    proof {
        assert(a@ =~= b@);
    }
    true
}

/// Copy a permutation table.
fn clone_map(m: &Vec<(Vec<usize>, Vec<usize>)>) -> (r: Vec<(Vec<usize>, Vec<usize>)>)
    ensures
        r@.len() == m@.len(),
        forall|j: int|
            0 <= j < m@.len() ==> (#[trigger] r@[j]).0@ == m@[j].0@ && r@[j].1@ == m@[j].1@,
{
    let mut out: Vec<(Vec<usize>, Vec<usize>)> = Vec::new();
    let n = m.len();
    let mut i: usize = 0;
    while i < n
        invariant
            i <= n,
            n == m@.len(),
            out@.len() == i,
            forall|j: int|
                0 <= j < i ==> (#[trigger] out@[j]).0@ == m@[j].0@ && out@[j].1@ == m@[j].1@,
        decreases n - i,
    {
        let p = clone_path(&m[i].0);
        let q = clone_path(&m[i].1);
        out.push((p, q));
        i += 1;
    }
    out
}

/// The reconciliation context for one provided type tree: the provided
/// type, the position the context currently stands at (as a child-index
/// path), and the permutation recorded for every reconciled row node.
pub struct Context {
    root: TrinoTy,
    path: Vec<usize>,
    map: Vec<(Vec<usize>, Vec<usize>)>,
}

impl Context {
    /// The provided type this context was built against.
    pub closed spec fn spec_root(&self) -> TrinoTyV {
        self.root@
    }

    /// The path of the node this context stands at.
    pub closed spec fn spec_path(&self) -> Seq<usize> {
        self.path@
    }

    /// The recorded `(path, permutation)` entries.
    pub closed spec fn spec_entries(&self) -> Seq<(Seq<usize>, Seq<usize>)> {
        Seq::new(
            self.map@.len(),
            |i: int|
                if 0 <= i < self.map@.len() {
                    (self.map@[i].0@, self.map@[i].1@)
                } else {
                    (Seq::empty(), Seq::empty())
                },
        )
    }

    /// Reconcile a declared type against a provided type. On success the
    /// context stands at the root of the provided tree; every recorded
    /// entry holds a correct name-matching permutation for the provided
    /// row node at its path; every row node the reconciliation
    /// encounters has an entry; and when both roots are rows, the root's
    /// entry is recorded first, under the empty path.
    pub fn new(target: &TrinoTy, provided: &TrinoTy) -> (r: Result<Context, Error>)
        ensures
            r is Ok <==> spec_compatible(target@, provided@),
            r matches Ok(ctx) ==> {
                &&& ctx.spec_root() == provided@
                &&& ctx.spec_path() == Seq::<usize>::empty()
                &&& forall|j: int|
                    0 <= j < ctx.spec_entries().len() ==> spec_entry_ok(
                        target@,
                        provided@,
                        (#[trigger] ctx.spec_entries()[j]).0,
                        ctx.spec_entries()[j].1,
                    )
                &&& forall|p: Seq<usize>|
                    #[trigger] spec_row_pair_at(target@, provided@, p) ==> (exists|j: int|
                        0 <= j < ctx.spec_entries().len() && (#[trigger] ctx.spec_entries()[j]).0
                            == p)
                &&& (spec_unopt(target@) is Row && provided@ is Row) ==> (ctx.spec_entries().len()
                    > 0 && ctx.spec_entries()[0].0 == Seq::<usize>::empty())
            },
            r matches Err(e) ==> e is InvalidTrinoType,
    {
        let mut map: Vec<(Vec<usize>, Vec<usize>)> = Vec::new();
        let path0: Vec<usize> = Vec::new();
        match extract_rec(target, provided, &path0, &mut map) {
            Ok(_) => {
                let ctx = Context { root: provided.clone(), path: Vec::new(), map };
                proof {
                    assert forall|j: int|
                        0 <= j < ctx.spec_entries().len() implies spec_entry_ok(
                        target@,
                        provided@,
                        (#[trigger] ctx.spec_entries()[j]).0,
                        ctx.spec_entries()[j].1,
                    ) by {
                        assert(ctx.spec_entries()[j].0 == ctx.map@[j].0@);
                        assert(ctx.map@[j].0@.skip(0) =~= ctx.map@[j].0@);
                    }
                    if spec_unopt(target@) is Row && provided@ is Row {
                        assert(ctx.spec_entries()[0].0 == ctx.map@[0].0@);
                    }
                    assert forall|p: Seq<usize>|
                        #[trigger] spec_row_pair_at(target@, provided@, p) implies (exists|j: int|
                        0 <= j < ctx.spec_entries().len() && (#[trigger] ctx.spec_entries()[j]).0
                            == p) by {
                        assert(spec_has_path(ctx.map@, Seq::<usize>::empty() + p));
                        let j = choose|j: int|
                            0 <= j < ctx.map@.len() && (#[trigger] ctx.map@[j]).0@ == Seq::<
                                usize,
                            >::empty() + p;
                        assert(Seq::<usize>::empty() + p =~= p);
                        assert(ctx.spec_entries()[j].0 == ctx.map@[j].0@);
                    }
                }
                Ok(ctx)
            },
            Err(e) => Err(e),
        }
    }

    /// Step to the `child`-th child of the current node, keeping the full
    /// permutation map.
    pub fn with_ty(&self, child: usize) -> (r: Context)
        ensures
            r.spec_root() == self.spec_root(),
            r.spec_path() == self.spec_path().push(child),
            r.spec_entries() == self.spec_entries(),
    {
        let mut path = clone_path(&self.path);
        path.push(child);
        let r = Context { root: self.root.clone(), path, map: clone_map(&self.map) };
        proof {
            assert(r.spec_entries() =~= self.spec_entries());
        }
        r
    }

    /// The provided-type node this context stands at, if the path is
    /// valid in the provided tree.
    pub fn ty(&self) -> (r: Option<&TrinoTy>)
        ensures
            r matches Some(t) ==> Some(t@) == spec_node_at(self.spec_root(), self.spec_path()),
            r is None ==> spec_node_at(self.spec_root(), self.spec_path()) is None,
    {
        proof {
            assert(self.path@.skip(0) =~= self.path@);
        }
        node_at(&self.root, &self.path, 0)
    }

    /// The permutation recorded for the node this context stands at, if
    /// that node is a reconciled row.
    pub fn row_map(&self) -> (r: Option<&Vec<usize>>)
        ensures
            r is Some <==> (exists|j: int|
                0 <= j < self.spec_entries().len() && (#[trigger] self.spec_entries()[j]).0
                    == self.spec_path()),
            r matches Some(p) ==> (exists|j: int|
                0 <= j < self.spec_entries().len() && #[trigger] self.spec_entries()[j] == (
                    self.spec_path(),
                    p@,
                )),
    {
        let n = self.map.len();
        let mut i: usize = 0;
        while i < n
            invariant
                i <= n,
                n == self.map@.len(),
                forall|j: int| 0 <= j < i ==> (#[trigger] self.map@[j]).0@ != self.path@,
            decreases n - i,
        {
            if usize_vec_eq(&self.map[i].0, &self.path) {
                proof {
                    assert(self.spec_entries()[i as int] == (self.spec_path(), self.map@[
                        i as int].1@));
                }
                return Some(&self.map[i].1);
            }
            i += 1;
        }
        proof {
            assert forall|j: int|
                0 <= j < self.spec_entries().len() implies (#[trigger] self.spec_entries()[j]).0
                != self.spec_path() by {
                assert(self.spec_entries()[j].0 == self.map@[j].0@);
            }
        }
        None
    }
}

/// Walk a type tree along a child-index path, starting at step `k`.
fn node_at<'a>(t: &'a TrinoTy, path: &Vec<usize>, k: usize) -> (r: Option<&'a TrinoTy>)
    requires
        k <= path@.len(),
    ensures
        r matches Some(n) ==> Some(n@) == spec_node_at(t@, path@.skip(k as int)),
        r is None ==> spec_node_at(t@, path@.skip(k as int)) is None,
    decreases path@.len() - k,
{
    if k == path.len() {
        proof {
            assert(path@.skip(k as int) =~= Seq::<usize>::empty());
        }
        return Some(t);
    }
    let i = path[k];
    proof {
        assert(path@.skip(k as int)[0] == path@[k as int]);
        assert(path@.skip(k as int).drop_first() =~= path@.skip(k + 1 as int));
    }
    match t {
        TrinoTy::Optional(x) => if i == 0 {
            node_at(x, path, k + 1)
        } else {
            None
        },
        TrinoTy::Array(x) => if i == 0 {
            node_at(x, path, k + 1)
        } else {
            None
        },
        TrinoTy::MapOf(key, value) => if i == 0 {
            node_at(key, path, k + 1)
        } else if i == 1 {
            node_at(value, path, k + 1)
        } else {
            None
        },
        TrinoTy::Tuple(ts) => if i < ts.len() {
            node_at(&ts[i], path, k + 1)
        } else {
            None
        },
        TrinoTy::Row(fs) => if i < fs.len() {
            node_at(&fs[i].1, path, k + 1)
        } else {
            None
        },
        _ => None,
    }
}

/// Whether reconciliation encounters a row pair at this path: the
/// provided node there is a row, matched against a declared row.
pub open spec fn spec_row_pair_at(target: TrinoTyV, provided: TrinoTyV, p: Seq<usize>) -> bool {
    &&& spec_target_at(target, provided, p) matches Some(tn) && tn is Row
    &&& spec_node_at(provided, p) matches Some(pn) && pn is Row
}

/// Whether some entry is recorded under this path.
pub open spec fn spec_has_path(entries: Seq<(Vec<usize>, Vec<usize>)>, path: Seq<usize>) -> bool {
    exists|j: int| 0 <= j < entries.len() && (#[trigger] entries[j]).0@ == path
}

/// Every row pair reachable below this node has a recorded entry, under
/// the node's base path.
pub open spec fn spec_entries_complete(
    target: TrinoTyV,
    provided: TrinoTyV,
    base: Seq<usize>,
    entries: Seq<(Vec<usize>, Vec<usize>)>,
) -> bool {
    forall|p: Seq<usize>|
        #[trigger] spec_row_pair_at(target, provided, p) ==> spec_has_path(entries, base + p)
}

/// Completeness for the child pair at index `k`, if there is one.
pub open spec fn spec_child_complete(
    target: TrinoTyV,
    provided: TrinoTyV,
    base: Seq<usize>,
    k: usize,
    entries: Seq<(Vec<usize>, Vec<usize>)>,
) -> bool {
    spec_step(target, provided, k) matches Some(cp) ==> spec_entries_complete(
        cp.0,
        cp.1,
        base.push(k),
        entries,
    )
}

/// A declared type that is no row, tuple, array, map or optional pairs
/// with no row node at any path.
proof fn lemma_flat_no_row_pairs(target: TrinoTyV, provided: TrinoTyV)
    requires
        !(target is Row),
        !(target is Tuple),
        !(target is Array),
        !(target is MapOf),
        !(target is Optional),
    ensures
        forall|p: Seq<usize>| !(#[trigger] spec_row_pair_at(target, provided, p)),
{
    assert forall|p: Seq<usize>| !(#[trigger] spec_row_pair_at(target, provided, p)) by {
        if p.len() == 0 {
            assert(spec_target_at(target, provided, p) == Some(target));
        } else {
            assert(spec_target_at(target, provided, p) is None);
        }
    }
}

/// Recorded paths survive appending further entries.
proof fn lemma_complete_mono(
    target: TrinoTyV,
    provided: TrinoTyV,
    base: Seq<usize>,
    e1: Seq<(Vec<usize>, Vec<usize>)>,
    e2: Seq<(Vec<usize>, Vec<usize>)>,
)
    requires
        spec_entries_complete(target, provided, base, e1),
        e1.len() <= e2.len(),
        forall|j: int| 0 <= j < e1.len() ==> e2[j] == e1[j],
    ensures
        spec_entries_complete(target, provided, base, e2),
{
    assert forall|p: Seq<usize>|
        #[trigger] spec_row_pair_at(target, provided, p) implies spec_has_path(e2, base + p) by {
        assert(spec_has_path(e1, base + p));
        let j = choose|j: int| 0 <= j < e1.len() && (#[trigger] e1[j]).0@ == base + p;
        assert(e2[j] == e1[j]);
    }
}

proof fn lemma_unopt_not_optional(t: TrinoTyV)
    ensures
        !(spec_unopt(t) is Optional),
    decreases t,
{
    match t {
        TrinoTyV::Optional(x) => {
            lemma_unopt_not_optional(*x);
        },
        _ => {},
    }
}

/// A row pair on a non-empty path decomposes: the first step descends to
/// the child pair, where the remaining path is again a row pair.
proof fn lemma_row_pair_step(target: TrinoTyV, provided: TrinoTyV, p: Seq<usize>)
    requires
        p.len() > 0,
        spec_row_pair_at(target, provided, p),
    ensures
        spec_step(target, provided, p[0]) is Some,
        spec_row_pair_at(
            spec_step(target, provided, p[0]).unwrap().0,
            spec_step(target, provided, p[0]).unwrap().1,
            p.drop_first(),
        ),
{
    lemma_target_at_unopt(target, provided, p);
    lemma_unopt_not_optional(target);
    let un = spec_unopt(target);
    let i = p[0];
    match (un, provided) {
        (TrinoTyV::Array(t1), TrinoTyV::Array(t2)) => {
            assert(i == 0);
            assert(spec_target_at(un, provided, p) == spec_target_at(*t1, *t2, p.drop_first()));
            assert(spec_node_at(provided, p) == spec_node_at(*t2, p.drop_first()));
        },
        (TrinoTyV::MapOf(k1, v1), TrinoTyV::MapOf(k2, v2)) => {
            if i == 0 {
                assert(spec_target_at(un, provided, p) == spec_target_at(
                    *k1,
                    *k2,
                    p.drop_first(),
                ));
                assert(spec_node_at(provided, p) == spec_node_at(*k2, p.drop_first()));
            } else {
                assert(i == 1);
                assert(spec_target_at(un, provided, p) == spec_target_at(
                    *v1,
                    *v2,
                    p.drop_first(),
                ));
                assert(spec_node_at(provided, p) == spec_node_at(*v2, p.drop_first()));
            }
        },
        (TrinoTyV::Tuple(t1), TrinoTyV::Tuple(t2)) => {
            assert((i as int) < t1.len() && (i as int) < t2.len());
            assert(spec_target_at(un, provided, p) == spec_target_at(
                t1[i as int],
                t2[i as int],
                p.drop_first(),
            ));
            assert(spec_node_at(provided, p) == spec_node_at(t2[i as int], p.drop_first()));
        },
        (TrinoTyV::Row(f1), TrinoTyV::Row(f2)) => {
            assert((i as int) < f2.len() && spec_has_name(f1, f2[i as int].0));
            assert(spec_target_at(un, provided, p) == spec_target_at(
                f1[spec_name_index(f1, f2[i as int].0)].1,
                f2[i as int].1,
                p.drop_first(),
            ));
            assert(spec_node_at(provided, p) == spec_node_at(f2[i as int].1, p.drop_first()));
        },
        _ => {
            assert(spec_target_at(un, provided, p) is None);
            assert(false);
        },
    }
}

} // verus!
