//! Result sets: generic rows of JSON values, the typed column list, and
//! the wire form a result set serialises to.

use vstd::prelude::*;

use crate::models::{Column, ColumnV};
use crate::types::{Error, TrinoTy, TrinoTyV, cols_view, spec_from_column, spec_from_columns,
    spec_full_type, spec_ty_to_sig, spec_ty_wire, ty_view, lemma_ty_sig_round_trip};

verus! {

/// `serde_json::Value`, carried through the result pipeline opaquely.
#[verifier::external_type_specification]
#[verifier::external_body]
pub struct ExValue(serde_json::Value);

/// A generic row: one JSON value per column, in column order.
#[derive(Debug)]
pub struct Row {
    data: Vec<serde_json::Value>,
}

impl View for Row {
    type V = Seq<serde_json::Value>;

    closed spec fn view(&self) -> Seq<serde_json::Value> {
        self.data@
    }
}

impl Row {
    /// A row over the given column values.
    pub fn new(data: Vec<serde_json::Value>) -> (r: Row)
        ensures
            r@ == data@,
    {
        Row { data }
    }

    /// An empty placeholder row.
    pub fn empty() -> (r: Row)
        ensures
            r@.len() == 0,
    {
        Row { data: Vec::new() }
    }

    /// The row's column values, borrowed.
    pub fn values(&self) -> (r: &Vec<serde_json::Value>)
        ensures
            r@ == self@,
    {
        &self.data
    }

    /// The row's column values.
    pub fn into_json(self) -> (r: Vec<serde_json::Value>)
        ensures
            r@ == self@,
    {
        self.data
    }
}

/// The views of a row list.
pub open spec fn rows_view(rs: Seq<Row>) -> Seq<Seq<serde_json::Value>> {
    Seq::new(rs.len(), |i: int| if 0 <= i < rs.len() { rs[i]@ } else { Seq::empty() })
}

/// The views of a typed column list.
pub open spec fn types_view(ts: Seq<(String, TrinoTy)>) -> Seq<(Seq<char>, TrinoTyV)> {
    Seq::new(
        ts.len(),
        |i: int|
            if 0 <= i < ts.len() {
                (ts[i].0@, ty_view(ts[i].1))
            } else {
                (Seq::empty(), TrinoTyV::Unknown)
            },
    )
}

/// Ghost model of a result set.
pub struct DataSetV {
    pub types: Seq<(Seq<char>, TrinoTyV)>,
    pub rows: Seq<Seq<serde_json::Value>>,
}

/// A materialized result set: the named column types, and the rows.
#[derive(Debug)]
pub struct DataSet {
    types: Vec<(String, TrinoTy)>,
    data: Vec<Row>,
}

impl View for DataSet {
    type V = DataSetV;

    closed spec fn view(&self) -> DataSetV {
        DataSetV { types: types_view(self.types@), rows: rows_view(self.data@) }
    }
}

impl DataSet {
    /// A result set from an explicit column list; the list must not be
    /// empty.
    pub fn new_row(types: Vec<(String, TrinoTy)>, data: Vec<Row>) -> (r: Result<DataSet, Error>)
        ensures
            r is Ok <==> types@.len() > 0,
            r matches Ok(ds) ==> ds@ == (DataSetV {
                types: types_view(types@),
                rows: rows_view(data@),
            }),
            r matches Err(e) ==> e is EmptyInTrinoRow,
    {
        if types.len() == 0 {
            Err(Error::EmptyInTrinoRow)
        } else {
            Ok(DataSet { types, data })
        }
    }

    /// The column list and the rows, taken apart.
    pub fn split(self) -> (r: (Vec<(String, TrinoTy)>, Vec<Row>))
        ensures
            types_view(r.0@) == self@.types,
            rows_view(r.1@) == self@.rows,
    {
        (self.types, self.data)
    }

    /// The rows alone.
    pub fn into_vec(self) -> (r: Vec<Row>)
        ensures
            rows_view(r@) == self@.rows,
    {
        self.data
    }

    /// Whether the result set holds no row.
    pub fn is_empty(&self) -> (r: bool)
        ensures
            r == (self@.rows.len() == 0),
    {
        self.data.is_empty()
    }

    /// The number of rows.
    pub fn len(&self) -> (r: usize)
        ensures
            r == self@.rows.len(),
    {
        self.data.len()
    }

    /// The rows as a slice.
    pub fn as_slice(&self) -> (r: &[Row])
        ensures
            rows_view(r@) == self@.rows,
    {
        self.data.as_slice()
    }

    /// Append another page's rows; the columns stay as they are.
    pub fn merge(&mut self, other: DataSet)
        ensures
            final(self)@.types == old(self)@.types,
            final(self)@.rows == old(self)@.rows + other@.rows,
    {
        let ghost other_rows = other@.rows;
        let mut incoming = other.data;
        let n = incoming.len();
        let ghost inc0 = incoming@;
        let mut i: usize = 0;
        while i < n
            invariant
                i <= n,
                n == inc0.len(),
                incoming@ =~= inc0.subrange(i as int, n as int),
                self.types@ == old(self).types@,
                self.data@ =~= old(self).data@ + inc0.take(i as int),
            decreases n - i,
        {
            let row = incoming.remove(0);
            proof {
                assert(inc0.subrange(i as int, n as int)[0] == inc0[i as int]);
            }
            self.data.push(row);
            proof {
                assert(self.data@ =~= old(self).data@ + inc0.take(i + 1 as int));
            }
            i += 1;
        }
        proof {
            assert(inc0.take(n as int) =~= inc0);
            assert(self.data@ =~= old(self).data@ + inc0);
            assert(rows_view(old(self).data@ + inc0) =~= rows_view(old(self).data@) + rows_view(
                inc0,
            ));
            assert(rows_view(inc0) == other_rows);
        }
    }

    /// The column descriptors this result set serialises to: each column
    /// with its name, its canonical type string, and its signature.
    pub fn to_columns(&self) -> (r: Vec<Column>)
        ensures
            cols_view(r@) == spec_to_columns(self@.types),
    {
        let n = self.types.len();
        let mut out: Vec<Column> = Vec::new();
        let mut i: usize = 0;
        while i < n
            invariant
                i <= n,
                n == self.types@.len(),
                out@.len() == i,
                cols_view(out@) =~= spec_to_columns(self@.types).take(i as int),
            decreases n - i,
        {
            let name = self.types[i].0.clone();
            let ty_str = self.types[i].1.full_type();
            let sig = self.types[i].1.clone().into_type_signature();
            let col = Column { name, ty: ty_str, type_signature: Some(sig) };
            let ghost colv = col@;
            out.push(col);
            proof {
                assert(self@.types[i as int] == (
                    self.types@[i as int].0@,
                    ty_view(self.types@[i as int].1),
                ));
                assert(out@[i as int]@ == colv);
                assert(colv == spec_to_columns(self@.types)[i as int]);
                assert(cols_view(out@) =~= spec_to_columns(self@.types).take(i + 1 as int));
            }
            i += 1;
        }
        proof {
            assert(spec_to_columns(self@.types).take(n as int) =~= spec_to_columns(self@.types));
        }
        out
    }
}

/// The wire columns of a typed column list.
pub open spec fn spec_to_columns(ts: Seq<(Seq<char>, TrinoTyV)>) -> Seq<ColumnV> {
    Seq::new(
        ts.len(),
        |i: int|
            if 0 <= i < ts.len() {
                ColumnV {
                    name: ts[i].0,
                    ty: spec_full_type(ts[i].1),
                    type_signature: Some(spec_ty_to_sig(ts[i].1)),
                }
            } else {
                ColumnV { name: Seq::empty(), ty: Seq::empty(), type_signature: None }
            },
    )
}

/// Rebuild a result set from its wire parts: the columns give the typed
/// column list, and the rows are taken as they stand. Empty columns are
/// the schema-less case and give an empty result set.
pub fn from_wire(columns: Vec<Column>, rows: Vec<Row>) -> (r: Result<DataSet, Error>)
    ensures
        r is Ok <==> spec_from_columns(cols_view(columns@)) is Some,
        r matches Ok(ds) ==> {
            &&& Some(TrinoTyV::Row(ds@.types)) == spec_from_columns(cols_view(columns@))
            &&& (columns@.len() > 0 ==> ds@.rows == rows_view(rows@))
            &&& (columns@.len() == 0 ==> ds@.rows.len() == 0)
        },
        r matches Err(e) ==> (e is InvalidColumn || e is InvalidTypeSignature),
{
    let has_columns = columns.len() > 0;
    match TrinoTy::from_columns(columns) {
        Ok(t) => {
            let ghost tv = ty_view(t);
            match t {
                TrinoTy::Row(fields) => {
                    let data = if has_columns {
                        rows
                    } else {
                        Vec::new()
                    };
                    let ds = DataSet { types: fields, data };
                    proof {
                        assert(ds@.types =~= tv->Row_0);
                    }
                    Ok(ds)
                },
                _ => {
                    // Unreachable: a column list always reads as a row type.
                    proof {
                        assert(false);
                    }
                    Err(Error::InvalidColumn)
                },
            }
        },
        Err(e) => Err(e),
    }
}

/// The serialisation round trip of a result set: rebuilding from the
/// emitted columns and rows gives the same column list and the same rows,
/// in order, for every non-empty column list of wire-representable
/// types.
pub proof fn lemma_dataset_round_trip(ts: Seq<(Seq<char>, TrinoTyV)>)
    requires
        ts.len() > 0,
        forall|i: int| 0 <= i < ts.len() ==> spec_ty_wire((#[trigger] ts[i]).1),
    ensures
        spec_from_columns(spec_to_columns(ts)) == Some(TrinoTyV::Row(ts)),
{
    let cols = spec_to_columns(ts);
    assert forall|i: int| 0 <= i < cols.len() implies spec_from_column(#[trigger] cols[i])
        == Some(ts[i]) by {
        lemma_ty_sig_round_trip(ts[i].1);
    }
    assert(spec_from_columns(cols) == Some(
        TrinoTyV::Row(Seq::new(cols.len(), |i: int| spec_from_column(cols[i]).unwrap())),
    ));
    assert(Seq::new(cols.len(), |i: int| spec_from_column(cols[i]).unwrap()) =~= ts);
}

/// Build a result set from rows and the server's columns; the columns
/// must be present, valid and non-empty.
pub fn build_dataset(rows: Vec<Row>, columns: Option<Vec<Column>>) -> (r: Result<
    DataSet,
    crate::error::Error,
>)
    ensures
        r is Ok <==> (columns matches Some(cs) && spec_from_columns(cols_view(cs@)) is Some
            && cs@.len() > 0),
        r matches Ok(ds) ==> (columns matches Some(cs) && Some(TrinoTyV::Row(ds@.types))
            == spec_from_columns(cols_view(cs@)) && ds@.rows == rows_view(rows@)),
        r matches Err(e) ==> e is InternalError,
{
    match columns {
        Some(cs) => {
            if cs.len() == 0 {
                let mut m = String::new();
                m.append("Empty columns for Row type");
                return Err(crate::error::Error::InternalError(m));
            }
            match from_wire(cs, rows) {
                Ok(ds) => Ok(ds),
                Err(_) => {
                    let mut m = String::new();
                    m.append("Failed to convert columns");
                    Err(crate::error::Error::InternalError(m))
                },
            }
        },
        None => {
            let mut m = String::new();
            m.append("No columns available for Row type");
            Err(crate::error::Error::InternalError(m))
        },
    }
}

/// Relies on serde_json::Value's `Clone`: the copy equals the original
/// value.
#[verifier::external_body]
fn clone_value(v: &serde_json::Value) -> (r: serde_json::Value)
    ensures
        r == *v,
{
    v.clone()
}

/// A permutation table for a row of `n` fields: as long as the row, all
/// entries in range, no entry repeated. The reconciler's row entries
/// have this shape whenever reconciliation succeeded.
pub open spec fn spec_perm_ok(perm: Seq<usize>, n: int) -> bool {
    &&& perm.len() == n
    &&& forall|i: int| 0 <= i < perm.len() ==> ((#[trigger] perm[i]) as int) < n
    &&& forall|i: int, j: int| 0 <= i < j < perm.len() ==> perm[i] != perm[j]
}

proof fn lemma_perm_surjective(perm: Seq<usize>, n: int, k: int)
    requires
        spec_perm_ok(perm, n),
        0 <= k < n,
    ensures
        exists|i: int| 0 <= i < perm.len() && ((#[trigger] perm[i]) as int) == k,
{
    broadcast use vstd::seq_lib::seq_to_set_is_finite;

    let iseq = Seq::new(perm.len(), |i: int| perm[i] as int);
    assert(iseq.no_duplicates()) by {
        assert forall|i: int, j: int|
            0 <= i < iseq.len() && 0 <= j < iseq.len() && i != j implies iseq[i] != iseq[j] by {
            if i < j {
                assert(perm[i] != perm[j]);
            } else {
                assert(perm[j] != perm[i]);
            }
        }
    }
    iseq.unique_seq_to_set();
    vstd::set_lib::lemma_int_range(0, n);
    let range = vstd::set_lib::set_int_range(0, n);
    assert(iseq.to_set().subset_of(range)) by {
        assert forall|x: int| iseq.to_set().contains(x) implies range.contains(x) by {
            assert(iseq.contains(x));
            let i = choose|i: int| 0 <= i < iseq.len() && iseq[i] == x;
            assert((perm[i] as int) < n);
        }
    }
    vstd::set_lib::lemma_subset_equality(iseq.to_set(), range);
    assert(range.contains(k));
    assert(iseq.to_set().contains(k));
    assert(iseq.contains(k));
    let i = choose|i: int| 0 <= i < iseq.len() && iseq[i] == k;
    assert((perm[i] as int) == k);
}

impl Row {
    /// Reorder this provided-order row into declared order: the value at
    /// provided position `i` moves to declared position `perm[i]`, as
    /// the reconciler's row permutation directs. `None` unless `perm` is
    /// a permutation of the row's positions.
    #[verifier::loop_isolation(false)]
    pub fn reordered(self, perm: &Vec<usize>) -> (r: Option<Row>)
        ensures
            r is Some <==> spec_perm_ok(perm@, self@.len() as int),
            r matches Some(out) ==> {
                &&& out@.len() == self@.len()
                &&& forall|i: int|
                    0 <= i < perm@.len() ==> out@[((#[trigger] perm@[i]) as int)] == self@[i]
            },
    {
        let values = self.into_json();
        let n = values.len();
        if perm.len() != n {
            return None;
        }
        let mut i: usize = 0;
        while i < n
            invariant
                i <= n,
                forall|j: int| 0 <= j < i ==> ((#[trigger] perm@[j]) as int) < n,
            decreases n - i,
        {
            if perm[i] >= n {
                return None;
            }
            i += 1;
        }
        let mut i: usize = 0;
        while i < n
            invariant
                i <= n,
                forall|a: int, b: int| 0 <= a < b < i ==> perm@[a] != perm@[b],
            decreases n - i,
        {
            let mut j: usize = 0;
            while j < i
                invariant
                    j <= i,
                    forall|b: int| 0 <= b < j ==> perm@[b] != perm@[i as int],
                decreases i - j,
            {
                if perm[j] == perm[i] {
                    return None;
                }
                j += 1;
            }
            i += 1;
        }
        let mut out_vals: Vec<serde_json::Value> = Vec::new();
        let ghost mut picked: Seq<int> = Seq::empty();
        let mut k: usize = 0;
        while k < n
            invariant
                k <= n,
                out_vals@.len() == k,
                picked.len() == k,
                forall|q: int|
                    0 <= q < k ==> {
                        &&& 0 <= #[trigger] picked[q] < n
                        &&& ((perm@[picked[q]]) as int) == q
                        &&& out_vals@[q] == values@[picked[q]]
                    },
            decreases n - k,
        {
            proof {
                lemma_perm_surjective(perm@, n as int, k as int);
            }
            let mut idx: usize = n;
            let mut j: usize = 0;
            while j < n
                invariant
                    j <= n,
                    idx <= n,
                    idx == n ==> forall|b: int| 0 <= b < j ==> perm@[b] != (k as usize),
                    idx < n ==> perm@[idx as int] == (k as usize),
                decreases n - j,
            {
                if idx == n && perm[j] == k {
                    idx = j;
                }
                j += 1;
            }
            if idx == n {
                proof {
                    let w = choose|i: int|
                        0 <= i < perm@.len() && ((#[trigger] perm@[i]) as int) == k as int;
                    assert(false);
                }
                return None;
            }
            out_vals.push(clone_value(&values[idx]));
            proof {
                picked = picked.push(idx as int);
                assert(((perm@[idx as int]) as int) == k as int);
                assert(out_vals@[k as int] == values@[idx as int]);
                assert(picked[k as int] == idx as int);
            }
            k += 1;
        }
        proof {
            assert forall|i: int|
                0 <= i < perm@.len() implies out_vals@[((#[trigger] perm@[i]) as int)]
                == values@[i] by {
                let q = perm@[i] as int;
                let i2 = picked[q];
                if i2 != i {
                    if i2 < i {
                        assert(perm@[i2] != perm@[i]);
                    } else {
                        assert(perm@[i] != perm@[i2]);
                    }
                }
            }
        }
        Some(Row::new(out_vals))
    }
}

/// Reorder every row of a page under one row permutation, in order;
/// `None` as soon as one row does not fit the permutation.
#[verifier::loop_isolation(false)]
pub fn reorder_rows(rows: Vec<Row>, perm: &Vec<usize>) -> (r: Option<Vec<Row>>)
    ensures
        r is Some <==> (forall|i: int|
            0 <= i < rows@.len() ==> spec_perm_ok(perm@, (#[trigger] rows@[i])@.len() as int)),
        r matches Some(out) ==> {
            &&& out@.len() == rows@.len()
            &&& forall|i: int, j: int|
                0 <= i < rows@.len() && 0 <= j < perm@.len() ==> (#[trigger] out@[i])@[(
                (#[trigger] perm@[j]) as int)] == rows@[i]@[j]
        },
{
    let n = rows.len();
    let ghost rv = rows@;
    let mut rows = rows;
    let mut out: Vec<Row> = Vec::new();
    let mut i: usize = 0;
    while i < n
        invariant
            i <= n,
            n == rv.len(),
            rows@ =~= rv.subrange(i as int, n as int),
            out@.len() == i,
            forall|j: int| 0 <= j < i ==> spec_perm_ok(perm@, (#[trigger] rv[j])@.len() as int),
            forall|a: int, j: int|
                0 <= a < i && 0 <= j < perm@.len() ==> (#[trigger] out@[a])@[(
                (#[trigger] perm@[j]) as int)] == rv[a]@[j],
            forall|a: int| 0 <= a < i ==> (#[trigger] out@[a])@.len() == rv[a]@.len(),
        decreases n - i,
    {
        let row = rows.remove(0);
        proof {
            assert(rv.subrange(i as int, n as int)[0] == rv[i as int]);
        }
        match row.reordered(perm) {
            Some(re) => {
                out.push(re);
            },
            None => {
                proof {
                    assert(!spec_perm_ok(perm@, rv[i as int]@.len() as int));
                }
                return None;
            },
        }
        i += 1;
    }
    Some(out)
}

} // verus!
