//! The query driver's decisions: page classification, the
//! direct/spooled accumulator, the retry policy, and the assembly of
//! spooled pages into rows. The surrounding I/O loop performs each
//! decided action and hands the next page back.

use vstd::prelude::*;

use crate::codec::{decompress_segment_bytes, spec_decompress};
use crate::dataset::{DataSet, DataSetV, Row, rows_view};
use crate::encoding::SpoolingEncoding;
use crate::error::{Error, TrinoError};
use crate::models::Column;
use crate::segment::Segment;

verus! {

/// A page's data: inline rows (the direct protocol) or segment
/// references under an encoding (the spooled protocol).
#[derive(Debug)]
pub enum QueryResultData {
    Spooled(SpooledData),
    Direct(Vec<Row>),
}

/// The spooled form of a page's data.
#[derive(Debug)]
pub struct SpooledData {
    pub encoding: String,
    pub segments: Vec<Segment>,
}

/// One page of the statement polling sequence, with its body fields as
/// plain values.
#[derive(Debug)]
pub struct QueryResult {
    pub id: String,
    pub info_uri: String,
    pub partial_cancel_uri: Option<String>,
    pub next_uri: Option<String>,
    pub columns: Option<Vec<Column>>,
    pub data: Option<QueryResultData>,
    pub error: Option<TrinoError>,
    pub stats: crate::error::TrinoStats,
    pub warnings: Vec<String>,
    pub update_type: Option<String>,
    pub update_count: Option<u64>,
}

/// The running result of a page loop: no data seen yet, inline rows, or
/// a spooled result set. Once a protocol is chosen, a page of the other
/// protocol is a fatal error.
#[derive(Debug)]
pub enum Accumulator {
    Undecided,
    Direct(Vec<Row>),
    Spooled(DataSet),
}

impl Accumulator {
    /// Take a direct page's rows: starts or extends the direct result;
    /// fatal after a spooled page.
    pub fn take_direct(self, rows: Vec<Row>) -> (r: Result<Accumulator, Error>)
        ensures
            old_self_direct_ok(self, rows_view(rows@), r),
    {
        match self {
            Accumulator::Undecided => Ok(Accumulator::Direct(rows)),
            Accumulator::Direct(existing) => {
                let mut all = existing;
                let n = rows.len();
                let ghost all_raw0 = all@;
                let ghost rows_raw0 = rows@;
                let mut rows = rows;
                let mut i: usize = 0;
                while i < n
                    invariant
                        i <= n,
                        n == rows_raw0.len(),
                        rows@ =~= rows_raw0.subrange(i as int, n as int),
                        all@ =~= all_raw0 + rows_raw0.take(i as int),
                    decreases n - i,
                {
                    let row = rows.remove(0);
                    proof {
                        assert(rows_raw0.subrange(i as int, n as int)[0] == rows_raw0[i as int]);
                    }
                    all.push(row);
                    proof {
                        assert(all@ =~= all_raw0 + rows_raw0.take(i + 1 as int));
                    }
                    i += 1;
                }
                proof {
                    assert(rows_raw0.take(n as int) =~= rows_raw0);
                    assert(all@ =~= all_raw0 + rows_raw0);
                    assert(rows_view(all_raw0 + rows_raw0) =~= rows_view(all_raw0) + rows_view(
                        rows_raw0,
                    ));
                }
                Ok(Accumulator::Direct(all))
            },
            Accumulator::Spooled(_) => Err(protocol_crossing()),
        }
    }

    /// Take a spooled page's decoded result set: starts or merges the
    /// spooled result; fatal after a direct page.
    pub fn take_spooled(self, ds: DataSet) -> (r: Result<Accumulator, Error>)
        ensures
            old_self_spooled_ok(self, ds@, r),
    {
        match self {
            Accumulator::Undecided => Ok(Accumulator::Spooled(ds)),
            Accumulator::Spooled(existing) => {
                let mut merged = existing;
                merged.merge(ds);
                Ok(Accumulator::Spooled(merged))
            },
            Accumulator::Direct(_) => Err(protocol_crossing()),
        }
    }
}

/// The transition table for a direct page.
pub open spec fn old_self_direct_ok(
    acc: Accumulator,
    rows: Seq<Seq<serde_json::Value>>,
    r: Result<Accumulator, Error>,
) -> bool {
    match acc {
        Accumulator::Undecided => r matches Ok(a) && (a matches Accumulator::Direct(got)
            && rows_view(got@) == rows),
        Accumulator::Direct(existing) => r matches Ok(a) && (a matches Accumulator::Direct(got)
            && rows_view(got@) == rows_view(existing@) + rows),
        Accumulator::Spooled(_) => r matches Err(e) && e is InternalError,
    }
}

/// The transition table for a spooled page.
pub open spec fn old_self_spooled_ok(
    acc: Accumulator,
    ds: DataSetV,
    r: Result<Accumulator, Error>,
) -> bool {
    match acc {
        Accumulator::Undecided => r matches Ok(a) && (a matches Accumulator::Spooled(got) && got@
            == ds),
        Accumulator::Spooled(existing) => r matches Ok(a) && (a matches Accumulator::Spooled(got)
            && got@.types == existing@.types && got@.rows == existing@.rows + ds.rows),
        Accumulator::Direct(_) => r matches Err(e) && e is InternalError,
    }
}

fn protocol_crossing() -> (r: Error)
    ensures
        r is InternalError,
{
    let mut m = String::new();
    m.append("Protocol crossing: a query mixed direct and spooled pages");
    Error::InternalError(m)
}

/// What the driver does with one page's error and data fields.
#[derive(Debug)]
pub enum PageAction {
    NoData,
    TakeDirect(Vec<Row>),
    FetchSpooled(SpooledData),
}

/// Classify a page: a non-null error ends the query at once — error code
/// 4 as `Forbidden` with the server's message, anything else through the
/// error-name mapping; otherwise the data field decides the action.
pub fn classify_page(error: Option<TrinoError>, data: Option<QueryResultData>) -> (r: Result<
    PageAction,
    Error,
>)
    ensures
        error matches Some(e) ==> {
            &&& r is Err
            &&& (e.error_code == 4 ==> (r matches Err(f) && f matches Error::Forbidden { message }
                && message@ == e.message@))
            &&& (e.error_code != 4 ==> (r matches Err(f)
                && crate::error::spec_error_mapping(e.error_name@, e.message@, f)))
        },
        error is None ==> match data {
            None => r matches Ok(a) && a is NoData,
            Some(QueryResultData::Direct(rows)) => r matches Ok(a) && (a matches
            PageAction::TakeDirect(got) && got == rows),
            Some(QueryResultData::Spooled(sd)) => r matches Ok(a) && (a matches
            PageAction::FetchSpooled(got) && got == sd),
        },
{
    match error {
        Some(e) => {
            if e.error_code == 4 {
                Err(Error::Forbidden { message: e.message })
            } else {
                Err(Error::from_trino_error(e))
            }
        },
        None => match data {
            None => Ok(PageAction::NoData),
            Some(QueryResultData::Direct(rows)) => Ok(PageAction::TakeDirect(rows)),
            Some(QueryResultData::Spooled(sd)) => Ok(PageAction::FetchSpooled(sd)),
        },
    }
}

/// Whether a failed request may be retried at all: only HTTP 503.
pub open spec fn spec_retriable(e: Error) -> bool {
    e matches Error::HttpNotOk(status, _) && status == 503
}

/// Whether a failed request is retried: only on HTTP 503, and only while
/// attempts remain.
pub fn need_retry(e: &Error, attempts_done: usize, max_attempts: usize) -> (r: bool)
    ensures
        r == (spec_retriable(*e) && attempts_done < max_attempts),
{
    match e {
        Error::HttpNotOk(status, _) => *status == 503 && attempts_done < max_attempts,
        _ => false,
    }
}

/// The backoff before retry `attempt` (counting from zero): exponential
/// from one second, capped at two seconds.
pub fn backoff_delay_ms(attempt: usize) -> (r: u64)
    ensures
        r == if attempt == 0 {
            1000u64
        } else {
            2000u64
        },
{
    if attempt == 0 {
        1000
    } else {
        2000
    }
}

/// The retry law: a 503 is retried while attempts remain; no other
/// status and no transport error is ever retried; once the attempts are
/// exhausted nothing is retried, so the last error is the one surfaced.
pub proof fn lemma_retry_policy(e: Error, attempts_done: nat, max_attempts: nat)
    ensures
        !(e matches Error::HttpNotOk(s, _) && s == 503) ==> !spec_retriable(e),
        attempts_done >= max_attempts ==> !(spec_retriable(e) && attempts_done < max_attempts),
        (e matches Error::HttpNotOk(s, _) && s == 503 && attempts_done < max_attempts)
            ==> (spec_retriable(e) && attempts_done < max_attempts),
{
}

/// What serde_json's parser yields on one decompressed payload, when the
/// text is a JSON array of positional row arrays: the result depends on
/// the text alone.
pub uninterp spec fn json_rows_of(s: Seq<char>) -> Option<Seq<Seq<serde_json::Value>>>;

/// Relies on serde_json's parser: read one decompressed segment payload
/// as a JSON array of positional row arrays.
#[verifier::external_body]
fn parse_json_rows(s: &str) -> (r: Option<Vec<Row>>)
    ensures
        r is Some <==> json_rows_of(s@) is Some,
        r matches Some(rs) ==> Some(rows_view(rs@)) == json_rows_of(s@),
{
    let values: Vec<Vec<serde_json::Value>> = serde_json::from_str(s).ok()?;
    Some(values.into_iter().map(Row::new).collect())
}

/// The rows one fetched payload decodes to: decompress under the page's
/// encoding, then parse the text as positional row arrays.
pub open spec fn spec_payload_rows(b: Seq<u8>, e: SpoolingEncoding) -> Option<
    Seq<Seq<serde_json::Value>>,
> {
    match spec_decompress(b, e) {
        Some(text) => json_rows_of(text),
        None => None,
    }
}

/// The views of a list of row lists.
pub open spec fn row_lists_view(ls: Seq<Vec<Row>>) -> Seq<Seq<Seq<serde_json::Value>>> {
    Seq::new(ls.len(), |i: int| if 0 <= i < ls.len() { rows_view(ls[i]@) } else { Seq::empty() })
}

/// Row lists concatenated in order.
pub open spec fn spec_flatten_rows(ls: Seq<Seq<Seq<serde_json::Value>>>) -> Seq<
    Seq<serde_json::Value>,
>
    decreases ls,
{
    if ls.len() == 0 {
        Seq::empty()
    } else {
        ls[0] + spec_flatten_rows(ls.drop_first())
    }
}

proof fn lemma_flatten_rows_push(
    ls: Seq<Seq<Seq<serde_json::Value>>>,
    l: Seq<Seq<serde_json::Value>>,
)
    ensures
        spec_flatten_rows(ls.push(l)) == spec_flatten_rows(ls) + l,
    decreases ls,
{
    if ls.len() == 0 {
        assert(ls.push(l).len() == 1);
        assert(ls.push(l)[0] == l);
        assert(ls.push(l).drop_first() =~= Seq::<Seq<Seq<serde_json::Value>>>::empty());
        assert(spec_flatten_rows(Seq::<Seq<Seq<serde_json::Value>>>::empty()) =~= Seq::<
            Seq<serde_json::Value>,
        >::empty());
        assert(spec_flatten_rows(ls.push(l)) =~= spec_flatten_rows(ls) + l);
    } else {
        lemma_flatten_rows_push(ls.drop_first(), l);
        assert(ls.push(l).drop_first() =~= ls.drop_first().push(l));
        assert(ls.push(l)[0] == ls[0]);
        assert(spec_flatten_rows(ls.push(l)) =~= spec_flatten_rows(ls) + l);
    }
}

/// Concatenate the per-segment row lists, in segment order.
pub fn flatten_rows(lists: Vec<Vec<Row>>) -> (r: Vec<Row>)
    ensures
        rows_view(r@) == spec_flatten_rows(row_lists_view(lists@)),
{
    let ghost lsv = row_lists_view(lists@);
    let mut lists = lists;
    let n = lists.len();
    let ghost lists0 = lists@;
    let mut out: Vec<Row> = Vec::new();
    let mut i: usize = 0;
    while i < n
        invariant
            i <= n,
            n == lists0.len(),
            lsv == row_lists_view(lists0),
            lists@ =~= lists0.subrange(i as int, n as int),
            rows_view(out@) =~= spec_flatten_rows(lsv.take(i as int)),
        decreases n - i,
    {
        let mut chunk = lists.remove(0);
        proof {
            assert(lists0.subrange(i as int, n as int)[0] == lists0[i as int]);
        }
        let ghost out_before = out@;
        let ghost chunkv = rows_view(chunk@);
        let k = chunk.len();
        let ghost chunk0 = chunk@;
        let mut j: usize = 0;
        while j < k
            invariant
                j <= k,
                k == chunk0.len(),
                chunk@ =~= chunk0.subrange(j as int, k as int),
                out@ =~= out_before + chunk0.take(j as int),
            decreases k - j,
        {
            let row = chunk.remove(0);
            proof {
                assert(chunk0.subrange(j as int, k as int)[0] == chunk0[j as int]);
            }
            out.push(row);
            proof {
                assert(out@ =~= out_before + chunk0.take(j + 1 as int));
            }
            j += 1;
        }
        proof {
            assert(chunk0.take(k as int) =~= chunk0);
            assert(out@ =~= out_before + chunk0);
            assert(rows_view(out_before + chunk0) =~= rows_view(out_before) + rows_view(chunk0));
            lemma_flatten_rows_push(lsv.take(i as int), chunkv);
            assert(lsv.take(i as int).push(chunkv) =~= lsv.take(i + 1 as int));
        }
        i += 1;
    }
    proof {
        assert(lsv.take(n as int) =~= lsv);
    }
    out
}

/// Decode the fetched segment payloads of one spooled page: decompress
/// each under the page's encoding, parse each as rows, and concatenate
/// in segment order. Fails with the codec's error if any payload does
/// not decompress, and with `InternalError` if one does not parse.
#[verifier::loop_isolation(false)]
pub fn decode_spooled_rows(payloads: Vec<Vec<u8>>, encoding: &SpoolingEncoding) -> (r: Result<
    Vec<Row>,
    Error,
>)
    ensures
        r is Ok <==> (forall|i: int|
            0 <= i < payloads@.len() ==> spec_payload_rows(
                (#[trigger] payloads@[i])@,
                *encoding,
            ) is Some),
        r matches Ok(rows) ==> rows_view(rows@) == spec_flatten_rows(
            Seq::new(
                payloads@.len(),
                |i: int| spec_payload_rows(payloads@[i]@, *encoding).unwrap(),
            ),
        ),
        r matches Err(e) ==> e is InternalError,
{
    let n = payloads.len();
    let ghost pv = payloads@;
    let mut payloads = payloads;
    let mut lists: Vec<Vec<Row>> = Vec::new();
    let mut i: usize = 0;
    while i < n
        invariant
            i <= n,
            n == pv.len(),
            payloads@ =~= pv.subrange(i as int, n as int),
            lists@.len() == i,
            forall|j: int|
                0 <= j < i ==> spec_payload_rows((#[trigger] pv[j])@, *encoding) is Some,
            forall|j: int|
                0 <= j < i ==> rows_view((#[trigger] lists@[j])@) == spec_payload_rows(
                    pv[j]@,
                    *encoding,
                ).unwrap(),
        decreases n - i,
    {
        let payload = payloads.remove(0);
        proof {
            assert(pv.subrange(i as int, n as int)[0] == pv[i as int]);
        }
        let text = match decompress_segment_bytes(&payload, encoding) {
            Ok(t) => t,
            Err(e) => {
                proof {
                    assert(spec_payload_rows(pv[i as int]@, *encoding) is None);
                }
                return Err(e);
            },
        };
        let rows = match parse_json_rows(text.as_str()) {
            Some(rs) => rs,
            None => {
                proof {
                    assert(spec_payload_rows(pv[i as int]@, *encoding) is None);
                }
                let mut m = String::new();
                m.append("Failed to parse segment JSON");
                return Err(Error::InternalError(m));
            },
        };
        let ghost rowsv = rows_view(rows@);
        lists.push(rows);
        proof {
            assert(rows_view(lists@[i as int]@) == rowsv);
        }
        i += 1;
    }
    let out = flatten_rows(lists);
    proof {
        assert(row_lists_view(lists@) =~= Seq::new(
            pv.len(),
            |i: int| spec_payload_rows(pv[i]@, *encoding).unwrap(),
        ));
    }
    Ok(out)
}

/// The most recent non-null `nextUri`, tracked across the page loop for
/// `execute`.
pub fn track_final_uri(current: Option<String>, next: &Option<String>) -> (r: Option<String>)
    ensures
        next matches Some(u) ==> (r matches Some(v) && v@ == u@),
        next is None ==> r == current,
{
    match next {
        Some(u) => Some(u.clone()),
        None => current,
    }
}

/// The outcome of `execute`: a terminal status document that carries a
/// server error surfaces it through the error-name mapping; otherwise
/// the statement succeeded, with the document's update type and count.
pub fn execute_outcome(result: crate::error::TrinoRetryResult) -> (r: Result<ExecuteResult, Error>)
    ensures
        result.error matches Some(e) ==> (r matches Err(f)
            && crate::error::spec_error_mapping(e.error_name@, e.message@, f)),
        result.error is None ==> (r matches Ok(er) && {
            &&& crate::session::opt_view(er.update_type) == crate::session::opt_view(
                result.update_type,
            )
            &&& er.update_count == result.update_count
        }),
    {
    match result.error {
        Some(e) => Err(Error::from_trino_error(e)),
        None => Ok(
            ExecuteResult {
                update_type: result.update_type,
                update_count: result.update_count,
            },
        ),
    }
}

/// The result of `execute`: the terminal status document's update type
/// and update count, when the server reported them.
#[derive(Debug)]
pub struct ExecuteResult {
    pub update_type: Option<String>,
    pub update_count: Option<u64>,
}

/// Finish the page loop: an undecided accumulator means the query
/// produced no data; direct rows are typed against the observed columns;
/// a spooled result set is already assembled.
pub fn finalize_accumulator(acc: Accumulator, columns: Option<Vec<Column>>) -> (r: Result<
    DataSet,
    Error,
>)
    ensures
        acc is Undecided ==> (r matches Err(e) && e is EmptyData),
        acc matches Accumulator::Spooled(ds) ==> (r matches Ok(got) && got@ == ds@),
        acc matches Accumulator::Direct(rows) ==> {
            &&& (r is Ok <==> (columns matches Some(cs) && crate::types::spec_from_columns(
                crate::types::cols_view(cs@),
            ) is Some && cs@.len() > 0))
            &&& (r matches Ok(got) ==> got@.rows == rows_view(rows@))
        },
{
    match acc {
        Accumulator::Undecided => Err(Error::EmptyData),
        Accumulator::Direct(rows) => crate::dataset::build_dataset(rows, columns),
        Accumulator::Spooled(ds) => Ok(ds),
    }
}

} // verus!
