//! Protocol framing: projecting the session onto request headers, and
//! projecting response headers back onto the session.

use vstd::prelude::*;

use crate::encoding::{SpoolingEncoding, spec_encoding_str};
use crate::kv::{decode_kv, encode_kv, spec_decode_kv, spec_encode_kv};
use crate::raw_ty::str_eq;
use crate::session::{RoleV, SelectedRole, Session, SessionV, TransactionId, TxV,
    lemma_assoc_remove_unique, lemma_assoc_set_unique, opt_view, pairs_view, roles_view,
    spec_assoc_remove, spec_assoc_set, spec_maps_wf, spec_role_parse, spec_role_str, spec_tx_str,
    tags_view};

verus! {

pub type HeaderPairsV = Seq<(Seq<char>, Seq<char>)>;

/// The header a set slot emits: one pair, or nothing when the slot is
/// empty.
pub open spec fn spec_opt_header(name: Seq<char>, v: Option<Seq<char>>) -> HeaderPairsV {
    match v {
        Some(x) => seq![(name, x)],
        None => Seq::empty(),
    }
}

/// One header per map entry, the value in `k=urlencode(v)` form.
pub open spec fn spec_kv_headers(name: Seq<char>, m: Seq<(Seq<char>, Seq<char>)>) -> HeaderPairsV {
    Seq::new(
        m.len(),
        |i: int|
            if 0 <= i < m.len() {
                (name, spec_encode_kv(m[i].0, m[i].1))
            } else {
                (Seq::empty(), Seq::empty())
            },
    )
}

/// One `X-Trino-Role` header per role entry, the role rendered in its
/// wire form.
pub open spec fn spec_role_headers(m: Seq<(Seq<char>, RoleV)>) -> HeaderPairsV {
    Seq::new(
        m.len(),
        |i: int|
            if 0 <= i < m.len() {
                ("X-Trino-Role"@, spec_encode_kv(m[i].0, spec_role_str(m[i].1)))
            } else {
                (Seq::empty(), Seq::empty())
            },
    )
}

/// Comma-joined client tags.
pub open spec fn spec_join_comma(ts: Seq<Seq<char>>) -> Seq<char>
    decreases ts,
{
    if ts.len() == 0 {
        Seq::empty()
    } else if ts.len() == 1 {
        ts[0]
    } else {
        ts[0] + ","@ + spec_join_comma(ts.drop_first())
    }
}

/// The client-tags header: absent when no tag is set.
pub open spec fn spec_tags_header(ts: Seq<Seq<char>>) -> HeaderPairsV {
    if ts.len() == 0 {
        Seq::empty()
    } else {
        seq![("X-Trino-Client-Tags"@, spec_join_comma(ts))]
    }
}

/// The headers of a follow-up poll: the user, the client identifier, and
/// `Accept-Encoding: identity` when compression is disabled.
pub open spec fn spec_prepare_headers(s: SessionV) -> HeaderPairsV {
    seq![("X-Trino-User"@, s.user), ("User-Agent"@, "trino-rust-client"@)] + (
    if s.compression_disabled {
        seq![("Accept-Encoding"@, "identity"@)]
    } else {
        Seq::empty()
    })
}

/// The headers of a statement submission: the prepare subset, then every
/// set session slot in its header form, each map entry as its own
/// header, the transaction id with its `NONE` sentinel, and the fixed
/// capability set.
pub open spec fn spec_session_headers(s: SessionV) -> HeaderPairsV {
    spec_prepare_headers(s) + seq![("X-Trino-Source"@, s.source)] + spec_opt_header(
        "X-Trino-Trace-Token"@,
        s.trace_token,
    ) + spec_tags_header(s.client_tags) + spec_opt_header("X-Trino-Client-Info"@, s.client_info)
        + spec_opt_header("X-Trino-Catalog"@, s.catalog) + spec_opt_header(
        "X-Trino-Schema"@,
        s.schema,
    ) + spec_opt_header("X-Trino-Path"@, s.path) + spec_opt_header(
        "X-Trino-Time-Zone"@,
        s.timezone,
    ) + spec_kv_headers("X-Trino-Session"@, s.properties) + spec_kv_headers(
        "X-Trino-Resource-Estimate"@,
        s.resource_estimates,
    ) + spec_role_headers(s.roles) + spec_kv_headers(
        "X-Trino-Extra-Credential"@,
        s.extra_credentials,
    ) + spec_kv_headers("X-Trino-Prepared-Statement"@, s.prepared_statements) + seq![
        ("X-Trino-Transaction-Id"@, spec_tx_str(s.transaction_id)),
        ("X-Trino-Client-Capabilities"@, "PATH,PARAMETRIC_DATETIME"@),
    ] + spec_opt_header(
        "X-Trino-Query-Data-Encoding"@,
        match s.spooling_encoding {
            Some(e) => Some(spec_encoding_str(e)),
            None => None,
        },
    )
}

fn push_header(out: &mut Vec<(String, String)>, name: &str, value: String)
    ensures
        pairs_view(final(out)@) == pairs_view(old(out)@).push((name@, value@)),
{
    let ghost v0 = value@;
    out.push((name.to_owned(), value));
    proof {
        assert(pairs_view(out@) =~= pairs_view(old(out)@).push((name@, v0)));
    }
}

fn push_opt(out: &mut Vec<(String, String)>, name: &str, v: &Option<String>)
    ensures
        pairs_view(final(out)@) == pairs_view(old(out)@) + spec_opt_header(name@, opt_view(*v)),
{
    match v {
        Some(x) => {
            push_header(out, name, x.clone());
            proof {
                assert(pairs_view(out@) =~= pairs_view(old(out)@) + spec_opt_header(
                    name@,
                    opt_view(*v),
                ));
            }
        },
        None => {
            proof {
                assert(pairs_view(out@) =~= pairs_view(old(out)@) + spec_opt_header(
                    name@,
                    opt_view(*v),
                ));
            }
        },
    }
}

#[verifier::loop_isolation(false)]
fn push_kv_map(out: &mut Vec<(String, String)>, name: &str, m: &Vec<(String, String)>)
    ensures
        pairs_view(final(out)@) == pairs_view(old(out)@) + spec_kv_headers(
            name@,
            pairs_view(m@),
        ),
{
    let n = m.len();
    let mut i: usize = 0;
    while i < n
        invariant
            i <= n,
            pairs_view(out@) =~= pairs_view(old(out)@) + spec_kv_headers(
                name@,
                pairs_view(m@),
            ).take(i as int),
        decreases n - i,
    {
        let enc = encode_kv(m[i].0.as_str(), m[i].1.as_str());
        push_header(out, name, enc);
        proof {
            assert(spec_kv_headers(name@, pairs_view(m@)).take(i + 1 as int) =~= spec_kv_headers(
                name@,
                pairs_view(m@),
            ).take(i as int).push((name@, spec_encode_kv(m@[i as int].0@, m@[i as int].1@))));
        }
        i += 1;
    }
    proof {
        assert(spec_kv_headers(name@, pairs_view(m@)).take(n as int) =~= spec_kv_headers(
            name@,
            pairs_view(m@),
        ));
    }
}

#[verifier::loop_isolation(false)]
fn push_roles(out: &mut Vec<(String, String)>, m: &Vec<(String, SelectedRole)>)
    ensures
        pairs_view(final(out)@) == pairs_view(old(out)@) + spec_role_headers(roles_view(m@)),
{
    let n = m.len();
    let mut i: usize = 0;
    while i < n
        invariant
            i <= n,
            pairs_view(out@) =~= pairs_view(old(out)@) + spec_role_headers(roles_view(m@)).take(
                i as int,
            ),
        decreases n - i,
    {
        let rendered = m[i].1.to_str();
        let enc = encode_kv(m[i].0.as_str(), rendered.as_str());
        push_header(out, "X-Trino-Role", enc);
        proof {
            assert(spec_role_headers(roles_view(m@)).take(i + 1 as int) =~= spec_role_headers(
                roles_view(m@),
            ).take(i as int).push(
                ("X-Trino-Role"@, spec_encode_kv(m@[i as int].0@, spec_role_str(m@[i as int].1@))),
            ));
        }
        i += 1;
    }
    proof {
        assert(spec_role_headers(roles_view(m@)).take(n as int) =~= spec_role_headers(
            roles_view(m@),
        ));
    }
}

proof fn lemma_join_comma_push(ts: Seq<Seq<char>>, t: Seq<char>)
    ensures
        spec_join_comma(ts.push(t)) == if ts.len() == 0 {
            t
        } else {
            spec_join_comma(ts) + ","@ + t
        },
    decreases ts,
{
    if ts.len() == 0 {
        assert(ts.push(t).len() == 1);
        assert(ts.push(t)[0] == t);
    } else {
        lemma_join_comma_push(ts.drop_first(), t);
        assert(ts.push(t).drop_first() =~= ts.drop_first().push(t));
        assert(ts.push(t)[0] == ts[0]);
        if ts.len() == 1 {
            assert(ts.drop_first().len() == 0);
        }
    }
}

#[verifier::loop_isolation(false)]
fn push_tags(out: &mut Vec<(String, String)>, tags: &Vec<String>)
    ensures
        pairs_view(final(out)@) == pairs_view(old(out)@) + spec_tags_header(tags_view(tags@)),
{
    let n = tags.len();
    if n == 0 {
        proof {
            assert(pairs_view(out@) =~= pairs_view(old(out)@) + spec_tags_header(
                tags_view(tags@),
            ));
        }
        return ;
    }
    let mut joined = String::new();
    let mut i: usize = 0;
    while i < n
        invariant
            i <= n,
            joined@ == spec_join_comma(tags_view(tags@).take(i as int)),
        decreases n - i,
    {
        if i > 0 {
            joined.append(",");
        }
        joined.append(tags[i].as_str());
        proof {
            lemma_join_comma_push(tags_view(tags@).take(i as int), tags@[i as int]@);
            assert(tags_view(tags@).take(i as int).push(tags@[i as int]@) =~= tags_view(
                tags@,
            ).take(i + 1 as int));
        }
        i += 1;
    }
    proof {
        assert(tags_view(tags@).take(n as int) =~= tags_view(tags@));
    }
    push_header(out, "X-Trino-Client-Tags", joined);
    proof {
        assert(pairs_view(out@) =~= pairs_view(old(out)@) + spec_tags_header(tags_view(tags@)));
    }
}

/// The headers a follow-up poll carries.
pub fn prepare_headers(s: &Session) -> (r: Vec<(String, String)>)
    ensures
        pairs_view(r@) == spec_prepare_headers(s@),
{
    let mut out: Vec<(String, String)> = Vec::new();
    push_header(&mut out, "X-Trino-User", s.user.clone());
    let mut agent = String::new();
    agent.append("trino-rust-client");
    push_header(&mut out, "User-Agent", agent);
    if s.compression_disabled {
        let mut idy = String::new();
        idy.append("identity");
        push_header(&mut out, "Accept-Encoding", idy);
    }
    proof {
        assert(pairs_view(out@) =~= spec_prepare_headers(s@));
    }
    out
}

/// The headers a statement submission carries.
pub fn session_headers(s: &Session) -> (r: Vec<(String, String)>)
    ensures
        pairs_view(r@) == spec_session_headers(s@),
{
    let mut out = prepare_headers(s);
    push_header(&mut out, "X-Trino-Source", s.source.clone());
    push_opt(&mut out, "X-Trino-Trace-Token", &s.trace_token);
    push_tags(&mut out, &s.client_tags);
    push_opt(&mut out, "X-Trino-Client-Info", &s.client_info);
    push_opt(&mut out, "X-Trino-Catalog", &s.catalog);
    push_opt(&mut out, "X-Trino-Schema", &s.schema);
    push_opt(&mut out, "X-Trino-Path", &s.path);
    push_opt(&mut out, "X-Trino-Time-Zone", &s.timezone);
    push_kv_map(&mut out, "X-Trino-Session", &s.properties);
    push_kv_map(&mut out, "X-Trino-Resource-Estimate", &s.resource_estimates);
    push_roles(&mut out, &s.roles);
    push_kv_map(&mut out, "X-Trino-Extra-Credential", &s.extra_credentials);
    push_kv_map(&mut out, "X-Trino-Prepared-Statement", &s.prepared_statements);
    push_header(&mut out, "X-Trino-Transaction-Id", s.transaction_id.to_str());
    let mut caps = String::new();
    caps.append("PATH,PARAMETRIC_DATETIME");
    push_header(&mut out, "X-Trino-Client-Capabilities", caps);
    match &s.spooling_encoding {
        Some(e) => {
            let mut enc = String::new();
            enc.append(e.as_str());
            push_header(&mut out, "X-Trino-Query-Data-Encoding", enc);
        },
        None => {},
    }
    proof {
        assert(pairs_view(out@) =~= spec_session_headers(s@));
    }
    out
}

/// How one response header changes the session: the `X-Trino-Set-*`
/// headers overwrite their slot; the map headers insert or remove one
/// entry, with a value that does not parse leaving the session unchanged;
/// the transaction headers set or clear the id; anything else changes
/// nothing.
pub open spec fn spec_apply_header(s: SessionV, name: Seq<char>, value: Seq<char>) -> SessionV {
    if name == "x-trino-set-catalog"@ {
        SessionV { catalog: Some(value), ..s }
    } else if name == "x-trino-set-schema"@ {
        SessionV { schema: Some(value), ..s }
    } else if name == "x-trino-set-path"@ {
        SessionV { path: Some(value), ..s }
    } else if name == "x-trino-set-session"@ {
        match spec_decode_kv(value) {
            Some((k, v)) => SessionV { properties: spec_assoc_set(s.properties, k, v), ..s },
            None => s,
        }
    } else if name == "x-trino-clear-session"@ {
        SessionV { properties: spec_assoc_remove(s.properties, value), ..s }
    } else if name == "x-trino-set-role"@ {
        match spec_decode_kv(value) {
            Some((k, rv)) => match spec_role_parse(rv) {
                Some(role) => SessionV { roles: spec_assoc_set(s.roles, k, role), ..s },
                None => s,
            },
            None => s,
        }
    } else if name == "x-trino-added-prepare"@ {
        match spec_decode_kv(value) {
            Some((k, v)) => SessionV {
                prepared_statements: spec_assoc_set(s.prepared_statements, k, v),
                ..s
            },
            None => s,
        }
    } else if name == "x-trino-deallocated-prepare"@ {
        SessionV { prepared_statements: spec_assoc_remove(s.prepared_statements, value), ..s }
    } else if name == "x-trino-started-transaction-id"@ {
        if value == "NONE"@ {
            SessionV { transaction_id: TxV::NoTransaction, ..s }
        } else {
            SessionV { transaction_id: TxV::Id(value), ..s }
        }
    } else if name == "x-trino-clear-transaction-id"@ {
        SessionV { transaction_id: TxV::NoTransaction, ..s }
    } else {
        s
    }
}

/// The session after a whole response's headers, applied in order.
pub open spec fn spec_apply_headers(s: SessionV, hs: HeaderPairsV) -> SessionV
    decreases hs.len(),
{
    if hs.len() == 0 {
        s
    } else {
        spec_apply_headers(spec_apply_header(s, hs[0].0, hs[0].1), hs.drop_first())
    }
}

proof fn lemma_apply_headers_push(s: SessionV, hs: HeaderPairsV, h: (Seq<char>, Seq<char>))
    ensures
        spec_apply_headers(s, hs.push(h)) == spec_apply_header(
            spec_apply_headers(s, hs),
            h.0,
            h.1,
        ),
    decreases hs.len(),
{
    if hs.len() == 0 {
        assert(hs.push(h).len() == 1);
        assert(hs.push(h)[0] == h);
        assert(hs.push(h).drop_first() =~= Seq::<(Seq<char>, Seq<char>)>::empty());
        let s1 = spec_apply_header(s, h.0, h.1);
        assert(spec_apply_headers(s1, Seq::empty()) == s1);
    } else {
        lemma_apply_headers_push(spec_apply_header(s, hs[0].0, hs[0].1), hs.drop_first(), h);
        assert(hs.push(h).drop_first() =~= hs.drop_first().push(h));
        assert(hs.push(h)[0] == hs[0]);
    }
}

/// Apply one response header to the session.
fn apply_header(session: &mut Session, name: &str, value: &str)
    ensures
        final(session)@ == spec_apply_header(old(session)@, name@, value@),
{
    if str_eq(name, "x-trino-set-catalog") {
        session.catalog = Some(value.to_owned());
    } else if str_eq(name, "x-trino-set-schema") {
        session.schema = Some(value.to_owned());
    } else if str_eq(name, "x-trino-set-path") {
        session.path = Some(value.to_owned());
    } else if str_eq(name, "x-trino-set-session") {
        match decode_kv(value) {
            Some((k, v)) => {
                assoc_set_field(&mut session.properties, k, v);
            },
            None => {},
        }
    } else if str_eq(name, "x-trino-clear-session") {
        crate::session::assoc_remove(&mut session.properties, value);
    } else if str_eq(name, "x-trino-set-role") {
        match decode_kv(value) {
            Some((k, rv)) => {
                match SelectedRole::from_str(rv.as_str()) {
                    Some(role) => {
                        role_assoc_set(&mut session.roles, k, role);
                    },
                    None => {},
                }
            },
            None => {},
        }
    } else if str_eq(name, "x-trino-added-prepare") {
        match decode_kv(value) {
            Some((k, v)) => {
                assoc_set_field(&mut session.prepared_statements, k, v);
            },
            None => {},
        }
    } else if str_eq(name, "x-trino-deallocated-prepare") {
        crate::session::assoc_remove(&mut session.prepared_statements, value);
    } else if str_eq(name, "x-trino-started-transaction-id") {
        session.transaction_id = TransactionId::from_str(value);
    } else if str_eq(name, "x-trino-clear-transaction-id") {
        session.transaction_id = TransactionId::NoTransaction;
    }
}

fn assoc_set_field(m: &mut Vec<(String, String)>, k: String, v: String)
    ensures
        pairs_view(final(m)@) == spec_assoc_set(pairs_view(old(m)@), k@, v@),
{
    crate::session::assoc_set(m, k, v)
}

#[verifier::loop_isolation(false)]
fn role_assoc_set(m: &mut Vec<(String, SelectedRole)>, k: String, v: SelectedRole)
    ensures
        roles_view(final(m)@) == spec_assoc_set(roles_view(old(m)@), k@, v@),
{
    let ghost vv = v@;
    let n = m.len();
    let mut i: usize = 0;
    while i < n
        invariant
            i <= n,
            m@ == old(m)@,
            forall|j: int| 0 <= j < i ==> (#[trigger] m@[j]).0@ != k@,
        decreases n - i,
    {
        if str_eq(m[i].0.as_str(), k.as_str()) {
            m.set(i, (k, v));
            proof {
                lemma_role_set_at(roles_view(old(m)@), k@, vv, i as int);
                assert(roles_view(m@) =~= roles_view(old(m)@).update(i as int, (k@, vv)));
            }
            return ;
        }
        i += 1;
    }
    m.push((k, v));
    proof {
        lemma_role_set_absent(roles_view(old(m)@), k@, vv);
        assert(roles_view(m@) =~= roles_view(old(m)@).push((k@, vv)));
    }
}

proof fn lemma_role_set_at(m: Seq<(Seq<char>, RoleV)>, k: Seq<char>, v: RoleV, i: int)
    requires
        0 <= i < m.len(),
        m[i].0 == k,
        forall|j: int| 0 <= j < i ==> (#[trigger] m[j]).0 != k,
    ensures
        spec_assoc_set(m, k, v) == m.update(i, (k, v)),
    decreases m,
{
    if i == 0 {
        assert(spec_assoc_set(m, k, v) =~= m.update(0, (k, v)));
    } else {
        assert(m.drop_first()[i - 1] == m[i]);
        assert forall|j: int| 0 <= j < i - 1 implies (#[trigger] m.drop_first()[j]).0 != k by {
            assert(m.drop_first()[j] == m[j + 1]);
        }
        lemma_role_set_at(m.drop_first(), k, v, i - 1);
        assert(spec_assoc_set(m, k, v) =~= m.update(i, (k, v)));
    }
}

proof fn lemma_role_set_absent(m: Seq<(Seq<char>, RoleV)>, k: Seq<char>, v: RoleV)
    requires
        forall|j: int| 0 <= j < m.len() ==> (#[trigger] m[j]).0 != k,
    ensures
        spec_assoc_set(m, k, v) == m.push((k, v)),
    decreases m,
{
    if m.len() == 0 {
        assert(spec_assoc_set(m, k, v) =~= m.push((k, v)));
    } else {
        assert forall|j: int|
            0 <= j < m.drop_first().len() implies (#[trigger] m.drop_first()[j]).0 != k by {
            assert(m.drop_first()[j] == m[j + 1]);
        }
        lemma_role_set_absent(m.drop_first(), k, v);
        assert(spec_assoc_set(m, k, v) =~= m.push((k, v)));
    }
}

/// Project a response's headers onto the session, in response order. The
/// header names are expected in lower case, as an HTTP client normalizes
/// them.
pub fn apply_response_headers(session: &mut Session, headers: &Vec<(String, String)>)
    ensures
        final(session)@ == spec_apply_headers(old(session)@, pairs_view(headers@)),
{
    let n = headers.len();
    let mut i: usize = 0;
    while i < n
        invariant
            i <= n,
            n == headers@.len(),
            session@ == spec_apply_headers(old(session)@, pairs_view(headers@).take(i as int)),
        decreases n - i,
    {
        apply_header(session, headers[i].0.as_str(), headers[i].1.as_str());
        proof {
            lemma_apply_headers_push(
                old(session)@,
                pairs_view(headers@).take(i as int),
                pairs_view(headers@)[i as int],
            );
            assert(pairs_view(headers@).take(i as int).push(pairs_view(headers@)[i as int])
                =~= pairs_view(headers@).take(i + 1 as int));
        }
        i += 1;
    }
    proof {
        assert(pairs_view(headers@).take(n as int) =~= pairs_view(headers@));
    }
}

/// The sticky-schema law, inbound side: `X-Trino-Set-Schema` overwrites
/// the schema slot, and no other header changes it — the protocol has no
/// clear-schema header, so an observed schema persists.
pub proof fn lemma_schema_sticky(s: SessionV, name: Seq<char>, value: Seq<char>)
    ensures
        name == "x-trino-set-schema"@ ==> spec_apply_header(s, name, value).schema == Some(value),
        name != "x-trino-set-schema"@ ==> spec_apply_header(s, name, value).schema == s.schema,
{
    reveal_strlit("x-trino-set-catalog");
    reveal_strlit("x-trino-set-schema");
    assert("x-trino-set-catalog"@.len() == 19);
    assert("x-trino-set-schema"@.len() == 18);
}

/// The sticky-schema law, outbound side: a session whose schema slot is
/// set sends it on every statement submission as `X-Trino-Schema`.
pub proof fn lemma_schema_header(s: SessionV)
    requires
        s.schema is Some,
    ensures
        spec_session_headers(s).contains(("X-Trino-Schema"@, s.schema.unwrap())),
{
    let pre = spec_prepare_headers(s) + seq![("X-Trino-Source"@, s.source)] + spec_opt_header(
        "X-Trino-Trace-Token"@,
        s.trace_token,
    ) + spec_tags_header(s.client_tags) + spec_opt_header("X-Trino-Client-Info"@, s.client_info)
        + spec_opt_header("X-Trino-Catalog"@, s.catalog);
    let full = spec_session_headers(s);
    let p = pre.len() as int;
    assert(full[p] == ("X-Trino-Schema"@, s.schema.unwrap()));
}

/// The session invariant is preserved by every response header: the
/// inbound projection only ever inserts or removes single map entries,
/// so no map ever carries a repeated key.
pub proof fn lemma_apply_header_wf(s: SessionV, name: Seq<char>, value: Seq<char>)
    requires
        spec_maps_wf(s),
    ensures
        spec_maps_wf(spec_apply_header(s, name, value)),
{
    if name == "x-trino-set-session"@ {
        match spec_decode_kv(value) {
            Some((k, v)) => {
                lemma_assoc_set_unique(s.properties, k, v);
            },
            None => {},
        }
    } else if name == "x-trino-clear-session"@ {
        lemma_assoc_remove_unique(s.properties, value);
    } else if name == "x-trino-set-role"@ {
        match spec_decode_kv(value) {
            Some((k, rv)) => match spec_role_parse(rv) {
                Some(role) => {
                    lemma_assoc_set_unique(s.roles, k, role);
                },
                None => {},
            },
            None => {},
        }
    } else if name == "x-trino-added-prepare"@ {
        match spec_decode_kv(value) {
            Some((k, v)) => {
                lemma_assoc_set_unique(s.prepared_statements, k, v);
            },
            None => {},
        }
    } else if name == "x-trino-deallocated-prepare"@ {
        lemma_assoc_remove_unique(s.prepared_statements, value);
    }
}

} // verus!
