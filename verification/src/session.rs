//! Per-client session state: identity, scope, the session maps, and the
//! transaction id, together with the wire forms of roles and transaction
//! ids.

use vstd::prelude::*;

use crate::encoding::SpoolingEncoding;
use crate::raw_ty::str_eq;

verus! {

/// A role selection for one catalog: every role, no role, or one named
/// role.
#[derive(Debug)]
pub enum SelectedRole {
    All,
    NoRole,
    Role(String),
}

/// Ghost model of a role selection.
pub enum RoleV {
    All,
    NoRole,
    Role(Seq<char>),
}

impl View for SelectedRole {
    type V = RoleV;

    open spec fn view(&self) -> RoleV {
        match self {
            SelectedRole::All => RoleV::All,
            SelectedRole::NoRole => RoleV::NoRole,
            SelectedRole::Role(name) => RoleV::Role(name@),
        }
    }
}

/// The wire form of a role selection: `ALL`, `NONE`, or `ROLE{name}`.
pub open spec fn spec_role_str(r: RoleV) -> Seq<char> {
    match r {
        RoleV::All => "ALL"@,
        RoleV::NoRole => "NONE"@,
        RoleV::Role(name) => "ROLE{"@ + name + "}"@,
    }
}

/// The role selection a wire form denotes, if any.
pub open spec fn spec_role_parse(s: Seq<char>) -> Option<RoleV> {
    if s == "ALL"@ {
        Some(RoleV::All)
    } else if s == "NONE"@ {
        Some(RoleV::NoRole)
    } else if s.len() >= 6 && s.take(5) == "ROLE{"@ && s.last() == '}' {
        Some(RoleV::Role(s.subrange(5, s.len() - 1)))
    } else {
        None
    }
}

impl SelectedRole {
    /// Render this selection in its wire form.
    pub fn to_str(&self) -> (r: String)
        ensures
            r@ == spec_role_str(self@),
    {
        match self {
            SelectedRole::All => {
                let mut s = String::new();
                s.append("ALL");
                s
            },
            SelectedRole::NoRole => {
                let mut s = String::new();
                s.append("NONE");
                s
            },
            SelectedRole::Role(name) => {
                let mut s = String::new();
                s.append("ROLE{");
                s.append(name.as_str());
                s.append("}");
                s
            },
        }
    }

    /// Parse a wire form back into a selection.
    pub fn from_str(s: &str) -> (r: Option<SelectedRole>)
        ensures
            r is Some <==> spec_role_parse(s@) is Some,
            r matches Some(role) ==> Some(role@) == spec_role_parse(s@),
    {
        if str_eq(s, "ALL") {
            Some(SelectedRole::All)
        } else if str_eq(s, "NONE") {
            Some(SelectedRole::NoRole)
        } else {
            let n = s.unicode_len();
            if n < 6 {
                return None;
            }
            let prefix = s.substring_char(0, 5);
            if !str_eq(prefix, "ROLE{") {
                return None;
            }
            if s.get_char(n - 1) != '}' {
                return None;
            }
            let name = s.substring_char(5, n - 1);
            proof {
                assert(s@.take(5) == prefix@);
                assert(s@.last() == '}');
            }
            Some(SelectedRole::Role(name.to_owned()))
        }
    }

    /// Parsing a rendered role gives the role back.
    pub proof fn lemma_role_round_trip(r: RoleV)
        ensures
            spec_role_parse(spec_role_str(r)) == Some(r),
    {
        reveal_strlit("ALL");
        reveal_strlit("NONE");
        reveal_strlit("ROLE{");
        reveal_strlit("}");
        assert("ALL"@.len() == 3);
        assert("NONE"@.len() == 4);
        assert("ROLE{"@.len() == 5);
        assert("}"@.len() == 1);
        assert("ALL"@[0] == 'A');
        assert("NONE"@[0] == 'N');
        assert("ROLE{"@[0] == 'R');
        match r {
            RoleV::Role(name) => {
                let s = spec_role_str(r);
                assert(s.len() == name.len() + 6);
                assert(s[0] == 'R');
                assert(s.take(5) =~= "ROLE{"@);
                assert(s.last() == '}');
                assert(s != "ALL"@ && s != "NONE"@);
                assert(s.subrange(5, s.len() - 1) =~= name);
            },
            _ => {},
        }
    }
}

/// A transaction id: the sentinel `NONE` when no transaction is open, or
/// the server-assigned id.
#[derive(Debug)]
pub enum TransactionId {
    NoTransaction,
    Id(String),
}

/// Ghost model of a transaction id.
pub enum TxV {
    NoTransaction,
    Id(Seq<char>),
}

impl View for TransactionId {
    type V = TxV;

    open spec fn view(&self) -> TxV {
        match self {
            TransactionId::NoTransaction => TxV::NoTransaction,
            TransactionId::Id(id) => TxV::Id(id@),
        }
    }
}

/// The wire form of a transaction id, with `NONE` as the absent sentinel.
pub open spec fn spec_tx_str(t: TxV) -> Seq<char> {
    match t {
        TxV::NoTransaction => "NONE"@,
        TxV::Id(id) => id,
    }
}

impl TransactionId {
    /// Render the id, with the `NONE` sentinel when no transaction is
    /// open.
    pub fn to_str(&self) -> (r: String)
        ensures
            r@ == spec_tx_str(self@),
    {
        match self {
            TransactionId::NoTransaction => {
                let mut s = String::new();
                s.append("NONE");
                s
            },
            TransactionId::Id(id) => id.clone(),
        }
    }

    /// Read a transaction id from a header value; the sentinel `NONE`
    /// means no transaction.
    pub fn from_str(s: &str) -> (r: TransactionId)
        ensures
            s@ == "NONE"@ ==> r is NoTransaction,
            s@ != "NONE"@ ==> (r matches TransactionId::Id(id) && id@ == s@),
    {
        if str_eq(s, "NONE") {
            TransactionId::NoTransaction
        } else {
            TransactionId::Id(s.to_owned())
        }
    }
}

impl Default for TransactionId {
    /// A fresh session has no transaction.
    fn default() -> (r: Self)
        ensures
            r is NoTransaction,
    {
        TransactionId::NoTransaction
    }
}

/// The per-client session: identity and scope slots, the session maps,
/// and the transaction id. The maps are association lists whose keys are
/// unique (see [`Session::spec_wf`]).
#[derive(Debug)]
pub struct Session {
    pub user: String,
    pub source: String,
    pub trace_token: Option<String>,
    pub client_tags: Vec<String>,
    pub client_info: Option<String>,
    pub catalog: Option<String>,
    pub schema: Option<String>,
    pub path: Option<String>,
    pub timezone: Option<String>,
    pub properties: Vec<(String, String)>,
    pub resource_estimates: Vec<(String, String)>,
    pub extra_credentials: Vec<(String, String)>,
    pub prepared_statements: Vec<(String, String)>,
    pub roles: Vec<(String, SelectedRole)>,
    pub transaction_id: TransactionId,
    pub compression_disabled: bool,
    pub spooling_encoding: Option<SpoolingEncoding>,
}

/// Ghost model of a session.
pub struct SessionV {
    pub user: Seq<char>,
    pub source: Seq<char>,
    pub trace_token: Option<Seq<char>>,
    pub client_tags: Seq<Seq<char>>,
    pub client_info: Option<Seq<char>>,
    pub catalog: Option<Seq<char>>,
    pub schema: Option<Seq<char>>,
    pub path: Option<Seq<char>>,
    pub timezone: Option<Seq<char>>,
    pub properties: Seq<(Seq<char>, Seq<char>)>,
    pub resource_estimates: Seq<(Seq<char>, Seq<char>)>,
    pub extra_credentials: Seq<(Seq<char>, Seq<char>)>,
    pub prepared_statements: Seq<(Seq<char>, Seq<char>)>,
    pub roles: Seq<(Seq<char>, RoleV)>,
    pub transaction_id: TxV,
    pub compression_disabled: bool,
    pub spooling_encoding: Option<SpoolingEncoding>,
}

/// The view of an optional string.
pub open spec fn opt_view(o: Option<String>) -> Option<Seq<char>> {
    match o {
        Some(s) => Some(s@),
        None => None,
    }
}

/// The views of a string pair list.
pub open spec fn pairs_view(ps: Seq<(String, String)>) -> Seq<(Seq<char>, Seq<char>)> {
    Seq::new(
        ps.len(),
        |i: int|
            if 0 <= i < ps.len() {
                (ps[i].0@, ps[i].1@)
            } else {
                (Seq::empty(), Seq::empty())
            },
    )
}

/// The views of a tag list.
pub open spec fn tags_view(ts: Seq<String>) -> Seq<Seq<char>> {
    Seq::new(ts.len(), |i: int| if 0 <= i < ts.len() { ts[i]@ } else { Seq::empty() })
}

/// The views of a role list.
pub open spec fn roles_view(rs: Seq<(String, SelectedRole)>) -> Seq<(Seq<char>, RoleV)> {
    Seq::new(
        rs.len(),
        |i: int|
            if 0 <= i < rs.len() {
                (rs[i].0@, rs[i].1@)
            } else {
                (Seq::empty(), RoleV::All)
            },
    )
}

impl View for Session {
    type V = SessionV;

    open spec fn view(&self) -> SessionV {
        SessionV {
            user: self.user@,
            source: self.source@,
            trace_token: opt_view(self.trace_token),
            client_tags: tags_view(self.client_tags@),
            client_info: opt_view(self.client_info),
            catalog: opt_view(self.catalog),
            schema: opt_view(self.schema),
            path: opt_view(self.path),
            timezone: opt_view(self.timezone),
            properties: pairs_view(self.properties@),
            resource_estimates: pairs_view(self.resource_estimates@),
            extra_credentials: pairs_view(self.extra_credentials@),
            prepared_statements: pairs_view(self.prepared_statements@),
            roles: roles_view(self.roles@),
            transaction_id: self.transaction_id@,
            compression_disabled: self.compression_disabled,
            spooling_encoding: self.spooling_encoding,
        }
    }
}

/// Keys of an association list, in order.
pub open spec fn spec_keys<V>(m: Seq<(Seq<char>, V)>) -> Seq<Seq<char>> {
    Seq::new(m.len(), |i: int| if 0 <= i < m.len() { m[i].0 } else { Seq::empty() })
}

/// An association list with no repeated key.
pub open spec fn spec_unique_keys<V>(m: Seq<(Seq<char>, V)>) -> bool {
    forall|i: int, j: int| 0 <= i < j < m.len() ==> (#[trigger] m[i]).0 != (#[trigger] m[j]).0
}

/// The session maps carry unique keys.
pub open spec fn spec_maps_wf(s: SessionV) -> bool {
    &&& spec_unique_keys(s.properties)
    &&& spec_unique_keys(s.resource_estimates)
    &&& spec_unique_keys(s.extra_credentials)
    &&& spec_unique_keys(s.prepared_statements)
    &&& spec_unique_keys(s.roles)
}

impl Session {
    /// The session maps carry unique keys.
    pub open spec fn spec_wf(self) -> bool {
        spec_maps_wf(self@)
    }
}

/// Insert a key into a ghost association list: overwrite the first entry
/// with that key, or append a new entry.
pub open spec fn spec_assoc_set<V>(m: Seq<(Seq<char>, V)>, k: Seq<char>, v: V) -> Seq<
    (Seq<char>, V),
>
    decreases m,
{
    if m.len() == 0 {
        seq![(k, v)]
    } else if m[0].0 == k {
        seq![(k, v)] + m.drop_first()
    } else {
        seq![m[0]] + spec_assoc_set(m.drop_first(), k, v)
    }
}

/// Remove a key from a ghost association list.
pub open spec fn spec_assoc_remove<V>(m: Seq<(Seq<char>, V)>, k: Seq<char>) -> Seq<(Seq<char>, V)>
    decreases m,
{
    if m.len() == 0 {
        m
    } else if m[0].0 == k {
        m.drop_first()
    } else {
        seq![m[0]] + spec_assoc_remove(m.drop_first(), k)
    }
}

/// Overwrite the entry for `k`, or append one, in a string map.
pub fn assoc_set(m: &mut Vec<(String, String)>, k: String, v: String)
    ensures
        pairs_view(final(m)@) == spec_assoc_set(pairs_view(old(m)@), k@, v@),
{
    let n = m.len();
    let mut i: usize = 0;
    while i < n
        invariant
            i <= n,
            n == m@.len(),
            m@ == old(m)@,
            forall|j: int| 0 <= j < i ==> (#[trigger] m@[j]).0@ != k@,
        decreases n - i,
    {
        if str_eq(m[i].0.as_str(), k.as_str()) {
            m.set(i, (k, v));
            proof {
                lemma_assoc_set_at(pairs_view(old(m)@), k@, v@, i as int);
                assert(pairs_view(m@) =~= pairs_view(old(m)@).update(i as int, (k@, v@)));
            }
            return ;
        }
        i += 1;
    }
    m.push((k, v));
    proof {
        lemma_assoc_set_absent(pairs_view(old(m)@), k@, v@);
        assert(pairs_view(m@) =~= pairs_view(old(m)@).push((k@, v@)));
    }
}

/// Remove the entry for `k`, if any, from a string map.
pub fn assoc_remove(m: &mut Vec<(String, String)>, k: &str)
    ensures
        pairs_view(final(m)@) == spec_assoc_remove(pairs_view(old(m)@), k@),
{
    let n = m.len();
    let mut i: usize = 0;
    while i < n
        invariant
            i <= n,
            n == m@.len(),
            m@ == old(m)@,
            forall|j: int| 0 <= j < i ==> (#[trigger] m@[j]).0@ != k@,
        decreases n - i,
    {
        if str_eq(m[i].0.as_str(), k) {
            m.remove(i);
            proof {
                lemma_assoc_remove_at(pairs_view(old(m)@), k@, i as int);
                assert(pairs_view(m@) =~= pairs_view(old(m)@).remove(i as int));
            }
            return ;
        }
        i += 1;
    }
    proof {
        lemma_assoc_remove_absent(pairs_view(old(m)@), k@);
    }
}

proof fn lemma_assoc_set_at<V>(m: Seq<(Seq<char>, V)>, k: Seq<char>, v: V, i: int)
    requires
        0 <= i < m.len(),
        m[i].0 == k,
        forall|j: int| 0 <= j < i ==> (#[trigger] m[j]).0 != k,
    ensures
        spec_assoc_set(m, k, v) == m.update(i, (k, v)),
    decreases m,
{
    if i == 0 {
        assert(spec_assoc_set(m, k, v) =~= m.update(0, (k, v)));
    } else {
        assert(m.drop_first()[i - 1] == m[i]);
        assert forall|j: int| 0 <= j < i - 1 implies (#[trigger] m.drop_first()[j]).0 != k by {
            assert(m.drop_first()[j] == m[j + 1]);
        }
        lemma_assoc_set_at(m.drop_first(), k, v, i - 1);
        assert(spec_assoc_set(m, k, v) =~= m.update(i, (k, v)));
    }
}

proof fn lemma_assoc_set_absent<V>(m: Seq<(Seq<char>, V)>, k: Seq<char>, v: V)
    requires
        forall|j: int| 0 <= j < m.len() ==> (#[trigger] m[j]).0 != k,
    ensures
        spec_assoc_set(m, k, v) == m.push((k, v)),
    decreases m,
{
    if m.len() == 0 {
        assert(spec_assoc_set(m, k, v) =~= m.push((k, v)));
    } else {
        assert forall|j: int|
            0 <= j < m.drop_first().len() implies (#[trigger] m.drop_first()[j]).0 != k by {
            assert(m.drop_first()[j] == m[j + 1]);
        }
        lemma_assoc_set_absent(m.drop_first(), k, v);
        assert(spec_assoc_set(m, k, v) =~= m.push((k, v)));
    }
}

proof fn lemma_assoc_remove_at<V>(m: Seq<(Seq<char>, V)>, k: Seq<char>, i: int)
    requires
        0 <= i < m.len(),
        m[i].0 == k,
        forall|j: int| 0 <= j < i ==> (#[trigger] m[j]).0 != k,
    ensures
        spec_assoc_remove(m, k) == m.remove(i),
    decreases m,
{
    if i == 0 {
        assert(spec_assoc_remove(m, k) =~= m.remove(0));
    } else {
        assert(m.drop_first()[i - 1] == m[i]);
        assert forall|j: int| 0 <= j < i - 1 implies (#[trigger] m.drop_first()[j]).0 != k by {
            assert(m.drop_first()[j] == m[j + 1]);
        }
        lemma_assoc_remove_at(m.drop_first(), k, i - 1);
        assert(spec_assoc_remove(m, k) =~= m.remove(i));
    }
}

proof fn lemma_assoc_remove_absent<V>(m: Seq<(Seq<char>, V)>, k: Seq<char>)
    requires
        forall|j: int| 0 <= j < m.len() ==> (#[trigger] m[j]).0 != k,
    ensures
        spec_assoc_remove(m, k) == m,
    decreases m,
{
    if m.len() == 0 {
    } else {
        assert forall|j: int|
            0 <= j < m.drop_first().len() implies (#[trigger] m.drop_first()[j]).0 != k by {
            assert(m.drop_first()[j] == m[j + 1]);
        }
        lemma_assoc_remove_absent(m.drop_first(), k);
        assert(spec_assoc_remove(m, k) =~= m);
    }
}

/// Whether some entry carries the key.
pub open spec fn spec_has_key<V>(m: Seq<(Seq<char>, V)>, k: Seq<char>) -> bool {
    exists|i: int| 0 <= i < m.len() && (#[trigger] m[i]).0 == k
}

pub proof fn lemma_assoc_set_keys<V>(m: Seq<(Seq<char>, V)>, k: Seq<char>, v: V, x: Seq<char>)
    ensures
        spec_has_key(spec_assoc_set(m, k, v), x) <==> (spec_has_key(m, x) || x == k),
    decreases m,
{
    let out = spec_assoc_set(m, k, v);
    if m.len() == 0 {
        assert(out[0].0 == k);
        if spec_has_key(out, x) {
            let i = choose|i: int| 0 <= i < out.len() && (#[trigger] out[i]).0 == x;
            assert(i == 0);
        }
    } else if m[0].0 == k {
        assert(out =~= seq![(k, v)] + m.drop_first());
        if spec_has_key(out, x) {
            let i = choose|i: int| 0 <= i < out.len() && (#[trigger] out[i]).0 == x;
            if i > 0 {
                assert(m[i] == m.drop_first()[i - 1]);
                assert(out[i] == m.drop_first()[i - 1]);
                assert(m[i].0 == x);
            }
        }
        if spec_has_key(m, x) {
            let i = choose|i: int| 0 <= i < m.len() && (#[trigger] m[i]).0 == x;
            if i == 0 {
                assert(out[0].0 == k);
            } else {
                assert(out[i] == m.drop_first()[i - 1]);
                assert(out[i].0 == x);
            }
        }
        if x == k {
            assert(out[0].0 == x);
        }
    } else {
        lemma_assoc_set_keys(m.drop_first(), k, v, x);
        assert(out =~= seq![m[0]] + spec_assoc_set(m.drop_first(), k, v));
        let rest = spec_assoc_set(m.drop_first(), k, v);
        if spec_has_key(out, x) {
            let i = choose|i: int| 0 <= i < out.len() && (#[trigger] out[i]).0 == x;
            if i == 0 {
                assert(m[0].0 == x);
            } else {
                assert(out[i] == rest[i - 1]);
                assert(spec_has_key(rest, x));
            }
        }
        if spec_has_key(m, x) {
            let i = choose|i: int| 0 <= i < m.len() && (#[trigger] m[i]).0 == x;
            if i == 0 {
                assert(out[0].0 == x);
            } else {
                assert(m.drop_first()[i - 1] == m[i]);
                assert(spec_has_key(m.drop_first(), x));
                let j = choose|j: int| 0 <= j < rest.len() && (#[trigger] rest[j]).0 == x;
                assert(out[j + 1] == rest[j]);
            }
        }
        if x == k {
            let j = choose|j: int| 0 <= j < rest.len() && (#[trigger] rest[j]).0 == x;
            assert(out[j + 1] == rest[j]);
        }
    }
}

/// Inserting preserves key uniqueness.
pub proof fn lemma_assoc_set_unique<V>(m: Seq<(Seq<char>, V)>, k: Seq<char>, v: V)
    requires
        spec_unique_keys(m),
    ensures
        spec_unique_keys(spec_assoc_set(m, k, v)),
    decreases m,
{
    let out = spec_assoc_set(m, k, v);
    if m.len() == 0 {
    } else if m[0].0 == k {
        assert(out =~= seq![(k, v)] + m.drop_first());
        assert forall|i: int, j: int|
            0 <= i < j < out.len() implies (#[trigger] out[i]).0 != (#[trigger] out[j]).0 by {
            if i == 0 {
                assert(out[j] == m.drop_first()[j - 1]);
                assert(m[j] == m.drop_first()[j - 1]);
                assert(m[0].0 != m[j].0);
            } else {
                assert(out[i] == m.drop_first()[i - 1]);
                assert(out[j] == m.drop_first()[j - 1]);
                assert(m[i] == m.drop_first()[i - 1]);
                assert(m[j] == m.drop_first()[j - 1]);
            }
        }
    } else {
        assert forall|i: int, j: int|
            0 <= i < j < m.drop_first().len() implies (#[trigger] m.drop_first()[i]).0 != (
        #[trigger] m.drop_first()[j]).0 by {
            assert(m.drop_first()[i] == m[i + 1]);
            assert(m.drop_first()[j] == m[j + 1]);
        }
        lemma_assoc_set_unique(m.drop_first(), k, v);
        let rest = spec_assoc_set(m.drop_first(), k, v);
        assert(out =~= seq![m[0]] + rest);
        assert forall|i: int, j: int|
            0 <= i < j < out.len() implies (#[trigger] out[i]).0 != (#[trigger] out[j]).0 by {
            if i == 0 {
                assert(out[j] == rest[j - 1]);
                if out[j].0 == m[0].0 {
                    lemma_assoc_set_keys(m.drop_first(), k, v, m[0].0);
                    assert(spec_has_key(rest, m[0].0));
                    if spec_has_key(m.drop_first(), m[0].0) {
                        let w = choose|w: int|
                            0 <= w < m.drop_first().len() && (#[trigger] m.drop_first()[w]).0
                                == m[0].0;
                        assert(m[w + 1] == m.drop_first()[w]);
                    }
                }
            } else {
                assert(out[i] == rest[i - 1]);
                assert(out[j] == rest[j - 1]);
            }
        }
    }
}

/// Removing preserves key uniqueness.
pub proof fn lemma_assoc_remove_unique<V>(m: Seq<(Seq<char>, V)>, k: Seq<char>)
    requires
        spec_unique_keys(m),
    ensures
        spec_unique_keys(spec_assoc_remove(m, k)),
    decreases m,
{
    let out = spec_assoc_remove(m, k);
    if m.len() == 0 {
    } else if m[0].0 == k {
        assert(out =~= m.drop_first());
        assert forall|i: int, j: int|
            0 <= i < j < out.len() implies (#[trigger] out[i]).0 != (#[trigger] out[j]).0 by {
            assert(out[i] == m[i + 1]);
            assert(out[j] == m[j + 1]);
        }
    } else {
        assert forall|i: int, j: int|
            0 <= i < j < m.drop_first().len() implies (#[trigger] m.drop_first()[i]).0 != (
        #[trigger] m.drop_first()[j]).0 by {
            assert(m.drop_first()[i] == m[i + 1]);
            assert(m.drop_first()[j] == m[j + 1]);
        }
        lemma_assoc_remove_unique(m.drop_first(), k);
        let rest = spec_assoc_remove(m.drop_first(), k);
        assert(out =~= seq![m[0]] + rest);
        assert forall|i: int, j: int|
            0 <= i < j < out.len() implies (#[trigger] out[i]).0 != (#[trigger] out[j]).0 by {
            if i == 0 {
                assert(out[j] == rest[j - 1]);
                if out[j].0 == m[0].0 {
                    lemma_assoc_remove_has_key(m.drop_first(), k, m[0].0);
                    let w = choose|w: int|
                        0 <= w < m.drop_first().len() && (#[trigger] m.drop_first()[w]).0
                            == m[0].0;
                    assert(m[w + 1] == m.drop_first()[w]);
                }
            } else {
                assert(out[i] == rest[i - 1]);
                assert(out[j] == rest[j - 1]);
            }
        }
    }
}

proof fn lemma_assoc_remove_has_key<V>(m: Seq<(Seq<char>, V)>, k: Seq<char>, x: Seq<char>)
    requires
        spec_has_key(spec_assoc_remove(m, k), x),
    ensures
        spec_has_key(m, x),
    decreases m,
{
    let out = spec_assoc_remove(m, k);
    if m.len() == 0 {
    } else if m[0].0 == k {
        assert(out =~= m.drop_first());
        let i = choose|i: int| 0 <= i < out.len() && (#[trigger] out[i]).0 == x;
        assert(m[i + 1] == m.drop_first()[i]);
    } else {
        let rest = spec_assoc_remove(m.drop_first(), k);
        assert(out =~= seq![m[0]] + rest);
        let i = choose|i: int| 0 <= i < out.len() && (#[trigger] out[i]).0 == x;
        if i == 0 {
            assert(m[0].0 == x);
        } else {
            assert(out[i] == rest[i - 1]);
            lemma_assoc_remove_has_key(m.drop_first(), k, x);
            let w = choose|w: int|
                0 <= w < m.drop_first().len() && (#[trigger] m.drop_first()[w]).0 == x;
            assert(m[w + 1] == m.drop_first()[w]);
        }
    }
}

} // verus!
