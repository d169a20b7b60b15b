//! Session pool bookkeeping: which browser sessions exist, which one a
//! request reuses or creates, which ones are evicted, expired or closed, and
//! their statistics. Opening, initialising and closing the browser pages is
//! the caller's part: it performs what `get_or_create_session` plans and then
//! records the created session with `insert_session`.

use vstd::prelude::*;
use crate::text::{owned, trim, trimmed, starts_with, has_prefix, str_eq};
use crate::config::Config;
use crate::types::SessionInfo;
use dashmap::DashMap;

verus! {

/// Model of one session record.
pub struct SessionView {
    pub id: Seq<char>,
    pub url: Seq<char>,
    pub created_ms: u64,
    pub last_activity_ms: u64,
    pub message_count: u64,
}

/// Bookkeeping of one browser session (times on a monotonic millisecond clock).
#[derive(Debug)]
pub struct SessionRecord {
    pub session_id: String,
    pub notebook_url: String,
    pub created_ms: u64,
    pub last_activity_ms: u64,
    pub message_count: u64,
}

impl View for SessionRecord {
    type V = SessionView;

    open spec fn view(&self) -> SessionView {
        SessionView {
            id: self.session_id@,
            url: self.notebook_url@,
            created_ms: self.created_ms,
            last_activity_ms: self.last_activity_ms,
            message_count: self.message_count,
        }
    }
}

impl SessionRecord {
    pub fn duplicate(&self) -> (r: SessionRecord)
        ensures
            r@ == self@,
    {
        SessionRecord {
            session_id: self.session_id.clone(),
            notebook_url: self.notebook_url.clone(),
            created_ms: self.created_ms,
            last_activity_ms: self.last_activity_ms,
            message_count: self.message_count,
        }
    }

    /// Inactive for more than `timeout_seconds` whole seconds at time `now_ms`.
    pub fn is_expired(&self, timeout_seconds: u64, now_ms: u64) -> (r: bool)
        ensures
            r == (elapsed_secs(self.last_activity_ms, now_ms) > timeout_seconds),
    {
        let e: u64 = if now_ms >= self.last_activity_ms { now_ms - self.last_activity_ms } else { 0 };
        e / 1000 > timeout_seconds
    }

    /// The session information at monotonic time `now_ms` and wall-clock time
    /// `now_unix_ms`.
    pub fn get_info(&self, now_ms: u64, now_unix_ms: i64) -> (r: SessionInfo)
        requires
            0 <= now_unix_ms,
            elapsed_ms(self.created_ms, now_ms) <= i64::MAX,
            elapsed_secs(self.last_activity_ms, now_ms) * 1000 <= i64::MAX,
        ensures
            r.id@ == self.session_id@,
            r.notebook_url@ == self.notebook_url@,
            r.created_at == now_unix_ms - elapsed_ms(self.created_ms, now_ms),
            r.last_activity == now_unix_ms - elapsed_secs(self.last_activity_ms, now_ms) * 1000,
            r.age_seconds == elapsed_secs(self.created_ms, now_ms),
            r.inactive_seconds == elapsed_secs(self.last_activity_ms, now_ms),
            r.message_count == self.message_count,
    {
        let age_ms: u64 = if now_ms >= self.created_ms { now_ms - self.created_ms } else { 0 };
        let idle_ms: u64 = if now_ms >= self.last_activity_ms { now_ms - self.last_activity_ms } else { 0 };
        let inactive_secs = idle_ms / 1000;
        SessionInfo {
            id: self.session_id.clone(),
            created_at: now_unix_ms - (age_ms as i64),
            last_activity: now_unix_ms - ((inactive_secs * 1000) as i64),
            age_seconds: age_ms / 1000,
            inactive_seconds: inactive_secs,
            message_count: self.message_count,
            notebook_url: self.notebook_url.clone(),
        }
    }
}

/// Milliseconds from `from` to `now` (zero when the clock reads earlier).
pub open spec fn elapsed_ms(from: u64, now: u64) -> nat {
    if now >= from { (now - from) as nat } else { 0 }
}

/// Whole seconds from `from` to `now`.
pub open spec fn elapsed_secs(from: u64, now: u64) -> nat {
    elapsed_ms(from, now) / 1000
}

/// The URL a new or reused session is for: a non-blank argument, else the
/// configured default when that is non-empty.
pub open spec fn target_url(arg: Option<Seq<char>>, cfg_url: Seq<char>) -> Option<Seq<char>> {
    match arg {
        Some(u) if trimmed(u).len() > 0 => Some(u),
        _ => if cfg_url.len() > 0 { Some(cfg_url) } else { None },
    }
}

/// Lowercase hexadecimal digit.
pub open spec fn nibble_char(n: nat) -> char {
    if n == 0 { '0' } else if n == 1 { '1' } else if n == 2 { '2' } else if n == 3 { '3' }
    else if n == 4 { '4' } else if n == 5 { '5' } else if n == 6 { '6' } else if n == 7 { '7' }
    else if n == 8 { '8' } else if n == 9 { '9' } else if n == 10 { 'a' } else if n == 11 { 'b' }
    else if n == 12 { 'c' } else if n == 13 { 'd' } else if n == 14 { 'e' } else { 'f' }
}

/// Lowercase hexadecimal rendering of bytes, two digits per byte.
pub open spec fn hex_lower(bs: Seq<u8>) -> Seq<char>
    decreases bs.len(),
{
    if bs.len() == 0 {
        Seq::empty()
    } else {
        seq![nibble_char(bs[0] as nat / 16), nibble_char(bs[0] as nat % 16)] + hex_lower(bs.drop_first())
    }
}

/// Calls `hex::encode`, which renders each byte as two lowercase hex digits.
#[verifier::external_body]
fn hex_encode(bs: &[u8]) -> (r: String)
    ensures
        r@ == hex_lower(bs@),
{
    hex::encode(bs)
}

/// Calls `rand::thread_rng().gen::<[u8; 4]>()`. The bytes are random; nothing is stated of them.
#[verifier::external_body]
fn random_id_bytes() -> (r: [u8; 4]) {
    rand::Rng::gen(&mut rand::thread_rng())
}

/// A fresh random session id: eight lowercase hex digits.
pub fn new_session_id() -> (r: String)
    ensures
        exists|bs: Seq<u8>| bs.len() == 4 && r@ == hex_lower(bs),
{
    let bytes = random_id_bytes();
    let r = hex_encode(bytes.as_slice());
    r
}

/// What the caller does for a `get_or_create_session` request.
#[derive(Debug)]
pub enum SessionPlan {
    /// Use the existing session with this id (its activity time was updated).
    Reuse { session_id: String },
    /// Close the listed sessions (already removed from the pool), then open and
    /// initialise a new session and record it with `insert_session`.
    Create { session_id: String, notebook_url: String, close: Vec<String> },
}

pub open spec fn url_required_message() -> Seq<char> {
    "Notebook URL is required. Provide it via the 'notebook_url' parameter or set the NOTEBOOK_URL environment variable."@
}

pub open spec fn url_absolute_message() -> Seq<char> {
    "Notebook URL must be an absolute URL (starting with http)"@
}

// ---------------------------------------------------------------------------
// The session table
// ---------------------------------------------------------------------------

#[verifier::external_type_specification]
#[verifier::external_body]
#[verifier::reject_recursive_types(K)]
#[verifier::reject_recursive_types(V)]
#[verifier::reject_recursive_types(S)]
pub struct ExDashMap<K, V, S>(DashMap<K, V, S>);

/// The records a session table holds, by key.
pub uninterp spec fn table_view(t: DashMap<String, SessionRecord>) -> Map<Seq<char>, SessionView>;

/// `s` lists the entries of `m` in some order, each key once.
pub open spec fn lists(s: Seq<(Seq<char>, SessionView)>, m: Map<Seq<char>, SessionView>) -> bool {
    &&& s.len() == m.len()
    &&& forall|i: int| 0 <= i < s.len() ==> m.contains_key(#[trigger] s[i].0) && m[s[i].0] == s[i].1
    &&& forall|i: int, j: int| 0 <= i < s.len() && 0 <= j < s.len() && i != j ==> #[trigger] s[i].0 != #[trigger] s[j].0
    &&& forall|k: Seq<char>| m.contains_key(k) ==> exists|i: int| 0 <= i < s.len() && #[trigger] s[i].0 == k
}

pub open spec fn entry_views(v: Seq<(String, SessionRecord)>) -> Seq<(Seq<char>, SessionView)> {
    v.map_values(|e: (String, SessionRecord)| (e.0@, e.1@))
}

/// The table of no session.
pub open spec fn no_sessions() -> Map<Seq<char>, SessionView> {
    Map::empty()
}

/// Calls `DashMap::new`: a table with no entry.
#[verifier::external_body]
fn table_new() -> (r: DashMap<String, SessionRecord>)
    ensures
        table_view(r) == no_sessions(),
{
    DashMap::new()
}

/// Calls `DashMap::len`: the number of entries.
#[verifier::external_body]
fn table_len(t: &DashMap<String, SessionRecord>) -> (r: usize)
    ensures
        r == table_view(*t).len(),
{
    t.len()
}

/// Calls `DashMap::get` and copies the record found under `key`.
#[verifier::external_body]
fn table_get(t: &DashMap<String, SessionRecord>, key: &str) -> (r: Option<SessionRecord>)
    ensures
        match r {
            Some(rec) => table_view(*t).contains_key(key@) && rec@ == table_view(*t)[key@],
            None => !table_view(*t).contains_key(key@),
        },
{
    t.get(key).map(|e| e.value().duplicate())
}

/// Calls `DashMap::insert`: `key` now holds `rec`, replacing what it held.
#[verifier::external_body]
fn table_insert(t: &mut DashMap<String, SessionRecord>, key: String, rec: SessionRecord)
    ensures
        table_view(*final(t)) == table_view(*old(t)).insert(key@, rec@),
{
    let _ = t.insert(key, rec);
}

/// Calls `DashMap::remove`: `key` holds nothing afterwards; the record it held.
#[verifier::external_body]
fn table_remove(t: &mut DashMap<String, SessionRecord>, key: &str) -> (r: Option<SessionRecord>)
    ensures
        table_view(*final(t)) == table_view(*old(t)).remove(key@),
        match r {
            Some(rec) => table_view(*old(t)).contains_key(key@) && rec@ == table_view(*old(t))[key@],
            None => !table_view(*old(t)).contains_key(key@),
        },
{
    t.remove(key).map(|(_, v)| v)
}

/// Calls `DashMap::iter` and copies every entry. The order is the table's own,
/// which its documentation leaves open; each entry comes once.
#[verifier::external_body]
fn table_entries(t: &DashMap<String, SessionRecord>) -> (r: Vec<(String, SessionRecord)>)
    ensures
        lists(entry_views(r@), table_view(*t)),
{
    t.iter().map(|e| (e.key().clone(), e.value().duplicate())).collect()
}

/// Every record is filed under its own id, and the table is finite.
pub open spec fn keyed_by_id(m: Map<Seq<char>, SessionView>) -> bool {
    &&& m.dom().finite()
    &&& forall|k: Seq<char>| m.contains_key(k) ==> (#[trigger] m[k]).id == k
}

/// A record is expired when inactive for more than the timeout.
pub open spec fn expired_at(v: SessionView, timeout_seconds: u64, now_ms: u64) -> bool {
    elapsed_secs(v.last_activity_ms, now_ms) > timeout_seconds
}

pub open spec fn views_of(s: Seq<(Seq<char>, SessionView)>) -> Seq<SessionView> {
    s.map_values(|e: (Seq<char>, SessionView)| e.1)
}

pub open spec fn total_messages(s: Seq<SessionView>) -> nat
    decreases s.len(),
{
    if s.len() == 0 {
        0
    } else {
        total_messages(s.drop_last()) + s.last().message_count as nat
    }
}

pub open spec fn ids_of(v: Seq<String>) -> Seq<Seq<char>> {
    v.map_values(|x: String| x@)
}

/// The keys of the expired entries of a listing, in its order.
pub open spec fn expired_keys(s: Seq<(Seq<char>, SessionView)>, timeout_seconds: u64, now_ms: u64) -> Seq<Seq<char>>
    decreases s.len(),
{
    if s.len() == 0 {
        Seq::empty()
    } else {
        let rest = expired_keys(s.drop_last(), timeout_seconds, now_ms);
        if expired_at(s.last().1, timeout_seconds, now_ms) {
            rest.push(s.last().0)
        } else {
            rest
        }
    }
}

/// `k` is the key of an expired entry among the first `n` of a listing.
pub open spec fn expired_entry_key(s: Seq<(Seq<char>, SessionView)>, n: int, k: Seq<char>, timeout_seconds: u64, now_ms: u64) -> bool {
    exists|j: int| 0 <= j < n && #[trigger] s[j].0 == k && expired_at(s[j].1, timeout_seconds, now_ms)
}

/// The expired keys of the first `n` entries of a listing of `m`: keys of
/// expired entries, each once, and, for the whole listing, all of them.
proof fn lemma_expired_keys_prefix(s: Seq<(Seq<char>, SessionView)>, m: Map<Seq<char>, SessionView>, timeout_seconds: u64, now_ms: u64, n: int)
    requires
        lists(s, m),
        0 <= n <= s.len(),
    ensures
        ({
            let e = expired_keys(s.subrange(0, n), timeout_seconds, now_ms);
            &&& forall|w: int| 0 <= w < e.len() ==> expired_entry_key(s, n, #[trigger] e[w], timeout_seconds, now_ms)
            &&& forall|w: int| 0 <= w < e.len() ==> m.contains_key(#[trigger] e[w]) && expired_at(m[e[w]], timeout_seconds, now_ms)
            &&& forall|w: int, x: int| 0 <= w < e.len() && 0 <= x < e.len() && w != x ==> #[trigger] e[w] != #[trigger] e[x]
            &&& forall|j: int| 0 <= j < n && expired_at(#[trigger] s[j].1, timeout_seconds, now_ms) ==> exists|w: int| 0 <= w < e.len() && #[trigger] e[w] == s[j].0
            &&& (n == s.len() ==> forall|k: Seq<char>| m.contains_key(k) && expired_at(m[k], timeout_seconds, now_ms) ==>
                exists|w: int| 0 <= w < e.len() && #[trigger] e[w] == k)
        }),
    decreases n,
{
    let e = expired_keys(s.subrange(0, n), timeout_seconds, now_ms);
    if n > 0 {
        lemma_expired_keys_prefix(s, m, timeout_seconds, now_ms, n - 1);
        let p = expired_keys(s.subrange(0, n - 1), timeout_seconds, now_ms);
        assert(s.subrange(0, n).drop_last() =~= s.subrange(0, n - 1));
        assert(s.subrange(0, n).last() == s[n - 1]);
        if expired_at(s[n - 1].1, timeout_seconds, now_ms) {
            assert(e == p.push(s[n - 1].0));
            assert forall|w: int| 0 <= w < e.len() implies expired_entry_key(s, n, #[trigger] e[w], timeout_seconds, now_ms) by {
                if w < p.len() {
                    assert(e[w] == p[w]);
                    assert(expired_entry_key(s, n - 1, p[w], timeout_seconds, now_ms));
                    let j = choose|j: int| 0 <= j < n - 1 && #[trigger] s[j].0 == p[w] && expired_at(s[j].1, timeout_seconds, now_ms);
                    assert(s[j].0 == e[w]);
                } else {
                    assert(s[n - 1].0 == e[w]);
                }
            }
            assert forall|w: int, x: int| 0 <= w < e.len() && 0 <= x < e.len() && w != x implies #[trigger] e[w] != #[trigger] e[x] by {
                if w < p.len() && x < p.len() {
                    assert(e[w] == p[w] && e[x] == p[x]);
                } else if w < p.len() {
                    assert(e[w] == p[w]);
                    assert(expired_entry_key(s, n - 1, p[w], timeout_seconds, now_ms));
                    let j = choose|j: int| 0 <= j < n - 1 && #[trigger] s[j].0 == p[w] && expired_at(s[j].1, timeout_seconds, now_ms);
                    assert(s[j].0 != s[n - 1].0);
                } else if x < p.len() {
                    assert(e[x] == p[x]);
                    assert(expired_entry_key(s, n - 1, p[x], timeout_seconds, now_ms));
                    let j = choose|j: int| 0 <= j < n - 1 && #[trigger] s[j].0 == p[x] && expired_at(s[j].1, timeout_seconds, now_ms);
                    assert(s[j].0 != s[n - 1].0);
                }
            }
            assert forall|j: int| 0 <= j < n && expired_at(#[trigger] s[j].1, timeout_seconds, now_ms) implies exists|w: int| 0 <= w < e.len() && #[trigger] e[w] == s[j].0 by {
                if j < n - 1 {
                    let w = choose|w: int| 0 <= w < p.len() && #[trigger] p[w] == s[j].0;
                    assert(e[w] == p[w]);
                } else {
                    assert(e[p.len() as int] == s[j].0);
                }
            }
        } else {
            assert(e == p);
            assert forall|w: int| 0 <= w < e.len() implies expired_entry_key(s, n, #[trigger] e[w], timeout_seconds, now_ms) by {
                assert(expired_entry_key(s, n - 1, p[w], timeout_seconds, now_ms));
                let j = choose|j: int| 0 <= j < n - 1 && #[trigger] s[j].0 == p[w] && expired_at(s[j].1, timeout_seconds, now_ms);
                assert(s[j].0 == e[w]);
            }
            assert forall|j: int| 0 <= j < n && expired_at(#[trigger] s[j].1, timeout_seconds, now_ms) implies exists|w: int| 0 <= w < e.len() && #[trigger] e[w] == s[j].0 by {
                if j < n - 1 {
                    let w = choose|w: int| 0 <= w < p.len() && #[trigger] p[w] == s[j].0;
                    assert(e[w] == s[j].0);
                }
            }
        }
        assert forall|w: int| 0 <= w < e.len() implies m.contains_key(#[trigger] e[w]) && expired_at(m[e[w]], timeout_seconds, now_ms) by {
            assert(expired_entry_key(s, n, e[w], timeout_seconds, now_ms));
            let j = choose|j: int| 0 <= j < n && #[trigger] s[j].0 == e[w] && expired_at(s[j].1, timeout_seconds, now_ms);
            assert(m.contains_key(s[j].0) && m[s[j].0] == s[j].1);
        }
        if n == s.len() {
            assert forall|k: Seq<char>| m.contains_key(k) && expired_at(m[k], timeout_seconds, now_ms) implies
                exists|w: int| 0 <= w < e.len() && #[trigger] e[w] == k by {
                let j = choose|j: int| 0 <= j < s.len() && #[trigger] s[j].0 == k;
                assert(m[s[j].0] == s[j].1);
            }
        }
    } else {
        assert(e == Seq::<Seq<char>>::empty());
        if n == s.len() {
            assert forall|k: Seq<char>| m.contains_key(k) && expired_at(m[k], timeout_seconds, now_ms) implies
                exists|w: int| 0 <= w < e.len() && #[trigger] e[w] == k by {
                let j = choose|j: int| 0 <= j < s.len() && #[trigger] s[j].0 == k;
            }
        }
    }
}

/// Every session's ages fit the signed millisecond fields of its information.
pub open spec fn infos_fit(m: Map<Seq<char>, SessionView>, now_ms: u64) -> bool {
    forall|k: Seq<char>| m.contains_key(k) ==> elapsed_ms(#[trigger] m[k].created_ms, now_ms) <= i64::MAX
        && elapsed_secs(m[k].last_activity_ms, now_ms) * 1000 <= i64::MAX
}

/// What a `Create` plan did to the pool: the session `sid` (when it was there,
/// on another URL) and, when the pool is full, the oldest session are removed
/// and listed in `close`; nothing else changes.
pub open spec fn create_outcome(
    before: Map<Seq<char>, SessionView>,
    after: Map<Seq<char>, SessionView>,
    sid: Seq<char>,
    url: Seq<char>,
    close: Seq<Seq<char>>,
    max_sessions: nat,
) -> bool {
    let had = before.contains_key(sid);
    let rest = before.len() - (if had { 1int } else { 0 });
    &&& (had ==> before[sid].url != url && close.len() >= 1 && close[0] == sid)
    &&& !after.contains_key(sid)
    &&& after.len() + close.len() == before.len()
    &&& forall|k: Seq<char>| #[trigger] after.contains_key(k) ==> before.contains_key(k) && after[k] == before[k]
    &&& forall|i: int| 0 <= i < close.len() ==> before.contains_key(#[trigger] close[i]) && !after.contains_key(close[i])
    &&& (rest >= max_sessions && rest > 0) ==> close.len() == (if had { 2int } else { 1 })
        && forall|k: Seq<char>| #[trigger] after.contains_key(k) ==> before[close.last()].created_ms <= after[k].created_ms
    &&& rest < max_sessions ==> close.len() == (if had { 1int } else { 0 })
}

/// The pool of browser sessions, by id.
pub struct SessionManager {
    sessions: DashMap<String, SessionRecord>,
}

impl View for SessionManager {
    type V = Map<Seq<char>, SessionView>;

    closed spec fn view(&self) -> Map<Seq<char>, SessionView> {
        table_view(self.sessions)
    }
}

impl SessionManager {
    /// The pool is well formed: each record is filed under its id.
    pub open spec fn wf(&self) -> bool {
        keyed_by_id(self@)
    }

    /// An empty pool.
    pub fn new() -> (r: SessionManager)
        ensures
            r@ == no_sessions(),
            r.wf(),
    {
        SessionManager { sessions: table_new() }
    }

    /// The id of a session created no later than any other.
    fn oldest_id(&self) -> (r: String)
        requires
            self.wf(),
            self@.len() > 0,
        ensures
            self@.contains_key(r@),
            forall|k: Seq<char>| self@.contains_key(k) ==> self@[r@].created_ms <= #[trigger] self@[k].created_ms,
    {
        let es = table_entries(&self.sessions);
        let ghost s = entry_views(es@);
        let mut best: usize = 0;
        let mut i: usize = 1;
        assert(s[0] == (es@[0].0@, es@[0].1@));
        while i < es.len()
            invariant
                s == entry_views(es@),
                lists(s, self@),
                1 <= i <= es.len(),
                best < i,
                forall|j: int| 0 <= j < i ==> s[best as int].1.created_ms <= #[trigger] s[j].1.created_ms,
            decreases es.len() - i,
        {
            if es[i].1.created_ms < es[best].1.created_ms {
                best = i;
            }
            i = i + 1;
        }
        let r = es[best].0.clone();
        assert(s[best as int].0 == r@);
        assert forall|k: Seq<char>| self@.contains_key(k) implies self@[r@].created_ms <= #[trigger] self@[k].created_ms by {
            let j = choose|j: int| 0 <= j < s.len() && #[trigger] s[j].0 == k;
            assert(s[j].1 == self@[k]);
        }
        r
    }

    /// Decide how to serve a request for `session_id` (a fresh random id when
    /// absent) on `notebook_url` (else the configured URL). A session with that
    /// id on the same URL is reused; one on another URL is dropped and
    /// recreated; when the pool is full the oldest session is evicted.
    pub fn get_or_create_session(&mut self, session_id: Option<String>, notebook_url: Option<String>, cfg: &Config, now_ms: u64) -> (r: Result<SessionPlan, String>)
        requires
            old(self).wf(),
        ensures
            final(self).wf(),
            match r {
                Err(m) => {
                    &&& final(self)@ == old(self)@
                    &&& match target_url(crate::library::types::opt_str(notebook_url), cfg@.notebook_url) {
                        None => m@ == url_required_message(),
                        Some(t) => !has_prefix(t, "http"@) && m@ == url_absolute_message(),
                    }
                },
                Ok(SessionPlan::Reuse { session_id: sid }) => {
                    let t = target_url(crate::library::types::opt_str(notebook_url), cfg@.notebook_url);
                    &&& t is Some
                    &&& has_prefix(t.unwrap(), "http"@)
                    &&& (session_id.is_some() ==> sid@ == session_id.unwrap()@)
                    &&& (session_id.is_none() ==> exists|bs: Seq<u8>| bs.len() == 4 && sid@ == hex_lower(bs))
                    &&& old(self)@.contains_key(sid@)
                    &&& old(self)@[sid@].url == t.unwrap()
                    &&& final(self)@ == old(self)@.insert(sid@, SessionView { last_activity_ms: now_ms, ..old(self)@[sid@] })
                },
                Ok(SessionPlan::Create { session_id: sid, notebook_url: url, close }) => {
                    &&& target_url(crate::library::types::opt_str(notebook_url), cfg@.notebook_url) == Some(url@)
                    &&& has_prefix(url@, "http"@)
                    &&& (session_id.is_some() ==> sid@ == session_id.unwrap()@)
                    &&& (session_id.is_none() ==> exists|bs: Seq<u8>| bs.len() == 4 && sid@ == hex_lower(bs))
                    &&& create_outcome(old(self)@, final(self)@, sid@, url@, ids_of(close@), cfg@.max_sessions as nat)
                },
            },
    {
        let target = match notebook_url {
            Some(u) => {
                let t = trim(u.as_str());
                if !t.as_str().is_empty() {
                    u
                } else if !cfg.notebook_url.as_str().is_empty() {
                    cfg.notebook_url.clone()
                } else {
                    return Err(owned("Notebook URL is required. Provide it via the 'notebook_url' parameter or set the NOTEBOOK_URL environment variable."));
                }
            },
            None => {
                if !cfg.notebook_url.as_str().is_empty() {
                    cfg.notebook_url.clone()
                } else {
                    return Err(owned("Notebook URL is required. Provide it via the 'notebook_url' parameter or set the NOTEBOOK_URL environment variable."));
                }
            },
        };
        if !starts_with(target.as_str(), "http") {
            return Err(owned("Notebook URL must be an absolute URL (starting with http)"));
        }
        let sid = match session_id {
            Some(s) => s,
            None => new_session_id(),
        };
        let ghost before = self@;
        let mut close: Vec<String> = Vec::new();
        match table_get(&self.sessions, sid.as_str()) {
            Some(rec) => {
                if str_eq(rec.notebook_url.as_str(), target.as_str()) {
                    let mut upd = rec;
                    upd.last_activity_ms = now_ms;
                    table_insert(&mut self.sessions, sid.clone(), upd);
                    assert(self@ =~= before.insert(sid@, SessionView { last_activity_ms: now_ms, ..before[sid@] }));
                    return Ok(SessionPlan::Reuse { session_id: sid });
                }
                let _ = table_remove(&mut self.sessions, sid.as_str());
                close.push(sid.clone());
            },
            None => {},
        }
        let ghost mid = self@;
        assert(mid == before.remove(sid@));
        let n = table_len(&self.sessions);
        if n >= cfg.max_sessions as usize && n > 0 {
            let o = self.oldest_id();
            let ghost pre = self@;
            let _ = table_remove(&mut self.sessions, o.as_str());
            close.push(o);
            assert(close@.last()@ == o@);
        }
        Ok(SessionPlan::Create { session_id: sid, notebook_url: target, close })
    }

    /// Record a session that was created and initialised; a session of the same
    /// id is replaced.
    pub fn insert_session(&mut self, session_id: String, notebook_url: String, now_ms: u64)
        requires
            old(self).wf(),
        ensures
            final(self).wf(),
            final(self)@ == old(self)@.insert(session_id@, SessionView {
                id: session_id@,
                url: notebook_url@,
                created_ms: now_ms,
                last_activity_ms: now_ms,
                message_count: 0,
            }),
    {
        let key = session_id.clone();
        table_insert(&mut self.sessions, key, SessionRecord {
            session_id,
            notebook_url,
            created_ms: now_ms,
            last_activity_ms: now_ms,
            message_count: 0,
        });
    }

    /// The record of a session.
    pub fn get_session(&self, session_id: &str) -> (r: Option<SessionRecord>)
        ensures
            match r {
                Some(rec) => self@.contains_key(session_id@) && rec@ == self@[session_id@],
                None => !self@.contains_key(session_id@),
            },
    {
        table_get(&self.sessions, session_id)
    }

    /// Remove a session. Returns `true` if it was found.
    pub fn close_session(&mut self, session_id: &str) -> (r: bool)
        requires
            old(self).wf(),
        ensures
            final(self).wf(),
            r == old(self)@.contains_key(session_id@),
            final(self)@ == old(self)@.remove(session_id@),
    {
        table_remove(&mut self.sessions, session_id).is_some()
    }

    /// Remove every session; the ids of the removed sessions.
    pub fn close_all(&mut self) -> (r: Vec<String>)
        requires
            old(self).wf(),
        ensures
            final(self).wf(),
            final(self)@ == no_sessions(),
            r@.len() == old(self)@.len(),
            forall|i: int| 0 <= i < r@.len() ==> old(self)@.contains_key(#[trigger] r@[i]@),
            forall|i: int, j: int| 0 <= i < r@.len() && 0 <= j < r@.len() && i != j ==> #[trigger] r@[i]@ != #[trigger] r@[j]@,
            forall|k: Seq<char>| old(self)@.contains_key(k) ==> exists|i: int| 0 <= i < r@.len() && #[trigger] r@[i]@ == k,
    {
        let es = table_entries(&self.sessions);
        let ghost s = entry_views(es@);
        let mut ids: Vec<String> = Vec::new();
        let mut i: usize = 0;
        while i < es.len()
            invariant
                s == entry_views(es@),
                i <= es.len(),
                ids@.len() == i,
                forall|j: int| 0 <= j < i ==> #[trigger] ids@[j]@ == s[j].0,
            decreases es.len() - i,
        {
            ids.push(es[i].0.clone());
            i = i + 1;
        }
        self.sessions = table_new();
        assert forall|k: Seq<char>| old(self)@.contains_key(k) implies exists|i: int| 0 <= i < ids@.len() && #[trigger] ids@[i]@ == k by {
            let j = choose|j: int| 0 <= j < s.len() && #[trigger] s[j].0 == k;
            assert(ids@[j]@ == k);
        }
        assert forall|i: int, j: int| 0 <= i < ids@.len() && 0 <= j < ids@.len() && i != j implies #[trigger] ids@[i]@ != #[trigger] ids@[j]@ by {
            assert(s[i].0 != s[j].0);
        }
        assert forall|i: int| 0 <= i < ids@.len() implies old(self)@.contains_key(#[trigger] ids@[i]@) by {
            assert(old(self)@.contains_key(s[i].0));
        }
        ids
    }

    /// Remove the sessions inactive for more than `timeout_seconds` at `now_ms`;
    /// the ids of the removed ones.
    pub fn cleanup_expired(&mut self, timeout_seconds: u64, now_ms: u64) -> (r: Vec<String>)
        requires
            old(self).wf(),
        ensures
            final(self).wf(),
            forall|k: Seq<char>| #[trigger] final(self)@.contains_key(k) <==>
                (old(self)@.contains_key(k) && !expired_at(old(self)@[k], timeout_seconds, now_ms)),
            forall|k: Seq<char>| #[trigger] final(self)@.contains_key(k) ==> final(self)@[k] == old(self)@[k],
            forall|i: int| 0 <= i < r@.len() ==> old(self)@.contains_key(#[trigger] r@[i]@)
                && expired_at(old(self)@[r@[i]@], timeout_seconds, now_ms),
            forall|i: int, j: int| 0 <= i < r@.len() && 0 <= j < r@.len() && i != j ==> #[trigger] r@[i]@ != #[trigger] r@[j]@,
            forall|k: Seq<char>| old(self)@.contains_key(k) && expired_at(old(self)@[k], timeout_seconds, now_ms)
                ==> exists|i: int| 0 <= i < r@.len() && #[trigger] r@[i]@ == k,
    {
        let ghost before = self@;
        let es = table_entries(&self.sessions);
        let ghost s = entry_views(es@);
        let mut expired: Vec<String> = Vec::new();
        let mut i: usize = 0;
        while i < es.len()
            invariant
                s == entry_views(es@),
                i <= es.len(),
                ids_of(expired@) == expired_keys(s.subrange(0, i as int), timeout_seconds, now_ms),
            decreases es.len() - i,
        {
            let ghost nxt = s.subrange(0, i + 1);
            assert(nxt.drop_last() =~= s.subrange(0, i as int));
            assert(nxt.last() == (es@[i as int].0@, es@[i as int].1@));
            if es[i].1.is_expired(timeout_seconds, now_ms) {
                expired.push(es[i].0.clone());
                assert(ids_of(expired@) =~= expired_keys(s.subrange(0, i as int), timeout_seconds, now_ms).push(es@[i as int].0@));
            }
            i = i + 1;
        }
        assert(s.subrange(0, es.len() as int) =~= s);
        let ghost ek = ids_of(expired@);
        proof {
            lemma_expired_keys_prefix(s, before, timeout_seconds, now_ms, es.len() as int);
        }
        let mut t: usize = 0;
        while t < expired.len()
            invariant
                ek == ids_of(expired@),
                t <= expired.len(),
                keyed_by_id(before),
                forall|k: Seq<char>| #[trigger] self@.contains_key(k) <==> (before.contains_key(k) && !ek.subrange(0, t as int).contains(k)),
                forall|k: Seq<char>| #[trigger] self@.contains_key(k) ==> self@[k] == before[k],
                self@.dom().finite(),
            decreases expired.len() - t,
        {
            let ghost pre = self@;
            let _ = table_remove(&mut self.sessions, expired[t].as_str());
            proof {
                assert(ek[t as int] == expired@[t as int]@);
                assert forall|k: Seq<char>| #[trigger] self@.contains_key(k) <==> (before.contains_key(k) && !ek.subrange(0, t + 1).contains(k)) by {
                    if ek.subrange(0, t + 1).contains(k) && !ek.subrange(0, t as int).contains(k) {
                        let w = choose|w: int| 0 <= w < t + 1 && #[trigger] ek.subrange(0, t + 1)[w] == k;
                        assert(w == t);
                    }
                    if ek.subrange(0, t as int).contains(k) {
                        let w = choose|w: int| 0 <= w < t && #[trigger] ek.subrange(0, t as int)[w] == k;
                        assert(ek.subrange(0, t + 1)[w] == k);
                    }
                    if k == ek[t as int] {
                        assert(ek.subrange(0, t + 1)[t as int] == k);
                    }
                }
            }
            t = t + 1;
        }
        proof {
            assert(ek.subrange(0, expired.len() as int) =~= ek);
            assert forall|k: Seq<char>| #[trigger] self@.contains_key(k) <==>
                (before.contains_key(k) && !expired_at(before[k], timeout_seconds, now_ms)) by {
                if before.contains_key(k) && expired_at(before[k], timeout_seconds, now_ms) {
                    let w = choose|w: int| 0 <= w < ek.len() && #[trigger] ek[w] == k;
                    assert(ek.contains(k));
                }
                if before.contains_key(k) && ek.contains(k) {
                    let w = choose|w: int| 0 <= w < ek.len() && #[trigger] ek[w] == k;
                    assert(expired_at(before[ek[w]], timeout_seconds, now_ms));
                }
            }
            assert forall|i: int| 0 <= i < expired@.len() implies before.contains_key(#[trigger] expired@[i]@)
                && expired_at(before[expired@[i]@], timeout_seconds, now_ms) by {
                assert(ek[i] == expired@[i]@);
            }
            assert forall|i: int, j: int| 0 <= i < expired@.len() && 0 <= j < expired@.len() && i != j implies #[trigger] expired@[i]@ != #[trigger] expired@[j]@ by {
                assert(ek[i] == expired@[i]@ && ek[j] == expired@[j]@);
            }
            assert forall|k: Seq<char>| before.contains_key(k) && expired_at(before[k], timeout_seconds, now_ms)
                implies exists|i: int| 0 <= i < expired@.len() && #[trigger] expired@[i]@ == k by {
                let w = choose|w: int| 0 <= w < ek.len() && #[trigger] ek[w] == k;
                assert(expired@[w]@ == k);
            }
        }
        expired
    }

    /// The information of every session, each once.
    pub fn list_sessions(&self, now_ms: u64, now_unix_ms: i64) -> (r: Vec<SessionInfo>)
        requires
            self.wf(),
            0 <= now_unix_ms,
            infos_fit(self@, now_ms),
        ensures
            r@.len() == self@.len(),
            forall|i: int| 0 <= i < r@.len() ==> self@.contains_key((#[trigger] r@[i]).id@)
                && r@[i].notebook_url@ == self@[r@[i].id@].url
                && r@[i].created_at == now_unix_ms - elapsed_ms(self@[r@[i].id@].created_ms, now_ms)
                && r@[i].last_activity == now_unix_ms - elapsed_secs(self@[r@[i].id@].last_activity_ms, now_ms) * 1000
                && r@[i].age_seconds == elapsed_secs(self@[r@[i].id@].created_ms, now_ms)
                && r@[i].inactive_seconds == elapsed_secs(self@[r@[i].id@].last_activity_ms, now_ms)
                && r@[i].message_count == self@[r@[i].id@].message_count,
            forall|i: int, j: int| 0 <= i < r@.len() && 0 <= j < r@.len() && i != j ==> (#[trigger] r@[i]).id@ != (#[trigger] r@[j]).id@,
            forall|k: Seq<char>| self@.contains_key(k) ==> exists|i: int| 0 <= i < r@.len() && (#[trigger] r@[i]).id@ == k,
    {
        let es = table_entries(&self.sessions);
        let ghost s = entry_views(es@);
        let mut out: Vec<SessionInfo> = Vec::new();
        let mut i: usize = 0;
        while i < es.len()
            invariant
                s == entry_views(es@),
                lists(s, self@),
                keyed_by_id(self@),
                0 <= now_unix_ms,
                infos_fit(self@, now_ms),
                i <= es.len(),
                out@.len() == i,
                forall|j: int| 0 <= j < i ==> (#[trigger] out@[j]).id@ == s[j].0
                    && out@[j].notebook_url@ == s[j].1.url
                    && out@[j].created_at == now_unix_ms - elapsed_ms(s[j].1.created_ms, now_ms)
                    && out@[j].last_activity == now_unix_ms - elapsed_secs(s[j].1.last_activity_ms, now_ms) * 1000
                    && out@[j].age_seconds == elapsed_secs(s[j].1.created_ms, now_ms)
                    && out@[j].inactive_seconds == elapsed_secs(s[j].1.last_activity_ms, now_ms)
                    && out@[j].message_count == s[j].1.message_count,
            decreases es.len() - i,
        {
            assert(s[i as int] == (es@[i as int].0@, es@[i as int].1@));
            assert(self@.contains_key(s[i as int].0));
            assert(es@[i as int].1@.id == s[i as int].0);
            assert(self@[s[i as int].0] == es@[i as int].1@);
            assert(elapsed_ms(self@[s[i as int].0].created_ms, now_ms) <= i64::MAX);
            out.push(es[i].1.get_info(now_ms, now_unix_ms));
            i = i + 1;
        }
        assert forall|k: Seq<char>| self@.contains_key(k) implies exists|i: int| 0 <= i < out@.len() && (#[trigger] out@[i]).id@ == k by {
            let j = choose|j: int| 0 <= j < s.len() && #[trigger] s[j].0 == k;
            assert(out@[j].id@ == k);
        }
        assert forall|i: int, j: int| 0 <= i < out@.len() && 0 <= j < out@.len() && i != j implies (#[trigger] out@[i]).id@ != (#[trigger] out@[j]).id@ by {
            assert(s[i].0 != s[j].0);
        }
        out
    }

    /// Record activity on a session at `now_ms`, counting one more message when
    /// `answered`. Returns `false` when there is no such session.
    pub fn record_activity(&mut self, session_id: &str, now_ms: u64, answered: bool) -> (r: bool)
        requires
            old(self).wf(),
        ensures
            final(self).wf(),
            r == old(self)@.contains_key(session_id@),
            !r ==> final(self)@ == old(self)@,
            r ==> final(self)@ == old(self)@.insert(session_id@, SessionView {
                last_activity_ms: now_ms,
                message_count: if answered {
                    (if old(self)@[session_id@].message_count < u64::MAX { (old(self)@[session_id@].message_count + 1) as u64 } else { u64::MAX })
                } else {
                    old(self)@[session_id@].message_count
                },
                ..old(self)@[session_id@]
            }),
    {
        match table_get(&self.sessions, session_id) {
            Some(rec) => {
                let mut upd = rec;
                let mc = upd.message_count;
                upd.last_activity_ms = now_ms;
                if answered {
                    upd.message_count = if mc < u64::MAX { mc + 1 } else { u64::MAX };
                }
                let key = upd.session_id.clone();
                table_insert(&mut self.sessions, key, upd);
                true
            },
            None => false,
        }
    }

    /// Reset a session's message count after its chat was reloaded.
    pub fn reset_messages(&mut self, session_id: &str, now_ms: u64) -> (r: bool)
        requires
            old(self).wf(),
        ensures
            final(self).wf(),
            r == old(self)@.contains_key(session_id@),
            !r ==> final(self)@ == old(self)@,
            r ==> final(self)@ == old(self)@.insert(session_id@, SessionView {
                last_activity_ms: now_ms,
                message_count: 0,
                ..old(self)@[session_id@]
            }),
    {
        match table_get(&self.sessions, session_id) {
            Some(rec) => {
                let mut upd = rec;
                upd.last_activity_ms = now_ms;
                upd.message_count = 0;
                let key = upd.session_id.clone();
                table_insert(&mut self.sessions, key, upd);
                true
            },
            None => false,
        }
    }

    /// Pool statistics: active count, limits, the oldest session's age and the
    /// total message count (summed over the sessions, each once).
    pub fn get_stats(&self, cfg: &Config, now_ms: u64) -> (r: SessionStats)
        requires
            self.wf(),
            forall|s: Seq<(Seq<char>, SessionView)>| lists(s, self@) ==> total_messages(#[trigger] views_of(s)) <= u64::MAX,
        ensures
            r.active_sessions == self@.len(),
            r.max_sessions == cfg@.max_sessions,
            r.session_timeout_seconds == cfg@.session_timeout,
            exists|s: Seq<(Seq<char>, SessionView)>| lists(s, self@) && r.total_messages == total_messages(#[trigger] views_of(s)),
            self@.len() == 0 ==> r.oldest_session_seconds == 0,
            forall|k: Seq<char>| self@.contains_key(k) ==> elapsed_secs(#[trigger] self@[k].created_ms, now_ms) <= r.oldest_session_seconds,
            self@.len() > 0 ==> exists|k: Seq<char>| self@.contains_key(k) && elapsed_secs(#[trigger] self@[k].created_ms, now_ms) == r.oldest_session_seconds,
    {
        let es = table_entries(&self.sessions);
        let ghost s = entry_views(es@);
        let ghost vs = views_of(s);
        assert(total_messages(vs) <= u64::MAX);
        let mut total: u64 = 0;
        let mut oldest: u64 = 0;
        let mut i: usize = 0;
        while i < es.len()
            invariant
                s == entry_views(es@),
                vs == views_of(s),
                lists(s, self@),
                total_messages(vs) <= u64::MAX,
                i <= es.len(),
                total as nat == total_messages(vs.subrange(0, i as int)),
                forall|j: int| 0 <= j < i ==> elapsed_secs(#[trigger] s[j].1.created_ms, now_ms) <= oldest,
                i == 0 ==> oldest == 0,
                i > 0 ==> exists|j: int| 0 <= j < i && elapsed_secs(#[trigger] s[j].1.created_ms, now_ms) == oldest,
            decreases es.len() - i,
        {
            proof {
                lemma_total_messages_prefix(vs, i + 1);
                assert(vs.subrange(0, i + 1).drop_last() =~= vs.subrange(0, i as int));
                assert(vs[i as int] == es@[i as int].1@);
            }
            assert(s[i as int].1 == es@[i as int].1@);
            total = total + es[i].1.message_count;
            let c = es[i].1.created_ms;
            let age: u64 = (if now_ms >= c { now_ms - c } else { 0 }) / 1000;
            assert(elapsed_secs(s[i as int].1.created_ms, now_ms) == age);
            if i == 0 || age > oldest {
                oldest = age;
            }
            i = i + 1;
        }
        proof {
            assert(vs.subrange(0, es.len() as int) =~= vs);
            assert forall|k: Seq<char>| self@.contains_key(k) implies elapsed_secs(#[trigger] self@[k].created_ms, now_ms) <= oldest by {
                let j = choose|j: int| 0 <= j < s.len() && #[trigger] s[j].0 == k;
                assert(s[j].1 == self@[k]);
            }
            if self@.len() > 0 {
                let j = choose|j: int| 0 <= j < es.len() && elapsed_secs(#[trigger] s[j].1.created_ms, now_ms) == oldest;
                assert(self@.contains_key(s[j].0) && self@[s[j].0] == s[j].1);
            }
        }
        SessionStats {
            active_sessions: table_len(&self.sessions),
            max_sessions: cfg.max_sessions,
            session_timeout_seconds: cfg.session_timeout,
            oldest_session_seconds: oldest,
            total_messages: total,
        }
    }
}

/// Statistics of the session pool.
#[derive(Debug, Clone, Copy)]
pub struct SessionStats {
    pub active_sessions: usize,
    pub max_sessions: u32,
    pub session_timeout_seconds: u64,
    pub oldest_session_seconds: u64,
    pub total_messages: u64,
}

proof fn lemma_total_messages_prefix(s: Seq<SessionView>, k: int)
    requires
        0 <= k <= s.len(),
    ensures
        total_messages(s.subrange(0, k)) <= total_messages(s),
    decreases s.len(),
{
    if k < s.len() {
        lemma_total_messages_prefix(s.drop_last(), k);
        assert(s.drop_last().subrange(0, k) =~= s.subrange(0, k));
    } else {
        assert(s.subrange(0, k) =~= s);
    }
}

/// A pool within the limit stays within it after a request is served: a
/// reused session changes no count, and a created one, recorded with
/// `insert_session` after the planned removals, takes the place that the
/// removals made.
pub proof fn law_pool_stays_within_limit(
    before: Map<Seq<char>, SessionView>,
    after: Map<Seq<char>, SessionView>,
    sid: Seq<char>,
    url: Seq<char>,
    close: Seq<Seq<char>>,
    max_sessions: nat,
    created: SessionView,
)
    requires
        keyed_by_id(before),
        keyed_by_id(after),
        max_sessions >= 1,
        before.len() <= max_sessions,
        create_outcome(before, after, sid, url, close, max_sessions),
    ensures
        after.insert(sid, created).len() <= max_sessions,
{
    assert(after.insert(sid, created).dom() =~= after.dom().insert(sid));
}

} // verus!
