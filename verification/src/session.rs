use vstd::prelude::*;

verus! {

/// How long a session stays live after its last request, in seconds.
pub const SESSION_TIMEOUT_SECS: u64 = 300;

/// Nanoseconds in a second. Instants are counted in nanoseconds from the
/// UNIX epoch, negative before it.
pub const NANOS_PER_SEC: i128 = 1_000_000_000;

/// `SESSION_TIMEOUT_SECS` in nanoseconds.
pub const SESSION_TIMEOUT_NANOS: i128 = 300_000_000_000;

/// Whole seconds from `since` to `now`; zero when `since` lies after `now`
/// (a clock that went back), as `duration_since(..).unwrap_or_default()`
/// followed by `as_secs()` gives it.
pub open spec fn elapsed_secs(since: i128, now: i128) -> nat {
    if since <= now {
        ((now - since) / (NANOS_PER_SEC as int)) as nat
    } else {
        0
    }
}

/// A session last seen at `last_access` is still live at `now`.
pub open spec fn is_live(last_access: i128, now: i128) -> bool {
    elapsed_secs(last_access, now) < SESSION_TIMEOUT_SECS
}

/// The sessions of `sessions` that are still live at `now`.
pub open spec fn live_sessions(sessions: Map<Seq<char>, i128>, now: i128) -> Map<Seq<char>, i128> {
    Map::new(
        |id: Seq<char>| sessions.contains_key(id) && is_live(sessions[id], now),
        |id: Seq<char>| sessions[id],
    )
}

/// Whether `last_access` is still live at `now`.
pub fn session_is_live(last_access: i128, now: i128) -> (b: bool)
    ensures
        b == is_live(last_access, now),
{
    if last_access <= now {
        proof {
            let d: int = now - last_access;
            assert(d / 1_000_000_000 < 300 <==> d < 300_000_000_000) by (nonlinear_arith)
                requires
                    d >= 0,
            ;
        }
        if last_access > i128::MAX - SESSION_TIMEOUT_NANOS {
            true
        } else {
            now < last_access + SESSION_TIMEOUT_NANOS
        }
    } else {
        true
    }
}

/// The table of open sessions: each session id with the instant of its
/// last request.
pub struct SessionStore {
    entries: Vec<(String, i128)>,
}

/// No session id occurs twice in `s`.
pub open spec fn ids_distinct(s: Seq<(String, i128)>) -> bool {
    forall|i: int, j: int| 0 <= i < s.len() && 0 <= j < s.len() && i != j ==> s[i].0@ != s[j].0@
}

/// The map from session id to last access that a list of entries holds.
pub open spec fn entries_map(s: Seq<(String, i128)>) -> Map<Seq<char>, i128> {
    Map::new(
        |k: Seq<char>| exists|i: int| 0 <= i < s.len() && s[i].0@ == k,
        |k: Seq<char>| s[choose|i: int| 0 <= i < s.len() && s[i].0@ == k].1,
    )
}

proof fn lemma_entry_in_map(s: Seq<(String, i128)>, i: int)
    requires
        ids_distinct(s),
        0 <= i < s.len(),
    ensures
        entries_map(s).contains_key(s[i].0@),
        entries_map(s)[s[i].0@] == s[i].1,
{
    let k = s[i].0@;
    assert(exists|j: int| 0 <= j < s.len() && s[j].0@ == k);
    let j = choose|j: int| 0 <= j < s.len() && s[j].0@ == k;
    assert(j == i);
}

/// The ids of a list of entries, in order.
pub open spec fn entry_ids(s: Seq<(String, i128)>) -> Seq<Seq<char>> {
    s.map_values(|e: (String, i128)| e.0@)
}

/// The sessions that a list of entries holds are those of its ids.
proof fn lemma_map_domain(s: Seq<(String, i128)>)
    ensures
        entries_map(s).dom() == entry_ids(s).to_set(),
        entries_map(s).dom().finite(),
{
    let ids = entry_ids(s);
    assert forall|k: Seq<char>| #[trigger] entries_map(s).dom().contains(k) <==> ids.to_set().contains(k) by {
        if entries_map(s).dom().contains(k) {
            let i = choose|i: int| 0 <= i < s.len() && s[i].0@ == k;
            assert(ids[i] == k);
        }
        if ids.to_set().contains(k) {
            let i = choose|i: int| 0 <= i < ids.len() && ids[i] == k;
            assert(s[i].0@ == k);
        }
    }
    assert(entries_map(s).dom() =~= ids.to_set());
    ids.lemma_cardinality_of_set();
    vstd::seq_lib::seq_to_set_is_finite(ids);
}

/// Putting entry `e` at position `i` (over the entry of the same id there,
/// or at the end when `i` is the length), where no other entry has its id,
/// keeps the ids
/// distinct and maps `e`'s id to `e`'s instant.
proof fn lemma_put_entry(s: Seq<(String, i128)>, i: int, e: (String, i128))
    requires
        ids_distinct(s),
        0 <= i <= s.len(),
        forall|j: int| 0 <= j < s.len() && j != i ==> s[j].0@ != e.0@,
        i < s.len() ==> s[i].0@ == e.0@,
    ensures
        ({
            let t = if i < s.len() { s.update(i, e) } else { s.push(e) };
            &&& ids_distinct(t)
            &&& entries_map(t) == entries_map(s).insert(e.0@, e.1)
        }),
{
    let t = if i < s.len() { s.update(i, e) } else { s.push(e) };
    let m = entries_map(s);
    assert(t[i] == e);
    assert forall|a: int, b: int| 0 <= a < t.len() && 0 <= b < t.len() && a != b
        implies t[a].0@ != t[b].0@ by {
        if a != i && b != i {
            assert(t[a] == s[a] && t[b] == s[b]);
        } else if a != i {
            assert(t[a] == s[a]);
        } else {
            assert(t[b] == s[b]);
        }
    }
    lemma_entry_in_map(t, i);
    assert forall|k: Seq<char>| #[trigger] entries_map(t).contains_key(k)
        <==> m.insert(e.0@, e.1).contains_key(k) by {
        if entries_map(t).contains_key(k) && k != e.0@ {
            let j = choose|j: int| 0 <= j < t.len() && t[j].0@ == k;
            assert(t[i].0@ == e.0@);
            assert(j != i);
            assert(s[j] == t[j]);
            lemma_entry_in_map(s, j);
        }
        if m.contains_key(k) && k != e.0@ {
            let j = choose|j: int| 0 <= j < s.len() && s[j].0@ == k;
            assert(j != i && s[j] == t[j]);
            lemma_entry_in_map(t, j);
        }
    }
    assert forall|k: Seq<char>| #[trigger] entries_map(t).contains_key(k)
        implies entries_map(t)[k] == m.insert(e.0@, e.1)[k] by {
        if k != e.0@ {
            let j = choose|j: int| 0 <= j < t.len() && t[j].0@ == k;
            assert(t[i].0@ == e.0@);
            assert(j != i);
            assert(s[j] == t[j]);
            lemma_entry_in_map(s, j);
            lemma_entry_in_map(t, j);
        }
    }
    assert(entries_map(t) =~= m.insert(e.0@, e.1));
}

impl View for SessionStore {
    type V = Map<Seq<char>, i128>;

    closed spec fn view(&self) -> Map<Seq<char>, i128> {
        entries_map(self.entries@)
    }
}

impl SessionStore {
    #[verifier::type_invariant]
    spec fn well_formed(self) -> bool {
        ids_distinct(self.entries@)
    }

    /// An empty table.
    pub fn new() -> (s: Self)
        ensures
            s@ == Map::<Seq<char>, i128>::empty(),
            s@.dom().finite(),
    {
        let s = SessionStore { entries: Vec::new() };
        assert(s@ =~= Map::<Seq<char>, i128>::empty());
        s
    }

    /// The number of open sessions.
    pub fn len(&self) -> (n: usize)
        ensures
            n == self@.len(),
            self@.dom().finite(),
    {
        proof {
            use_type_invariant(self);
            let ids = entry_ids(self.entries@);
            assert(ids.no_duplicates());
            ids.unique_seq_to_set();
            lemma_map_domain(self.entries@);
        }
        self.entries.len()
    }

    /// The table holds finitely many sessions.
    pub proof fn lemma_view_finite(&self)
        ensures
            self@.dom().finite(),
    {
        lemma_map_domain(self.entries@);
    }

    /// Whether `id` names an open session.
    pub fn contains(&self, id: &String) -> (b: bool)
        ensures
            b == self@.contains_key(id@),
    {
        let mut i: usize = 0;
        while i < self.entries.len()
            invariant
                i <= self.entries@.len(),
                forall|j: int| 0 <= j < i ==> self.entries@[j].0@ != id@,
            decreases self.entries@.len() - i,
        {
            if self.entries[i].0 == *id {
                return true;
            }
            i = i + 1;
        }
        false
    }

    /// Records a request of session `id` at `now`: the session is opened if
    /// it was not, and its last access becomes `now`.
    pub fn touch(&mut self, id: String, now: i128)
        ensures
            final(self)@ == old(self)@.insert(id@, now),
    {
        proof { use_type_invariant(&*self); }
        let mut entries: Vec<(String, i128)> = Vec::new();
        std::mem::swap(&mut entries, &mut self.entries);
        let ghost s = entries@;
        let mut i: usize = 0;
        let mut found = false;
        while i < entries.len()
            invariant
                entries@ == s,
                ids_distinct(s),
                i <= s.len(),
                forall|j: int| 0 <= j < i ==> s[j].0@ != id@,
                found ==> i < s.len() && s[i as int].0@ == id@,
            ensures
                !found ==> i == s.len(),
            decreases s.len() - i,
        {
            if entries[i].0 == id {
                found = true;
                break;
            }
            i = i + 1;
        }
        if found {
            entries.set(i, (id, now));
            proof { lemma_put_entry(s, i as int, entries@[i as int]); }
        } else {
            entries.push((id, now));
            proof { lemma_put_entry(s, s.len() as int, entries@[s.len() as int]); }
        }
        self.entries = entries;
    }

    /// Closes every session that is no longer live at `now`.
    pub fn purge_expired(&mut self, now: i128)
        ensures
            final(self)@ == live_sessions(old(self)@, now),
    {
        proof { use_type_invariant(&*self); }
        let mut entries: Vec<(String, i128)> = Vec::new();
        std::mem::swap(&mut entries, &mut self.entries);
        let ghost s = entries@;
        let mut kept: Vec<(String, i128)> = Vec::new();
        let ghost mut origin: Seq<int> = Seq::empty();
        let mut i: usize = 0;
        while i < entries.len()
            invariant
                entries@ == s,
                ids_distinct(s),
                i <= s.len(),
                ids_distinct(kept@),
                origin.len() == kept@.len(),
                forall|j: int| 0 <= j < kept@.len() ==> 0 <= #[trigger] origin[j] < i
                    && kept@[j] == s[origin[j]] && is_live(s[origin[j]].1, now),
                forall|a: int| 0 <= a < i && is_live(s[a].1, now) ==> exists|j: int|
                    0 <= j < kept@.len() && #[trigger] kept@[j] == s[a],
            decreases s.len() - i,
        {
            let live = session_is_live(entries[i].1, now);
            if live {
                let entry = (entries[i].0.clone(), entries[i].1);
                let ghost old_kept = kept@;
                let ghost old_origin = origin;
                kept.push(entry);
                proof {
                    origin = origin.push(i as int);
                    let t = kept@;
                    assert(t[old_kept.len() as int] == s[i as int]);
                    assert forall|a: int, b: int| 0 <= a < t.len() && 0 <= b < t.len() && a != b
                        implies t[a].0@ != t[b].0@ by {
                        if a < old_kept.len() && b < old_kept.len() {
                            assert(t[a] == old_kept[a] && t[b] == old_kept[b]);
                        } else if a < old_kept.len() {
                            assert(t[a] == old_kept[a]);
                            assert(old_origin[a] < i);
                        } else {
                            assert(t[b] == old_kept[b]);
                            assert(old_origin[b] < i);
                        }
                    }
                    assert forall|j: int| 0 <= j < t.len() implies 0 <= #[trigger] origin[j] < i + 1
                        && t[j] == s[origin[j]] && is_live(s[origin[j]].1, now) by {
                        if j < old_kept.len() {
                            assert(t[j] == old_kept[j]);
                            assert(origin[j] == old_origin[j]);
                        }
                    }
                    assert forall|a: int| 0 <= a < i + 1 && is_live(s[a].1, now) implies exists|j: int|
                        0 <= j < t.len() && #[trigger] t[j] == s[a] by {
                        if a < i {
                            let j = choose|j: int| 0 <= j < old_kept.len() && old_kept[j] == s[a];
                            assert(t[j] == old_kept[j]);
                        } else {
                            assert(t[old_kept.len() as int] == s[a]);
                        }
                    }
                }
            }
            i = i + 1;
        }
        proof {
            let t = kept@;
            let m = entries_map(s);
            let r = live_sessions(m, now);
            assert forall|k: Seq<char>| #[trigger] entries_map(t).contains_key(k)
                <==> r.contains_key(k) by {
                if entries_map(t).contains_key(k) {
                    let j = choose|j: int| 0 <= j < t.len() && t[j].0@ == k;
                    let a = origin[j];
                    lemma_entry_in_map(s, a);
                }
                if r.contains_key(k) {
                    let a = choose|a: int| 0 <= a < s.len() && s[a].0@ == k;
                    lemma_entry_in_map(s, a);
                    let j = choose|j: int| 0 <= j < t.len() && t[j] == s[a];
                    lemma_entry_in_map(t, j);
                }
            }
            assert forall|k: Seq<char>| #[trigger] entries_map(t).contains_key(k)
                implies entries_map(t)[k] == r[k] by {
                let j = choose|j: int| 0 <= j < t.len() && t[j].0@ == k;
                let a = origin[j];
                lemma_entry_in_map(s, a);
                lemma_entry_in_map(t, j);
            }
            assert(entries_map(t) =~= r);
        }
        self.entries = kept;
    }
}


/// The table after a request that carried `session_cookie` was answered at
/// `now`: the session it names is refreshed (or opened) at `now`, then every
/// session that is no longer live at `now` is closed. A request without the
/// cookie leaves the table as it was.
pub open spec fn after_request(sessions: Map<Seq<char>, i128>, session_cookie: Option<Seq<char>>, now: i128)
    -> Map<Seq<char>, i128>
{
    match session_cookie {
        Some(id) => live_sessions(sessions.insert(id, now), now),
        None => sessions,
    }
}

/// The spec view of an optional string (a cookie or a form field).
pub open spec fn opt_string_view(value: Option<&String>) -> Option<Seq<char>> {
    match value {
        Some(v) => Some(v@),
        None => None,
    }
}

/// What the server does to the session table once a request is answered.
pub fn track_session(store: &mut SessionStore, session_cookie: Option<&String>, now: i128)
    ensures
        final(store)@ == after_request(old(store)@, opt_string_view(session_cookie), now),
{
    match session_cookie {
        Some(id) => {
            store.touch(id.clone(), now);
            store.purge_expired(now);
        },
        None => {},
    }
}

} // verus!
