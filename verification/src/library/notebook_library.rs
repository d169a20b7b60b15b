//! Notebook library manager: add, select, update, remove, search and count
//! the notebooks of the library document. Reading and writing `library.json`
//! is the caller's part; every operation here works on the document in memory
//! and stamps `last_modified` when it changes it.

use vstd::prelude::*;
use crate::text::{
    chars_of, string_from_chars, owned, concat2, lowercase, contains, str_eq, decimal,
    decimal_string, has_sub, spec_to_lowercase, lemma_decimal_injective,
};
use crate::library::types::{
    NotebookEntry, NotebookView, Library, LibraryView, AddNotebookInput, AddNotebookView,
    UpdateNotebookInput, UpdateNotebookView, LibraryStats, LibraryStatsView, strs, opt_strs,
    opt_str, entries, copy_strs, copy_opt_strs, copy_entries, now_rfc3339,
};
use crate::config::{Config, or_else};

verus! {

broadcast use vstd::seq_lib::group_seq_properties;

// ---------------------------------------------------------------------------
// Model
// ---------------------------------------------------------------------------

/// Some notebook carries `id`.
pub open spec fn has_id(nbs: Seq<NotebookView>, id: Seq<char>) -> bool {
    exists|k: int| 0 <= k < nbs.len() && #[trigger] nbs[k].id == id
}

/// `k` is the first position of a notebook carrying `id`.
pub open spec fn is_first_with_id(nbs: Seq<NotebookView>, id: Seq<char>, k: int) -> bool {
    &&& 0 <= k < nbs.len()
    &&& nbs[k].id == id
    &&& forall|j: int| 0 <= j < k ==> #[trigger] nbs[j].id != id
}

pub open spec fn first_index(nbs: Seq<NotebookView>, id: Seq<char>) -> int {
    choose|k: int| is_first_with_id(nbs, id, k)
}

/// The first notebook carrying `id`, as `iter().find` gives it.
pub open spec fn lookup(nbs: Seq<NotebookView>, id: Seq<char>) -> Option<NotebookView> {
    if has_id(nbs, id) {
        Some(nbs[first_index(nbs, id)])
    } else {
        None
    }
}

pub proof fn lemma_first_unique(nbs: Seq<NotebookView>, id: Seq<char>, a: int, b: int)
    requires
        is_first_with_id(nbs, id, a),
        is_first_with_id(nbs, id, b),
    ensures
        a == b,
{
    if a < b {
        assert(nbs[a].id != id);
    } else if b < a {
        assert(nbs[b].id != id);
    }
}

pub proof fn lemma_first_index(nbs: Seq<NotebookView>, id: Seq<char>, k: int)
    requires
        is_first_with_id(nbs, id, k),
    ensures
        has_id(nbs, id),
        first_index(nbs, id) == k,
        lookup(nbs, id) == Some(nbs[k]),
{
    assert(nbs[k].id == id);
    let c = first_index(nbs, id);
    assert(is_first_with_id(nbs, id, c));
    lemma_first_unique(nbs, id, c, k);
}

/// The ids of the notebooks.
pub open spec fn ids_of(nbs: Seq<NotebookView>) -> Seq<Seq<char>> {
    nbs.map_values(|n: NotebookView| n.id)
}

/// No two notebooks share an id.
pub open spec fn ids_distinct(nbs: Seq<NotebookView>) -> bool {
    forall|i: int, j: int| 0 <= i < nbs.len() && 0 <= j < nbs.len() && i != j ==> #[trigger] nbs[i].id != #[trigger] nbs[j].id
}

/// The active id, if any, names a notebook of the library.
pub open spec fn active_valid(lib: LibraryView) -> bool {
    match lib.active_notebook_id {
        Some(id) => has_id(lib.notebooks, id),
        None => true,
    }
}

/// The `k`-th numbered variant of an id base: `base-k`.
pub open spec fn candidate(base: Seq<char>, k: nat) -> Seq<char> {
    base + seq!['-'] + decimal(k)
}

/// The id base for a name: the first 30 characters of its slug, or `notebook`
/// when the slug is empty.
pub open spec fn id_base(name: Seq<char>) -> Seq<char> {
    slug_base(spec_slugify(name))
}

/// The id base for a slug: its first 30 characters, or `notebook` when it is empty.
pub open spec fn slug_base(s: Seq<char>) -> Seq<char> {
    let t = if s.len() <= 30 { s } else { s.subrange(0, 30) };
    if t.len() == 0 {
        "notebook"@
    } else {
        t
    }
}

/// `id` is the id that `generate_id` picks for `base` among `nbs`: the base when
/// it is free, else `base-k` for the least `k >= 1` that is free.
pub open spec fn id_choice(nbs: Seq<NotebookView>, base: Seq<char>, id: Seq<char>) -> bool {
    &&& !has_id(nbs, id)
    &&& !has_id(nbs, base) ==> id == base
    &&& has_id(nbs, base) ==> exists|k: nat| k >= 1 && id == #[trigger] candidate(base, k)
        && forall|j: nat| 1 <= j < k ==> has_id(nbs, #[trigger] candidate(base, j))
}

/// The slug of a string as `slug::slugify` computes it (transliteration to
/// ASCII, lowercase, runs of other characters folded to one `-`, no `-` at either end).
pub uninterp spec fn spec_slugify(s: Seq<char>) -> Seq<char>;

/// Calls `slug::slugify`. The documentation states that the result consists of
/// `a-z`, `0-9` and `-` only.
#[verifier::external_body]
fn slugify(s: &str) -> (r: String)
    ensures
        r@ == spec_slugify(s@),
        forall|i: int| 0 <= i < r@.len() ==> ('a' <= #[trigger] r@[i] <= 'z' || '0' <= r@[i] <= '9' || r@[i] == '-'),
{
    slug::slugify(s)
}

pub open spec fn default_content_types() -> Seq<Seq<char>> {
    seq!["documentation"@, "examples"@]
}

pub open spec fn default_use_cases(name: Seq<char>) -> Seq<Seq<char>> {
    seq!["Learning about "@ + name, "Implementing features with "@ + name]
}

/// The entry that `add_notebook` creates for `input` under `id` at time `now`.
pub open spec fn new_entry(input: AddNotebookView, id: Seq<char>, now: Seq<char>) -> NotebookView {
    NotebookView {
        id,
        url: input.url,
        name: input.name,
        description: input.description,
        topics: input.topics,
        content_types: or_else(input.content_types, default_content_types()),
        use_cases: or_else(input.use_cases, default_use_cases(input.name)),
        added_at: now,
        last_used: now,
        use_count: 0,
        tags: input.tags,
    }
}

/// The entry with the fields of an update applied.
pub open spec fn updated(nb: NotebookView, u: UpdateNotebookView) -> NotebookView {
    NotebookView {
        name: or_else(u.name, nb.name),
        description: or_else(u.description, nb.description),
        topics: or_else(u.topics, nb.topics),
        content_types: or_else(u.content_types, nb.content_types),
        use_cases: or_else(u.use_cases, nb.use_cases),
        tags: match u.tags { Some(t) => Some(t), None => nb.tags },
        url: or_else(u.url, nb.url),
        ..nb
    }
}

/// The notebooks that do not carry `id`, in order.
pub open spec fn without_id(nbs: Seq<NotebookView>, id: Seq<char>) -> Seq<NotebookView>
    decreases nbs.len(),
{
    if nbs.len() == 0 {
        Seq::empty()
    } else {
        let rest = without_id(nbs.drop_last(), id);
        if nbs.last().id != id {
            rest.push(nbs.last())
        } else {
            rest
        }
    }
}

/// The active id after removing `id`: the first remaining notebook when the
/// active one was removed.
pub open spec fn active_after_remove(active: Option<Seq<char>>, remaining: Seq<NotebookView>, id: Seq<char>) -> Option<Seq<char>> {
    if active == Some(id) {
        if remaining.len() > 0 {
            Some(remaining[0].id)
        } else {
            None
        }
    } else {
        active
    }
}

/// `s` lowercased contains `q`.
pub open spec fn hit(s: Seq<char>, q: Seq<char>) -> bool {
    has_sub(spec_to_lowercase(s), q)
}

pub open spec fn any_hit(v: Seq<Seq<char>>, q: Seq<char>) -> bool {
    exists|i: int| 0 <= i < v.len() && hit(#[trigger] v[i], q)
}

/// A notebook matches a lowercased query in its name, description, a topic or a tag.
pub open spec fn matches_query(nb: NotebookView, q: Seq<char>) -> bool {
    ||| hit(nb.name, q)
    ||| hit(nb.description, q)
    ||| any_hit(nb.topics, q)
    ||| any_hit(or_else(nb.tags, Seq::empty()), q)
}

/// The notebooks that match the lowercased query, in order.
pub open spec fn matching(nbs: Seq<NotebookView>, q: Seq<char>) -> Seq<NotebookView>
    decreases nbs.len(),
{
    if nbs.len() == 0 {
        Seq::empty()
    } else {
        let rest = matching(nbs.drop_last(), q);
        if matches_query(nbs.last(), q) {
            rest.push(nbs.last())
        } else {
            rest
        }
    }
}

/// Sum of the use counts.
pub open spec fn total_uses(nbs: Seq<NotebookView>) -> nat
    decreases nbs.len(),
{
    if nbs.len() == 0 {
        0
    } else {
        total_uses(nbs.drop_last()) + nbs.last().use_count as nat
    }
}

/// `k` is the position that `max_by_key(use_count)` picks: a maximum, and the
/// last one among equals.
pub open spec fn is_most_used(nbs: Seq<NotebookView>, k: int) -> bool {
    &&& 0 <= k < nbs.len()
    &&& forall|j: int| 0 <= j < nbs.len() ==> #[trigger] nbs[j].use_count <= nbs[k].use_count
    &&& forall|j: int| k < j < nbs.len() ==> #[trigger] nbs[j].use_count < nbs[k].use_count
}

/// The statistics of a library: counts, active id, most used id and total queries.
pub open spec fn stats_of(lib: LibraryView, most_used: Option<Seq<char>>) -> bool {
    &&& (lib.notebooks.len() == 0 <==> most_used.is_none())
    &&& (most_used.is_some() ==> exists|k: int| is_most_used(lib.notebooks, k) && lib.notebooks[k].id == most_used.unwrap())
}

// ---------------------------------------------------------------------------
// Lemmas
// ---------------------------------------------------------------------------

proof fn lemma_candidate_injective(base: Seq<char>, a: nat, b: nat)
    requires
        candidate(base, a) == candidate(base, b),
    ensures
        a == b,
{
    let ca = candidate(base, a);
    let cb = candidate(base, b);
    let n = base.len() as int + 1;
    assert(ca.subrange(n, ca.len() as int) =~= decimal(a));
    assert(cb.subrange(n, cb.len() as int) =~= decimal(b));
    lemma_decimal_injective(a, b);
}

pub open spec fn candidate_set(base: Seq<char>, k: nat) -> Set<Seq<char>> {
    Set::new(|x: Seq<char>| exists|j: nat| 1 <= j <= k && x == #[trigger] candidate(base, j))
}

proof fn lemma_candidate_set_len(base: Seq<char>, k: nat)
    ensures
        candidate_set(base, k).finite(),
        candidate_set(base, k).len() == k,
    decreases k,
{
    if k == 0 {
        assert(candidate_set(base, 0) =~= Set::<Seq<char>>::empty());
    } else {
        let km1 = (k - 1) as nat;
        lemma_candidate_set_len(base, km1);
        assert(candidate_set(base, k) =~= candidate_set(base, km1).insert(candidate(base, k))) by {
            assert forall|x: Seq<char>| candidate_set(base, k).contains(x) implies candidate_set(base, km1).insert(candidate(base, k)).contains(x) by {
                let j = choose|j: nat| 1 <= j <= k && x == #[trigger] candidate(base, j);
                if j < k {
                    assert(candidate_set(base, km1).contains(x));
                }
            }
            assert forall|x: Seq<char>| candidate_set(base, km1).insert(candidate(base, k)).contains(x) implies candidate_set(base, k).contains(x) by {
                if x != candidate(base, k) {
                    let j = choose|j: nat| 1 <= j <= km1 && x == #[trigger] candidate(base, j);
                    assert(1 <= j <= k && x == candidate(base, j));
                } else {
                    assert(1 <= k <= k && x == candidate(base, k));
                }
            }
        }
        if candidate_set(base, km1).contains(candidate(base, k)) {
            let j = choose|j: nat| 1 <= j <= km1 && candidate(base, k) == #[trigger] candidate(base, j);
            lemma_candidate_injective(base, k, j);
        }
    }
}

/// When the base and `base-1` .. `base-k` are all taken, there are more than `k` notebooks.
proof fn lemma_candidates_bounded(nbs: Seq<NotebookView>, base: Seq<char>, k: nat)
    requires
        has_id(nbs, base),
        forall|j: nat| 1 <= j <= k ==> has_id(nbs, #[trigger] candidate(base, j)),
    ensures
        k + 1 <= nbs.len(),
{
    let ids = ids_of(nbs);
    lemma_candidate_set_len(base, k);
    let cs = candidate_set(base, k);
    assert(!cs.contains(base)) by {
        if cs.contains(base) {
            let j = choose|j: nat| 1 <= j <= k && base == #[trigger] candidate(base, j);
            assert(candidate(base, j).len() > base.len());
        }
    }
    let all = cs.insert(base);
    assert(all.len() == k + 1);
    assert(all.subset_of(ids.to_set())) by {
        assert forall|x: Seq<char>| all.contains(x) implies ids.to_set().contains(x) by {
            if x == base {
                let i = choose|i: int| 0 <= i < nbs.len() && #[trigger] nbs[i].id == x;
                assert(ids[i] == x);
            } else {
                let j = choose|j: nat| 1 <= j <= k && x == #[trigger] candidate(base, j);
                assert(has_id(nbs, candidate(base, j)));
                let i = choose|i: int| 0 <= i < nbs.len() && #[trigger] nbs[i].id == x;
                assert(ids[i] == x);
            }
        }
    }
    vstd::seq_lib::seq_to_set_is_finite(ids);
    vstd::set_lib::lemma_len_subset(all, ids.to_set());
    ids.lemma_cardinality_of_set();
}

proof fn lemma_without_id_props(nbs: Seq<NotebookView>, id: Seq<char>)
    ensures
        !has_id(without_id(nbs, id), id),
        has_id(nbs, id) ==> without_id(nbs, id).len() < nbs.len(),
        !has_id(nbs, id) ==> without_id(nbs, id) == nbs,
        forall|x: Seq<char>| #![trigger has_id(without_id(nbs, id), x)] x != id ==> (has_id(without_id(nbs, id), x) == has_id(nbs, x)),
    decreases nbs.len(),
{
    if nbs.len() > 0 {
        let init = nbs.drop_last();
        lemma_without_id_props(init, id);
        let rest = without_id(init, id);
        assert(forall|k: int| 0 <= k < init.len() ==> init[k] == nbs[k]);
        if has_id(nbs, id) && !has_id(init, id) {
            let k = choose|k: int| 0 <= k < nbs.len() && #[trigger] nbs[k].id == id;
            if k < init.len() {
                assert(init[k].id == id);
            }
        }
        if !has_id(nbs, id) {
            assert(nbs.last().id != id);
            assert(init.push(nbs.last()) =~= nbs);
        }
        assert forall|x: Seq<char>| x != id implies has_id(without_id(nbs, id), x) == has_id(nbs, x) by {
            if has_id(nbs, x) {
                let k = choose|k: int| 0 <= k < nbs.len() && #[trigger] nbs[k].id == x;
                if k < init.len() {
                    assert(init[k] == nbs[k]);
                    assert(init[k].id == x);
                    assert(has_id(init, x));
                    assert(has_id(without_id(init, id), x) == has_id(init, x));
                    let m = choose|m: int| 0 <= m < rest.len() && #[trigger] rest[m].id == x;
                    if nbs.last().id != id {
                        assert(rest.push(nbs.last())[m].id == x);
                    }
                } else {
                    assert(nbs.last().id == x);
                    assert(rest.push(nbs.last())[rest.len() as int].id == x);
                }
            }
            if has_id(without_id(nbs, id), x) {
                let w = without_id(nbs, id);
                let m = choose|m: int| 0 <= m < w.len() && #[trigger] w[m].id == x;
                if m < rest.len() {
                    assert(rest[m] == w[m]);
                    assert(has_id(rest, x));
                    assert(has_id(without_id(init, id), x) == has_id(init, x));
                    assert(has_id(init, x));
                    let k = choose|k: int| 0 <= k < init.len() && #[trigger] init[k].id == x;
                    assert(init[k] == nbs[k]);
                    assert(nbs[k].id == x);
                } else {
                    assert(nbs[nbs.len() - 1].id == x);
                }
            }
        }
        if has_id(without_id(nbs, id), id) {
            let w = without_id(nbs, id);
            let m = choose|m: int| 0 <= m < w.len() && #[trigger] w[m].id == id;
            if m < rest.len() {
                assert(rest[m] == w[m]);
            }
        }
    }
}

// ---------------------------------------------------------------------------
// Helpers on vectors of entries
// ---------------------------------------------------------------------------

/// The position of the first notebook carrying `id`.
fn find_index(nbs: &Vec<NotebookEntry>, id: &str) -> (r: Option<usize>)
    ensures
        match r {
            Some(k) => is_first_with_id(entries(nbs@), id@, k as int),
            None => !has_id(entries(nbs@), id@),
        },
{
    let ghost es = entries(nbs@);
    let mut i: usize = 0;
    while i < nbs.len()
        invariant
            es == entries(nbs@),
            i <= nbs.len(),
            forall|j: int| 0 <= j < i ==> #[trigger] es[j].id != id@,
        decreases nbs.len() - i,
    {
        assert(es[i as int] == nbs@[i as int]@);
        if str_eq(nbs[i].id.as_str(), id) {
            return Some(i);
        }
        i = i + 1;
    }
    None
}

fn contains_id(nbs: &Vec<NotebookEntry>, id: &str) -> (r: bool)
    ensures
        r == has_id(entries(nbs@), id@),
{
    match find_index(nbs, id) {
        Some(k) => {
            assert(entries(nbs@)[k as int].id == id@);
            true
        },
        None => false,
    }
}

/// Generate a unique slug ID from a name string.
fn generate_id(nbs: &Vec<NotebookEntry>, name: &str) -> (r: String)
    requires
        nbs@.len() < u32::MAX,
    ensures
        id_choice(entries(nbs@), id_base(name@), r@),
{
    let slug = slugify(name);
    id_for_slug(nbs, slug.as_str())
}

/// The id a notebook whose name has slug `slug` gets among `nbs`: the slug's
/// base (its first 30 characters, or `notebook`) when no notebook has it,
/// else `base-k` for the least `k >= 1` that is free.
pub fn id_for_slug(nbs: &Vec<NotebookEntry>, slug: &str) -> (r: String)
    requires
        nbs@.len() < u32::MAX,
    ensures
        id_choice(entries(nbs@), slug_base(slug@), r@),
{
    let ghost es = entries(nbs@);
    let sc = chars_of(slug);
    let mut base_chars: Vec<char> = Vec::new();
    let mut i: usize = 0;
    while i < sc.len() && i < 30
        invariant
            i <= sc.len(),
            i <= 30,
            base_chars@ == sc@.subrange(0, i as int),
        decreases sc.len() - i,
    {
        base_chars.push(sc[i]);
        assert(base_chars@ =~= sc@.subrange(0, i + 1));
        i = i + 1;
    }
    proof {
        if sc@.len() <= 30 {
            assert(sc@.subrange(0, sc@.len() as int) =~= sc@);
        }
        reveal_strlit("notebook");
    }
    let base = if base_chars.len() == 0 {
        owned("notebook")
    } else {
        string_from_chars(&base_chars)
    };
    assert(base@ == slug_base(slug@));
    let mut id = base.clone();
    let mut counter: u64 = 1;
    while contains_id(nbs, id.as_str())
        invariant
            es == entries(nbs@),
            nbs@.len() < u32::MAX,
            base@ == slug_base(slug@),
            1 <= counter,
            counter == 1 ==> id@ == base@,
            counter > 1 ==> id@ == candidate(base@, (counter - 1) as nat),
            counter > 1 ==> has_id(es, base@),
            forall|j: nat| 1 <= j < counter - 1 ==> has_id(es, #[trigger] candidate(base@, j)),
            counter - 1 <= es.len(),
        decreases es.len() + 1 - counter,
    {
        proof {
            assert(has_id(es, base@));
            assert forall|j: nat| 1 <= j <= (counter - 1) as nat implies has_id(es, #[trigger] candidate(base@, j)) by {
                if j == counter - 1 {
                }
            }
            lemma_candidates_bounded(es, base@, (counter - 1) as nat);
            reveal_strlit("-");
            assert("-"@ =~= seq!['-']);
        }
        let with_dash = concat2(base.as_str(), "-");
        let digits = decimal_string(counter);
        id = concat2(with_dash.as_str(), digits.as_str());
        assert(id@ == candidate(base@, counter as nat));
        counter = counter + 1;
    }
    proof {
        if counter > 1 {
            let k = (counter - 1) as nat;
            assert(id@ == candidate(base@, k));
            assert(forall|j: nat| 1 <= j < k ==> has_id(es, #[trigger] candidate(base@, j)));
        }
    }
    id
}

// ---------------------------------------------------------------------------
// Errors
// ---------------------------------------------------------------------------

/// Failure of a library operation.
#[derive(Debug)]
pub enum LibraryError {
    /// No notebook carries the id.
    NotFound(String),
}

impl LibraryError {
    /// The message of the error: `Notebook not found: <id>`.
    pub fn message(&self) -> (r: String)
        ensures
            match self {
                LibraryError::NotFound(id) => r@ == "Notebook not found: "@ + id@,
            },
    {
        match self {
            LibraryError::NotFound(id) => concat2("Notebook not found: ", id.as_str()),
        }
    }
}

// ---------------------------------------------------------------------------
// NotebookLibrary
// ---------------------------------------------------------------------------

pub struct NotebookLibrary {
    state: Library,
}

impl View for NotebookLibrary {
    type V = LibraryView;

    closed spec fn view(&self) -> LibraryView {
        self.state@
    }
}

impl NotebookLibrary {
    /// The library document, for writing it to disk.
    pub fn library(&self) -> (r: &Library)
        ensures
            r@ == self@,
    {
        &self.state
    }

    /// The library from a document read from disk, or, when there is none, the
    /// default library built from the configuration.
    pub fn new(loaded: Option<Library>, cfg: &Config) -> (r: NotebookLibrary)
        ensures
            loaded.is_some() ==> r@ == loaded.unwrap()@,
            loaded.is_none() ==> default_library_view(cfg@.notebook_url, cfg@.notebook_description, cfg@.notebook_topics, cfg@.notebook_content_types, cfg@.notebook_use_cases, r@),
    {
        match loaded {
            Some(lib) => NotebookLibrary { state: lib },
            None => NotebookLibrary { state: Self::create_default_library(cfg) },
        }
    }

    /// A library that is empty, or, when the configuration names a notebook URL
    /// and a description other than the default one, holds that one notebook as
    /// the active one.
    fn create_default_library(cfg: &Config) -> (r: Library)
        ensures
            default_library_view(cfg@.notebook_url, cfg@.notebook_description, cfg@.notebook_topics, cfg@.notebook_content_types, cfg@.notebook_use_cases, r@),
    {
        let mut lib = Library::default();
        let has_config = !cfg.notebook_url.as_str().is_empty()
            && !cfg.notebook_description.as_str().is_empty()
            && !str_eq(cfg.notebook_description.as_str(), "General knowledge base");
        if has_config {
            let id = generate_id(&lib.notebooks, cfg.notebook_description.as_str());
            let now = now_rfc3339();
            let dc = chars_of(cfg.notebook_description.as_str());
            let mut name_chars: Vec<char> = Vec::new();
            let mut i: usize = 0;
            while i < dc.len() && i < 50
                invariant
                    i <= dc.len(),
                    i <= 50,
                    name_chars@ == dc@.subrange(0, i as int),
                decreases dc.len() - i,
            {
                name_chars.push(dc[i]);
                assert(name_chars@ =~= dc@.subrange(0, i + 1));
                i = i + 1;
            }
            proof {
                if dc@.len() <= 50 {
                    assert(dc@.subrange(0, dc@.len() as int) =~= dc@);
                }
            }
            let notebook = NotebookEntry {
                id: id.clone(),
                url: cfg.notebook_url.clone(),
                name: string_from_chars(&name_chars),
                description: cfg.notebook_description.clone(),
                topics: copy_strs(&cfg.notebook_topics),
                content_types: copy_strs(&cfg.notebook_content_types),
                use_cases: copy_strs(&cfg.notebook_use_cases),
                added_at: now.clone(),
                last_used: now,
                use_count: 0,
                tags: Some(Vec::new()),
            };
            lib.active_notebook_id = Some(id);
            lib.notebooks.push(notebook);
            assert(strs(Seq::<String>::empty()) =~= Seq::<Seq<char>>::empty());
        }
        lib
    }

    /// Add a new notebook to the library. The first notebook becomes the active one.
    pub fn add_notebook(&mut self, input: AddNotebookInput) -> (r: NotebookEntry)
        requires
            old(self)@.notebooks.len() < u32::MAX,
        ensures
            id_choice(old(self)@.notebooks, id_base(input@.name), r@.id),
            r@ == new_entry(input@, r@.id, r@.added_at),
            final(self)@.notebooks == old(self)@.notebooks.push(r@),
            final(self)@.active_notebook_id == (if old(self)@.notebooks.len() == 0 {
                Some(r@.id)
            } else {
                old(self)@.active_notebook_id
            }),
            final(self)@.version == old(self)@.version,
    {
        let ghost in_v = input@;
        let id = generate_id(&self.state.notebooks, input.name.as_str());
        let now = now_rfc3339();
        let content_types = match input.content_types {
            Some(v) => v,
            None => {
                let mut v: Vec<String> = Vec::new();
                v.push(owned("documentation"));
                v.push(owned("examples"));
                assert(strs(v@) =~= default_content_types());
                v
            },
        };
        let use_cases = match input.use_cases {
            Some(v) => v,
            None => {
                let mut v: Vec<String> = Vec::new();
                v.push(concat2("Learning about ", input.name.as_str()));
                v.push(concat2("Implementing features with ", input.name.as_str()));
                assert(strs(v@) =~= default_use_cases(in_v.name));
                v
            },
        };
        let notebook = NotebookEntry {
            id: id.clone(),
            url: input.url,
            name: input.name,
            description: input.description,
            topics: input.topics,
            content_types,
            use_cases,
            added_at: now.clone(),
            last_used: now,
            use_count: 0,
            tags: input.tags,
        };
        let ghost before = self.state.notebooks@;
        let copy = notebook.duplicate();
        self.state.notebooks.push(notebook);
        assert(entries(self.state.notebooks@) =~= entries(before).push(copy@));
        if self.state.notebooks.len() == 1 {
            self.state.active_notebook_id = Some(id);
        }
        self.state.last_modified = now_rfc3339();
        copy
    }

    /// List all notebooks.
    pub fn list_notebooks(&self) -> (r: Vec<NotebookEntry>)
        ensures
            entries(r@) == self@.notebooks,
    {
        copy_entries(&self.state.notebooks)
    }

    /// Get a notebook by ID.
    pub fn get_notebook(&self, id: &str) -> (r: Option<NotebookEntry>)
        ensures
            match r {
                Some(e) => lookup(self@.notebooks, id@) == Some(e@),
                None => lookup(self@.notebooks, id@).is_none(),
            },
    {
        match find_index(&self.state.notebooks, id) {
            Some(k) => {
                proof {
                    lemma_first_index(self@.notebooks, id@, k as int);
                }
                Some(self.state.notebooks[k].duplicate())
            },
            None => None,
        }
    }

    /// Get the currently active notebook.
    pub fn get_active_notebook(&self) -> (r: Option<NotebookEntry>)
        ensures
            match self@.active_notebook_id {
                Some(id) => match r {
                    Some(e) => lookup(self@.notebooks, id) == Some(e@),
                    None => lookup(self@.notebooks, id).is_none(),
                },
                None => r.is_none(),
            },
    {
        match &self.state.active_notebook_id {
            Some(id) => self.get_notebook(id.as_str()),
            None => None,
        }
    }

    /// Select a notebook as the active one; its `last_used` is stamped with the
    /// current time.
    pub fn select_notebook(&mut self, id: &str) -> (r: Result<NotebookEntry, LibraryError>)
        ensures
            match r {
                Ok(e) => {
                    &&& has_id(old(self)@.notebooks, id@)
                    &&& final(self)@.notebooks == old(self)@.notebooks.update(
                        first_index(old(self)@.notebooks, id@),
                        NotebookView {
                            last_used: e@.last_used,
                            ..old(self)@.notebooks[first_index(old(self)@.notebooks, id@)]
                        },
                    )
                    &&& e@ == final(self)@.notebooks[first_index(old(self)@.notebooks, id@)]
                    &&& final(self)@.active_notebook_id == Some(id@)
                    &&& final(self)@.version == old(self)@.version
                },
                Err(LibraryError::NotFound(m)) => {
                    &&& !has_id(old(self)@.notebooks, id@)
                    &&& m@ == id@
                    &&& final(self)@ == old(self)@
                },
            },
    {
        match find_index(&self.state.notebooks, id) {
            None => Err(LibraryError::NotFound(owned(id))),
            Some(k) => {
                proof {
                    lemma_first_index(self@.notebooks, id@, k as int);
                }
                let ghost before = self.state.notebooks@;
                let now = now_rfc3339();
                let mut e = self.state.notebooks[k].duplicate();
                e.last_used = now;
                let copy = e.duplicate();
                self.state.notebooks.set(k, e);
                assert(entries(self.state.notebooks@) =~= entries(before).update(k as int, copy@));
                self.state.active_notebook_id = Some(owned(id));
                self.state.last_modified = now_rfc3339();
                Ok(copy)
            },
        }
    }

    /// Update notebook metadata: each field given in the input replaces the
    /// notebook's own.
    pub fn update_notebook(&mut self, input: UpdateNotebookInput) -> (r: Result<NotebookEntry, LibraryError>)
        ensures
            match r {
                Ok(e) => {
                    &&& has_id(old(self)@.notebooks, input@.id)
                    &&& e@ == updated(old(self)@.notebooks[first_index(old(self)@.notebooks, input@.id)], input@)
                    &&& final(self)@.notebooks == old(self)@.notebooks.update(first_index(old(self)@.notebooks, input@.id), e@)
                    &&& final(self)@.active_notebook_id == old(self)@.active_notebook_id
                    &&& final(self)@.version == old(self)@.version
                },
                Err(LibraryError::NotFound(m)) => {
                    &&& !has_id(old(self)@.notebooks, input@.id)
                    &&& m@ == input@.id
                    &&& final(self)@ == old(self)@
                },
            },
    {
        let ghost u = input@;
        match find_index(&self.state.notebooks, input.id.as_str()) {
            None => Err(LibraryError::NotFound(input.id)),
            Some(k) => {
                proof {
                    lemma_first_index(self@.notebooks, u.id, k as int);
                }
                let ghost before = self.state.notebooks@;
                let mut nb = self.state.notebooks[k].duplicate();
                if let Some(v) = input.name { nb.name = v; }
                if let Some(v) = input.description { nb.description = v; }
                if let Some(v) = input.topics { nb.topics = v; }
                if let Some(v) = input.content_types { nb.content_types = v; }
                if let Some(v) = input.use_cases { nb.use_cases = v; }
                if let Some(v) = input.tags { nb.tags = Some(v); }
                if let Some(v) = input.url { nb.url = v; }
                let copy = nb.duplicate();
                assert(copy@ =~= updated(entries(before)[k as int], u));
                self.state.notebooks.set(k, nb);
                assert(entries(self.state.notebooks@) =~= entries(before).update(k as int, copy@));
                self.state.last_modified = now_rfc3339();
                Ok(copy)
            },
        }
    }

    /// Remove every notebook carrying `id`. Returns `true` if one was found; then,
    /// when the active notebook was removed, the first remaining one becomes active.
    pub fn remove_notebook(&mut self, id: &str) -> (r: bool)
        ensures
            r == has_id(old(self)@.notebooks, id@),
            !r ==> final(self)@ == old(self)@,
            r ==> final(self)@.notebooks == without_id(old(self)@.notebooks, id@),
            r ==> final(self)@.active_notebook_id == active_after_remove(
                old(self)@.active_notebook_id,
                without_id(old(self)@.notebooks, id@),
                id@,
            ),
            r ==> final(self)@.version == old(self)@.version,
    {
        let ghost es = entries(self.state.notebooks@);
        let mut kept: Vec<NotebookEntry> = Vec::new();
        let mut i: usize = 0;
        let n = self.state.notebooks.len();
        while i < n
            invariant
                n == self.state.notebooks.len(),
                es == entries(self.state.notebooks@),
                i <= n,
                entries(kept@) == without_id(es.subrange(0, i as int), id@),
            decreases n - i,
        {
            let ghost pre = es.subrange(0, i as int);
            let ghost nxt = es.subrange(0, i + 1);
            assert(nxt.drop_last() =~= pre);
            assert(nxt.last() == self.state.notebooks@[i as int]@);
            if !str_eq(self.state.notebooks[i].id.as_str(), id) {
                let ghost before = kept@;
                let e = self.state.notebooks[i].duplicate();
                kept.push(e);
                assert(entries(kept@) =~= entries(before).push(e@));
            }
            i = i + 1;
        }
        assert(es.subrange(0, n as int) =~= es);
        proof {
            lemma_without_id_props(es, id@);
        }
        if kept.len() == n {
            return false;
        }
        let active_removed = match &self.state.active_notebook_id {
            Some(a) => str_eq(a.as_str(), id),
            None => false,
        };
        if active_removed {
            self.state.active_notebook_id = if kept.len() > 0 {
                Some(kept[0].id.clone())
            } else {
                None
            };
        }
        self.state.notebooks = kept;
        self.state.last_modified = now_rfc3339();
        true
    }

    /// Increment the use count for a notebook and stamp its `last_used`.
    pub fn increment_use_count(&mut self, id: &str) -> (r: Option<NotebookEntry>)
        requires
            has_id(old(self)@.notebooks, id@) ==> old(self)@.notebooks[first_index(old(self)@.notebooks, id@)].use_count < u64::MAX,
        ensures
            match r {
                Some(e) => {
                    let k = first_index(old(self)@.notebooks, id@);
                    &&& has_id(old(self)@.notebooks, id@)
                    &&& e@ == NotebookView {
                        use_count: (old(self)@.notebooks[k].use_count + 1) as u64,
                        last_used: e@.last_used,
                        ..old(self)@.notebooks[k]
                    }
                    &&& final(self)@.notebooks == old(self)@.notebooks.update(k, e@)
                    &&& final(self)@.active_notebook_id == old(self)@.active_notebook_id
                    &&& final(self)@.version == old(self)@.version
                },
                None => {
                    &&& !has_id(old(self)@.notebooks, id@)
                    &&& final(self)@ == old(self)@
                },
            },
    {
        match find_index(&self.state.notebooks, id) {
            None => None,
            Some(k) => {
                proof {
                    lemma_first_index(self@.notebooks, id@, k as int);
                }
                let ghost before = self.state.notebooks@;
                let mut nb = self.state.notebooks[k].duplicate();
                nb.use_count = nb.use_count + 1;
                nb.last_used = now_rfc3339();
                let copy = nb.duplicate();
                self.state.notebooks.set(k, nb);
                assert(entries(self.state.notebooks@) =~= entries(before).update(k as int, copy@));
                self.state.last_modified = now_rfc3339();
                Some(copy)
            },
        }
    }

    /// Library usage statistics.
    pub fn get_stats(&self) -> (r: LibraryStats)
        requires
            total_uses(self@.notebooks) <= u64::MAX,
        ensures
            r@.total_notebooks == self@.notebooks.len(),
            r@.active_notebook == self@.active_notebook_id,
            r@.total_queries == total_uses(self@.notebooks),
            r@.last_modified == self@.last_modified,
            stats_of(self@, r@.most_used_notebook),
    {
        let ghost es = self@.notebooks;
        let nbs = &self.state.notebooks;
        let mut total: u64 = 0;
        let mut best: Option<usize> = None;
        let mut i: usize = 0;
        while i < nbs.len()
            invariant
                es == entries(nbs@),
                total_uses(es) <= u64::MAX,
                i <= nbs.len(),
                total as nat == total_uses(es.subrange(0, i as int)),
                i == 0 <==> best.is_none(),
                best.is_some() ==> {
                    let b = best.unwrap() as int;
                    &&& 0 <= b < i
                    &&& forall|j: int| 0 <= j < i ==> #[trigger] es[j].use_count <= es[b].use_count
                    &&& forall|j: int| b < j < i ==> #[trigger] es[j].use_count < es[b].use_count
                },
            decreases nbs.len() - i,
        {
            let ghost pre = es.subrange(0, i as int);
            let ghost nxt = es.subrange(0, i + 1);
            assert(nxt.drop_last() =~= pre);
            assert(nxt.last() == es[i as int]);
            assert(es[i as int] == nbs@[i as int]@);
            proof {
                lemma_total_prefix(es, i + 1);
            }
            total = total + nbs[i].use_count;
            best = match best {
                None => Some(i),
                Some(b) => if nbs[i].use_count >= nbs[b].use_count {
                    Some(i)
                } else {
                    Some(b)
                },
            };
            i = i + 1;
        }
        assert(es.subrange(0, nbs.len() as int) =~= es);
        proof {
            if let Some(b) = best {
                assert(is_most_used(es, b as int));
                assert(es[b as int] == nbs@[b as int]@);
            }
        }
        let most_used = match best {
            Some(b) => Some(nbs[b].id.clone()),
            None => None,
        };
        LibraryStats {
            total_notebooks: nbs.len(),
            active_notebook: match &self.state.active_notebook_id {
                Some(a) => Some(a.clone()),
                None => None,
            },
            most_used_notebook: most_used,
            total_queries: total,
            last_modified: self.state.last_modified.clone(),
        }
    }

    /// Full-text search over name, description, topics and tags, ignoring case.
    pub fn search_notebooks(&self, query: &str) -> (r: Vec<NotebookEntry>)
        ensures
            entries(r@) == matching(self@.notebooks, spec_to_lowercase(query@)),
    {
        let q = lowercase(query);
        let ghost es = self@.notebooks;
        let nbs = &self.state.notebooks;
        let mut out: Vec<NotebookEntry> = Vec::new();
        let mut i: usize = 0;
        while i < nbs.len()
            invariant
                es == entries(nbs@),
                i <= nbs.len(),
                entries(out@) == matching(es.subrange(0, i as int), q@),
            decreases nbs.len() - i,
        {
            let ghost pre = es.subrange(0, i as int);
            let ghost nxt = es.subrange(0, i + 1);
            assert(nxt.drop_last() =~= pre);
            assert(nxt.last() == nbs@[i as int]@);
            if notebook_matches(&nbs[i], q.as_str()) {
                let ghost before = out@;
                let e = nbs[i].duplicate();
                out.push(e);
                assert(entries(out@) =~= entries(before).push(e@));
            }
            i = i + 1;
        }
        assert(es.subrange(0, nbs.len() as int) =~= es);
        out
    }
}

proof fn lemma_total_prefix(es: Seq<NotebookView>, k: int)
    requires
        0 <= k <= es.len(),
    ensures
        total_uses(es.subrange(0, k)) <= total_uses(es),
    decreases es.len(),
{
    if k < es.len() {
        lemma_total_prefix(es.drop_last(), k);
        assert(es.drop_last().subrange(0, k) =~= es.subrange(0, k));
    } else {
        assert(es.subrange(0, k) =~= es);
    }
}

fn any_item_hit(items: &Vec<String>, q: &str) -> (r: bool)
    ensures
        r == any_hit(strs(items@), q@),
{
    let mut i: usize = 0;
    while i < items.len()
        invariant
            i <= items.len(),
            forall|j: int| 0 <= j < i ==> !hit(#[trigger] strs(items@)[j], q@),
        decreases items.len() - i,
    {
        let l = lowercase(items[i].as_str());
        assert(strs(items@)[i as int] == items@[i as int]@);
        if contains(l.as_str(), q) {
            return true;
        }
        i = i + 1;
    }
    false
}

fn notebook_matches(nb: &NotebookEntry, q: &str) -> (r: bool)
    ensures
        r == matches_query(nb@, q@),
{
    let name = lowercase(nb.name.as_str());
    if contains(name.as_str(), q) {
        return true;
    }
    let desc = lowercase(nb.description.as_str());
    if contains(desc.as_str(), q) {
        return true;
    }
    if any_item_hit(&nb.topics, q) {
        return true;
    }
    match &nb.tags {
        Some(t) => any_item_hit(t, q),
        None => {
            assert(!any_hit(Seq::<Seq<char>>::empty(), q@));
            false
        },
    }
}

/// The library that `create_default_library` builds: empty, or with the one
/// configured notebook active.
pub open spec fn default_library_view(
    url: Seq<char>,
    description: Seq<char>,
    topics: Seq<Seq<char>>,
    content_types: Seq<Seq<char>>,
    use_cases: Seq<Seq<char>>,
    lib: LibraryView,
) -> bool {
    let has_config = url.len() > 0 && description.len() > 0 && description != "General knowledge base"@;
    &&& lib.version == "1.0.0"@
    &&& !has_config ==> lib.notebooks.len() == 0 && lib.active_notebook_id.is_none()
    &&& has_config ==> {
        &&& lib.notebooks.len() == 1
        &&& lib.notebooks[0].id == id_base(description)
        &&& lib.active_notebook_id == Some(lib.notebooks[0].id)
        &&& lib.notebooks[0].url == url
        &&& lib.notebooks[0].name == (if description.len() <= 50 { description } else { description.subrange(0, 50) })
        &&& lib.notebooks[0].description == description
        &&& lib.notebooks[0].topics == topics
        &&& lib.notebooks[0].content_types == content_types
        &&& lib.notebooks[0].use_cases == use_cases
        &&& lib.notebooks[0].added_at == lib.notebooks[0].last_used
        &&& lib.notebooks[0].use_count == 0
        &&& lib.notebooks[0].tags == Some(Seq::<Seq<char>>::empty())
    }
}

} // verus!
