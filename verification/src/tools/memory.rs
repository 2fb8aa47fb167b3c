//! The persistent memory store: entries with ids, types and timestamps, and
//! the operations that the memory tools perform on it.

use vstd::prelude::*;
use crate::text::{
    chars_of, contains, occurs_at, push_char, contains_chars, decimal, join, join_strings, folded, all_ascii, ascii_lowercase, ascii_uppercase, push_decimal,
    str_eq, to_lowercase, trim, trim_str, views,
};

verus! {

/// One remembered item.
#[derive(Clone, Debug)]
pub struct MemoryEntry {
    pub id: u64,
    pub content: String,
    pub memory_type: String,
    pub importance: String,
    pub timestamp: String,
}

/// The mathematical value of a [`MemoryEntry`].
pub struct EntryView {
    pub id: u64,
    pub content: Seq<char>,
    pub memory_type: Seq<char>,
    pub importance: Seq<char>,
    pub timestamp: Seq<char>,
}

impl View for MemoryEntry {
    type V = EntryView;

    open spec fn view(&self) -> EntryView {
        EntryView {
            id: self.id,
            content: self.content@,
            memory_type: self.memory_type@,
            importance: self.importance@,
            timestamp: self.timestamp@,
        }
    }
}

/// The whole memory database as it is kept on disk.
#[derive(Debug)]
pub struct MemoryStore {
    pub entries: Vec<MemoryEntry>,
    pub next_id: u64,
    pub last_updated: String,
}

/// The mathematical value of a [`MemoryStore`].
pub struct StoreView {
    pub entries: Seq<EntryView>,
    pub next_id: u64,
    pub last_updated: Seq<char>,
}

/// The views of a sequence of entries.
pub open spec fn entry_views(entries: Seq<MemoryEntry>) -> Seq<EntryView> {
    entries.map_values(|e: MemoryEntry| e@)
}

impl View for MemoryStore {
    type V = StoreView;

    open spec fn view(&self) -> StoreView {
        StoreView {
            entries: entry_views(self.entries@),
            next_id: self.next_id,
            last_updated: self.last_updated@,
        }
    }
}

/// An empty store, as made when no saved store can be read.
pub open spec fn fresh_store(now: Seq<char>) -> StoreView {
    StoreView { entries: seq![], next_id: 1, last_updated: now }
}

/// Every id is below `next_id` and no two entries share an id.
pub open spec fn ids_fresh(s: StoreView) -> bool {
    &&& forall|i: int| 0 <= i < s.entries.len() ==> #[trigger] s.entries[i].id < s.next_id
    &&& forall|i: int, j: int|
        0 <= i < s.entries.len() && 0 <= j < s.entries.len() && i != j
            ==> #[trigger] s.entries[i].id != #[trigger] s.entries[j].id
}

/// `dir.join(name)` for a relative `name`: a separator is inserted unless
/// `dir` is empty or already ends with one.
pub open spec fn join_path(dir: Seq<char>, name: Seq<char>) -> Seq<char> {
    if dir.len() == 0 {
        name
    } else if dir.last() == '/' {
        dir + name
    } else {
        dir + seq!['/'] + name
    }
}

/// The line that lists one entry in the memory dump.
pub open spec fn content_line(e: EntryView) -> Seq<char> {
    "- "@ + e.content + " (type: "@ + e.memory_type + ", time: "@ + e.timestamp + ")"@
}

/// All memory content, as placed in the system prompt.
pub open spec fn memory_dump(entries: Seq<EntryView>) -> Seq<char> {
    if entries.len() == 0 {
        "No memory content yet."@
    } else {
        "# Memory Store\n\n"@ + join(entries.map_values(|e: EntryView| content_line(e)), "\n"@)
    }
}

/// Whether an entry matches a search query: its content contains the query,
/// both taken in lowercase as `str::to_lowercase` gives it.
pub open spec fn matches_query(e: EntryView, query: Seq<char>) -> bool {
    contains(folded(e.content), folded(query))
}

/// The entries that match `query`, in store order.
pub open spec fn search_hits(entries: Seq<EntryView>, query: Seq<char>) -> Seq<EntryView>
    decreases entries.len(),
{
    if entries.len() == 0 {
        seq![]
    } else {
        let rest = search_hits(entries.drop_last(), query);
        if matches_query(entries.last(), query) {
            rest.push(entries.last())
        } else {
            rest
        }
    }
}

/// The line for the `i`-th (from zero) search hit.
pub open spec fn hit_line(i: int, e: EntryView) -> Seq<char> {
    decimal((i + 1) as nat) + ". ["@ + e.memory_type + "] "@ + e.content + " (time: "@
        + e.timestamp + ")"@
}

/// The lines of all search hits, numbered from one.
pub open spec fn hit_lines(hits: Seq<EntryView>) -> Seq<Seq<char>> {
    Seq::new(hits.len(), |i: int| hit_line(i, hits[i]))
}

/// The answer to a memory search.
pub open spec fn search_report(entries: Seq<EntryView>, query: Seq<char>) -> Seq<char> {
    let hits = search_hits(entries, query);
    if hits.len() == 0 {
        "No matching memory found."@
    } else {
        "Found "@ + decimal(hits.len()) + " matching memories:\n\n"@ + join(hit_lines(hits), "\n"@)
    }
}

proof fn lemma_same_lowercase_same_hits(entries: Seq<EntryView>, q1: Seq<char>, q2: Seq<char>)
    requires
        folded(q1) == folded(q2),
    ensures
        search_hits(entries, q1) == search_hits(entries, q2),
    decreases entries.len(),
{
    if entries.len() > 0 {
        lemma_same_lowercase_same_hits(entries.drop_last(), q1, q2);
    }
}

/// Search ignores case: queries with the same lowercase form give the
/// same answer.
pub proof fn law_search_ignores_case(entries: Seq<EntryView>, q1: Seq<char>, q2: Seq<char>)
    requires
        folded(q1) == folded(q2),
    ensures
        search_report(entries, q1) == search_report(entries, q2),
{
    lemma_same_lowercase_same_hits(entries, q1, q2);
}

proof fn lemma_contains_transitive(a: Seq<char>, b: Seq<char>, c: Seq<char>)
    requires
        contains(a, b),
        contains(b, c),
    ensures
        contains(a, c),
{
    let i = choose|i: int| occurs_at(a, b, i);
    let j = choose|j: int| occurs_at(b, c, j);
    assert(a.subrange(i + j, i + j + c.len()) =~= b.subrange(j, j + c.len()));
    assert(occurs_at(a, c, i + j));
}

/// A narrower query finds a selection of what a wider one finds: when the
/// lowercase wide query occurs in the lowercase narrow one, the hits of the
/// narrow query are the hits of the wide one filtered again.
pub proof fn law_narrower_query_finds_fewer(entries: Seq<EntryView>, wide: Seq<char>, narrow: Seq<char>)
    requires
        contains(folded(narrow), folded(wide)),
    ensures
        search_hits(entries, narrow) == search_hits(search_hits(entries, wide), narrow),
    decreases entries.len(),
{
    if entries.len() > 0 {
        let rest = entries.drop_last();
        let e = entries.last();
        law_narrower_query_finds_fewer(rest, wide, narrow);
        if matches_query(e, narrow) {
            lemma_contains_transitive(folded(e.content), folded(narrow), folded(wide));
            let w = search_hits(rest, wide).push(e);
            assert(w.drop_last() =~= search_hits(rest, wide));
        } else if matches_query(e, wide) {
            let w = search_hits(rest, wide).push(e);
            assert(w.drop_last() =~= search_hits(rest, wide));
        }
    }
}

proof fn lemma_blank_query_finds_all(entries: Seq<EntryView>, query: Seq<char>)
    requires
        folded(query).len() == 0,
    ensures
        search_hits(entries, query) == entries,
    decreases entries.len(),
{
    if entries.len() > 0 {
        lemma_blank_query_finds_all(entries.drop_last(), query);
        assert(folded(entries.last().content).subrange(0, 0) =~= folded(query));
        assert(occurs_at(folded(entries.last().content), folded(query), 0));
        assert(entries.drop_last().push(entries.last()) =~= entries);
    }
}

/// The empty query finds every entry.
pub proof fn law_empty_query_finds_all(entries: Seq<EntryView>)
    ensures
        search_hits(entries, Seq::<char>::empty()) == entries,
{
    assert(folded(Seq::<char>::empty()) =~= Seq::<char>::empty());
    lemma_blank_query_finds_all(entries, Seq::<char>::empty());
}

proof fn lemma_ascii_case_forms(q: Seq<char>)
    requires
        all_ascii(q),
    ensures
        all_ascii(ascii_uppercase(q)),
        all_ascii(ascii_lowercase(q)),
        folded(ascii_uppercase(q)) == folded(q),
        folded(ascii_lowercase(q)) == folded(q),
{
    let up = ascii_uppercase(q);
    let low = ascii_lowercase(q);
    assert forall|i: int| 0 <= i < up.len() implies (#[trigger] up[i] as u32) < 128 by {
        assert((q[i] as u32) < 128);
    }
    assert forall|i: int| 0 <= i < low.len() implies (#[trigger] low[i] as u32) < 128 by {
        assert((q[i] as u32) < 128);
    }
    assert(ascii_lowercase(up) =~= ascii_lowercase(q));
    assert(ascii_lowercase(low) =~= ascii_lowercase(q));
}

/// Search ignores the case of ASCII letters: an ASCII query, its upper-case
/// form and its lower-case form give the same answer.
pub proof fn law_search_ignores_ascii_case(entries: Seq<EntryView>, query: Seq<char>)
    requires
        all_ascii(query),
    ensures
        search_report(entries, ascii_uppercase(query)) == search_report(entries, query),
        search_report(entries, ascii_lowercase(query)) == search_report(entries, query),
{
    lemma_ascii_case_forms(query);
    lemma_same_lowercase_same_hits(entries, ascii_uppercase(query), query);
    lemma_same_lowercase_same_hits(entries, ascii_lowercase(query), query);
}

/// The memory types that occur in `entries`, each once, in order of first occurrence.
pub open spec fn distinct_types(entries: Seq<EntryView>) -> Seq<Seq<char>>
    decreases entries.len(),
{
    if entries.len() == 0 {
        seq![]
    } else {
        let rest = distinct_types(entries.drop_last());
        if rest.contains(entries.last().memory_type) {
            rest
        } else {
            rest.push(entries.last().memory_type)
        }
    }
}

/// How many entries have memory type `t`.
pub open spec fn count_of_type(entries: Seq<EntryView>, t: Seq<char>) -> nat
    decreases entries.len(),
{
    if entries.len() == 0 {
        0
    } else {
        count_of_type(entries.drop_last(), t) + if entries.last().memory_type == t {
            1nat
        } else {
            0nat
        }
    }
}

/// The statistics line of one memory type.
pub open spec fn type_line(entries: Seq<EntryView>, t: Seq<char>) -> Seq<char> {
    "  "@ + t + ": "@ + decimal(count_of_type(entries, t))
}

/// The memory statistics report.
pub open spec fn stats_report(s: StoreView) -> Seq<char> {
    "Memory Statistics:\n- Total entries: "@ + decimal(s.entries.len()) + "\n- Last updated: "@
        + s.last_updated + "\n- Types:\n"@ + join(
        distinct_types(s.entries).map_values(|t: Seq<char>| type_line(s.entries, t)),
        "\n"@,
    )
}

/// The entries whose type differs from `t`, in store order.
pub open spec fn without_type(entries: Seq<EntryView>, t: Seq<char>) -> Seq<EntryView>
    decreases entries.len(),
{
    if entries.len() == 0 {
        seq![]
    } else {
        let rest = without_type(entries.drop_last(), t);
        if entries.last().memory_type != t {
            rest.push(entries.last())
        } else {
            rest
        }
    }
}

/// The current time in RFC 3339 form: the system clock's distance from the
/// Unix epoch (`SystemTime::duration_since`), made a UTC time by
/// `chrono::DateTime::from_timestamp` and written by `to_rfc3339`.  `None`
/// when the clock reads before the epoch or beyond what chrono represents.
/// It reads the clock, so nothing is claimed of the result.
#[verifier::external_body]
fn current_timestamp() -> Option<String> {
    let since = std::time::SystemTime::now().duration_since(std::time::UNIX_EPOCH).ok()?;
    let secs = i64::try_from(since.as_secs()).ok()?;
    chrono::DateTime::from_timestamp(secs, since.subsec_nanos()).map(|t| t.to_rfc3339())
}

/// The current time in RFC 3339 form, or the start of the Unix epoch
/// (`1970-01-01T00:00:00+00:00`) when the clock cannot be read.
pub fn clock_stamp() -> String {
    match current_timestamp() {
        Some(t) => t,
        None => "1970-01-01T00:00:00+00:00".to_owned(),
    }
}

impl MemoryEntry {
    /// A field-by-field copy.
    pub fn duplicate(&self) -> (r: MemoryEntry)
        ensures
            r@ == self@,
    {
        MemoryEntry {
            id: self.id,
            content: self.content.clone(),
            memory_type: self.memory_type.clone(),
            importance: self.importance.clone(),
            timestamp: self.timestamp.clone(),
        }
    }
}

impl MemoryStore {
    /// An empty store whose ids start at one.
    pub fn fresh(now: String) -> (s: MemoryStore)
        ensures
            s@ == fresh_store(now@),
    {
        let s = MemoryStore { entries: Vec::new(), next_id: 1, last_updated: now };
        assert(s@.entries =~= seq![]);
        s
    }
}


/// The memory database together with the file it is kept in.  The file is
/// read and written by the caller; this type holds the loaded store.
pub struct MemoryManager {
    file_path: String,
    store: MemoryStore,
}

/// The mathematical value of a [`MemoryManager`].
pub struct ManagerView {
    pub file_path: Seq<char>,
    pub store: StoreView,
}

impl View for MemoryManager {
    type V = ManagerView;

    closed spec fn view(&self) -> ManagerView {
        ManagerView { file_path: self.file_path@, store: self.store@ }
    }
}

/// The content of the first context entry.
pub open spec fn system_context_content(system_info: Seq<char>) -> Seq<char> {
    "System Context: "@ + system_info
}

/// The content of the preferences entry.
pub open spec fn preferences_content() -> Seq<char> {
    "User Preferences: Language - Mixed (English/Chinese), Tone - Helpful and concise"@
}

/// The store after the first-run initialisation: the two context entries
/// are added to an empty store, and nothing changes otherwise.
pub open spec fn initialized_store(s: StoreView, system_info: Seq<char>, now: Seq<char>) -> StoreView {
    if s.entries.len() == 0 {
        StoreView {
            entries: seq![
                EntryView {
                    id: s.next_id,
                    content: system_context_content(system_info),
                    memory_type: "system_context"@,
                    importance: "high"@,
                    timestamp: now,
                },
                EntryView {
                    id: (s.next_id + 1) as u64,
                    content: preferences_content(),
                    memory_type: "user_preferences"@,
                    importance: "medium"@,
                    timestamp: now,
                },
            ],
            next_id: (s.next_id + 2) as u64,
            last_updated: now,
        }
    } else {
        s
    }
}

/// The store after adding one entry.
pub open spec fn store_with_entry(
    s: StoreView,
    content: Seq<char>,
    memory_type: Seq<char>,
    importance: Seq<char>,
    now: Seq<char>,
) -> StoreView {
    StoreView {
        entries: s.entries.push(
            EntryView {
                id: s.next_id,
                content: content,
                memory_type: memory_type,
                importance: importance,
                timestamp: now,
            },
        ),
        next_id: (s.next_id + 1) as u64,
        last_updated: now,
    }
}

/// Whether a clear request carries the confirmation word.
pub open spec fn is_confirmation(confirm: Seq<char>) -> bool {
    folded(trim(confirm)) == "confirm"@
}

/// The confirmation word: a blank answer never confirms, and on ASCII text
/// the word is `confirm` in any mix of cases, with surrounding whitespace.
pub proof fn law_confirmation_word(confirm: Seq<char>)
    ensures
        trim(confirm).len() == 0 ==> !is_confirmation(confirm),
        all_ascii(trim(confirm)) ==> (is_confirmation(confirm) <==> ascii_lowercase(trim(confirm))
            == "confirm"@),
{
    reveal_strlit("confirm");
    if trim(confirm).len() == 0 {
        assert(folded(trim(confirm)) =~= Seq::<char>::empty());
    }
}

/// The answer to a deletion by type.
pub open spec fn deletion_report(deleted: nat, memory_type: Seq<char>) -> Seq<char> {
    "Deleted "@ + decimal(deleted) + " entries of type '"@ + memory_type + "'."@
}

fn render_content_line(e: &MemoryEntry) -> (r: String)
    ensures
        r@ == content_line(e@),
{
    let mut r = "- ".to_owned();
    r.append(e.content.as_str());
    r.append(" (type: ");
    r.append(e.memory_type.as_str());
    r.append(", time: ");
    r.append(e.timestamp.as_str());
    r.append(")");
    r
}

fn render_hit_line(i: u64, e: &MemoryEntry) -> (r: String)
    requires
        i < u64::MAX,
    ensures
        r@ == hit_line(i as int, e@),
{
    let mut r = String::new();
    push_decimal(&mut r, i + 1);
    r.append(". [");
    r.append(e.memory_type.as_str());
    r.append("] ");
    r.append(e.content.as_str());
    r.append(" (time: ");
    r.append(e.timestamp.as_str());
    r.append(")");
    assert(r@ =~= hit_line(i as int, e@));
    r
}

fn render_type_line(t: &String, count: usize) -> (r: String)
    ensures
        r@ == "  "@ + t@ + ": "@ + decimal(count as nat),
{
    let mut r = "  ".to_owned();
    r.append(t.as_str());
    r.append(": ");
    push_decimal(&mut r, count as u64);
    r
}

/// Position of `t` in `types`, if it is there.
fn find_type(types: &Vec<String>, t: &String) -> (r: Option<usize>)
    ensures
        match r {
            Some(k) => k < types.len() && types@[k as int]@ == t@,
            None => !views(types@).contains(t@),
        },
{
    let mut k: usize = 0;
    while k < types.len()
        invariant
            k <= types.len(),
            forall|j: int| 0 <= j < k ==> types@[j]@ != t@,
        decreases types.len() - k,
    {
        if str_eq(types[k].as_str(), t.as_str()) {
            return Some(k);
        }
        k = k + 1;
    }
    proof {
        if views(types@).contains(t@) {
            let j = choose|j: int| 0 <= j < views(types@).len() && views(types@)[j] == t@;
            assert(types@[j]@ == t@);
        }
    }
    None
}

proof fn lemma_count_bounded(entries: Seq<EntryView>, t: Seq<char>)
    ensures
        count_of_type(entries, t) <= entries.len(),
    decreases entries.len(),
{
    if entries.len() > 0 {
        lemma_count_bounded(entries.drop_last(), t);
    }
}

proof fn lemma_distinct_types_no_duplicates(entries: Seq<EntryView>)
    ensures
        distinct_types(entries).no_duplicates(),
    decreases entries.len(),
{
    if entries.len() > 0 {
        lemma_distinct_types_no_duplicates(entries.drop_last());
        let rest = distinct_types(entries.drop_last());
        let t = entries.last().memory_type;
        if !rest.contains(t) {
            let ext = rest.push(t);
            assert forall|i: int, j: int| 0 <= i < ext.len() && 0 <= j < ext.len() && i != j
                implies ext[i] != ext[j] by {
                if i == rest.len() {
                    assert(ext[j] == rest[j]);
                } else if j == rest.len() {
                    assert(ext[i] == rest[i]);
                }
            }
        }
    }
}

proof fn lemma_distinct_types_complete(entries: Seq<EntryView>, t: Seq<char>)
    ensures
        count_of_type(entries, t) > 0 <==> distinct_types(entries).contains(t),
    decreases entries.len(),
{
    if entries.len() > 0 {
        lemma_distinct_types_complete(entries.drop_last(), t);
        let rest = distinct_types(entries.drop_last());
        if !rest.contains(entries.last().memory_type) {
            assert(rest.push(entries.last().memory_type).last() == entries.last().memory_type);
            if rest.contains(t) {
                let j = choose|j: int| 0 <= j < rest.len() && rest[j] == t;
                assert(rest.push(entries.last().memory_type)[j] == t);
            }
            if rest.push(entries.last().memory_type).contains(t) && t != entries.last().memory_type {
                let j = choose|j: int|
                    0 <= j < rest.len() + 1 && rest.push(entries.last().memory_type)[j] == t;
                assert(rest[j] == t);
            }
        }
    }
}

impl MemoryManager {
    /// A manager for the store kept in `memory.json` under `data_dir`,
    /// holding an empty store until one is loaded.
    pub fn new(data_dir: &str) -> (m: MemoryManager)
        ensures
            m@.file_path == join_path(data_dir@, "memory.json"@),
            m@.store == fresh_store(m@.store.last_updated),
    {
        let chars = chars_of(data_dir);
        let mut file_path = data_dir.to_owned();
        if chars.len() > 0 && chars[chars.len() - 1] != '/' {
            push_char(&mut file_path, '/');
        }
        file_path.append("memory.json");
        proof {
            if data_dir@.len() > 0 {
                assert(data_dir@.last() == chars@[chars@.len() - 1]);
            }
            assert(file_path@ =~= join_path(data_dir@, "memory.json"@));
        }
        MemoryManager { file_path, store: MemoryStore::fresh(clock_stamp()) }
    }

    /// The file the store is kept in.
    pub fn file_path(&self) -> (r: &String)
        ensures
            r@ == self@.file_path,
    {
        &self.file_path
    }

    /// The store currently held.
    pub fn store(&self) -> (r: &MemoryStore)
        ensures
            r@ == self@.store,
    {
        &self.store
    }

    /// Takes the store read from the file, or an empty one dated `now` when
    /// none could be read.
    pub fn restore_at(&mut self, loaded: Option<MemoryStore>, now: String)
        ensures
            final(self)@.file_path == old(self)@.file_path,
            final(self)@.store == match loaded {
                Some(s) => s@,
                None => fresh_store(now@),
            },
    {
        self.store = match loaded {
            Some(s) => s,
            None => MemoryStore::fresh(now),
        };
    }

    /// [`MemoryManager::restore_at`] dated with the current time.
    pub fn restore(&mut self, loaded: Option<MemoryStore>)
        ensures
            final(self)@.file_path == old(self)@.file_path,
            loaded is Some ==> final(self)@.store == loaded->0@,
            loaded is None ==> final(self)@.store == fresh_store(final(self)@.store.last_updated),
    {
        self.restore_at(loaded, clock_stamp());
    }

    /// Adds the system-context and preference entries to an empty store,
    /// dated `now`; returns whether the store changed (and must be saved).
    pub fn ensure_initialized_at(&mut self, system_info: &str, now: String) -> (changed: bool)
        requires
            old(self)@.store.entries.len() == 0 ==> old(self)@.store.next_id < u64::MAX - 1,
        ensures
            changed == (old(self)@.store.entries.len() == 0),
            final(self)@.file_path == old(self)@.file_path,
            final(self)@.store == initialized_store(old(self)@.store, system_info@, now@),
    {
        if self.store.entries.len() != 0 {
            return false;
        }
        let ghost before = self.store@;
        let mut context = "System Context: ".to_owned();
        context.append(system_info);
        let first = MemoryEntry {
            id: self.store.next_id,
            content: context,
            memory_type: "system_context".to_owned(),
            importance: "high".to_owned(),
            timestamp: now.clone(),
        };
        self.store.entries.push(first);
        self.store.next_id = self.store.next_id + 1;
        let second = MemoryEntry {
            id: self.store.next_id,
            content: "User Preferences: Language - Mixed (English/Chinese), Tone - Helpful and concise".to_owned(),
            memory_type: "user_preferences".to_owned(),
            importance: "medium".to_owned(),
            timestamp: now.clone(),
        };
        self.store.entries.push(second);
        self.store.next_id = self.store.next_id + 1;
        self.store.last_updated = now;
        assert(self.store@.entries =~= initialized_store(before, system_info@, now@).entries);
        true
    }

    /// [`MemoryManager::ensure_initialized_at`] dated with the current time.
    pub fn ensure_initialized(&mut self, system_info: &str) -> (changed: bool)
        requires
            old(self)@.store.entries.len() == 0 ==> old(self)@.store.next_id < u64::MAX - 1,
        ensures
            changed == (old(self)@.store.entries.len() == 0),
            final(self)@.file_path == old(self)@.file_path,
            !changed ==> final(self)@.store == old(self)@.store,
            final(self)@.store == initialized_store(
                old(self)@.store,
                system_info@,
                final(self)@.store.last_updated,
            ),
    {
        self.ensure_initialized_at(system_info, clock_stamp())
    }

    /// All memory content as one text.
    pub fn get_all_memory_content(&self) -> (r: String)
        ensures
            r@ == memory_dump(self@.store.entries),
    {
        let entries = &self.store.entries;
        if entries.len() == 0 {
            return "No memory content yet.".to_owned();
        }
        let ghost target = self@.store.entries.map_values(|e: EntryView| content_line(e));
        let mut lines: Vec<String> = Vec::new();
        let mut i: usize = 0;
        while i < entries.len()
            invariant
                i <= entries.len(),
                entries@ == self.store.entries@,
                target == self@.store.entries.map_values(|e: EntryView| content_line(e)),
                views(lines@) == target.take(i as int),
            decreases entries.len() - i,
        {
            let line = render_content_line(&entries[i]);
            let ghost before = lines@;
            lines.push(line);
            proof {
                assert(self@.store.entries[i as int] == entries@[i as int]@);
                assert(target[i as int] == content_line(entries@[i as int]@));
                assert(views(lines@) =~= views(before).push(line@));
                assert(target.take(i + 1) =~= target.take(i as int).push(target[i as int]));
            }
            i = i + 1;
        }
        assert(target.take(entries.len() as int) =~= target);
        let mut r = "# Memory Store\n\n".to_owned();
        let body = join_strings(&lines, "\n");
        r.append(body.as_str());
        r
    }

    /// Adds an entry dated `now` and reports success.
    pub fn add_memory_at(&mut self, content: &str, memory_type: &str, importance: &str, now: String) -> (r: String)
        requires
            old(self)@.store.next_id < u64::MAX,
        ensures
            final(self)@.file_path == old(self)@.file_path,
            final(self)@.store == store_with_entry(old(self)@.store, content@, memory_type@, importance@, now@),
            r@ == "Memory saved successfully."@,
    {
        let entry = MemoryEntry {
            id: self.store.next_id,
            content: content.to_owned(),
            memory_type: memory_type.to_owned(),
            importance: importance.to_owned(),
            timestamp: now.clone(),
        };
        let ghost before = self.store@;
        self.store.entries.push(entry);
        self.store.next_id = self.store.next_id + 1;
        self.store.last_updated = now;
        assert(self.store@.entries =~= store_with_entry(before, content@, memory_type@, importance@, now@).entries);
        "Memory saved successfully.".to_owned()
    }

    /// [`MemoryManager::add_memory_at`] dated with the current time.
    pub fn add_memory(&mut self, content: &str, memory_type: &str, importance: &str) -> (r: String)
        requires
            old(self)@.store.next_id < u64::MAX,
        ensures
            final(self)@.file_path == old(self)@.file_path,
            final(self)@.store == store_with_entry(
                old(self)@.store,
                content@,
                memory_type@,
                importance@,
                final(self)@.store.last_updated,
            ),
            r@ == "Memory saved successfully."@,
    {
        self.add_memory_at(content, memory_type, importance, clock_stamp())
    }

    /// Searches the entries whose content contains `query`, ignoring case.
    pub fn search_memory(&self, query: &str) -> (r: String)
        ensures
            r@ == search_report(self@.store.entries, query@),
    {
        let entries = &self.store.entries;
        let ghost all = self@.store.entries;
        let lowered = to_lowercase(query);
        let needle = chars_of(lowered.as_str());
        let mut lines: Vec<String> = Vec::new();
        let mut i: usize = 0;
        while i < entries.len()
            invariant
                i <= entries.len(),
                all == entry_views(entries@),
                needle@ == folded(query@),
                views(lines@) == hit_lines(search_hits(all.take(i as int), query@)),
                lines.len() == search_hits(all.take(i as int), query@).len(),
                lines.len() <= i,
            decreases entries.len() - i,
        {
            let e = &entries[i];
            let lc = to_lowercase(e.content.as_str());
            let hay = chars_of(lc.as_str());
            let ghost prev = search_hits(all.take(i as int), query@);
            assert(all.take(i + 1).drop_last() =~= all.take(i as int));
            assert(all.take(i + 1).last() == e@);
            if contains_chars(&hay, &needle) {
                let line = render_hit_line(lines.len() as u64, e);
                let ghost before = lines@;
                lines.push(line);
                proof {
                    assert(search_hits(all.take(i + 1), query@) == prev.push(e@));
                    assert(views(lines@) =~= views(before).push(line@));
                    assert(hit_lines(prev.push(e@)) =~= hit_lines(prev).push(hit_line(prev.len() as int, e@)));
                }
            }
            i = i + 1;
        }
        assert(all.take(entries.len() as int) =~= all);
        if lines.len() == 0 {
            return "No matching memory found.".to_owned();
        }
        let mut r = "Found ".to_owned();
        push_decimal(&mut r, lines.len() as u64);
        r.append(" matching memories:\n\n");
        let body = join_strings(&lines, "\n");
        r.append(body.as_str());
        r
    }

    /// Statistics: the number of entries, the last update, and the number
    /// of entries of each type in order of first occurrence.
    pub fn get_stats(&self) -> (r: String)
        ensures
            r@ == stats_report(self@.store),
    {
        let entries = &self.store.entries;
        let ghost all = self@.store.entries;
        let mut types: Vec<String> = Vec::new();
        let mut counts: Vec<usize> = Vec::new();
        let mut i: usize = 0;
        while i < entries.len()
            invariant
                i <= entries.len(),
                all == entry_views(entries@),
                views(types@) == distinct_types(all.take(i as int)),
                counts.len() == types.len(),
                forall|k: int|
                    0 <= k < counts.len() ==> #[trigger] counts@[k] == count_of_type(
                        all.take(i as int),
                        types@[k]@,
                    ),
            decreases entries.len() - i,
        {
            let e = &entries[i];
            let ghost prefix = all.take(i as int);
            let ghost next = all.take(i + 1);
            assert(next.drop_last() =~= prefix);
            assert(next.last() == e@);
            proof {
                lemma_count_bounded(prefix, e@.memory_type);
            }
            proof {
                lemma_distinct_types_no_duplicates(prefix);
                lemma_distinct_types_complete(prefix, e@.memory_type);
            }
            let ghost old_types = types@;
            let ghost old_counts = counts@;
            match find_type(&types, &e.memory_type) {
                Some(k) => {
                    assert(views(types@)[k as int] == e@.memory_type);
                    assert(views(types@).contains(e@.memory_type));
                    let c = counts[k];
                    counts.set(k, c + 1);
                    assert forall|j: int| 0 <= j < counts.len() implies #[trigger] counts@[j]
                        == count_of_type(next, types@[j]@) by {
                        assert(views(types@)[j] == types@[j]@);
                        if j != k {
                            assert(views(types@)[j] != views(types@)[k as int]);
                        }
                    }
                },
                None => {
                    types.push(e.memory_type.clone());
                    counts.push(1);
                    assert(views(types@) =~= distinct_types(prefix).push(e@.memory_type));
                    assert forall|j: int| 0 <= j < counts.len() implies #[trigger] counts@[j]
                        == count_of_type(next, types@[j]@) by {
                        assert(views(types@)[j] == types@[j]@);
                        if j < old_types.len() {
                            assert(views(old_types)[j] == old_types[j]@);
                            assert(views(old_types).contains(old_types[j]@));
                        }
                    }
                },
            }
            i = i + 1;
        }
        assert(all.take(entries.len() as int) =~= all);
        let mut lines: Vec<String> = Vec::new();
        let ghost target = distinct_types(all).map_values(|t: Seq<char>| type_line(all, t));
        let mut k: usize = 0;
        while k < types.len()
            invariant
                k <= types.len(),
                counts.len() == types.len(),
                views(types@) == distinct_types(all),
                forall|j: int| 0 <= j < counts.len() ==> #[trigger] counts@[j] == count_of_type(all, types@[j]@),
                target == distinct_types(all).map_values(|t: Seq<char>| type_line(all, t)),
                views(lines@) == target.take(k as int),
            decreases types.len() - k,
        {
            assert(views(types@)[k as int] == types@[k as int]@);
            let line = render_type_line(&types[k], counts[k]);
            let ghost before = lines@;
            lines.push(line);
            proof {
                assert(views(lines@) =~= views(before).push(line@));
                assert(target[k as int] == type_line(all, types@[k as int]@));
                assert(target.take(k + 1) =~= target.take(k as int).push(target[k as int]));
            }
            k = k + 1;
        }
        assert(target.take(types.len() as int) =~= target);
        let mut r = "Memory Statistics:\n- Total entries: ".to_owned();
        push_decimal(&mut r, entries.len() as u64);
        r.append("\n- Last updated: ");
        r.append(self.store.last_updated.as_str());
        r.append("\n- Types:\n");
        let body = join_strings(&lines, "\n");
        r.append(body.as_str());
        r
    }

    /// Empties the store, dated `now`, when `confirm` is the confirmation
    /// word; otherwise asks for it and changes nothing.
    pub fn clear_memory_at(&mut self, confirm: &str, now: String) -> (r: String)
        ensures
            final(self)@.file_path == old(self)@.file_path,
            is_confirmation(confirm@) ==> final(self)@.store == fresh_store(now@)
                && r@ == "All memories cleared."@,
            !is_confirmation(confirm@) ==> final(self)@.store == old(self)@.store
                && r@ == "Please input 'confirm' to clear all memories."@,
    {
        if !confirms_clear(confirm) {
            return "Please input 'confirm' to clear all memories.".to_owned();
        }
        self.store = MemoryStore::fresh(now);
        "All memories cleared.".to_owned()
    }

    /// [`MemoryManager::clear_memory_at`] dated with the current time.
    pub fn clear_memory(&mut self, confirm: &str) -> (r: String)
        ensures
            final(self)@.file_path == old(self)@.file_path,
            is_confirmation(confirm@) ==> final(self)@.store == fresh_store(final(self)@.store.last_updated)
                && r@ == "All memories cleared."@,
            !is_confirmation(confirm@) ==> final(self)@.store == old(self)@.store
                && r@ == "Please input 'confirm' to clear all memories."@,
    {
        self.clear_memory_at(confirm, clock_stamp())
    }

    /// Deletes every entry whose type is `memory_type` (trimmed), dated `now`,
    /// and reports how many went.
    pub fn delete_by_type_at(&mut self, memory_type: &str, now: String) -> (r: String)
        ensures
            final(self)@.file_path == old(self)@.file_path,
            final(self)@.store.entries == without_type(old(self)@.store.entries, trim(memory_type@)),
            final(self)@.store.next_id == old(self)@.store.next_id,
            final(self)@.store.last_updated == now@,
            r@ == deletion_report(
                (old(self)@.store.entries.len() - final(self)@.store.entries.len()) as nat,
                memory_type@,
            ),
    {
        let target = trim_str(memory_type);
        let entries = &self.store.entries;
        let ghost all = self@.store.entries;
        let mut kept: Vec<MemoryEntry> = Vec::new();
        let mut i: usize = 0;
        while i < entries.len()
            invariant
                i <= entries.len(),
                all == entry_views(entries@),
                target@ == trim(memory_type@),
                entry_views(kept@) == without_type(all.take(i as int), target@),
                kept.len() <= i,
            decreases entries.len() - i,
        {
            let e = &entries[i];
            assert(all.take(i + 1).drop_last() =~= all.take(i as int));
            assert(all.take(i + 1).last() == e@);
            if !str_eq(e.memory_type.as_str(), target.as_str()) {
                kept.push(e.duplicate());
                assert(entry_views(kept@) =~= without_type(all.take(i as int), target@).push(e@));
            }
            i = i + 1;
        }
        assert(all.take(entries.len() as int) =~= all);
        let before = entries.len();
        let after = kept.len();
        self.store.entries = kept;
        self.store.last_updated = now;
        let mut r = "Deleted ".to_owned();
        push_decimal(&mut r, (before - after) as u64);
        r.append(" entries of type '");
        r.append(memory_type);
        r.append("'.");
        r
    }

    /// [`MemoryManager::delete_by_type_at`] dated with the current time.
    pub fn delete_by_type(&mut self, memory_type: &str) -> (r: String)
        ensures
            final(self)@.file_path == old(self)@.file_path,
            final(self)@.store.entries == without_type(old(self)@.store.entries, trim(memory_type@)),
            final(self)@.store.next_id == old(self)@.store.next_id,
            r@ == deletion_report(
                (old(self)@.store.entries.len() - final(self)@.store.entries.len()) as nat,
                memory_type@,
            ),
    {
        self.delete_by_type_at(memory_type, clock_stamp())
    }
}

/// Remembering an entry makes it findable: when the new content matches a
/// query, a search after the addition finds the earlier hits followed by
/// the new entry.
pub proof fn law_remembered_entry_is_found(
    s: StoreView,
    content: Seq<char>,
    memory_type: Seq<char>,
    importance: Seq<char>,
    now: Seq<char>,
    query: Seq<char>,
)
    requires
        contains(folded(content), folded(query)),
    ensures
        search_hits(store_with_entry(s, content, memory_type, importance, now).entries, query)
            == search_hits(s.entries, query).push(
            store_with_entry(s, content, memory_type, importance, now).entries.last(),
        ),
{
    let t = store_with_entry(s, content, memory_type, importance, now);
    assert(t.entries.drop_last() =~= s.entries);
}

/// Adding an entry keeps ids unique and below the next id.
pub proof fn law_add_keeps_ids_fresh(
    s: StoreView,
    content: Seq<char>,
    memory_type: Seq<char>,
    importance: Seq<char>,
    now: Seq<char>,
)
    requires
        ids_fresh(s),
        s.next_id < u64::MAX,
    ensures
        ids_fresh(store_with_entry(s, content, memory_type, importance, now)),
{
    let t = store_with_entry(s, content, memory_type, importance, now);
    assert forall|i: int| 0 <= i < t.entries.len() implies #[trigger] t.entries[i].id < t.next_id by {
        if i < s.entries.len() {
            assert(t.entries[i] == s.entries[i]);
        }
    }
    assert forall|i: int, j: int|
        0 <= i < t.entries.len() && 0 <= j < t.entries.len() && i != j
            implies #[trigger] t.entries[i].id != #[trigger] t.entries[j].id by {
        if i < s.entries.len() && j < s.entries.len() {
            assert(t.entries[i] == s.entries[i] && t.entries[j] == s.entries[j]);
        } else if i < s.entries.len() {
            assert(t.entries[i] == s.entries[i]);
        } else if j < s.entries.len() {
            assert(t.entries[j] == s.entries[j]);
        }
    }
}

/// The first-run initialisation keeps ids unique and below the next id.
pub proof fn law_initialize_keeps_ids_fresh(s: StoreView, system_info: Seq<char>, now: Seq<char>)
    requires
        ids_fresh(s),
        s.next_id < u64::MAX - 1,
    ensures
        ids_fresh(initialized_store(s, system_info, now)),
{
}

/// Initialising twice is initialising once: the second call finds the
/// store non-empty and leaves it alone.
pub proof fn law_initialize_is_idempotent(
    s: StoreView,
    system_info: Seq<char>,
    now: Seq<char>,
    later_info: Seq<char>,
    later: Seq<char>,
)
    ensures
        initialized_store(initialized_store(s, system_info, now), later_info, later)
            == initialized_store(s, system_info, now),
{
}

proof fn lemma_without_type_counts(entries: Seq<EntryView>, t: Seq<char>)
    ensures
        without_type(entries, t).len() + count_of_type(entries, t) == entries.len(),
        forall|i: int|
            0 <= i < without_type(entries, t).len() ==> #[trigger] without_type(entries, t)[i].memory_type
                != t,
        forall|i: int|
            0 <= i < without_type(entries, t).len() ==> entries.contains(
                #[trigger] without_type(entries, t)[i],
            ),
    decreases entries.len(),
{
    if entries.len() > 0 {
        let rest = entries.drop_last();
        lemma_without_type_counts(rest, t);
        let w = without_type(entries, t);
        assert forall|i: int| 0 <= i < w.len() implies entries.contains(#[trigger] w[i]) by {
            if i < without_type(rest, t).len() {
                assert(w[i] == without_type(rest, t)[i]);
                let j = choose|j: int| 0 <= j < rest.len() && rest[j] == w[i];
                assert(entries[j] == w[i]);
            } else {
                assert(w[i] == entries.last());
                assert(entries[entries.len() - 1] == w[i]);
            }
        }
    }
}

/// Deleting a type removes exactly the entries of that type: none is left,
/// every kept entry was there before, and the number that went is the
/// number of entries of that type.
pub proof fn law_delete_removes_exactly_the_type(entries: Seq<EntryView>, t: Seq<char>)
    ensures
        forall|i: int|
            0 <= i < without_type(entries, t).len() ==> #[trigger] without_type(entries, t)[i].memory_type
                != t,
        forall|i: int|
            0 <= i < without_type(entries, t).len() ==> entries.contains(
                #[trigger] without_type(entries, t)[i],
            ),
        entries.len() - without_type(entries, t).len() == count_of_type(entries, t),
        count_of_type(entries, t) == 0 ==> without_type(entries, t) == entries,
    decreases entries.len(),
{
    lemma_without_type_counts(entries, t);
    if entries.len() > 0 {
        law_delete_removes_exactly_the_type(entries.drop_last(), t);
        if count_of_type(entries, t) == 0 {
            assert(entries.drop_last().push(entries.last()) =~= entries);
        }
    } else {
        assert(without_type(entries, t) =~= entries);
    }
}

/// Deleting a type keeps ids unique and below the next id, since the kept
/// entries are a selection of the old ones.
pub proof fn law_delete_keeps_ids_fresh(s: StoreView, t: Seq<char>, now: Seq<char>)
    requires
        ids_fresh(s),
    ensures
        ids_fresh(StoreView { entries: without_type(s.entries, t), next_id: s.next_id, last_updated: now }),
    decreases s.entries.len(),
{
    let w = without_type(s.entries, t);
    if s.entries.len() > 0 {
        let rest = StoreView { entries: s.entries.drop_last(), next_id: s.next_id, last_updated: now };
        assert forall|i: int| 0 <= i < rest.entries.len() implies #[trigger] rest.entries[i].id < rest.next_id by {
            assert(rest.entries[i] == s.entries[i]);
        }
        assert forall|i: int, j: int|
            0 <= i < rest.entries.len() && 0 <= j < rest.entries.len() && i != j
                implies #[trigger] rest.entries[i].id != #[trigger] rest.entries[j].id by {
            assert(rest.entries[i] == s.entries[i] && rest.entries[j] == s.entries[j]);
        }
        law_delete_keeps_ids_fresh(rest, t, now);
        lemma_without_type_counts(rest.entries, t);
        let wr = without_type(rest.entries, t);
        let last = s.entries.last();
        assert forall|i: int| 0 <= i < wr.len() implies #[trigger] wr[i].id != last.id by {
            let j = choose|j: int| 0 <= j < rest.entries.len() && rest.entries[j] == wr[i];
            assert(s.entries[j] == wr[i]);
            assert(s.entries[s.entries.len() - 1] == last);
        }
        assert(last.id < s.next_id) by {
            assert(s.entries[s.entries.len() - 1] == last);
        }
        if last.memory_type != t {
            assert(w == wr.push(last));
            assert forall|i: int, j: int|
                0 <= i < w.len() && 0 <= j < w.len() && i != j
                    implies #[trigger] w[i].id != #[trigger] w[j].id by {
                if i < wr.len() && j < wr.len() {
                    let kept = StoreView { entries: wr, next_id: s.next_id, last_updated: now };
                    assert(kept.entries[i].id != kept.entries[j].id);
                    assert(w[i] == wr[i] && w[j] == wr[j]);
                } else if i < wr.len() {
                    assert(w[i] == wr[i] && w[j] == last);
                } else {
                    assert(w[j] == wr[j] && w[i] == last);
                }
            }
            assert forall|i: int| 0 <= i < w.len() implies #[trigger] w[i].id < s.next_id by {
                if i < wr.len() {
                    assert(w[i] == wr[i]);
                }
            }
        }
    }
}

/// Adding an entry appends its line to the memory dump: after the heading
/// when the store was empty, else after a line break.
pub proof fn law_added_entry_extends_dump(
    s: StoreView,
    content: Seq<char>,
    memory_type: Seq<char>,
    importance: Seq<char>,
    now: Seq<char>,
)
    ensures
        memory_dump(store_with_entry(s, content, memory_type, importance, now).entries) == (if s.entries.len()
            == 0 {
            "# Memory Store\n\n"@
        } else {
            memory_dump(s.entries) + "\n"@
        }) + content_line(store_with_entry(s, content, memory_type, importance, now).entries.last()),
{
    let t = store_with_entry(s, content, memory_type, importance, now).entries;
    let e = t.last();
    let before = s.entries.map_values(|x: EntryView| content_line(x));
    let after = t.map_values(|x: EntryView| content_line(x));
    assert(after =~= before.push(content_line(e)));
    assert(after.drop_last() =~= before);
    if s.entries.len() == 0 {
        assert(after.len() == 1);
        assert(after[0] == content_line(e));
    } else {
        assert(join(after, "\n"@) == join(before, "\n"@) + "\n"@ + content_line(e));
    }
}

/// Adding an entry of type `t` raises the total and the count of `t` by
/// one, keeps every other count, and lists `t` after the types seen so far
/// when it is new.
pub proof fn law_added_entry_counts_in_stats(
    s: StoreView,
    content: Seq<char>,
    t: Seq<char>,
    importance: Seq<char>,
    now: Seq<char>,
)
    ensures
        ({
            let n = store_with_entry(s, content, t, importance, now).entries;
            &&& n.len() == s.entries.len() + 1
            &&& count_of_type(n, t) == count_of_type(s.entries, t) + 1
            &&& forall|u: Seq<char>| u != t ==> #[trigger] count_of_type(n, u) == count_of_type(s.entries, u)
            &&& distinct_types(n) == if count_of_type(s.entries, t) > 0 {
                distinct_types(s.entries)
            } else {
                distinct_types(s.entries).push(t)
            }
            &&& type_line(n, t) == "  "@ + t + ": "@ + decimal(count_of_type(s.entries, t) + 1)
        }),
{
    let n = store_with_entry(s, content, t, importance, now).entries;
    assert(n.drop_last() =~= s.entries);
    lemma_distinct_types_complete(s.entries, t);
}

/// The sum of `count_of_type(entries, t)` over the types `ts`.
pub open spec fn sum_counts(entries: Seq<EntryView>, ts: Seq<Seq<char>>) -> nat
    decreases ts.len(),
{
    if ts.len() == 0 {
        0
    } else {
        sum_counts(entries, ts.drop_last()) + count_of_type(entries, ts.last())
    }
}

proof fn lemma_sum_counts_push_entry(entries: Seq<EntryView>, e: EntryView, ts: Seq<Seq<char>>)
    requires
        ts.no_duplicates(),
    ensures
        sum_counts(entries.push(e), ts) == sum_counts(entries, ts) + if ts.contains(e.memory_type) {
            1nat
        } else {
            0nat
        },
    decreases ts.len(),
{
    assert(entries.push(e).drop_last() =~= entries);
    if ts.len() > 0 {
        let front = ts.drop_last();
        assert(front.no_duplicates());
        lemma_sum_counts_push_entry(entries, e, front);
        if ts.last() == e.memory_type {
            assert(!front.contains(e.memory_type));
            assert(ts[ts.len() - 1] == e.memory_type);
        } else {
            if front.contains(e.memory_type) {
                let j = choose|j: int| 0 <= j < front.len() && front[j] == e.memory_type;
                assert(ts[j] == e.memory_type);
            }
            if ts.contains(e.memory_type) {
                let j = choose|j: int| 0 <= j < ts.len() && ts[j] == e.memory_type;
                assert(front[j] == e.memory_type);
            }
        }
    }
}

proof fn lemma_sum_counts_push_type(entries: Seq<EntryView>, ts: Seq<Seq<char>>, t: Seq<char>)
    ensures
        sum_counts(entries, ts.push(t)) == sum_counts(entries, ts) + count_of_type(entries, t),
{
    assert(ts.push(t).drop_last() =~= ts);
}

/// The per-type counts of the statistics add up to the number of entries.
pub proof fn law_stats_counts_add_up(entries: Seq<EntryView>)
    ensures
        sum_counts(entries, distinct_types(entries)) == entries.len(),
    decreases entries.len(),
{
    if entries.len() > 0 {
        let rest = entries.drop_last();
        let e = entries.last();
        law_stats_counts_add_up(rest);
        lemma_distinct_types_no_duplicates(rest);
        lemma_distinct_types_complete(rest, e.memory_type);
        assert(rest.push(e) =~= entries);
        lemma_sum_counts_push_entry(rest, e, distinct_types(rest));
        if !distinct_types(rest).contains(e.memory_type) {
            lemma_sum_counts_push_type(entries, distinct_types(rest), e.memory_type);
            assert(rest.push(e).drop_last() =~= rest);
        }
    }
}

/// The statistics start with the total, which is the sum of the per-type
/// counts they list (so the number of entries held), and then the time of
/// the last update.
pub proof fn law_stats_total_is_sum_of_counts(s: StoreView)
    ensures
        ({
            let head = "Memory Statistics:\n- Total entries: "@ + decimal(
                sum_counts(s.entries, distinct_types(s.entries)),
            ) + "\n- Last updated: "@ + s.last_updated + "\n"@;
            &&& head.len() <= stats_report(s).len()
            &&& stats_report(s).subrange(0, head.len() as int) == head
        }),
{
    law_stats_counts_add_up(s.entries);
    let head = "Memory Statistics:\n- Total entries: "@ + decimal(
        sum_counts(s.entries, distinct_types(s.entries)),
    ) + "\n- Last updated: "@ + s.last_updated + "\n"@;
    reveal_strlit("\n- Types:\n");
    reveal_strlit("\n");
    let rest = "- Types:\n"@ + join(
        distinct_types(s.entries).map_values(|t: Seq<char>| type_line(s.entries, t)),
        "\n"@,
    );
    reveal_strlit("- Types:\n");
    assert("\n- Types:\n"@ =~= "\n"@ + "- Types:\n"@);
    assert(stats_report(s) =~= head + rest);
    assert((head + rest).subrange(0, head.len() as int) =~= head);
}

/// Whether `confirm` is the word that confirms clearing the store.
pub fn confirms_clear(confirm: &str) -> (b: bool)
    ensures
        b == is_confirmation(confirm@),
{
    let trimmed = trim_str(confirm);
    let lowered = to_lowercase(trimmed.as_str());
    str_eq(lowered.as_str(), "confirm")
}

} // verus!
