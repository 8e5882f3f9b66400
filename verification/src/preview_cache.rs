//! The bounded cache of document previews, keyed by Mermaid source.
use vstd::prelude::*;
use crate::preview::{add_sat, MermaidPreview, PreviewView};
use crate::text::{byte_len, string_byte_len};
use crate::width::sat_add;
use vstd::string::StringExecFns;

verus! {

/// Total bytes the cache may hold.
pub const PREVIEW_CACHE_BYTES: usize = 8 * 1024 * 1024;

/// Entries the cache may hold.
pub const PREVIEW_CACHE_ENTRIES: usize = 32;

/// Stored in place of a preview that alone would take half the cache.
pub const PREVIEW_BUDGET_MESSAGE: &'static str =
    "Diagram exceeds preview cache budget; press v for bounded full-view rendering or s for source";

/// One cached preview (or the error that replaced it).
#[derive(Debug)]
pub struct PreviewEntry {
    pub source: String,
    pub result: Result<MermaidPreview, String>,
}

/// A cached result as plain values.
pub type ResultView = Result<PreviewView, Seq<char>>;

/// A cache entry as plain values: (source, result).
pub type EntryView = (Seq<char>, ResultView);

pub open spec fn result_view(r: Result<MermaidPreview, String>) -> ResultView {
    match r {
        Ok(p) => Ok(p@),
        Err(e) => Err(e@),
    }
}

pub open spec fn entry_view(e: PreviewEntry) -> EntryView {
    (e.source@, result_view(e.result))
}

pub open spec fn entries_view(es: Seq<PreviewEntry>) -> Seq<EntryView> {
    es.map_values(|e: PreviewEntry| entry_view(e))
}

/// Cached previews, oldest first; no source occurs twice.
#[derive(Debug)]
pub struct MermaidCache {
    pub entries: Vec<PreviewEntry>,
}

impl View for MermaidCache {
    type V = Seq<EntryView>;

    open spec fn view(&self) -> Seq<EntryView> {
        entries_view(self.entries@)
    }
}

/// Bytes of one cell rectangle: four `usize` fields.
pub open spec fn rect_bytes() -> usize {
    (4 * (usize::BITS / 8)) as usize
}

pub open spec fn sat_mul(a: usize, b: usize) -> usize {
    if a * b > usize::MAX {
        usize::MAX
    } else {
        (a * b) as usize
    }
}

/// Estimated memory of a preview: text, warning and framing rectangles.
pub open spec fn preview_bytes(p: PreviewView) -> usize {
    sat_add(
        sat_add(
            byte_len(p.0),
            match p.3 {
                Some(w) => byte_len(w),
                None => 0,
            },
        ),
        sat_mul(p.4.len() as usize, rect_bytes()),
    )
}

pub open spec fn result_bytes(r: ResultView) -> usize {
    match r {
        Ok(p) => preview_bytes(p),
        Err(e) => byte_len(e),
    }
}

pub open spec fn entry_bytes(e: EntryView) -> int {
    byte_len(e.0) + result_bytes(e.1)
}

pub open spec fn total_bytes(es: Seq<EntryView>) -> int
    decreases es.len(),
{
    if es.len() == 0 {
        0
    } else {
        total_bytes(es.drop_last()) + entry_bytes(es.last())
    }
}

/// `es` without the entry for `key`.
pub open spec fn without_key(es: Seq<EntryView>, key: Seq<char>) -> Seq<EntryView>
    decreases es.len(),
{
    if es.len() == 0 {
        seq![]
    } else {
        let rest = without_key(es.drop_last(), key);
        if es.last().0 == key {
            rest
        } else {
            rest.push(es.last())
        }
    }
}

pub open spec fn keys_distinct(es: Seq<EntryView>) -> bool {
    forall|i: int, j: int| 0 <= i < j < es.len() ==> #[trigger] es[i].0 != #[trigger] es[j].0
}

/// Whether `es` leaves room for one more entry of `incoming` bytes.
pub open spec fn has_room(es: Seq<EntryView>, incoming: int) -> bool {
    es.len() < PREVIEW_CACHE_ENTRIES && total_bytes(es) + incoming <= PREVIEW_CACHE_BYTES
}

/// `m` is the fewest oldest entries whose eviction makes room (or all of them).
pub open spec fn eviction_count(es: Seq<EntryView>, incoming: int, m: int) -> bool {
    &&& 0 <= m <= es.len()
    &&& (has_room(es.skip(m), incoming) || m == es.len())
    &&& forall|k: int| 0 <= k < m ==> !#[trigger] has_room(es.skip(k), incoming)
}

/// The number of oldest entries evicted to make room for `incoming` bytes.
pub open spec fn evicted(es: Seq<EntryView>, incoming: int) -> int {
    choose|m: int| eviction_count(es, incoming, m)
}

/// The result actually stored: one that alone would take half the budget
/// becomes the budget message.
pub open spec fn stored_result(source: Seq<char>, result: ResultView) -> ResultView {
    if byte_len(source) + result_bytes(result) > PREVIEW_CACHE_BYTES / 2 {
        Err(PREVIEW_BUDGET_MESSAGE@)
    } else {
        result
    }
}

/// The cache after storing `result` for `source` as its newest entry, with
/// the oldest entries evicted until both limits hold.
pub open spec fn store_view(es: Seq<EntryView>, source: Seq<char>, result: ResultView) -> Seq<EntryView> {
    let stored = stored_result(source, result);
    let rest = without_key(es, source);
    rest.skip(evicted(rest, byte_len(source) + result_bytes(stored))).push((source, stored))
}

proof fn lemma_eviction_unique(es: Seq<EntryView>, incoming: int, m: int)
    requires
        eviction_count(es, incoming, m),
    ensures
        evicted(es, incoming) == m,
{
    let m2 = evicted(es, incoming);
    assert(eviction_count(es, incoming, m2));
    if m2 < m {
        assert(!has_room(es.skip(m2), incoming));
    } else if m < m2 {
        assert(!has_room(es.skip(m), incoming));
    }
}

impl MermaidPreview {
    /// Estimated memory of this preview.
    pub fn estimated_bytes(&self) -> (r: usize)
        ensures
            r == preview_bytes(self@),
    {
        let warning = match &self.warning {
            Some(w) => string_byte_len(w),
            None => 0,
        };
        let rect: usize = 4 * ((usize::BITS / 8) as usize);
        let n = self.nodes.len();
        let nodes = if rect == 0 || n <= usize::MAX / rect {
            proof {
                assert(n * rect <= usize::MAX) by (nonlinear_arith)
                    requires
                        rect == 0 || n <= usize::MAX / rect,
                ;
            }
            n * rect
        } else {
            proof {
                assert(n * rect > usize::MAX) by (nonlinear_arith)
                    requires
                        rect > 0,
                        n > usize::MAX / rect,
                ;
            }
            usize::MAX
        };
        add_sat(add_sat(string_byte_len(&self.text), warning), nodes)
    }
}

fn result_size(r: &Result<MermaidPreview, String>) -> (n: usize)
    ensures
        n == result_bytes(result_view(*r)),
{
    match r {
        Ok(p) => p.estimated_bytes(),
        Err(e) => string_byte_len(e),
    }
}

fn total_size(es: &Vec<PreviewEntry>) -> (n: usize)
    ensures
        n == if total_bytes(entries_view(es@)) > usize::MAX {
            usize::MAX as int
        } else {
            total_bytes(entries_view(es@))
        },
        total_bytes(entries_view(es@)) >= 0,
{
    let ghost v = entries_view(es@);
    let mut acc: usize = 0;
    let mut i: usize = 0;
    while i < es.len()
        invariant
            v == entries_view(es@),
            i <= es@.len(),
            acc == if total_bytes(v.take(i as int)) > usize::MAX {
                usize::MAX as int
            } else {
                total_bytes(v.take(i as int))
            },
            total_bytes(v.take(i as int)) >= 0,
        decreases es@.len() - i,
    {
        proof {
            assert(v.take(i + 1).drop_last() =~= v.take(i as int));
            assert(v.take(i + 1).last() == entry_view(es@[i as int]));
        }
        let e = add_sat(string_byte_len(&es[i].source), result_size(&es[i].result));
        acc = add_sat(acc, e);
        i = i + 1;
    }
    assert(v.take(es@.len() as int) =~= v);
    acc
}

pub proof fn lemma_without_key_members(es: Seq<EntryView>, key: Seq<char>)
    ensures
        forall|i: int|
            0 <= i < without_key(es, key).len() ==> exists|k: int|
                0 <= k < es.len() && es[k] == #[trigger] without_key(es, key)[i],
        forall|i: int|
            0 <= i < without_key(es, key).len() ==> #[trigger] without_key(es, key)[i].0 != key,
    decreases es.len(),
{
    if es.len() > 0 {
        let d = es.drop_last();
        lemma_without_key_members(d, key);
        let rest = without_key(d, key);
        assert forall|i: int| 0 <= i < without_key(es, key).len() implies exists|k: int|
            0 <= k < es.len() && es[k] == #[trigger] without_key(es, key)[i] by {
            if i < rest.len() {
                let k = choose|k: int| 0 <= k < d.len() && d[k] == rest[i];
                assert(es[k] == d[k]);
            } else {
                assert(es[es.len() - 1] == es.last());
            }
        }
    }
}

pub proof fn lemma_without_key_distinct(es: Seq<EntryView>, key: Seq<char>)
    requires
        keys_distinct(es),
    ensures
        keys_distinct(without_key(es, key)),
    decreases es.len(),
{
    if es.len() > 0 {
        let d = es.drop_last();
        assert(keys_distinct(d)) by {
            assert forall|i: int, j: int| 0 <= i < j < d.len() implies #[trigger] d[i].0
                != #[trigger] d[j].0 by {
                assert(d[i] == es[i] && d[j] == es[j]);
            }
        }
        lemma_without_key_distinct(d, key);
        lemma_without_key_members(d, key);
        let rest = without_key(d, key);
        if es.last().0 != key {
            let r2 = rest.push(es.last());
            assert forall|i: int, j: int| 0 <= i < j < r2.len() implies #[trigger] r2[i].0
                != #[trigger] r2[j].0 by {
                if j == r2.len() - 1 {
                    let k = choose|k: int| 0 <= k < d.len() && d[k] == rest[i];
                    assert(es[k] == d[k]);
                    assert(es[es.len() - 1] == es.last());
                }
            }
        }
    }
}

proof fn lemma_skip_distinct(es: Seq<EntryView>, m: int)
    requires
        keys_distinct(es),
        0 <= m <= es.len(),
    ensures
        keys_distinct(es.skip(m)),
{
    let s = es.skip(m);
    assert forall|i: int, j: int| 0 <= i < j < s.len() implies #[trigger] s[i].0 != #[trigger] s[j].0 by {
        assert(s[i] == es[i + m] && s[j] == es[j + m]);
    }
}

impl MermaidCache {
    pub open spec fn wf(&self) -> bool {
        keys_distinct(self@)
    }

    pub fn new() -> (r: MermaidCache)
        ensures
            r@.len() == 0,
            r.wf(),
    {
        MermaidCache { entries: Vec::new() }
    }

    pub fn len(&self) -> (r: usize)
        ensures
            r == self@.len(),
    {
        self.entries.len()
    }

    pub fn is_empty(&self) -> (r: bool)
        ensures
            r == (self@.len() == 0),
    {
        self.entries.len() == 0
    }

    pub fn clear(&mut self)
        ensures
            final(self)@.len() == 0,
            final(self).wf(),
    {
        self.entries.clear();
        assert(final(self)@ =~= Seq::<EntryView>::empty());
    }

    /// Position of the entry for `source`.
    pub fn position(&self, source: &String) -> (r: Option<usize>)
        ensures
            r is None ==> forall|i: int| 0 <= i < self@.len() ==> #[trigger] self@[i].0 != source@,
            r matches Some(i) ==> i < self@.len() && self@[i as int].0 == source@ && forall|j: int|
                0 <= j < i ==> #[trigger] self@[j].0 != source@,
    {
        let mut i: usize = 0;
        while i < self.entries.len()
            invariant
                i <= self@.len(),
                self@.len() == self.entries@.len(),
                forall|j: int| 0 <= j < i ==> #[trigger] self@[j].0 != source@,
            decreases self@.len() - i,
        {
            assert(self@[i as int] == entry_view(self.entries@[i as int]));
            if self.entries[i].source == *source {
                return Some(i);
            }
            i = i + 1;
        }
        None
    }

    pub fn contains_key(&self, source: &String) -> (r: bool)
        ensures
            r == exists|i: int| 0 <= i < self@.len() && #[trigger] self@[i].0 == source@,
    {
        match self.position(source) {
            Some(i) => true,
            None => false,
        }
    }

    /// The cached result for `source`.
    pub fn get(&self, source: &String) -> (r: Option<&Result<MermaidPreview, String>>)
        ensures
            r is None ==> forall|i: int| 0 <= i < self@.len() ==> #[trigger] self@[i].0 != source@,
            r matches Some(x) ==> exists|i: int|
                0 <= i < self@.len() && #[trigger] self@[i].0 == source@ && result_view(*x)
                    == self@[i].1,
    {
        match self.position(source) {
            Some(i) => {
                assert(self@[i as int] == entry_view(self.entries@[i as int]));
                Some(&self.entries[i].result)
            },
            None => None,
        }
    }

    /// Drops the entry for `source`, keeping the order of the others.
    fn remove_key(&mut self, source: &String)
        ensures
            final(self)@ == without_key(old(self)@, source@),
    {
        let mut all: Vec<PreviewEntry> = Vec::new();
        std::mem::swap(&mut all, &mut self.entries);
        let ghost old_entries = all@;
        let ghost old_view = entries_view(all@);
        let mut kept: Vec<PreviewEntry> = Vec::new();
        for e in it: all
            invariant
                it.seq() == old_entries,
                old_view == entries_view(old_entries),
                entries_view(kept@) == without_key(old_view.take(it.index() as int), source@),
        {
            proof {
                let t = old_view.take(it.index() + 1);
                assert(t.drop_last() =~= old_view.take(it.index() as int));
                assert(t.last() == entry_view(e));
            }
            if e.source != *source {
                let ghost before = kept@;
                kept.push(e);
                proof {
                    assert(entries_view(kept@) =~= entries_view(before).push(entry_view(e)));
                }
            }
        }
        assert(old_view.take(old_entries.len() as int) =~= old_view);
        self.entries = kept;
    }

    /// Caches `result` for `source` as the newest entry. A result that alone
    /// would take half the budget is replaced by an explanatory error; the
    /// oldest entries are evicted until the new one fits in both limits.
    pub fn store(&mut self, source: String, result: Result<MermaidPreview, String>)
        requires
            old(self).wf(),
        ensures
            final(self).wf(),
            final(self)@ == store_view(old(self)@, source@, result_view(result)),
    {
        let ghost incoming_view = result_view(result);
        let ghost stored = stored_result(source@, incoming_view);
        let source_size = string_byte_len(&source);
        let oversize = add_sat(source_size, result_size(&result)) > PREVIEW_CACHE_BYTES / 2;
        let result = if oversize {
            Err(String::from_str(PREVIEW_BUDGET_MESSAGE))
        } else {
            result
        };
        assert(result_view(result) == stored);
        let incoming = add_sat(source_size, result_size(&result));
        let ghost incoming_int = byte_len(source@) + result_bytes(stored);
        proof {
            lemma_without_key_distinct(self@, source@);
            lemma_without_key_members(self@, source@);
        }
        self.remove_key(&source);
        let ghost rest = self@;
        let ghost mut m: int = 0;
        assert(rest.skip(0) =~= rest);
        loop
            invariant
                0 <= m <= rest.len(),
                self@ == rest.skip(m),
                keys_distinct(rest),
                forall|i: int| 0 <= i < rest.len() ==> #[trigger] rest[i].0 != source@,
                incoming == if incoming_int > usize::MAX {
                    usize::MAX as int
                } else {
                    incoming_int
                },
                incoming_int >= 0,
                forall|k: int| 0 <= k < m ==> !#[trigger] has_room(rest.skip(k), incoming_int),
            ensures
                0 <= m <= rest.len(),
                self@ == rest.skip(m),
                has_room(rest.skip(m), incoming_int) || m == rest.len(),
                forall|k: int| 0 <= k < m ==> !#[trigger] has_room(rest.skip(k), incoming_int),
            decreases rest.len() - m,
        {
            let total = total_size(&self.entries);
            if !(self.entries.len() >= PREVIEW_CACHE_ENTRIES || add_sat(total, incoming)
                > PREVIEW_CACHE_BYTES) {
                break;
            }
            if self.entries.len() == 0 {
                assert(m == rest.len());
                break;
            }
            let ghost before = self.entries@;
            self.entries.remove(0);
            proof {
                assert(entries_view(self.entries@) =~= entries_view(before).skip(1));
                assert(rest.skip(m).skip(1) =~= rest.skip(m + 1));
                m = m + 1;
            }
        }
        proof {
            assert(eviction_count(rest, incoming_int, m));
            lemma_eviction_unique(rest, incoming_int, m);
            lemma_skip_distinct(rest, m);
        }
        let ghost kept = self@;
        let ghost kept_entries = self.entries@;
        self.entries.push(PreviewEntry { source, result });
        proof {
            assert(self@ =~= kept.push((source@, stored)));
            let es = self@;
            assert forall|i: int, j: int| 0 <= i < j < es.len() implies #[trigger] es[i].0
                != #[trigger] es[j].0 by {
                if j == es.len() - 1 {
                    assert(es[i] == rest[i + m]);
                } else {
                    assert(es[i] == kept[i] && es[j] == kept[j]);
                }
            }
        }
    }

    /// Puts `result` under `source` as the newest entry, without limits.
    pub fn insert(&mut self, source: String, result: Result<MermaidPreview, String>)
        requires
            old(self).wf(),
        ensures
            final(self).wf(),
            final(self)@ == without_key(old(self)@, source@).push((source@, result_view(result))),
    {
        proof {
            lemma_without_key_distinct(self@, source@);
            lemma_without_key_members(self@, source@);
        }
        self.remove_key(&source);
        let ghost kept = self@;
        self.entries.push(PreviewEntry { source, result });
        proof {
            assert(self@ =~= kept.push((source@, result_view(result))));
            let es = self@;
            assert forall|i: int, j: int| 0 <= i < j < es.len() implies #[trigger] es[i].0
                != #[trigger] es[j].0 by {
                if j == es.len() - 1 {
                    assert(es[i] == kept[i]);
                } else {
                    assert(es[i] == kept[i] && es[j] == kept[j]);
                }
            }
        }
    }
}

} // verus!
