//! Filter predicates over a traversed entry's metadata, and the file-size
//! unit that size predicates are expressed in.

use crate::search::BuilderView;
use crate::search::SearchBuilder;
use vstd::prelude::*;

verus! {

/// The metadata of one traversed entry, read once per entry: creation and
/// modification times as nanoseconds since the Unix epoch, and the size in
/// bytes. A field is `None` when the platform could not supply it; a
/// predicate over a missing field fails, it never aborts the traversal.
#[derive(Clone, Copy, PartialEq, Eq, Structural, Debug)]
pub struct EntryMeta {
    pub created: Option<u64>,
    pub modified: Option<u64>,
    pub size: Option<u64>,
}

/// The enumerator's native handle for one visited filesystem entry.
#[verifier::external_type_specification]
#[verifier::external_body]
pub struct ExDirEntry(ignore::DirEntry);

/// A caller-supplied predicate over the enumerator's native entry handle,
/// for conditions not otherwise expressible. It must be pure and safe to
/// call concurrently from several traversal workers; it carries no further
/// contract, and a predicate that blocks stalls its worker's subtree.
pub trait CustomFilter: Send + Sync {
    /// Whether the entry passes this predicate.
    fn accept(&self, entry: &ignore::DirEntry) -> bool;
}

/// A shareable handle to one caller-supplied predicate. The predicate is
/// opaque: nothing is known of its verdicts, so the traversal treats each
/// verdict as an arbitrary boolean.
#[verifier::external_body]
pub struct CustomFilterHandle {
    predicate: std::sync::Arc<dyn CustomFilter>,
}

impl CustomFilterHandle {
    /// Wraps a caller-supplied predicate in a shareable handle.
    /// Relies on `alloc::sync::Arc::new`: it only stores the predicate.
    #[verifier::external_body]
    pub fn new<F: CustomFilter + 'static>(predicate: F) -> Self {
        CustomFilterHandle { predicate: std::sync::Arc::new(predicate) }
    }

    /// Asks the caller's predicate for its verdict on one entry.
    /// Relies on the caller-supplied `CustomFilter::accept` alone; nothing is
    /// assumed of the verdict.
    #[verifier::external_body]
    pub(crate) fn apply(&self, entry: &ignore::DirEntry) -> bool {
        self.predicate.accept(entry)
    }
}

impl Clone for CustomFilterHandle {
    /// Hands out a second handle to the same predicate.
    /// Relies on `alloc::sync::Arc::clone`: both handles reach the same
    /// predicate.
    #[verifier::external_body]
    fn clone(&self) -> (r: Self) {
        CustomFilterHandle { predicate: self.predicate.clone() }
    }
}

/// One testable condition over an entry: a comparison of its creation time,
/// modification time or byte size against a reference value, or an opaque
/// caller-supplied predicate. Predicates compose by logical AND.
pub enum FilterType {
    /// Passes when the entry's creation time compares to the reference
    /// (nanoseconds since the Unix epoch) as the ordering says.
    Created(core::cmp::Ordering, u64),
    /// Passes when the entry's modification time compares to the reference
    /// (nanoseconds since the Unix epoch) as the ordering says.
    Modified(core::cmp::Ordering, u64),
    /// Passes when the entry's size in bytes compares to the reference count
    /// as the ordering says.
    FileSize(core::cmp::Ordering, u64),
    /// An opaque caller-supplied predicate over the entry handle.
    Custom(CustomFilterHandle),
}

impl Clone for FilterType {
    /// A copy of the filter; a custom predicate is shared, not copied.
    fn clone(&self) -> (r: Self)
        ensures
            *self is Created ==> r == *self,
            *self is Modified ==> r == *self,
            *self is FileSize ==> r == *self,
            *self is Custom ==> r is Custom,
    {
        match self {
            FilterType::Created(ord, t) => FilterType::Created(*ord, *t),
            FilterType::Modified(ord, t) => FilterType::Modified(*ord, *t),
            FilterType::FileSize(ord, n) => FilterType::FileSize(*ord, *n),
            FilterType::Custom(f) => FilterType::Custom(f.clone()),
        }
    }
}

/// How two byte counts or timestamps compare.
pub open spec fn ordering_of(a: u64, b: u64) -> core::cmp::Ordering {
    if a < b {
        core::cmp::Ordering::Less
    } else if a == b {
        core::cmp::Ordering::Equal
    } else {
        core::cmp::Ordering::Greater
    }
}

/// Whether one filter passes on the given metadata, a custom predicate's
/// verdict being supplied by the caller. A comparison over a field that the
/// metadata lacks fails.
pub open spec fn filter_passes_spec(f: FilterType, m: EntryMeta, custom_verdict: bool) -> bool {
    match f {
        FilterType::Created(ord, t) => m.created is Some && ordering_of(m.created->0, t) == ord,
        FilterType::Modified(ord, t) => m.modified is Some && ordering_of(m.modified->0, t)
            == ord,
        FilterType::FileSize(ord, n) => m.size is Some && ordering_of(m.size->0, n) == ord,
        FilterType::Custom(_) => custom_verdict,
    }
}

/// Compares a metadata field against a reference value under an ordering tag.
fn field_compares(field: Option<u64>, ord: core::cmp::Ordering, reference: u64) -> (r: bool)
    ensures
        r == (field is Some && ordering_of(field->0, reference) == ord),
{
    match field {
        Some(v) => match ord {
            core::cmp::Ordering::Less => v < reference,
            core::cmp::Ordering::Equal => v == reference,
            core::cmp::Ordering::Greater => v > reference,
        },
        None => false,
    }
}

impl FilterType {
    /// Evaluates this filter on the given metadata; for a custom filter the
    /// caller passes the predicate's verdict in.
    pub fn passes(&self, m: &EntryMeta, custom_verdict: bool) -> (r: bool)
        ensures
            r == filter_passes_spec(*self, *m, custom_verdict),
    {
        match self {
            FilterType::Created(ord, t) => field_compares(m.created, *ord, *t),
            FilterType::Modified(ord, t) => field_compares(m.modified, *ord, *t),
            FilterType::FileSize(ord, n) => field_compares(m.size, *ord, *n),
            FilterType::Custom(_) => custom_verdict,
        }
    }
}

/// Whether every filter passes on the given metadata, each custom predicate's
/// verdict supplied alongside. An empty filter set passes.
pub open spec fn filters_pass_spec(fs: Seq<FilterType>, m: EntryMeta, verdicts: Seq<bool>) -> bool {
    forall|i: int| 0 <= i < fs.len() ==> filter_passes_spec(fs[i], m, verdicts[i])
}

/// Evaluates a whole filter set on one entry's metadata as a short-circuit
/// conjunction, the custom predicates' verdicts supplied alongside.
pub fn filters_pass(filters: &Vec<FilterType>, m: &EntryMeta, verdicts: &Vec<bool>) -> (r: bool)
    requires
        verdicts@.len() == filters@.len(),
    ensures
        r == filters_pass_spec(filters@, *m, verdicts@),
{
    let mut i: usize = 0;
    while i < filters.len()
        invariant
            verdicts@.len() == filters@.len(),
            i <= filters@.len(),
            forall|j: int| 0 <= j < i ==> filter_passes_spec(filters@[j], *m, verdicts@[j]),
        decreases filters@.len() - i,
    {
        if !filters[i].passes(m, verdicts[i]) {
            return false;
        }
        i += 1;
    }
    true
}

/// Reads one entry's metadata: creation and modification times as nanoseconds
/// since the Unix epoch, and size in bytes; a field the platform cannot
/// supply comes back `None`, as does everything when the metadata itself
/// cannot be read.
/// Relies on `ignore::DirEntry::metadata` and the std metadata and time
/// accessors for the three fields.
#[verifier::external_body]
pub(crate) fn entry_metadata(entry: &ignore::DirEntry) -> EntryMeta {
    let nanos = |t: std::time::SystemTime|
        t.duration_since(std::time::UNIX_EPOCH).ok().map(|d| d.as_nanos() as u64);
    match entry.metadata() {
        Ok(m) => EntryMeta {
            created: m.created().ok().and_then(nanos),
            modified: m.modified().ok().and_then(nanos),
            size: Some(m.len()),
        },
        Err(_) => EntryMeta { created: None, modified: None, size: None },
    }
}

/// Evaluates every filter on one entry, its metadata fetched once, as a
/// short-circuit conjunction; a custom predicate's verdict is whatever the
/// caller's code answers on the entry handle. An empty filter set passes,
/// and the verdict is exactly the conjunction `filters_pass_spec` over the
/// metadata that was read and the custom verdicts that were collected.
pub fn entry_passes_filters(filters: &Vec<FilterType>, entry: &ignore::DirEntry) -> (r: bool)
    ensures
        filters@.len() == 0 ==> r,
        exists|m: EntryMeta, verdicts: Seq<bool>|
            verdicts.len() == filters@.len() && r == #[trigger] filters_pass_spec(
                filters@,
                m,
                verdicts,
            ),
{
    let m = entry_metadata(entry);
    let mut verdicts: Vec<bool> = Vec::new();
    let mut i: usize = 0;
    while i < filters.len()
        invariant
            verdicts@.len() == i,
            i <= filters@.len(),
            forall|j: int| 0 <= j < i ==> filter_passes_spec(filters@[j], m, verdicts@[j]),
        decreases filters@.len() - i,
    {
        let verdict = match &filters[i] {
            FilterType::Custom(f) => f.apply(entry),
            _ => true,
        };
        if !filters[i].passes(&m, verdict) {
            proof {
                let rest = Seq::new((filters@.len() - i - 1) as nat, |k: int| true);
                let padded = verdicts@.push(verdict) + rest;
                assert(padded.len() == filters@.len());
                assert(padded[i as int] == verdict);
                assert(!filter_passes_spec(filters@[i as int], m, padded[i as int]));
                assert(!filters_pass_spec(filters@, m, padded));
            }
            return false;
        }
        verdicts.push(verdict);
        i += 1;
    }
    proof {
        assert(filters_pass_spec(filters@, m, verdicts@));
    }
    true
}

/// A human file-size unit: a count of bytes, or of larger units, each worth
/// 1024 times the one before. It converts to a canonical byte count.
#[derive(Debug, Clone, Copy, PartialEq, Eq, Structural)]
pub enum FileSize {
    Byte(u64),
    Kilobyte(u64),
    Megabyte(u64),
    Gigabyte(u64),
    Terabyte(u64),
}

/// A unit count scaled to bytes, capped at the largest representable count.
pub open spec fn scaled_bytes(count: u64, scale: u64) -> u64 {
    if count * scale > u64::MAX {
        u64::MAX
    } else {
        (count * scale) as u64
    }
}

impl FileSize {
    /// The canonical byte count of this size: the unit count times
    /// 1024 to the unit's power, capped at the largest representable count.
    pub open spec fn bytes(self) -> u64 {
        match self {
            FileSize::Byte(b) => b,
            FileSize::Kilobyte(c) => scaled_bytes(c, 1024),
            FileSize::Megabyte(c) => scaled_bytes(c, 0x100000),
            FileSize::Gigabyte(c) => scaled_bytes(c, 0x40000000),
            FileSize::Terabyte(c) => scaled_bytes(c, 0x10000000000),
        }
    }

    /// Converts this size to its canonical byte count.
    pub fn to_bytes(self) -> (r: u64)
        ensures
            r == self.bytes(),
    {
        match self {
            FileSize::Byte(b) => b,
            FileSize::Kilobyte(c) => scale_to_bytes(c, 1024),
            FileSize::Megabyte(c) => scale_to_bytes(c, 0x100000),
            FileSize::Gigabyte(c) => scale_to_bytes(c, 0x40000000),
            FileSize::Terabyte(c) => scale_to_bytes(c, 0x10000000000),
        }
    }
}

/// Multiplies a unit count by its byte scale, saturating at the largest
/// representable count.
fn scale_to_bytes(count: u64, scale: u64) -> (r: u64)
    ensures
        r == scaled_bytes(count, scale),
{
    count.checked_mul(scale).unwrap_or(u64::MAX)
}

impl SearchBuilder {
    /// Adds a filter: created strictly before `t` nanoseconds since the epoch.
    pub fn created_before(self, t: u64) -> (r: Self)
        ensures
            r@ == (BuilderView {
                filters: self@.filters.push(FilterType::Created(core::cmp::Ordering::Less, t)),
                ..self@
            }),
    {
        self.filter(FilterType::Created(core::cmp::Ordering::Less, t))
    }

    /// Adds a filter: created exactly at `t` nanoseconds since the epoch.
    pub fn created_at(self, t: u64) -> (r: Self)
        ensures
            r@ == (BuilderView {
                filters: self@.filters.push(FilterType::Created(core::cmp::Ordering::Equal, t)),
                ..self@
            }),
    {
        self.filter(FilterType::Created(core::cmp::Ordering::Equal, t))
    }

    /// Adds a filter: created strictly after `t` nanoseconds since the epoch.
    pub fn created_after(self, t: u64) -> (r: Self)
        ensures
            r@ == (BuilderView {
                filters: self@.filters.push(
                    FilterType::Created(core::cmp::Ordering::Greater, t),
                ),
                ..self@
            }),
    {
        self.filter(FilterType::Created(core::cmp::Ordering::Greater, t))
    }

    /// Adds a filter: modified strictly before `t` nanoseconds since the
    /// epoch.
    pub fn modified_before(self, t: u64) -> (r: Self)
        ensures
            r@ == (BuilderView {
                filters: self@.filters.push(FilterType::Modified(core::cmp::Ordering::Less, t)),
                ..self@
            }),
    {
        self.filter(FilterType::Modified(core::cmp::Ordering::Less, t))
    }

    /// Adds a filter: modified exactly at `t` nanoseconds since the epoch.
    pub fn modified_at(self, t: u64) -> (r: Self)
        ensures
            r@ == (BuilderView {
                filters: self@.filters.push(
                    FilterType::Modified(core::cmp::Ordering::Equal, t),
                ),
                ..self@
            }),
    {
        self.filter(FilterType::Modified(core::cmp::Ordering::Equal, t))
    }

    /// Adds a filter: modified strictly after `t` nanoseconds since the
    /// epoch.
    pub fn modified_after(self, t: u64) -> (r: Self)
        ensures
            r@ == (BuilderView {
                filters: self@.filters.push(
                    FilterType::Modified(core::cmp::Ordering::Greater, t),
                ),
                ..self@
            }),
    {
        self.filter(FilterType::Modified(core::cmp::Ordering::Greater, t))
    }

    /// Adds a filter: size strictly smaller than the given size.
    pub fn file_size_smaller(self, size: FileSize) -> (r: Self)
        ensures
            r@ == (BuilderView {
                filters: self@.filters.push(
                    FilterType::FileSize(core::cmp::Ordering::Less, size.bytes()),
                ),
                ..self@
            }),
    {
        self.filter(FilterType::FileSize(core::cmp::Ordering::Less, size.to_bytes()))
    }

    /// Adds a filter: size exactly equal to the given size.
    pub fn file_size_equal(self, size: FileSize) -> (r: Self)
        ensures
            r@ == (BuilderView {
                filters: self@.filters.push(
                    FilterType::FileSize(core::cmp::Ordering::Equal, size.bytes()),
                ),
                ..self@
            }),
    {
        self.filter(FilterType::FileSize(core::cmp::Ordering::Equal, size.to_bytes()))
    }

    /// Adds a filter: size strictly greater than the given size.
    pub fn file_size_greater(self, size: FileSize) -> (r: Self)
        ensures
            r@ == (BuilderView {
                filters: self@.filters.push(
                    FilterType::FileSize(core::cmp::Ordering::Greater, size.bytes()),
                ),
                ..self@
            }),
    {
        self.filter(FilterType::FileSize(core::cmp::Ordering::Greater, size.to_bytes()))
    }

    /// Adds a caller-supplied predicate as a filter.
    pub fn custom_filter(self, predicate: CustomFilterHandle) -> (r: Self)
        ensures
            r@ == (BuilderView {
                filters: self@.filters.push(FilterType::Custom(predicate)),
                ..self@
            }),
    {
        self.filter(FilterType::Custom(predicate))
    }
}

} // verus!

