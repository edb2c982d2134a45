//! The memory index: interaction entries paired with metadata, validated before
//! they are stored, and ranked against a free-text query.
use vstd::prelude::*;
use crate::text::{append_str, chars_of, decimal, lemma_decimal_injective, push_decimal, string_of};
use crate::tokenize::{normalize_chars, normalized};

verus! {

/// A reference to an attached object.
pub struct AttachmentRef {
    pub object_id: String,
    pub name: String,
    pub mime: String,
}

/// One side of an exchange: its text and attachments.
pub struct IoBlock {
    pub text: String,
    pub attachments: Vec<AttachmentRef>,
}

/// The full payload of one interaction.
pub struct MemoryEntry {
    pub id: String,
    pub session_id: String,
    pub timestamp_ms: i64,
    pub input: IoBlock,
    pub output: IoBlock,
}

/// Large, middle and small category labels.
pub struct Stickies {
    pub l: String,
    pub m: String,
    pub s: String,
}

#[derive(PartialEq, Eq, Structural, Clone, Copy, Debug)]
pub enum MemoryKind {
    ShortTerm,
    LongTerm,
    Meta,
    Sealed,
}

impl Default for MemoryKind {
    fn default() -> (r: Self)
        ensures
            r == MemoryKind::ShortTerm,
    {
        MemoryKind::ShortTerm
    }
}

/// Metadata of an entry. `importance` is in thousandths: 0 to 1000 stand for
/// 0.0 to 1.0.
pub struct MemoryMeta {
    pub id: String,
    pub kind: MemoryKind,
    pub importance: i32,
    pub tags: Vec<String>,
    pub stickies: Option<Stickies>,
    pub source: String,
    pub provider: Option<String>,
    pub references: Vec<String>,
    pub sealed_reason: Option<String>,
    pub created_at_ms: i64,
    pub updated_at_ms: i64,
    pub search_text: String,
}

/// An entry stored together with its metadata.
pub struct MemoryRecord {
    pub entry: MemoryEntry,
    pub meta: MemoryMeta,
}

/// The append-only store of records.
pub struct MemoryIndex {
    pub records: Vec<MemoryRecord>,
}

/// A ranked result. `score` is in millionths of a point.
pub struct MemoryHit {
    pub id: String,
    pub score: u128,
    pub entry: MemoryEntry,
}

pub struct AttachmentView {
    pub object_id: Seq<char>,
    pub name: Seq<char>,
    pub mime: Seq<char>,
}

pub struct BlockView {
    pub text: Seq<char>,
    pub attachments: Seq<AttachmentView>,
}

pub struct EntryView {
    pub id: Seq<char>,
    pub session_id: Seq<char>,
    pub timestamp_ms: i64,
    pub input: BlockView,
    pub output: BlockView,
}

impl View for AttachmentRef {
    type V = AttachmentView;

    open spec fn view(&self) -> AttachmentView {
        AttachmentView { object_id: self.object_id@, name: self.name@, mime: self.mime@ }
    }
}

impl View for IoBlock {
    type V = BlockView;

    open spec fn view(&self) -> BlockView {
        BlockView {
            text: self.text@,
            attachments: self.attachments@.map_values(|a: AttachmentRef| a@),
        }
    }
}

impl View for MemoryEntry {
    type V = EntryView;

    open spec fn view(&self) -> EntryView {
        EntryView {
            id: self.id@,
            session_id: self.session_id@,
            timestamp_ms: self.timestamp_ms,
            input: self.input@,
            output: self.output@,
        }
    }
}

impl AttachmentRef {
    pub fn copy(&self) -> (r: AttachmentRef)
        ensures
            r@ == self@,
    {
        AttachmentRef {
            object_id: self.object_id.clone(),
            name: self.name.clone(),
            mime: self.mime.clone(),
        }
    }
}

impl IoBlock {
    pub fn copy(&self) -> (r: IoBlock)
        ensures
            r@ == self@,
    {
        let mut atts: Vec<AttachmentRef> = Vec::new();
        let mut i: usize = 0;
        while i < self.attachments.len()
            invariant
                i <= self.attachments@.len(),
                atts@.map_values(|a: AttachmentRef| a@) == self.attachments@.subrange(
                    0,
                    i as int,
                ).map_values(|a: AttachmentRef| a@),
            decreases self.attachments@.len() - i,
        {
            let a = self.attachments[i].copy();
            let ghost before = atts@;
            atts.push(a);
            assert(atts@.map_values(|a: AttachmentRef| a@) =~= before.map_values(
                |a: AttachmentRef| a@,
            ).push(a@));
            i = i + 1;
            assert(atts@.map_values(|a: AttachmentRef| a@) =~= self.attachments@.subrange(
                0,
                i as int,
            ).map_values(|a: AttachmentRef| a@));
        }
        assert(self.attachments@.subrange(0, i as int) =~= self.attachments@);
        let r = IoBlock { text: self.text.clone(), attachments: atts };
        assert(r@.attachments =~= self@.attachments);
        r
    }
}

impl MemoryEntry {
    pub fn copy(&self) -> (r: MemoryEntry)
        ensures
            r@ == self@,
    {
        MemoryEntry {
            id: self.id.clone(),
            session_id: self.session_id.clone(),
            timestamp_ms: self.timestamp_ms,
            input: self.input.copy(),
            output: self.output.copy(),
        }
    }
}

/// A record may be stored: importance within 0..=1000, and a sealed record
/// carries a non-empty seal reason.
pub open spec fn meta_valid(meta: &MemoryMeta) -> bool {
    &&& 0 <= meta.importance <= 1000
    &&& meta.kind == MemoryKind::Sealed ==> (meta.sealed_reason matches Some(r) && r@.len() > 0)
}

pub open spec fn importance_error() -> Seq<char> {
    "importance must be within 0.0..=1.0"@
}

pub open spec fn seal_error() -> Seq<char> {
    "sealed_reason is required when kind=SEALED"@
}

/// Checks a record's metadata before anything is stored.
pub fn validate_meta(meta: &MemoryMeta) -> (r: Result<(), String>)
    ensures
        r is Ok <==> meta_valid(meta),
        r matches Err(e) ==> (if !(0 <= meta.importance <= 1000) {
            e@ == importance_error()
        } else {
            e@ == seal_error()
        }),
{
    if meta.importance < 0 || meta.importance > 1000 {
        return Err(string_of(chars_of("importance must be within 0.0..=1.0").as_slice()));
    }
    if meta.kind == MemoryKind::Sealed {
        let missing = match &meta.sealed_reason {
            Some(r) => r.as_str().unicode_len() == 0,
            None => true,
        };
        if missing {
            return Err(string_of(chars_of("sealed_reason is required when kind=SEALED").as_slice()));
        }
    }
    Ok(())
}

impl MemoryIndex {
    pub fn new() -> (r: MemoryIndex)
        ensures
            r.records@.len() == 0,
    {
        MemoryIndex { records: Vec::new() }
    }

    /// Stores an entry and its metadata as one record, after validation; on
    /// failure nothing is stored.
    pub fn save_entry_and_meta(&mut self, entry: MemoryEntry, meta: MemoryMeta) -> (r: Result<
        (),
        String,
    >)
        ensures
            r is Ok <==> meta_valid(&meta),
            r is Ok ==> final(self).records@ == old(self).records@.push(
                MemoryRecord { entry, meta },
            ),
            r is Err ==> final(self).records@ == old(self).records@,
    {
        match validate_meta(&meta) {
            Err(e) => Err(e),
            Ok(()) => {
                self.records.push(MemoryRecord { entry, meta });
                Ok(())
            },
        }
    }

    /// The entry stored under `id` (the first one, should ids repeat).
    pub fn load_entry(&self, id: &str) -> (r: Option<MemoryEntry>)
        ensures
            r is None <==> forall|i: int|
                0 <= i < self.records@.len() ==> #[trigger] self.records@[i].entry.id@ != id@,
            r matches Some(e) ==> exists|i: int|
                0 <= i < self.records@.len() && #[trigger] self.records@[i].entry.id@ == id@
                    && e@ == self.records@[i].entry@,
    {
        let mut i: usize = 0;
        while i < self.records.len()
            invariant
                i <= self.records@.len(),
                forall|k: int| 0 <= k < i ==> #[trigger] self.records@[k].entry.id@ != id@,
            decreases self.records@.len() - i,
        {
            if crate::text::str_is(self.records[i].entry.id.as_str(), id) {
                return Some(self.records[i].entry.copy());
            }
            i = i + 1;
        }
        None
    }
}

impl MemoryIndex {
    /// The metadata stored under `id` (the first one, should ids repeat).
    pub fn load_meta(&self, id: &str) -> (r: Option<&MemoryMeta>)
        ensures
            r is None <==> forall|i: int|
                0 <= i < self.records@.len() ==> #[trigger] self.records@[i].meta.id@ != id@,
            r matches Some(m) ==> exists|i: int|
                0 <= i < self.records@.len() && #[trigger] self.records@[i].meta.id@ == id@
                    && *m == self.records@[i].meta,
    {
        let mut i: usize = 0;
        while i < self.records.len()
            invariant
                i <= self.records@.len(),
                forall|k: int| 0 <= k < i ==> #[trigger] self.records@[k].meta.id@ != id@,
            decreases self.records@.len() - i,
        {
            if crate::text::str_is(self.records[i].meta.id.as_str(), id) {
                return Some(&self.records[i].meta);
            }
            i = i + 1;
        }
        None
    }
}

/// The id of an interaction recorded at `now` in a session: `<session>-<now>`.
pub open spec fn interaction_id(session_id: Seq<char>, now_ms: i64) -> Seq<char> {
    session_id + "-"@ + decimal(now_ms as int)
}

/// The text that recall scores an interaction against.
pub open spec fn search_text_of(input: Seq<char>, output: Seq<char>) -> Seq<char> {
    normalized(input + "\n"@ + output + "\n"@)
}

/// What recording an interaction at `now` produces.
pub open spec fn interaction_record(
    rec: &MemoryRecord,
    session_id: Seq<char>,
    input: Seq<char>,
    output: Seq<char>,
    source: Seq<char>,
    provider: Seq<char>,
    references: Seq<String>,
    now_ms: i64,
) -> bool {
    &&& rec.entry.id@ == interaction_id(session_id, now_ms)
    &&& rec.entry.session_id@ == session_id
    &&& rec.entry.timestamp_ms == now_ms
    &&& rec.entry.input.text@ == input
    &&& rec.entry.input.attachments@.len() == 0
    &&& rec.entry.output.text@ == output
    &&& rec.entry.output.attachments@.len() == 0
    &&& rec.meta.id@ == rec.entry.id@
    &&& rec.meta.kind == MemoryKind::ShortTerm
    &&& rec.meta.importance == 500
    &&& rec.meta.tags@.len() == 0
    &&& rec.meta.stickies is None
    &&& rec.meta.source@ == source
    &&& rec.meta.provider matches Some(p) && p@ == provider
    &&& rec.meta.references@ == references
    &&& rec.meta.sealed_reason is None
    &&& rec.meta.created_at_ms == now_ms
    &&& rec.meta.updated_at_ms == now_ms
    &&& rec.meta.search_text@ == search_text_of(input, output)
}

/// Builds the record of one interaction at time `now_ms`.
pub fn build_interaction(
    session_id: &str,
    input_text: &str,
    output_text: &str,
    source: &str,
    provider: &str,
    references: Vec<String>,
    now_ms: i64,
) -> (r: MemoryRecord)
    ensures
        interaction_record(
            &r,
            session_id@,
            input_text@,
            output_text@,
            source@,
            provider@,
            references@,
            now_ms,
        ),
        meta_valid(&r.meta),
{
    let mut idv: Vec<char> = chars_of(session_id);
    append_str(&mut idv, "-");
    push_decimal(&mut idv, now_ms);
    let mut joined: Vec<char> = chars_of(input_text);
    append_str(&mut joined, "\n");
    append_str(&mut joined, output_text);
    append_str(&mut joined, "\n");
    let joined_s = string_of(joined.as_slice());
    let st = normalize_chars(joined_s.as_str());
    let entry = MemoryEntry {
        id: string_of(idv.as_slice()),
        session_id: string_of(chars_of(session_id).as_slice()),
        timestamp_ms: now_ms,
        input: IoBlock { text: string_of(chars_of(input_text).as_slice()), attachments: Vec::new() },
        output: IoBlock { text: string_of(chars_of(output_text).as_slice()), attachments: Vec::new() },
    };
    let meta = MemoryMeta {
        id: string_of(idv.as_slice()),
        kind: MemoryKind::ShortTerm,
        importance: 500,
        tags: Vec::new(),
        stickies: None,
        source: string_of(chars_of(source).as_slice()),
        provider: Some(string_of(chars_of(provider).as_slice())),
        references,
        sealed_reason: None,
        created_at_ms: now_ms,
        updated_at_ms: now_ms,
        search_text: string_of(st.as_slice()),
    };
    MemoryRecord { entry, meta }
}

/// Relies on `chrono::Utc::now` and `DateTime::timestamp_millis`: the current
/// time in milliseconds since the Unix epoch, which nothing here can predict.
#[verifier::external_body]
pub(crate) fn clock_ms() -> (r: i64) {
    chrono::Utc::now().timestamp_millis()
}

/// Records one interaction at the current time. The record always passes
/// validation, so this always succeeds and appends exactly one record.
pub fn save_interaction(
    index: &mut MemoryIndex,
    session_id: &str,
    input_text: &str,
    output_text: &str,
    source: &str,
    provider: &str,
    references: Vec<String>,
) -> (r: Result<(), String>)
    ensures
        r is Ok,
        final(index).records@.len() == old(index).records@.len() + 1,
        final(index).records@.subrange(0, old(index).records@.len() as int)
            == old(index).records@,
        exists|t: i64|
            interaction_record(
                &#[trigger] final(index).records@[old(index).records@.len() as int],
                session_id@,
                input_text@,
                output_text@,
                source@,
                provider@,
                references@,
                t,
            ),
{
    let now = clock_ms();
    let rec = build_interaction(session_id, input_text, output_text, source, provider, references, now);
    let MemoryRecord { entry, meta } = rec;
    let r = index.save_entry_and_meta(entry, meta);
    assert(interaction_record(
        &final(index).records@[old(index).records@.len() as int],
        session_id@,
        input_text@,
        output_text@,
        source@,
        provider@,
        references@,
        now,
    ));
    assert(final(index).records@.subrange(0, old(index).records@.len() as int) =~= old(index).records@);
    r
}

/// Recording the same interaction at two different times gives two records
/// with different ids, and storing both keeps both: nothing is overwritten.
pub proof fn lemma_recording_twice_keeps_both(
    before: Seq<MemoryRecord>,
    a: MemoryRecord,
    b: MemoryRecord,
    session_id: Seq<char>,
    input: Seq<char>,
    output: Seq<char>,
    source: Seq<char>,
    provider: Seq<char>,
    references: Seq<String>,
    t1: i64,
    t2: i64,
)
    requires
        interaction_record(&a, session_id, input, output, source, provider, references, t1),
        interaction_record(&b, session_id, input, output, source, provider, references, t2),
        t1 != t2,
    ensures
        a.entry.id@ != b.entry.id@,
        before.push(a).push(b).len() == before.len() + 2,
        before.push(a).push(b)[before.len() as int] == a,
        before.push(a).push(b)[before.len() as int + 1] == b,
        before.push(a).push(b).subrange(0, before.len() as int) == before,
{
    if a.entry.id@ == b.entry.id@ {
        let p = session_id + "-"@;
        let x = interaction_id(session_id, t1);
        let y = interaction_id(session_id, t2);
        assert(x.subrange(p.len() as int, x.len() as int) =~= decimal(t1 as int));
        assert(y.subrange(p.len() as int, y.len() as int) =~= decimal(t2 as int));
        lemma_decimal_injective(t1 as int, t2 as int);
    }
    assert(before.push(a).push(b).subrange(0, before.len() as int) =~= before);
}

} // verus!
