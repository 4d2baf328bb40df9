//! Ingestion: the confirmation gate, the per-file transaction discipline,
//! and the batch driver.
//!
//! The durable store itself lives outside this crate; [`Store`] is its
//! model — the rows a reader of the real store can observe between
//! transactions.  A transaction appends a (media row, embedding row) pair
//! on commit and leaves the model untouched on any failure, so no reader
//! ever observes one row of a pair without the other.

use vstd::prelude::*;

use crate::errors::GalleryError;
use crate::media::{EmbeddingRecord, MediaAsset};
use crate::seqext::lemma_filter_push;

verus! {

/// Whitespace for the purposes of the confirmation prompt.
pub open spec fn is_blank(c: char) -> bool {
    c == ' ' || c == '\t' || c == '\n' || c == '\r'
}

/// `s` without its leading blanks.
pub open spec fn trim_front(s: Seq<char>) -> Seq<char>
    decreases s.len(),
{
    if s.len() > 0 && is_blank(s[0]) {
        trim_front(s.drop_first())
    } else {
        s
    }
}

/// `s` without its trailing blanks.
pub open spec fn trim_back(s: Seq<char>) -> Seq<char>
    decreases s.len(),
{
    if s.len() > 0 && is_blank(s.last()) {
        trim_back(s.drop_last())
    } else {
        s
    }
}

/// `s` without leading and trailing blanks.
pub open spec fn trimmed(s: Seq<char>) -> Seq<char> {
    trim_back(trim_front(s))
}

/// Whether a prompt reply affirms the batch: `y` in either case, once
/// surrounding whitespace is dropped.
pub open spec fn confirmation_given(s: Seq<char>) -> bool {
    trimmed(s) == seq!['y'] || trimmed(s) == seq!['Y']
}

proof fn lemma_trim_front_at(s: Seq<char>, a: int)
    requires
        0 <= a <= s.len(),
        forall|j: int| 0 <= j < a ==> is_blank(s[j]),
        a < s.len() ==> !is_blank(s[a]),
    ensures
        trim_front(s) == s.subrange(a, s.len() as int),
    decreases a,
{
    if a == 0 {
        assert(s.subrange(0, s.len() as int) =~= s);
    } else {
        let t = s.drop_first();
        assert(forall|j: int| 0 <= j < a - 1 ==> t[j] == s[j + 1]);
        lemma_trim_front_at(t, a - 1);
        assert(t.subrange(a - 1, t.len() as int) =~= s.subrange(a, s.len() as int));
    }
}

proof fn lemma_trim_back_at(s: Seq<char>, b: int)
    requires
        0 <= b <= s.len(),
        forall|j: int| b <= j < s.len() ==> is_blank(s[j]),
        b > 0 ==> !is_blank(s[b - 1]),
    ensures
        trim_back(s) == s.subrange(0, b),
    decreases s.len(),
{
    if b == s.len() {
        if s.len() > 0 && is_blank(s.last()) {
            assert(!is_blank(s[b - 1]));
            assert(false);
        }
        assert(s.subrange(0, s.len() as int) =~= s);
    } else {
        let t = s.drop_last();
        lemma_trim_back_at(t, b);
        assert(t.subrange(0, b) =~= s.subrange(0, b));
    }
}

fn blank_char(c: char) -> (r: bool)
    ensures
        r == is_blank(c),
{
    c == ' ' || c == '\t' || c == '\n' || c == '\r'
}

/// Decide the confirmation gate: a batch proceeds only on an affirmative
/// reply, `y` or `Y` up to surrounding whitespace.
pub fn confirmation_accepted(input: &str) -> (r: bool)
    ensures
        r == confirmation_given(input@),
{
    let v = crate::pathname::chars_of(input);
    let n = v.len();
    let mut a: usize = 0;
    while a < n && blank_char(v[a])
        invariant
            a <= n == v@.len(),
            forall|j: int| 0 <= j < a ==> is_blank(v@[j]),
        decreases n - a,
    {
        a = a + 1;
    }
    proof {
        lemma_trim_front_at(v@, a as int);
    }
    if a == n {
        proof {
            assert(trim_front(v@) =~= Seq::<char>::empty());
            lemma_trim_back_at(Seq::<char>::empty(), 0);
        }
        return false;
    }
    let mut b: usize = n;
    while b > a + 1 && blank_char(v[b - 1])
        invariant
            a < b <= n == v@.len(),
            forall|j: int| b <= j < n ==> is_blank(v@[j]),
        decreases b,
    {
        b = b - 1;
    }
    proof {
        let t = v@.subrange(a as int, n as int);
        lemma_trim_back_at(t, b - a);
        assert(t.subrange(0, b - a) =~= v@.subrange(a as int, b as int));
        assert(trimmed(v@) == v@.subrange(a as int, b as int));
    }
    let r = b - a == 1 && (v[a] == 'y' || v[a] == 'Y');
    proof {
        if b - a == 1 {
            assert(v@.subrange(a as int, b as int)[0] == v@[a as int]);
            assert(seq!['y'][0] == 'y');
            assert(seq!['Y'][0] == 'Y');
            if v@[a as int] == 'y' {
                assert(v@.subrange(a as int, b as int) =~= seq!['y']);
            }
            if v@[a as int] == 'Y' {
                assert(v@.subrange(a as int, b as int) =~= seq!['Y']);
            }
        } else {
            assert(v@.subrange(a as int, b as int).len() != 1);
            assert(seq!['y'].len() == 1);
            assert(seq!['Y'].len() == 1);
        }
    }
    r
}

/// The rows a reader of the persistence store can observe between
/// transactions.
pub struct Store {
    /// The configured output dimension; every stored vector has it.
    pub dim: usize,
    pub media: Vec<MediaAsset>,
    pub embeddings: Vec<EmbeddingRecord>,
}

impl Store {
    /// Every stored vector has the configured dimension.
    pub open spec fn vectors_sized(&self) -> bool {
        forall|j: int|
            0 <= j < self.embeddings@.len() ==> (#[trigger] self.embeddings@[j]).vector@.len()
                == self.dim
    }

    /// Embedding row `j` references an existing media row.
    pub open spec fn embedding_has_owner(&self, j: int) -> bool {
        exists|i: int|
            0 <= i < self.media@.len() && (#[trigger] self.media@[i]).id
                == self.embeddings@[j].media_id
    }

    /// Media row `i` is referenced by at least one embedding row.
    pub open spec fn media_has_embedding(&self, i: int) -> bool {
        exists|j: int|
            0 <= j < self.embeddings@.len() && (#[trigger] self.embeddings@[j]).media_id
                == self.media@[i].id
    }

    /// The store invariant: rows only ever exist in pairs — no embedding
    /// without its asset, no asset without at least one embedding — and
    /// vectors have the configured dimension.
    pub open spec fn wf(&self) -> bool {
        &&& self.vectors_sized()
        &&& forall|j: int| 0 <= j < self.embeddings@.len() ==> #[trigger] self.embedding_has_owner(j)
        &&& forall|i: int| 0 <= i < self.media@.len() ==> #[trigger] self.media_has_embedding(i)
    }

    /// An empty store for vectors of dimension `dim`.
    pub fn new(dim: usize) -> (s: Store)
        ensures
            s.wf(),
            s.dim == dim,
            s.media@.len() == 0,
            s.embeddings@.len() == 0,
    {
        Store { dim, media: Vec::new(), embeddings: Vec::new() }
    }

    /// Commit one transaction: append the media row and its embedding row
    /// together.  The media row is written first, honouring the foreign
    /// key, and nothing already stored moves.
    pub fn commit_pair(&mut self, asset: MediaAsset, record: EmbeddingRecord)
        requires
            old(self).wf(),
            record.media_id == asset.id,
            record.vector@.len() == old(self).dim,
        ensures
            final(self).wf(),
            final(self).dim == old(self).dim,
            final(self).media@ == old(self).media@.push(asset),
            final(self).embeddings@ == old(self).embeddings@.push(record),
    {
        self.media.push(asset);
        self.embeddings.push(record);
        proof {
            let om = old(self).media@;
            let oe = old(self).embeddings@;
            assert forall|j: int| 0 <= j < self.embeddings@.len() implies #[trigger] self.embedding_has_owner(
                j,
            ) by {
                if j < oe.len() {
                    assert(old(self).embedding_has_owner(j));
                    let i = choose|i: int| 0 <= i < om.len() && om[i].id == oe[j].media_id;
                    assert(self.media@[i].id == self.embeddings@[j].media_id);
                } else {
                    assert(self.media@[om.len() as int].id == self.embeddings@[j].media_id);
                }
            }
            assert forall|i: int| 0 <= i < self.media@.len() implies #[trigger] self.media_has_embedding(
                i,
            ) by {
                if i < om.len() {
                    assert(old(self).media_has_embedding(i));
                    let j = choose|j: int| 0 <= j < oe.len() && oe[j].media_id == om[i].id;
                    assert(self.embeddings@[j].media_id == self.media@[i].id);
                } else {
                    assert(self.embeddings@[oe.len() as int].media_id == self.media@[i].id);
                }
            }
        }
    }
}

/// How one two-row transaction came out at the store: both inserts and the
/// commit went through, or one of the three steps failed.
pub enum TxOutcome {
    Committed,
    MediaInsertFailed,
    EmbeddingInsertFailed,
    CommitFailed,
}

impl Store {
    /// Resolve one per-file transaction against the store model.
    ///
    /// Only a fully successful transaction changes what readers observe:
    /// both rows appear together.  Any failure — either insert or the
    /// commit itself — rolls back and leaves zero rows behind for the
    /// file, surfacing a `PersistenceError`.
    pub fn apply_transaction(
        &mut self,
        asset: MediaAsset,
        record: EmbeddingRecord,
        outcome: TxOutcome,
    ) -> (r: Result<(), GalleryError>)
        requires
            old(self).wf(),
            record.media_id == asset.id,
            record.vector@.len() == old(self).dim,
        ensures
            final(self).wf(),
            final(self).dim == old(self).dim,
            outcome is Committed ==> (r is Ok && final(self).media@ == old(self).media@.push(asset)
                && final(self).embeddings@ == old(self).embeddings@.push(record)),
            !(outcome is Committed) ==> (r matches Err(e) && e is PersistenceError
                && final(self).media@ == old(self).media@
                && final(self).embeddings@ == old(self).embeddings@),
    {
        match outcome {
            TxOutcome::Committed => {
                self.commit_pair(asset, record);
                Ok(())
            },
            TxOutcome::MediaInsertFailed => Err(
                GalleryError::PersistenceError(
                    "media insert failed; transaction rolled back".to_owned(),
                ),
            ),
            TxOutcome::EmbeddingInsertFailed => Err(
                GalleryError::PersistenceError(
                    "embedding insert failed; transaction rolled back".to_owned(),
                ),
            ),
            TxOutcome::CommitFailed => Err(
                GalleryError::PersistenceError(
                    "commit failed; transaction rolled back".to_owned(),
                ),
            ),
        }
    }
}

/// One prepared per-file outcome handed to the batch driver: either the
/// (media row, embedding row) pair ready to persist, or the error that
/// extraction, decoding or encoding produced for that file.
pub type FileOutcome = Result<(MediaAsset, EmbeddingRecord), GalleryError>;

/// Acceptance of a prepared outcome that reached the store.
pub open spec fn ok_item() -> spec_fn(FileOutcome) -> bool {
    |r: FileOutcome| r is Ok
}

/// The successful pairs of a batch, in batch order.
pub open spec fn ok_pairs(items: Seq<FileOutcome>) -> Seq<(MediaAsset, EmbeddingRecord)> {
    items.filter(ok_item()).map_values(|r: FileOutcome| r->Ok_0)
}

/// The media row of a prepared pair.
pub open spec fn pair_asset() -> spec_fn((MediaAsset, EmbeddingRecord)) -> MediaAsset {
    |p: (MediaAsset, EmbeddingRecord)| p.0
}

/// The embedding row of a prepared pair.
pub open spec fn pair_record() -> spec_fn((MediaAsset, EmbeddingRecord)) -> EmbeddingRecord {
    |p: (MediaAsset, EmbeddingRecord)| p.1
}

/// A prepared pair the store can accept: the embedding row references its
/// media row and the vector has the store's dimension.
pub open spec fn pair_fits(p: (MediaAsset, EmbeddingRecord), dim: int) -> bool {
    p.1.media_id == p.0.id && p.1.vector@.len() == dim
}

/// What a finished batch reports.
#[derive(Clone, Copy, Debug, PartialEq, Eq, Structural)]
pub struct BatchSummary {
    /// How many candidates the batch looked at.
    pub processed: usize,
    /// How many (media row, embedding row) pairs were persisted.
    pub succeeded: usize,
    /// How many candidates failed and were skipped.
    pub failed: usize,
}

/// Drive one batch to completion: persist every prepared pair, skip every
/// failed candidate, and report the tally.
///
/// A failed candidate never aborts the batch: all `items.len()` entries are
/// processed, exactly the successful pairs are appended to the store in
/// batch order, and the summary accounts for every entry.
pub fn ingest_batch(store: &mut Store, items: Vec<FileOutcome>) -> (s: BatchSummary)
    requires
        old(store).wf(),
        forall|t: int|
            0 <= t < items@.len() && (#[trigger] items@[t]) is Ok ==> pair_fits(
                items@[t]->Ok_0,
                old(store).dim as int,
            ),
    ensures
        final(store).wf(),
        final(store).dim == old(store).dim,
        s.processed == items@.len(),
        s.succeeded == ok_pairs(items@).len(),
        s.processed == s.succeeded + s.failed,
        final(store).media@ == old(store).media@ + ok_pairs(items@).map_values(pair_asset()),
        final(store).embeddings@ == old(store).embeddings@ + ok_pairs(items@).map_values(
            pair_record(),
        ),
{
    let ghost orig = items@;
    let mut items = items;
    let total = items.len();
    let mut succeeded: usize = 0;
    let mut failed: usize = 0;
    let mut k: usize = 0;
    proof {
        assert(orig.subrange(0, 0) =~= Seq::<FileOutcome>::empty());
        assert(ok_pairs(Seq::<FileOutcome>::empty()) =~= Seq::<(MediaAsset, EmbeddingRecord)>::empty());
        assert(store.media@ =~= store.media@ + ok_pairs(orig.subrange(0, 0)).map_values(
            pair_asset(),
        ));
        assert(store.embeddings@ =~= store.embeddings@ + ok_pairs(orig.subrange(0, 0)).map_values(
            pair_record(),
        ));
        assert(items@ =~= orig.subrange(0, orig.len() as int));
    }
    while k < total
        invariant
            k <= total == orig.len(),
            items@ == orig.subrange(k as int, orig.len() as int),
            succeeded + failed == k,
            succeeded == ok_pairs(orig.subrange(0, k as int)).len(),
            store.wf(),
            store.dim == old(store).dim,
            store.media@ == old(store).media@ + ok_pairs(orig.subrange(0, k as int)).map_values(
                pair_asset(),
            ),
            store.embeddings@ == old(store).embeddings@ + ok_pairs(
                orig.subrange(0, k as int),
            ).map_values(pair_record()),
            forall|t: int|
                0 <= t < orig.len() && (#[trigger] orig[t]) is Ok ==> pair_fits(
                    orig[t]->Ok_0,
                    old(store).dim as int,
                ),
        decreases total - k,
    {
        let ghost pre = orig.subrange(0, k as int);
        let ghost cur = orig.subrange(0, k + 1 as int);
        proof {
            assert(items@[0] == orig[k as int]);
            assert(cur =~= pre.push(orig[k as int]));
            lemma_filter_push(pre, ok_item(), orig[k as int]);
        }
        let item = items.remove(0);
        proof {
            assert(items@ =~= orig.subrange(k + 1 as int, orig.len() as int));
        }
        match item {
            Ok(pair) => {
                let (asset, record) = pair;
                proof {
                    assert(pair_fits(orig[k as int]->Ok_0, old(store).dim as int));
                    assert(ok_pairs(cur) =~= ok_pairs(pre).push((asset, record)));
                    assert(ok_pairs(cur).map_values(pair_asset()) =~= ok_pairs(pre).map_values(
                        pair_asset(),
                    ).push(asset));
                    assert(ok_pairs(cur).map_values(pair_record()) =~= ok_pairs(pre).map_values(
                        pair_record(),
                    ).push(record));
                }
                store.commit_pair(asset, record);
                proof {
                    assert(store.media@ =~= old(store).media@ + ok_pairs(cur).map_values(
                        pair_asset(),
                    ));
                    assert(store.embeddings@ =~= old(store).embeddings@ + ok_pairs(cur).map_values(
                        pair_record(),
                    ));
                }
                succeeded = succeeded + 1;
            },
            Err(_) => {
                proof {
                    assert(ok_pairs(cur) =~= ok_pairs(pre));
                }
                failed = failed + 1;
            },
        }
        k = k + 1;
    }
    proof {
        assert(orig.subrange(0, orig.len() as int) =~= orig);
    }
    BatchSummary { processed: total, succeeded, failed }
}

/// Law: atomicity seen from the reader's side.  In a well-formed store no
/// media row is an orphan: each one has an embedding row referencing it.
/// Since a failed transaction leaves the store exactly as it was (see
/// `Store::apply_transaction`), a file whose embedding insert was forced to
/// fail leaves no media row behind.
pub proof fn lemma_no_orphan_media(s: &Store, i: int)
    requires
        s.wf(),
        0 <= i < s.media@.len(),
    ensures
        exists|j: int|
            0 <= j < s.embeddings@.len() && s.embeddings@[j].media_id == s.media@[i].id,
{
    assert(s.media_has_embedding(i));
    let j = choose|j: int|
        0 <= j < s.embeddings@.len() && (#[trigger] s.embeddings@[j]).media_id == s.media@[i].id;
    assert(0 <= j < s.embeddings@.len() && s.embeddings@[j].media_id == s.media@[i].id);
}

/// Acceptance of a media row by its path.
pub open spec fn at_path(p: Seq<char>) -> spec_fn(MediaAsset) -> bool {
    |a: MediaAsset| a.file_path@ == p
}

/// The number of media rows whose `file_path` is `p`.
pub open spec fn assets_at_path(media: Seq<MediaAsset>, p: Seq<char>) -> nat {
    media.filter(at_path(p)).len()
}

/// Law: re-ingestion is additive.  Committing the same file twice (two
/// fresh asset rows with the same path, as `Store::commit_pair` appends
/// them) leaves every prior row untouched and raises the count of assets
/// at that path by exactly two — an insert each time, never an update.
pub proof fn lemma_reingestion_additive(
    media: Seq<MediaAsset>,
    a1: MediaAsset,
    a2: MediaAsset,
    p: Seq<char>,
)
    requires
        a1.file_path@ == p,
        a2.file_path@ == p,
    ensures
        assets_at_path(media.push(a1).push(a2), p) == assets_at_path(media, p) + 2,
        forall|i: int| 0 <= i < media.len() ==> media.push(a1).push(a2)[i] == media[i],
        media.push(a1).push(a2)[media.len() as int] == a1,
        media.push(a1).push(a2)[media.len() as int + 1] == a2,
{
    lemma_filter_push(media, at_path(p), a1);
    lemma_filter_push(media.push(a1), at_path(p), a2);
    assert(at_path(p)(a1) && at_path(p)(a2));
}

} // verus!
