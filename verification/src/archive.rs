//! Walking a layer blob: a gzip-compressed tar archive, decompressed and read
//! one entry at a time, only as far as the scan needs.

use vstd::prelude::*;
use vstd::string::*;
use crate::endpoint::{is_success, success};
use crate::error::Error;
use crate::extract::{
    classify, kept_files, scan, unmatched, yaml_models, ArchiveEntry, DownloadLayerResponse,
    EntryModel, OutcomeModel, Step, Yaml, YamlModel,
};
use crate::path::is_under;

verus! {

/// A tar archive over the gzip decoder over a blob. Holds a `tar::Archive`.
#[verifier::external_body]
pub struct LayerArchive<'a> {
    inner: tar::Archive<flate2::read::GzDecoder<&'a [u8]>>,
}

/// The walk through the entries of a [`LayerArchive`]. Holds a
/// `tar::Entries`.
#[verifier::external_body]
pub struct LayerEntries<'a, 'b> {
    inner: tar::Entries<'a, flate2::read::GzDecoder<&'b [u8]>>,
}

/// What a walk through the blob yields, item by item: an entry, with its path
/// and its content as text, or `None` where the gzip or tar framing is
/// broken. Nothing follows a `None`.
pub uninterp spec fn layer_items(blob: Seq<u8>) -> Seq<Option<EntryModel>>;

/// What a walk through the archive yields. Where the walk cannot be begun,
/// this is the single item `None`.
pub uninterp spec fn archive_items(archive: LayerArchive<'_>) -> Seq<Option<EntryModel>>;

/// The items that the walk has yet to yield.
pub uninterp spec fn pending(entries: LayerEntries<'_, '_>) -> Seq<Option<EntryModel>>;

/// `tar::Archive::new` over `flate2::read::GzDecoder::new` over the blob.
/// Claims that what the archive will yield depends on the bytes alone.
#[verifier::external_body]
fn open_archive<'a>(blob: &'a [u8]) -> (archive: LayerArchive<'a>)
    ensures
        archive_items(archive) == layer_items(blob@),
{
    LayerArchive { inner: tar::Archive::new(flate2::read::GzDecoder::new(blob)) }
}

/// `tar::Archive::entries`. Claims that a walk that begins yields the
/// archive's items, and that one that cannot begin stands for the single
/// item `None`.
#[verifier::external_body]
fn archive_entries<'a, 'b>(
    archive: &'a mut LayerArchive<'b>,
) -> (r: Option<LayerEntries<'a, 'b>>)
    ensures
        match r {
            Some(entries) => pending(entries) == archive_items(*old(archive)),
            None => archive_items(*old(archive)) == seq![None::<EntryModel>],
        },
{
    archive.inner.entries().ok().map(|inner| LayerEntries { inner })
}

/// `Iterator::next` of `tar::Entries`, with the entry it yields read out:
/// its path from `tar::Entry::path_bytes`, made text with
/// `String::from_utf8_lossy`, and its content from `Read::read_to_string`,
/// which leaves the text empty where the content is not UTF-8. Claims that
/// the call yields the first pending item and leaves the others pending, and
/// that it yields nothing exactly when nothing is pending.
#[verifier::external_body]
fn next_item(entries: &mut LayerEntries<'_, '_>) -> (r: Option<Option<ArchiveEntry>>)
    ensures
        pending(*old(entries)).len() == 0 ==> {
            &&& r is None
            &&& pending(*final(entries)) == pending(*old(entries))
        },
        pending(*old(entries)).len() > 0 ==> {
            &&& r is Some
            &&& item_model(r->0) == pending(*old(entries))[0]
            &&& pending(*final(entries)) == pending(*old(entries)).drop_first()
        },
{
    match entries.inner.next() {
        None => None,
        Some(Err(_)) => Some(None),
        Some(Ok(mut entry)) => {
            let mut content = String::new();
            let _ = std::io::Read::read_to_string(&mut entry, &mut content);
            let path = String::from_utf8_lossy(&entry.path_bytes()).into_owned();
            Some(Some(ArchiveEntry { path, content }))
        },
    }
}

/// An item of a walk as a mathematical value.
pub open spec fn item_model(item: Option<ArchiveEntry>) -> Option<EntryModel> {
    match item {
        Some(entry) => Some(entry@),
        None => None,
    }
}

/// The result of a scan as a mathematical value.
pub open spec fn outcome_model(
    r: Result<DownloadLayerResponse, Error>,
) -> Result<OutcomeModel, Error> {
    match r {
        Ok(out) => Ok(out@),
        Err(e) => Err(e),
    }
}

/// The outcome of scanning the items of a walk in order: as
/// [`crate::extract::scan`] over the entries, but a broken item that is
/// reached before the scan has stopped fails the scan.
pub open spec fn walk(
    items: Seq<Option<EntryModel>>,
    prefix: Seq<char>,
    wanted: Seq<char>,
) -> Result<OutcomeModel, Error>
    decreases items.len(),
{
    if items.len() == 0 {
        Ok(unmatched())
    } else {
        match items[0] {
            None => Err(Error::Archive),
            Some(entry) => if !is_under(entry.path, prefix) {
                Ok(unmatched())
            } else {
                match walk(items.drop_first(), prefix, wanted) {
                    Err(e) => Err(e),
                    Ok(rest) => Ok(
                        OutcomeModel {
                            should_continue: false,
                            yamls: kept_files(entry, wanted) + rest.yamls,
                        },
                    ),
                }
            },
        }
    }
}

/// What has been gathered so far, followed by the outcome of the rest.
spec fn gathered(
    should_continue: bool,
    yamls: Seq<YamlModel>,
    rest: Result<OutcomeModel, Error>,
) -> Result<OutcomeModel, Error> {
    match rest {
        Err(e) => Err(e),
        Ok(out) => Ok(
            OutcomeModel {
                should_continue: should_continue && out.should_continue,
                yamls: yamls + out.yamls,
            },
        ),
    }
}

/// Scans a layer blob.
///
/// The blob is decompressed and its entries are read in archive order, up to
/// the first one outside `prefix`; what follows that entry is never
/// decompressed. Fails with [`Error::Archive`] where the framing breaks
/// before the scan has stopped.
pub fn extract_layer(
    blob: &[u8],
    prefix: &str,
    wanted: &str,
) -> (r: Result<DownloadLayerResponse, Error>)
    ensures
        outcome_model(r) == walk(layer_items(blob@), prefix@, wanted@),
{
    let mut archive = open_archive(blob);
    let ghost items = layer_items(blob@);
    let mut entries = match archive_entries(&mut archive) {
        Some(entries) => entries,
        None => {
            return Err(Error::Archive);
        },
    };
    let mut should_continue = true;
    let mut yamls: Vec<Yaml> = Vec::new();
    loop
        invariant
            items == layer_items(blob@),
            walk(items, prefix@, wanted@) == gathered(
                should_continue,
                yaml_models(yamls@),
                walk(pending(entries), prefix@, wanted@),
            ),
        decreases pending(entries).len(),
    {
        let ghost rest = pending(entries);
        let ghost before = yaml_models(yamls@);
        match next_item(&mut entries) {
            None => {
                return Ok(DownloadLayerResponse { should_continue, yamls });
            },
            Some(None) => {
                return Err(Error::Archive);
            },
            Some(Some(entry)) => {
                match classify(&entry, prefix, wanted) {
                    Step::Stop => {
                        return Ok(DownloadLayerResponse { should_continue, yamls });
                    },
                    Step::Skip => {},
                    Step::Keep(file) => {
                        let ghost tail = walk(rest.drop_first(), prefix@, wanted@);
                        yamls.push(file);
                        assert(yaml_models(yamls@) =~= before + seq![file@]);
                        assert(tail is Ok ==> before + (kept_files(entry@, wanted@)
                            + tail->Ok_0.yamls) =~= (before + seq![file@]) + tail->Ok_0.yamls);
                    },
                }
                should_continue = false;
            },
        }
    }
}

/// Reads the answer to a blob request.
///
/// Fails with [`Error::Transport`] where `status` is not a success status;
/// otherwise the body is scanned as [`extract_layer`] does.
pub fn read_layer(
    status: u16,
    body: &[u8],
    prefix: &str,
    wanted: &str,
) -> (r: Result<DownloadLayerResponse, Error>)
    ensures
        outcome_model(r) == if success(status) {
            walk(layer_items(body@), prefix@, wanted@)
        } else {
            Err(Error::Transport(status))
        },
{
    if !is_success(status) {
        return Err(Error::Transport(status));
    }
    extract_layer(body, prefix, wanted)
}

/// The items of a walk that yields `entries` and meets no broken framing.
pub open spec fn sound_items(entries: Seq<EntryModel>) -> Seq<Option<EntryModel>> {
    Seq::new(entries.len(), |i: int| Some(entries[i]))
}

/// A walk through sound items gives what the scan of the entries gives.
pub proof fn lemma_walk_sound(entries: Seq<EntryModel>, prefix: Seq<char>, wanted: Seq<char>)
    ensures
        walk(sound_items(entries), prefix, wanted) == Ok::<OutcomeModel, Error>(
            scan(entries, prefix, wanted),
        ),
    decreases entries.len(),
{
    if entries.len() > 0 && is_under(entries[0].path, prefix) {
        lemma_walk_sound(entries.drop_first(), prefix, wanted);
        assert(sound_items(entries).drop_first() =~= sound_items(entries.drop_first()));
    }
}

/// The walk ends at the first entry outside the sentinel directory: if every
/// entry of `head` lies under `prefix` and `stop` does not, then whatever
/// follows `stop`, sound or broken, has no influence on the outcome.
pub proof fn lemma_walk_stops_at_first_outsider(
    head: Seq<EntryModel>,
    stop: EntryModel,
    tail: Seq<Option<EntryModel>>,
    prefix: Seq<char>,
    wanted: Seq<char>,
)
    requires
        forall|i: int| 0 <= i < head.len() ==> is_under(head[i].path, prefix),
        !is_under(stop.path, prefix),
    ensures
        walk(sound_items(head) + seq![Some(stop)] + tail, prefix, wanted) == Ok::<
            OutcomeModel,
            Error,
        >(scan(head, prefix, wanted)),
    decreases head.len(),
{
    if head.len() > 0 {
        assert((sound_items(head) + seq![Some(stop)] + tail).drop_first() =~= sound_items(
            head.drop_first(),
        ) + seq![Some(stop)] + tail);
        lemma_walk_stops_at_first_outsider(head.drop_first(), stop, tail, prefix, wanted);
    }
}

/// Broken framing that is met before the scan has stopped fails the walk: if
/// every entry of `head` lies under `prefix` and a broken item follows, the
/// outcome is [`Error::Archive`].
pub proof fn lemma_walk_fails_at_broken_item(
    head: Seq<EntryModel>,
    tail: Seq<Option<EntryModel>>,
    prefix: Seq<char>,
    wanted: Seq<char>,
)
    requires
        forall|i: int| 0 <= i < head.len() ==> is_under(head[i].path, prefix),
    ensures
        walk(sound_items(head) + seq![None::<EntryModel>] + tail, prefix, wanted) == Err::<
            OutcomeModel,
            Error,
        >(Error::Archive),
    decreases head.len(),
{
    if head.len() > 0 {
        assert((sound_items(head) + seq![None::<EntryModel>] + tail).drop_first() =~= sound_items(
            head.drop_first(),
        ) + seq![None::<EntryModel>] + tail);
        lemma_walk_fails_at_broken_item(head.drop_first(), tail, prefix, wanted);
    }
}

} // verus!
