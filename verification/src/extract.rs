//! Picking the wanted files out of the entries of one layer.
//!
//! Entries are read in archive order. The scan ends at the first entry that
//! does not lie under the sentinel directory; of the entries before it, those
//! with the wanted extension are kept.

use vstd::prelude::*;
use vstd::string::*;
use crate::path::{extension, file_name, has_extension, is_under, name_of, under};

verus! {

/// The directory whose files are wanted.
pub const SENTINEL: &'static str = ".tuber";

/// The extension of the wanted files.
pub const EXTENSION: &'static str = "yaml";

/// One member of a layer archive.
#[derive(Debug, Clone, PartialEq, Eq)]
pub struct ArchiveEntry {
    /// Slash-separated, relative to the archive root.
    pub path: String,
    pub content: String,
}

/// A file taken from a layer.
#[derive(Debug, Clone, PartialEq, Eq)]
pub struct Yaml {
    pub content: String,
    pub filename: String,
}

/// What the scan of one layer found.
#[derive(Debug, Clone, PartialEq, Eq)]
pub struct DownloadLayerResponse {
    /// `true` as long as no entry under the sentinel directory was seen: the
    /// layer is not the wanted one and the search goes on with an older one.
    pub should_continue: bool,
    /// The kept files, in archive order.
    pub yamls: Vec<Yaml>,
}

/// [`ArchiveEntry`] as a mathematical value.
pub struct EntryModel {
    pub path: Seq<char>,
    pub content: Seq<char>,
}

/// [`Yaml`] as a mathematical value.
pub struct YamlModel {
    pub content: Seq<char>,
    pub filename: Seq<char>,
}

/// [`DownloadLayerResponse`] as a mathematical value.
pub struct OutcomeModel {
    pub should_continue: bool,
    pub yamls: Seq<YamlModel>,
}

impl View for ArchiveEntry {
    type V = EntryModel;

    open spec fn view(&self) -> EntryModel {
        EntryModel { path: self.path@, content: self.content@ }
    }
}

impl View for Yaml {
    type V = YamlModel;

    open spec fn view(&self) -> YamlModel {
        YamlModel { content: self.content@, filename: self.filename@ }
    }
}

impl View for DownloadLayerResponse {
    type V = OutcomeModel;

    open spec fn view(&self) -> OutcomeModel {
        OutcomeModel { should_continue: self.should_continue, yamls: yaml_models(self.yamls@) }
    }
}

/// The files of a vector as mathematical values.
pub open spec fn yaml_models(yamls: Seq<Yaml>) -> Seq<YamlModel> {
    Seq::new(yamls.len(), |i: int| yamls[i]@)
}

/// The entries of a vector as mathematical values.
pub open spec fn entry_models(entries: Seq<ArchiveEntry>) -> Seq<EntryModel> {
    Seq::new(entries.len(), |i: int| entries[i]@)
}

/// The outcome of a scan that met no entry under the sentinel directory.
pub open spec fn unmatched() -> OutcomeModel {
    OutcomeModel { should_continue: true, yamls: Seq::empty() }
}

/// The file that an entry under the sentinel directory contributes: itself
/// under its file name, if it has one and its extension is the wanted one.
pub open spec fn kept(entry: EntryModel, wanted: Seq<char>) -> Option<YamlModel> {
    match file_name(entry.path) {
        Some(name) => if extension(name) == wanted {
            Some(YamlModel { content: entry.content, filename: name })
        } else {
            None
        },
        None => None,
    }
}

/// [`kept`] as a list of zero or one files.
pub open spec fn kept_files(entry: EntryModel, wanted: Seq<char>) -> Seq<YamlModel> {
    match kept(entry, wanted) {
        Some(file) => seq![file],
        None => Seq::empty(),
    }
}

/// The outcome of scanning `entries` in order.
pub open spec fn scan(
    entries: Seq<EntryModel>,
    prefix: Seq<char>,
    wanted: Seq<char>,
) -> OutcomeModel
    decreases entries.len(),
{
    if entries.len() == 0 || !is_under(entries[0].path, prefix) {
        unmatched()
    } else {
        OutcomeModel {
            should_continue: false,
            yamls: kept_files(entries[0], wanted) + scan(
                entries.drop_first(),
                prefix,
                wanted,
            ).yamls,
        }
    }
}

/// The number of entries at the head of `entries` that lie under `prefix`.
pub open spec fn run_len(entries: Seq<EntryModel>, prefix: Seq<char>) -> nat
    decreases entries.len(),
{
    if entries.len() == 0 || !is_under(entries[0].path, prefix) {
        0
    } else {
        1 + run_len(entries.drop_first(), prefix)
    }
}

/// The files that `entries` contribute when every one of them is looked at.
pub open spec fn all_kept(entries: Seq<EntryModel>, wanted: Seq<char>) -> Seq<YamlModel>
    decreases entries.len(),
{
    if entries.len() == 0 {
        Seq::empty()
    } else {
        kept_files(entries[0], wanted) + all_kept(entries.drop_first(), wanted)
    }
}

/// What to do with one entry.
#[derive(Debug, Clone, PartialEq, Eq)]
pub enum Step {
    /// The entry is outside the sentinel directory: the scan ends here.
    Stop,
    /// The entry is under the sentinel directory but is not kept.
    Skip,
    /// The entry is under the sentinel directory and yields this file.
    Keep(Yaml),
}

/// Decides what a scan does with an entry it has just read.
pub fn classify(entry: &ArchiveEntry, prefix: &str, wanted: &str) -> (step: Step)
    ensures
        match step {
            Step::Stop => !is_under(entry@.path, prefix@),
            Step::Skip => is_under(entry@.path, prefix@) && kept(entry@, wanted@) is None,
            Step::Keep(file) => is_under(entry@.path, prefix@) && kept(entry@, wanted@) == Some(
                file@,
            ),
        },
{
    if !under(entry.path.as_str(), prefix) {
        return Step::Stop;
    }
    match name_of(entry.path.as_str()) {
        None => Step::Skip,
        Some(name) => {
            if has_extension(name.as_str(), wanted) {
                Step::Keep(Yaml { content: entry.content.clone(), filename: name })
            } else {
                Step::Skip
            }
        },
    }
}

/// Scans the entries of one layer, in archive order.
///
/// The scan stops at the first entry that is not under `prefix`. The result
/// says whether any entry under `prefix` came before that, and holds the
/// files with extension `wanted` among those entries, in order.
pub fn extract(
    entries: &Vec<ArchiveEntry>,
    prefix: &str,
    wanted: &str,
) -> (out: DownloadLayerResponse)
    ensures
        out@ == scan(entry_models(entries@), prefix@, wanted@),
{
    let ghost all = entry_models(entries@);
    let mut should_continue = true;
    let mut yamls: Vec<Yaml> = Vec::new();
    let mut i: usize = 0;
    assert(all.subrange(0, all.len() as int) =~= all);
    while i < entries.len()
        invariant
            i <= entries.len(),
            all == entry_models(entries@),
            should_continue == (i == 0),
            scan(all, prefix@, wanted@) == (OutcomeModel {
                should_continue: should_continue && scan(
                    all.subrange(i as int, all.len() as int),
                    prefix@,
                    wanted@,
                ).should_continue,
                yamls: yaml_models(yamls@) + scan(
                    all.subrange(i as int, all.len() as int),
                    prefix@,
                    wanted@,
                ).yamls,
            }),
        decreases entries.len() - i,
    {
        let ghost rest = all.subrange(i as int, all.len() as int);
        let ghost before = yaml_models(yamls@);
        assert(rest.drop_first() =~= all.subrange(i + 1, all.len() as int));
        match classify(&entries[i], prefix, wanted) {
            Step::Stop => {
                return DownloadLayerResponse { should_continue, yamls };
            },
            Step::Skip => {},
            Step::Keep(file) => {
                let ghost tail = scan(rest.drop_first(), prefix@, wanted@).yamls;
                yamls.push(file);
                assert(yaml_models(yamls@) =~= before + seq![file@]);
                assert((before + seq![file@]) + tail =~= before + (seq![file@] + tail));
            },
        }
        should_continue = false;
        i += 1;
    }
    DownloadLayerResponse { should_continue, yamls }
}

/// A layer counts as found exactly when its first entry lies under the
/// sentinel directory; a layer that is not found yields no file.
pub proof fn lemma_found_iff_first_under(
    entries: Seq<EntryModel>,
    prefix: Seq<char>,
    wanted: Seq<char>,
)
    ensures
        !scan(entries, prefix, wanted).should_continue <==> (entries.len() > 0 && is_under(
            entries[0].path,
            prefix,
        )),
        scan(entries, prefix, wanted).should_continue ==> scan(entries, prefix, wanted).yamls.len()
            == 0,
{
}

/// The scan looks at the entries that open the archive under the sentinel
/// directory, at all of them and at no others: its files are the files kept
/// of exactly those entries.
pub proof fn lemma_scan_reads_leading_run(
    entries: Seq<EntryModel>,
    prefix: Seq<char>,
    wanted: Seq<char>,
)
    ensures
        run_len(entries, prefix) <= entries.len(),
        scan(entries, prefix, wanted).should_continue == (run_len(entries, prefix) == 0),
        scan(entries, prefix, wanted).yamls == all_kept(
            entries.take(run_len(entries, prefix) as int),
            wanted,
        ),
    decreases entries.len(),
{
    if entries.len() > 0 && is_under(entries[0].path, prefix) {
        let rest = entries.drop_first();
        lemma_scan_reads_leading_run(rest, prefix, wanted);
        assert(entries.take(run_len(entries, prefix) as int).drop_first() =~= rest.take(
            run_len(rest, prefix) as int,
        ));
    }
}

/// What follows the first entry outside the sentinel directory has no
/// influence on the outcome: if every entry of `head` lies under `prefix`
/// and `stop` does not, then scanning `head`, `stop` and any `tail` gives
/// what scanning `head` alone gives.
pub proof fn lemma_scan_stops_at_first_outsider(
    head: Seq<EntryModel>,
    stop: EntryModel,
    tail: Seq<EntryModel>,
    prefix: Seq<char>,
    wanted: Seq<char>,
)
    requires
        forall|i: int| 0 <= i < head.len() ==> is_under(head[i].path, prefix),
        !is_under(stop.path, prefix),
    ensures
        scan(head + seq![stop] + tail, prefix, wanted) == scan(head, prefix, wanted),
    decreases head.len(),
{
    if head.len() > 0 {
        assert((head + seq![stop] + tail).drop_first() =~= head.drop_first() + seq![stop] + tail);
        lemma_scan_stops_at_first_outsider(head.drop_first(), stop, tail, prefix, wanted);
    }
}

} // verus!
