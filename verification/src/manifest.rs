//! The manifest of an image: its layers, oldest first, and for the legacy
//! schema the build command behind each of them.
//!
//! Two shapes are read. A current manifest has a member `layers`, a list of
//! `{digest, size}`. A legacy manifest has a member `fsLayers`, a list of
//! `{blobSum}`, and beside it a member `history` of the same length; each
//! history entry holds, under `v1Compatibility`, the text of a second JSON
//! document, whose `container_config.Cmd` lists the words of the command.

use vstd::prelude::*;
use vstd::string::*;
use crate::endpoint::{is_success, success};
use crate::error::{Cause, Error};
use crate::json::{
    as_text, as_unsigned, items_at, json_document, json_tree, json_trees, member, parse_document,
    text_at, JsonModel,
};
use crate::text::texts;

verus! {

/// One layer of an image.
#[derive(Debug, Clone, PartialEq, Eq)]
pub struct LayerDescriptor {
    /// The content address of the layer's blob, such as `sha256:...`.
    pub digest: String,
    /// The size that the manifest declares for the blob, in bytes. A legacy
    /// manifest declares none; its layers are given the size 0.
    pub size: u64,
}

/// A parsed manifest.
#[derive(Debug, Clone, PartialEq, Eq)]
pub enum Manifest {
    /// The current schema.
    Current { layers: Vec<LayerDescriptor> },
    /// The legacy schema: `history[i]` is the command behind `layers[i]`, its
    /// words joined by single spaces. The two lists have the same length.
    Legacy { layers: Vec<LayerDescriptor>, history: Vec<String> },
}

/// [`LayerDescriptor`] as a mathematical value.
pub struct LayerModel {
    pub digest: Seq<char>,
    pub size: u64,
}

/// [`Manifest`] as a mathematical value.
pub enum ManifestModel {
    Current { layers: Seq<LayerModel> },
    Legacy { layers: Seq<LayerModel>, history: Seq<Seq<char>> },
}

impl View for LayerDescriptor {
    type V = LayerModel;

    open spec fn view(&self) -> LayerModel {
        LayerModel { digest: self.digest@, size: self.size }
    }
}

/// The layers of a vector as mathematical values.
pub open spec fn layer_models(layers: Seq<LayerDescriptor>) -> Seq<LayerModel> {
    Seq::new(layers.len(), |i: int| layers[i]@)
}

impl View for Manifest {
    type V = ManifestModel;

    open spec fn view(&self) -> ManifestModel {
        match self {
            Manifest::Current { layers } => ManifestModel::Current {
                layers: layer_models(layers@),
            },
            Manifest::Legacy { layers, history } => ManifestModel::Legacy {
                layers: layer_models(layers@),
                history: texts(history@),
            },
        }
    }
}

/// The words of a command joined by single spaces.
pub open spec fn join(words: Seq<Seq<char>>) -> Seq<char>
    decreases words.len(),
{
    if words.len() == 0 {
        Seq::empty()
    } else if words.len() == 1 {
        words[0]
    } else {
        join(words.drop_last()) + seq![' '] + words.last()
    }
}

/// The layer that an entry of `layers` describes.
pub open spec fn sized_layer(item: JsonModel) -> Option<LayerModel> {
    match (item.text_member("digest"@), item.member("size"@)) {
        (Some(digest), Some(number)) => match number.unsigned() {
            Some(size) => Some(LayerModel { digest, size }),
            None => None,
        },
        _ => None,
    }
}

/// The layer that an entry of `fsLayers` describes.
pub open spec fn bare_layer(item: JsonModel) -> Option<LayerModel> {
    match item.text_member("blobSum"@) {
        Some(digest) => Some(LayerModel { digest, size: 0 }),
        None => None,
    }
}

/// The layers that the entries of `layers` describe, if each describes one.
pub open spec fn sized_layers(items: Seq<JsonModel>) -> Option<Seq<LayerModel>> {
    if forall|i: int| 0 <= i < items.len() ==> (#[trigger] sized_layer(items[i])) is Some {
        Some(Seq::new(items.len(), |i: int| sized_layer(items[i])->0))
    } else {
        None
    }
}

/// The layers that the entries of `fsLayers` describe, if each describes one.
pub open spec fn bare_layers(items: Seq<JsonModel>) -> Option<Seq<LayerModel>> {
    if forall|i: int| 0 <= i < items.len() ==> (#[trigger] bare_layer(items[i])) is Some {
        Some(Seq::new(items.len(), |i: int| bare_layer(items[i])->0))
    } else {
        None
    }
}

/// The texts of a list of JSON strings, if each item is a string.
pub open spec fn words_of(items: Seq<JsonModel>) -> Option<Seq<Seq<char>>> {
    if forall|i: int| 0 <= i < items.len() ==> (#[trigger] items[i].text()) is Some {
        Some(Seq::new(items.len(), |i: int| items[i].text()->0))
    } else {
        None
    }
}

/// The command that an embedded document exposes: the words under
/// `container_config.Cmd`, joined.
pub open spec fn command_in(document: JsonModel) -> Option<Seq<char>> {
    match document.member("container_config"@) {
        Some(config) => match config.items_member("Cmd"@) {
            Some(items) => match words_of(items) {
                Some(words) => Some(join(words)),
                None => None,
            },
            None => None,
        },
        None => None,
    }
}

/// The command that the text of an embedded document exposes.
pub open spec fn command_of(embedded: Seq<char>) -> Option<Seq<char>> {
    match json_document(embedded) {
        Some(document) => command_in(document),
        None => None,
    }
}

/// The command behind a history entry.
pub open spec fn entry_command(entry: JsonModel) -> Option<Seq<char>> {
    match entry.text_member("v1Compatibility"@) {
        Some(embedded) => command_of(embedded),
        None => None,
    }
}

/// The commands behind the entries of `history`, if each has one.
pub open spec fn commands_of(items: Seq<JsonModel>) -> Option<Seq<Seq<char>>> {
    if forall|i: int| 0 <= i < items.len() ==> (#[trigger] entry_command(items[i])) is Some {
        Some(Seq::new(items.len(), |i: int| entry_command(items[i])->0))
    } else {
        None
    }
}

/// The current manifest that a list of layer entries makes.
pub open spec fn current_of(items: Option<Seq<JsonModel>>) -> Option<ManifestModel> {
    match items {
        Some(items) => match sized_layers(items) {
            Some(layers) => Some(ManifestModel::Current { layers }),
            None => None,
        },
        None => None,
    }
}

/// The legacy manifest that a list of layer entries and a list of history
/// entries make.
pub open spec fn legacy_of(
    layers: Option<Seq<JsonModel>>,
    history: Option<Seq<JsonModel>>,
) -> Option<ManifestModel> {
    match (layers, history) {
        (Some(layers), Some(history)) => match (bare_layers(layers), commands_of(history)) {
            (Some(layers), Some(history)) => if layers.len() == history.len() {
                Some(ManifestModel::Legacy { layers, history })
            } else {
                None
            },
            _ => None,
        },
        _ => None,
    }
}

/// The manifest that a document describes. A document with a member
/// `layers` is read as a current manifest; any other is read as a legacy
/// one.
pub open spec fn manifest_in(document: JsonModel) -> Option<ManifestModel> {
    if document.member("layers"@) is Some {
        current_of(document.items_member("layers"@))
    } else {
        legacy_of(document.items_member("fsLayers"@), document.items_member("history"@))
    }
}

/// The manifest that the body of an answer describes.
pub open spec fn manifest_of(body: Seq<char>) -> Option<ManifestModel> {
    match json_document(body) {
        Some(document) => manifest_in(document),
        None => None,
    }
}

/// What reading a body gives: the manifest, or [`Error::Manifest`] for a
/// body of another shape.
pub open spec fn manifest_read(
    manifest: Option<ManifestModel>,
    r: Result<Manifest, Error>,
) -> bool {
    match manifest {
        Some(model) => r matches Ok(manifest) && manifest@ == model,
        None => r == Err::<Manifest, Error>(Error::Manifest(Cause::Body)),
    }
}

/// Joins the words of a command by single spaces.
pub fn join_words(words: &Vec<String>) -> (command: String)
    ensures
        command@ == join(texts(words@)),
{
    let ghost all = texts(words@);
    let mut command = String::new();
    let mut i: usize = 0;
    while i < words.len()
        invariant
            i <= words.len(),
            all == texts(words@),
            command@ == join(all.take(i as int)),
        decreases words.len() - i,
    {
        if i > 0 {
            proof {
                reveal_strlit(" ");
            }
            command.append(" ");
        }
        command.append(words[i].as_str());
        assert(all.take(i + 1).drop_last() =~= all.take(i as int));
        i += 1;
    }
    assert(all.take(words.len() as int) =~= all);
    command
}

fn read_sized_layers(items: &Vec<serde_json::Value>) -> (r: Option<Vec<LayerDescriptor>>)
    ensures
        match r {
            Some(layers) => sized_layers(json_trees(items@)) == Some(layer_models(layers@)),
            None => sized_layers(json_trees(items@)) is None,
        },
{
    let mut layers: Vec<LayerDescriptor> = Vec::new();
    let mut i: usize = 0;
    while i < items.len()
        invariant
            i <= items.len(),
            layers.len() == i,
            forall|j: int| 0 <= j < i ==> sized_layer(json_trees(items@)[j]) == Some(layers@[j]@),
        decreases items.len() - i,
    {
        let digest = match text_at(&items[i], "digest") {
            Some(digest) => digest,
            None => {
                return None;
            },
        };
        let size = match member(&items[i], "size") {
            Some(number) => match as_unsigned(number) {
                Some(size) => size,
                None => {
                    return None;
                },
            },
            None => {
                assert(sized_layer(json_trees(items@)[i as int]) is None);
                return None;
            },
        };
        layers.push(LayerDescriptor { digest: digest.to_owned(), size });
        i += 1;
    }
    Some(layers)
}

fn read_bare_layers(items: &Vec<serde_json::Value>) -> (r: Option<Vec<LayerDescriptor>>)
    ensures
        match r {
            Some(layers) => bare_layers(json_trees(items@)) == Some(layer_models(layers@)),
            None => bare_layers(json_trees(items@)) is None,
        },
{
    let mut layers: Vec<LayerDescriptor> = Vec::new();
    let mut i: usize = 0;
    while i < items.len()
        invariant
            i <= items.len(),
            layers.len() == i,
            forall|j: int| 0 <= j < i ==> bare_layer(json_trees(items@)[j]) == Some(layers@[j]@),
        decreases items.len() - i,
    {
        match text_at(&items[i], "blobSum") {
            Some(digest) => {
                layers.push(LayerDescriptor { digest: digest.to_owned(), size: 0 });
            },
            None => {
                assert(bare_layer(json_trees(items@)[i as int]) is None);
                return None;
            },
        }
        i += 1;
    }
    Some(layers)
}

fn read_words(items: &Vec<serde_json::Value>) -> (r: Option<Vec<String>>)
    ensures
        match r {
            Some(words) => words_of(json_trees(items@)) == Some(texts(words@)),
            None => words_of(json_trees(items@)) is None,
        },
{
    let mut words: Vec<String> = Vec::new();
    let mut i: usize = 0;
    while i < items.len()
        invariant
            i <= items.len(),
            words.len() == i,
            forall|j: int| 0 <= j < i ==> json_trees(items@)[j].text() == Some(words@[j]@),
        decreases items.len() - i,
    {
        match as_text(&items[i]) {
            Some(word) => {
                words.push(word.to_owned());
            },
            None => {
                assert(json_trees(items@)[i as int].text() is None);
                return None;
            },
        }
        i += 1;
    }
    Some(words)
}

/// What decoding gives: the command, or [`Error::Manifest`] where there is
/// none.
pub open spec fn command_read(command: Option<Seq<char>>, r: Result<String, Error>) -> bool {
    match command {
        Some(text) => r matches Ok(command) && command@ == text,
        None => r == Err::<String, Error>(Error::Manifest(Cause::Body)),
    }
}

/// Takes the command out of a parsed embedded document.
pub fn command_from_document(document: &serde_json::Value) -> (r: Result<String, Error>)
    ensures
        command_read(command_in(json_tree(*document)), r),
{
    let config = match member(document, "container_config") {
        Some(config) => config,
        None => {
            return Err(Error::Manifest(Cause::Body));
        },
    };
    let items = match items_at(config, "Cmd") {
        Some(items) => items,
        None => {
            return Err(Error::Manifest(Cause::Body));
        },
    };
    match read_words(items) {
        Some(words) => Ok(join_words(&words)),
        None => Err(Error::Manifest(Cause::Body)),
    }
}

/// Decodes the document embedded in a history entry into the command it
/// exposes.
pub fn decode_command(embedded: &str) -> (r: Result<String, Error>)
    ensures
        command_read(command_of(embedded@), r),
{
    match parse_document(embedded) {
        Some(document) => command_from_document(&document),
        None => Err(Error::Manifest(Cause::Body)),
    }
}

fn read_commands(items: &Vec<serde_json::Value>) -> (r: Option<Vec<String>>)
    ensures
        match r {
            Some(commands) => commands_of(json_trees(items@)) == Some(texts(commands@)),
            None => commands_of(json_trees(items@)) is None,
        },
{
    let mut commands: Vec<String> = Vec::new();
    let mut i: usize = 0;
    while i < items.len()
        invariant
            i <= items.len(),
            commands.len() == i,
            forall|j: int| 0 <= j < i ==> entry_command(json_trees(items@)[j]) == Some(commands@[j]@),
        decreases items.len() - i,
    {
        let embedded = match text_at(&items[i], "v1Compatibility") {
            Some(embedded) => embedded,
            None => {
                return None;
            },
        };
        match decode_command(embedded) {
            Ok(command) => {
                commands.push(command);
            },
            Err(_) => {
                assert(entry_command(json_trees(items@)[i as int]) is None);
                return None;
            },
        }
        i += 1;
    }
    Some(commands)
}

/// Reads a parsed manifest document.
pub fn manifest_from_document(document: &serde_json::Value) -> (r: Result<Manifest, Error>)
    ensures
        manifest_read(manifest_in(json_tree(*document)), r),
{
    if member(document, "layers").is_some() {
        let items = match items_at(document, "layers") {
            Some(items) => items,
            None => {
                return Err(Error::Manifest(Cause::Body));
            },
        };
        return match read_sized_layers(items) {
            Some(layers) => Ok(Manifest::Current { layers }),
            None => Err(Error::Manifest(Cause::Body)),
        };
    }
    let layer_items = match items_at(document, "fsLayers") {
        Some(items) => items,
        None => {
            return Err(Error::Manifest(Cause::Body));
        },
    };
    let history_items = match items_at(document, "history") {
        Some(items) => items,
        None => {
            return Err(Error::Manifest(Cause::Body));
        },
    };
    let layers = match read_bare_layers(layer_items) {
        Some(layers) => layers,
        None => {
            return Err(Error::Manifest(Cause::Body));
        },
    };
    let history = match read_commands(history_items) {
        Some(history) => history,
        None => {
            return Err(Error::Manifest(Cause::Body));
        },
    };
    if layers.len() != history.len() {
        return Err(Error::Manifest(Cause::Body));
    }
    Ok(Manifest::Legacy { layers, history })
}

/// Parses the body of the manifest endpoint's answer.
pub fn parse_manifest(body: &str) -> (r: Result<Manifest, Error>)
    ensures
        manifest_read(manifest_of(body@), r),
{
    match parse_document(body) {
        Some(document) => manifest_from_document(&document),
        None => Err(Error::Manifest(Cause::Body)),
    }
}

/// Reads the answer of the manifest endpoint.
///
/// Fails with [`Error::Manifest`] where `status` is not a success status, and
/// where the body has neither the shape of a current manifest nor that of a
/// legacy one.
pub fn read_manifest(status: u16, body: &str) -> (r: Result<Manifest, Error>)
    ensures
        if success(status) {
            manifest_read(manifest_of(body@), r)
        } else {
            r == Err::<Manifest, Error>(Error::Manifest(Cause::Status(status)))
        },
{
    if !is_success(status) {
        return Err(Error::Manifest(Cause::Status(status)));
    }
    parse_manifest(body)
}

/// A document whose member `layers` lists objects, each with a string
/// `digest` and an unsigned `size`, is a current manifest of exactly those
/// layers, in that order, whatever else the document and the objects hold.
pub proof fn lemma_current_manifest(
    document: JsonModel,
    items: Seq<JsonModel>,
    layers: Seq<LayerModel>,
)
    requires
        document.member("layers"@) == Some(JsonModel::List(items)),
        items.len() == layers.len(),
        forall|i: int|
            0 <= i < items.len() ==> {
                &&& (#[trigger] items[i]).member("digest"@) == Some(
                    JsonModel::Text(layers[i].digest),
                )
                &&& items[i].member("size"@) == Some(JsonModel::Unsigned(layers[i].size))
            },
    ensures
        manifest_in(document) == Some(ManifestModel::Current { layers }),
{
    assert forall|i: int| 0 <= i < items.len() implies #[trigger] sized_layer(items[i]) == Some(
        layers[i],
    ) by {}
    assert(sized_layers(items)->0 =~= layers);
}

/// A document without a member `layers`, whose member `fsLayers` lists
/// objects with a string `blobSum` and whose member `history` lists as many
/// entries, each with a command behind it, is a legacy manifest of exactly
/// those layers and commands, in that order.
pub proof fn lemma_legacy_manifest(
    document: JsonModel,
    layer_items: Seq<JsonModel>,
    history_items: Seq<JsonModel>,
    layers: Seq<LayerModel>,
    history: Seq<Seq<char>>,
)
    requires
        document.member("layers"@) is None,
        document.member("fsLayers"@) == Some(JsonModel::List(layer_items)),
        document.member("history"@) == Some(JsonModel::List(history_items)),
        layer_items.len() == layers.len(),
        history_items.len() == history.len(),
        layers.len() == history.len(),
        forall|i: int|
            0 <= i < layer_items.len() ==> {
                &&& (#[trigger] layer_items[i]).member("blobSum"@) == Some(
                    JsonModel::Text(layers[i].digest),
                )
                &&& layers[i].size == 0
            },
        forall|i: int|
            0 <= i < history_items.len() ==> entry_command(#[trigger] history_items[i]) == Some(
                history[i],
            ),
    ensures
        manifest_in(document) == Some(ManifestModel::Legacy { layers, history }),
{
    assert forall|i: int| 0 <= i < layer_items.len() implies #[trigger] bare_layer(
        layer_items[i],
    ) == Some(layers[i]) by {}
    assert(bare_layers(layer_items)->0 =~= layers);
    assert(commands_of(history_items)->0 =~= history);
}

/// An embedded document whose `container_config.Cmd` lists strings exposes
/// those strings joined by single spaces.
pub proof fn lemma_command_in(
    document: JsonModel,
    config: JsonModel,
    items: Seq<JsonModel>,
    words: Seq<Seq<char>>,
)
    requires
        document.member("container_config"@) == Some(config),
        config.member("Cmd"@) == Some(JsonModel::List(items)),
        items.len() == words.len(),
        forall|i: int| 0 <= i < items.len() ==> #[trigger] items[i] == JsonModel::Text(words[i]),
    ensures
        command_in(document) == Some(join(words)),
{
    assert forall|i: int| 0 <= i < items.len() implies (#[trigger] items[i].text()) == Some(
        words[i],
    ) by {}
    assert(words_of(items)->0 =~= words);
}

/// Joining no word gives the empty command, joining one word gives that
/// word, and a further word is set behind a single space.
pub proof fn lemma_join(words: Seq<Seq<char>>, word: Seq<char>)
    ensures
        join(Seq::empty()) == Seq::<char>::empty(),
        join(seq![word]) == word,
        words.len() > 0 ==> join(words.push(word)) == join(words) + seq![' '] + word,
{
    if words.len() > 0 {
        assert(words.push(word).drop_last() =~= words);
    }
}

} // verus!
