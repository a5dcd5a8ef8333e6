//! Choosing the layer to read.
//!
//! For a current manifest the layers are probed from the newest to the
//! oldest, leaving out those that are too large to download; the first one
//! whose scan finds the sentinel directory is the answer. The probing itself
//! is the driver's work: [`LayerSelector`] tells it which layer to fetch next
//! and when to stop.
//!
//! For a legacy manifest the layer is the one built by the first history
//! command that holds a marker.

use vstd::prelude::*;
use vstd::string::*;
use crate::error::Error;
use crate::extract::DownloadLayerResponse;
use crate::manifest::LayerDescriptor;
use crate::text::{contains, contains_str, texts};

verus! {

/// The word by which the history of a legacy manifest is searched: the
/// build instruction that copies files into the image.
pub const MARKER: &'static str = "COPY";

/// Whether the layer at `i` may be downloaded: it exists and its declared
/// size does not exceed `max_size`.
pub open spec fn probeable(layers: Seq<LayerDescriptor>, max_size: u64, i: int) -> bool {
    0 <= i < layers.len() && layers[i].size <= max_size
}

/// The newest probeable layer among those older than `below`.
pub open spec fn next_probe(layers: Seq<LayerDescriptor>, max_size: u64, below: int) -> Option<int>
    decreases below,
{
    if below <= 0 {
        None
    } else if probeable(layers, max_size, below - 1) {
        Some(below - 1)
    } else {
        next_probe(layers, max_size, below - 1)
    }
}

/// The layers that a search probes if none of them is the answer, in the
/// order in which it probes them, beginning below `below`.
pub open spec fn probe_order(layers: Seq<LayerDescriptor>, max_size: u64, below: int) -> Seq<int>
    decreases below,
{
    if below <= 0 {
        Seq::empty()
    } else if probeable(layers, max_size, below - 1) {
        seq![below - 1] + probe_order(layers, max_size, below - 1)
    } else {
        probe_order(layers, max_size, below - 1)
    }
}

/// The layer at which a search that begins below `below` ends, where
/// `found[i]` says whether the scan of layer `i` finds the sentinel
/// directory; `None` where the search fails.
pub open spec fn search(
    layers: Seq<LayerDescriptor>,
    max_size: u64,
    found: Seq<bool>,
    below: int,
) -> Option<int>
    decreases below,
{
    if below <= 0 {
        None
    } else if probeable(layers, max_size, below - 1) && found[below - 1] {
        Some(below - 1)
    } else {
        search(layers, max_size, found, below - 1)
    }
}

/// What the driver of a search does next.
#[derive(Debug, Clone, PartialEq, Eq)]
pub enum Action {
    /// Fetch and scan the layer at this index, then hand the outcome to
    /// [`LayerSelector::advance`].
    Probe(usize),
    /// The search is over: this is the outcome of the chosen layer.
    Done(DownloadLayerResponse),
    /// The search is over without a layer.
    Fail(Error),
}

/// The state of a search through the layers of a current manifest.
#[derive(Debug)]
pub struct LayerSelector {
    max_size: u64,
    cursor: usize,
}

impl LayerSelector {
    /// The size above which a layer is not downloaded.
    pub closed spec fn max_size(&self) -> u64 {
        self.max_size
    }

    /// The layers still to be considered are those older than this index.
    pub closed spec fn cursor(&self) -> int {
        self.cursor as int
    }

    /// A search that has considered no layer yet.
    pub fn new(layers: &Vec<LayerDescriptor>, max_size: u64) -> (s: Self)
        ensures
            s.max_size() == max_size,
            s.cursor() == layers.len(),
    {
        LayerSelector { max_size, cursor: layers.len() }
    }

    /// Takes the search one step on.
    ///
    /// `last` is the outcome of the probe that the previous step asked for,
    /// and `None` at the first step. If that outcome found the sentinel
    /// directory the search ends with it. Otherwise the next probe is the
    /// newest layer, older than all that were considered, whose declared size
    /// does not exceed the limit; where there is none, the search fails with
    /// [`Error::NotFound`].
    pub fn advance(
        &mut self,
        layers: &Vec<LayerDescriptor>,
        last: Option<DownloadLayerResponse>,
    ) -> (action: Action)
        ensures
            final(self).max_size() == old(self).max_size(),
            if last is Some && !last->0.should_continue {
                &&& action == Action::Done(last->0)
                &&& final(self).cursor() == old(self).cursor()
            } else {
                match next_probe(layers@, old(self).max_size(), old(self).cursor()) {
                    Some(i) => action matches Action::Probe(k) && k == i && final(self).cursor()
                        == i,
                    None => action == Action::Fail(Error::NotFound) && final(self).cursor() == 0,
                }
            },
    {
        match last {
            Some(outcome) => {
                if !outcome.should_continue {
                    return Action::Done(outcome);
                }
            },
            None => {},
        }
        let mut i: usize = if self.cursor <= layers.len() {
            self.cursor
        } else {
            proof {
                lemma_next_probe_beyond(layers@, self.max_size, self.cursor as int);
            }
            layers.len()
        };
        while i > 0
            invariant
                i <= layers.len(),
                *self == *old(self),
                last is Some ==> last->0.should_continue,
                next_probe(layers@, self.max_size, i as int) == next_probe(
                    layers@,
                    self.max_size,
                    self.cursor as int,
                ),
            decreases i,
        {
            if layers[i - 1].size <= self.max_size {
                self.cursor = i - 1;
                return Action::Probe(i - 1);
            }
            i -= 1;
        }
        self.cursor = 0;
        Action::Fail(Error::NotFound)
    }
}

/// Indices past the end of the layer list do not count.
proof fn lemma_next_probe_beyond(layers: Seq<LayerDescriptor>, max_size: u64, below: int)
    requires
        below >= layers.len(),
    ensures
        next_probe(layers, max_size, below) == next_probe(layers, max_size, layers.len() as int),
    decreases below,
{
    if below > layers.len() {
        lemma_next_probe_beyond(layers, max_size, below - 1);
    }
}

/// The order of the probes: a search that finds nothing probes every layer
/// whose declared size is within the limit and no other, each once, newest
/// first.
pub proof fn lemma_probe_order(layers: Seq<LayerDescriptor>, max_size: u64, below: int)
    ensures
        forall|k: int|
            0 <= k < probe_order(layers, max_size, below).len() ==> {
                &&& probeable(layers, max_size, #[trigger] probe_order(layers, max_size, below)[k])
                &&& probe_order(layers, max_size, below)[k] < below
            },
        forall|j: int, k: int|
            0 <= j < k < probe_order(layers, max_size, below).len() ==> probe_order(
                layers,
                max_size,
                below,
            )[j] > probe_order(layers, max_size, below)[k],
        forall|i: int|
            probeable(layers, max_size, i) && i < below ==> probe_order(
                layers,
                max_size,
                below,
            ).contains(i),
    decreases below,
{
    let order = probe_order(layers, max_size, below);
    if below > 0 {
        lemma_probe_order(layers, max_size, below - 1);
        let older = probe_order(layers, max_size, below - 1);
        if probeable(layers, max_size, below - 1) {
            assert(order[0] == below - 1);
            assert forall|k: int| 1 <= k < order.len() implies order[k] == older[k - 1] by {}
            assert forall|i: int| probeable(layers, max_size, i) && i < below implies order.contains(
                i,
            ) by {
                if i < below - 1 {
                    let k = choose|k: int| 0 <= k < older.len() && older[k] == i;
                    assert(order[k + 1] == i);
                }
            }
        }
    }
}

/// Each probe is the next one of the order, and the search goes on below it:
/// the steps of a search that finds nothing spell out [`probe_order`].
pub proof fn lemma_probe_order_steps(layers: Seq<LayerDescriptor>, max_size: u64, below: int)
    ensures
        match next_probe(layers, max_size, below) {
            Some(i) => probe_order(layers, max_size, below) == seq![i] + probe_order(
                layers,
                max_size,
                i,
            ),
            None => probe_order(layers, max_size, below) == Seq::<int>::empty(),
        },
    decreases below,
{
    if below > 0 && !probeable(layers, max_size, below - 1) {
        lemma_probe_order_steps(layers, max_size, below - 1);
    }
}

/// A search ends at the next probe if that layer is found, and goes on below
/// it if not: the steps of a search spell out [`search`].
pub proof fn lemma_search_steps(
    layers: Seq<LayerDescriptor>,
    max_size: u64,
    found: Seq<bool>,
    below: int,
)
    ensures
        search(layers, max_size, found, below) == match next_probe(layers, max_size, below) {
            Some(i) => if found[i] {
                Some(i)
            } else {
                search(layers, max_size, found, i)
            },
            None => None,
        },
    decreases below,
{
    if below > 0 && !probeable(layers, max_size, below - 1) {
        lemma_search_steps(layers, max_size, found, below - 1);
    }
}

/// The outcome of a search: it ends at the newest layer that is within the
/// size limit and is found, and it fails exactly when every layer is too
/// large or not found.
pub proof fn lemma_search_outcome(
    layers: Seq<LayerDescriptor>,
    max_size: u64,
    found: Seq<bool>,
    below: int,
)
    ensures
        match search(layers, max_size, found, below) {
            Some(i) => {
                &&& i < below
                &&& probeable(layers, max_size, i)
                &&& found[i]
                &&& forall|j: int|
                    i < j < below && probeable(layers, max_size, j) ==> !#[trigger] found[j]
            },
            None => forall|j: int|
                j < below && probeable(layers, max_size, j) ==> !#[trigger] found[j],
        },
    decreases below,
{
    if below > 0 {
        lemma_search_outcome(layers, max_size, found, below - 1);
    }
}

/// The first command at or after `from` that holds `marker`.
pub open spec fn first_holding(
    commands: Seq<Seq<char>>,
    marker: Seq<char>,
    from: int,
) -> Option<int>
    decreases commands.len() - from,
{
    if from >= commands.len() {
        None
    } else if contains(commands[from], marker) {
        Some(from)
    } else {
        first_holding(commands, marker, from + 1)
    }
}

/// The layer of a legacy manifest that the history chooses: the one that
/// stands where the first command holding `marker` stands.
pub open spec fn command_choice(
    layer_count: nat,
    commands: Seq<Seq<char>>,
    marker: Seq<char>,
) -> Option<int> {
    match first_holding(commands, marker, 0) {
        Some(i) => if i < layer_count {
            Some(i)
        } else {
            None
        },
        None => None,
    }
}

/// Chooses a layer of a legacy manifest by its build command.
///
/// `history` holds the command behind each layer, in the order of `layers`.
/// The answer is the layer that stands where the first command holding
/// `marker` stands. Fails with [`Error::NotFound`] where no command holds the
/// marker, or where no layer stands at that place.
pub fn select_by_command<'a>(
    layers: &'a Vec<LayerDescriptor>,
    history: &Vec<String>,
    marker: &str,
) -> (r: Result<&'a LayerDescriptor, Error>)
    ensures
        match command_choice(layers@.len(), texts(history@), marker@) {
            Some(i) => r == Ok::<&LayerDescriptor, Error>(&layers@[i]),
            None => r == Err::<&LayerDescriptor, Error>(Error::NotFound),
        },
{
    let ghost commands = texts(history@);
    let mut i: usize = 0;
    while i < history.len()
        invariant
            i <= history.len(),
            commands == texts(history@),
            first_holding(commands, marker@, 0) == first_holding(commands, marker@, i as int),
        decreases history.len() - i,
    {
        if contains_str(history[i].as_str(), marker) {
            if i < layers.len() {
                return Ok(&layers[i]);
            } else {
                return Err(Error::NotFound);
            }
        }
        i += 1;
    }
    Err(Error::NotFound)
}

/// The first command that holds the marker is a command that holds it, and
/// none before it does; the choice fails exactly when no command holds the
/// marker or no layer stands where the first such command stands.
pub proof fn lemma_first_holding(commands: Seq<Seq<char>>, marker: Seq<char>, from: int)
    requires
        0 <= from,
    ensures
        match first_holding(commands, marker, from) {
            Some(i) => {
                &&& from <= i < commands.len()
                &&& contains(commands[i], marker)
                &&& forall|j: int| from <= j < i ==> !contains(#[trigger] commands[j], marker)
            },
            None => forall|j: int|
                from <= j < commands.len() ==> !contains(#[trigger] commands[j], marker),
        },
    decreases commands.len() - from,
{
    if from < commands.len() && !contains(commands[from], marker) {
        lemma_first_holding(commands, marker, from + 1);
    }
}

} // verus!
