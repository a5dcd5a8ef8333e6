use std::io::Write;
use tuber::archive::extract_layer;
use tuber::error::Error;
use tuber::extract::{DownloadLayerResponse, Yaml};
use tuber::manifest::LayerDescriptor;
use tuber::select::{select_by_command, Action, LayerSelector, MARKER};

const MEGABYTE: u64 = 1_000_000;

fn layer(digest: &str, size: u64) -> LayerDescriptor {
    LayerDescriptor { digest: digest.to_string(), size }
}

fn passed_over() -> DownloadLayerResponse {
    DownloadLayerResponse { should_continue: true, yamls: vec![] }
}

fn found(names: &[&str]) -> DownloadLayerResponse {
    DownloadLayerResponse {
        should_continue: false,
        yamls: names.iter().map(|n| Yaml { content: format!("{}!", n), filename: n.to_string() }).collect(),
    }
}

fn blob_of(entries: &[(&str, &str)]) -> Vec<u8> {
    let mut builder = tar::Builder::new(Vec::new());
    for (path, content) in entries {
        let mut header = tar::Header::new_gnu();
        header.set_size(content.len() as u64);
        header.set_mode(0o644);
        builder.append_data(&mut header, path, content.as_bytes()).unwrap();
    }
    let tar = builder.into_inner().unwrap();
    let mut encoder = flate2::write::GzEncoder::new(Vec::new(), flate2::Compression::default());
    encoder.write_all(&tar).unwrap();
    encoder.finish().unwrap()
}

/// Runs a search over an image whose blobs are at hand, and records the
/// layers that were fetched.
fn run(
    layers: &Vec<LayerDescriptor>,
    blobs: &[Vec<u8>],
    max_size: u64,
) -> (Result<DownloadLayerResponse, Error>, Vec<usize>) {
    let mut fetched = vec![];
    let mut selector = LayerSelector::new(layers, max_size);
    let mut action = selector.advance(layers, None);
    loop {
        match action {
            Action::Probe(i) => {
                fetched.push(i);
                match extract_layer(&blobs[i], ".tuber", "yaml") {
                    Ok(outcome) => action = selector.advance(layers, Some(outcome)),
                    Err(e) => return (Err(e), fetched),
                }
            }
            Action::Done(outcome) => return (Ok(outcome), fetched),
            Action::Fail(e) => return (Err(e), fetched),
        }
    }
}

#[test]
fn probes_run_from_the_newest_layer_to_the_oldest() {
    let layers = vec![layer("d0", 10), layer("d1", 20), layer("d2", 30), layer("d3", 40)];
    let mut selector = LayerSelector::new(&layers, MEGABYTE);
    assert_eq!(selector.advance(&layers, None), Action::Probe(3));
    assert_eq!(selector.advance(&layers, Some(passed_over())), Action::Probe(2));
    assert_eq!(selector.advance(&layers, Some(passed_over())), Action::Probe(1));
    assert_eq!(selector.advance(&layers, Some(passed_over())), Action::Probe(0));
    assert_eq!(selector.advance(&layers, Some(passed_over())), Action::Fail(Error::NotFound));
}

#[test]
fn oversized_layers_are_never_probed() {
    let layers = vec![
        layer("d0", 10),
        layer("d1", 2 * MEGABYTE),
        layer("d2", MEGABYTE + 1),
        layer("d3", 30),
        layer("d4", 5 * MEGABYTE),
    ];
    let mut selector = LayerSelector::new(&layers, MEGABYTE);
    assert_eq!(selector.advance(&layers, None), Action::Probe(3));
    assert_eq!(selector.advance(&layers, Some(passed_over())), Action::Probe(0));
    assert_eq!(selector.advance(&layers, Some(passed_over())), Action::Fail(Error::NotFound));
}

#[test]
fn a_layer_of_exactly_the_limit_is_probed() {
    let layers = vec![layer("d0", MEGABYTE), layer("d1", MEGABYTE + 1)];
    let mut selector = LayerSelector::new(&layers, MEGABYTE);
    assert_eq!(selector.advance(&layers, None), Action::Probe(0));
    let layers = vec![layer("d0", 0), layer("d1", u64::MAX)];
    let mut selector = LayerSelector::new(&layers, u64::MAX);
    assert_eq!(selector.advance(&layers, None), Action::Probe(1));
    let mut selector = LayerSelector::new(&layers, 0);
    assert_eq!(selector.advance(&layers, None), Action::Probe(0));
}

#[test]
fn the_first_layer_that_is_found_ends_the_search() {
    let layers = vec![layer("d0", 10), layer("d1", 20), layer("d2", 30)];
    let mut selector = LayerSelector::new(&layers, MEGABYTE);
    assert_eq!(selector.advance(&layers, None), Action::Probe(2));
    assert_eq!(selector.advance(&layers, Some(passed_over())), Action::Probe(1));
    let outcome = found(&["a.yaml", "b.yaml"]);
    assert_eq!(selector.advance(&layers, Some(outcome.clone())), Action::Done(outcome));
}

#[test]
fn a_found_layer_without_files_ends_the_search_too() {
    let layers = vec![layer("d0", 10), layer("d1", 20)];
    let mut selector = LayerSelector::new(&layers, MEGABYTE);
    assert_eq!(selector.advance(&layers, None), Action::Probe(1));
    assert_eq!(selector.advance(&layers, Some(found(&[]))), Action::Done(found(&[])));
}

#[test]
fn no_layer_at_all_is_not_found() {
    let layers = vec![];
    let mut selector = LayerSelector::new(&layers, MEGABYTE);
    assert_eq!(selector.advance(&layers, None), Action::Fail(Error::NotFound));
}

#[test]
fn only_oversized_layers_is_not_found() {
    let layers = vec![layer("d0", MEGABYTE + 1), layer("d1", 3 * MEGABYTE)];
    let mut selector = LayerSelector::new(&layers, MEGABYTE);
    assert_eq!(selector.advance(&layers, None), Action::Fail(Error::NotFound));
    assert_eq!(selector.advance(&layers, None), Action::Fail(Error::NotFound));
}

#[test]
fn search_takes_the_newest_layer_that_holds_the_sentinel() {
    let layers = vec![layer("d0", 100), layer("d1", 100), layer("d2", 100), layer("d3", 100)];
    let blobs = vec![
        blob_of(&[(".tuber/old.yaml", "old")]),
        blob_of(&[(".tuber/new.yaml", "new"), ("etc/x", "x")]),
        blob_of(&[("usr/bin/tool", "t")]),
        blob_of(&[("etc/app.yaml", "a")]),
    ];
    let (result, fetched) = run(&layers, &blobs, MEGABYTE);
    assert_eq!(fetched, vec![3, 2, 1]);
    let outcome = result.unwrap();
    assert_eq!(outcome.yamls.len(), 1);
    assert_eq!(outcome.yamls[0].filename, "new.yaml");
    assert_eq!(outcome.yamls[0].content, "new");
}

#[test]
fn search_goes_on_to_the_next_older_layer_after_a_miss() {
    let layers = vec![layer("d0", 100), layer("d1", 100)];
    let blobs = vec![blob_of(&[(".tuber/a.yaml", "a: 1")]), blob_of(&[("other/c.yaml", "c")])];
    let (result, fetched) = run(&layers, &blobs, MEGABYTE);
    assert_eq!(fetched, vec![1, 0]);
    assert_eq!(
        result,
        Ok(DownloadLayerResponse {
            should_continue: false,
            yamls: vec![Yaml { content: "a: 1".to_string(), filename: "a.yaml".to_string() }],
        })
    );
}

#[test]
fn search_does_not_fetch_an_oversized_layer_even_if_it_holds_the_sentinel() {
    let layers = vec![layer("d0", 100), layer("d1", MEGABYTE + 1), layer("d2", 100)];
    let blobs = vec![
        blob_of(&[("bin/sh", "s")]),
        blob_of(&[(".tuber/a.yaml", "a")]),
        blob_of(&[("etc/x", "x")]),
    ];
    let (result, fetched) = run(&layers, &blobs, MEGABYTE);
    assert_eq!(fetched, vec![2, 0]);
    assert_eq!(result, Err(Error::NotFound));
}

#[test]
fn search_without_a_match_is_not_found() {
    let layers = vec![layer("d0", 100), layer("d1", 100)];
    let blobs = vec![blob_of(&[("a", "a")]), blob_of(&[])];
    let (result, fetched) = run(&layers, &blobs, MEGABYTE);
    assert_eq!(fetched, vec![1, 0]);
    assert_eq!(result, Err(Error::NotFound));
}

#[test]
fn search_is_aborted_by_a_broken_layer() {
    let layers = vec![layer("d0", 100), layer("d1", 100)];
    let blobs = vec![blob_of(&[(".tuber/a.yaml", "a")]), b"broken".to_vec()];
    let (result, fetched) = run(&layers, &blobs, MEGABYTE);
    assert_eq!(fetched, vec![1]);
    assert_eq!(result, Err(Error::Archive));
}

#[test]
fn the_first_command_with_the_marker_chooses_the_layer() {
    let layers = vec![layer("d0", 0), layer("d1", 0), layer("d2", 0)];
    let history = vec!["RUN x".to_string(), "COPY y z".to_string(), "ENV a=b".to_string()];
    assert_eq!(select_by_command(&layers, &history, "COPY"), Ok(&layers[1]));
    assert_eq!(select_by_command(&layers, &history, "COPY").unwrap().digest, "d1");
    assert_eq!(MARKER, "COPY");
    assert_eq!(select_by_command(&layers, &history, MARKER), Ok(&layers[1]));
}

#[test]
fn of_several_commands_with_the_marker_the_first_wins() {
    let layers = vec![layer("d0", 0), layer("d1", 0), layer("d2", 0), layer("d3", 0)];
    let history = vec![
        "RUN x".to_string(),
        "/bin/sh -c #(nop) COPY a b".to_string(),
        "COPY c d".to_string(),
        "COPY e f".to_string(),
    ];
    assert_eq!(select_by_command(&layers, &history, "COPY"), Ok(&layers[1]));
    assert_eq!(select_by_command(&layers, &history, "COPY c"), Ok(&layers[2]));
    assert_eq!(select_by_command(&layers, &history, "RUN"), Ok(&layers[0]));
    assert_eq!(select_by_command(&layers, &history, ""), Ok(&layers[0]));
}

#[test]
fn no_command_with_the_marker_is_not_found() {
    let layers = vec![layer("d0", 0), layer("d1", 0)];
    let history = vec!["RUN x".to_string(), "ENV a=b".to_string()];
    assert_eq!(select_by_command(&layers, &history, "COPY"), Err(Error::NotFound));
    assert_eq!(select_by_command(&layers, &vec![], "COPY"), Err(Error::NotFound));
    assert_eq!(select_by_command(&vec![], &vec![], ""), Err(Error::NotFound));
}

#[test]
fn a_command_without_a_layer_beside_it_is_not_found() {
    let layers = vec![layer("d0", 0)];
    let history = vec!["RUN x".to_string(), "COPY y z".to_string()];
    assert_eq!(select_by_command(&layers, &history, "COPY"), Err(Error::NotFound));
    assert_eq!(select_by_command(&layers, &history, "RUN"), Ok(&layers[0]));
}
