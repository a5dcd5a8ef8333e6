use tuber::extract::{
    classify, extract, ArchiveEntry, DownloadLayerResponse, Step, Yaml, EXTENSION, SENTINEL,
};

fn entry(path: &str, content: &str) -> ArchiveEntry {
    ArchiveEntry { path: path.to_string(), content: content.to_string() }
}

fn yaml(filename: &str, content: &str) -> Yaml {
    Yaml { content: content.to_string(), filename: filename.to_string() }
}

#[test]
fn keeps_the_yaml_before_the_first_outsider() {
    let entries =
        vec![entry(".tuber/a.yaml", "a: 1"), entry(".tuber/b.txt", "text"), entry("other/c.yaml", "c: 3")];
    let out = extract(&entries, ".tuber", "yaml");
    assert!(!out.should_continue);
    assert_eq!(out.yamls.len(), 1);
    assert_eq!(out.yamls[0].filename, "a.yaml");
    assert_eq!(out.yamls[0].content, "a: 1");
}

#[test]
fn the_fixed_filters_are_the_tuber_directory_and_yaml() {
    assert_eq!(SENTINEL, ".tuber");
    assert_eq!(EXTENSION, "yaml");
    let entries = vec![entry(".tuber/a.yaml", "a"), entry(".tuber/a.yml", "b"), entry("tuber/c.yaml", "c")];
    let out = extract(&entries, SENTINEL, EXTENSION);
    assert_eq!(out, DownloadLayerResponse { should_continue: false, yamls: vec![yaml("a.yaml", "a")] });
}

#[test]
fn never_reaches_entries_behind_an_outsider() {
    let entries = vec![
        entry(".tuber/a.yaml", "a: 1"),
        entry("other/c.yaml", "c: 3"),
        entry(".tuber/d.yaml", "d: 4"),
    ];
    let out = extract(&entries, ".tuber", "yaml");
    assert_eq!(
        out,
        DownloadLayerResponse { should_continue: false, yamls: vec![yaml("a.yaml", "a: 1")] }
    );
}

#[test]
fn what_follows_the_outsider_does_not_matter() {
    let head = vec![entry(".tuber/", ""), entry(".tuber/a.yaml", "a"), entry(".tuber/b.yaml", "b")];
    let stop = entry("etc/passwd", "root");
    let tails: Vec<Vec<ArchiveEntry>> = vec![
        vec![],
        vec![entry(".tuber/late.yaml", "late")],
        vec![entry("usr/x.yaml", "x"), entry(".tuber/later.yaml", "later")],
    ];
    let expected = extract(&head, ".tuber", "yaml");
    assert_eq!(expected.yamls, vec![yaml("a.yaml", "a"), yaml("b.yaml", "b")]);
    for tail in tails {
        let mut all = head.clone();
        all.push(stop.clone());
        all.extend(tail);
        assert_eq!(extract(&all, ".tuber", "yaml"), expected);
    }
}

#[test]
fn a_layer_without_the_sentinel_is_not_the_one() {
    let entries = vec![entry("etc/", ""), entry("etc/config.yaml", "x"), entry("usr/bin/tool", "y")];
    let out = extract(&entries, ".tuber", "yaml");
    assert_eq!(out, DownloadLayerResponse { should_continue: true, yamls: vec![] });
}

#[test]
fn a_sentinel_behind_an_outsider_is_not_seen() {
    let entries = vec![entry("other/x", ""), entry(".tuber/a.yaml", "a: 1")];
    let out = extract(&entries, ".tuber", "yaml");
    assert_eq!(out, DownloadLayerResponse { should_continue: true, yamls: vec![] });
}

#[test]
fn an_empty_layer_is_not_the_one() {
    let out = extract(&vec![], ".tuber", "yaml");
    assert_eq!(out, DownloadLayerResponse { should_continue: true, yamls: vec![] });
}

#[test]
fn a_sentinel_entry_without_yaml_still_ends_the_search() {
    let out = extract(&vec![entry(".tuber/b.txt", "text")], ".tuber", "yaml");
    assert_eq!(out, DownloadLayerResponse { should_continue: false, yamls: vec![] });
    let out = extract(&vec![entry(".tuber/", "")], ".tuber", "yaml");
    assert_eq!(out, DownloadLayerResponse { should_continue: false, yamls: vec![] });
}

#[test]
fn keeps_files_in_archive_order() {
    let entries = vec![
        entry(".tuber/", ""),
        entry(".tuber/z.yaml", "z"),
        entry(".tuber/notes.md", "n"),
        entry(".tuber/sub/a.yaml", "a"),
        entry(".tuber/m.yaml", "m"),
    ];
    let out = extract(&entries, ".tuber", "yaml");
    assert!(!out.should_continue);
    assert_eq!(out.yamls, vec![yaml("z.yaml", "z"), yaml("a.yaml", "a"), yaml("m.yaml", "m")]);
}

#[test]
fn the_filters_are_parameters() {
    let entries = vec![entry("conf/a.toml", "a"), entry("conf/b.yaml", "b"), entry(".tuber/c.toml", "c")];
    let out = extract(&entries, "conf", "toml");
    assert_eq!(out, DownloadLayerResponse { should_continue: false, yamls: vec![yaml("a.toml", "a")] });
}

#[test]
fn the_empty_extension_keeps_names_without_one() {
    let entries = vec![entry(".tuber/", "d"), entry(".tuber/README", "r"), entry(".tuber/a.yaml", "a")];
    let out = extract(&entries, ".tuber", "");
    assert_eq!(out.yamls, vec![yaml(".tuber", "d"), yaml("README", "r")]);
}

#[test]
fn an_entry_without_a_file_name_is_not_kept() {
    let entries = vec![entry(".tuber/..", "up"), entry(".tuber/a.yaml", "a")];
    let out = extract(&entries, ".tuber", "");
    assert_eq!(out, DownloadLayerResponse { should_continue: false, yamls: vec![] });
    assert_eq!(classify(&entries[0], ".tuber", ""), Step::Skip);
}

#[test]
fn classify_tells_the_three_cases_apart() {
    assert_eq!(classify(&entry("other/c.yaml", "c"), ".tuber", "yaml"), Step::Stop);
    assert_eq!(classify(&entry(".tuber/b.txt", "b"), ".tuber", "yaml"), Step::Skip);
    assert_eq!(
        classify(&entry(".tuber/a.yaml", "a: 1"), ".tuber", "yaml"),
        Step::Keep(yaml("a.yaml", "a: 1"))
    );
}

#[test]
fn extract_agrees_with_classify_entry_by_entry() {
    let entries = vec![
        entry(".tuber/a.yaml", "a"),
        entry(".tuber/b.txt", "b"),
        entry(".tuber/c.yaml", "c"),
        entry("x", "x"),
        entry(".tuber/d.yaml", "d"),
    ];
    let mut seen = false;
    let mut files = vec![];
    for e in &entries {
        match classify(e, ".tuber", "yaml") {
            Step::Stop => break,
            Step::Skip => seen = true,
            Step::Keep(file) => {
                seen = true;
                files.push(file);
            }
        }
    }
    let out = extract(&entries, ".tuber", "yaml");
    assert_eq!(out.should_continue, !seen);
    assert_eq!(out.yamls, files);
}
