use mtgcanvas::{
    candidate_paths, decide, is_blank, ping, universe_candidates, LoadError, Loader, Probe, Step,
    FALLBACK, PREFERRED,
};

/// Runs a search over `paths`, answering each request from `found`, which
/// gives the probe for each path in order. Returns the result and the paths
/// that were asked for.
fn run(paths: &[&str], found: Vec<Probe>) -> (Result<String, LoadError>, Vec<String>) {
    let candidates: Vec<String> = paths.iter().map(|p| p.to_string()).collect();
    let (mut loader, mut step) = Loader::begin(candidates);
    let mut found = found.into_iter();
    let mut asked = Vec::new();
    loop {
        match step {
            Step::Probe(path) => {
                let probe = found.next().expect("a probe for every path asked for");
                asked.push(path);
                step = loader.observe(probe);
            }
            Step::Done(result) => return (result, asked),
        }
    }
}

fn read(text: &str) -> Probe {
    Probe::Read(text.to_string())
}

#[test]
fn ping_answers_pong() {
    assert_eq!(ping(), "pong");
    for _ in 0..3 {
        assert_eq!(ping(), "pong");
    }
}

#[test]
fn universe_candidates_in_priority_order() {
    let c = universe_candidates();
    assert_eq!(
        c,
        vec![
            "legal.json",
            "../legal.json",
            "../../legal.json",
            "../notes/legal.json",
            "../../notes/legal.json",
            "all.json",
            "../all.json",
            "../../all.json",
            "../notes/all.json",
            "../../notes/all.json",
        ]
    );
    assert_eq!(PREFERRED, "legal.json");
    assert_eq!(FALLBACK, "all.json");
}

#[test]
fn candidate_paths_names_major() {
    let c = candidate_paths(&vec!["x.json", "y.json"], &vec!["", "d/"]);
    assert_eq!(c, vec!["x.json", "d/x.json", "y.json", "d/y.json"]);
    assert!(candidate_paths(&vec![], &vec!["d/"]).is_empty());
    assert!(candidate_paths(&vec!["x.json"], &vec![]).is_empty());
}

#[test]
fn nothing_present_is_not_found() {
    let (r, asked) = run(&["legal.json", "all.json"], vec![Probe::Missing, Probe::Missing]);
    assert_eq!(r, Err(LoadError::NotFound));
    assert_eq!(asked, vec!["legal.json", "all.json"]);
    let m = r.unwrap_err().message();
    assert!(m.contains("legal.json"));
    assert!(m.contains("all.json"));
    assert_eq!(m, "legal.json or all.json not found in expected locations");
}

#[test]
fn no_candidates_is_not_found() {
    let (r, asked) = run(&[], vec![]);
    assert_eq!(r, Err(LoadError::NotFound));
    assert!(asked.is_empty());
}

#[test]
fn first_candidate_text_returned_exactly() {
    let text = "  [{\"name\": \"Island\"}]\n";
    let (r, asked) = run(&["legal.json", "../legal.json"], vec![read(text), read("{}")]);
    assert_eq!(r, Ok(text.to_string()));
    assert_eq!(asked, vec!["legal.json"]);
}

#[test]
fn earlier_candidate_takes_precedence() {
    let (r, asked) = run(
        &["legal.json", "all.json"],
        vec![read("{\"first\":1}"), read("{\"second\":2}")],
    );
    assert_eq!(r, Ok("{\"first\":1}".to_string()));
    assert_eq!(asked.len(), 1);
}

#[test]
fn blank_candidate_skipped() {
    let (r, asked) = run(
        &["legal.json", "../legal.json", "all.json"],
        vec![read(" \n\t "), Probe::Missing, read("[1]")],
    );
    assert_eq!(r, Ok("[1]".to_string()));
    assert_eq!(asked, vec!["legal.json", "../legal.json", "all.json"]);
}

#[test]
fn blank_last_candidate_is_not_found() {
    let (r, _) = run(&["legal.json", "all.json"], vec![Probe::Missing, read("\u{3000}\r\n")]);
    assert_eq!(r, Err(LoadError::NotFound));
}

#[test]
fn open_failure_stops_search() {
    let (r, asked) = run(
        &["legal.json", "../legal.json", "all.json"],
        vec![Probe::Missing, Probe::OpenFailed("Permission denied (os error 13)".to_string()), read("[]")],
    );
    let e = r.unwrap_err();
    assert_eq!(
        e,
        LoadError::OpenFailure {
            path: "../legal.json".to_string(),
            cause: "Permission denied (os error 13)".to_string(),
        }
    );
    assert_eq!(asked, vec!["legal.json", "../legal.json"]);
    assert_eq!(e.message(), "open error ../legal.json: Permission denied (os error 13)");
}

#[test]
fn read_failure_stops_search() {
    let (r, asked) = run(
        &["legal.json", "all.json"],
        vec![Probe::ReadFailed("stream did not contain valid UTF-8".to_string()), read("[]")],
    );
    let e = r.unwrap_err();
    assert_eq!(
        e,
        LoadError::ReadFailure {
            path: "legal.json".to_string(),
            cause: "stream did not contain valid UTF-8".to_string(),
        }
    );
    assert_eq!(asked, vec!["legal.json"]);
    assert_eq!(e.message(), "read error legal.json: stream did not contain valid UTF-8");
}

#[test]
fn scenario_second_location_present() {
    let (r, _) = run(&["legal.json", "../legal.json"], vec![Probe::Missing, read("{\"a\":1}")]);
    assert_eq!(r, Ok("{\"a\":1}".to_string()));
}

#[test]
fn scenario_only_candidate_empty() {
    let (r, _) = run(&["all.json"], vec![read("")]);
    assert_eq!(r, Err(LoadError::NotFound));
}

#[test]
fn universe_search_asks_preferred_first() {
    let (_, step) = Loader::for_universe();
    assert_eq!(step, Step::Probe("legal.json".to_string()));
}

#[test]
fn blank_text_detection() {
    assert!(is_blank(""));
    assert!(is_blank(" \t\n\r\u{b}\u{c}"));
    assert!(is_blank("\u{85}\u{a0}\u{1680}\u{2000}\u{200a}\u{2028}\u{2029}\u{202f}\u{205f}\u{3000}"));
    assert!(!is_blank("   {"));
    assert!(!is_blank("["));
    assert!(!is_blank("\u{200b}"));
}

#[test]
fn decide_on_each_probe() {
    let path = "p.json".to_string();
    assert_eq!(decide(&path, Probe::Missing), None);
    assert_eq!(decide(&path, read("  ")), None);
    assert_eq!(decide(&path, read(" x")), Some(Ok(" x".to_string())));
    assert_eq!(
        decide(&path, Probe::OpenFailed("e".to_string())),
        Some(Err(LoadError::OpenFailure { path: "p.json".to_string(), cause: "e".to_string() }))
    );
    assert_eq!(
        decide(&path, Probe::ReadFailed("e".to_string())),
        Some(Err(LoadError::ReadFailure { path: "p.json".to_string(), cause: "e".to_string() }))
    );
}
