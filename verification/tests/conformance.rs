use r3st::runner::{Context, Outcome, Report, Runner};

fn context(endpoint: &str) -> Context {
    Context { client: reqwest::Client::new(), endpoint: endpoint.to_string() }
}

#[test]
fn url_joins_with_one_slash() {
    assert_eq!(context("http://127.0.0.1:9000").url("/"), "http://127.0.0.1:9000/");
    assert_eq!(context("http://127.0.0.1:9000/").url("/"), "http://127.0.0.1:9000/");
    assert_eq!(context("http://h").url("a/b"), "http://h/a/b");
    assert_eq!(context("http://h/").url("/a"), "http://h/a");
    assert_eq!(context("http://h///").url("///a/"), "http://h/a/");
}

#[test]
fn url_edge_cases() {
    assert_eq!(context("").url(""), "/");
    assert_eq!(context("///").url("x"), "/x");
    assert_eq!(context("http://h").url(""), "http://h/");
    assert_eq!(context("http://ü.example/").url("/ä/ö"), "http://ü.example/ä/ö");
}

#[test]
fn runner_keeps_endpoint() {
    let runner = match Runner::new("http://127.0.0.1:9000") {
        Ok(r) => r,
        Err(_) => panic!("client could not be built"),
    };
    assert_eq!(runner.context().endpoint, "http://127.0.0.1:9000");
    assert_eq!(runner.context().url("/"), "http://127.0.0.1:9000/");
}

#[test]
fn runner_from_built_client() {
    let runner = match Runner::from_client(Ok(reqwest::Client::new()), "http://e/") {
        Ok(r) => r,
        Err(_) => panic!("a built client must give a runner"),
    };
    assert_eq!(runner.context().endpoint, "http://e/");
}

fn outcome(name: &'static str, error: Option<&str>) -> Outcome {
    Outcome { name, error: error.map(|e| e.to_string()) }
}

#[test]
fn outcome_passed() {
    assert!(outcome("a", None).passed());
    assert!(!outcome("a", Some("boom")).passed());
}

#[test]
fn report_all_passed() {
    assert!(Report { outcomes: vec![] }.all_passed());
    assert!(Report { outcomes: vec![outcome("a", None), outcome("b", None)] }.all_passed());
    assert!(!Report { outcomes: vec![outcome("a", None), outcome("b", Some("x"))] }.all_passed());
}

#[test]
fn report_counts_passed() {
    let report = Report { outcomes: vec![outcome("a", None), outcome("b", Some("x")), outcome("c", None)] };
    assert_eq!(report.passed_count(), 2);
    assert_eq!(report.all_passed(), report.passed_count() == report.outcomes.len());
}

#[test]
fn render_empty_report() {
    assert_eq!(Report { outcomes: vec![] }.render(), "\n0/0 checks passed\n");
}

#[test]
fn render_report() {
    let report = Report {
        outcomes: vec![
            outcome("list_buckets_returns_valid_xml", None),
            outcome("second", Some("expected 200, got 404 Not Found")),
        ],
    };
    assert_eq!(
        report.render(),
        "PASS  list_buckets_returns_valid_xml\nFAIL  second\n      expected 200, got 404 Not Found\n\n1/2 checks passed\n"
    );
}

#[test]
fn render_counts_in_decimal() {
    let mut outcomes = Vec::new();
    for i in 0..12 {
        outcomes.push(outcome("c", if i < 7 { None } else { Some("e") }));
    }
    let text = Report { outcomes }.render();
    assert!(text.ends_with("\n7/12 checks passed\n"));
}

#[test]
fn record_keeps_order_and_failures() {
    let mut report = Report { outcomes: vec![] };
    report.record("first", Ok(()));
    report.record("second", Err("boom".to_string()));
    report.record("third", Ok(()));
    assert_eq!(report.outcomes.len(), 3);
    assert_eq!(report.outcomes[0].name, "first");
    assert_eq!(report.outcomes[0].error, None);
    assert_eq!(report.outcomes[1].name, "second");
    assert_eq!(report.outcomes[1].error.as_deref(), Some("boom"));
    assert_eq!(report.outcomes[2].name, "third");
    assert!(!report.all_passed());
    assert_eq!(report.passed_count(), 2);
}

#[test]
fn last_line_reads_n_of_n_only_when_all_passed() {
    let mut all = Report { outcomes: vec![] };
    let mut some = Report { outcomes: vec![] };
    for i in 0..10 {
        all.record("c", Ok(()));
        some.record("c", if i == 3 { Err("e".to_string()) } else { Ok(()) });
    }
    assert!(all.all_passed());
    assert!(all.render().ends_with("\n10/10 checks passed\n"));
    assert!(!some.all_passed());
    assert!(some.render().ends_with("\n9/10 checks passed\n"));
}
