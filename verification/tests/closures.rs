use khora_codegen_llvm::closures::ClosureSites;

#[test]
fn a_closure_tag_is_its_site_index() {
    let mut sites = ClosureSites::new();
    assert_eq!(sites.record("main$main", 4), 0);
    assert_eq!(sites.record("main$apply", 2), 1);
    assert_eq!(sites.record("main$main", 9), 2);
    assert_eq!(sites.len(), 3);
    assert_eq!(sites.closure_tag("main$main", 4), Some(0));
    assert_eq!(sites.closure_tag("main$apply", 2), Some(1));
    assert_eq!(sites.closure_tag("main$main", 9), Some(2));
    assert_eq!(sites.closure_tag("main$main", 2), None, "same expression, other owner");
    assert_eq!(sites.closure_tag("main$other", 4), None);
}

#[test]
fn lambdas_are_numbered_within_their_owner() {
    let mut sites = ClosureSites::new();
    for (owner, expr) in [("f", 1), ("g", 1), ("f", 7), ("f", 12)] {
        sites.record(owner, expr);
    }
    let symbol = |owner: &str, expr: u32| sites.closure_at(owner, expr).map(|s| s.symbol.clone());
    assert_eq!(symbol("f", 1).as_deref(), Some("f$$lambda0"));
    assert_eq!(symbol("g", 1).as_deref(), Some("g$$lambda0"));
    assert_eq!(symbol("f", 7).as_deref(), Some("f$$lambda1"));
    assert_eq!(symbol("f", 12).as_deref(), Some("f$$lambda2"));
    assert!(symbol("g", 7).is_none());
}

#[test]
fn eleven_lambdas_count_past_nine() {
    let mut sites = ClosureSites::new();
    for expr in 0..11 {
        sites.record("f", expr);
    }
    assert_eq!(sites.closure_at("f", 10).unwrap().symbol, "f$$lambda10");
}

#[test]
fn every_site_is_listed_in_recording_order() {
    let mut sites = ClosureSites::new();
    for (owner, expr) in [("f", 3), ("g", 1), ("f", 8)] {
        sites.record(owner, expr);
    }
    let listed: Vec<(String, u32, String)> =
        sites.closure_sites().into_iter().map(|s| (s.owner, s.expr, s.symbol)).collect();
    assert_eq!(
        listed,
        [
            ("f".to_string(), 3, "f$$lambda0".to_string()),
            ("g".to_string(), 1, "g$$lambda0".to_string()),
            ("f".to_string(), 8, "f$$lambda1".to_string()),
        ]
    );
    assert!(ClosureSites::new().closure_sites().is_empty());
}
