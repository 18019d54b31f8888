use khora_codegen_llvm::variants::{merge_variants, VariantInfo, VariantTable};

fn v(owner: &str, name: &str, home: Option<&str>) -> VariantInfo {
    VariantInfo { owner: owner.to_string(), name: name.to_string(), home: home.map(str::to_string) }
}

fn names(vs: &[VariantInfo]) -> Vec<String> {
    vs.iter().map(|v| format!("{}::{}@{}", v.owner, v.name, v.home.as_deref().unwrap_or("-"))).collect()
}

#[test]
fn each_declaration_is_merged_once() {
    let std = vec![v("Option", "Some", Some("std")), v("Option", "None", Some("std"))];
    let app = vec![
        v("Option", "Some", Some("std")),
        v("Option", "None", Some("std")),
        v("Point", "Point", Some("app")),
    ];
    let geo = vec![v("Point", "Point", Some("geo"))];
    let merged = merge_variants(&vec![std, app, geo]);
    assert_eq!(
        names(&merged),
        ["Option::Some@std", "Option::None@std", "Point::Point@app", "Point::Point@geo"]
    );
}

fn two_results() -> VariantTable {
    VariantTable {
        variants: vec![
            v("Result", "Ok", Some("a")),
            v("Result", "Err", Some("a")),
            v("Ordering", "Less", Some("std")),
            v("Result", "Pending", Some("b")),
            v("Result", "Err", Some("b")),
            v("Ordering", "Equal", Some("std")),
            v("Ordering", "Greater", Some("std")),
        ],
    }
}

#[test]
fn a_tag_is_an_index_in_one_types_list() {
    let table = two_results();
    let (tag, found) = table.variant_in(Some("b"), "Result", "Err").unwrap();
    assert_eq!(tag, 1);
    assert_eq!(found.home.as_deref(), Some("b"));
    let (tag, found) = table.variant_in(Some("a"), "Result", "Err").unwrap();
    assert_eq!(tag, 1);
    assert_eq!(found.home.as_deref(), Some("a"));
    assert!(table.variant_in(Some("a"), "Result", "Pending").is_none());
    assert_eq!(table.variant_of("Ordering", "Greater").map(|(t, _)| t), Some(2));
}

#[test]
fn without_a_home_the_type_with_the_case_wins() {
    let table = two_results();
    let (tag, found) = table.variant_of("Result", "Pending").unwrap();
    assert_eq!((tag, found.home.as_deref()), (0, Some("b")));
    let (tag, found) = table.variant_of("Result", "Err").unwrap();
    assert_eq!((tag, found.home.as_deref()), (1, Some("a")), "the first type holding the case");
    assert_eq!(names(&table.variants_in(None, "Result")), ["Result::Ok@a", "Result::Err@a"], "one type, never two");
    assert!(table.variants_in(None, "Missing").is_empty());
    assert!(table.variant_of("Result", "Nothing").is_none());
}

#[test]
fn a_home_narrows_to_its_declaration() {
    let table = two_results();
    assert_eq!(names(&table.variants_in(Some("b"), "Result")), ["Result::Pending@b", "Result::Err@b"]);
    assert!(table.variants_in(Some("c"), "Result").is_empty());
    assert_eq!(
        names(&table.variants_named(None, "Result", Some("Pending"))),
        ["Result::Pending@b", "Result::Err@b"]
    );
}

#[test]
fn a_tag_comes_first_only_when_there_is_more_than_one_case() {
    let table = VariantTable {
        variants: vec![
            v("Point", "Point", Some("geo")),
            v("Shape", "Circle", Some("geo")),
            v("Shape", "Square", Some("geo")),
        ],
    };
    assert_eq!(table.cases_of(Some("geo"), "Point"), 1);
    assert_eq!(table.cases_of(Some("geo"), "Shape"), 2);
    assert_eq!(table.cases_of(None, "Missing"), 0);
    assert_eq!(table.unboxed_field_at(Some("geo"), "Point", 0), 0);
    assert_eq!(table.unboxed_field_at(Some("geo"), "Shape", 0), 1);
    assert_eq!(table.unboxed_field_at(Some("geo"), "Shape", 2), 3);
    assert_eq!(names(&table.variants_for(Some((Some("geo"), "Shape")))), ["Shape::Circle@geo", "Shape::Square@geo"]);
    assert!(table.variants_for(None).is_empty());
}
