use prop_amm::submission::{
    analyze_source, is_blank, source_contains_unsafe_keyword, validate_submission_metadata,
    white_space, MetadataError, SourceAnalysis, SourceItem, SubmissionMetadata,
};

fn constant(name: &str, text: Option<&str>) -> SourceItem {
    SourceItem::Const {
        name: name.to_string(),
        text: text.map(|t| t.to_string()),
    }
}

fn function(name: &str) -> SourceItem {
    SourceItem::Function {
        name: name.to_string(),
    }
}

fn complete() -> Vec<SourceItem> {
    vec![
        constant("NAME", Some("My Strategy")),
        SourceItem::Other,
        constant("MODEL_USED", Some("None")),
        function("get_model_used"),
        function("compute_swap"),
    ]
}

#[test]
fn white_space_is_the_unicode_property() {
    for c in '\u{0}'..='\u{FFFF}' {
        assert_eq!(white_space(c), c.is_whitespace(), "at {:?}", c);
    }
    assert!(!white_space('\u{10FFFF}'));
    assert!(is_blank(""));
    assert!(is_blank(" \t\r\n\u{3000}\u{85}"));
    assert!(!is_blank("  x  "));
    assert!(!is_blank("\u{200B}"));
    for text in ["", " ", "a", " a ", "\u{2028}\u{2029}", "\u{1680}.", "None"] {
        assert_eq!(is_blank(text), text.trim().is_empty());
    }
}

#[test]
fn entry_points_are_found_by_name() {
    assert_eq!(
        analyze_source(&[]),
        SourceAnalysis {
            has_compute_swap: false,
            has_after_swap: false
        }
    );
    assert_eq!(
        analyze_source(&complete()),
        SourceAnalysis {
            has_compute_swap: true,
            has_after_swap: false
        }
    );
    let both = vec![function("after_swap"), SourceItem::Other, function("compute_swap")];
    assert_eq!(
        analyze_source(&both),
        SourceAnalysis {
            has_compute_swap: true,
            has_after_swap: true
        }
    );
    let constants = vec![constant("compute_swap", None), function("Compute_swap")];
    assert_eq!(
        analyze_source(&constants),
        SourceAnalysis {
            has_compute_swap: false,
            has_after_swap: false
        }
    );
}

#[test]
fn the_unsafe_keyword_is_found_among_identifiers() {
    let idents = |names: &[&str]| names.iter().map(|n| n.to_string()).collect::<Vec<_>>();
    assert!(!source_contains_unsafe_keyword(&[]));
    assert!(!source_contains_unsafe_keyword(&idents(&["fn", "compute_swap", "unsafe_fn", "Unsafe"])));
    assert!(source_contains_unsafe_keyword(&idents(&["pub", "unsafe", "fn"])));
    assert!(source_contains_unsafe_keyword(&idents(&["unsafe"])));
}

#[test]
fn complete_metadata_is_accepted() {
    assert_eq!(
        validate_submission_metadata(&complete()),
        Ok(SubmissionMetadata {
            name: "My Strategy".to_string(),
            model_used: "None".to_string(),
        })
    );
}

#[test]
fn each_metadata_rule_has_its_error() {
    assert_eq!(validate_submission_metadata(&[]), Err(MetadataError::MissingName));

    let mut items = complete();
    items[0] = constant("NAME", None);
    assert_eq!(validate_submission_metadata(&items), Err(MetadataError::MissingName));

    let mut items = complete();
    items[0] = constant("NAME", Some(" \t "));
    assert_eq!(validate_submission_metadata(&items), Err(MetadataError::EmptyName));

    let mut items = complete();
    items[2] = SourceItem::Other;
    assert_eq!(validate_submission_metadata(&items), Err(MetadataError::MissingModelUsed));

    let mut items = complete();
    items[2] = constant("MODEL_USED", Some(""));
    assert_eq!(validate_submission_metadata(&items), Err(MetadataError::EmptyModelUsed));

    let mut items = complete();
    items[3] = function("model_used");
    assert_eq!(validate_submission_metadata(&items), Err(MetadataError::MissingGetModelUsed));

    // The first broken rule is the one reported.
    let items = vec![constant("NAME", Some("")), function("compute_swap")];
    assert_eq!(validate_submission_metadata(&items), Err(MetadataError::EmptyName));
}

#[test]
fn the_last_constant_of_a_name_counts() {
    let mut items = complete();
    items.push(constant("NAME", Some("Second")));
    assert_eq!(
        validate_submission_metadata(&items).map(|m| m.name),
        Ok("Second".to_string())
    );
    items.push(constant("NAME", None));
    assert_eq!(validate_submission_metadata(&items), Err(MetadataError::MissingName));
    let mut items = complete();
    items.push(constant("MODEL_USED", Some("  ")));
    assert_eq!(validate_submission_metadata(&items), Err(MetadataError::EmptyModelUsed));
}
