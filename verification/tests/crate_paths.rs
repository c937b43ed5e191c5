use r2e_macros::crate_paths::{render_found, resolve_path, Found, R2eCrate};

#[test]
fn found_crates_are_rendered() {
    assert_eq!(render_found(&Found::Itself, ""), "crate");
    assert_eq!(render_found(&Found::Itself, "r2e_events"), "crate::r2e_events");
    assert_eq!(render_found(&Found::Name("r2e".to_string()), ""), "::r2e");
    assert_eq!(render_found(&Found::Name("my_r2e".to_string()), "r2e_grpc"), "::my_r2e::r2e_grpc");
}

#[test]
fn candidates_are_tried_in_order() {
    assert_eq!(R2eCrate::Core.candidates(), vec![("r2e", ""), ("r2e-core", "")]);
    assert_eq!(
        resolve_path(R2eCrate::Events, &vec![Some(Found::Name("r2e".to_string())), Some(Found::Name("r2e_events".to_string()))]),
        Some("::r2e::r2e_events".to_string())
    );
    assert_eq!(resolve_path(R2eCrate::Events, &vec![None, Some(Found::Name("r2e_events".to_string()))]), Some("::r2e_events".to_string()));
    assert_eq!(resolve_path(R2eCrate::Scheduler, &vec![None, None]), Some("::r2e_scheduler".to_string()));
    assert_eq!(resolve_path(R2eCrate::Schemars, &vec![None, None]), None);
    assert_eq!(resolve_path(R2eCrate::Schemars, &vec![None, Some(Found::Name("r2e_openapi".to_string()))]), Some("::r2e_openapi::schemars".to_string()));
    assert_eq!(resolve_path(R2eCrate::Core, &vec![Some(Found::Itself)]), Some("crate".to_string()));
}
