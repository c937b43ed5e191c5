use r2e_macros::precise_capture::{capture_clause, mentions_lifetime, node_takes_clause, GenericParam};

#[test]
fn capture_clause_lists_type_and_const_parameters() {
    let generics = vec![
        GenericParam::Lifetime("'a".to_string()),
        GenericParam::Type("T".to_string()),
        GenericParam::Const("N".to_string()),
    ];
    let names = capture_clause(true, false, &generics).unwrap();
    assert_eq!(names, vec!["T", "N"]);
    assert!(capture_clause(true, false, &vec![]).unwrap().is_empty());
}

#[test]
fn capture_clause_declines() {
    let generics = vec![GenericParam::Type("T".to_string())];
    assert!(capture_clause(false, false, &generics).is_none());
    assert!(capture_clause(true, true, &generics).is_none());
}

#[test]
fn impl_trait_nodes_that_take_the_clause() {
    assert!(node_takes_clause(false, false));
    assert!(!node_takes_clause(true, false));
    assert!(!node_takes_clause(false, true));
    assert!(mentions_lifetime(&vec!['<', '=', '&', '>']));
    assert!(mentions_lifetime(&vec!['+', '\'']));
    assert!(!mentions_lifetime(&vec!['<', '=', '>', ',']));
}
