use r2e_macros::codegen::impl_block::{impl_layout, MethodRef};

#[test]
fn request_scoped_methods_go_on_the_facade() {
    let layout = impl_layout(&vec![false, true, false], &vec![true], &vec![false], 1, 2, 0, 1);
    assert_eq!(
        layout.facade,
        vec![MethodRef::Route(0), MethodRef::Route(2), MethodRef::Ws(0)]
    );
    assert_eq!(
        layout.core,
        vec![
            MethodRef::Route(1),
            MethodRef::Sse(0),
            MethodRef::Consumer(0),
            MethodRef::Scheduled(0),
            MethodRef::Scheduled(1),
            MethodRef::Other(0),
        ]
    );
}

#[test]
fn empty_impl_block_emits_neither_block() {
    let layout = impl_layout(&vec![], &vec![], &vec![], 0, 0, 0, 0);
    assert!(layout.facade.is_empty());
    assert!(layout.core.is_empty());
}

#[test]
fn every_method_is_emitted_once() {
    let routes = vec![true, false, false, true];
    let layout = impl_layout(&routes, &vec![false, true], &vec![], 2, 0, 1, 0);
    let mut all = layout.facade.clone();
    all.extend(layout.core.iter().copied());
    assert_eq!(all.len(), 4 + 2 + 2 + 1);
    for (i, m) in all.iter().enumerate() {
        assert!(!all[i + 1..].contains(m));
    }
    assert!(layout.facade.iter().all(|m| matches!(m, MethodRef::Route(1) | MethodRef::Route(2) | MethodRef::Sse(0))));
}
