use r2e_macros::codegen::controller_impl::{
    plan_controller_impl, plan_route_metadata, IdentityMarker, MarkerSite, RouteInput, StreamInput,
};
use r2e_macros::extract::route::HttpMethod;
use r2e_macros::route_meta::AuthFlag;

fn route(path: &str, fallback: bool, any: bool, identity: Option<usize>, managed: &[&str]) -> RouteInput {
    RouteInput {
        fn_name: "handler".to_string(),
        method: if any { HttpMethod::Any } else { HttpMethod::Get },
        is_fallback: fallback,
        path: path.to_string(),
        status_override: None,
        roles: vec![],
        all_roles: vec![],
        deprecated: false,
        anonymous: false,
        has_guards: false,
        identity,
        managed_types: managed.iter().map(|s| s.to_string()).collect(),
    }
}

#[test]
fn controller_impl_plan() {
    let routes = vec![
        route("/users", false, false, Some(1), &["Tx < 'static , Sqlite >"]),
        route("/files/{*rest}", false, false, None, &["Tx < 'static , Sqlite >", "Cache"]),
        route("/", true, false, None, &[]),
        route("/proxy", false, true, None, &[]),
    ];
    let sse = vec![StreamInput { identity: None }, StreamInput { identity: Some(0) }];
    let ws = vec![StreamInput { identity: Some(2) }];
    let p = plan_controller_impl(&routes, &sse, &ws, true);
    assert!(p.fallback_assert);
    assert_eq!(p.documented_routes, vec![0]);
    assert!(p.extend_routes && p.extend_sse && p.extend_ws);
    assert_eq!(
        p.identity_markers,
        vec![
            IdentityMarker { site: MarkerSite::Route(0), index: 1 },
            IdentityMarker { site: MarkerSite::Sse(1), index: 0 },
            IdentityMarker { site: MarkerSite::Ws(0), index: 2 },
        ]
    );
    assert_eq!(p.managed_bounds, vec!["Tx < 'static , Sqlite >".to_string(), "Cache".to_string()]);
    assert!(p.shared_ctrl_decos);
}

#[test]
fn empty_controller_impl_plan() {
    let p = plan_controller_impl(&vec![], &vec![], &vec![], true);
    assert!(!p.fallback_assert && !p.extend_routes && !p.extend_sse && !p.extend_ws);
    assert!(p.identity_markers.is_empty() && p.managed_bounds.is_empty());
    assert!(!p.shared_ctrl_decos);
}

#[test]
fn route_metadata_entries() {
    let mut create = route("/users", false, false, Some(0), &[]);
    create.fn_name = "create".to_string();
    create.method = HttpMethod::Post;
    create.roles = vec!["admin".to_string()];
    create.all_roles = vec!["ops".to_string()];
    create.deprecated = true;
    let mut remove = route("/users/{id}", false, false, None, &[]);
    remove.fn_name = "remove".to_string();
    remove.method = HttpMethod::Delete;
    remove.status_override = Some(202);
    remove.anonymous = true;
    remove.has_guards = true;
    let routes = vec![create, route("/", true, false, None, &[]), remove];
    let infos = plan_route_metadata("UserController", &routes);
    assert_eq!(infos.len(), 2);
    assert_eq!(infos[0].route, 0);
    assert_eq!(infos[0].operation_id, "UserController_create");
    assert_eq!(infos[0].method, "POST");
    assert_eq!(infos[0].status, 201);
    assert_eq!(infos[0].roles, vec!["admin".to_string(), "ops".to_string()]);
    assert!(infos[0].deprecated);
    assert_eq!(infos[0].auth, AuthFlag::Secured { roles: true, identity: true, guards: false });
    assert_eq!(infos[1].route, 2);
    assert_eq!(infos[1].operation_id, "UserController_remove");
    assert_eq!(infos[1].method, "DELETE");
    assert_eq!(infos[1].status, 202);
    assert_eq!(infos[1].auth, AuthFlag::Guards(true));
}
