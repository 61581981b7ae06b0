use worker_route::router::collect_args;
use worker_route::router::get_param;
use worker_route::router::to_error;
use worker_route::router::CorsChoice;
use worker_route::router::CorsVariant;
use worker_route::router::ErrorSpan;
use worker_route::router::FnKind;
use worker_route::router::ParamSlot;
use worker_route::router::Registration;
use worker_route::router::Configure;
use worker_route::router::RouteFactory;
use worker_route::router::Service;
use worker_route::router::route_registrations;
use worker_route::router::Wrapper;
use worker_route::router::WrapKind;
use worker_route::Method;
use worker_route::Route;
use worker_route::Router;

#[test]
fn to_method_maps_selectors() {
    assert_eq!(Method::to_method(1), Some(Method::Delete));
    assert_eq!(Method::to_method(2), Some(Method::Get));
    assert_eq!(Method::to_method(3), Some(Method::Head));
    assert_eq!(Method::to_method(4), Some(Method::Options));
    assert_eq!(Method::to_method(5), Some(Method::Patch));
    assert_eq!(Method::to_method(6), Some(Method::Post));
    assert_eq!(Method::to_method(7), Some(Method::Put));
    assert_eq!(Method::to_method(0), None);
    assert_eq!(Method::to_method(8), None);
}

#[test]
fn method_new_maps_names() {
    assert_eq!(Method::new("DELETE"), Method::Delete);
    assert_eq!(Method::new("GET"), Method::Get);
    assert_eq!(Method::new("HEAD"), Method::Head);
    assert_eq!(Method::new("OPTIONS"), Method::Options);
    assert_eq!(Method::new("PATCH"), Method::Patch);
    assert_eq!(Method::new("POST"), Method::Post);
    assert_eq!(Method::new("PUT"), Method::Put);
}

#[test]
fn method_all_lists_the_seven_verbs() {
    let all = Method::all();
    assert_eq!(
        all,
        vec![
            String::from("delete"),
            String::from("get"),
            String::from("head"),
            String::from("patch"),
            String::from("post"),
            String::from("put"),
            String::from("options"),
        ]
    );
}

#[test]
fn insert_method_rejects_duplicates() {
    let mut route = Route::new(None);
    assert!(route.insert_method("get".to_string()).is_ok());
    let err = route.insert_method("get".to_string()).unwrap_err();
    assert_eq!(err, "duplicate method found");
}

#[test]
fn insert_method_expands_all() {
    let mut route = Route::new(None);
    assert!(route.insert_method("all".to_string()).is_ok());
    assert_eq!(route.methods.len(), 7);
    let err = route.insert_method("all".to_string()).unwrap_err();
    assert_eq!(err, "duplicate method found");
}

#[test]
fn insert_method_rejects_unknown_names() {
    let mut route = Route::new(None);
    let err = route.insert_method("fetch".to_string()).unwrap_err();
    assert_eq!(
        err,
        "expected \"all, get, head, delete, put, patch, post\", found fetch"
    );
}

#[test]
fn insert_method_rejects_single_verb_groups() {
    let mut route = Route::new(Some(Method::Get));
    let err = route.insert_method("post".to_string()).unwrap_err();
    assert_eq!(
        err,
        "method's attribute is not supported when using post attribute, use route instead or remove method"
    );
}

#[test]
fn insert_method_rejects_all_after_others() {
    let mut route = Route::new(None);
    assert!(route.insert_method("get".to_string()).is_ok());
    let err = route.insert_method("all".to_string()).unwrap_err();
    assert_eq!(err, "expected \"get, head, delete, put, patch, post\", found all");
}

#[test]
fn wrap_needs_a_cors_declaration() {
    let mut route = Route::new(None);
    let err = route.wrap().unwrap_err();
    assert_eq!(err, "wrap cannot be used when \"cors/lazy_cors\" are ommitted");

    route.set_cors(CorsVariant::Default, "MyCors".to_string());
    assert!(route.insert_method("options".to_string()).is_ok());
    let err = route.wrap().unwrap_err();
    assert_eq!(err, "wrap cannot be used when options handler is present");
}

#[test]
fn cors_choice_prefers_a_single_declaration() {
    let mut route = Route::new(None);
    assert_eq!(route.cors_choice(), None);
    route.set_cors(CorsVariant::Lazy, "LazyCors".to_string());
    assert_eq!(route.cors_choice(), Some(CorsChoice::Lazy("LazyCors".to_string())));
    route.set_cors(CorsVariant::Default, "MyCors".to_string());
    assert_eq!(route.cors_choice(), None);
}

#[test]
fn cors_variant_from_attribute_key() {
    assert_eq!(CorsVariant::to_variant("cors"), CorsVariant::Default);
    assert_eq!(CorsVariant::to_variant("lazy_cors"), CorsVariant::Lazy);
}

#[test]
fn registrations_follow_declaration_order() {
    let mut route = Route::new(None);
    route.path = Some("/profile".to_string());
    route.insert_method("get".to_string()).unwrap();
    route.insert_method("post".to_string()).unwrap();
    let regs = route_registrations(&route);
    assert_eq!(regs.len(), 2);
    assert_eq!(regs[0].method, Method::Get);
    assert_eq!(regs[1].method, Method::Post);
    assert!(regs.iter().all(|r| r.path == "/profile" && !r.preflight));
}

#[test]
fn wrapped_group_gains_one_preflight() {
    let mut route = Route::new(None);
    route.path = Some("/profile".to_string());
    route.insert_method("get".to_string()).unwrap();
    route.set_cors(CorsVariant::Default, "MyCors".to_string());
    route.wrap().unwrap();
    let regs = route_registrations(&route);
    assert_eq!(regs.len(), 2);
    assert_eq!(regs[0].method, Method::Get);
    assert!(!regs[0].preflight);
    assert_eq!(regs[1].method, Method::Options);
    assert!(regs[1].preflight);
}

#[test]
fn full_verb_set_replaces_options_with_preflight() {
    let mut route = Route::new(None);
    route.path = Some("/all".to_string());
    route.insert_method("all".to_string()).unwrap();
    route.set_cors(CorsVariant::Lazy, "LazyCors".to_string());
    route.wrap().unwrap();
    let regs = route_registrations(&route);
    assert_eq!(regs.len(), 7);
    let preflights: Vec<&Registration> = regs.iter().filter(|r| r.preflight).collect();
    assert_eq!(preflights.len(), 1);
    assert_eq!(regs[6].method, Method::Options);
    assert!(regs[6].preflight);
    assert_eq!(regs[5].method, Method::Put);
}

#[test]
fn router_registers_in_call_order() {
    let mut router = Router::new();
    router.register("/a", Method::Get);
    router.register("/b", Method::Post);
    assert_eq!(router.routes.len(), 2);
    assert_eq!(router.routes[0].path, "/a");
    assert_eq!(router.routes[1].method, Method::Post);
}

#[test]
fn error_span_messages() {
    assert_eq!(
        ErrorSpan::DuplicateMethod.message(None),
        "duplicate method found"
    );
    assert_eq!(
        to_error(ErrorSpan::InvalidFormat, Some("42")),
        "expected string literal, found 42"
    );
    assert_eq!(
        to_error(ErrorSpan::InvalidMethod, Some("all")),
        "expected \"get, head, delete, put, patch, post\", found all"
    );
}

#[test]
fn param_slots_follow_the_calling_convention() {
    assert_eq!(get_param(true, 1, 2), ParamSlot::ReqArg);
    assert_eq!(get_param(true, 2, 2), ParamSlot::CtxArg);
    assert_eq!(get_param(false, 1, 2), ParamSlot::QueryArg);
    assert_eq!(get_param(false, 2, 2), ParamSlot::CtxArg);
    assert_eq!(get_param(false, 2, 3), ParamSlot::ReqArg);
    assert_eq!(get_param(false, 3, 3), ParamSlot::CtxArg);

    let (slots, kind) = collect_args(false, 3);
    assert_eq!(slots, vec![ParamSlot::QueryArg, ParamSlot::ReqArg, ParamSlot::CtxArg]);
    assert_eq!(kind, FnKind::WithReq);

    let (slots, kind) = collect_args(false, 2);
    assert_eq!(slots, vec![ParamSlot::QueryArg, ParamSlot::CtxArg]);
    assert_eq!(kind, FnKind::WithQuery);
}

#[test]
fn wrapper_kind_reads_the_signature() {
    assert_eq!(
        Wrapper::new("Query < Foo >".to_string(), 2).kind(),
        Ok(WrapKind::WrapQuery)
    );
    assert_eq!(
        Wrapper::new("Request".to_string(), 2).kind(),
        Ok(WrapKind::WrapDefault)
    );
    assert_eq!(
        Wrapper::new("Query < Foo >".to_string(), 4).kind(),
        Err("invalid arguments".to_string())
    );
}

#[test]
fn compile_error_names_the_entry_point() {
    assert_eq!(
        Method::Get.to_compile_error(),
        "unexpected token, valid token is #[get(\"/path\")]"
    );
    assert_eq!(
        Method::Put.to_compile_error(),
        "unexpected token, valid token is #[put(\"/path\")]"
    );
}

struct OneRoute;

impl RouteFactory for OneRoute {
    fn register(self, mut router: Router) -> Router {
        router.register("/one", Method::Get);
        router
    }
}

#[test]
fn configure_and_service_run_registrations() {
    let router = Router::new();
    let router = router.configure(OneRoute);
    let router = router.service(|r| r);
    assert_eq!(router.routes.len(), 1);
    assert_eq!(router.routes[0].path, "/one");
}
