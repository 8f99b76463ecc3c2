use oxideav_vaapi::registration::register;
use oxideav_vaapi::runtime::framework_plan;
use oxideav_vaapi::runtime::load_step;
use oxideav_vaapi::runtime::vtable_plan;
use oxideav_vaapi::runtime::LoadKind;
use oxideav_vaapi::runtime::LoadStep;
use oxideav_vaapi::text::decimal_text;
use oxideav_vaapi::text::joined;
use oxideav_vaapi::text::numeral_text;
use oxideav_vaapi::text::same_text;

#[test]
fn libraries_come_before_symbols() {
    let plan = vtable_plan();
    assert_eq!(plan.len(), 32);
    assert_eq!((plan[0].kind, plan[0].name), (LoadKind::Library, "libva.so.2"));
    assert_eq!(plan[1].name, "libva-drm.so.2");
    assert_eq!((plan[2].kind, plan[2].name), (LoadKind::VaSymbol, "vaInitialize"));
    assert_eq!(
        (plan[31].kind, plan[31].name),
        (LoadKind::DrmSymbol, "vaGetDisplayDRM")
    );
    let framework: Vec<&str> = framework_plan().iter().map(|i| i.name).collect();
    assert_eq!(framework, vec!["libva.so.2", "libva-drm.so.2"]);
}

#[test]
fn loading_goes_item_by_item() {
    let plan = framework_plan();
    let mut results: Vec<Result<(), String>> = Vec::new();
    match load_step(&plan, &results) {
        LoadStep::Load(item) => assert_eq!(item.name, "libva.so.2"),
        _ => panic!("nothing is loaded yet"),
    }
    results.push(Ok(()));
    match load_step(&plan, &results) {
        LoadStep::Load(item) => assert_eq!(item.name, "libva-drm.so.2"),
        _ => panic!("one library is missing"),
    }
    results.push(Ok(()));
    assert!(matches!(load_step(&plan, &results), LoadStep::Loaded));
}

#[test]
fn the_first_failure_is_reported() {
    let plan = vtable_plan();
    let results = vec![Ok(()), Err("no file".to_string()), Err("later".to_string())];
    match load_step(&plan, &results) {
        LoadStep::Failed(reason) => assert_eq!(reason, "dlopen libva-drm.so.2: no file"),
        _ => panic!("a library is missing"),
    }
    let results = vec![Ok(()), Ok(()), Err("undefined symbol".to_string())];
    match load_step(&plan, &results) {
        LoadStep::Failed(reason) => assert_eq!(reason, "dlsym vaInitialize: undefined symbol"),
        _ => panic!("a symbol is missing"),
    }
}

#[test]
fn registration_needs_libraries_and_a_decoder() {
    let entry = register(Ok(()), true).expect("entry");
    assert_eq!(entry.codec_id, "h264");
    assert_eq!(entry.implementation, "vaapi-h264");
    assert_eq!(entry.engine_id, "vaapi");
    assert_eq!(entry.priority, 10);
    assert!(entry.hardware && entry.decode && !entry.encode);
    assert_eq!((entry.max_width, entry.max_height), (4096, 4096));
    assert_eq!(
        register(Ok(()), false).unwrap_err(),
        "oxideav-vaapi: driver loaded but no H.264 decode profile advertises VLD; skipping registration"
    );
    assert_eq!(
        register(Err("dlopen libva.so.2: no file".to_string()), true).unwrap_err(),
        "oxideav-vaapi: library unavailable, skipping registration: dlopen libva.so.2: no file"
    );
}

#[test]
fn numerals() {
    assert_eq!(numeral_text(0, 10), "0");
    assert_eq!(numeral_text(u64::MAX, 10), u64::MAX.to_string());
    assert_eq!(numeral_text(0xdeadbeef, 16), "deadbeef");
    assert_eq!(numeral_text(5, 2), "101");
    assert_eq!(decimal_text(i64::MIN), i64::MIN.to_string());
    assert_eq!(decimal_text(-1), "-1");
    assert_eq!(decimal_text(42), "42");
    assert_eq!(joined("a", "b"), "ab");
    assert!(same_text("x", "x"));
    assert!(!same_text("x", "xy"));
}
