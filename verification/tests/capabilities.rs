use oxideav_vaapi::capabilities::ListAnswer;
use oxideav_vaapi::display::OpenAction;
use oxideav_vaapi::display::Opening;
use oxideav_vaapi::sys::entrypoint;
use oxideav_vaapi::sys::profile;
use oxideav_vaapi::sys::CallReply;
use oxideav_vaapi::sys::Release;
use oxideav_vaapi::Display;
use oxideav_vaapi::EntrypointMatrix;
use oxideav_vaapi::VaError;
use oxideav_vaapi::VaProfile;

const PATH: &[u8] = b"/dev/dri/renderD128";

/// A driver that answers from a table.
struct Driver {
    rows: Vec<(i32, Vec<i32>)>,
    refused: Option<i32>,
}

fn ok() -> CallReply {
    CallReply {
        status: 0,
        driver_text: None,
    }
}

fn failed(status: i32, text: &str) -> CallReply {
    CallReply {
        status,
        driver_text: Some(text.to_string()),
    }
}

fn begin() -> Opening {
    match Display::open_drm(PATH, Ok(())) {
        Ok(opening) => opening,
        Err(error) => panic!("{}", error.to_text()),
    }
}

fn open() -> Display {
    let mut opening = begin();
    assert_eq!(opening.action(), OpenAction::OpenNode);
    opening.node_opened(7, String::new());
    assert_eq!(opening.action(), OpenAction::GetDisplay { fd: 7 });
    opening.display_bound(0x1000);
    assert_eq!(opening.action(), OpenAction::Initialize { dpy: 0x1000 });
    opening.initialized(ok(), 1, 22);
    assert_eq!(opening.action(), OpenAction::Finish);
    match opening.finish() {
        Ok(display) => display,
        Err(error) => panic!("{}", error.to_text()),
    }
}

fn nvdec() -> Driver {
    Driver {
        rows: vec![
            (profile::VAProfileMPEG2Main, vec![entrypoint::VAEntrypointVLD]),
            (profile::VAProfileH264High, vec![entrypoint::VAEntrypointVLD]),
            (
                profile::VAProfileHEVCMain,
                vec![entrypoint::VAEntrypointVLD, entrypoint::VAEntrypointEncSlice],
            ),
            (profile::VAProfileJPEGBaseline, vec![]),
        ],
        refused: None,
    }
}

impl Driver {
    fn profiles(&self, display: &Display) -> Vec<VaProfile> {
        let max = self.rows.len() as i32 + 3;
        let room = display.profile_capacity(max).expect("room");
        let mut list: Vec<i32> = self.rows.iter().map(|r| r.0).collect();
        list.resize(room, profile::VAProfileNone);
        let answer = ListAnswer {
            call: ok(),
            list,
            count: self.rows.len() as i32,
        };
        display.profiles(max, Some(answer)).expect("profiles")
    }

    fn entrypoints(&self, p: VaProfile) -> ListAnswer {
        if self.refused == Some(p.raw()) {
            return ListAnswer {
                call: failed(1, "operation failed"),
                list: vec![0; 32],
                count: 0,
            };
        }
        match self.rows.iter().find(|r| r.0 == p.raw()) {
            Some((_, eps)) => {
                let mut list = eps.clone();
                list.resize(32, 0);
                ListAnswer {
                    call: ok(),
                    list,
                    count: eps.len() as i32,
                }
            }
            None => ListAnswer {
                call: failed(0x0c, "unsupported profile"),
                list: vec![0; 32],
                count: 0,
            },
        }
    }

    fn matrix(&self, display: &Display) -> Result<EntrypointMatrix, VaError> {
        let mut sweep = display.entrypoint_matrix(self.profiles(display));
        while let Some(p) = sweep.next_profile() {
            sweep.answered(display, self.entrypoints(p))?;
        }
        Ok(sweep.finish())
    }

    fn with_entrypoint(&self, display: &Display, ep: i32) -> Vec<VaProfile> {
        let profiles = self.profiles(display);
        let answers = profiles.iter().map(|p| self.entrypoints(*p)).collect();
        display.profiles_with_entrypoint(&profiles, answers, ep)
    }
}

#[test]
fn va_initialize_propagates_error_when_no_driver_installed() {
    let display = open();
    let (major, minor) = display.api_version();
    assert!(major > 0 || minor > 0);
    let vendor = display
        .vendor_string(Some("VA-API NVDEC driver [direct backend]".to_string()))
        .expect("vaQueryVendorString should succeed after init");
    assert!(!vendor.trim().is_empty());
    assert!(!nvdec().profiles(&display).is_empty());

    let mut opening = begin();
    opening.node_opened(7, String::new());
    opening.display_bound(0x1000);
    opening.initialized(failed(-1, "no driver loaded"), 0, 0);
    assert_eq!(opening.action(), OpenAction::CloseNode { fd: 7 });
    opening.node_closed();
    assert_eq!(opening.action(), OpenAction::Finish);
    match opening.finish() {
        Err(VaError::Init { status, message }) => {
            assert_ne!(status, 0, "VaError::Init must carry a non-success status");
            assert_eq!(message, "no driver loaded");
        }
        Err(other) => panic!("expected VaError::Init, got {other:?}"),
        Ok(_) => panic!("expected VaError::Init"),
    }
}

#[test]
fn opening_refuses_missing_runtime_before_the_path() {
    match Display::open_drm(b"a\0b", Err("dlopen libva.so.2: not found".to_string())) {
        Err(error) => assert_eq!(
            error.to_text(),
            "libva runtime: dlopen libva.so.2: not found"
        ),
        Ok(_) => panic!("the runtime is missing"),
    }
}

#[test]
fn opening_refuses_a_path_with_a_zero_byte() {
    match Display::open_drm(b"/dev\0dri", Ok(())) {
        Err(error) => assert_eq!(
            error.to_text(),
            "open DRM render node: nul byte found in provided data at position: 4"
        ),
        Ok(_) => panic!("no C string holds the path"),
    }
}

#[test]
fn opening_a_missing_node_closes_nothing() {
    let mut opening = begin();
    opening.node_opened(-1, "No such file or directory (os error 2)".to_string());
    assert_eq!(opening.action(), OpenAction::Finish);
    match opening.finish() {
        Err(error) => assert_eq!(
            error.to_text(),
            "open DRM render node: No such file or directory (os error 2)"
        ),
        Ok(_) => panic!("the node is missing"),
    }
}

#[test]
fn opening_without_a_display_closes_the_node() {
    let mut opening = begin();
    opening.node_opened(3, String::new());
    opening.display_bound(0);
    assert_eq!(opening.action(), OpenAction::CloseNode { fd: 3 });
    opening.node_closed();
    match opening.finish() {
        Err(error) => assert_eq!(error.to_text(), "vaGetDisplayDRM returned null"),
        Ok(_) => panic!("there is no display"),
    }
}

#[test]
fn an_open_display_is_terminated_and_closed() {
    let display = open();
    assert_eq!(display.raw(), 0x1000);
    assert_eq!(display.fd(), 7);
    assert_eq!(display.api_version(), (1, 22));
    assert_eq!(
        display.releases(),
        vec![Release::Terminate(0x1000), Release::CloseNode(7)]
    );
}

#[test]
fn missing_vendor_string_is_an_error() {
    match open().vendor_string(None) {
        Err(error) => assert_eq!(
            error.to_text(),
            "VA-API call failed (status 0): vaQueryVendorString returned null"
        ),
        Ok(_) => panic!("there is no vendor string"),
    }
}

#[test]
fn profile_lists_follow_the_claimed_count() {
    let display = open();
    let answer = |count: i32, call: CallReply| ListAnswer {
        call,
        list: vec![5, 6, 7, -1],
        count,
    };
    assert_eq!(display.profile_capacity(0), None);
    assert_eq!(display.profile_capacity(-3), None);
    assert!(display.profiles(0, None).expect("none").is_empty());
    assert!(display.profiles(4, Some(answer(-2, ok()))).expect("none").is_empty());
    assert_eq!(
        display.profiles(4, Some(answer(2, ok()))).expect("two"),
        vec![VaProfile(5), VaProfile(6)]
    );
    assert_eq!(display.profiles(4, Some(answer(9, ok()))).expect("all").len(), 4);
    match display.profiles(4, Some(answer(2, failed(3, "invalid VADisplay")))) {
        Err(error) => assert_eq!(
            error.to_text(),
            "VA-API call failed (status 3): invalid VADisplay"
        ),
        Ok(_) => panic!("the query failed"),
    }
}

#[test]
fn entrypoints_for_h264_high_includes_vld() {
    let display = open();
    let entries = display
        .entrypoints(nvdec().entrypoints(VaProfile(profile::VAProfileH264High)))
        .expect("entrypoints query for H264High");
    assert!(entries.contains(&entrypoint::VAEntrypointVLD));
}

#[test]
fn is_supported_recognises_h264_decode() {
    let answer = nvdec().entrypoints(VaProfile(profile::VAProfileH264High));
    assert!(open().is_supported(answer, entrypoint::VAEntrypointVLD));
}

#[test]
fn is_supported_for_unsupported_entrypoint_is_false() {
    let answer = nvdec().entrypoints(VaProfile(profile::VAProfileH264High));
    assert!(!open().is_supported(answer, 999));
}

#[test]
fn a_failed_query_supports_nothing() {
    let mut driver = nvdec();
    driver.refused = Some(profile::VAProfileH264High);
    let answer = driver.entrypoints(VaProfile(profile::VAProfileH264High));
    assert!(!open().is_supported(answer, entrypoint::VAEntrypointVLD));
}

#[test]
fn decode_profile_set_is_non_empty() {
    let decode = nvdec().with_entrypoint(&open(), entrypoint::VAEntrypointVLD);
    assert_eq!(
        decode,
        vec![
            VaProfile(profile::VAProfileMPEG2Main),
            VaProfile(profile::VAProfileH264High),
            VaProfile(profile::VAProfileHEVCMain)
        ]
    );
}

#[test]
fn entrypoints_for_unsupported_profile_handled_gracefully() {
    let result = open().entrypoints(nvdec().entrypoints(VaProfile(9999)));
    assert!(matches!(result, Ok(list) if list.is_empty()));
}

#[test]
fn claimed_counts_are_checked_against_the_buffer() {
    let mut answer = nvdec().entrypoints(VaProfile(profile::VAProfileH264High));
    assert!(answer.check_covered());
    answer.count = 33;
    assert!(!answer.check_covered());
    answer.count = -1;
    assert!(answer.check_covered());
    assert!(open().entrypoints(answer).expect("none").is_empty());
}

#[test]
fn matrix_profiles_match_display_profiles() {
    let display = open();
    let driver = nvdec();
    let matrix = driver.matrix(&display).expect("matrix builds");
    let baseline = driver.profiles(&display);
    assert_eq!(matrix.profiles(), baseline);
    assert_eq!(matrix.len(), baseline.len());
}

#[test]
fn matrix_is_supported_agrees_with_display_for_advertised_profile() {
    let display = open();
    let driver = nvdec();
    let matrix = driver.matrix(&display).expect("matrix builds");
    for p in matrix.profiles() {
        let matrix_says = matrix.is_supported(p, entrypoint::VAEntrypointVLD);
        let driver_says = display.is_supported(driver.entrypoints(p), entrypoint::VAEntrypointVLD);
        assert_eq!(matrix_says, driver_says, "VLD-supported mismatch on {:?}", p.name());
    }
}

#[test]
fn matrix_profiles_with_entrypoint_matches_display() {
    let display = open();
    let driver = nvdec();
    let matrix = driver.matrix(&display).expect("matrix builds");
    let from_display = driver.with_entrypoint(&display, entrypoint::VAEntrypointVLD);
    let from_matrix = matrix.profiles_with_entrypoint(entrypoint::VAEntrypointVLD);
    assert_eq!(from_matrix, from_display, "VLD filter differs across surfaces");
}

#[test]
fn matrix_any_supports_handles_unadvertised_family() {
    let matrix = nvdec().matrix(&open()).expect("matrix builds");
    assert!(!matrix.any_supports(&[9999], entrypoint::VAEntrypointVLD));
    assert!(matrix.any_supports(&[9999, 7], entrypoint::VAEntrypointVLD));
    assert!(!matrix.any_supports(&[], entrypoint::VAEntrypointVLD));
}

#[test]
fn matrix_entrypoints_for_unknown_profile_returns_empty() {
    let matrix = nvdec().matrix(&open()).expect("matrix builds");
    assert!(matrix
        .entrypoints_for(VaProfile(profile::VAProfileNone))
        .is_empty());
    assert_eq!(matrix.entrypoints_for(VaProfile(17)), &[1, 6]);
}

#[test]
fn empty_matrix_basics_do_not_panic() {
    let matrix = nvdec().matrix(&open()).expect("matrix builds");
    assert!(!matrix.is_supported(VaProfile(9999), entrypoint::VAEntrypointVLD));
    assert_eq!(matrix.len(), 4);
    assert!(!matrix.is_empty());
    let empty = EntrypointMatrix::empty();
    assert!(empty.is_empty());
    assert!(empty.profiles().is_empty());
    assert!(!empty.is_supported(VaProfile(7), entrypoint::VAEntrypointVLD));
}

#[test]
fn the_first_refused_query_ends_the_matrix() {
    let mut driver = nvdec();
    driver.refused = Some(profile::VAProfileH264High);
    match driver.matrix(&open()) {
        Err(error) => assert_eq!(
            error.to_text(),
            "VA-API call failed (status 1): operation failed"
        ),
        Ok(_) => panic!("a query was refused"),
    }
}

#[test]
fn repeated_profiles_are_looked_up_in_the_first_row() {
    let mut matrix = EntrypointMatrix::empty();
    matrix.push_row(VaProfile(7), vec![1]);
    matrix.push_row(VaProfile(7), vec![6]);
    assert!(!matrix.is_supported(VaProfile(7), 6));
    assert_eq!(matrix.profiles_with_entrypoint(6), vec![VaProfile(7)]);
}
