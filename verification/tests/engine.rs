use oxideav_vaapi::codec_profiles;
use oxideav_vaapi::device_path_for_index;
use oxideav_vaapi::engine::collect_codecs;
use oxideav_vaapi::engine::max_dims_across;
use oxideav_vaapi::engine::node_path;
use oxideav_vaapi::engine::plan_codecs;
use oxideav_vaapi::engine::probe_node;
use oxideav_vaapi::engine::DeviceSearch;
use oxideav_vaapi::engine::FamilyPlan;
use oxideav_vaapi::engine::HwCodecCaps;
use oxideav_vaapi::engine::HwDeviceInfo;
use oxideav_vaapi::engine::NodeProbe;
use oxideav_vaapi::engine::NodeReport;
use oxideav_vaapi::engine::SizeAnswer;
use oxideav_vaapi::engine_info;
use oxideav_vaapi::sys::entrypoint;
use oxideav_vaapi::sys::profile;
use oxideav_vaapi::EntrypointMatrix;
use oxideav_vaapi::VaError;
use oxideav_vaapi::VaProfile;

fn matrix() -> EntrypointMatrix {
    let vld = entrypoint::VAEntrypointVLD;
    let enc = entrypoint::VAEntrypointEncSlice;
    let low = entrypoint::VAEntrypointEncSliceLP;
    let mut m = EntrypointMatrix::empty();
    m.push_row(VaProfile(profile::VAProfileJPEGBaseline), vec![vld]);
    m.push_row(VaProfile(profile::VAProfileH264High), vec![vld, low, 99]);
    m.push_row(VaProfile(profile::VAProfileH264Main), vec![enc, vld]);
    m.push_row(VaProfile(profile::VAProfileHEVCMain), vec![]);
    m.push_row(VaProfile(profile::VAProfileVP9Profile0), vec![99]);
    m
}

fn failure() -> VaError {
    VaError::Va {
        status: 1,
        message: "x".to_string(),
    }
}

fn size(width: u32, height: u32) -> SizeAnswer {
    SizeAnswer {
        width: Ok(Some(width)),
        height: Ok(Some(height)),
    }
}

fn answer_all(plans: &[FamilyPlan]) -> Vec<Vec<SizeAnswer>> {
    plans
        .iter()
        .map(|plan| plan.pairs.iter().map(|_| size(4096, 2304)).collect())
        .collect()
}

fn caps() -> Vec<HwCodecCaps> {
    let plans = plan_codecs(&matrix());
    let answers = answer_all(&plans);
    collect_codecs(&plans, &answers)
}

fn device(minor: u32, vendor: &str) -> NodeReport {
    NodeReport::Device(probe_node(minor, Ok(vendor.to_string()), (1, 22), caps()))
}

/// A host whose nodes 128 and 130 have devices; 129 exists and does not open.
fn reports() -> Vec<NodeReport> {
    let mut reports = vec![
        device(128, "VA-API NVDEC driver [direct backend]"),
        NodeReport::Failed,
        device(130, "Intel iHD driver for Intel(R) Gen Graphics - 24.1.0 ()"),
    ];
    while reports.len() < 64 {
        reports.push(NodeReport::Absent);
    }
    reports
}

fn probes() -> Vec<NodeProbe> {
    let mut probes = vec![NodeProbe::Opened, NodeProbe::Failed, NodeProbe::Opened];
    probes.resize(64, NodeProbe::Absent);
    probes
}

/// Search as an application does, probing one node after another.
fn search(index: u32, host: &[NodeProbe]) -> (usize, Result<String, VaError>) {
    let mut seen: Vec<NodeProbe> = Vec::new();
    loop {
        match device_path_for_index(index, &seen) {
            DeviceSearch::Probe(path) => {
                assert_eq!(path, node_path(128 + seen.len() as u32));
                seen.push(host[seen.len()]);
            }
            DeviceSearch::Found(path) => return (seen.len(), Ok(path)),
            DeviceSearch::OutOfRange(error) => return (seen.len(), Err(error)),
        }
    }
}

fn dri_node(info: &HwDeviceInfo) -> String {
    info.extra
        .iter()
        .find(|(k, _)| k == "dri_node")
        .map(|(_, v)| v.clone())
        .expect("engine_info() reports a dri_node")
}

#[test]
fn engine_info_finds_render_node_or_skips() {
    let devs = engine_info(reports());
    assert_eq!(devs.len(), 2);
    let dev = &devs[0];
    assert_eq!(dev.name, "VA-API NVDEC driver [direct backend] (renderD128)");
    assert_eq!(dev.api_version.as_deref(), Some("VA-API 1.22"));
    assert!(dev.driver_version.is_none());
    assert!(dev.total_memory_bytes.is_none());
    let h264 = dev.codecs.iter().find(|c| c.codec == "h264");
    assert!(h264.is_some(), "h264 entry present");
    assert!(h264.unwrap().decode, "h264 decode advertised");
}

#[test]
fn engine_info_does_not_panic_when_called_twice() {
    assert_eq!(engine_info(reports()).len(), engine_info(reports()).len());
    assert!(engine_info(Vec::new()).is_empty());
}

#[test]
fn engine_info_reports_max_dims_for_intel_h264() {
    let devs = engine_info(reports());
    let intel = devs
        .iter()
        .find(|d| d.name.contains("Intel iHD"))
        .expect("Intel device");
    let h264 = intel
        .codecs
        .iter()
        .find(|c| c.codec == "h264")
        .expect("Intel iHD must advertise h264");
    assert!(h264.decode, "Intel iHD must advertise h264 decode");
    let w = h264.max_width.expect("max_width");
    let h = h264.max_height.expect("max_height");
    assert!((1024..=16384).contains(&w), "max_width={w} outside sane range");
    assert!((1024..=16384).contains(&h), "max_height={h} outside sane range");
}

#[test]
fn engine_info_reports_only_known_codecs() {
    for dev in &engine_info(reports()) {
        for caps in &dev.codecs {
            assert!(codec_profiles(&caps.codec).is_some());
        }
    }
}

#[test]
fn device_index_none_opens_first_working_device() {
    let devs = engine_info(reports());
    let (probed, path) = search(0, &probes());
    assert_eq!(path.expect("device 0 resolves"), dri_node(&devs[0]));
    assert_eq!(probed, 1);
}

#[test]
fn device_index_one_opens_second_device() {
    let devs = engine_info(reports());
    let (probed, path) = search(1, &probes());
    assert_eq!(path.expect("device 1 resolves"), dri_node(&devs[1]));
    assert_eq!(probed, 3);
}

#[test]
fn device_index_out_of_range_errors() {
    let (probed, path) = search(99, &probes());
    assert_eq!(probed, 64);
    assert_eq!(
        path.unwrap_err().to_text(),
        "vaInitialize failed (status 0): device_index 99 out of range: only 2 working VA-API device(s) on this host (3 render node(s) probed)"
    );
    let (_, path) = search(0, &[NodeProbe::Absent; 64]);
    assert_eq!(
        path.unwrap_err().to_text(),
        "vaInitialize failed (status 0): device_index 0 out of range: only 0 working VA-API device(s) on this host (0 render node(s) probed)"
    );
}

#[test]
fn found_devices_stay_found() {
    let all = probes();
    for n in 3..=64 {
        match device_path_for_index(1, &all[..n]) {
            DeviceSearch::Found(path) => assert_eq!(path, "/dev/dri/renderD130"),
            _ => panic!("the device is among the first {n} nodes"),
        }
    }
}

#[test]
fn plans_cover_the_advertised_families() {
    let plans = plan_codecs(&matrix());
    let ids: Vec<&str> = plans.iter().map(|p| p.family.codec).collect();
    assert_eq!(ids, vec!["h264", "vp9", "jpeg"]);
    assert_eq!(plans[0].present, vec![VaProfile(6), VaProfile(7)]);
    assert!(plans[0].decode && plans[0].encode);
    assert_eq!(
        plans[0].pairs,
        vec![
            (VaProfile(6), 1),
            (VaProfile(6), 6),
            (VaProfile(7), 1),
            (VaProfile(7), 8)
        ]
    );
    assert!(!plans[1].decode && !plans[1].encode);
    assert!(plans[1].pairs.is_empty());
    assert!(plans[2].decode && !plans[2].encode);
    assert_eq!(plans[2].pairs, vec![(VaProfile(12), 1)]);
}

#[test]
fn size_limits_are_the_largest_known_ones() {
    assert_eq!(max_dims_across(&[]), (None, None));
    let answers = vec![
        size(0, 0),
        SizeAnswer {
            width: Ok(None),
            height: Err(failure()),
        },
    ];
    assert_eq!(max_dims_across(&answers), (None, None));
    let answers = vec![
        size(1920, 4096),
        size(4096, 0),
        SizeAnswer {
            width: Err(failure()),
            height: Ok(Some(2304)),
        },
        size(2048, 16),
    ];
    assert_eq!(max_dims_across(&answers), (Some(4096), Some(4096)));
}

#[test]
fn capabilities_list_profile_names() {
    let caps = caps();
    assert_eq!(caps.len(), 3);
    assert_eq!(caps[0].profiles, vec!["VAProfileH264Main", "VAProfileH264High"]);
    assert_eq!((caps[0].max_width, caps[0].max_height), (Some(4096), Some(2304)));
    assert_eq!((caps[1].max_width, caps[1].max_height), (None, None));
    assert!(caps[0].max_bit_depth.is_none());
    assert!(caps[0].extra.is_empty());
}

#[test]
fn drivers_without_a_vendor_string_are_unknown() {
    let info = probe_node(191, Err(failure()), (0, 40), Vec::new());
    assert_eq!(info.name, "unknown VA-API driver (renderD191)");
    assert_eq!(info.api_version.as_deref(), Some("VA-API 0.40"));
    assert_eq!(dri_node(&info), "/dev/dri/renderD191");
    assert!(info.codecs.is_empty());
}

#[test]
fn displays_without_a_matrix_are_passed_over() {
    let devs = engine_info(vec![NodeReport::NoMatrix, device(129, "b")]);
    assert_eq!(devs.len(), 1);
    assert_eq!(devs[0].name, "b (renderD129)");
    // Such a display takes no part in the device numbering either.
    match device_path_for_index(0, &[NodeProbe::Failed, NodeProbe::Opened]) {
        DeviceSearch::Found(path) => {
            assert_eq!(path, "/dev/dri/renderD129");
            assert_eq!(path, dri_node(&devs[0]));
        }
        _ => panic!("the second node has a device"),
    }
}
