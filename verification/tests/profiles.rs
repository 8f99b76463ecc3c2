use oxideav_vaapi::codec_decode_supported;
use oxideav_vaapi::codec_encode_supported;
use oxideav_vaapi::codec_id_for_profile;
use oxideav_vaapi::codec_id_for_va_profile;
use oxideav_vaapi::codec_profiles;
use oxideav_vaapi::headline_profile;
use oxideav_vaapi::host_supports_codec_decode;
use oxideav_vaapi::known_codecs;
use oxideav_vaapi::sys::entrypoint;
use oxideav_vaapi::sys::profile;
use oxideav_vaapi::EntrypointMatrix;
use oxideav_vaapi::VaProfile;

fn sample_matrix() -> EntrypointMatrix {
    let mut matrix = EntrypointMatrix::empty();
    matrix.push_row(
        VaProfile(profile::VAProfileH264Main),
        vec![entrypoint::VAEntrypointVLD],
    );
    matrix.push_row(
        VaProfile(profile::VAProfileHEVCMain),
        vec![entrypoint::VAEntrypointVLD, entrypoint::VAEntrypointEncSlice],
    );
    matrix.push_row(
        VaProfile(profile::VAProfileVP9Profile0),
        vec![entrypoint::VAEntrypointEncSliceLP],
    );
    matrix.push_row(VaProfile(99), vec![entrypoint::VAEntrypointVideoProc]);
    matrix
}

#[test]
fn known_codecs_covers_h264_hevc_av1() {
    for codec in ["h264", "hevc", "av1", "vp8", "vp9", "mpeg2", "vc1", "jpeg"] {
        assert!(
            codec_profiles(codec).is_some(),
            "codec id {codec:?} missing from KNOWN_CODECS"
        );
    }
}

#[test]
fn unknown_codec_returns_none() {
    assert!(codec_profiles("definitely-not-a-codec").is_none());
    assert!(headline_profile("definitely-not-a-codec").is_none());
}

#[test]
fn headline_is_last_entry_for_h264_high() {
    let h = headline_profile("h264").expect("h264 known");
    assert_eq!(h.raw(), profile::VAProfileH264High);
}

#[test]
fn headline_for_vp8_is_the_single_entry() {
    let h = headline_profile("vp8").expect("vp8 known");
    assert_eq!(h.raw(), profile::VAProfileVP8Version0_3);
}

#[test]
fn headline_for_hevc_is_main444_12() {
    let h = headline_profile("hevc").expect("hevc known");
    assert_eq!(h.raw(), profile::VAProfileHEVCMain444_12);
}

#[test]
fn known_codecs_table_has_no_empty_family() {
    for fam in known_codecs() {
        assert!(
            !fam.profiles.is_empty(),
            "codec family {:?} has empty profile list",
            fam.codec
        );
    }
}

#[test]
fn host_supports_unknown_codec_is_false() {
    assert!(!host_supports_codec_decode("definitely-not-a-codec", None));
    assert!(!host_supports_codec_decode(
        "definitely-not-a-codec",
        Some(&sample_matrix())
    ));
}

#[test]
fn host_supports_h264_or_no_libva() {
    assert!(!host_supports_codec_decode("h264", None));
    assert!(host_supports_codec_decode("h264", Some(&sample_matrix())));
}

#[test]
fn codec_profiles_covers_readme_roadmap() {
    for codec in ["h264", "hevc", "av1", "vp8", "vp9", "mpeg2", "vc1", "jpeg"] {
        let profiles = codec_profiles(codec)
            .unwrap_or_else(|| panic!("codec_profiles({codec:?}) returned None"));
        assert!(
            !profiles.is_empty(),
            "codec {codec:?} has empty profile list"
        );
    }
}

#[test]
fn unknown_codec_id_returns_none() {
    assert!(codec_profiles("not-a-codec").is_none());
    assert!(headline_profile("not-a-codec").is_none());
    assert!(!host_supports_codec_decode("not-a-codec", None));
}

#[test]
fn headline_profile_for_h264_is_high() {
    let h = headline_profile("h264").expect("h264 in KNOWN_CODECS");
    assert_eq!(h.raw(), profile::VAProfileH264High);
}

#[test]
fn headline_profile_for_hevc_is_main444_12() {
    let h = headline_profile("hevc").expect("hevc in KNOWN_CODECS");
    assert_eq!(h.raw(), profile::VAProfileHEVCMain444_12);
}

#[test]
fn known_codecs_table_is_consistent() {
    for fam in known_codecs() {
        assert!(
            !fam.profiles.is_empty(),
            "codec family {:?} has empty profile list",
            fam.codec
        );
        assert_eq!(codec_profiles(fam.codec), Some(fam.profiles));
    }
}

#[test]
fn host_supports_codec_decode_skip_friendly_on_no_libva() {
    assert!(
        !host_supports_codec_decode("h264", None),
        "expected false with no /dev/dri/renderD128"
    );
}

#[test]
fn host_supports_codec_decode_matches_matrix_path() {
    let matrix = sample_matrix();
    let from_matrix = codec_decode_supported(&matrix, "h264");
    let via_helper = host_supports_codec_decode("h264", Some(&matrix));
    assert_eq!(from_matrix, via_helper);
}

#[test]
fn codec_encode_supported_returns_false_for_unknown_codec() {
    let matrix = sample_matrix();
    assert!(!codec_encode_supported(&matrix, "definitely-not-a-codec"));
    assert!(!codec_decode_supported(&matrix, "definitely-not-a-codec"));
}

#[test]
fn reverse_lookup_covers_every_table_entry() {
    for fam in known_codecs() {
        for raw in fam.profiles {
            let id = codec_id_for_profile(*raw)
                .unwrap_or_else(|| panic!("profile {raw} missing reverse mapping"));
            assert_eq!(
                id, fam.codec,
                "profile {raw} mapped to {id:?}, expected {:?}",
                fam.codec
            );
            assert!(
                codec_profiles(id).is_some_and(|ps| ps.contains(raw)),
                "round-trip failure: {raw} -> {id} -> codec_profiles loses {raw}"
            );
        }
    }
}

#[test]
fn reverse_lookup_returns_none_for_va_profile_none() {
    assert!(codec_id_for_profile(profile::VAProfileNone).is_none());
    assert!(codec_id_for_va_profile(VaProfile(profile::VAProfileNone)).is_none());
}

#[test]
fn reverse_lookup_returns_none_for_unknown_value() {
    assert!(codec_id_for_profile(9999).is_none());
    assert!(codec_id_for_profile(-9999).is_none());
    assert!(codec_id_for_va_profile(VaProfile(9999)).is_none());
}

#[test]
fn typed_and_raw_variants_agree_for_every_table_entry() {
    for fam in known_codecs() {
        for raw in fam.profiles {
            assert_eq!(
                codec_id_for_profile(*raw),
                codec_id_for_va_profile(VaProfile(*raw))
            );
        }
    }
}

#[test]
fn matrix_advertised_profiles_bucket_by_codec_without_panic() {
    let matrix = sample_matrix();
    for p in matrix.profiles() {
        let opt = codec_id_for_va_profile(p);
        if let Some(id) = opt {
            assert!(
                codec_profiles(id).is_some(),
                "matrix bucketed profile {p:?} as codec {id:?} but codec_profiles({id:?}) returned None"
            );
        }
    }
}

#[test]
fn matrix_codec_id_lookup_matches_table_for_recognised_profiles() {
    let matrix = sample_matrix();
    let table = known_codecs();
    for p in matrix.profiles() {
        let expected = table
            .iter()
            .find(|f| f.profiles.contains(&p.raw()))
            .map(|f| f.codec);
        let got = codec_id_for_va_profile(p);
        assert_eq!(
            got, expected,
            "matrix profile {p:?}: reverse-lookup {got:?} != table-walk {expected:?}"
        );
    }
}

#[test]
fn reverse_lookup_zero_collision_across_families() {
    let table = known_codecs();
    for (i, fam_a) in table.iter().enumerate() {
        for raw_a in fam_a.profiles {
            for (j, fam_b) in table.iter().enumerate() {
                if i == j {
                    continue;
                }
                assert!(
                    !fam_b.profiles.contains(raw_a),
                    "profile {raw_a} appears in both {:?} and {:?}",
                    fam_a.codec,
                    fam_b.codec
                );
            }
        }
    }
}

#[test]
fn table_rows_come_in_registration_order() {
    let ids: Vec<&str> = known_codecs().iter().map(|f| f.codec).collect();
    assert_eq!(
        ids,
        vec!["h264", "hevc", "av1", "vp8", "vp9", "mpeg2", "vc1", "jpeg"]
    );
    assert_eq!(codec_profiles("h264"), Some(&[13, 5, 6, 7][..]));
    assert_eq!(codec_profiles("hevc"), Some(&[17, 18, 23, 26, 27, 28][..]));
    assert_eq!(codec_profiles("vc1"), Some(&[8, 9, 10][..]));
    assert_eq!(codec_profiles("jpeg"), Some(&[12][..]));
}

#[test]
fn encode_needs_an_encode_entrypoint() {
    let matrix = sample_matrix();
    assert!(!codec_encode_supported(&matrix, "h264"));
    assert!(codec_encode_supported(&matrix, "hevc"));
    assert!(codec_encode_supported(&matrix, "vp9"));
    assert!(!codec_decode_supported(&matrix, "vp9"));
    assert!(!codec_decode_supported(&matrix, "av1"));
}

#[test]
fn profile_names() {
    assert_eq!(VaProfile(7).name(), "VAProfileH264High");
    assert_eq!(VaProfile(-1).name(), "VAProfileNone");
    assert_eq!(VaProfile(28).name(), "VAProfileHEVCMain444_12");
    assert_eq!(VaProfile(2).name(), "VAProfile(2)");
    assert_eq!(VaProfile(9999).name(), "VAProfile(9999)");
    assert_eq!(VaProfile(-7).name(), "VAProfile(-7)");
    assert_eq!(VaProfile(33).raw(), 33);
}
