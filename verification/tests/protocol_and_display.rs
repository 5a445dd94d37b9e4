use ferum_greet::background::{
    is_svg_extension, is_svg_path, load_raster, nonzero_size, plan, solid_pixels, BackgroundPlan,
};
use ferum_greet::config::BackgroundConfig;
use ferum_greet::greetd_client::{AuthMessageType, AuthStep, ErrorType, Response};
use ferum_greet::order::connector_order;
use ferum_greet::power::PowerAction;
use ferum_greet::scanout::{
    choose_crtc, copy_rows, padded_bytes_per_row, pick_mode, plan_cards, plan_outputs, refresh_rate, ConnectorProbe,
    FlipState, OutputPlan, PlanError,
};

fn step(r: Response) -> AuthStep {
    AuthStep::from_response(r)
}

#[test]
fn responses_map_to_steps() {
    assert!(matches!(step(Response::Success), AuthStep::Success));
    assert!(matches!(
        step(Response::Error { error_type: ErrorType::AuthError, description: "bad".into() }),
        AuthStep::Failure(ref d) if d == "bad"
    ));
    assert!(matches!(
        step(Response::Error { error_type: ErrorType::Error, description: "oops".into() }),
        AuthStep::Info { ref message, is_error: true } if message == "oops"
    ));
    let am = |t| Response::AuthMessage { auth_message_type: t, auth_message: "m".into() };
    assert!(matches!(step(am(AuthMessageType::Visible)), AuthStep::Prompt { secret: false, .. }));
    assert!(matches!(step(am(AuthMessageType::Secret)), AuthStep::Prompt { secret: true, .. }));
    assert!(matches!(step(am(AuthMessageType::Info)), AuthStep::Info { is_error: false, .. }));
    assert!(matches!(step(am(AuthMessageType::Error)), AuthStep::Info { is_error: true, .. }));
}

#[test]
fn power_labels_and_verbs() {
    assert_eq!(PowerAction::Shutdown.systemctl_verb(), "poweroff");
    assert_eq!(PowerAction::Reboot.systemctl_verb(), "reboot");
    assert!(PowerAction::Shutdown.confirm_label().starts_with("Shut down now?"));
    assert!(PowerAction::Reboot.confirm_label().starts_with("Restart now?"));
}

#[test]
fn padded_rows() {
    assert_eq!(padded_bytes_per_row(1920, 256), 7680);
    assert_eq!(padded_bytes_per_row(1366, 256), 5632);
    assert_eq!(padded_bytes_per_row(1, 256), 256);
    assert_eq!(padded_bytes_per_row(0, 256), 0);
    assert_eq!(padded_bytes_per_row(64, 256), 256);
    assert_eq!(padded_bytes_per_row(65, 256), 512);
    assert_eq!(padded_bytes_per_row(1366, wgpu::COPY_BYTES_PER_ROW_ALIGNMENT), 5632);
}

#[test]
fn refresh_defaults_to_sixty() {
    assert_eq!(refresh_rate(0), 60);
    assert_eq!(refresh_rate(75), 75);
}

#[test]
fn crtc_choice() {
    let cands = vec![vec![1, 2], vec![3]];
    assert_eq!(choose_crtc(Some(7), &cands, &vec![]), Some(7));
    assert_eq!(choose_crtc(Some(7), &cands, &vec![7]), Some(1));
    assert_eq!(choose_crtc(None, &cands, &vec![1]), Some(2));
    assert_eq!(choose_crtc(None, &cands, &vec![1, 2]), Some(3));
    assert_eq!(choose_crtc(None, &cands, &vec![1, 2, 3]), None);
    assert_eq!(choose_crtc(None, &vec![], &vec![]), None);
}

#[test]
fn mode_choice() {
    assert_eq!(pick_mode(&vec![false, true, true]), Some(1));
    assert_eq!(pick_mode(&vec![false, false]), Some(0));
    assert_eq!(pick_mode(&vec![true]), Some(0));
    assert_eq!(pick_mode(&vec![]), None);
}

fn probe(current: Option<u32>, cands: Vec<Vec<u32>>, preferred: Vec<bool>) -> ConnectorProbe {
    ConnectorProbe { current_crtc: current, candidate_crtcs: cands, preferred_modes: preferred }
}

#[test]
fn output_plan_gives_distinct_crtcs() {
    let probes = vec![
        probe(Some(10), vec![vec![10, 11]], vec![false, true]),
        probe(Some(10), vec![vec![10, 11]], vec![true]),
        probe(None, vec![vec![10, 11]], vec![false]),
    ];
    assert_eq!(
        plan_outputs(0, &probes),
        Ok(vec![
            OutputPlan { connector: 0, crtc: 10, mode: 1 },
            OutputPlan { connector: 1, crtc: 11, mode: 0 },
        ])
    );
}

#[test]
fn output_plan_errors() {
    assert_eq!(plan_outputs(0, &vec![]), Ok(vec![]));
    assert_eq!(plan_outputs(0, &vec![probe(None, vec![], vec![true])]), Ok(vec![]));
    assert_eq!(
        plan_outputs(2, &vec![probe(None, vec![vec![3]], vec![true]), probe(Some(4), vec![], vec![])]),
        Err(PlanError::NoModes { card: 2, connector: 1 })
    );
}

#[test]
fn card_plans_fail_only_when_no_card_drives_an_output() {
    assert_eq!(plan_cards(&vec![]), Err(PlanError::NoUsableCrtc));
    assert_eq!(
        plan_cards(&vec![vec![probe(None, vec![], vec![true])], vec![]]),
        Err(PlanError::NoUsableCrtc)
    );
    // A card with nothing to drive is no error while another card drives an output.
    assert_eq!(
        plan_cards(&vec![vec![probe(None, vec![], vec![true])], vec![probe(None, vec![vec![7]], vec![true])]]),
        Ok(vec![vec![], vec![OutputPlan { connector: 0, crtc: 7, mode: 0 }]])
    );
    // Each card hands out its own CRTCs: the same number may serve on two cards.
    assert_eq!(
        plan_cards(&vec![vec![probe(Some(5), vec![], vec![true])], vec![probe(Some(5), vec![], vec![false])]]),
        Ok(vec![
            vec![OutputPlan { connector: 0, crtc: 5, mode: 0 }],
            vec![OutputPlan { connector: 0, crtc: 5, mode: 0 }],
        ])
    );
    assert_eq!(
        plan_cards(&vec![
            vec![probe(None, vec![vec![1]], vec![true])],
            vec![probe(None, vec![vec![2]], vec![])],
        ]),
        Err(PlanError::NoModes { card: 1, connector: 0 })
    );
}

#[test]
fn flip_state_alternates() {
    let mut f = FlipState::new();
    assert!(f.needs_mode_set());
    assert_eq!(f.back(), 1);
    f.presented();
    assert!(!f.needs_mode_set());
    assert_eq!(f.back(), 0);
    f.presented();
    assert_eq!(f.back(), 1);
}

#[test]
fn rows_are_copied_with_the_shorter_stride() {
    let src: Vec<u8> = (0..12).collect();
    let mut dst = vec![0xffu8; 10];
    copy_rows(&mut dst, 5, &src, 6, 2);
    assert_eq!(dst, vec![0, 1, 2, 3, 4, 6, 7, 8, 9, 10]);
    let mut wide = vec![0xffu8; 20];
    copy_rows(&mut wide, 8, &src, 4, 3);
    assert_eq!(
        wide,
        vec![0, 1, 2, 3, 255, 255, 255, 255, 4, 5, 6, 7, 255, 255, 255, 255, 8, 9, 10, 11]
    );
    let mut untouched = vec![9u8; 4];
    copy_rows(&mut untouched, 2, &src, 2, 0);
    assert_eq!(untouched, vec![9, 9, 9, 9]);
}

#[test]
fn svg_detection() {
    assert!(is_svg_path(&"/etc/wall.svg".to_string()));
    assert!(is_svg_path(&"/etc/wall.SVG".to_string()));
    assert!(is_svg_path(&"a.b.Svg".to_string()));
    assert!(!is_svg_path(&"/etc/wall.jpg".to_string()));
    assert!(!is_svg_path(&"/etc/.svg".to_string()));
    assert!(!is_svg_path(&"/etc/svg".to_string()));
    assert!(!is_svg_path(&"/etc/wall.svgz".to_string()));
    assert!(!is_svg_extension(None));
    assert!(is_svg_extension(Some("sVg".to_string())));
}

#[test]
fn background_plans() {
    let builtin = "/nix/store/x-wallpaper.jpg".to_string();
    match plan(&BackgroundConfig::Color { r: 1, g: 2, b: 3 }, &builtin) {
        BackgroundPlan::Solid { r, g, b } => assert_eq!((r, g, b), (1, 2, 3)),
        other => panic!("{:?}", other),
    }
    match plan(&BackgroundConfig::Default, &builtin) {
        BackgroundPlan::Image { path, svg, fallback } => {
            assert_eq!(path, builtin);
            assert!(!svg);
            assert_eq!(fallback, Some((30, 34, 45)));
        }
        other => panic!("{:?}", other),
    }
    match plan(&BackgroundConfig::Image { path: "/w/bg.svg".to_string() }, &builtin) {
        BackgroundPlan::Image { path, svg, fallback } => {
            assert_eq!(path, "/w/bg.svg");
            assert!(svg);
            assert_eq!(fallback, None);
        }
        other => panic!("{:?}", other),
    }
}

#[test]
fn raster_size_at_least_one() {
    assert_eq!(nonzero_size(0, 0), (1, 1));
    assert_eq!(nonzero_size(1920, 0), (1920, 1));
    assert_eq!(nonzero_size(3, 4), (3, 4));
}

#[test]
fn connectors_sorted_by_name_then_number_stably() {
    let keys: Vec<(String, u32)> = vec![
        ("Virtual".to_string(), 1),
        ("HDMIA".to_string(), 2),
        ("DisplayPort".to_string(), 1),
        ("HDMIA".to_string(), 1),
        ("DisplayPort".to_string(), 1),
        ("HDMI".to_string(), 9),
    ];
    let order = connector_order(&keys);
    assert_eq!(order, vec![2, 4, 5, 3, 1, 0]);
    let mut expected: Vec<usize> = (0..keys.len()).collect();
    expected.sort_by_key(|&i| keys[i].clone());
    assert_eq!(order, expected);
    assert!(connector_order(&vec![]).is_empty());
    let unicode = vec![("\u{e9}".to_string(), 0), ("z".to_string(), 0), ("".to_string(), 5)];
    let mut expected: Vec<usize> = (0..unicode.len()).collect();
    expected.sort_by_key(|&i| unicode[i].clone());
    assert_eq!(connector_order(&unicode), expected);
}

fn png_bytes(img: &image::RgbaImage) -> Vec<u8> {
    let mut out = std::io::Cursor::new(Vec::new());
    img.write_to(&mut out, image::ImageFormat::Png).unwrap();
    out.into_inner()
}

#[test]
fn raster_is_decoded_and_covers_the_screen() {
    let img = image::RgbaImage::from_pixel(8, 4, image::Rgba([10, 20, 30, 255]));
    let bytes = png_bytes(&img);
    let px = load_raster(&bytes, 4, 4).unwrap();
    assert_eq!(px.len(), 4 * 4 * 4);
    assert_eq!(&px[0..4], &[10, 20, 30, 255]);
    let same = image::load_from_memory(&bytes)
        .unwrap()
        .resize_to_fill(4, 4, image::imageops::FilterType::Lanczos3)
        .to_rgba8()
        .into_raw();
    assert_eq!(px, same);
    // A zero size is raised to one pixel.
    assert_eq!(load_raster(&bytes, 0, 0).unwrap().len(), 4);
}

#[test]
fn undecodable_raster_gives_none() {
    assert!(load_raster(&vec![1, 2, 3, 4], 4, 4).is_none());
    assert!(load_raster(&Vec::new(), 4, 4).is_none());
}

#[test]
fn connector_order_ignores_listing_order() {
    let keys: Vec<(String, u32)> = vec![
        ("Virtual".to_string(), 1),
        ("HDMIA".to_string(), 2),
        ("DisplayPort".to_string(), 1),
        ("HDMIA".to_string(), 1),
    ];
    let listed_again: Vec<(String, u32)> = vec![keys[3].clone(), keys[0].clone(), keys[2].clone(), keys[1].clone()];
    let a: Vec<(String, u32)> = connector_order(&keys).into_iter().map(|i| keys[i].clone()).collect();
    let b: Vec<(String, u32)> =
        connector_order(&listed_again).into_iter().map(|i| listed_again[i].clone()).collect();
    assert_eq!(a, b);
}

#[test]
fn solid_fill_matches_image_from_pixel() {
    for (w, h) in [(3u32, 2u32), (0, 0), (1, 5), (0, 4)] {
        let px = solid_pixels(30, 34, 45, w, h);
        let (nw, nh) = nonzero_size(w, h);
        let expected = image::RgbaImage::from_pixel(nw, nh, image::Rgba([30, 34, 45, 255]));
        assert_eq!(px, expected.into_raw());
    }
    assert_eq!(solid_pixels(1, 2, 3, 2, 1), vec![1, 2, 3, 255, 1, 2, 3, 255]);
}
