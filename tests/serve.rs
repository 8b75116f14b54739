use webcam_server::{destination_url, encoder_args, parse_catalog, plan_serve, resolve, Device, DEFAULT_RTSP_PORT};

fn device(id: &str, name: &str, path: &str) -> Device {
    Device { id: id.to_string(), name: name.to_string(), path: path.to_string() }
}

#[test]
fn resolve_returns_first_match() {
    let catalog = vec![device("a", "A", "/dev/video0"), device("b", "B1", "/dev/video1"), device("b", "B2", "/dev/video2")];
    let d = resolve(&catalog, &"b".to_string()).unwrap();
    assert_eq!(d.name, "B1");
    assert_eq!(d.path, "/dev/video1");
}

#[test]
fn resolve_is_exact_and_case_sensitive() {
    let catalog = vec![device("cam1", "Cam", "/dev/video3")];
    assert!(resolve(&catalog, &"cam".to_string()).is_none());
    assert!(resolve(&catalog, &"CAM1".to_string()).is_none());
    assert!(resolve(&catalog, &"cam10".to_string()).is_none());
    assert!(resolve(&Vec::new(), &"cam1".to_string()).is_none());
}

#[test]
fn url_uses_default_port() {
    assert_eq!(DEFAULT_RTSP_PORT, 554);
    assert_eq!(destination_url(None, "stream"), "rtsp://localhost:554/stream");
}

#[test]
fn url_uses_given_port() {
    assert_eq!(destination_url(Some(8554), "live"), "rtsp://localhost:8554/live");
    assert_eq!(destination_url(Some(0), "x"), "rtsp://localhost:0/x");
    assert_eq!(destination_url(Some(65535), "a/b c"), "rtsp://localhost:65535/a/b c");
}

#[test]
fn encoder_arguments_follow_template() {
    let args = encoder_args("/dev/video3", "rtsp://localhost:8554/live");
    let expected = [
        "-hide_banner", "-f", "v4l2", "-i", "/dev/video3", "-pix_fmt", "yuv420p", "-preset",
        "ultrafast", "-b:v", "600k", "-f", "rtsp", "rtsp://localhost:8554/live",
    ];
    assert_eq!(args, expected.iter().map(|s| s.to_string()).collect::<Vec<_>>());
}

#[test]
fn serve_unknown_device_is_not_found() {
    let catalog = parse_catalog("Cam (cam1):\n/dev/video3\n");
    assert!(plan_serve(&catalog, &"nonexistent".to_string(), "stream", None).is_none());
}

#[test]
fn serve_known_device_builds_invocation() {
    let catalog = vec![device("cam1", "Cam One", "/dev/video3")];
    let plan = plan_serve(&catalog, &"cam1".to_string(), "live", Some(8554)).unwrap();
    assert_eq!(plan.url, "rtsp://localhost:8554/live");
    assert_eq!(plan.device_path, "/dev/video3");
    assert_eq!(plan.device_name, "Cam One");
    assert_eq!(plan.args[4], "/dev/video3");
    assert_eq!(plan.args[13], "rtsp://localhost:8554/live");
}

#[test]
fn serve_without_port_uses_default() {
    let catalog = vec![device("cam1", "Cam", "/dev/video3")];
    let plan = plan_serve(&catalog, &"cam1".to_string(), "stream", None).unwrap();
    assert_eq!(plan.url, "rtsp://localhost:554/stream");
}
