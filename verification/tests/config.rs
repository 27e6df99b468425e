use kikitori::config::{daemon_defaults, parse_daemon_args, parse_i32, SenseVoicePaths};

fn args(a: &[&str]) -> Vec<String> {
    a.iter().map(|s| (*s).to_owned()).collect()
}

#[test]
fn defaults_from_home() {
    let d = daemon_defaults("/home/u", None, None);
    assert_eq!(d.socket, "/home/u/.cache/kikitori.sock");
    assert_eq!(
        d.sensevoice_dir,
        "/home/u/.local/share/voxtype/models/sensevoice-small"
    );
    assert_eq!(d.vad_model, "models/silero_vad.onnx");
    assert_eq!(d.replace_file, "/home/u/.config/kikitori/replace.tsv");
    assert_eq!(d.threads, 16);
}

#[test]
fn defaults_from_xdg_directories() {
    let d = daemon_defaults(
        "/home/u",
        Some("/run/user/1000".into()),
        Some("/etc/xdg".into()),
    );
    assert_eq!(d.socket, "/run/user/1000/kikitori.sock");
    assert_eq!(d.replace_file, "/etc/xdg/kikitori/replace.tsv");
}

#[test]
fn options_override_defaults() {
    let d = daemon_defaults("/h", None, None);
    let a = parse_daemon_args(
        args(&[
            "--threads",
            "4",
            "--socket",
            "/tmp/k.sock",
            "--sensevoice-dir",
            "/m",
            "--vad-model",
            "v.onnx",
            "--replace",
            "r.tsv",
        ]),
        d,
    )
    .ok()
    .unwrap();
    assert_eq!(a.threads, 4);
    assert_eq!(a.socket, "/tmp/k.sock");
    assert_eq!(a.sensevoice_dir, "/m");
    assert_eq!(a.vad_model, "v.onnx");
    assert_eq!(a.replace_file, "r.tsv");
}

#[test]
fn bad_options_are_named() {
    let e = |a: &[&str]| parse_daemon_args(args(a), daemon_defaults("/h", None, None)).err();
    assert_eq!(e(&["--threads", "x"]), Some("--threads は整数".to_owned()));
    assert_eq!(e(&["--bogus"]), Some("未知の引数: --bogus".to_owned()));
    assert_eq!(e(&["--vad-model"]), Some("--vad-model の値がない".to_owned()));
    assert_eq!(e(&["--socket", "/s", "--threads"]), Some("--threads の値がない".to_owned()));
}

#[test]
fn integers_parse_as_std_does() {
    for s in [
        "42", "-7", "+3", "", "-", "+", "1x", " 1", "2147483647", "2147483648", "-2147483648",
        "-2147483649", "0007", "99999999999999",
    ] {
        assert_eq!(parse_i32(s), s.parse::<i32>().ok(), "{s:?}");
    }
}

#[test]
fn model_files_of_a_directory() {
    let p = SenseVoicePaths::in_dir("/m");
    assert_eq!(p.model, "/m/model.int8.onnx");
    assert_eq!(p.tokens, "/m/tokens.txt");
}
