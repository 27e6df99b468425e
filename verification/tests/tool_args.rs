use kikitori::tool_args::{parse_parity_args, parse_wavclient_args};

fn argv(a: &[&str]) -> Vec<String> {
    a.iter().map(|s| (*s).to_owned()).collect()
}

#[test]
fn parity_defaults_and_files() {
    let p = parse_parity_args(argv(&["a.wav", "b.wav"]), "/d".into())
        .ok()
        .unwrap();
    assert_eq!(p.sensevoice_dir, "/d");
    assert_eq!(p.vad_model, "models/silero_vad.onnx");
    assert_eq!(p.wavs, ["a.wav", "b.wav"]);
}

#[test]
fn parity_options_anywhere() {
    let p = parse_parity_args(
        argv(&["a.wav", "--vad-model", "v.onnx", "b.wav", "--sensevoice-dir", "/m"]),
        "/d".into(),
    )
    .ok()
    .unwrap();
    assert_eq!(p.sensevoice_dir, "/m");
    assert_eq!(p.vad_model, "v.onnx");
    assert_eq!(p.wavs, ["a.wav", "b.wav"]);
}

#[test]
fn parity_errors() {
    assert_eq!(
        parse_parity_args(argv(&["a.wav", "--vad-model"]), "/d".into()).err(),
        Some("--vad-model の値".to_owned())
    );
    assert_eq!(
        parse_parity_args(argv(&["--sensevoice-dir"]), "/d".into()).err(),
        Some("--sensevoice-dir の値".to_owned())
    );
    assert_eq!(
        parse_parity_args(argv(&["--vad-model", "v"]), "/d".into()).err(),
        Some("wav ファイルを指定してください".to_owned())
    );
}

#[test]
fn wavclient_socket_is_taken_out() {
    let w = parse_wavclient_args(argv(&["a.wav", "--socket", "/s", "b.wav"]))
        .ok()
        .unwrap();
    assert_eq!(w.socket, Some("/s".to_owned()));
    assert_eq!(w.wavs, ["a.wav", "b.wav"]);
}

#[test]
fn wavclient_only_the_first_socket_counts() {
    let w = parse_wavclient_args(argv(&["--socket", "/s", "--socket", "x.wav"]))
        .ok()
        .unwrap();
    assert_eq!(w.socket, Some("/s".to_owned()));
    assert_eq!(w.wavs, ["--socket", "x.wav"]);
}

#[test]
fn wavclient_errors() {
    assert_eq!(
        parse_wavclient_args(argv(&["a.wav", "--socket"])).err(),
        Some("--socket の値がない".to_owned())
    );
    assert_eq!(
        parse_wavclient_args(argv(&["--socket", "/s"])).err(),
        Some("wav ファイルを指定してください".to_owned())
    );
    assert_eq!(
        parse_wavclient_args(argv(&[])).err(),
        Some("wav ファイルを指定してください".to_owned())
    );
    let w = parse_wavclient_args(argv(&["a.wav"])).ok().unwrap();
    assert_eq!(w.socket, None);
}
