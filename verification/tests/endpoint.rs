use kikitori::endpoint::{engine_endpoint, parse_endpoint, Endpoint};

#[test]
fn absolute_path_is_unix() {
    assert_eq!(
        parse_endpoint("/run/user/1000/kikitori.sock"),
        Endpoint::Unix("/run/user/1000/kikitori.sock".into())
    );
}

#[test]
fn host_port_is_tcp() {
    assert_eq!(
        parse_endpoint("r995:41717"),
        Endpoint::Tcp("r995:41717".into())
    );
    assert_eq!(
        parse_endpoint("192.168.1.10:41717"),
        Endpoint::Tcp("192.168.1.10:41717".into())
    );
}

#[test]
fn absolute_path_wins_even_with_colon() {
    // a path may contain ':'; a leading '/' still makes it a Unix path
    assert_eq!(
        parse_endpoint("/tmp/odd:name.sock"),
        Endpoint::Unix("/tmp/odd:name.sock".into())
    );
}

#[test]
fn bare_name_is_unix_path() {
    assert_eq!(
        parse_endpoint("kikitori.sock"),
        Endpoint::Unix("kikitori.sock".into())
    );
}

#[test]
fn empty_value_is_a_unix_path() {
    assert_eq!(parse_endpoint(""), Endpoint::Unix("".into()));
}

#[test]
fn command_line_value_comes_first() {
    assert_eq!(
        engine_endpoint(
            Some("host:1".into()),
            Some("/env.sock".into()),
            Some("/run/user/7".into())
        ),
        Endpoint::Tcp("host:1".into())
    );
}

#[test]
fn environment_value_comes_second() {
    assert_eq!(
        engine_endpoint(None, Some("/env.sock".into()), Some("/run/user/7".into())),
        Endpoint::Unix("/env.sock".into())
    );
}

#[test]
fn runtime_directory_gives_the_default_socket() {
    assert_eq!(
        engine_endpoint(None, None, Some("/run/user/7".into())),
        Endpoint::Unix("/run/user/7/kikitori.sock".into())
    );
}
