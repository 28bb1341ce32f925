use pg_pool::paths::{abs_path, abs_path_with_default, bind_addr, capture_basedir, capture_subpath};
use pg_pool::schema::{BackendConfig, MailConf, ServerConf};

#[test]
fn it_works() {
    assert_eq!(2 + 2, 4);
}

#[test]
fn it_returns_default_config() {
    let conf = BackendConfig::default();
    assert_eq!(conf.listen.host, "[::]");
    assert_eq!(conf.listen.port, 50051);
    assert_eq!(conf.listen.basedir, None);
    assert_eq!(conf.listen.origin, None);
    assert_eq!(conf.db.host, "localhost");
    assert_eq!(conf.db.port, 5432);

    assert_eq!(bind_addr(&conf.listen), "[::]:50051");
}

#[test]
fn it_returns_dir_as_abs_path() {
    let conf = ServerConf::default();
    assert_eq!(abs_path(&conf, "dir"), "/dir");
    assert_eq!(abs_path(&conf, "/dir"), "/dir");
    assert_eq!(abs_path(&conf, "/"), "/");
    assert_eq!(abs_path(&conf, ""), "/");
}

#[test]
fn it_returns_dir_with_default_prefix() {
    let conf = ServerConf::default();
    assert_eq!(abs_path_with_default(&conf, "dir", "base"), "/base/dir");
    assert_eq!(abs_path_with_default(&conf, "/dir", "base"), "/base/dir");
    assert_eq!(abs_path_with_default(&conf, "dir", "/base"), "/base/dir");
    assert_eq!(abs_path_with_default(&conf, "dir", "/base/"), "/base/dir");
    assert_eq!(abs_path_with_default(&conf, "/", "base"), "/base/");
    assert_eq!(abs_path_with_default(&conf, "", "base"), "/base/");
}

#[test]
fn it_captures_dir_fragment() {
    assert_eq!(capture_basedir("dir"), Some("dir"));
    assert_eq!(capture_subpath("dir"), Some("dir"));
    assert_eq!(capture_basedir("/dir/"), Some("dir"));
    assert_eq!(capture_subpath("/dir/"), Some("dir/"));
    assert_eq!(capture_basedir("//dir//"), Some("dir"));
    assert_eq!(capture_subpath("//dir//"), Some("dir//"));
    assert_eq!(capture_basedir("dir/"), Some("dir"));
    assert_eq!(capture_subpath("dir/"), Some("dir/"));
    assert_eq!(capture_basedir(""), None);
    assert_eq!(capture_subpath(""), None);
}

#[test]
fn configured_basedir_wins_over_default() {
    let mut conf = ServerConf::default();
    conf.basedir = Some("app".to_string());
    assert_eq!(abs_path_with_default(&conf, "dir", "base"), "/app/dir");
    assert_eq!(abs_path(&conf, "dir"), "/app/dir");
}

#[test]
fn bind_addr_formats_any_port() {
    let mut conf = ServerConf::default();
    conf.host = "localhost".to_string();
    conf.port = 8080;
    assert_eq!(bind_addr(&conf), "localhost:8080");
    conf.port = 7;
    assert_eq!(bind_addr(&conf), "localhost:7");
    conf.port = 65535;
    assert_eq!(bind_addr(&conf), "localhost:65535");
}

#[test]
fn smtp_port_defaults_to_submissions() {
    let mut mail = MailConf {
        from: "a@example.com".to_string(),
        admin_addr: "b@example.com".to_string(),
        api_host: "smtp.example.com".to_string(),
        api_port: None,
        api_user: None,
        api_key: None,
    };
    assert_eq!(mail.smtp_port(), 465);
    mail.api_port = Some(2525);
    assert_eq!(mail.smtp_port(), 2525);
}
