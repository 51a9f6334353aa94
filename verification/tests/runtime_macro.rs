use omnia::runtime_macro::{
    distinct_paths, field_ident, omnia_wasi_ident, paths_eq, replace_str, wasi_ident, Config,
    Generated, Host, Setting,
};

fn path(segments: &[&str]) -> Vec<String> {
    segments.iter().map(|s| s.to_string()).collect()
}

fn host(type_: &str, backend: &str) -> Host {
    Host { type_: path(&[type_]), backend: path(&[backend]) }
}

fn chars(s: &str) -> Vec<char> {
    s.chars().collect()
}

#[test]
fn field_names_are_snake_case() {
    assert_eq!(field_ident(&path(&["HttpDefault"])), "http_default");
    assert_eq!(field_ident(&path(&["omnia", "MongoDb"])), "mongo_db");
    assert_eq!(field_ident(&path(&["already_snake"])), "already_snake");
    assert_eq!(field_ident(&path(&["ABC"])), "a_b_c");
    assert_eq!(field_ident(&path(&[])), "field");
}

#[test]
fn host_names() {
    assert_eq!(wasi_ident(&path(&["WasiHttp"])), "wasi_http");
    assert_eq!(wasi_ident(&path(&["omnia_wasi_blobstore", "WasiBlobstore"])), "wasi_blobstore");
    assert_eq!(omnia_wasi_ident(&path(&["WasiKeyValue"])), "omnia_wasi_keyvalue");
    assert_eq!(wasi_ident(&path(&["Http"])), "http");
    assert_eq!(wasi_ident(&path(&[])), "wasi");
}

#[test]
fn replace_every_occurrence() {
    let out = replace_str(&chars("WasiWasiXWasi"), &chars("Wasi"), &chars("w_"));
    assert_eq!(out.iter().collect::<String>(), "w_w_Xw_");
    let out = replace_str(&chars("aaa"), &chars("aa"), &chars("b"));
    assert_eq!(out.iter().collect::<String>(), "ba");
    let out = replace_str(&chars("abc"), &chars(""), &chars("x"));
    assert_eq!(out.iter().collect::<String>(), "abc");
}

#[test]
fn backends_deduplicated() {
    let config = Config::from_settings(vec![Setting::Hosts(vec![
        host("WasiHttp", "HttpDefault"),
        host("WasiBlobstore", "MongoDb"),
        host("WasiKeyValue", "MongoDb"),
    ])]);
    assert!(!config.gen_main);
    assert_eq!(config.hosts.len(), 3);
    assert_eq!(config.backends, vec![path(&["HttpDefault"]), path(&["MongoDb"])]);
}

#[test]
fn last_settings_win() {
    let config = Config::from_settings(vec![
        Setting::Main(true),
        Setting::Hosts(vec![host("WasiHttp", "HttpDefault")]),
        Setting::Hosts(vec![host("WasiOtel", "DefaultOtel")]),
        Setting::Main(false),
        Setting::Main(true),
    ]);
    assert!(config.gen_main);
    assert_eq!(config.hosts.len(), 1);
    assert_eq!(config.hosts[0].type_, path(&["WasiOtel"]));
}

#[test]
fn generated_plan() {
    let config = Config::from_settings(vec![
        Setting::Main(true),
        Setting::Hosts(vec![host("WasiHttp", "HttpDefault"), host("WasiBlobstore", "HttpDefault")]),
    ]);
    let g = Generated::from_config(&config);
    assert_eq!(g.context_fields, vec![("http_default".to_string(), path(&["HttpDefault"]))]);
    assert_eq!(
        g.store_ctx_fields,
        vec![
            ("wasi_http".to_string(), path(&["HttpDefault"])),
            ("wasi_blobstore".to_string(), path(&["HttpDefault"])),
        ]
    );
    assert_eq!(
        g.store_ctx_values,
        vec![
            ("wasi_http".to_string(), "http_default".to_string()),
            ("wasi_blobstore".to_string(), "http_default".to_string()),
        ]
    );
    assert_eq!(g.host_trait_impls, vec![path(&["WasiHttp"]), path(&["WasiBlobstore"])]);
    assert_eq!(g.server_trait_impls, g.host_trait_impls);
    assert_eq!(g.wasi_view_impls[1], ("wasi_blobstore".to_string(), "wasi_blobstore".to_string()));
    assert!(g.gen_main);

    let e = Generated::expanded(&config);
    assert_eq!(e.store_ctx_fields[0].0, "omnia_wasi_http");
    assert_eq!(e.store_ctx_values[0], ("omnia_wasi_http".to_string(), "http_default".to_string()));
}

#[test]
fn generated_dedupes_listed_backends() {
    let config = Config {
        gen_main: false,
        hosts: vec![],
        backends: vec![path(&["A"]), path(&["B"]), path(&["A"])],
    };
    let g = Generated::from_config(&config);
    assert_eq!(g.context_fields.len(), 2);
    assert!(g.store_ctx_fields.is_empty());
}

#[test]
fn path_helpers() {
    assert!(paths_eq(&path(&["a", "b"]), &path(&["a", "b"])));
    assert!(!paths_eq(&path(&["a", "b"]), &path(&["a"])));
    assert_eq!(distinct_paths(&vec![path(&["x"]), path(&["x"]), path(&["y"])]).len(), 2);
}

#[test]
fn backends_compare_as_whole_paths() {
    let absolute = Host { type_: path(&["WasiHttp"]), backend: path(&["", "a", "B"]) };
    let relative = Host { type_: path(&["WasiOtel"]), backend: path(&["a", "B"]) };
    let generic = Host { type_: path(&["WasiKeyValue"]), backend: path(&["a", "B < T >"]) };
    let config = Config::from_settings(vec![Setting::Hosts(vec![absolute, relative, generic])]);
    assert_eq!(config.backends.len(), 3);
    assert_eq!(Generated::from_config(&config).context_fields.len(), 3);
}
