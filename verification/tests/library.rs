use ghdepup::config::{config_files, config_from_contents, ConfigError};
use ghdepup::dep::{format_outfile, Dep};
use ghdepup::depkey::DepKey;
use ghdepup::table::{try_get_all_deps, GhDepContainer};
use ghdepup::tags::{get_tag_name, parse_tags_json, GetTagsError};
use ghdepup::text::{
    ends_with, join, starts_with, to_ascii_lowercase, to_ascii_uppercase, u64_to_decimal,
    usize_to_decimal,
};
use ghdepup::update::{
    bearer, check_status, decode_response, tags_request_headers, deps_from_config, refresh_deps, strip_token, tags_url,
    update_errors, update_tags_from_json,
};
use ghdepup::version::{Order, SemVer, SemVerReq};

fn table(text: &str) -> toml::Table {
    toml::from_str::<toml::Table>(text).expect("valid toml")
}

fn versions(texts: &[&str]) -> Vec<SemVer> {
    texts.iter().map(|s| SemVer::parse(s).expect("valid version")).collect()
}

fn strings(texts: &[&str]) -> Vec<String> {
    texts.iter().map(|s| s.to_string()).collect()
}

fn empty_dep(name: &str) -> Dep {
    Dep::from_table(&toml::Table::new(), name)
}

// --- DepKey -------------------------------------------------------------

#[test]
fn key_names() {
    assert_eq!(DepKey::Project.as_str(), "PROJECT");
    assert_eq!(DepKey::TagPrefix.as_str(), "TAG_PREFIX");
    assert_eq!(DepKey::Version.as_str(), "VERSION");
    assert_eq!(DepKey::VersionReq.as_str(), "VERSION_REQ");
}

#[test]
fn key_postfixes() {
    assert_eq!(DepKey::Project.as_full_postfix(), "GH_PROJECT");
    assert_eq!(DepKey::TagPrefix.as_full_postfix(), "GH_TAG_PREFIX");
    assert_eq!(DepKey::Version.as_full_postfix(), "GH_VERSION");
    assert_eq!(DepKey::VersionReq.as_full_postfix(), "GH_VERSION_REQ");
}

// --- text ---------------------------------------------------------------

#[test]
fn ascii_case_mapping() {
    assert_eq!(to_ascii_uppercase("hyper_tls-1é"), "HYPER_TLS-1é");
    assert_eq!(to_ascii_lowercase("HYPER_TLS-1É"), "hyper_tls-1É");
    assert_eq!(to_ascii_uppercase(""), "");
}

#[test]
fn prefixes_and_suffixes() {
    assert!(starts_with("v1.2.3", "v"));
    assert!(starts_with("v1.2.3", ""));
    assert!(!starts_with("1.2.3", "v"));
    assert!(!starts_with("v", "v1"));
    assert!(ends_with("HYPER_GH_PROJECT", "GH_PROJECT"));
    assert!(!ends_with("HYPER_GH_PROJECTS", "GH_PROJECT"));
    assert!(!ends_with("PROJECT", "GH_PROJECT"));
}

#[test]
fn decimal_texts() {
    assert_eq!(u64_to_decimal(0), "0");
    assert_eq!(u64_to_decimal(7), "7");
    assert_eq!(u64_to_decimal(1234567890), "1234567890");
    assert_eq!(u64_to_decimal(u64::MAX), u64::MAX.to_string());
    assert_eq!(usize_to_decimal(42), "42");
}

#[test]
fn joining() {
    assert_eq!(join(&strings(&[]), ", "), "");
    assert_eq!(join(&strings(&["a"]), ", "), "a");
    assert_eq!(join(&strings(&["a", "b", "c"]), ", "), "a, b, c");
}

// --- versions -------------------------------------------------------------

#[test]
fn version_parsing_and_text() {
    let v = SemVer::parse("1.2.3-alpha.1+build.5").unwrap();
    assert_eq!(v.major(), 1);
    assert_eq!(v.minor(), 2);
    assert_eq!(v.patch(), 3);
    assert_eq!(v.pre(), "alpha.1");
    assert_eq!(v.build(), "build.5");
    assert_eq!(v.to_string(), "1.2.3-alpha.1+build.5");
    assert_eq!(SemVer::parse("0.14.26").unwrap().to_string(), "0.14.26");
    assert_eq!(SemVer::parse("1.0.0+b").unwrap().to_string(), "1.0.0+b");
    assert!(SemVer::parse("").is_none());
    assert!(SemVer::parse("1.2").is_none());
    assert!(SemVer::parse("v1.2.3").is_none());
}

#[test]
fn version_order() {
    let v = versions(&["1.0.0-alpha", "1.0.0", "1.0.1", "0.9.9"]);
    assert_eq!(v[0].compare(&v[1]), Order::Less);
    assert_eq!(v[1].compare(&v[0]), Order::Greater);
    assert_eq!(v[1].compare(&v[2]), Order::Less);
    assert_eq!(v[3].compare(&v[1]), Order::Less);
    assert_eq!(v[1].compare(&v[1].clone()), Order::Equal);
}

#[test]
fn requirement_matching() {
    let req = SemVerReq::parse(">=3, <4").unwrap();
    assert_eq!(req.text(), ">=3, <4");
    let v = versions(&["2.9.9", "3.0.0", "3.9.1", "4.0.0"]);
    assert!(!req.matches(&v[0]));
    assert!(req.matches(&v[1]));
    assert!(req.matches(&v[2]));
    assert!(!req.matches(&v[3]));
    assert!(SemVerReq::parse(">=x").is_none());
}

// --- configuration tables ---------------------------------------------

const CONFIG: &str = "
B_GH_PROJECT=\"owner/b\"
A_GH_PROJECT=\"owner/a\"
A_GH_TAG_PREFIX=\"release-\"
A_GH_VERSION=\"1.0.0\"
A_GH_VERSION_REQ=\"^1\"
B_GH_VERSION=\"not a version\"
C_GH_TAG_PREFIX=\"v\"
NUMBER=3
";

#[test]
fn ghdep_info_lookup() {
    let t = table(CONFIG);
    assert_eq!(t.get_ghdep_info("a", DepKey::Project), Some("owner/a".to_string()));
    assert_eq!(t.get_ghdep_info("A", DepKey::TagPrefix), Some("release-".to_string()));
    assert_eq!(t.get_ghdep_info("b", DepKey::TagPrefix), None);
    assert_eq!(t.get_ghdep_info("c", DepKey::Project), None);
}

#[test]
fn non_string_values_are_not_read() {
    let t = table("X_GH_PROJECT=3\nY_GH_PROJECT=\"y\"\n");
    assert_eq!(t.get_ghdep_info("x", DepKey::Project), None);
    assert_eq!(join(&t.get_all_deps(), ", "), "x, y");
}

#[test]
fn all_deps_in_key_order() {
    let t = table(CONFIG);
    assert_eq!(join(&t.get_all_deps(), ", "), "a, b");
    assert_eq!(join(&try_get_all_deps(&t).unwrap(), ", "), "a, b");
}

#[test]
fn malformed_project_keys_are_refused() {
    assert!(try_get_all_deps(&table("GH_PROJECT=\"x\"\n")).is_none());
    assert!(try_get_all_deps(&table("\"\u{e9}GH_PROJECT\"=\"x\"\n")).is_none());
    assert_eq!(
        join(&try_get_all_deps(&table("\"X-GH_PROJECT\"=\"x\"\n")).unwrap(), ", "),
        "x"
    );
}

#[test]
fn dep_from_table() {
    let t = table(CONFIG);
    let a = Dep::from_table(&t, "a");
    assert_eq!(a.name, "a");
    assert_eq!(a.project, "owner/a");
    assert_eq!(a.tag_prefix, "release-");
    assert_eq!(a.current_version, SemVer::parse("1.0.0"));
    assert_eq!(a.version_req, SemVerReq::parse("^1"));
    let b = Dep::from_table(&t, "b");
    assert_eq!(b.project, "owner/b");
    assert_eq!(b.tag_prefix, "");
    assert_eq!(b.current_version, None);
    assert_eq!(b.version_req, SemVerReq::parse(""));
    assert!(b.best_version.is_none());
}

#[test]
fn deps_of_a_config() {
    let deps = deps_from_config(&table(CONFIG));
    assert_eq!(deps.len(), 2);
    assert_eq!(deps[0].name, "a");
    assert_eq!(deps[0].project, "owner/a");
    assert_eq!(deps[1].name, "b");
    assert_eq!(deps[1].project, "owner/b");
}

#[test]
fn upper_case_project_key_reads_back() {
    let t = table("MY_DEP_2_GH_PROJECT=\"o/p\"\n");
    let deps = deps_from_config(&t);
    assert_eq!(deps[0].name, "my_dep_2");
    assert_eq!(deps[0].project, "o/p");
    let lower = table("mixed_GH_PROJECT=\"o/p\"\n");
    let deps = deps_from_config(&lower);
    assert_eq!(deps[0].name, "mixed");
    assert_eq!(deps[0].project, "");
}

// --- versions from tags and the best version -------------------------------

#[test]
fn versions_from_prefixed_tags() {
    let tags = strings(&["release-1.0.0", "release-x", "1.1.0", "release-2.0.0-rc.1"]);
    let v = Dep::get_versions_from_tags(&tags, "release-");
    let texts: Vec<String> = v.iter().map(|v| v.to_string()).collect();
    assert_eq!(texts, strings(&["1.0.0", "2.0.0-rc.1"]));
    let all = Dep::get_versions_from_tags(&tags, "");
    let texts: Vec<String> = all.iter().map(|v| v.to_string()).collect();
    assert_eq!(texts, strings(&["1.1.0"]));
}

#[test]
fn best_version_without_requirement() {
    let v = versions(&["1.2.3", "10.0.0", "9.9.9", "10.0.0-rc.1"]);
    assert_eq!(Dep::get_best_version(&v, &None), SemVer::parse("10.0.0"));
}

#[test]
fn best_version_none_matching() {
    let v = versions(&["1.2.3", "2.0.0"]);
    assert_eq!(Dep::get_best_version(&v, &SemVerReq::parse(">=3")), None);
    assert_eq!(Dep::get_best_version(&Vec::new(), &None), None);
}

#[test]
fn best_version_with_equal_versions() {
    let v = versions(&["2.0.0", "1.0.0", "2.0.0"]);
    assert_eq!(Dep::get_best_version(&v, &None), SemVer::parse("2.0.0"));
}

#[test]
fn best_version_comes_from_a_tag() {
    let mut d = empty_dep("x");
    d.tag_prefix = "v".to_string();
    d.available_tags = strings(&["v1.0.0", "2.0.0", "v1.5.0", "vbad"]);
    d.version_req = SemVerReq::parse("<1.4");
    d.update_versions_from_tags();
    d.update_best_version();
    assert_eq!(d.available_versions, versions(&["1.0.0", "1.5.0"]));
    assert_eq!(d.best_version, SemVer::parse("1.0.0"));
}

#[test]
fn refreshing_deps() {
    let mut a = empty_dep("a");
    a.available_tags = strings(&["1.0.0", "3.0.0", "2.0.0"]);
    let mut b = empty_dep("b");
    b.available_tags = strings(&["x"]);
    let mut deps = vec![a, b];
    refresh_deps(&mut deps);
    assert_eq!(deps.len(), 2);
    assert_eq!(deps[0].name, "a");
    assert_eq!(deps[0].best_version, SemVer::parse("3.0.0"));
    assert_eq!(deps[1].name, "b");
    assert_eq!(deps[1].best_version, None);
    assert_eq!(deps[1].available_versions.len(), 0);
}

// --- output ---------------------------------------------------------------

#[test]
fn version_lines() {
    let mut d = empty_dep("hyper_tls");
    assert_eq!(d.fmt(), "HYPER_TLS_GH_VERSION=\"\"");
    d.best_version = SemVer::parse("0.5.0");
    assert_eq!(d.fmt(), "HYPER_TLS_GH_VERSION=\"0.5.0\"");
}

#[test]
fn debug_report() {
    let mut d = empty_dep("hyper");
    d.project = "hyperium/hyper".to_string();
    d.current_version = SemVer::parse("0.14.26");
    d.available_tags = strings(&["v0.14.26", "v0.14.27"]);
    d.available_versions = versions(&["0.14.26", "0.14.27"]);
    d.best_version = SemVer::parse("0.14.27");
    assert_eq!(
        d.fmt_debug(),
        "# hyper\n# from hyperium/hyper\n# previous version: 0.14.26\n# with tags: v0.14.26, v0.14.27\n# with versions: 0.14.26, 0.14.27\nHYPER_GH_VERSION=\"0.14.27\"\n"
    );
}

#[test]
fn outfile_text() {
    let mut a = empty_dep("a");
    a.best_version = SemVer::parse("1.0.0");
    let b = empty_dep("b");
    assert_eq!(format_outfile(&vec![a, b]), "A_GH_VERSION=\"1.0.0\"\r\nB_GH_VERSION=\"\"\r\n");
    assert_eq!(format_outfile(&Vec::new()), "");
}

// --- configuration files ----------------------------------------------------

#[test]
fn too_few_config_files() {
    assert!(matches!(config_files(&strings(&[])), Err(ConfigError::TooFewArgs(0))));
    assert!(matches!(config_files(&strings(&["prog"])), Err(ConfigError::TooFewArgs(0))));
    assert!(matches!(config_files(&strings(&["prog", "a"])), Err(ConfigError::TooFewArgs(1))));
}

#[test]
fn config_and_output_files() {
    let (files, out) = config_files(&strings(&["prog", "a.toml", "b.toml", "v.toml"])).ok().unwrap();
    assert_eq!(files, strings(&["a.toml", "b.toml", "v.toml"]));
    assert_eq!(out, "v.toml");
}

#[test]
fn config_from_file_contents() {
    let contents = vec![b"A_GH_PROJECT=\"o/a\"".to_vec(), b"A_GH_VERSION=\"1.0.0\"".to_vec()];
    let t = config_from_contents(&contents).ok().unwrap();
    assert_eq!(t.get_ghdep_info("a", DepKey::Project), Some("o/a".to_string()));
    assert_eq!(t.get_ghdep_info("a", DepKey::Version), Some("1.0.0".to_string()));
}

#[test]
fn config_not_utf8() {
    let contents = vec![vec![0xffu8, 0xfe]];
    assert!(matches!(config_from_contents(&contents), Err(ConfigError::FromUtf8Error())));
}

#[test]
fn config_not_toml() {
    let contents = vec![b"A_GH_PROJECT=".to_vec()];
    let e = config_from_contents(&contents).err().unwrap();
    assert!(matches!(e, ConfigError::TomlParseError(_)));
    let toml_error = toml::from_str::<toml::Table>("A_GH_PROJECT=\n").unwrap_err();
    assert_eq!(e.fmt(), format!("config cant be parsed as toml: {}", toml_error));
}

#[test]
fn config_error_messages() {
    assert_eq!(
        ConfigError::TooFewArgs(1).fmt(),
        "at least two config files needed, but only 1 found."
    );
    assert_eq!(ConfigError::NoOutputFile().fmt(), "no output file.");
    assert_eq!(
        ConfigError::ConfigReadError("a.toml".to_string()).fmt(),
        "error reading config file: a.toml."
    );
    assert_eq!(ConfigError::FromUtf8Error().fmt(), "config is not valid utf8.");
    assert_eq!(
        ConfigError::GithubTokenMissing().fmt(),
        "GITHUB_TOKEN environment variable is missing or unset."
    );
}

// --- tags ------------------------------------------------------------------

#[test]
fn tags_json_errors() {
    assert!(matches!(parse_tags_json("[1,"), Err(GetTagsError::JsonParseError())));
    assert!(matches!(parse_tags_json("{}"), Err(GetTagsError::ExpectedJsonArrayError())));
}

#[test]
fn tags_without_names_are_passed_over() {
    let names = parse_tags_json("[{\"name\": \"a\"}, 3, {\"name\": 4}, {}, {\"name\": \"b\"}]")
        .ok()
        .unwrap();
    assert_eq!(names, strings(&["a", "b"]));
    assert_eq!(parse_tags_json("[]").ok().unwrap().len(), 0);
}

#[test]
fn tag_name_errors() {
    let v: serde_json::Value = serde_json::from_str("[1]").unwrap();
    assert!(matches!(get_tag_name(&v), Err(GetTagsError::ExpectedJsonObjectError())));
    let v: serde_json::Value = serde_json::from_str("{\"tag\": \"x\"}").unwrap();
    assert!(matches!(get_tag_name(&v), Err(GetTagsError::ExpectedJsonName())));
    let v: serde_json::Value = serde_json::from_str("{\"name\": null}").unwrap();
    assert!(matches!(get_tag_name(&v), Err(GetTagsError::ExpectedJsonName())));
    let v: serde_json::Value = serde_json::from_str("{\"name\": \"v1\"}").unwrap();
    assert_eq!(get_tag_name(&v).ok(), Some("v1"));
}

#[test]
fn tags_error_messages() {
    assert_eq!(
        GetTagsError::ExpectedJsonArrayError().fmt(),
        "json array not found where expected in response."
    );
    assert_eq!(
        GetTagsError::ExpectedJsonName().fmt(),
        "name not found where expected in json response."
    );
    assert_eq!(
        GetTagsError::ExpectedJsonObjectError().fmt(),
        "object not found where expected in json response."
    );
    assert_eq!(GetTagsError::HyperError("down".to_string()).fmt(), "hyper error: down.");
    assert_eq!(GetTagsError::HyperHttpError("bad".to_string()).fmt(), "hyper http error: bad.");
    assert_eq!(
        GetTagsError::HyperHttpStatusError("404 Not Found".to_string()).fmt(),
        "unexpected http status: 404 Not Found."
    );
    assert_eq!(GetTagsError::JsonParseError().fmt(), "error parsing json response");
    assert_eq!(
        GetTagsError::MultipleGithubErrors(strings(&["one", "two"])).fmt(),
        "one\ntwo"
    );
}

#[test]
fn utf8_error_message() {
    let e = decode_response(vec![b'a', 0xff]).err().unwrap();
    let utf8_error = String::from_utf8(vec![b'a', 0xff]).unwrap_err();
    assert_eq!(e.fmt(), format!("error parsing response as UTF8: {}.", utf8_error));
    assert_eq!(decode_response(b"[]".to_vec()).ok(), Some("[]".to_string()));
}

#[test]
fn collecting_update_errors() {
    assert!(update_errors(&vec![Ok(()), Ok(())]).is_none());
    let e = update_errors(&vec![
        Ok(()),
        Err(GetTagsError::JsonParseError()),
        Err(GetTagsError::HyperError("x".to_string())),
    ])
    .unwrap();
    match e {
        GetTagsError::MultipleGithubErrors(m) => {
            assert_eq!(m, strings(&["error parsing json response", "hyper error: x."]))
        }
        _ => panic!("expected the collected errors"),
    }
}

#[test]
fn tags_set_from_json() {
    let mut d = empty_dep("a");
    assert!(update_tags_from_json(&mut d, "[{\"name\": \"v1.0.0\"}]").is_ok());
    assert_eq!(d.available_tags, strings(&["v1.0.0"]));
    assert!(update_tags_from_json(&mut d, "nope").is_err());
    assert_eq!(d.available_tags, strings(&["v1.0.0"]));
}

// --- requests -------------------------------------------------------------

#[test]
fn request_values() {
    assert_eq!(tags_url("hyperium/hyper"), "https://api.github.com/repos/hyperium/hyper/tags");
    assert_eq!(bearer("abc"), "Bearer abc");
    assert_eq!(strip_token("abc\n"), "abc");
    assert_eq!(strip_token(""), "");
    assert_eq!(strip_token("é"), "");
}

#[test]
fn version_text_parses_back() {
    for text in ["0.0.0", "1.2.3", "1.2.3-rc.1", "1.2.3+b.01", "10.20.30-alpha.beta+exp.sha.5114f85"] {
        let v = SemVer::parse(text).unwrap();
        assert_eq!(v.to_string(), text);
        assert_eq!(SemVer::parse(v.to_string().as_str()), Some(v));
    }
}

#[test]
fn distinct_entry_keys_of_one_dep() {
    let t = table("D_GH_VERSION=\"1.0.0\"\nD_GH_VERSION_REQ=\"^2\"\nD_GH_TAG_PREFIX=\"x\"\nD_GH_PROJECT=\"p\"\n");
    let d = Dep::from_table(&t, "d");
    assert_eq!(d.current_version, SemVer::parse("1.0.0"));
    assert_eq!(d.version_req, SemVerReq::parse("^2"));
    assert_eq!(d.tag_prefix, "x");
    assert_eq!(d.project, "p");
}

#[test]
fn request_headers_and_status() {
    let h = tags_request_headers("tok");
    let expected: Vec<(String, String)> = vec![
        ("Accept".to_string(), "application/vnd.github+json".to_string()),
        ("Authorization".to_string(), "Bearer tok".to_string()),
        ("X-GitHub-Api-Version".to_string(), "2022-11-28".to_string()),
        ("User-Agent".to_string(), "ghdepup/1.0".to_string()),
    ];
    assert_eq!(h, expected);
    assert!(check_status(true, "200 OK".to_string()).is_ok());
    match check_status(false, "404 Not Found".to_string()) {
        Err(GetTagsError::HyperHttpStatusError(s)) => assert_eq!(s, "404 Not Found"),
        _ => panic!("expected a status error"),
    }
}

#[test]
fn written_versions_are_read_back() {
    let mut a = empty_dep("hyper");
    a.best_version = SemVer::parse("0.14.27");
    let mut b = empty_dep("hyper_tls");
    b.best_version = SemVer::parse("0.5.1-rc.1");
    let written = format_outfile(&vec![a, b]);
    let t = config_from_contents(&vec![written.into_bytes()]).ok().unwrap();
    assert_eq!(Dep::from_table(&t, "hyper").current_version, SemVer::parse("0.14.27"));
    assert_eq!(Dep::from_table(&t, "hyper_tls").current_version, SemVer::parse("0.5.1-rc.1"));
}

#[test]
fn best_version_ignores_order() {
    let v = versions(&["1.0.0", "3.0.0-rc.1", "2.5.0", "3.0.0"]);
    let w = versions(&["3.0.0", "2.5.0", "1.0.0", "3.0.0-rc.1", "1.0.0"]);
    let req = SemVerReq::parse("<3");
    assert_eq!(Dep::get_best_version(&v, &req), Dep::get_best_version(&w, &req));
    assert_eq!(Dep::get_best_version(&v, &None), Dep::get_best_version(&w, &None));
}

#[test]
fn best_version_of_joined_lists() {
    let a = versions(&["1.0.0", "2.0.0"]);
    let b = versions(&["1.5.0", "2.1.0-beta"]);
    let mut ab = versions(&["1.0.0", "2.0.0"]);
    ab.extend(versions(&["1.5.0", "2.1.0-beta"]));
    let best_a = Dep::get_best_version(&a, &None).unwrap();
    let best_b = Dep::get_best_version(&b, &None).unwrap();
    let best_ab = Dep::get_best_version(&ab, &None).unwrap();
    assert_eq!(best_ab, best_b);
    assert_ne!(best_a.compare(&best_ab), Order::Greater);
    assert_eq!(Dep::get_best_version(&ab, &SemVerReq::parse("^1")), SemVer::parse("1.5.0"));
    assert_eq!(Dep::get_best_version(&ab, &SemVerReq::parse(">=3")), None);
}

#[test]
fn tags_requests() {
    let req = ghdepup::request::tags_request("hyperium/hyper", "tok").ok().unwrap();
    assert_eq!(req.uri().to_string(), "https://api.github.com/repos/hyperium/hyper/tags");
    assert_eq!(req.headers()["Authorization"], "Bearer tok");
    assert_eq!(req.headers()["User-Agent"], "ghdepup/1.0");
    match ghdepup::request::tags_request("a", "bad\ntoken") {
        Err(GetTagsError::HyperHttpError(m)) => assert!(!m.is_empty()),
        _ => panic!("expected a request error"),
    }
}
