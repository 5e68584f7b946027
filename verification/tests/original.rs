use ghdepup::dep::Dep;
use ghdepup::table::GhDepContainer;
use ghdepup::tags::parse_tags_json;
use ghdepup::text::join;
use ghdepup::version::{SemVer, SemVerReq};

const CONFIG_CONTENT: &str = "
# this config should be kept parsable by POSIX sh, make, ini and toml
HYPER_GH_PROJECT=\"hyperium/hyper\"
HYPER_GH_TAG_PREFIX=\"v\"
HYPER_GH_VERSION_REQ=\">=0.14, <1\"
HYPER_GH_VERSION=\"0.14.26\"

HYPER_TLS_GH_PROJECT=\"hyperium/hyper-tls\"
HYPER_TLS_GH_TAG_PREFIX=\"v\"
HYPER_TLS_GH_VERSION_REQ=\">=0.5\"
HYPER_TLS_GH_VERSION=\"0.5.0\"
    ";

#[test]
fn test_parse_tags_json() {
    let json = "
        [
        {
            \"commit\": {
              \"sha\": \"5d305789a86bc9a3d8a352522b219396ad4f3930\",
              \"url\": \"https://api.github.com/repos/bjoernmichaelsen/core/commits/5d305789a86bc9a3d8a352522b219396ad4f3930\"
            },
            \"name\": \"1.0.0\",
            \"node_id\": \"MDM6UmVmMzI4ODUxNTQ6cmVmcy90YWdzL3N1c2UtNC4wLTE=\",
            \"tarball_url\": \"https://api.github.com/repos/bjoernmichaelsen/core/tarball/refs/tags/suse-4.0-1\",
            \"zipball_url\": \"https://api.github.com/repos/bjoernmichaelsen/core/zipball/refs/tags/suse-4.0-1\"
        },
        {
            \"commit\": {
              \"sha\": \"5d305789a86bc9a3d8a352522b219396ad4f3931\",
              \"url\": \"https://api.github.com/repos/bjoernmichaelsen/core/commits/5d305789a86bc9a3d8a352522b219396ad4f3931\"
            },
            \"name\": \"1.2.3\",
            \"node_id\": \"MDM6UmVmMzI4ODUxNTQ6cmVmcy90YWdzL3N1c2UtNC4wLTF=\",
            \"tarball_url\": \"https://api.github.com/repos/bjoernmichaelsen/core/tarball/refs/tags/suse-4.0-2\",
            \"zipball_url\": \"https://api.github.com/repos/bjoernmichaelsen/core/zipball/refs/tags/suse-4.0-2\"
        }
        ]";
    let expected = "1.0.0, 1.2.3";
    let actual = parse_tags_json(json).ok().expect("this should parse");
    assert_eq!(join(&actual, ", "), expected);
}

#[test]
fn test_parse_config() {
    let config = toml::from_str::<toml::Table>(CONFIG_CONTENT).expect("should parse");
    assert_eq!(join(&config.get_all_deps(), ", "), "hyper, hyper_tls");
    let hyper = Dep::from_table(&config, "hyper");
    assert_eq!(hyper.name, "hyper");
    assert_eq!(hyper.project, "hyperium/hyper");
    assert_eq!(hyper.tag_prefix, "v");
    assert_eq!(hyper.version_req, SemVerReq::parse(">=0.14, <1"));
    assert_eq!(hyper.available_versions.len(), 0);
    assert_eq!(hyper.available_tags.len(), 0);
    assert_eq!(
        hyper.current_version,
        Some(SemVer::parse("0.14.26").expect("should parse"))
    );
    assert_eq!(hyper.best_version, None)
}

#[test]
fn test_get_versions_from_tags() {
    let tags: Vec<String> = vec!["foo111", "bar2", "v1.2.3", "2.3.4", "v3.4.5"]
        .iter()
        .map(|&s| s.to_string())
        .collect();
    let versions = Dep::get_versions_from_tags(&tags, "v");
    let texts: Vec<String> = versions.iter().map(|v| v.to_string()).collect();
    assert_eq!(join(&texts, ", "), "1.2.3, 3.4.5");
}

#[test]
fn test_get_best_version() {
    let versions: Vec<SemVer> = vec!["1.2.3", "3.4.0", "3.4.5", "4.5.6"]
        .iter()
        .map(|&s| SemVer::parse(s).unwrap())
        .collect();
    let version_req = SemVerReq::parse(">=3, <4");
    assert_eq!(
        Dep::get_best_version(&versions, &version_req),
        SemVer::parse("3.4.5")
    );
}
