use lodestone_core::launch::{custom_command, java_launch_args, Flavour, LaunchConfig};
use lodestone_core::neoforge::{
    get_neoforge_builds, get_neoforge_latest_build, get_neoforge_minecraft_versions,
    version_strings, versions_from_lists, NeoforgeVersion, VersionError,
};
use lodestone_core::events::ErrorKind;
use lodestone_core::players::profile_id;

fn v(s: &str) -> NeoforgeVersion {
    NeoforgeVersion::parse(s).unwrap()
}

#[test]
fn minecraft_versions_are_deduplicated_then_sorted() {
    let versions = vec![v("20.2.88"), v("20.2.5"), v("1.20.1-47.1.3"), v("20.4.1"), v("20.2.9")];
    assert_eq!(
        get_neoforge_minecraft_versions(&versions),
        vec!["1.20.1", "1.20.2", "1.20.2", "1.20.4"]
    );
    assert!(get_neoforge_minecraft_versions(&Vec::new()).is_empty());
}

#[test]
fn builds_for_game_version() {
    let versions = vec![v("20.2.88"), v("1.20.1-47.1.106"), v("20.2.5")];
    let builds = get_neoforge_builds(&versions, Some("1.20.2"));
    assert_eq!(builds.len(), 2);
    assert!(builds[0] == v("20.2.88"));
    assert!(builds[1] == v("20.2.5"));
    assert_eq!(get_neoforge_builds(&versions, None).len(), 3);
    assert!(get_neoforge_builds(&versions, Some("1.19")).is_empty());
    assert_eq!(versions[1].game_version(), "1.20.1");
}

#[test]
fn latest_build_has_highest_patch() {
    let builds = vec![v("20.2.5"), v("20.2.88"), v("20.2.9")];
    assert_eq!(get_neoforge_latest_build(&builds).unwrap().version(), "20.2.88");
    assert!(get_neoforge_latest_build(&Vec::new()).is_none());
    let tied = vec![
        NeoforgeVersion::new(20, 2, "7".to_string(), false),
        NeoforgeVersion::new(20, 3, "7".to_string(), false),
    ];
    assert_eq!(get_neoforge_latest_build(&tied).unwrap().minor, 3);
}

#[test]
fn version_lists_read_legacy_entries_with_dash_only() {
    let main = vec!["20.2.88".to_string(), "20.4.80-beta".to_string()];
    let legacy = vec!["1.20.1-47.1.106".to_string(), "1.20.1".to_string()];
    let builds = versions_from_lists(&main, &legacy).unwrap();
    assert_eq!(builds.len(), 3);
    assert_eq!(builds[2].version(), "1.20.1-47.1.106");
    assert_eq!(
        versions_from_lists(&vec!["x".to_string()], &Vec::new()).unwrap_err(),
        VersionError::InvalidFormat
    );
}

#[test]
fn maven_listing_json() {
    assert_eq!(
        version_strings("{\"isSnapshot\": false, \"versions\": [\"20.2.88\", \"20.4.1\"]}"),
        Some(vec!["20.2.88".to_string(), "20.4.1".to_string()])
    );
    assert_eq!(version_strings("not json"), None);
    assert_eq!(version_strings("{\"versions\": [1]}"), None);
    assert_eq!(version_strings("{\"versions\": \"20.2.88\"}"), None);
    assert_eq!(version_strings("{}"), None);
    assert_eq!(version_strings("{\"versions\": []}"), Some(Vec::new()));
}

fn config(flavour: Flavour, version: &str) -> LaunchConfig {
    LaunchConfig {
        max_ram: 2048,
        min_ram: 1024,
        cmd_args: vec!["".to_string(), "-XX:+UseG1GC".to_string()],
        flavour,
        version: version.to_string(),
    }
}

#[test]
fn vanilla_launch_args() {
    let (program, args) =
        java_launch_args(&config(Flavour::Vanilla, "1.20.1"), "/opt/jre17/bin/java", "/srv/mc", &Vec::new(), false)
            .unwrap();
    assert_eq!(program, "/opt/jre17/bin/java");
    assert_eq!(
        args,
        vec!["-Xmx2048M", "-Xms1024M", "-XX:+UseG1GC", "-jar", "/srv/mc/server.jar", "nogui"]
    );
    let paper = Flavour::Paper { build: Some(81) };
    let (_, args) = java_launch_args(&config(paper, "1.19.3"), "java", "C:\\mc\\", &Vec::new(), true).unwrap();
    assert_eq!(args[3..], ["-jar", "C:\\mc\\server.jar", "nogui"]);
    let (_, args) = java_launch_args(&config(Flavour::Spigot, "1.19.3"), "java", "/srv/mc/", &Vec::new(), false).unwrap();
    assert_eq!(args[4], "/srv/mc/server.jar");
}

#[test]
fn forge_launch_args() {
    let modern = Flavour::Forge { build_version: Some("1.20.1-47.1.0".to_string()) };
    let (_, args) = java_launch_args(&config(modern, "1.20.1"), "java", "/srv/mc", &Vec::new(), false).unwrap();
    assert_eq!(
        args[3..],
        ["@/srv/mc/libraries/net/minecraftforge/forge/1.20.1-47.1.0/unix_args.txt", "nogui"]
    );
    let modern = Flavour::Forge { build_version: Some("1.20.1-47.1.0".to_string()) };
    let (_, args) = java_launch_args(&config(modern, "1.20.1"), "java", "C:\\mc", &Vec::new(), true).unwrap();
    assert_eq!(args[3], "@C:\\mc\\libraries\\net\\minecraftforge\\forge\\1.20.1-47.1.0\\win_args.txt");
    let files = vec![
        "server.jar".to_string(),
        "forge-1.12.2-14.23.5.2859-installer.jar.log".to_string(),
        "forge-1.12.2-14.23.5.2859.jar".to_string(),
    ];
    let mid = Flavour::Forge { build_version: Some("14.23.5.2859".to_string()) };
    let (_, args) = java_launch_args(&config(mid, "1.12.2"), "java", "/srv/mc", &files, false).unwrap();
    assert_eq!(args[3..], ["-jar", "/srv/mc/forge-1.12.2-14.23.5.2859.jar", "nogui"]);
    let old = Flavour::Forge { build_version: Some("7.8.1".to_string()) };
    let files = vec!["minecraftforge-universal-1.5.2.jar".to_string()];
    let (_, args) = java_launch_args(&config(old, "1.5.2"), "java", "/srv/mc", &files, false).unwrap();
    assert_eq!(args[3..], ["-jar", "/srv/mc/minecraftforge-universal-1.5.2.jar", "nogui"]);
}

#[test]
fn forge_launch_errors() {
    let none = Flavour::Forge { build_version: None };
    let e = java_launch_args(&config(none, "1.20.1"), "java", "/srv/mc", &Vec::new(), false).unwrap_err();
    assert_eq!(e.kind, ErrorKind::Internal);
    assert_eq!(e.detail, "Forge version not found");
    let mid = Flavour::Forge { build_version: Some("x".to_string()) };
    let e = java_launch_args(&config(mid, "1.12.2"), "java", "/srv/mc", &Vec::new(), false).unwrap_err();
    assert_eq!(e.detail, "Failed to find forge.jar");
    let old = Flavour::Forge { build_version: Some("x".to_string()) };
    let e = java_launch_args(&config(old, "1.5.2"), "java", "/srv/mc", &Vec::new(), false).unwrap_err();
    assert_eq!(e.detail, "Failed to find minecraftforge.jar");
    let bad = Flavour::Forge { build_version: Some("x".to_string()) };
    let e = java_launch_args(&config(bad, "release"), "java", "/srv/mc", &Vec::new(), false).unwrap_err();
    assert_eq!(e.detail, "Unable to parse major Minecraft version for Forge");
    let bad = Flavour::Forge { build_version: Some("x".to_string()) };
    let e = java_launch_args(&config(bad, "1.x.2"), "java", "/srv/mc", &Vec::new(), false).unwrap_err();
    assert_eq!(e.kind, ErrorKind::Internal);
}

#[test]
fn custom_command_words() {
    let (p, a) = custom_command("java  -jar server.jar").unwrap();
    assert_eq!(p, "java");
    assert_eq!(a, vec!["-jar", "server.jar"]);
    let (p, a) = custom_command("./run.sh").unwrap();
    assert_eq!(p, "./run.sh");
    assert!(a.is_empty());
    assert!(custom_command("").is_none());
}

#[test]
fn profile_document_id() {
    assert_eq!(
        profile_id("{\"id\": \"853c80ef3c3749fdaa49938b674adae6\", \"name\": \"jeb_\"}"),
        Some("853c80ef3c3749fdaa49938b674adae6".to_string())
    );
    assert_eq!(profile_id("{\"name\": \"jeb_\"}"), None);
    assert_eq!(profile_id("{\"id\": 5}"), None);
    assert_eq!(profile_id("<html>"), None);
}
