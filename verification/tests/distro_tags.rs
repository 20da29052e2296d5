use dnsbench::distro::Distro;
use dnsbench::distro::MirrorRecord;
use dnsbench::distro::distro_from_label;
use dnsbench::distro::select_mirrors;

fn record(name: &str, url: &str, distro: &str) -> MirrorRecord {
    MirrorRecord {
        name: name.to_string(),
        url: url.to_string(),
        distro: distro.to_string(),
    }
}

#[test]
fn os_ids_map_case_insensitively() {
    assert_eq!(Distro::from_id("arch"), Distro::Arch);
    assert_eq!(Distro::from_id("ARCH"), Distro::Arch);
    assert_eq!(Distro::from_id("Ubuntu"), Distro::Ubuntu);
    assert_eq!(Distro::from_id("linuxmint"), Distro::Mint);
    assert_eq!(Distro::from_id("kali"), Distro::Kali);
    assert_eq!(Distro::from_id("debian"), Distro::Debian);
    assert_eq!(Distro::from_id("manjaro"), Distro::Manjaro);
    assert_eq!(Distro::from_id("fedora"), Distro::Unknown);
    assert_eq!(Distro::from_id(""), Distro::Unknown);
}

#[test]
fn mirror_labels_use_their_own_spelling() {
    // the mirror file writes "mint", while the OS identifier is "linuxmint"
    assert_eq!(distro_from_label("mint"), Distro::Mint);
    assert_eq!(distro_from_label("linuxmint"), Distro::Unknown);
    assert_eq!(distro_from_label("docker"), Distro::Docker);
    assert_eq!(distro_from_label("AndroidSDK"), Distro::AndroidSDK);
    assert_eq!(distro_from_label("fedora"), Distro::Unknown);
}

#[test]
fn names_and_emoji() {
    assert_eq!(Distro::Mint.as_str(), "Mint");
    assert_eq!(Distro::AndroidSDK.as_str(), "Android SDK");
    assert_eq!(Distro::Unknown.as_str(), "Unknown");
    assert_eq!(Distro::Docker.emoji(), "\u{1f433}");
    assert_eq!(Distro::Unknown.emoji(), "\u{2753}");
}

#[test]
fn foreign_mirror_is_excluded() {
    // a fedora-tagged mirror on an ubuntu host is not one of the two
    // global tags, so it is dropped from the loaded set
    let records = vec![record("fedora main", "https://mirror.example/fedora", "fedora")];
    let selected = select_mirrors(&records, Distro::Ubuntu);
    assert!(selected.is_empty());
}

#[test]
fn matching_and_global_mirrors_are_kept_in_order() {
    let records = vec![
        record("ubuntu main", "https://mirror.example/ubuntu", "ubuntu"),
        record("arch main", "https://mirror.example/arch", "arch"),
        record("docker hub", "https://mirror.example/docker", "docker"),
        record("sdk", "https://mirror.example/sdk", "androidsdk"),
        record("mystery", "https://mirror.example/mystery", "somethingelse"),
    ];
    let selected = select_mirrors(&records, Distro::Ubuntu);
    let names: Vec<String> = selected.iter().map(|m| m.name.clone()).collect();
    assert_eq!(
        names,
        vec!["ubuntu main".to_string(), "docker hub".to_string(), "sdk".to_string()]
    );
    assert_eq!(selected[0].distro, Distro::Ubuntu);
    assert_eq!(selected[1].distro, Distro::Docker);
    assert_eq!(selected[2].distro, Distro::AndroidSDK);
}

#[test]
fn unknown_host_keeps_only_global_mirrors() {
    let records = vec![
        record("ubuntu main", "https://mirror.example/ubuntu", "ubuntu"),
        record("docker hub", "https://mirror.example/docker", "docker"),
    ];
    let selected = select_mirrors(&records, Distro::Unknown);
    let names: Vec<String> = selected.iter().map(|m| m.name.clone()).collect();
    assert_eq!(names, vec!["docker hub".to_string()]);
}

#[test]
fn unknown_label_matches_unknown_host() {
    // an unrecognized label maps to the Unknown tag, which matches a host
    // whose distribution also could not be detected
    let records = vec![record("mystery", "https://mirror.example/mystery", "somethingelse")];
    let selected = select_mirrors(&records, Distro::Unknown);
    assert_eq!(selected.len(), 1);
    assert_eq!(selected[0].distro, Distro::Unknown);
}
