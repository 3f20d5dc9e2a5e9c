use std::io::Write;

use tug::image_ref::{parse_image, ImageReference};
use tug::layerfs::{FileEntry, RootFs};
use tug::registry::{
    decode_layer, select_platform, Manifest, ManifestList, Platform, PlatformManifest, PullAction,
    PullError, PullEvent, PullSession, PullState, RegistryError,
};

fn descriptor(os: &str, arch: &str, digest: &str) -> PlatformManifest {
    PlatformManifest {
        digest: digest.to_string(),
        platform: Platform { architecture: arch.to_string(), os: os.to_string() },
    }
}

fn gzip(data: &[u8]) -> Vec<u8> {
    let mut enc = flate2::write::GzEncoder::new(Vec::new(), flate2::Compression::default());
    enc.write_all(data).unwrap();
    enc.finish().unwrap()
}

#[test]
fn image_reference_parsing() {
    assert_eq!(parse_image("ubuntu:20.04"), ("ubuntu".to_string(), "20.04".to_string()));
    assert_eq!(parse_image("ubuntu"), ("ubuntu".to_string(), "latest".to_string()));
    let r = ImageReference::parse("alpine:3.19");
    assert_eq!(r.repository, "alpine");
    assert_eq!(r.tag, "3.19");
}

#[test]
fn platform_resolution_selects_linux_amd64() {
    let list = ManifestList {
        manifests: vec![
            descriptor("linux", "amd64", "sha256:aaa"),
            descriptor("linux", "arm64", "sha256:bbb"),
            descriptor("windows", "amd64", "sha256:ccc"),
        ],
    };
    assert_eq!(select_platform(&list), Ok("sha256:aaa".to_string()));
}

#[test]
fn platform_resolution_fails_without_linux_amd64() {
    let list = ManifestList {
        manifests: vec![
            descriptor("linux", "arm64", "sha256:bbb"),
            descriptor("windows", "amd64", "sha256:ccc"),
        ],
    };
    assert_eq!(select_platform(&list), Err(RegistryError::PlatformNotFound));
}

#[test]
fn decode_layer_inflates_gzip() {
    let tar_bytes = b"not really a tar, but bytes all the same".to_vec();
    let blob = gzip(&tar_bytes);
    assert_ne!(blob, tar_bytes);
    assert_eq!(decode_layer(&blob), Ok(tar_bytes));
}

#[test]
fn decode_layer_rejects_garbage() {
    let blob = vec![0u8, 1, 2, 3, 4, 5];
    assert_eq!(decode_layer(&blob), Err(RegistryError::Decode));
}

#[test]
fn pull_session_walks_the_protocol() {
    let mut s = PullSession::new("ubuntu:20.04");
    assert_eq!(s.repository, "ubuntu");
    assert_eq!(s.tag, "20.04");
    assert_eq!(s.start(), PullAction::FetchToken { repository: "ubuntu".to_string() });

    let a = s.pull_step(PullEvent::Token("tok".to_string()));
    assert_eq!(
        a,
        PullAction::FetchManifest {
            repository: "ubuntu".to_string(),
            reference: "20.04".to_string(),
            token: "tok".to_string(),
        }
    );

    let list = ManifestList {
        manifests: vec![
            descriptor("linux", "arm64", "sha256:bbb"),
            descriptor("linux", "amd64", "sha256:aaa"),
        ],
    };
    let a = s.pull_step(PullEvent::List(list));
    assert_eq!(
        a,
        PullAction::FetchManifest {
            repository: "ubuntu".to_string(),
            reference: "sha256:aaa".to_string(),
            token: "tok".to_string(),
        }
    );

    let manifest = Manifest { layers: vec!["sha256:l1".to_string(), "sha256:l2".to_string()] };
    let a = s.pull_step(PullEvent::Doc(manifest));
    assert_eq!(
        a,
        PullAction::FetchBlob {
            repository: "ubuntu".to_string(),
            digest: "sha256:l1".to_string(),
            token: "tok".to_string(),
        }
    );

    let layer1 = gzip(b"layer one");
    let a = s.pull_step(PullEvent::Blob(layer1));
    assert_eq!(a, PullAction::ExtractLayer { archive: b"layer one".to_vec() });

    let a = s.pull_step(PullEvent::Extracted);
    assert_eq!(
        a,
        PullAction::FetchBlob {
            repository: "ubuntu".to_string(),
            digest: "sha256:l2".to_string(),
            token: "tok".to_string(),
        }
    );

    let layer2 = gzip(b"layer two");
    let a = s.pull_step(PullEvent::Blob(layer2));
    assert_eq!(a, PullAction::ExtractLayer { archive: b"layer two".to_vec() });

    let a = s.pull_step(PullEvent::Extracted);
    assert_eq!(a, PullAction::Done);
    assert_eq!(s.state, PullState::Finished);
}

#[test]
fn pull_session_aborts_on_missing_platform() {
    let mut s = PullSession::new("ubuntu");
    assert_eq!(s.tag, "latest");
    s.start();
    s.pull_step(PullEvent::Token("tok".to_string()));
    let list = ManifestList { manifests: vec![descriptor("windows", "amd64", "sha256:ccc")] };
    let a = s.pull_step(PullEvent::List(list));
    assert_eq!(
        a,
        PullAction::Abort(PullError::Registry(RegistryError::PlatformNotFound))
    );
    assert_eq!(
        s.state,
        PullState::Failed(PullError::Registry(RegistryError::PlatformNotFound))
    );
}

#[test]
fn pull_session_distinguishes_failures() {
    let mut s = PullSession::new("ubuntu");
    s.start();
    let a = s.pull_step(PullEvent::TransportFailed);
    assert_eq!(a, PullAction::Abort(PullError::Registry(RegistryError::Transport)));

    let mut s = PullSession::new("ubuntu");
    s.start();
    let a = s.pull_step(PullEvent::AuthFailed);
    assert_eq!(a, PullAction::Abort(PullError::Registry(RegistryError::Auth)));

    let mut s = PullSession::new("ubuntu");
    s.start();
    let a = s.pull_step(PullEvent::DecodeFailed);
    assert_eq!(a, PullAction::Abort(PullError::Registry(RegistryError::Decode)));
}

#[test]
fn pull_session_rejects_corrupt_blob() {
    let mut s = PullSession::new("ubuntu");
    s.start();
    s.pull_step(PullEvent::Token("tok".to_string()));
    s.pull_step(PullEvent::Doc(Manifest { layers: vec!["sha256:l1".to_string()] }));
    let a = s.pull_step(PullEvent::Blob(vec![9u8, 9, 9]));
    assert_eq!(a, PullAction::Abort(PullError::Registry(RegistryError::Decode)));
}

#[test]
fn later_layers_win() {
    let mut fs = RootFs::new();
    fs.apply_layer(vec![FileEntry { path: "/a".to_string(), data: vec![1] }]);
    fs.apply_layer(vec![
        FileEntry { path: "/a".to_string(), data: vec![2] },
        FileEntry { path: "/b".to_string(), data: vec![3] },
    ]);
    assert_eq!(fs.lookup("/a"), Some(&vec![2]));
    assert_eq!(fs.lookup("/b"), Some(&vec![3]));
    assert_eq!(fs.lookup("/c"), None);
}
