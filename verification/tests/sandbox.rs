use bytes::Bytes;
use nixpkgs_eval::sandbox::{
    classify, list_entries, outside_message, FileType, NixpkgsIo, RawEntry, SandboxError,
    SandboxPath,
};

fn path(absolute: bool, parts: &[&str]) -> SandboxPath {
    SandboxPath::new(absolute, parts.iter().map(|p| p.as_bytes().to_vec()).collect())
}

fn sandbox() -> NixpkgsIo {
    NixpkgsIo::new(path(true, &["tmp", "nixpkgs"]))
}

fn raw(name: &str, is_file: bool, is_dir: bool) -> Option<RawEntry> {
    Some(RawEntry { name: name.as_bytes().to_vec(), is_file, is_dir })
}

#[test]
fn a_relative_path_is_taken_from_the_root() {
    let io = sandbox();
    assert_eq!(io.absolute(&path(false, &["lib", "default.nix"])), path(true, &["tmp", "nixpkgs", "lib", "default.nix"]));
    assert_eq!(io.absolute(&path(false, &["..", "etc"])), path(true, &["tmp", "nixpkgs", "..", "etc"]));
    assert_eq!(io.absolute(&path(false, &[])), path(true, &["tmp", "nixpkgs"]));
}

#[test]
fn an_absolute_path_is_taken_as_it_is() {
    let io = sandbox();
    assert_eq!(io.absolute(&path(true, &["etc", "passwd"])), path(true, &["etc", "passwd"]));
    assert_eq!(io.absolute(&path(true, &[])), path(true, &[]));
}

#[test]
fn outside_the_root_nothing_is_granted() {
    let io = sandbox();
    for outside in [
        path(true, &["etc", "passwd"]),
        path(true, &["tmp"]),
        path(true, &["tmp", "nixpkgs2"]),
        path(true, &["tmp", "nixpkg"]),
        path(true, &[]),
        path(false, &["tmp", "nixpkgs"]),
        path(true, &["nixpkgs", "tmp"]),
    ] {
        let refusal = Err(SandboxError::Outside(outside.clone()));
        assert_eq!(io.ensure_inside(Some(outside.clone())), refusal);
        assert_eq!(io.import_path(Some(outside.clone())), refusal);
        assert_eq!(io.path_exists(Some(outside)), None);
    }
}

#[test]
fn inside_the_root_the_canonical_path_is_granted() {
    let io = sandbox();
    for inside in [
        path(true, &["tmp", "nixpkgs"]),
        path(true, &["tmp", "nixpkgs", "lib"]),
        path(true, &["tmp", "nixpkgs", "pkgs", "top-level", "default.nix"]),
    ] {
        assert_eq!(io.ensure_inside(Some(inside.clone())), Ok(inside.clone()));
        assert_eq!(io.import_path(Some(inside.clone())), Ok(inside.clone()));
        assert_eq!(io.path_exists(Some(inside.clone())), Some(inside));
    }
}

#[test]
fn a_path_without_canonical_form_is_refused() {
    let io = sandbox();
    assert_eq!(io.ensure_inside(None), Err(SandboxError::Unresolved));
    assert_eq!(io.import_path(None), Err(SandboxError::Unresolved));
    assert_eq!(io.path_exists(None), None);
}

#[test]
fn starts_with_compares_whole_components() {
    let root = path(true, &["tmp", "nixpkgs"]);
    assert!(path(true, &["tmp", "nixpkgs", "lib"]).starts_with(&root));
    assert!(root.starts_with(&root));
    assert!(!path(true, &["tmp", "nixpkgs-old", "lib"]).starts_with(&root));
    assert!(!path(true, &["tmp"]).starts_with(&root));
    assert!(path(false, &["a"]).starts_with(&path(false, &[])));
    assert!(!path(true, &["a"]).starts_with(&path(false, &[])));
}

#[test]
fn join_and_copy() {
    let root = path(true, &["tmp", "nixpkgs"]);
    assert_eq!(root.copy(), root);
    assert!(root.absolute);
    assert_eq!(root.join(&path(false, &["a"])), path(true, &["tmp", "nixpkgs", "a"]));
    assert_eq!(root.join(&path(true, &["a"])), path(true, &["a"]));
    assert_eq!(path(false, &["x"]).join(&path(false, &["y"])), path(false, &["x", "y"]));
    assert_eq!(sandbox().root(), &root);
}

#[test]
fn what_is_neither_file_nor_directory_counts_as_link() {
    assert_eq!(classify(true, false), FileType::Regular);
    assert_eq!(classify(true, true), FileType::Regular);
    assert_eq!(classify(false, true), FileType::Directory);
    assert_eq!(classify(false, false), FileType::Symlink);
}

#[test]
fn a_listing_keeps_names_and_order() {
    let entries = vec![raw("lib", false, true), raw("flake.nix", true, false), raw("result", false, false)];
    assert_eq!(
        list_entries(entries),
        Ok(vec![
            (Bytes::from_static(b"lib"), FileType::Directory),
            (Bytes::from_static(b"flake.nix"), FileType::Regular),
            (Bytes::from_static(b"result"), FileType::Symlink),
        ])
    );
    assert_eq!(list_entries(Vec::new()), Ok(Vec::new()));
}

#[test]
fn a_listing_stops_at_the_first_entry_that_could_not_be_read() {
    assert_eq!(list_entries(vec![raw("a", true, false), None, raw("b", true, false), None]), Err(1));
    assert_eq!(list_entries(vec![None]), Err(0));
}

#[test]
fn the_message_names_the_path() {
    assert_eq!(
        outside_message("Some(\"/etc/passwd\")"),
        "Path Some(\"/etc/passwd\") is outside nixpkgs root"
    );
}
