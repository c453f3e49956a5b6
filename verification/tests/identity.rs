use tauri_plugins::posthog::identity::{self, Marker, Removal, ID_FILE, OPT_OUT_FILE};
use uuid::Uuid;

/// A data directory: its id file, its opt-out marker, and whether it can be
/// written to.
struct Dir {
    id: Option<String>,
    marker: bool,
    writable: bool,
}

fn dir() -> Dir {
    Dir { id: None, marker: false, writable: true }
}

fn install_id(dir: &mut Dir) -> String {
    let install = identity::install_id(dir.id.as_deref());
    if install.save && dir.writable {
        dir.id = Some(install.id.clone());
    }
    install.id
}

fn opted_out(dir: &Dir) -> bool {
    identity::opted_out(Ok(dir.marker))
}

fn set_opted_out(dir: &mut Dir, out: bool) -> Result<(), String> {
    match identity::set_opted_out(out) {
        Marker::Create => {
            dir.marker = true;
            Ok(())
        }
        Marker::Remove => {
            let outcome = if dir.marker { Removal::Removed } else { Removal::NotFound };
            dir.marker = false;
            identity::removed(outcome)
        }
    }
}

#[test]
fn install_id_is_a_v4_uuid() {
    let mut dir = dir();
    let id = install_id(&mut dir);
    assert_eq!(Uuid::parse_str(&id).unwrap().get_version_num(), 4);
}

#[test]
fn the_same_dir_gives_the_same_id_twice() {
    let mut dir = dir();
    let first = install_id(&mut dir);
    let second = install_id(&mut dir);
    assert_eq!(first, second);
}

#[test]
fn the_id_survives_being_read_back_from_disk() {
    let mut dir = dir();
    let id = install_id(&mut dir);

    let saved = dir.id.clone().unwrap();
    assert_eq!(saved.trim(), id);

    assert_eq!(install_id(&mut dir), id);
}

#[test]
fn two_dirs_get_two_ids() {
    let mut a = dir();
    let mut b = dir();
    assert_ne!(install_id(&mut a), install_id(&mut b));
}

#[test]
fn a_garbage_id_file_is_replaced() {
    let mut dir = dir();
    dir.id = Some("not-a-uuid".to_string());

    let id = install_id(&mut dir);
    assert_eq!(Uuid::parse_str(&id).unwrap().get_version_num(), 4);

    // The replacement was saved, not just returned for this call.
    assert_eq!(install_id(&mut dir), id);
}

#[test]
fn an_unwritable_dir_still_returns_a_fresh_id_for_this_run() {
    let mut dir = dir();
    dir.writable = false;

    let id = install_id(&mut dir);
    assert_eq!(Uuid::parse_str(&id).unwrap().get_version_num(), 4);
    assert!(dir.id.is_none());
}

#[test]
fn opted_out_is_false_by_default() {
    let dir = dir();
    assert!(!opted_out(&dir));
}

#[test]
fn opting_out_and_back_in_persists() {
    let mut dir = dir();

    set_opted_out(&mut dir, true).unwrap();
    assert!(opted_out(&dir));

    set_opted_out(&mut dir, false).unwrap();
    assert!(!opted_out(&dir));
}

#[test]
fn opting_out_twice_and_in_when_never_out_are_both_fine() {
    let mut dir = dir();

    set_opted_out(&mut dir, true).unwrap();
    set_opted_out(&mut dir, true).unwrap();
    assert!(opted_out(&dir));

    set_opted_out(&mut dir, false).unwrap();
    set_opted_out(&mut dir, false).unwrap();
    assert!(!opted_out(&dir));
}

#[test]
fn a_marker_that_cannot_be_seen_is_no_opt_out() {
    assert!(!identity::opted_out(Err("permission denied".to_string())));
    assert!(!identity::opted_out(Ok(false)));
    assert!(identity::opted_out(Ok(true)));
}

#[test]
fn a_marker_that_cannot_be_removed_is_an_error() {
    assert_eq!(
        identity::removed(Removal::Failed("denied".to_string())),
        Err("denied".to_string())
    );
}

#[test]
fn every_form_of_a_saved_id_is_read_the_same() {
    let id = "936da01f-9abd-4d9d-80c7-02af85c822a8";
    for saved in [
        "936da01f-9abd-4d9d-80c7-02af85c822a8",
        "  936da01f-9abd-4d9d-80c7-02af85c822a8\n",
        "936DA01F-9ABD-4D9D-80C7-02AF85C822A8",
        "936da01f9abd4d9d80c702af85c822a8",
        "{936da01f-9abd-4d9d-80c7-02af85c822a8}",
        "urn:uuid:936da01f-9abd-4d9d-80c7-02af85c822a8",
        "URN:UUID:936da01f-9abd-4d9d-80c7-02af85c822a8",
    ] {
        let install = identity::install_id(Some(saved));
        assert_eq!(install.id, id, "{saved}");
        assert!(!install.save);
    }
}

#[test]
fn what_is_not_an_id_is_replaced() {
    for saved in [
        "",
        "936da01f-9abd-4d9d-80c7-02af85c822a",
        "936da01f-9abd-4d9d-80c7_02af85c822a8",
        "g36da01f9abd4d9d80c702af85c822a8",
        "{936da01f-9abd-4d9d-80c7-02af85c822a8",
        "uuid:936da01f-9abd-4d9d-80c7-02af85c822a8",
        "đ36da01f9abd4d9d80c702af85c822a",
    ] {
        let install = identity::install_id(Some(saved));
        assert!(install.save, "{saved}");
        assert_ne!(install.id, saved);
    }
    assert!(identity::install_id(None).save);
}

#[test]
fn the_files_have_their_names() {
    assert_eq!(ID_FILE, "posthog-id");
    assert_eq!(OPT_OUT_FILE, "posthog-opt-out");
}
