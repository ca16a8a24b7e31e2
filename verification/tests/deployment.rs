use acsync::common::FsEntry;
use acsync::deployment::{is_mirrored_file, plan_sync, sync_action, sync_actions, SyncAction};

fn entry(path: &str, is_file: bool) -> FsEntry {
    FsEntry { path: path.to_string(), is_file }
}

fn copy(source: &str, target: &str) -> SyncAction {
    SyncAction::CopyFile { source: source.to_string(), target: target.to_string() }
}

fn make(target: &str) -> SyncAction {
    SyncAction::CreateDir { target: target.to_string() }
}

#[test]
fn a_file_in_a_data_directory_is_copied_to_every_root() {
    let file = entry("/asm/content/cars/x/data/physics.ini", true);
    assert_eq!(
        sync_action(&file, "/asm", "/srv/one"),
        copy("/asm/content/cars/x/data/physics.ini", "/srv/one/content/cars/x/data/physics.ini")
    );
    let plain = entry("/asm/content/cars/x/data/power.lut", true);
    assert_eq!(
        sync_action(&plain, "/asm", "/srv/two"),
        copy("/asm/content/cars/x/data/power.lut", "/srv/two/content/cars/x/data/power.lut")
    );
}

#[test]
fn a_texture_is_copied_to_no_root() {
    let file = entry("/asm/content/cars/x/textures/skin.dds", true);
    assert_eq!(sync_action(&file, "/asm", "/srv/one"), SyncAction::Skip);
    assert_eq!(sync_action(&file, "/asm", "/srv/two"), SyncAction::Skip);
}

#[test]
fn packed_data_and_ini_files_are_copied_wherever_they_lie() {
    assert_eq!(
        sync_action(&entry("/asm/content/cars/x/data.acd", true), "/asm", "/s"),
        copy("/asm/content/cars/x/data.acd", "/s/content/cars/x/data.acd")
    );
    assert_eq!(
        sync_action(&entry("/asm/content/tracks/t/models.ini", true), "/asm/", "/s"),
        copy("/asm/content/tracks/t/models.ini", "/s/content/tracks/t/models.ini")
    );
    assert_eq!(sync_action(&entry("/asm/content/cars/x/body.kn5", true), "/asm", "/s"), SyncAction::Skip);
    assert_eq!(sync_action(&entry("/asm/content/cars/x/acd", true), "/asm", "/s"), SyncAction::Skip);
    assert_eq!(sync_action(&entry("/asm/content/cars/x/a.ACD", true), "/asm", "/s"), SyncAction::Skip);
}

#[test]
fn a_skins_directory_is_made_and_nothing_of_it_copied() {
    let entries = vec![
        entry("/asm", false),
        entry("/asm/content", false),
        entry("/asm/content/cars", false),
        entry("/asm/content/cars/x", false),
        entry("/asm/content/cars/x/skins", false),
        entry("/asm/content/cars/x/skins/red", false),
        entry("/asm/content/cars/x/skins/red/livery.dds", true),
        entry("/asm/content/cars/x/skins/red/preview.jpg", true),
    ];
    assert_eq!(sync_actions(&entries, "/asm", "/srv"), vec![make("/srv/content/cars/x/skins")]);
}

#[test]
fn a_file_named_skins_and_a_directory_named_data_are_left_out() {
    assert_eq!(sync_action(&entry("/asm/x/skins", true), "/asm", "/s"), SyncAction::Skip);
    assert_eq!(sync_action(&entry("/asm/x/data", false), "/asm", "/s"), SyncAction::Skip);
    assert_eq!(sync_action(&entry("/asm/x/tyres.ini", false), "/asm", "/s"), SyncAction::Skip);
    assert_eq!(sync_action(&entry("/asm/x/Skins", false), "/asm", "/s"), SyncAction::Skip);
}

#[test]
fn what_lies_outside_the_assembled_tree_is_left_out() {
    assert_eq!(sync_action(&entry("/elsewhere/data/a.ini", true), "/asm", "/s"), SyncAction::Skip);
    assert_eq!(sync_action(&entry("/asmx/skins", false), "/asm", "/s"), SyncAction::Skip);
}

#[test]
fn the_actions_keep_the_order_of_the_snapshot() {
    let entries = vec![
        entry("/asm/content/cars/x/data/b.lut", true),
        entry("/asm/content/cars/x/readme.txt", true),
        entry("/asm/content/cars/x/skins", false),
        entry("/asm/content/cars/x/a.ini", true),
    ];
    assert_eq!(
        sync_actions(&entries, "/asm", "/srv"),
        vec![
            copy("/asm/content/cars/x/data/b.lut", "/srv/content/cars/x/data/b.lut"),
            make("/srv/content/cars/x/skins"),
            copy("/asm/content/cars/x/a.ini", "/srv/content/cars/x/a.ini"),
        ]
    );
}

#[test]
fn every_root_gets_its_own_plan() {
    let entries = vec![
        entry("/asm/content/cars/x/data/physics.ini", true),
        entry("/asm/content/cars/x/textures/skin.dds", true),
        entry("/asm/content/cars/x/skins", false),
    ];
    let roots = vec!["/srv/one".to_string(), "/srv/two".to_string()];
    let plans = plan_sync(&entries, "/asm", &roots);
    assert_eq!(plans.len(), 2);
    assert_eq!(
        plans[0],
        vec![
            copy("/asm/content/cars/x/data/physics.ini", "/srv/one/content/cars/x/data/physics.ini"),
            make("/srv/one/content/cars/x/skins"),
        ]
    );
    assert_eq!(
        plans[1],
        vec![
            copy("/asm/content/cars/x/data/physics.ini", "/srv/two/content/cars/x/data/physics.ini"),
            make("/srv/two/content/cars/x/skins"),
        ]
    );
    assert!(plan_sync(&entries, "/asm", &vec![]).is_empty());
}

#[test]
fn the_filter_goes_by_extension_and_parent_name() {
    assert!(is_mirrored_file("a/b/c.ini"));
    assert!(is_mirrored_file("c.acd"));
    assert!(is_mirrored_file("x/data/anything"));
    assert!(is_mirrored_file("data/anything.bin"));
    assert!(!is_mirrored_file("x/data/sub/anything"));
    assert!(!is_mirrored_file("x/mydata/anything"));
    assert!(!is_mirrored_file("anything"));
    assert!(!is_mirrored_file("/anything.bin"));
    assert!(!is_mirrored_file("x/.ini"));
}
