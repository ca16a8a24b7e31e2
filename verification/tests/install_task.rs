use acsync::common::FsEntry;
use acsync::install_task::{
    determine_content_type, determine_install_tasks, find_mods, ContentType, InstallTask,
    PlanError,
};

fn entry(path: &str, is_file: bool) -> FsEntry {
    FsEntry { path: path.to_string(), is_file }
}

fn task(source: &str, target: &str) -> InstallTask {
    InstallTask { source_path: source.to_string(), target_path: target.to_string() }
}

fn vec_equal<T: PartialEq>(a: &Vec<T>, b: &Vec<T>) -> bool {
    let matching = a.iter().zip(b.iter()).filter(|&(a, b)| a == b).count();
    matching == a.len() && matching == b.len()
}

#[test]
fn test_vec_equal() {
    assert!(vec_equal(&vec![1, 2, 3], &vec![1, 2, 3]));
    assert!(vec_equal(&Vec::<u32>::new(), &Vec::<u32>::new()));
    assert!(!vec_equal(&vec![1, 2], &vec![1, 2, 3]));
}

#[test]
fn test_determine_content_type() {
    let unknown_content_entries: Vec<FsEntry> = vec![
        FsEntry {
            path: "/unknown_content".to_string(),
            is_file: false,
        },
        FsEntry {
            path: "/unknown_content/whatever".to_string(),
            is_file: true,
        },
        FsEntry {
            path: "/some_car".to_string(),
            is_file: false,
        },
        FsEntry {
            path: "/some_car/driver_base_pos.knh".to_string(),
            is_file: true,
        },
        FsEntry {
            path: "/some_car/some_car.kn5".to_string(),
            is_file: true,
        },
        FsEntry {
            path: "/another_car".to_string(),
            is_file: false,
        },
        FsEntry {
            path: "/another_car/animations".to_string(),
            is_file: false,
        },
        FsEntry {
            path: "/another_car/data.acd".to_string(),
            is_file: true,
        },
        FsEntry {
            path: "/some_track".to_string(),
            is_file: false,
        },
        FsEntry {
            path: "/some_track/models.ini".to_string(),
            is_file: true,
        },
        FsEntry {
            path: "/some_track/some_track.kn5".to_string(),
            is_file: true,
        },
    ];
    assert_eq!(ContentType::Unknown, determine_content_type(&unknown_content_entries, "/unknown_content"));
    assert_eq!(ContentType::Car, determine_content_type(&unknown_content_entries, "/some_car"));
    assert_eq!(ContentType::Car, determine_content_type(&unknown_content_entries, "/another_car"));
    assert_eq!(ContentType::Track, determine_content_type(&unknown_content_entries, "/some_track"));
}

#[test]
fn test_determine_install_tasks_unknown_mod_content() {
    let entries: Vec<FsEntry> = vec![
        FsEntry {
            path: "/some_super_car".to_string(),
            is_file: false,
        },
        FsEntry {
            path: "/some_super_car/whatever".to_string(),
            is_file: true,
        },
    ];
    let expected: Vec<InstallTask> = vec![];
    let tasks = determine_install_tasks(&entries);

    assert!(tasks.is_ok());
    assert!(vec_equal(&expected, &tasks.unwrap()));
}

#[test]
fn test_determine_install_tasks_one_content_dir() {
    let simple_mod_entries: Vec<FsEntry> = vec![
        FsEntry {
            path: "/tmp/unpacked/content".to_string(),
            is_file: false,
        },
        FsEntry {
            path: "/tmp/unpacked/content/cars".to_string(),
            is_file: false,
        },
        FsEntry {
            path: "/tmp/unpacked/content/cars/aaa_super_fast".to_string(),
            is_file: false,
        },
        FsEntry {
            path: "/tmp/unpacked/content/cars/aaa_super_fast/animations".to_string(),
            is_file: false,
        },
        FsEntry {
            path: "/tmp/unpacked/content/cars/aaa_super_fast/data.acd".to_string(),
            is_file: true,
        },
    ];

    let expected: Vec<InstallTask> = vec![InstallTask {
        source_path: "/tmp/unpacked/content".to_string(),
        target_path: "".to_string(),
    }];
    let tasks = determine_install_tasks(&simple_mod_entries);

    assert!(tasks.is_ok());
    assert!(vec_equal(&expected, &tasks.unwrap()));
}

#[test]
fn test_determine_install_tasks_one_content_dir_and_one_extension_dir() {
    let simple_mod_entries: Vec<FsEntry> = vec![
        FsEntry {
            path: "/tmp/unpacked/content".to_string(),
            is_file: false,
        },
        FsEntry {
            path: "/tmp/unpacked/extension".to_string(),
            is_file: false,
        },
    ];

    let expected: Vec<InstallTask> = vec![
        InstallTask {
            source_path: "/tmp/unpacked/content".to_string(),
            target_path: "".to_string(),
        },
        InstallTask {
            source_path: "/tmp/unpacked/extension".to_string(),
            target_path: "".to_string(),
        },
    ];
    let tasks = determine_install_tasks(&simple_mod_entries);

    assert!(tasks.is_ok());
    assert!(vec_equal(&expected, &tasks.unwrap()));
}

#[test]
fn test_determine_install_tasks_multiple_content_dirs() {
    let simple_mod_entries: Vec<FsEntry> = vec![
        FsEntry {
            path: "/tmp/unpacked/aaa/content".to_string(),
            is_file: false,
        },
        FsEntry {
            path: "/tmp/unpacked/bbb/content".to_string(),
            is_file: false,
        },
    ];

    let tasks = determine_install_tasks(&simple_mod_entries);

    assert!(tasks.is_err());
}

#[test]
fn test_determine_install_tasks_multiple_extension_dirs() {
    let simple_mod_entries: Vec<FsEntry> = vec![
        FsEntry {
            path: "/tmp/unpacked/aaa/extension".to_string(),
            is_file: false,
        },
        FsEntry {
            path: "/tmp/unpacked/bbb/extension".to_string(),
            is_file: false,
        },
    ];

    let tasks = determine_install_tasks(&simple_mod_entries);

    assert!(tasks.is_err());
}

#[test]
fn test_determine_install_tasks_one_car_dir() {
    let simple_mod_entries: Vec<FsEntry> = vec![
        FsEntry {
            path: "/tmp/unpacked/some_car".to_string(),
            is_file: false,
        },
        FsEntry {
            path: "/tmp/unpacked/some_car/driver_base_pos.knh".to_string(),
            is_file: true,
        },
        FsEntry {
            path: "/tmp/unpacked/some_car/some_car.kn5".to_string(),
            is_file: true,
        },
    ];

    let expected: Vec<InstallTask> = vec![InstallTask {
        source_path: "/tmp/unpacked/some_car".to_string(),
        target_path: "content/cars".to_string(),
    }];
    let tasks = determine_install_tasks(&simple_mod_entries);

    assert!(tasks.is_ok());
    assert!(vec_equal(&expected, &tasks.unwrap()));
}

#[test]
fn test_determine_install_tasks_one_car_dir_one_track_dir() {
    let simple_mod_entries: Vec<FsEntry> = vec![
        FsEntry {
            path: "/tmp/unpacked/some_car".to_string(),
            is_file: false,
        },
        FsEntry {
            path: "/tmp/unpacked/some_car/driver_base_pos.knh".to_string(),
            is_file: true,
        },
        FsEntry {
            path: "/tmp/unpacked/some_car/some_car.kn5".to_string(),
            is_file: true,
        },
        FsEntry {
            path: "/tmp/unpacked/nested/whatever/some_track".to_string(),
            is_file: false,
        },
        FsEntry {
            path: "/tmp/unpacked/nested/whatever/some_track/models.ini".to_string(),
            is_file: true,
        },
        FsEntry {
            path: "/tmp/unpacked/nested/whatever/some_track/some_track.kn5".to_string(),
            is_file: true,
        },
    ];

    let expected: Vec<InstallTask> = vec![
        InstallTask {
            source_path: "/tmp/unpacked/nested/whatever/some_track".to_string(),
            target_path: "content/tracks".to_string(),
        },
        InstallTask {
            source_path: "/tmp/unpacked/some_car".to_string(),
            target_path: "content/cars".to_string(),
        },
    ];
    let tasks = determine_install_tasks(&simple_mod_entries);

    assert!(tasks.is_ok());
    let mut tasks = tasks.unwrap();
    tasks.sort();
    assert!(vec_equal(&expected, &tasks));
}

#[test]
fn plan_is_sorted_by_source_whatever_the_snapshot_order() {
    let entries = vec![
        entry("/z/car/collider.kn5", true),
        entry("/a/track/models.ini", true),
        entry("/a/track/t.kn5", true),
        entry("/z/car/other.kn5", true),
    ];
    let tasks = determine_install_tasks(&entries).unwrap();
    assert_eq!(tasks, vec![task("/a/track", "content/tracks"), task("/z/car", "content/cars")]);
}

#[test]
fn car_markers_win_over_track_markers() {
    let entries = vec![
        entry("/both/ai", false),
        entry("/both/layout_one", false),
        entry("/both/collider.kn5", true),
    ];
    assert_eq!(ContentType::Car, determine_content_type(&entries, "/both"));
    let tracks_only = vec![entry("/both/ai", false), entry("/both/layout_one", false)];
    assert_eq!(ContentType::Track, determine_content_type(&tracks_only, "/both"));
}

#[test]
fn markers_must_lie_directly_below_the_directory() {
    let entries = vec![entry("/car/sub/collider.kn5", true), entry("/carx/collider.kn5", true)];
    assert_eq!(ContentType::Unknown, determine_content_type(&entries, "/car"));
    assert_eq!(ContentType::Car, determine_content_type(&entries, "/car/sub"));
}

#[test]
fn wildcard_markers_match_a_run_of_characters() {
    let entries = vec![entry("/c/animations_extra", false)];
    assert_eq!(ContentType::Car, determine_content_type(&entries, "/c"));
    let entries = vec![entry("/t/models_night.ini", true)];
    assert_eq!(ContentType::Track, determine_content_type(&entries, "/t"));
    let entries = vec![entry("/t/models.txt", true), entry("/t/aix", true)];
    assert_eq!(ContentType::Unknown, determine_content_type(&entries, "/t"));
}

#[test]
fn two_models_in_one_directory_give_one_mod() {
    let entries = vec![
        entry("/m/car", false),
        entry("/m/car/a.kn5", true),
        entry("/m/car/b.kn5", true),
        entry("/m/car/collider.kn5", true),
    ];
    let mods = find_mods(&entries);
    assert_eq!(mods.len(), 1);
    assert_eq!(mods[0].path, "/m/car");
    assert_eq!(mods[0].mod_type, ContentType::Car);
}

#[test]
fn a_directory_named_like_a_model_is_no_model() {
    let entries = vec![entry("/m/car.kn5", false), entry("/m/readme.txt", true)];
    assert!(find_mods(&entries).is_empty());
}

#[test]
fn unknown_mods_are_listed_but_not_planned() {
    let entries = vec![entry("/m/thing/x.kn5", true)];
    let mods = find_mods(&entries);
    assert_eq!(mods.len(), 1);
    assert_eq!(mods[0].mod_type, ContentType::Unknown);
    assert!(determine_install_tasks(&entries).unwrap().is_empty());
}

#[test]
fn ambiguity_is_reported_as_its_own_error() {
    let entries = vec![entry("/a/content", false), entry("/b/content", false)];
    let error = determine_install_tasks(&entries).unwrap_err();
    assert_eq!(error, PlanError::AmbiguousPackage);
    assert_eq!(error.message(), "Multiple content or extension dirs found");
}

#[test]
fn a_content_dir_silences_the_mods_beside_it() {
    let entries = vec![
        entry("/p/content", false),
        entry("/p/car/collider.kn5", true),
    ];
    let tasks = determine_install_tasks(&entries).unwrap();
    assert_eq!(tasks, vec![task("/p/content", "")]);
}

#[test]
fn an_extension_root_elsewhere_is_left_out() {
    let entries = vec![entry("/p/content", false), entry("/p/q/extension", false)];
    let tasks = determine_install_tasks(&entries).unwrap();
    assert_eq!(tasks, vec![task("/p/content", "")]);
}

#[test]
fn a_file_named_content_is_no_content_dir() {
    let entries = vec![entry("/p/content", true), entry("/q/content", true)];
    assert!(determine_install_tasks(&entries).unwrap().is_empty());
}

#[test]
fn an_extension_dir_that_is_a_mod_is_no_root() {
    let entries = vec![
        entry("/a/extension", false),
        entry("/a/extension/collider.kn5", true),
        entry("/b/extension", false),
    ];
    let tasks = determine_install_tasks(&entries).unwrap();
    assert_eq!(tasks, vec![task("/a/extension", "content/cars")]);
}

#[test]
fn tasks_compare_by_source_then_target() {
    assert!(task("/a", "x") < task("/b", ""));
    assert!(task("/a", "x") < task("/a", "y"));
    assert!(task("/a", "") == task("/a", ""));
    assert!(task("/a", "") != task("/a", "x"));
    assert!(task("/a/b", "") > task("/a", ""));
}

#[test]
fn siblings_are_judged_as_paths_not_as_text() {
    let entries = vec![entry("/p//q/content", false), entry("/p/q/extension", false)];
    let tasks = determine_install_tasks(&entries).unwrap();
    assert_eq!(tasks, vec![task("/p//q/content", ""), task("/p/q/extension", "")]);
}

#[test]
fn one_extension_root_alone_plans_nothing() {
    let entries = vec![entry("/p/extension", false), entry("/p/extension/readme.txt", true)];
    assert!(determine_install_tasks(&entries).unwrap().is_empty());
}

#[test]
fn two_extension_roots_are_ambiguous_even_beside_one_content_dir() {
    let entries = vec![
        entry("/p/content", false),
        entry("/p/extension", false),
        entry("/q/extension", false),
    ];
    assert_eq!(determine_install_tasks(&entries), Err(PlanError::AmbiguousPackage));
}

#[test]
fn an_empty_snapshot_plans_nothing() {
    assert_eq!(determine_install_tasks(&vec![]), Ok(vec![]));
    assert!(find_mods(&vec![]).is_empty());
}

#[test]
fn mods_are_listed_sorted_by_directory() {
    let entries = vec![
        entry("/m/zeta/z.kn5", true),
        entry("/m/alpha/layout_a/x", false),
        entry("/m/alpha/a.kn5", true),
        entry("/m/mid/m.kn5", true),
        entry("/m/zeta/collider.kn5", true),
    ];
    let mods = find_mods(&entries);
    let listed: Vec<(&str, ContentType)> = mods.iter().map(|m| (m.path.as_str(), m.mod_type)).collect();
    assert_eq!(
        listed,
        vec![
            ("/m/alpha", ContentType::Track),
            ("/m/mid", ContentType::Unknown),
            ("/m/zeta", ContentType::Car),
        ]
    );
}

#[test]
fn a_task_goes_below_the_root_of_the_assembled_tree() {
    assert_eq!(task("/u/car", "content/cars").destination("/out"), "/out/content/cars");
    assert_eq!(task("/u/content", "").destination("/out"), "/out/");
    assert_eq!(task("/u/t", "content/tracks").destination("/out/"), "/out/content/tracks");
}

#[test]
fn what_the_plan_leaves_out_is_told() {
    let entries = vec![
        entry("/m/zeta/z.kn5", true),
        entry("/m/car/collider.kn5", true),
        entry("/m/alpha/a.kn5", true),
    ];
    assert_eq!(acsync::install_task::unrecognized_mods(&entries), vec!["/m/alpha", "/m/zeta"]);
    let organized = vec![entry("/m/content", false), entry("/m/zeta/z.kn5", true)];
    assert!(acsync::install_task::unrecognized_mods(&organized).is_empty());
    let ambiguous = vec![
        entry("/a/extension", false),
        entry("/b/extension", false),
        entry("/m/zeta/z.kn5", true),
    ];
    assert!(acsync::install_task::unrecognized_mods(&ambiguous).is_empty());
}
