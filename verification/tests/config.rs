use acsync::config::{get_assetto_mod, AssettoMod, Config, ConfigObject, ConfigTrait, User};

const HELLO_SHA512: &str = "309ecc489c12d6eb4cc40f50c902f2b4d0ed77ee511a7c7a9bcd3ca86d4cd86f989dd35bc5ff499670da34255b45b0cfd830e81f605dcf7dc5542e93ae9cd76f";
const EMPTY_SHA512: &str = "cf83e1357eefb8bdf1542850d66d8007d620e4050b5715dc83f4a921d36ce9ce47d0d13c5d85f2b0ff8318d2877eec2f63b931bd47417a81a538327af927da3e";

fn acmod(checksum: &str, filename: &str, size: u64) -> AssettoMod {
    AssettoMod {
        checksum_md5: checksum.to_string(),
        filename: filename.to_string(),
        size_in_bytes: size,
    }
}

fn user(login: &str, hash: &str, is_admin: bool) -> User {
    User { login: login.to_string(), password_hash_sha512: hash.to_string(), is_admin }
}

fn sample() -> ConfigObject {
    let config = Config {
        mods: vec![acmod("aa", "one.zip", 10), acmod("bb", "two.rar", 20), acmod("aa", "three.7z", 30)],
        mod_storage_location: "/srv/mods".to_string(),
        server_paths: vec!["/srv/a".to_string(), "/srv/b".to_string()],
        users: vec![
            user("root", HELLO_SHA512, true),
            user("guest", EMPTY_SHA512, false),
            user("root", EMPTY_SHA512, false),
        ],
    };
    ConfigObject::new("/etc/acsync.json", config)
}

#[test]
fn new_keeps_the_configuration_and_its_path() {
    let object = sample();
    assert_eq!(object.path, "/etc/acsync.json");
    assert_eq!(object.config.mods.len(), 3);
    assert_eq!(object.config.mod_storage_location, "/srv/mods");
    assert_eq!(object.config.users.len(), 3);
}

#[test]
fn add_user_stores_the_sha512_of_the_password() {
    let mut object = sample();
    let result = object.add_user(&"alice".to_string(), &"hello world".to_string(), true);
    assert_eq!(result, Ok(()));
    assert_eq!(object.config.users.len(), 4);
    assert_eq!(object.config.users[3], user("alice", HELLO_SHA512, true));
    assert!(object.user_exists(&"alice".to_string()));
    assert!(object.is_login_data_valid(&"alice".to_string(), &"hello world".to_string()));
    assert!(!object.is_login_data_valid(&"alice".to_string(), &"hello".to_string()));
}

#[test]
fn add_user_refuses_a_login_that_is_taken() {
    let mut object = sample();
    let result = object.add_user(&"guest".to_string(), &"x".to_string(), true);
    assert_eq!(result, Err("User already exists"));
    assert_eq!(object.config.users.len(), 3);
    assert_eq!(object.config.users[1], user("guest", EMPTY_SHA512, false));
}

#[test]
fn the_hash_is_of_the_password_and_not_the_password() {
    let mut object = sample();
    object.add_user(&"bob".to_string(), &"".to_string(), false).unwrap();
    assert_eq!(object.config.users[3].password_hash_sha512, EMPTY_SHA512);
}

#[test]
fn change_user_password_changes_the_first_user_with_the_login() {
    let mut object = sample();
    let result = object.change_user_password(&"root".to_string(), &"".to_string());
    assert_eq!(result, Ok(()));
    assert_eq!(object.config.users[0], user("root", EMPTY_SHA512, true));
    assert_eq!(object.config.users[1], user("guest", EMPTY_SHA512, false));
    assert_eq!(object.config.users[2], user("root", EMPTY_SHA512, false));
    let result = object.change_user_password(&"guest".to_string(), &"hello world".to_string());
    assert_eq!(result, Ok(()));
    assert_eq!(object.config.users[1], user("guest", HELLO_SHA512, false));
}

#[test]
fn change_user_password_needs_the_user() {
    let mut object = sample();
    let result = object.change_user_password(&"nobody".to_string(), &"x".to_string());
    assert_eq!(result, Err("User not found"));
    assert_eq!(object.config.users[0], user("root", HELLO_SHA512, true));
    assert_eq!(object.config.users.len(), 3);
}

#[test]
fn delete_mod_forgets_the_first_mod_with_the_checksum() {
    let mut object = sample();
    assert_eq!(object.delete_mod(&"aa".to_string()), Ok(()));
    assert_eq!(object.config.mods, vec![acmod("bb", "two.rar", 20), acmod("aa", "three.7z", 30)]);
    assert_eq!(object.delete_mod(&"aa".to_string()), Ok(()));
    assert_eq!(object.config.mods, vec![acmod("bb", "two.rar", 20)]);
}

#[test]
fn delete_mod_needs_the_mod() {
    let mut object = sample();
    assert_eq!(object.delete_mod(&"zz".to_string()), Err("Mod not found".to_string()));
    assert_eq!(object.config.mods.len(), 3);
}

#[test]
fn delete_user_takes_out_every_user_with_the_login() {
    let mut object = sample();
    assert_eq!(object.delete_user(&"root".to_string()), Ok(()));
    assert_eq!(object.config.users, vec![user("guest", EMPTY_SHA512, false)]);
    assert_eq!(object.delete_user(&"nobody".to_string()), Ok(()));
    assert_eq!(object.config.users, vec![user("guest", EMPTY_SHA512, false)]);
    assert_eq!(object.delete_user(&"guest".to_string()), Ok(()));
    assert!(object.config.users.is_empty());
}

#[test]
fn the_lists_are_handed_out_as_they_are() {
    let object = sample();
    assert_eq!(
        object.get_mod_list(),
        vec![acmod("aa", "one.zip", 10), acmod("bb", "two.rar", 20), acmod("aa", "three.7z", 30)]
    );
    assert_eq!(object.get_server_paths(), vec!["/srv/a".to_string(), "/srv/b".to_string()]);
}

#[test]
fn the_first_user_with_a_login_decides() {
    let object = sample();
    assert!(object.is_user_admin(&"root".to_string()));
    assert!(!object.is_user_admin(&"guest".to_string()));
    assert!(!object.is_user_admin(&"nobody".to_string()));
    assert!(object.is_login_data_valid(&"root".to_string(), &"hello world".to_string()));
    assert!(!object.is_login_data_valid(&"root".to_string(), &"".to_string()));
    assert!(object.is_login_data_valid(&"guest".to_string(), &"".to_string()));
    assert!(!object.is_login_data_valid(&"nobody".to_string(), &"".to_string()));
    assert!(object.user_exists(&"guest".to_string()));
    assert!(!object.user_exists(&"Guest".to_string()));
}

#[test]
fn rebuild_takes_in_the_files_that_are_new() {
    let mut object = sample();
    let found = vec![
        acmod("cc", "two.rar", 21),
        acmod("dd", "four.zip", 40),
        acmod("ee", "four.zip", 41),
    ];
    object.rebuild_mod_storage(false, found);
    assert_eq!(
        object.config.mods,
        vec![
            acmod("aa", "one.zip", 10),
            acmod("bb", "two.rar", 20),
            acmod("aa", "three.7z", 30),
            acmod("dd", "four.zip", 40),
        ]
    );
}

#[test]
fn rebuild_after_clearing_knows_only_what_was_found() {
    let mut object = sample();
    let found = vec![acmod("cc", "two.rar", 21), acmod("dd", "four.zip", 40)];
    object.rebuild_mod_storage(true, found);
    assert_eq!(object.config.mods, vec![acmod("cc", "two.rar", 21), acmod("dd", "four.zip", 40)]);
    object.rebuild_mod_storage(true, vec![]);
    assert!(object.config.mods.is_empty());
    assert_eq!(object.config.users.len(), 3);
    assert_eq!(object.config.server_paths.len(), 2);
}

#[test]
fn a_stored_file_is_described_by_name_size_and_md5() {
    let described = get_assetto_mod("/srv/mods/pack.zip", b"hello world");
    assert_eq!(described, Some(acmod("5eb63bbbe01eeed093cb22bb8f5acdc3", "pack.zip", 11)));
    let described = get_assetto_mod("pack.7z", b"");
    assert_eq!(described, Some(acmod("d41d8cd98f00b204e9800998ecf8427e", "pack.7z", 0)));
    assert_eq!(get_assetto_mod("/", b"x"), None);
    assert_eq!(get_assetto_mod("/srv/..", b"x"), None);
}

#[test]
fn the_file_of_a_mod_lies_in_the_storage() {
    let object = sample();
    assert_eq!(object.mod_file_path(&"bb".to_string()), Some("/srv/mods/two.rar".to_string()));
    assert_eq!(object.mod_file_path(&"aa".to_string()), Some("/srv/mods/one.zip".to_string()));
    assert_eq!(object.mod_file_path(&"zz".to_string()), None);
}
