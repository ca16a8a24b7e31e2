//! The stored configuration: the installed mods, the users, and where mods
//! and servers live.

use crate::common::{lemma_filter_take_step, option_view};
use crate::paths::{path_file_name, path_join};
use crate::hashing::{md5_hex, md5_hex_of, sha512_hex, sha512_hex_of};
use vstd::prelude::*;
use vstd::string::*;

verus! {

/// An installed package: its file in the mod storage, the file's size and
/// its MD5 checksum in hexadecimal.
#[derive(Debug, PartialEq, Eq)]
pub struct AssettoMod {
    pub checksum_md5: String,
    pub filename: String,
    pub size_in_bytes: u64,
}

/// What an [`AssettoMod`] stands for in contracts.
pub struct AssettoModView {
    pub checksum_md5: Seq<char>,
    pub filename: Seq<char>,
    pub size_in_bytes: u64,
}

impl View for AssettoMod {
    type V = AssettoModView;

    open spec fn view(&self) -> AssettoModView {
        AssettoModView {
            checksum_md5: self.checksum_md5@,
            filename: self.filename@,
            size_in_bytes: self.size_in_bytes,
        }
    }
}

impl DeepView for AssettoMod {
    type V = AssettoModView;

    open spec fn deep_view(&self) -> AssettoModView {
        self@
    }
}

impl Clone for AssettoMod {
    fn clone(&self) -> (copy: Self)
        ensures
            copy@ == self@,
    {
        AssettoMod {
            checksum_md5: self.checksum_md5.clone(),
            filename: self.filename.clone(),
            size_in_bytes: self.size_in_bytes,
        }
    }
}

/// Somebody who may log in, with the SHA-512 of the password in hexadecimal.
#[derive(Debug, PartialEq, Eq)]
pub struct User {
    pub login: String,
    pub password_hash_sha512: String,
    pub is_admin: bool,
}

/// What a [`User`] stands for in contracts.
pub struct UserView {
    pub login: Seq<char>,
    pub password_hash_sha512: Seq<char>,
    pub is_admin: bool,
}

impl View for User {
    type V = UserView;

    open spec fn view(&self) -> UserView {
        UserView {
            login: self.login@,
            password_hash_sha512: self.password_hash_sha512@,
            is_admin: self.is_admin,
        }
    }
}

impl DeepView for User {
    type V = UserView;

    open spec fn deep_view(&self) -> UserView {
        self@
    }
}

/// Everything that is stored.
#[derive(Debug)]
pub struct Config {
    pub mods: Vec<AssettoMod>,
    pub mod_storage_location: String,
    pub server_paths: Vec<String>,
    pub users: Vec<User>,
}

/// What a [`Config`] stands for in contracts.
pub struct ConfigView {
    pub mods: Seq<AssettoModView>,
    pub mod_storage_location: Seq<char>,
    pub server_paths: Seq<Seq<char>>,
    pub users: Seq<UserView>,
}

impl View for Config {
    type V = ConfigView;

    open spec fn view(&self) -> ConfigView {
        ConfigView {
            mods: self.mods.deep_view(),
            mod_storage_location: self.mod_storage_location@,
            server_paths: self.server_paths.deep_view(),
            users: self.users.deep_view(),
        }
    }
}

/// The configuration together with the path of the file it is kept in.
#[derive(Debug)]
pub struct ConfigObject {
    pub config: Config,
    pub path: String,
}

/// The SHA-512 of the password as it is stored.
fn calculate_sha512(value: &String) -> (hash: String)
    ensures
        hash@ == sha512_hex(value@),
{
    sha512_hex_of(value.as_str())
}

/// Whether a user has the login.
pub open spec fn has_user(users: Seq<UserView>, login: Seq<char>) -> bool {
    exists|i: int| 0 <= i < users.len() && (#[trigger] users[i]).login == login
}

/// Whether the user at `i` is the first one with the login.
pub open spec fn is_first_user(users: Seq<UserView>, login: Seq<char>, i: int) -> bool {
    &&& 0 <= i < users.len()
    &&& users[i].login == login
    &&& forall|j: int| 0 <= j < i ==> (#[trigger] users[j]).login != login
}

/// The place of the first user with the login, if there is one.
pub open spec fn first_user(users: Seq<UserView>, login: Seq<char>) -> Option<int> {
    if has_user(users, login) {
        Some(choose|i: int| is_first_user(users, login, i))
    } else {
        None
    }
}

/// The first user with a login stands at one place only, and that place is
/// what `first_user` gives.
pub proof fn lemma_first_user(users: Seq<UserView>, login: Seq<char>, i: int)
    requires
        is_first_user(users, login, i),
    ensures
        first_user(users, login) == Some(i),
{
    let k = choose|k: int| is_first_user(users, login, k);
    if k < i {
        assert(users[k].login != login);
    }
    if i < k {
        assert(users[i].login != login);
    }
}

/// Whether a mod has the checksum.
pub open spec fn has_mod(mods: Seq<AssettoModView>, checksum: Seq<char>) -> bool {
    exists|i: int| 0 <= i < mods.len() && (#[trigger] mods[i]).checksum_md5 == checksum
}

/// Whether the mod at `i` is the first one with the checksum.
pub open spec fn is_first_mod(mods: Seq<AssettoModView>, checksum: Seq<char>, i: int) -> bool {
    &&& 0 <= i < mods.len()
    &&& mods[i].checksum_md5 == checksum
    &&& forall|j: int| 0 <= j < i ==> (#[trigger] mods[j]).checksum_md5 != checksum
}

/// The place of the first mod with the checksum, if there is one.
pub open spec fn first_mod(mods: Seq<AssettoModView>, checksum: Seq<char>) -> Option<int> {
    if has_mod(mods, checksum) {
        Some(choose|i: int| is_first_mod(mods, checksum, i))
    } else {
        None
    }
}

/// The first mod with a checksum stands at one place only, and that place is
/// what `first_mod` gives.
pub proof fn lemma_first_mod(mods: Seq<AssettoModView>, checksum: Seq<char>, i: int)
    requires
        is_first_mod(mods, checksum, i),
    ensures
        first_mod(mods, checksum) == Some(i),
{
    let k = choose|k: int| is_first_mod(mods, checksum, k);
    if k < i {
        assert(mods[k].checksum_md5 != checksum);
    }
    if i < k {
        assert(mods[i].checksum_md5 != checksum);
    }
}

/// Whether a mod is kept in the file of that name.
pub open spec fn has_mod_file(mods: Seq<AssettoModView>, filename: Seq<char>) -> bool {
    exists|i: int| 0 <= i < mods.len() && (#[trigger] mods[i]).filename == filename
}

/// The mods after the files found in the storage are taken in, one after
/// the other: a file whose name a mod already has is passed over.
pub open spec fn with_found_files(
    mods: Seq<AssettoModView>,
    found: Seq<AssettoModView>,
) -> Seq<AssettoModView>
    decreases found.len(),
{
    if found.len() == 0 {
        mods
    } else {
        let sofar = with_found_files(mods, found.drop_last());
        if has_mod_file(sofar, found.last().filename) {
            sofar
        } else {
            sofar.push(found.last())
        }
    }
}

/// The user with a new password.
pub open spec fn with_password(user: UserView, password: Seq<char>) -> UserView {
    UserView {
        login: user.login,
        password_hash_sha512: sha512_hex(password),
        is_admin: user.is_admin,
    }
}

/// Whether the first user with the login is an administrator.
pub open spec fn admin_in(users: Seq<UserView>, login: Seq<char>) -> bool {
    match first_user(users, login) {
        Some(i) => users[i].is_admin,
        None => false,
    }
}

/// Whether the password is that of the first user with the login.
pub open spec fn login_valid_in(users: Seq<UserView>, login: Seq<char>, password: Seq<char>) -> bool {
    match first_user(users, login) {
        Some(i) => users[i].password_hash_sha512 == sha512_hex(password),
        None => false,
    }
}

/// The place of the first user with the login.
fn find_user(users: &Vec<User>, login: &String) -> (found: Option<usize>)
    ensures
        match found {
            Some(i) => is_first_user(users.deep_view(), login@, i as int) && first_user(
                users.deep_view(),
                login@,
            ) == Some(i as int),
            None => first_user(users.deep_view(), login@) is None,
        },
{
    let mut i: usize = 0;
    while i < users.len()
        invariant
            i <= users.len(),
            forall|j: int| 0 <= j < i ==> (#[trigger] users.deep_view()[j]).login != login@,
        decreases users.len() - i,
    {
        if users[i].login == *login {
            proof {
                assert(users.deep_view()[i as int].login == login@);
                lemma_first_user(users.deep_view(), login@, i as int);
            }
            return Some(i);
        }
        i += 1;
    }
    None
}

/// The place of the first mod with the checksum.
pub(crate) fn find_mod(mods: &Vec<AssettoMod>, checksum_md5: &String) -> (found: Option<usize>)
    ensures
        match found {
            Some(i) => is_first_mod(mods.deep_view(), checksum_md5@, i as int) && first_mod(
                mods.deep_view(),
                checksum_md5@,
            ) == Some(i as int),
            None => first_mod(mods.deep_view(), checksum_md5@) is None,
        },
{
    let mut i: usize = 0;
    while i < mods.len()
        invariant
            i <= mods.len(),
            forall|j: int|
                0 <= j < i ==> (#[trigger] mods.deep_view()[j]).checksum_md5 != checksum_md5@,
        decreases mods.len() - i,
    {
        if mods[i].checksum_md5 == *checksum_md5 {
            proof {
                assert(mods.deep_view()[i as int].checksum_md5 == checksum_md5@);
                lemma_first_mod(mods.deep_view(), checksum_md5@, i as int);
            }
            return Some(i);
        }
        i += 1;
    }
    None
}

/// Whether one of the mods is kept in the file of that name.
fn holds_mod_file(mods: &Vec<AssettoMod>, filename: &String) -> (held: bool)
    ensures
        held == has_mod_file(mods.deep_view(), filename@),
{
    let mut i: usize = 0;
    while i < mods.len()
        invariant
            i <= mods.len(),
            forall|j: int| 0 <= j < i ==> (#[trigger] mods.deep_view()[j]).filename != filename@,
        decreases mods.len() - i,
    {
        if mods[i].filename == *filename {
            assert(mods.deep_view()[i as int].filename == filename@);
            return true;
        }
        i += 1;
    }
    false
}

/// Takes out every user with the login.
fn remove_users(users: &mut Vec<User>, login: &String)
    ensures
        final(users).deep_view() == old(users).deep_view().filter(
            |u: UserView| u.login != login@,
        ),
{
    let ghost initial = users.deep_view();
    let ghost keep = |u: UserView| u.login != login@;
    let ghost mut done: int = 0;
    let mut i: usize = 0;
    proof {
        reveal(Seq::filter);
        assert(initial.take(0) =~= Seq::<UserView>::empty());
        assert(initial.skip(0) =~= initial);
        assert(users.deep_view() =~= initial.take(0).filter(keep) + initial.skip(0));
    }
    while i < users.len()
        invariant
            0 <= done <= initial.len(),
            i <= users.len(),
            i == initial.take(done).filter(keep).len(),
            users.deep_view() == initial.take(done).filter(keep) + initial.skip(done),
            keep == |u: UserView| u.login != login@,
        decreases users.len() - i,
    {
        let ghost before = users.deep_view();
        proof {
            lemma_filter_take_step(initial, keep, done);
            assert(before[i as int] == initial.skip(done)[0]);
        }
        if users[i].login == *login {
            users.remove(i);
            proof {
                assert(users.deep_view() =~= before.remove(i as int));
                assert(before.remove(i as int) =~= initial.take(done + 1).filter(keep)
                    + initial.skip(done + 1));
            }
        } else {
            proof {
                assert(before =~= initial.take(done + 1).filter(keep) + initial.skip(done + 1));
            }
            i += 1;
        }
        proof {
            done = done + 1;
        }
    }
    proof {
        assert(users.deep_view().len() == i);
        assert(initial.skip(done).len() == 0);
        assert(initial.take(done) =~= initial);
        assert(users.deep_view() =~= initial.filter(keep));
    }
}

/// Describes a file of the mod storage: its name, the size of its contents
/// and their checksum. There is nothing to describe where the path names no
/// file.
pub fn get_assetto_mod(path: &str, contents: &[u8]) -> (described: Option<AssettoMod>)
    ensures
        match path_file_name(path@) {
            Some(name) => described matches Some(m) && m@ == (AssettoModView {
                checksum_md5: md5_hex(contents@),
                filename: name,
                size_in_bytes: contents@.len() as u64,
            }),
            None => described is None,
        },
{
    match crate::paths::file_name(path) {
        Some(filename) => Some(
            AssettoMod {
                checksum_md5: md5_hex_of(contents),
                filename,
                size_in_bytes: contents.len() as u64,
            },
        ),
        None => None,
    }
}

/// What can be asked of the stored configuration, and done to it.
pub trait ConfigTrait: Sized {
    /// The configuration as contracts see it.
    spec fn model(&self) -> ConfigView;

    /// The configuration `config`, kept in the file at `path`.
    fn new(path: &str, config: Config) -> (object: Self)
        ensures
            object.model() == config@,
    ;

    /// Adds a user with the password, unless the login is taken.
    fn add_user(&mut self, login: &String, new_password: &String, is_admin: bool) -> (result:
        Result<(), &'static str>)
        ensures
            match result {
                Ok(_) => first_user(old(self).model().users, login@) is None && final(self).model() == (
                ConfigView {
                    users: old(self).model().users.push(
                        UserView {
                            login: login@,
                            password_hash_sha512: sha512_hex(new_password@),
                            is_admin,
                        },
                    ),
                    ..old(self).model()
                }),
                Err(reason) => first_user(old(self).model().users, login@) is Some && reason@
                    == "User already exists"@ && final(self).model() == old(self).model(),
            },
    ;

    /// Gives the first user with the login a new password.
    fn change_user_password(&mut self, login: &String, new_password: &String) -> (result: Result<
        (),
        &'static str,
    >)
        ensures
            match first_user(old(self).model().users, login@) {
                Some(i) => result is Ok && final(self).model() == (ConfigView {
                    users: old(self).model().users.update(
                        i,
                        with_password(old(self).model().users[i], new_password@),
                    ),
                    ..old(self).model()
                }),
                None => result matches Err(reason) && reason@ == "User not found"@ && final(self).model() == old(self).model(),
            },
    ;

    /// Forgets the first mod with the checksum.
    fn delete_mod(&mut self, checksum_md5: &String) -> (result: Result<(), String>)
        ensures
            match first_mod(old(self).model().mods, checksum_md5@) {
                Some(i) => result is Ok && final(self).model() == (ConfigView {
                    mods: old(self).model().mods.remove(i),
                    ..old(self).model()
                }),
                None => result matches Err(reason) && reason@ == "Mod not found"@ && final(self).model() == old(self).model(),
            },
    ;

    /// Takes out every user with the login.
    fn delete_user(&mut self, login: &String) -> (result: Result<(), &'static str>)
        ensures
            result is Ok,
            final(self).model() == (ConfigView {
                users: old(self).model().users.filter(|u: UserView| u.login != login@),
                ..old(self).model()
            }),
    ;

    /// The installed mods.
    fn get_mod_list(&self) -> (mods: Vec<AssettoMod>)
        ensures
            mods.deep_view() == self.model().mods,
    ;

    /// The roots of the servers.
    fn get_server_paths(&self) -> (paths: Vec<String>)
        ensures
            paths.deep_view() == self.model().server_paths,
    ;

    /// Whether the password is that of the first user with the login.
    fn is_login_data_valid(&self, login: &String, password: &String) -> (valid: bool)
        ensures
            valid == login_valid_in(self.model().users, login@, password@),
    ;

    /// Whether the first user with the login is an administrator.
    fn is_user_admin(&self, login: &String) -> (admin: bool)
        ensures
            admin == admin_in(self.model().users, login@),
    ;

    /// Takes in the files found in the mod storage, after forgetting the
    /// mods known so far if `clear` says so. A file whose name a mod
    /// already has is passed over.
    fn rebuild_mod_storage(&mut self, clear: bool, found: Vec<AssettoMod>)
        ensures
            final(self).model() == (ConfigView {
                mods: with_found_files(
                    if clear {
                        Seq::empty()
                    } else {
                        old(self).model().mods
                    },
                    found.deep_view(),
                ),
                ..old(self).model()
            }),
    ;

    /// Whether a user has the login.
    fn user_exists(&self, login: &String) -> (exists: bool)
        ensures
            exists == first_user(self.model().users, login@) is Some,
            exists == has_user(self.model().users, login@),
    ;
}

impl ConfigTrait for ConfigObject {
    open spec fn model(&self) -> ConfigView {
        self.config@
    }

    fn new(path: &str, config: Config) -> (object: ConfigObject) {
        ConfigObject { config, path: String::from_str(path) }
    }

    fn add_user(&mut self, login: &String, new_password: &String, is_admin: bool) -> (result:
        Result<(), &'static str>) {
        if self.user_exists(login) {
            return Err("User already exists");
        }
        let ghost before = self.config.users.deep_view();
        self.config.users.push(
            User {
                login: login.clone(),
                password_hash_sha512: calculate_sha512(new_password),
                is_admin,
            },
        );
        assert(self.config.users.deep_view() =~= before.push(
            UserView {
                login: login@,
                password_hash_sha512: sha512_hex(new_password@),
                is_admin,
            },
        ));
        Ok(())
    }

    fn change_user_password(&mut self, login: &String, new_password: &String) -> (result: Result<
        (),
        &'static str,
    >) {
        match find_user(&self.config.users, login) {
            Some(i) => {
                let ghost before = self.config.users.deep_view();
                let changed = User {
                    login: self.config.users[i].login.clone(),
                    password_hash_sha512: calculate_sha512(new_password),
                    is_admin: self.config.users[i].is_admin,
                };
                self.config.users.set(i, changed);
                assert(self.config.users.deep_view() =~= before.update(
                    i as int,
                    with_password(before[i as int], new_password@),
                ));
                Ok(())
            },
            None => Err("User not found"),
        }
    }

    fn delete_mod(&mut self, checksum_md5: &String) -> (result: Result<(), String>) {
        match find_mod(&self.config.mods, checksum_md5) {
            Some(i) => {
                let ghost before = self.config.mods.deep_view();
                self.config.mods.remove(i);
                assert(self.config.mods.deep_view() =~= before.remove(i as int));
                Ok(())
            },
            None => Err(String::from_str("Mod not found")),
        }
    }

    fn delete_user(&mut self, login: &String) -> (result: Result<(), &'static str>) {
        remove_users(&mut self.config.users, login);
        Ok(())
    }

    fn get_mod_list(&self) -> (mods: Vec<AssettoMod>) {
        let mut mods: Vec<AssettoMod> = Vec::new();
        let mut i: usize = 0;
        while i < self.config.mods.len()
            invariant
                i <= self.config.mods.len(),
                mods.deep_view() =~= self.config.mods.deep_view().take(i as int),
            decreases self.config.mods.len() - i,
        {
            let ghost before = mods.deep_view();
            mods.push(self.config.mods[i].clone());
            assert(mods.deep_view() =~= before.push(self.config.mods.deep_view()[i as int]));
            i += 1;
        }
        assert(self.config.mods.deep_view().take(i as int) =~= self.config.mods.deep_view());
        mods
    }

    fn get_server_paths(&self) -> (paths: Vec<String>) {
        let mut paths: Vec<String> = Vec::new();
        let mut i: usize = 0;
        while i < self.config.server_paths.len()
            invariant
                i <= self.config.server_paths.len(),
                paths.deep_view() =~= self.config.server_paths.deep_view().take(i as int),
            decreases self.config.server_paths.len() - i,
        {
            let ghost before = paths.deep_view();
            paths.push(self.config.server_paths[i].clone());
            assert(paths.deep_view() =~= before.push(
                self.config.server_paths.deep_view()[i as int],
            ));
            i += 1;
        }
        assert(self.config.server_paths.deep_view().take(i as int)
            =~= self.config.server_paths.deep_view());
        paths
    }

    fn is_login_data_valid(&self, login: &String, password: &String) -> (valid: bool) {
        match find_user(&self.config.users, login) {
            Some(i) => {
                calculate_sha512(password) == self.config.users[i].password_hash_sha512
            },
            None => false,
        }
    }

    fn is_user_admin(&self, login: &String) -> (admin: bool) {
        match find_user(&self.config.users, login) {
            Some(i) => {
                self.config.users[i].is_admin
            },
            None => false,
        }
    }

    fn rebuild_mod_storage(&mut self, clear: bool, found: Vec<AssettoMod>) {
        if clear {
            self.config.mods.clear();
            assert(self.config.mods.deep_view() =~= Seq::<AssettoModView>::empty());
        }
        let ghost start = self.config.mods.deep_view();
        let ghost files = found.deep_view();
        let mut i: usize = 0;
        assert(files.take(0) =~= Seq::<AssettoModView>::empty());
        while i < found.len()
            invariant
                i <= found.len(),
                files == found.deep_view(),
                self.config.mods.deep_view() == with_found_files(start, files.take(i as int)),
                self.config.mod_storage_location == old(self).config.mod_storage_location,
                self.config.server_paths == old(self).config.server_paths,
                self.config.users == old(self).config.users,
            decreases found.len() - i,
        {
            let ghost sofar = self.config.mods.deep_view();
            proof {
                assert(files.take(i + 1).drop_last() =~= files.take(i as int));
                assert(files.take(i + 1).last() == files[i as int]);
            }
            if !holds_mod_file(&self.config.mods, &found[i].filename) {
                self.config.mods.push(found[i].clone());
                assert(self.config.mods.deep_view() =~= sofar.push(files[i as int]));
            }
            i += 1;
        }
        assert(files.take(i as int) =~= files);
    }

    fn user_exists(&self, login: &String) -> (exists: bool) {
        find_user(&self.config.users, login).is_some()
    }
}

impl ConfigObject {
    /// Whether one of the mods is kept in the file of that name.
    pub fn knows_mod_file(&self, filename: &String) -> (known: bool)
        ensures
            known == has_mod_file(self.config@.mods, filename@),
    {
        holds_mod_file(&self.config.mods, filename)
    }

    /// Where the file of the first mod with the checksum lies in the mod
    /// storage.
    pub fn mod_file_path(&self, checksum_md5: &String) -> (path: Option<String>)
        ensures
            option_view(path) == match first_mod(self.config@.mods, checksum_md5@) {
                Some(i) => Some(
                    path_join(self.config@.mod_storage_location, self.config@.mods[i].filename),
                ),
                None => None,
            },
    {
        match find_mod(&self.config.mods, checksum_md5) {
            Some(i) => Some(
                crate::paths::join(
                    self.config.mod_storage_location.as_str(),
                    self.config.mods[i].filename.as_str(),
                ),
            ),
            None => None,
        }
    }
}

} // verus!
