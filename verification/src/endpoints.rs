//! What the pages of the server decide: who may see what, what a request
//! changes, and what is shown of the configuration.

use crate::common::option_view;
use crate::config::{
    admin_in, find_mod, first_mod, first_user, login_valid_in, with_password, AssettoMod,
    AssettoModView, ConfigObject, ConfigTrait, ConfigView, User, UserView,
};
use crate::paths::{path_extension, path_join};
use vstd::prelude::*;
use vstd::string::*;

verus! {

/// What the login form sends.
#[derive(Debug)]
pub struct LoginData {
    pub login: String,
    pub password: String,
}

/// What the form for a new password sends.
#[derive(Debug)]
pub struct ChangePasswordData {
    pub login: String,
    pub password1: String,
    pub password2: String,
}

/// A mod as the list of mods for programs shows it.
#[derive(Debug)]
pub struct JsonModTemplate {
    pub checksum_md5: String,
    pub filename: String,
    pub size_in_bytes: u64,
}

/// A mod as the page of mods shows it.
#[derive(Debug)]
pub struct ModTemplate {
    pub checksum_md5: String,
    pub filename: String,
    pub size_in_megabytes: u64,
}

/// What a [`ModTemplate`] stands for in contracts.
pub struct ModTemplateView {
    pub checksum_md5: Seq<char>,
    pub filename: Seq<char>,
    pub size_in_megabytes: u64,
}

impl View for ModTemplate {
    type V = ModTemplateView;

    open spec fn view(&self) -> ModTemplateView {
        ModTemplateView {
            checksum_md5: self.checksum_md5@,
            filename: self.filename@,
            size_in_megabytes: self.size_in_megabytes,
        }
    }
}

impl DeepView for ModTemplate {
    type V = ModTemplateView;

    open spec fn deep_view(&self) -> ModTemplateView {
        self@
    }
}

impl View for JsonModTemplate {
    type V = AssettoModView;

    open spec fn view(&self) -> AssettoModView {
        AssettoModView {
            checksum_md5: self.checksum_md5@,
            filename: self.filename@,
            size_in_bytes: self.size_in_bytes,
        }
    }
}

impl DeepView for JsonModTemplate {
    type V = AssettoModView;

    open spec fn deep_view(&self) -> AssettoModView {
        self@
    }
}

/// A user as the page of users shows it.
#[derive(Debug)]
pub struct UserTemplate {
    pub login: String,
    pub is_admin: bool,
}

/// What a [`UserTemplate`] stands for in contracts.
pub struct UserTemplateView {
    pub login: Seq<char>,
    pub is_admin: bool,
}

impl View for UserTemplate {
    type V = UserTemplateView;

    open spec fn view(&self) -> UserTemplateView {
        UserTemplateView { login: self.login@, is_admin: self.is_admin }
    }
}

impl DeepView for UserTemplate {
    type V = UserTemplateView;

    open spec fn deep_view(&self) -> UserTemplateView {
        self@
    }
}

/// A mod to be sent, with the path of its file.
#[derive(Debug)]
pub struct AssettoModResponse {
    pub acmod: AssettoMod,
    pub full_path: String,
}

/// Whether a page may be seen.
#[derive(Debug, Clone, Copy, PartialEq, Eq, Structural)]
pub enum Access {
    /// Nobody is logged in.
    LoginRequired,
    /// Somebody is logged in, and may not see the page.
    Denied,
    /// The page may be seen.
    Granted,
}

/// How a request for a new password ends.
#[derive(Debug, Clone, Copy, PartialEq, Eq, Structural)]
pub enum PasswordChange {
    /// Nobody is logged in, or somebody who is no administrator asks for
    /// another user.
    AccessDenied,
    /// The password and its repetition differ.
    PasswordsDiffer,
    /// No user has the login.
    UserNotFound,
    /// The password is changed, by an administrator or by the user.
    Changed { by_admin: bool },
}

/// The access to a page for administrators alone.
pub open spec fn admin_access_for(users: Seq<UserView>, user_name: Option<Seq<char>>) -> Access {
    match user_name {
        None => Access::LoginRequired,
        Some(name) => if admin_in(users, name) {
            Access::Granted
        } else {
            Access::Denied
        },
    }
}

/// The access to the password form of `login`: every administrator has it,
/// and the user with that login.
pub open spec fn password_access_for(
    users: Seq<UserView>,
    user_name: Option<Seq<char>>,
    login: Seq<char>,
) -> Access {
    match user_name {
        None => Access::LoginRequired,
        Some(name) => if !admin_in(users, name) && login != name {
            Access::Denied
        } else {
            Access::Granted
        },
    }
}

/// How a request for a new password ends, and the users after it.
pub open spec fn password_change_for(
    users: Seq<UserView>,
    user_name: Option<Seq<char>>,
    login: Seq<char>,
    password1: Seq<char>,
    password2: Seq<char>,
) -> (PasswordChange, Seq<UserView>) {
    if password_access_for(users, user_name, login) != Access::Granted {
        (PasswordChange::AccessDenied, users)
    } else if password1 != password2 {
        (PasswordChange::PasswordsDiffer, users)
    } else {
        match first_user(users, login) {
            Some(i) => (
                PasswordChange::Changed { by_admin: admin_in(users, user_name->0) },
                users.update(i, with_password(users[i], password1)),
            ),
            None => (PasswordChange::UserNotFound, users),
        }
    }
}

/// The name under which the sender of the login form is logged in, if the
/// password is right.
pub fn login(config: &ConfigObject, data: &LoginData) -> (user_name: Option<String>)
    ensures
        option_view(user_name) == if login_valid_in(
            config.config@.users,
            data.login@,
            data.password@,
        ) {
            Some(data.login@)
        } else {
            None
        },
{
    if config.is_login_data_valid(&data.login, &data.password) {
        Some(data.login.clone())
    } else {
        None
    }
}

/// Whether the one who is logged in, if anybody is, may see a page for
/// administrators.
pub fn admin_access(config: &ConfigObject, user_name: &Option<String>) -> (access: Access)
    ensures
        access == admin_access_for(config.config@.users, option_view(*user_name)),
{
    match user_name {
        None => Access::LoginRequired,
        Some(name) => if config.is_user_admin(name) {
            Access::Granted
        } else {
            Access::Denied
        },
    }
}

/// Whether the one who is logged in may change the password of `username`.
pub fn password_access(config: &ConfigObject, user_name: &Option<String>, username: &String) -> (access:
    Access)
    ensures
        access == password_access_for(config.config@.users, option_view(*user_name), username@),
{
    match user_name {
        None => Access::LoginRequired,
        Some(name) => if !config.is_user_admin(name) && *username != *name {
            Access::Denied
        } else {
            Access::Granted
        },
    }
}

/// Handles a request for a new password: checks who asks, that the password
/// was repeated as it was given, and changes it.
pub fn change_password(
    config: &mut ConfigObject,
    user_name: &Option<String>,
    data: &ChangePasswordData,
) -> (outcome: PasswordChange)
    ensures
        (outcome, final(config).config@.users) == password_change_for(
            old(config).config@.users,
            option_view(*user_name),
            data.login@,
            data.password1@,
            data.password2@,
        ),
        final(config).config@ == (ConfigView {
            users: final(config).config@.users,
            ..old(config).config@
        }),
{
    let is_admin = match user_name {
        None => {
            return PasswordChange::AccessDenied;
        },
        Some(name) => {
            let is_admin = config.is_user_admin(name);
            if !is_admin && data.login != *name {
                return PasswordChange::AccessDenied;
            }
            is_admin
        },
    };
    if data.password1 != data.password2 {
        return PasswordChange::PasswordsDiffer;
    }
    match config.change_user_password(&data.login, &data.password1) {
        Ok(_) => PasswordChange::Changed { by_admin: is_admin },
        Err(_) => PasswordChange::UserNotFound,
    }
}

/// The first mod with the checksum, with the path of its file in the mod
/// storage.
pub fn find_download(config: &ConfigObject, hash: &String) -> (response: Option<
    AssettoModResponse,
>)
    ensures
        match first_mod(config.config@.mods, hash@) {
            Some(i) => response matches Some(r) && r.acmod@ == config.config@.mods[i]
                && r.full_path@ == path_join(
                config.config@.mod_storage_location,
                config.config@.mods[i].filename,
            ),
            None => response is None,
        },
{
    match find_mod(&config.config.mods, hash) {
        Some(i) => Some(
            AssettoModResponse {
                acmod: config.config.mods[i].clone(),
                full_path: crate::paths::join(
                    config.config.mod_storage_location.as_str(),
                    config.config.mods[i].filename.as_str(),
                ),
            },
        ),
        None => None,
    }
}

/// A mod as the page of mods shows it: the size in whole megabytes.
pub open spec fn mod_template_of(acmod: AssettoModView) -> ModTemplateView {
    ModTemplateView {
        checksum_md5: acmod.checksum_md5,
        filename: acmod.filename,
        size_in_megabytes: (acmod.size_in_bytes / 1024 / 1024) as u64,
    }
}

/// A user as the page of users shows it: without the password.
pub open spec fn user_template_of(user: UserView) -> UserTemplateView {
    UserTemplateView { login: user.login, is_admin: user.is_admin }
}

/// The mods as the page of mods shows them.
pub fn mod_templates(mods: &Vec<AssettoMod>) -> (templates: Vec<ModTemplate>)
    ensures
        templates.deep_view() == mods.deep_view().map_values(
            |m: AssettoModView| mod_template_of(m),
        ),
{
    let mut templates: Vec<ModTemplate> = Vec::new();
    let mut i: usize = 0;
    while i < mods.len()
        invariant
            i <= mods.len(),
            templates.len() == i,
            forall|k: int|
                0 <= k < i ==> (#[trigger] templates[k])@ == mod_template_of(mods.deep_view()[k]),
        decreases mods.len() - i,
    {
        templates.push(
            ModTemplate {
                checksum_md5: mods[i].checksum_md5.clone(),
                filename: mods[i].filename.clone(),
                size_in_megabytes: mods[i].size_in_bytes / 1024 / 1024,
            },
        );
        i += 1;
    }
    assert(templates.deep_view() =~= mods.deep_view().map_values(
        |m: AssettoModView| mod_template_of(m),
    ));
    templates
}

/// The mods as the list for programs shows them: as they are.
pub fn json_mod_templates(mods: &Vec<AssettoMod>) -> (templates: Vec<JsonModTemplate>)
    ensures
        templates.deep_view() == mods.deep_view(),
{
    let mut templates: Vec<JsonModTemplate> = Vec::new();
    let mut i: usize = 0;
    while i < mods.len()
        invariant
            i <= mods.len(),
            templates.len() == i,
            forall|k: int| 0 <= k < i ==> (#[trigger] templates[k])@ == mods.deep_view()[k],
        decreases mods.len() - i,
    {
        templates.push(
            JsonModTemplate {
                checksum_md5: mods[i].checksum_md5.clone(),
                filename: mods[i].filename.clone(),
                size_in_bytes: mods[i].size_in_bytes,
            },
        );
        i += 1;
    }
    assert(templates.deep_view() =~= mods.deep_view());
    templates
}

/// The users as the page of users shows them.
pub fn user_templates(users: &Vec<User>) -> (templates: Vec<UserTemplate>)
    ensures
        templates.deep_view() == users.deep_view().map_values(
            |u: UserView| user_template_of(u),
        ),
{
    let mut templates: Vec<UserTemplate> = Vec::new();
    let mut i: usize = 0;
    while i < users.len()
        invariant
            i <= users.len(),
            templates.len() == i,
            forall|k: int|
                0 <= k < i ==> (#[trigger] templates[k])@ == user_template_of(
                    users.deep_view()[k],
                ),
        decreases users.len() - i,
    {
        templates.push(
            UserTemplate { login: users[i].login.clone(), is_admin: users[i].is_admin },
        );
        i += 1;
    }
    assert(templates.deep_view() =~= users.deep_view().map_values(
        |u: UserView| user_template_of(u),
    ));
    templates
}

/// Whether a file of that name is taken as an uploaded archive: its
/// extension is `7z`, `rar` or `zip`.
pub open spec fn is_archive_name(file_name: Seq<char>) -> bool {
    path_extension(file_name) == Some("7z"@) || path_extension(file_name) == Some("rar"@)
        || path_extension(file_name) == Some("zip"@)
}

/// Whether an uploaded file is taken as an archive, by the name it came
/// with. A file that came without a name is not.
pub fn is_accepted_upload(file_name: &Option<String>) -> (accepted: bool)
    ensures
        accepted == match option_view(*file_name) {
            Some(name) => is_archive_name(name),
            None => false,
        },
{
    match file_name {
        None => false,
        Some(name) => match crate::paths::extension(name.as_str()) {
            None => false,
            Some(ext) => {
                crate::common::same_text(ext.as_str(), "7z") || crate::common::same_text(
                    ext.as_str(),
                    "rar",
                ) || crate::common::same_text(ext.as_str(), "zip")
            },
        },
    }
}

} // verus!
