//! Names and places: the configuration file, the two local folders and the
//! layout of the remote account.

use crate::config::{Config, ConfigView};
use vstd::prelude::*;

verus! {

/// Name of the configuration file, looked for in the working directory.
pub const CONFIG_FILE_NAME: &'static str = "st-config.txt";

/// Local folder whose files are sent.
pub const UPLOAD_DIR: &'static str = "To Upload";

/// Local folder that receives what is fetched.
pub const DOWNLOAD_DIR: &'static str = "Downloaded";

/// Permissions asked for a remote folder that is created.
pub const DIR_MODE: i32 = 0o777;

/// The path of `name` in the folder `dir`.
pub open spec fn under(dir: Seq<char>, name: Seq<char>) -> Seq<char> {
    dir + seq!['/'] + name
}

/// The scratch folder that all users share: `<root>/<temp>/`.
pub open spec fn shared_path(c: ConfigView) -> Seq<char> {
    c.root_folder_name + seq!['/'] + c.temp_folder_name + seq!['/']
}

/// The scratch folder of one user: `<root>/<temp>/<user>`.
pub open spec fn user_path(c: ConfigView, user: Seq<char>) -> Seq<char> {
    shared_path(c) + user
}

/// Joins a folder and a name with a slash.
pub fn join(dir: &str, name: &str) -> (r: String)
    ensures
        r@ == under(dir@, name@),
{
    proof {
        reveal_strlit("/");
    }
    assert("/"@ =~= seq!['/']);
    String::from_str(dir).concat("/").concat(name)
}

/// The scratch folder that all users share.
pub fn shared_dir(config: &Config) -> (r: String)
    ensures
        r@ == shared_path(config@),
{
    proof {
        reveal_strlit("/");
    }
    assert("/"@ =~= seq!['/']);
    String::from_str(config.root_folder_name.as_str()).concat("/").concat(
        config.temp_folder_name.as_str(),
    ).concat("/")
}

/// The scratch folder of the user `username`.
pub fn user_dir(config: &Config, username: &str) -> (r: String)
    ensures
        r@ == user_path(config@, username@),
{
    shared_dir(config).concat(username)
}

/// The local path that receives the remote file `name`.
pub fn download_file(name: &str) -> (r: String)
    ensures
        r@ == under(DOWNLOAD_DIR@, name@),
{
    join(DOWNLOAD_DIR, name)
}

} // verus!
