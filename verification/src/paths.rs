//! Paths of files and directories, as Linux and macOS write them.

use vstd::prelude::*;
use vstd::string::*;

use crate::text;

verus! {

/// The directory with the directories of the accounts, in that with the proxy's data.
pub const ACCOUNTS_DIR_NAME: &'static str = "accounts";

/// The path of what a directory holds under a name. A name that is a path from the root stands for
/// itself.
pub open spec fn joined(dir: Seq<char>, name: Seq<char>) -> Seq<char> {
    if name.len() > 0 && name[0] == '/' {
        name
    } else if dir.len() == 0 || dir.last() == '/' {
        dir + name
    } else {
        dir + "/"@ + name
    }
}

/// The path of what a directory holds under a name.
pub fn join(dir: &str, name: &str) -> (path: String)
    ensures
        path@ == joined(dir@, name@),
{
    let names = text::chars_of(name);
    if names.len() > 0 && names[0] == '/' {
        return name.to_string();
    }
    let dirs = text::chars_of(dir);
    if dirs.len() == 0 || dirs[dirs.len() - 1] == '/' {
        dir.to_string().concat(name)
    } else {
        dir.to_string().concat("/").concat(name)
    }
}

/// The directory of an account, in that with the proxy's data.
pub open spec fn account_home(data_dir: Seq<char>, account_id: Seq<char>) -> Seq<char> {
    joined(joined(data_dir, ACCOUNTS_DIR_NAME@), account_id)
}

/// The directory of an account, in that with the proxy's data.
pub fn account_home_in(data_dir: &str, account_id: &str) -> (home: String)
    ensures
        home@ == account_home(data_dir@, account_id@),
{
    join(join(data_dir, ACCOUNTS_DIR_NAME).as_str(), account_id)
}

/// The directory of an account is named by its id, in `accounts` in the directory with the data.
pub proof fn law_account_home(data_dir: Seq<char>, account_id: Seq<char>)
    requires
        data_dir.len() > 0,
        data_dir.last() != '/',
        account_id.len() > 0 ==> account_id[0] != '/',
    ensures
        account_home(data_dir, account_id) == data_dir + "/"@ + "accounts"@ + "/"@ + account_id,
{
    reveal_strlit("accounts");
    assert("accounts"@.last() == 's');
    assert(joined(data_dir, "accounts"@).last() == 's');
}

/// Accounts with different ids have different directories.
pub proof fn law_account_homes_differ(data_dir: Seq<char>, a: Seq<char>, b: Seq<char>)
    requires
        a.len() > 0 ==> a[0] != '/',
        b.len() > 0 ==> b[0] != '/',
        a != b,
    ensures
        account_home(data_dir, a) != account_home(data_dir, b),
{
    reveal_strlit("accounts");
    let dir = joined(data_dir, "accounts"@);
    assert(dir.len() > 0);
    assert(dir.last() == 's');
    let base = dir + "/"@;
    assert((base + a).skip(base.len() as int) =~= a);
    assert((base + b).skip(base.len() as int) =~= b);
}

/// A name joined to a directory stands below it, with one slash between them, but for a name that begins
/// with a slash, which stands for itself.
pub proof fn law_joined_path(dir: Seq<char>, name: Seq<char>)
    ensures
        name.len() > 0 && name[0] == '/' ==> joined(dir, name) == name,
        !(name.len() > 0 && name[0] == '/') ==> dir.is_prefix_of(joined(dir, name))
            && name.is_suffix_of(joined(dir, name)),
        !(name.len() > 0 && name[0] == '/') && dir.len() > 0 && dir.last() != '/' ==> joined(
            dir,
            name,
        ) == dir + "/"@ + name,
        !(name.len() > 0 && name[0] == '/') && (dir.len() == 0 || dir.last() == '/') ==> joined(
            dir,
            name,
        ) == dir + name,
{
    let path = joined(dir, name);
    if !(name.len() > 0 && name[0] == '/') {
        assert(path.take(dir.len() as int) =~= dir);
        assert(path.skip(path.len() - name.len()) =~= name);
    }
}

} // verus!
