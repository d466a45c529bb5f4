//! Loader-artifact bookkeeping: picking the loader archive out of a
//! release's asset list, and the fixed filesystem locations the
//! loader lives at.  Downloading and filesystem checks stay with the
//! surrounding program; this module only decides and derives.

use vstd::prelude::*;
use crate::text::{lower_code, lower_code_of};

verus! {

/// One asset of a release feed: its file name and its download
/// address.
pub struct ReleaseAsset {
    pub name: String,
    pub url: String,
}

/// The name ends in a `jar` extension, ASCII case-insensitively: a
/// dot after at least one leading character, with exactly the three
/// extension letters behind it.
pub open spec fn has_jar_extension(name: Seq<char>) -> bool {
    name.len() >= 5 && name[name.len() - 4] == '.' && lower_code(name[name.len() - 3])
        == 'j' as int && lower_code(name[name.len() - 2]) == 'a' as int && lower_code(
        name[name.len() - 1],
    ) == 'r' as int
}

/// Whether a file name carries the `jar` extension.
pub fn is_jar_name(name: &str) -> (r: bool)
    ensures
        r == has_jar_extension(name@),
{
    let len: usize = name.unicode_len();
    if len < 5 {
        return false;
    }
    if name.get_char(len - 4) != '.' {
        return false;
    }
    let l1 = lower_code_of(name.get_char(len - 3));
    let l2 = lower_code_of(name.get_char(len - 2));
    let l3 = lower_code_of(name.get_char(len - 1));
    l1 == 106 && l2 == 97 && l3 == 114
}

/// The download address of the first asset whose name carries the
/// `jar` extension, if the release has one.
pub fn find_jar_asset(assets: &Vec<ReleaseAsset>) -> (r: Option<String>)
    ensures
        match r {
            Some(u) => exists|i: int|
                0 <= i < assets@.len() && has_jar_extension(#[trigger] assets@[i].name@) && u@
                    == assets@[i].url@ && (forall|j: int|
                    0 <= j < i ==> !has_jar_extension(#[trigger] assets@[j].name@)),
            None => forall|i: int|
                0 <= i < assets@.len() ==> !has_jar_extension(#[trigger] assets@[i].name@),
        },
{
    let mut i: usize = 0;
    while i < assets.len()
        invariant
            i <= assets.len(),
            forall|j: int| 0 <= j < i ==> !has_jar_extension(#[trigger] assets@[j].name@),
        decreases assets.len() - i,
    {
        if is_jar_name(assets[i].name.as_str()) {
            return Some(assets[i].url.clone());
        }
        i = i + 1;
    }
    None
}

/// The loader's directory under a user's home directory.
pub fn weave_dir_path(home: &str) -> (r: String)
    ensures
        r@ == home@ + "/.weave"@,
{
    home.to_owned().concat("/.weave")
}

/// The loader archive's path under a user's home directory.
pub fn weave_loader_path(home: &str) -> (r: String)
    ensures
        r@ == home@ + "/.weave/loader.jar"@,
{
    home.to_owned().concat("/.weave/loader.jar")
}

} // verus!
