//! The on-disk layout: the database directory and the five download-count
//! buckets.  Creating the directories is the embedding application's work.
use vstd::prelude::*;

verus! {

#[derive(Debug, Clone, Copy, PartialEq, Eq, Structural)]
pub enum InitAppFolderStructureError {
    Io,
}

/// The name of the database directory under the working directory.
pub fn db_dir_name() -> (s: String)
    ensures
        s@ == "DB"@,
{
    let s = "DB";
    s.to_owned()
}

/// The five bucket directory names, one per download-count policy.
pub fn download_count_buckets() -> (v: Vec<String>)
    ensures
        v@.len() == 5,
        v@[0]@ == "1"@,
        v@[1]@ == "5"@,
        v@[2]@ == "10"@,
        v@[3]@ == "100"@,
        v@[4]@ == "infinite"@,
{
    let mut v: Vec<String> = Vec::new();
    v.push({
        let s = "1";
        s.to_owned()
    });
    v.push({
        let s = "5";
        s.to_owned()
    });
    v.push({
        let s = "10";
        s.to_owned()
    });
    v.push({
        let s = "100";
        s.to_owned()
    });
    v.push({
        let s = "infinite";
        s.to_owned()
    });
    v
}

} // verus!
