//! How layers stack: a layer's compression, and what each of its entries does
//! to what is there.

use crate::paths::{dir_and_name, file_name, file_name_of, joined, join, split_dir};
use crate::text::{begins, ends_with, finishes, same, strip_prefix, without_prefix};
use vstd::prelude::*;
use vstd::string::*;

verus! {

/// Whether a layer is gzip, by its media type or its first bytes.
pub open spec fn is_gzip(media_type: Seq<char>, magic: Seq<u8>) -> bool {
    finishes(media_type, "gzip"@) || (magic[0] == 0x1f && magic[1] == 0x8b)
}

/// Whether a layer is zstd, by its media type or its first bytes.
pub open spec fn is_zstd(media_type: Seq<char>, magic: Seq<u8>) -> bool {
    finishes(media_type, "zstd"@) || (magic[0] == 0x28 && magic[1] == 0xb5 && magic[2] == 0x2f
        && magic[3] == 0xfd)
}

/// Whether to decompress a layer. zstd is not supported.
pub open spec fn unpacks(media_type: Seq<char>, magic: Seq<u8>, r: Result<bool, String>) -> bool {
    match r {
        Ok(gzip) => !is_zstd(media_type, magic) && gzip == is_gzip(media_type, magic),
        Err(m) => is_zstd(media_type, magic) && m@
            == "zstd-compressed layers are not supported; re-push the image with gzip layers"@,
    }
}

/// Whether to decompress a layer.
pub fn gzip_layer(media_type: &str, magic: &[u8; 4]) -> (r: Result<bool, String>)
    ensures
        unpacks(media_type@, magic@, r),
{
    let gzip = ends_with(media_type, "gzip") || (magic[0] == 0x1f && magic[1] == 0x8b);
    if ends_with(media_type, "zstd") || (magic[0] == 0x28 && magic[1] == 0xb5 && magic[2] == 0x2f
        && magic[3] == 0xfd) {
        return Err(
            "zstd-compressed layers are not supported; re-push the image with gzip layers".to_string(),
        );
    }
    Ok(gzip)
}

/// What an entry of a layer does.
#[derive(Debug, PartialEq, Eq)]
pub enum Entry {
    /// Empties the directory it stands in.
    Opaque,
    /// Deletes this name from the directory it stands in.
    Whiteout(String),
    /// Is unpacked over what is there.
    Content,
}

/// What an entry with this file name does.
pub fn entry_kind(name: &str) -> (r: Entry)
    ensures
        if name@ == ".wh..wh..opq"@ {
            r is Opaque
        } else {
            match without_prefix(name@, ".wh."@) {
                Some(victim) => r matches Entry::Whiteout(v) && v@ == victim,
                None => r is Content,
            }
        },
{
    if same(name, ".wh..wh..opq") {
        return Entry::Opaque;
    }
    match strip_prefix(name, ".wh.") {
        Some(victim) => Entry::Whiteout(victim),
        None => Entry::Content,
    }
}

/// What is at the place an entry is unpacked to.
#[derive(Clone, Copy, Debug, PartialEq, Eq, Structural)]
pub enum There {
    Nothing,
    Dir,
    Symlink,
    Other,
}

/// Whether what is there has to go before an entry is unpacked: a directory
/// turning into something else or the reverse, and any symbolic link.
pub open spec fn in_the_way(there: There, entry_is_dir: bool) -> bool {
    match there {
        There::Nothing => false,
        There::Dir => !entry_is_dir,
        There::Symlink => true,
        There::Other => entry_is_dir,
    }
}

/// Whether what is there has to go before an entry is unpacked.
pub fn must_clear(there: There, entry_is_dir: bool) -> (r: bool)
    ensures
        r == in_the_way(there, entry_is_dir),
{
    match there {
        There::Nothing => false,
        There::Dir => !entry_is_dir,
        There::Symlink => true,
        There::Other => entry_is_dir,
    }
}

/// How to remove what is at a path.
#[derive(Clone, Copy, Debug, PartialEq, Eq, Structural)]
pub enum Removal {
    Nothing,
    Tree,
    File,
}

/// How to remove what is there: a directory with all it holds, anything else
/// (a symbolic link is never followed) as a file.
pub open spec fn removed_as(there: There) -> Removal {
    match there {
        There::Nothing => Removal::Nothing,
        There::Dir => Removal::Tree,
        _ => Removal::File,
    }
}

/// How to remove what is there.
pub fn removal(there: There) -> (r: Removal)
    ensures
        r == removed_as(there),
{
    match there {
        There::Nothing => Removal::Nothing,
        There::Dir => Removal::Tree,
        There::Symlink => Removal::File,
        There::Other => Removal::File,
    }
}

/// What an entry of a layer does to the tree below a directory.
#[derive(Debug, PartialEq, Eq)]
pub enum EntryPlan {
    /// Removes all that is in this directory, where it is one.
    Empty { dir: String },
    /// Removes what is at this path, where something is.
    Remove { path: String },
    /// Is unpacked to this path, over what is there.
    Unpack { path: String },
}

/// The directory that an entry stands in, relative to the top.
pub open spec fn entry_dir(rel: Seq<char>) -> Seq<char> {
    match dir_and_name(rel) {
        Some(x) => x.0,
        None => Seq::empty(),
    }
}

/// The file name of an entry, empty where it has none.
pub open spec fn entry_name(rel: Seq<char>) -> Seq<char> {
    match file_name_of(rel) {
        Some(n) => n,
        None => Seq::empty(),
    }
}

/// Whether `p` is what the entry `rel` does to the tree below `dest`.
pub open spec fn plans_entry(dest: Seq<char>, rel: Seq<char>, p: EntryPlan) -> bool {
    let name = entry_name(rel);
    if name == ".wh..wh..opq"@ {
        p matches EntryPlan::Empty { dir } && dir@ == joined(dest, entry_dir(rel))
    } else {
        match without_prefix(name, ".wh."@) {
            Some(victim) => p matches EntryPlan::Remove { path } && path@ == joined(
                joined(dest, entry_dir(rel)),
                victim,
            ),
            None => p matches EntryPlan::Unpack { path } && path@ == joined(dest, rel),
        }
    }
}

/// What the entry `rel` does to the tree below `dest`.
pub fn entry_plan(dest: &str, rel: &str) -> (p: EntryPlan)
    ensures
        plans_entry(dest@, rel@, p),
{
    let name = match file_name(rel) {
        Some(n) => n,
        None => String::new(),
    };
    let dir = match split_dir(rel) {
        Some(x) => x.0,
        None => String::new(),
    };
    match entry_kind(name.as_str()) {
        Entry::Opaque => EntryPlan::Empty { dir: join(dest, dir.as_str()) },
        Entry::Whiteout(victim) => EntryPlan::Remove {
            path: join(join(dest, dir.as_str()).as_str(), victim.as_str()),
        },
        Entry::Content => EntryPlan::Unpack { path: join(dest, rel) },
    }
}

/// **Law.** A whiteout is an instruction, never content: nothing under its name
/// is ever unpacked, and everything else is.
pub proof fn law_whiteouts_are_not_unpacked(dest: Seq<char>, rel: Seq<char>, p: EntryPlan)
    requires
        plans_entry(dest, rel, p),
    ensures
        p is Unpack <==> !begins(entry_name(rel), ".wh."@),
{
    reveal_strlit(".wh..wh..opq");
    reveal_strlit(".wh.");
    if entry_name(rel) == ".wh..wh..opq"@ {
        assert(entry_name(rel).subrange(0, 4) =~= ".wh."@);
    }
}

/// **Law.** A symbolic link is never followed: what stands in the way of an entry
/// is removed first, a link always, and the link itself. A directory stays under
/// a directory and a file under a file.
pub proof fn law_links_are_not_followed(there: There, entry_is_dir: bool)
    ensures
        there is Symlink ==> in_the_way(there, entry_is_dir) && removed_as(there) is File,
        there is Nothing ==> !in_the_way(there, entry_is_dir) && removed_as(there) is Nothing,
        there is Dir ==> (in_the_way(there, entry_is_dir) <==> !entry_is_dir),
        there is Other ==> (in_the_way(there, entry_is_dir) <==> entry_is_dir),
        removed_as(there) is Tree <==> there is Dir,
        in_the_way(there, entry_is_dir) ==> !(removed_as(there) is Nothing),
{
}

/// **Law.** A layer is decompressed where either its media type or its first
/// bytes say gzip, and refused where either says zstd, even beside gzip.
pub proof fn law_what_a_layer_says_of_itself_counts(
    media_type: Seq<char>,
    magic: Seq<u8>,
    r: Result<bool, String>,
)
    requires
        magic.len() == 4,
        unpacks(media_type, magic, r),
    ensures
        finishes(media_type, "zstd"@) ==> r is Err,
        magic == seq![0x28u8, 0xb5, 0x2f, 0xfd] ==> r is Err,
        r is Err ==> finishes(media_type, "zstd"@) || magic == seq![0x28u8, 0xb5, 0x2f, 0xfd],
        r is Ok && finishes(media_type, "gzip"@) ==> r->Ok_0,
        r is Ok && magic.subrange(0, 2) == seq![0x1fu8, 0x8b] ==> r->Ok_0,
        r is Ok && r->Ok_0 ==> finishes(media_type, "gzip"@) || magic.subrange(0, 2) == seq![
            0x1fu8,
            0x8b,
        ],
{
    let z = seq![0x28u8, 0xb5, 0x2f, 0xfd];
    assert(z[0] == 0x28 && z[1] == 0xb5 && z[2] == 0x2f && z[3] == 0xfd);
    if magic[0] == 0x28 && magic[1] == 0xb5 && magic[2] == 0x2f && magic[3] == 0xfd {
        assert(magic =~= z);
    }
    let g = seq![0x1fu8, 0x8b];
    assert(g[0] == 0x1f && g[1] == 0x8b);
    let m = magic.subrange(0, 2);
    assert(m[0] == magic[0] && m[1] == magic[1]);
    if magic[0] == 0x1f && magic[1] == 0x8b {
        assert(m =~= g);
    }
}

/// **Law.** What a whiteout removes stands in the directory that it stands in,
/// under its name without the mark; an opaque one empties that directory and
/// leaves it there; content goes to its own path.
pub proof fn law_a_whiteout_removes_its_namesake(dest: Seq<char>, rel: Seq<char>, p: EntryPlan)
    requires
        plans_entry(dest, rel, p),
    ensures
        p matches EntryPlan::Remove { path } ==> exists|victim: Seq<char>|
            entry_name(rel) == ".wh."@ + victim && path@ == #[trigger] joined(
                joined(dest, entry_dir(rel)),
                victim,
            ),
        p is Empty <==> entry_name(rel) == ".wh."@ + ".wh..opq"@,
        p matches EntryPlan::Empty { dir } ==> dir@ == joined(dest, entry_dir(rel)),
        p matches EntryPlan::Unpack { path } ==> path@ == joined(dest, rel),
        p is Remove <==> begins(entry_name(rel), ".wh."@) && !(p is Empty),
{
    reveal_strlit(".wh..wh..opq");
    reveal_strlit(".wh.");
    reveal_strlit(".wh..opq");
    assert(".wh."@ + ".wh..opq"@ =~= ".wh..wh..opq"@);
    if entry_name(rel) == ".wh..wh..opq"@ {
        assert(entry_name(rel).subrange(0, 4) =~= ".wh."@);
    }
    if p is Remove {
        let name = entry_name(rel);
        let victim = without_prefix(name, ".wh."@)->0;
        assert(name =~= ".wh."@ + victim);
        assert(p->Remove_path@ == joined(joined(dest, entry_dir(rel)), victim));
    }
}

} // verus!
