//! How a guest names its files for the host: a directory that the guest
//! has mounted from the host is named, for the host, by the host's own path.

use crate::text::{
    cutoff_prefix, replace_char, replaced, same_text, split, split_seq, starts_with, texts,
    without_prefix,
};
use vstd::prelude::*;
use vstd::string::*;

verus! {

/// The number of seconds between two attempts of the command client to
/// reach the server.
pub const RETRY_SECS: u64 = 5;

/// The name of the file in the home directory that lists the mounts.
pub const MOUNT_LIST_FILE: &'static str = ".mount_list.json";

/// One directory of the host that is mounted on the guest.
#[derive(Debug, Clone, PartialEq, Eq)]
pub struct MountEntry {
    pub end_point: String,
    /// Where the directory is mounted on the guest.
    pub mount_point: String,
    /// The directory's path on the host.
    pub remote_path: String,
}

#[derive(Debug, Clone, PartialEq, Eq)]
pub struct MountList {
    pub mount_list: Vec<MountEntry>,
}

/// `s` with `home` in place of every `~`, if `s` starts with `~`; else `s`.
pub open spec fn tilde_expanded(s: Seq<char>, home: Seq<char>) -> Seq<char> {
    if s.len() > 0 && s[0] == '~' {
        replaced(s, '~', home)
    } else {
        s
    }
}

/// The host's path for the guest's `path` under the mount `mount_point`
/// of the host's directory `remote_path`: the part of `path` behind the
/// mount point, with `\` for `/`, behind `remote_path` and a `\`.
pub open spec fn remote_path_text(
    remote_path: Seq<char>,
    mount_point: Seq<char>,
    path: Seq<char>,
) -> Seq<char> {
    remote_path + seq!['\\'] + replaced(without_prefix(path, mount_point), '/', seq!['\\'])
}

/// Whether the path `dir` is `base` or lies below it, for two absolute paths
/// without `.`, `..`, doubled or trailing separators.
pub open spec fn is_under(dir: Seq<char>, base: Seq<char>) -> bool {
    dir == base || (base + seq!['/']).is_prefix_of(dir) || (base == seq!['/'] && base.is_prefix_of(
        dir,
    ))
}

/// Expands the home directory in `s`: where `s` starts with `~`, every `~`
/// in it becomes `home`.
pub fn expand_tilde(s: &str, home: &str) -> (out: String)
    ensures
        out@ == tilde_expanded(s@, home@),
{
    proof {
        reveal_strlit("~");
        assert("~"@ =~= seq!['~']);
        assert(seq!['~'].is_prefix_of(s@) <==> s@.len() > 0 && s@[0] == '~') by {
            if s@.len() > 0 && s@[0] == '~' {
                assert(s@.subrange(0, 1) =~= seq!['~']);
            }
            if seq!['~'].is_prefix_of(s@) {
                assert(s@.subrange(0, 1)[0] == '~');
            }
        }
    }
    if starts_with(s, "~") {
        replace_char(s, '~', home)
    } else {
        s.to_owned()
    }
}

/// The path of the mount list in the home directory `home`.
pub fn mount_list_path(home: &str) -> (path: String)
    ensures
        path@ == home@ + seq!['/'] + MOUNT_LIST_FILE@,
{
    let mut path = home.to_owned();
    proof {
        reveal_strlit("/");
        assert("/"@ =~= seq!['/']);
    }
    path.append("/");
    path.append(MOUNT_LIST_FILE);
    path
}

/// Whether the path `dir` is `base` or lies below it.
pub fn path_is_under(dir: &str, base: &str) -> (under: bool)
    ensures
        under == is_under(dir@, base@),
{
    proof {
        reveal_strlit("/");
        assert("/"@ =~= seq!['/']);
    }
    if same_text(dir, base) {
        return true;
    }
    let mut with_separator = base.to_owned();
    with_separator.append("/");
    if starts_with(dir, with_separator.as_str()) {
        return true;
    }
    same_text(base, "/") && starts_with(dir, base)
}

/// Whether `at` is the first of `bases` under which `dir` lies; `None`
/// says that it lies under none.
pub open spec fn is_first_under(dir: Seq<char>, bases: Seq<Seq<char>>, at: Option<usize>) -> bool {
    match at {
        Some(at) => at < bases.len() && is_under(dir, bases[at as int]) && forall|j: int|
            0 <= j < at ==> !is_under(dir, #[trigger] bases[j]),
        None => forall|j: int| 0 <= j < bases.len() ==> !is_under(dir, #[trigger] bases[j]),
    }
}

/// The place of the first of `bases` under which the path `dir` lies.
pub fn first_mount_under(dir: &str, bases: &Vec<String>) -> (at: Option<usize>)
    ensures
        is_first_under(dir@, texts(bases@), at),
{
    let mut i: usize = 0;
    while i < bases.len()
        invariant
            i <= bases.len(),
            forall|j: int| 0 <= j < i ==> !is_under(dir@, #[trigger] texts(bases@)[j]),
        decreases bases.len() - i,
    {
        assert(texts(bases@)[i as int] == bases@[i as int]@);
        if path_is_under(dir, bases[i].as_str()) {
            return Some(i);
        }
        i += 1;
    }
    None
}

impl MountEntry {
    /// The host's path for `path`, which lies under this mount.
    pub fn remote_path_for(&self, path: &str) -> (remote: String)
        ensures
            remote@ == remote_path_text(self.remote_path@, self.mount_point@, path@),
    {
        let below = cutoff_prefix(path, self.mount_point.as_str());
        proof {
            reveal_strlit("\\");
            assert("\\"@ =~= seq!['\\']);
        }
        let below = replace_char(below.as_str(), '/', "\\");
        let mut remote = self.remote_path.clone();
        remote.append("\\");
        remote.append(below.as_str());
        remote
    }
}

impl MountList {
    /// Expands the home directory in every mount point, as `expand_tilde`
    /// does, and leaves everything else as it is.
    pub fn expand_home(self, home: &str) -> (expanded: MountList)
        ensures
            expanded.mount_list@.len() == self.mount_list@.len(),
            forall|i: int|
                0 <= i < self.mount_list@.len() ==> {
                    &&& (#[trigger] expanded.mount_list@[i]).end_point
                        == self.mount_list@[i].end_point
                    &&& expanded.mount_list@[i].remote_path == self.mount_list@[i].remote_path
                    &&& expanded.mount_list@[i].mount_point@ == tilde_expanded(
                        self.mount_list@[i].mount_point@,
                        home@,
                    )
                },
    {
        let mut entries: Vec<MountEntry> = Vec::new();
        let mut i: usize = 0;
        while i < self.mount_list.len()
            invariant
                i <= self.mount_list.len(),
                entries@.len() == i,
                forall|k: int|
                    0 <= k < i ==> {
                        &&& (#[trigger] entries@[k]).end_point == self.mount_list@[k].end_point
                        &&& entries@[k].remote_path == self.mount_list@[k].remote_path
                        &&& entries@[k].mount_point@ == tilde_expanded(
                            self.mount_list@[k].mount_point@,
                            home@,
                        )
                    },
            decreases self.mount_list.len() - i,
        {
            let entry = &self.mount_list[i];
            entries.push(
                MountEntry {
                    end_point: entry.end_point.clone(),
                    mount_point: expand_tilde(entry.mount_point.as_str(), home),
                    remote_path: entry.remote_path.clone(),
                },
            );
            i += 1;
        }
        MountList { mount_list: entries }
    }
}

/// The file system type of a share of the host.
pub const CIFS: &'static str = "cifs";

/// What the lines of a mount table say of `dir`, read from the top. A line
/// of a single word ends the table. Every other line names the mount point
/// as its third word and the file system type as its fifth; a line too
/// short for that makes the table unreadable, which is `None`. `dir` is
/// found where a `cifs` mount point starts it.
pub open spec fn cifs_scan(dir: Seq<char>, lines: Seq<Seq<char>>) -> Option<bool>
    decreases lines.len(),
{
    if lines.len() == 0 {
        Some(false)
    } else {
        let words = split_seq(lines[0], ' ');
        if words.len() == 1 {
            Some(false)
        } else if words.len() < 5 {
            None
        } else if words[4] == CIFS@ && words[2].is_prefix_of(dir) {
            Some(true)
        } else {
            cifs_scan(dir, lines.skip(1))
        }
    }
}

/// Whether `dir` lies on a share of the host, going by `mount_output`,
/// which is what `mount` printed.
pub fn is_sub_of_cifs_dir(dir: &str, mount_output: &str) -> (found: Option<bool>)
    ensures
        found == cifs_scan(dir@, split_seq(mount_output@, '\n')),
{
    let lines = split(mount_output, '\n');
    let ghost all = texts(lines@);
    let mut i: usize = 0;
    assert(all.skip(0) == all);
    while i < lines.len()
        invariant
            i <= lines.len(),
            all == texts(lines@),
            all == split_seq(mount_output@, '\n'),
            cifs_scan(dir@, all.skip(i as int)) == cifs_scan(dir@, all),
        decreases lines.len() - i,
    {
        let words = split(lines[i].as_str(), ' ');
        proof {
            assert(all.skip(i as int)[0] == lines@[i as int]@);
            assert(all.skip(i as int).skip(1) == all.skip(i + 1));
            assert(texts(words@).len() == words@.len());
        }
        if words.len() == 1 {
            return Some(false);
        }
        if words.len() < 5 {
            return None;
        }
        proof {
            assert(texts(words@)[4] == words@[4]@);
            assert(texts(words@)[2] == words@[2]@);
        }
        if same_text(words[4].as_str(), CIFS) && starts_with(dir, words[2].as_str()) {
            return Some(true);
        }
        i += 1;
    }
    Some(false)
}

} // verus!
