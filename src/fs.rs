use vstd::prelude::*;
use vstd::string::{StrSliceExecFns, StringExecFns};
use crate::dir::{DirEntry, entry_name, spec_join, trim_nul, trim_nul_str};
use crate::error::Error;
use crate::path::{spec_cstring, to_cstring};

verus! {

/// The index of the last slash in `s`, or -1 when it holds none.
pub open spec fn last_slash(s: Seq<char>) -> int
    decreases s.len(),
{
    if s.len() == 0 {
        -1
    } else if s.last() == '/' {
        s.len() - 1
    } else {
        last_slash(s.drop_last())
    }
}

proof fn lemma_last_slash_bounds(s: Seq<char>)
    ensures
        -1 <= last_slash(s) < s.len(),
    decreases s.len(),
{
    if s.len() > 0 && s.last() != '/' {
        lemma_last_slash_bounds(s.drop_last());
    }
}

/// A path split into the directory that holds it and its final name: the
/// part before the last slash (the root for a path right under it, empty
/// for a bare name) and the part after it. `None` when that name is empty.
pub open spec fn spec_split_parent(s: Seq<char>) -> Option<(Seq<char>, Seq<char>)> {
    let i = last_slash(s);
    let name = s.subrange(i + 1, s.len() as int);
    if name.len() == 0 {
        None
    } else if i < 0 {
        Some((Seq::<char>::empty(), name))
    } else if i == 0 {
        Some((seq!['/'], name))
    } else {
        Some((s.subrange(0, i), name))
    }
}

/// Splits `path` into its parent directory and final name; a path whose
/// final name is empty has no parent to look in and is an invalid argument.
pub fn split_parent(path: &str) -> (r: Result<(String, String), Error>)
    ensures
        match spec_split_parent(path@) {
            Some((p, n)) => r is Ok && r->Ok_0.0@ == p && r->Ok_0.1@ == n,
            None => r == Err::<(String, String), Error>(Error::InvalidArgument),
        },
{
    let n = path.unicode_len();
    let mut j: usize = n;
    proof {
        assert(path@.subrange(0, n as int) =~= path@);
    }
    while j > 0 && path.get_char(j - 1) != '/'
        invariant
            j <= n,
            n == path@.len(),
            last_slash(path@) == last_slash(path@.subrange(0, j as int)),
        decreases j,
    {
        assert(path@.subrange(0, j as int).drop_last() =~= path@.subrange(0, j - 1));
        j = j - 1;
    }
    proof {
        lemma_last_slash_bounds(path@);
        assert(last_slash(path@) == j - 1);
    }
    if j == n {
        return Err(Error::InvalidArgument);
    }
    let name = String::from_str(path.substring_char(j, n));
    if j == 0 {
        return Ok((String::new(), name));
    }
    if j == 1 {
        proof {
            reveal_strlit("/");
        }
        return Ok((String::from_str("/"), name));
    }
    let parent = String::from_str(path.substring_char(0, j - 1));
    Ok((parent, name))
}

/// Which of the engine's rename primitives a source needs.
#[derive(Clone, Copy, Debug, PartialEq, Eq, Structural)]
pub enum RenameKind {
    Directory,
    File,
}

/// The first entry of a listing whose name is `name`.
pub open spec fn spec_find_entry(es: Seq<DirEntry>, name: Seq<char>) -> Option<DirEntry>
    decreases es.len(),
{
    if es.len() == 0 {
        None
    } else if entry_name(es[0]) == name {
        Some(es[0])
    } else {
        spec_find_entry(es.drop_first(), name)
    }
}

/// How a source called `name` is renamed, given its parent's listing: as a
/// directory when the first entry of that name is one, as a file when it is
/// anything else, and not at all (`NoEntry`) when no entry has that name.
/// NUL padding around `name` is ignored.
pub open spec fn spec_rename_kind(es: Seq<DirEntry>, name: Seq<char>) -> Result<RenameKind, Error> {
    match spec_find_entry(es, trim_nul(name)) {
        None => Err(Error::NoEntry),
        Some(e) => if e.spec_type() == 2 {
            Ok(RenameKind::Directory)
        } else {
            Ok(RenameKind::File)
        },
    }
}

/// Looks `name` up in its parent's listing and picks the rename primitive.
pub fn rename_kind(entries: &Vec<DirEntry>, name: &str) -> (r: Result<RenameKind, Error>)
    ensures
        r == spec_rename_kind(entries@, name@),
{
    let target = String::from_str(trim_nul_str(name));
    let mut i: usize = 0;
    proof {
        assert(entries@.subrange(0, entries@.len() as int) =~= entries@);
    }
    while i < entries.len()
        invariant
            i <= entries@.len(),
            target@ == trim_nul(name@),
            spec_find_entry(entries@, target@) == spec_find_entry(
                entries@.subrange(i as int, entries@.len() as int),
                target@,
            ),
        decreases entries@.len() - i,
    {
        let e = &entries[i];
        let en = String::from_str(e.name());
        assert(entries@.subrange(i as int, entries@.len() as int)[0] == entries@[i as int]);
        if en == target {
            if e.file_type().is_dir() {
                return Ok(RenameKind::Directory);
            } else {
                return Ok(RenameKind::File);
            }
        }
        assert(entries@.subrange(i as int, entries@.len() as int).drop_first() =~= entries@.subrange(
            i + 1,
            entries@.len() as int,
        ));
        i = i + 1;
    }
    Err(Error::NoEntry)
}

/// The engine call a rename comes down to: the primitive, and the source and
/// target paths in the engine's NUL-terminated form.
pub struct RenameCall {
    pub kind: RenameKind,
    pub from: Vec<u8>,
    pub to: Vec<u8>,
}

/// Prepares `rename(from, to)` from the listing of `from`'s parent
/// directory. A source with no final name is an invalid argument; one that
/// the listing does not hold is `NoEntry`; otherwise the primitive follows
/// the type of the entry found.
pub fn rename_call(from: &str, to: &str, parent_listing: &Vec<DirEntry>) -> (r: Result<RenameCall, Error>)
    ensures
        match spec_split_parent(from@) {
            None => r matches Err(e) && e == Error::InvalidArgument,
            Some((parent, name)) => match spec_rename_kind(parent_listing@, name) {
                Err(e) => r matches Err(e2) && e2 == e,
                Ok(k) => r matches Ok(c) && c.kind == k && (exists|s: Seq<u8>|
                    c.from@ == spec_cstring(s)) && (exists|s: Seq<u8>| c.to@ == spec_cstring(s)),
            },
        },
{
    let (_parent, name) = match split_parent(from) {
        Ok(pn) => pn,
        Err(e) => {
            return Err(e);
        },
    };
    let kind = match rename_kind(parent_listing, name.as_str()) {
        Ok(k) => k,
        Err(e) => {
            return Err(e);
        },
    };
    Ok(RenameCall { kind, from: to_cstring(from), to: to_cstring(to) })
}

/// What a recursive removal does with one entry of a listing.
#[derive(Debug)]
pub enum Removal {
    /// Remove the directory at this path with all it holds: take these
    /// steps for its own listing, then remove the directory, now empty.
    Recurse(String),
    /// Remove the file at this path.
    RemoveFile(String),
}

/// The entries `.` and `..`, which name the listed directory and its parent.
pub open spec fn is_dot_entry(name: Seq<char>) -> bool {
    name == seq!['.'] || name == seq!['.', '.']
}

/// The step a recursive removal takes for `e`: a directory is removed with
/// all it holds (`Recurse`: emptied in turn, then removed itself), anything
/// else is removed as a file; `.` and `..` are passed over,
/// since descending into them would never end.
pub fn removal_for(e: &DirEntry) -> (r: Option<Removal>)
    ensures
        is_dot_entry(entry_name(*e)) ==> r is None,
        !is_dot_entry(entry_name(*e)) ==> match r {
            Some(Removal::Recurse(p)) => e.spec_type() == 2 && p@ == spec_join(
                e.spec_parent(),
                entry_name(*e),
            ),
            Some(Removal::RemoveFile(p)) => e.spec_type() != 2 && p@ == spec_join(
                e.spec_parent(),
                entry_name(*e),
            ),
            None => false,
        },
{
    let name = e.name();
    let n = name.unicode_len();
    if n == 1 && name.get_char(0) == '.' {
        assert(name@ =~= seq!['.']);
        return None;
    }
    if n == 2 && name.get_char(0) == '.' && name.get_char(1) == '.' {
        assert(name@ =~= seq!['.', '.']);
        return None;
    }
    let path = e.path();
    if e.file_type().is_dir() {
        Some(Removal::Recurse(path))
    } else {
        Some(Removal::RemoveFile(path))
    }
}

/// A removal step as plain values: whether it removes a whole directory
/// (emptying it first), and the path.
pub open spec fn removal_view(r: Removal) -> (bool, Seq<char>) {
    match r {
        Removal::Recurse(p) => (true, p@),
        Removal::RemoveFile(p) => (false, p@),
    }
}

/// The step for one entry as plain values, `None` for `.` and `..`.
pub open spec fn spec_removal(e: DirEntry) -> Option<(bool, Seq<char>)> {
    if is_dot_entry(entry_name(e)) {
        None
    } else {
        Some((e.spec_type() == 2, spec_join(e.spec_parent(), entry_name(e))))
    }
}

/// The steps for a whole listing, in its order.
pub open spec fn spec_removal_plan(es: Seq<DirEntry>) -> Seq<(bool, Seq<char>)>
    decreases es.len(),
{
    if es.len() == 0 {
        Seq::empty()
    } else {
        let rest = spec_removal_plan(es.drop_last());
        match spec_removal(es.last()) {
            Some(step) => rest.push(step),
            None => rest,
        }
    }
}

/// The steps that empty a directory, given its listing: each subdirectory
/// is emptied in turn and then removed, and every other entry is removed as
/// a file. The listed directory itself is left for the caller to remove. Nothing here is
/// transactional: a failure part way leaves the rest in place.
pub fn removal_plan(entries: &Vec<DirEntry>) -> (r: Vec<Removal>)
    ensures
        r@.map_values(|x: Removal| removal_view(x)) == spec_removal_plan(entries@),
{
    let mut plan: Vec<Removal> = Vec::new();
    let mut i: usize = 0;
    while i < entries.len()
        invariant
            i <= entries@.len(),
            plan@.map_values(|x: Removal| removal_view(x)) == spec_removal_plan(
                entries@.subrange(0, i as int),
            ),
        decreases entries@.len() - i,
    {
        let ghost prefix = entries@.subrange(0, i + 1);
        assert(prefix.drop_last() =~= entries@.subrange(0, i as int));
        assert(prefix.last() == entries@[i as int]);
        let step = removal_for(&entries[i]);
        let ghost before = plan@;
        match step {
            Some(st) => {
                plan.push(st);
                assert(plan@.map_values(|x: Removal| removal_view(x)) =~= before.map_values(
                    |x: Removal| removal_view(x),
                ).push(spec_removal(entries@[i as int])->Some_0));
            },
            None => {},
        }
        i = i + 1;
    }
    assert(entries@.subrange(0, entries@.len() as int) =~= entries@);
    plan
}

/// The engine's seek origin measured from the start of a file.
pub const SEEK_SET: u32 = 0;

/// The engine's seek origin measured from the current position.
pub const SEEK_CUR: u32 = 1;

/// The engine's seek origin measured from the end of a file.
pub const SEEK_END: u32 = 2;

/// A seek target: an offset from the start, the end, or the current position.
#[derive(Clone, Copy, Debug, PartialEq, Eq, Structural)]
pub enum SeekFrom {
    Start(u64),
    End(i64),
    Current(i64),
}

/// The engine's origin and signed offset for a seek. An offset from the
/// start beyond the signed range is an invalid argument.
pub fn seek_args(pos: SeekFrom) -> (r: Result<(u32, i64), Error>)
    ensures
        match pos {
            SeekFrom::Start(o) => if o <= i64::MAX {
                r == Ok::<(u32, i64), Error>((SEEK_SET, o as i64))
            } else {
                r == Err::<(u32, i64), Error>(Error::InvalidArgument)
            },
            SeekFrom::End(o) => r == Ok::<(u32, i64), Error>((SEEK_END, o)),
            SeekFrom::Current(o) => r == Ok::<(u32, i64), Error>((SEEK_CUR, o)),
        },
{
    match pos {
        SeekFrom::Start(o) => {
            if o <= i64::MAX as u64 {
                Ok((SEEK_SET, o as i64))
            } else {
                Err(Error::InvalidArgument)
            }
        },
        SeekFrom::End(o) => Ok((SEEK_END, o)),
        SeekFrom::Current(o) => Ok((SEEK_CUR, o)),
    }
}

/// A directory cursor's side in this layer: the path it was opened at,
/// which every entry it yields carries.
pub struct ReadDir {
    path: String,
}

impl ReadDir {
    pub closed spec fn spec_path(&self) -> Seq<char> {
        self.path@
    }

    /// A cursor opened at `path`.
    pub fn new(path: String) -> (r: ReadDir)
        ensures
            r.spec_path() == path@,
    {
        ReadDir { path }
    }

    /// The path the cursor was opened at.
    pub fn path(&self) -> (r: &str)
        ensures
            r@ == self.spec_path(),
    {
        self.path.as_str()
    }

    /// The next entry, from what the engine's cursor returned: its end
    /// marker gives `None`, a record gives a snapshot of it under this
    /// cursor's path.
    pub fn next_entry(&self, record: Option<(u32, u8, String)>) -> (r: Option<DirEntry>)
        ensures
            match record {
                None => r is None,
                Some((inode, tag, name)) => r matches Some(e) && e.spec_inode() == inode
                    && e.spec_type() == tag && e.spec_raw_name() == name@ && e.spec_parent()
                    == self.spec_path(),
            },
    {
        match record {
            None => None,
            Some((inode, tag, name)) => Some(DirEntry::new(inode, tag, name, self.path.clone())),
        }
    }
}

} // verus!
