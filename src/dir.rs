use vstd::prelude::*;
use vstd::string::{StrSliceExecFns, StringExecFns};
use crate::error::Error;

verus! {

/// The type tag the engine gives a directory entry.
#[derive(Clone, Copy, Debug, PartialEq, Eq, Structural)]
pub struct FileType(pub u8);

impl FileType {
    /// Whether the tag marks a directory.
    pub fn is_dir(&self) -> (r: bool)
        ensures
            r == (self.0 == 2),
    {
        self.0 == 2
    }

    /// Whether the tag marks a regular file.
    pub fn is_file(&self) -> (r: bool)
        ensures
            r == (self.0 == 1),
    {
        self.0 == 1
    }

    /// Whether the tag marks a symbolic link; the engine's unknown tag is
    /// read as one.
    pub fn is_symlink(&self) -> (r: bool)
        ensures
            r == (self.0 == 0),
    {
        self.0 == 0
    }
}

/// What is known of a file: its type.
pub struct Metadata {
    file_type: FileType,
}

impl Metadata {
    pub closed spec fn spec_file_type(&self) -> FileType {
        self.file_type
    }

    pub fn new(file_type: FileType) -> (r: Metadata)
        ensures
            r.spec_file_type() == file_type,
    {
        Metadata { file_type }
    }

    /// The file's type; reading it does not fail.
    pub fn file_type(&self) -> (r: Result<FileType, Error>)
        ensures
            r == Ok::<FileType, Error>(self.spec_file_type()),
    {
        Ok(self.file_type)
    }
}

/// The characters of `s` after its leading NULs.
pub open spec fn trim_start_nul(s: Seq<char>) -> Seq<char>
    decreases s.len(),
{
    if s.len() > 0 && s[0] == '\0' {
        trim_start_nul(s.drop_first())
    } else {
        s
    }
}

/// The characters of `s` before its trailing NULs.
pub open spec fn trim_end_nul(s: Seq<char>) -> Seq<char>
    decreases s.len(),
{
    if s.len() > 0 && s.last() == '\0' {
        trim_end_nul(s.drop_last())
    } else {
        s
    }
}

/// `s` without the NUL padding at either end.
pub open spec fn trim_nul(s: Seq<char>) -> Seq<char> {
    trim_end_nul(trim_start_nul(s))
}

/// Strips the NUL padding from both ends of `s`.
pub fn trim_nul_str(s: &str) -> (r: &str)
    ensures
        r@ == trim_nul(s@),
{
    let n = s.unicode_len();
    let mut a: usize = 0;
    assert(s@.subrange(0, n as int) =~= s@);
    while a < n && s.get_char(a) == '\0'
        invariant
            a <= n,
            n == s@.len(),
            trim_start_nul(s@) == trim_start_nul(s@.subrange(a as int, n as int)),
        decreases n - a,
    {
        assert(s@.subrange(a as int, n as int).drop_first() =~= s@.subrange(a + 1, n as int));
        a = a + 1;
    }
    assert(trim_start_nul(s@.subrange(a as int, n as int)) == s@.subrange(a as int, n as int));
    let mut b: usize = n;
    while b > a && s.get_char(b - 1) == '\0'
        invariant
            a <= b <= n,
            n == s@.len(),
            trim_nul(s@) == trim_end_nul(s@.subrange(a as int, b as int)),
        decreases b - a,
    {
        assert(s@.subrange(a as int, b as int).drop_last() =~= s@.subrange(a as int, b - 1));
        b = b - 1;
    }
    s.substring_char(a, b)
}

/// A path joined with a name: a slash between them unless the path is
/// empty or already ends in one.
pub open spec fn spec_join(parent: Seq<char>, name: Seq<char>) -> Seq<char> {
    if parent.len() == 0 || parent.last() == '/' {
        parent + name
    } else {
        parent + seq!['/'] + name
    }
}

/// A directory entry copied out of the engine's cursor: inode number, type
/// tag and name (with the engine's NUL padding), and the path of the
/// directory that was listed. It stays valid after the cursor moves on.
#[derive(Debug)]
pub struct DirEntry {
    inode: u32,
    inode_type: u8,
    raw_name: String,
    parent: String,
}

/// The name of an entry, without padding.
pub open spec fn entry_name(e: DirEntry) -> Seq<char> {
    trim_nul(e.spec_raw_name())
}

impl DirEntry {
    pub closed spec fn spec_inode(&self) -> u32 {
        self.inode
    }

    pub closed spec fn spec_type(&self) -> u8 {
        self.inode_type
    }

    pub closed spec fn spec_raw_name(&self) -> Seq<char> {
        self.raw_name@
    }

    pub closed spec fn spec_parent(&self) -> Seq<char> {
        self.parent@
    }

    /// An entry of the directory at `parent`, as the engine reported it.
    pub fn new(inode: u32, inode_type: u8, raw_name: String, parent: String) -> (r: DirEntry)
        ensures
            r.spec_inode() == inode,
            r.spec_type() == inode_type,
            r.spec_raw_name() == raw_name@,
            r.spec_parent() == parent@,
    {
        DirEntry { inode, inode_type, raw_name, parent }
    }

    /// The entry's name, trimmed of padding.
    pub fn name(&self) -> (r: &str)
        ensures
            r@ == entry_name(*self),
    {
        trim_nul_str(self.raw_name.as_str())
    }

    /// The entry's full path: the listed directory joined with its name.
    pub fn path(&self) -> (r: String)
        ensures
            r@ == spec_join(self.spec_parent(), entry_name(*self)),
    {
        let name = self.name();
        let mut r = self.parent.clone();
        let n = r.as_str().unicode_len();
        if n > 0 && r.as_str().get_char(n - 1) != '/' {
            proof {
                reveal_strlit("/");
            }
            r.append("/");
        }
        r.append(name);
        r
    }

    /// The entry's inode number.
    pub fn inode(&self) -> (r: u32)
        ensures
            r == self.spec_inode(),
    {
        self.inode
    }

    /// The entry's type tag.
    pub fn file_type(&self) -> (r: FileType)
        ensures
            r == FileType(self.spec_type()),
    {
        FileType(self.inode_type)
    }
}

} // verus!
