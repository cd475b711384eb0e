//! Resolved references to remote repositories, directories and files.
use vstd::prelude::*;
use crate::types::{shortened_oid, shortened_remote, PathInfo, Remote, OID};

verus! {

/// Where in a file a reference points.
#[derive(Debug, Clone, Copy, PartialEq, Eq, Structural)]
pub enum Position {
    Line { line: usize },
    LineCol { line: usize, col: usize },
    Range { start_line: usize, start_col: usize, end_line: usize, end_col: usize },
}

#[derive(Debug, Clone)]
pub struct File {
    pub remote: Remote,
    pub oid: OID,
    pub path: String,
    pub position: Option<Position>,
}

#[derive(Debug, Clone)]
pub struct Directory {
    pub remote: Remote,
    pub oid: OID,
    pub path: String,
}

#[derive(Debug, Clone)]
pub struct Repo {
    pub remote: Remote,
    pub oid: OID,
}

/// A remote file, directory or repository. Only a file carries a position,
/// and a repository has no path.
#[derive(Debug, Clone)]
pub enum Entry {
    File(File),
    Directory(Directory),
    Repo(Repo),
}

/// The buffer name `sg://<remote>@<oid>[/-/<path>]`, with both names shortened.
pub open spec fn bufname_of(remote: Seq<char>, oid: Seq<char>, path: Option<Seq<char>>) -> Seq<char> {
    let head = "sg://"@ + shortened_remote(remote) + "@"@ + shortened_oid(oid);
    match path {
        Some(p) => head + "/-/"@ + p,
        None => head,
    }
}

pub open spec fn entry_bufname(e: Entry) -> Seq<char> {
    match e {
        Entry::File(f) => bufname_of(f.remote.0@, f.oid.0@, Some(f.path@)),
        Entry::Directory(d) => bufname_of(d.remote.0@, d.oid.0@, Some(d.path@)),
        Entry::Repo(r) => bufname_of(r.remote.0@, r.oid.0@, None),
    }
}

pub open spec fn entry_typename(e: Entry) -> Seq<char> {
    match e {
        Entry::File(_) => "file"@,
        Entry::Directory(_) => "directory"@,
        Entry::Repo(_) => "repo"@,
    }
}

pub open spec fn entry_position(e: Entry) -> Option<Position> {
    match e {
        Entry::File(f) => f.position,
        _ => None,
    }
}

/// The entry that a path lookup describes: a directory, or a file without a
/// position.
pub open spec fn entry_of_info(info: PathInfo) -> Entry {
    if info.is_directory {
        Entry::Directory(Directory { remote: Remote(info.remote), oid: OID(info.oid), path: info.path })
    } else {
        Entry::File(File { remote: Remote(info.remote), oid: OID(info.oid), path: info.path, position: None })
    }
}

pub fn make_bufname(remote: &Remote, oid: &OID, path: Option<&str>) -> (r: String)
    ensures
        path matches Some(p) ==> r@ == bufname_of(remote.0@, oid.0@, Some(p@)),
        path is None ==> r@ == bufname_of(remote.0@, oid.0@, None),
{
    let mut s = String::from_str("sg://");
    let short_remote = remote.shortened();
    s.append(short_remote.as_str());
    s.append("@");
    let short_oid = oid.shortened();
    s.append(short_oid.as_str());
    match path {
        Some(p) => {
            s.append("/-/");
            s.append(p);
        },
        None => {},
    }
    s
}

impl File {
    pub fn bufname(&self) -> (r: String)
        ensures
            r@ == bufname_of(self.remote.0@, self.oid.0@, Some(self.path@)),
    {
        make_bufname(&self.remote, &self.oid, Some(self.path.as_str()))
    }
}

impl Directory {
    pub fn bufname(&self) -> (r: String)
        ensures
            r@ == bufname_of(self.remote.0@, self.oid.0@, Some(self.path@)),
    {
        make_bufname(&self.remote, &self.oid, Some(self.path.as_str()))
    }
}

impl Repo {
    pub fn bufname(&self) -> (r: String)
        ensures
            r@ == bufname_of(self.remote.0@, self.oid.0@, None),
    {
        make_bufname(&self.remote, &self.oid, None)
    }
}

impl Entry {
    pub fn typename(&self) -> (r: &'static str)
        ensures
            r@ == entry_typename(*self),
    {
        match self {
            Entry::File(_) => "file",
            Entry::Directory(_) => "directory",
            Entry::Repo(_) => "repo",
        }
    }

    pub fn from_info(info: PathInfo) -> (r: Entry)
        ensures
            r == entry_of_info(info),
    {
        let PathInfo { remote, oid, path, is_directory } = info;
        if is_directory {
            Entry::Directory(Directory { remote: Remote(remote), oid: OID(oid), path })
        } else {
            Entry::File(File { remote: Remote(remote), oid: OID(oid), path, position: None })
        }
    }

    pub fn bufname(&self) -> (r: String)
        ensures
            r@ == entry_bufname(*self),
    {
        match self {
            Entry::File(file) => file.bufname(),
            Entry::Directory(dir) => dir.bufname(),
            Entry::Repo(repo) => repo.bufname(),
        }
    }

    pub fn position(&self) -> (r: Option<Position>)
        ensures
            r == entry_position(*self),
    {
        match self {
            Entry::File(file) => file.position,
            _ => None,
        }
    }
}

/// An entry as the editor receives it: its kind, its buffer name, its data.
#[derive(Debug, Clone)]
pub struct ProtoEntry {
    pub kind: String,
    pub bufname: String,
    pub data: Entry,
}

impl ProtoEntry {
    pub fn from_entry(entry: Entry) -> (r: ProtoEntry)
        ensures
            r.kind@ == entry_typename(entry),
            r.bufname@ == entry_bufname(entry),
            r.data == entry,
    {
        let kind = String::from_str(entry.typename());
        let bufname = entry.bufname();
        ProtoEntry { kind, bufname, data: entry }
    }
}

} // verus!
