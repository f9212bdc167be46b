//! Descriptive metadata of a supervised language-server process: the id the
//! caller assigned it, the display name taken from its executable path, the
//! root path it was started for, and the working directory derived from
//! that root. Spawning, the pipes and forced termination are the caller's;
//! the derivations here are pure.

use vstd::prelude::*;

verus! {

/// The caller-assigned id of one server process.
#[derive(Debug, Clone, Copy, PartialEq, Eq, Hash, Structural)]
pub struct ProccessId(pub usize);

/// The direction of one observed I/O event.
#[derive(Debug, Clone, Copy, PartialEq, Eq, Structural)]
pub enum IoKind {
    /// A message written to the server's input stream.
    StdIn,
    /// A message read from the server's output stream.
    StdOut,
    /// A line read from the server's error stream.
    StdErr,
}

/// The last `/` in a path, if any.
pub open spec fn spec_last_slash(p: Seq<u8>) -> Option<int>
    decreases p.len(),
{
    if p.len() == 0 {
        None
    } else if p.last() == 47 {
        Some(p.len() - 1)
    } else {
        spec_last_slash(p.drop_last())
    }
}

/// The parent of a path: the bytes before its last slash — the root for a
/// child of the root, and the filesystem root as the fallback for a path
/// with no parent at all.
pub open spec fn spec_parent_or_root(p: Seq<u8>) -> Seq<u8> {
    if p.len() == 0 || p == seq![47u8] {
        seq![47u8]
    } else {
        match spec_last_slash(p) {
            None => Seq::empty(),
            Some(k) => if k == 0 {
                seq![47u8]
            } else {
                p.take(k)
            },
        }
    }
}

/// The working directory a server is started in: the root path itself when
/// it is a directory, else its parent.
pub open spec fn spec_working_dir(root: Seq<u8>, root_is_dir: bool) -> Seq<u8> {
    if root_is_dir {
        root
    } else {
        spec_parent_or_root(root)
    }
}

/// The display name of an executable: the component after the last slash.
pub open spec fn spec_file_name(p: Seq<u8>) -> Seq<u8> {
    match spec_last_slash(p) {
        None => p,
        Some(k) => p.subrange(k + 1, p.len() as int),
    }
}

/// The position of the last slash in `v`.
pub fn last_slash(v: &Vec<u8>) -> (r: Option<usize>)
    ensures
        match r {
            Some(k) => spec_last_slash(v@) == Some(k as int) && k < v.len(),
            None => spec_last_slash(v@) is None,
        },
{
    let mut k: usize = v.len();
    proof {
        assert(v@.take(v@.len() as int) =~= v@);
    }
    while k > 0
        invariant
            0 <= k <= v@.len(),
            spec_last_slash(v@) == spec_last_slash(v@.take(k as int)),
        decreases k,
    {
        proof {
            assert(v@.take(k as int).last() == v@[k - 1]);
            assert(v@.take(k as int).drop_last() =~= v@.take(k - 1));
        }
        if v[k - 1] == 47 {
            return Some(k - 1);
        }
        k = k - 1;
    }
    None
}

fn sub_bytes(v: &Vec<u8>, a: usize, b: usize) -> (r: Vec<u8>)
    requires
        a <= b <= v.len(),
    ensures
        r@ == v@.subrange(a as int, b as int),
{
    let mut r: Vec<u8> = Vec::new();
    let mut k: usize = a;
    while k < b
        invariant
            a <= k <= b <= v@.len(),
            r@ == v@.subrange(a as int, k as int),
        decreases b - k,
    {
        r.push(v[k]);
        k = k + 1;
        proof {
            assert(v@.subrange(a as int, k as int) =~= v@.subrange(a as int, k - 1).push(
                v@[k - 1],
            ));
        }
    }
    r
}

fn root_bytes() -> (r: Vec<u8>)
    ensures
        r@ == seq![47u8],
{
    let mut r: Vec<u8> = Vec::new();
    r.push(47);
    proof {
        assert(r@ =~= seq![47u8]);
    }
    r
}

/// The working directory for a server started with this root path.
pub fn working_dir_of(root: &Vec<u8>, root_is_dir: bool) -> (r: Vec<u8>)
    ensures
        r@ == spec_working_dir(root@, root_is_dir),
{
    if root_is_dir {
        return crate::dispatch::clone_bytes(root);
    }
    if root.len() == 0 || (root.len() == 1 && root[0] == 47) {
        proof {
            if root@.len() == 1 && root@[0] == 47 {
                assert(root@ =~= seq![47u8]);
            }
        }
        return root_bytes();
    }
    proof {
        assert(root@ != seq![47u8]) by {
            if root@ =~= seq![47u8] {
                assert(root@.len() == 1 && root@[0] == 47);
            }
        }
    }
    match last_slash(root) {
        None => Vec::new(),
        Some(k) => {
            if k == 0 {
                root_bytes()
            } else {
                let r = sub_bytes(root, 0, k);
                proof {
                    assert(root@.subrange(0, k as int) =~= root@.take(k as int));
                }
                r
            }
        },
    }
}

/// The display name of the executable at this path.
pub fn file_name_of(path: &Vec<u8>) -> (r: Vec<u8>)
    ensures
        r@ == spec_file_name(path@),
{
    match last_slash(path) {
        None => crate::dispatch::clone_bytes(path),
        Some(k) => sub_bytes(path, k + 1, path.len()),
    }
}

/// What the supervisor records of a running server.
#[derive(Debug, Clone)]
pub struct ServerInfo {
    pub server_id: ProccessId,
    pub name: Vec<u8>,
    pub root_path: Vec<u8>,
    pub working_dir: Vec<u8>,
}

impl ServerInfo {
    /// Records a server's metadata: its display name from the executable
    /// path, and its working directory from the root path.
    pub fn new(server_id: ProccessId, binary_path: &Vec<u8>, root_path: Vec<u8>, root_is_dir: bool)
        -> (r: ServerInfo)
        ensures
            r.server_id == server_id,
            r.name@ == spec_file_name(binary_path@),
            r.working_dir@ == spec_working_dir(root_path@, root_is_dir),
            r.root_path@ == root_path@,
    {
        let working_dir = working_dir_of(&root_path, root_is_dir);
        ServerInfo {
            server_id,
            name: file_name_of(binary_path),
            root_path,
            working_dir,
        }
    }

    /// The caller-assigned server id.
    pub fn server_id(&self) -> (r: ProccessId)
        ensures
            r == self.server_id,
    {
        self.server_id
    }

    /// The display name: the executable's file name.
    pub fn name(&self) -> (r: &Vec<u8>)
        ensures
            r@ == self.name@,
    {
        &self.name
    }

    /// The root path the server was started for.
    pub fn root_path(&self) -> (r: &Vec<u8>)
        ensures
            r@ == self.root_path@,
    {
        &self.root_path
    }

    /// The working directory the server was started in.
    pub fn working_dir(&self) -> (r: &Vec<u8>)
        ensures
            r@ == self.working_dir@,
    {
        &self.working_dir
    }
}

} // verus!
