//! Namespaces as the system lists them, and the paths that refer to the
//! namespaces of a process.

use crate::decimal::{decimal, push_decimal};
use vstd::prelude::*;
use vstd::string::StringExecFns;

verus! {

/// One namespace of the system's listing.
#[derive(Debug, PartialEq, Eq)]
pub struct Namespace {
    pub ns: i64,
    pub nprocs: i64,
    pub pid: Option<i32>,
    pub user: String,
}

impl Clone for Namespace {
    fn clone(&self) -> (copy: Namespace)
        ensures
            copy.ns == self.ns,
            copy.nprocs == self.nprocs,
            copy.pid == self.pid,
            copy.user@ == self.user@,
    {
        Namespace { ns: self.ns, nprocs: self.nprocs, pid: self.pid, user: self.user.clone() }
    }
}

/// The path that refers to the IPC namespace of process `pid`.
pub open spec fn ipc_path_text(pid: int) -> Seq<char> {
    "/proc/"@ + decimal(pid) + "/ns/ipc"@
}

/// The path that refers to the mount namespace of process `pid`.
pub open spec fn mnt_path_text(pid: int) -> Seq<char> {
    "/proc/"@ + decimal(pid) + "/ns/mnt"@
}

/// The path that refers to the IPC namespace of process `pid`.
pub fn ipc_namespace_path(pid: i32) -> (path: String)
    ensures
        path@ == ipc_path_text(pid as int),
{
    let mut path = String::from_str("/proc/");
    push_decimal(&mut path, pid);
    path.append("/ns/ipc");
    path
}

/// The path that refers to the mount namespace of process `pid`.
pub fn mnt_namespace_path(pid: i32) -> (path: String)
    ensures
        path@ == mnt_path_text(pid as int),
{
    let mut path = String::from_str("/proc/");
    push_decimal(&mut path, pid);
    path.append("/ns/mnt");
    path
}

/// Whether `i` is the place of the first namespace in `list` that is bound to
/// process `pid`.
pub open spec fn first_of_pid(list: Seq<Namespace>, pid: i32, i: int) -> bool {
    &&& 0 <= i < list.len()
    &&& list[i].pid == Some(pid)
    &&& forall|j: int| 0 <= j < i ==> (#[trigger] list[j]).pid != Some(pid)
}

/// Whether no namespace in `list` is bound to process `pid`.
pub open spec fn none_of_pid(list: Seq<Namespace>, pid: i32) -> bool {
    forall|j: int| 0 <= j < list.len() ==> (#[trigger] list[j]).pid != Some(pid)
}

/// Whether a namespace is bound to process `pid`.
fn bound_to(ns: &Namespace, pid: i32) -> (bound: bool)
    ensures
        bound == (ns.pid == Some(pid)),
{
    match ns.pid {
        Some(p) => p == pid,
        None => false,
    }
}

/// Finds the namespace of process `pid`: the first in the listing that is
/// bound to it, or `None` if there is no such namespace.
pub fn find_namespace(list: Vec<Namespace>, pid: i32) -> (found: Option<Namespace>)
    ensures
        match found {
            Some(ns) => exists|i: int| first_of_pid(list@, pid, i) && ns == list@[i],
            None => none_of_pid(list@, pid),
        },
{
    let mut rest = list;
    let mut i: usize = 0;
    while i < rest.len()
        invariant
            i <= rest.len(),
            rest@ == list@,
            forall|j: int| 0 <= j < i ==> (#[trigger] list@[j]).pid != Some(pid),
        decreases rest.len() - i,
    {
        if bound_to(&rest[i], pid) {
            let ns = rest.remove(i);
            assert(first_of_pid(list@, pid, i as int) && ns == list@[i as int]);
            return Some(ns);
        }
        i += 1;
    }
    None
}

} // verus!
