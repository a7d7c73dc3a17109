//! Text for the user: the listing of queues and the container commands that
//! reach a queue's namespace.

use crate::namespace::{ipc_namespace_path, ipc_path_text};
use vstd::prelude::*;
use vstd::string::StringExecFns;

verus! {

/// The line that shows one queue: a slash, the queue's name, a colon and a
/// space, then its status.
pub open spec fn queue_line_text(name: Seq<char>, status: Seq<char>) -> Seq<char> {
    "/"@ + name + ": "@ + status
}

/// The line that shows one queue.
pub fn queue_line(name: &str, status: &str) -> (line: String)
    ensures
        line@ == queue_line_text(name@, status@),
{
    let mut line = String::from_str("/");
    line.append(name);
    line.append(": ");
    line.append(status);
    line
}

/// The lines that show the queues of a namespace, one for each pair of a
/// queue's name and its status, in the order given.
pub fn list_mqs(entries: &Vec<(String, String)>) -> (lines: Vec<String>)
    ensures
        lines.len() == entries.len(),
        forall|i: int|
            0 <= i < entries.len() ==> (#[trigger] lines[i])@ == queue_line_text(
                entries[i].0@,
                entries[i].1@,
            ),
{
    let mut lines: Vec<String> = Vec::new();
    let mut i: usize = 0;
    while i < entries.len()
        invariant
            i <= entries.len(),
            lines.len() == i,
            forall|j: int|
                0 <= j < i ==> (#[trigger] lines[j])@ == queue_line_text(
                    entries[j].0@,
                    entries[j].1@,
                ),
        decreases entries.len() - i,
    {
        let line = queue_line(entries[i].0.as_str(), entries[i].1.as_str());
        lines.push(line);
        i += 1;
    }
    lines
}

/// The lines joined by line feeds.
pub open spec fn joined(lines: Seq<Seq<char>>) -> Seq<char>
    decreases lines.len(),
{
    if lines.len() == 0 {
        Seq::empty()
    } else if lines.len() == 1 {
        lines[0]
    } else {
        joined(lines.drop_last()) + "\n"@ + lines.last()
    }
}

/// What is shown for a listing: a notice where there is no queue, the lines
/// joined by line feeds otherwise.
pub open spec fn listing_text(lines: Seq<Seq<char>>) -> Seq<char> {
    if lines.len() == 0 {
        "No MQs found"@
    } else {
        joined(lines)
    }
}

/// The views of the strings in `lines`.
pub open spec fn line_views(lines: Seq<String>) -> Seq<Seq<char>> {
    Seq::new(lines.len(), |i: int| lines[i]@)
}

/// What is shown for a listing.
pub fn render_listing(lines: &Vec<String>) -> (text: String)
    ensures
        text@ == listing_text(line_views(lines@)),
{
    if lines.len() == 0 {
        return String::from_str("No MQs found");
    }
    let ghost views = line_views(lines@);
    let mut text = String::from_str(lines[0].as_str());
    assert(views.take(1) =~= seq![views[0]]);
    let mut i: usize = 1;
    while i < lines.len()
        invariant
            1 <= i <= lines.len(),
            views == line_views(lines@),
            text@ == joined(views.take(i as int)),
        decreases lines.len() - i,
    {
        text.append("\n");
        text.append(lines[i].as_str());
        proof {
            let next = views.take(i + 1);
            assert(next.drop_last() =~= views.take(i as int));
            assert(next.last() == lines[i as int]@);
        }
        i += 1;
    }
    assert(views.take(lines.len() as int) =~= views);
    text
}

/// The start of a container command that shares the IPC namespace of
/// process `pid` and runs `image`.
pub open spec fn podman_prefix(pid: int, image: Seq<char>) -> Seq<char> {
    "\tsudo podman run --rm -it --ipc=ns:"@ + ipc_path_text(pid) + " "@ + image + " "@
}

/// Two container commands, one to a line and each after a tab: one that lists
/// the queues in the namespace of process `pid`, one that sends a greeting to
/// the queue `queue`.
pub open spec fn podman_cmd_text(pid: int, queue: Seq<char>, image: Seq<char>) -> Seq<char> {
    podman_prefix(pid, image) + "ls\n"@ + podman_prefix(pid, image) + "tx "@ + queue
        + " 'Hello, from podman'"@
}

/// Appends the start of a container command to `out`.
fn push_podman_prefix(out: &mut String, pid: i32, image_name: &str)
    ensures
        final(out)@ == old(out)@ + podman_prefix(pid as int, image_name@),
{
    out.append("\tsudo podman run --rm -it --ipc=ns:");
    let path = ipc_namespace_path(pid);
    out.append(path.as_str());
    out.append(" ");
    out.append(image_name);
    out.append(" ");
    assert(out@ =~= old(out)@ + podman_prefix(pid as int, image_name@));
}

/// The container commands that reach the namespace of process `pid`.
pub fn make_podman_cmd(pid: i32, q_name: &str, image_name: &str) -> (cmd: String)
    ensures
        cmd@ == podman_cmd_text(pid as int, q_name@, image_name@),
{
    let mut cmd = String::new();
    push_podman_prefix(&mut cmd, pid, image_name);
    cmd.append("ls\n");
    push_podman_prefix(&mut cmd, pid, image_name);
    cmd.append("tx ");
    cmd.append(q_name);
    cmd.append(" 'Hello, from podman'");
    assert(cmd@ =~= podman_cmd_text(pid as int, q_name@, image_name@));
    cmd
}

} // verus!
