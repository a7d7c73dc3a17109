use umq::decimal::{decimal_string, push_decimal};
use umq::listing::{list_mqs, make_podman_cmd, queue_line, render_listing};
use umq::namespace::{find_namespace, ipc_namespace_path, mnt_namespace_path, Namespace};

fn ns(id: i64, pid: Option<i32>, user: &str) -> Namespace {
    Namespace { ns: id, nprocs: 1, pid, user: String::from(user) }
}

#[test]
fn decimal_of_small_numbers() {
    assert_eq!(decimal_string(0), "0");
    assert_eq!(decimal_string(7), "7");
    assert_eq!(decimal_string(10), "10");
    assert_eq!(decimal_string(4242), "4242");
    assert_eq!(decimal_string(1000000), "1000000");
}

#[test]
fn decimal_of_negative_numbers() {
    assert_eq!(decimal_string(-1), "-1");
    assert_eq!(decimal_string(-305), "-305");
}

#[test]
fn decimal_of_the_extremes() {
    assert_eq!(decimal_string(i32::MAX), "2147483647");
    assert_eq!(decimal_string(i32::MIN), "-2147483648");
}

#[test]
fn decimal_agrees_with_display() {
    for n in [0, 1, 9, 10, 99, 100, 12345, -12345, 65535, -65536, i32::MAX, i32::MIN] {
        assert_eq!(decimal_string(n), format!("{}", n));
    }
}

#[test]
fn push_decimal_appends() {
    let mut s = String::from("pid=");
    push_decimal(&mut s, 31337);
    assert_eq!(s, "pid=31337");
}

#[test]
fn namespace_paths() {
    assert_eq!(ipc_namespace_path(1), "/proc/1/ns/ipc");
    assert_eq!(ipc_namespace_path(98765), "/proc/98765/ns/ipc");
    assert_eq!(mnt_namespace_path(42), "/proc/42/ns/mnt");
}

#[test]
fn queue_line_shows_name_and_status() {
    assert_eq!(
        queue_line("q1", "QSIZE:0 NOTIFY:0\n"),
        "/q1: QSIZE:0 NOTIFY:0\n"
    );
    assert_eq!(queue_line("", ""), "/: ");
}

#[test]
fn list_mqs_makes_one_line_for_each_queue_in_order() {
    let entries = vec![
        (String::from("b"), String::from("QSIZE:5")),
        (String::from("a"), String::from("QSIZE:0")),
    ];
    assert_eq!(
        list_mqs(&entries),
        vec![String::from("/b: QSIZE:5"), String::from("/a: QSIZE:0")]
    );
    assert_eq!(list_mqs(&vec![]), Vec::<String>::new());
}

#[test]
fn listing_of_no_queue_is_a_notice() {
    assert_eq!(render_listing(&vec![]), "No MQs found");
}

#[test]
fn listing_joins_lines_with_line_feeds() {
    assert_eq!(render_listing(&vec![String::from("/a: 1")]), "/a: 1");
    assert_eq!(
        render_listing(&vec![
            String::from("/a: 1"),
            String::from("/b: 2"),
            String::from("/c: 3")
        ]),
        "/a: 1\n/b: 2\n/c: 3"
    );
}

#[test]
fn podman_commands() {
    assert_eq!(
        make_podman_cmd(1234, "/q", "umq"),
        "\tsudo podman run --rm -it --ipc=ns:/proc/1234/ns/ipc umq ls\n\tsudo podman run --rm -it --ipc=ns:/proc/1234/ns/ipc umq tx /q 'Hello, from podman'"
    );
}

#[test]
fn find_namespace_takes_the_first_of_the_pid() {
    let list = vec![
        ns(1, None, "root"),
        ns(2, Some(10), "alice"),
        ns(3, Some(20), "bob"),
        ns(4, Some(20), "carol"),
    ];
    assert_eq!(find_namespace(list, 20), Some(ns(3, Some(20), "bob")));
}

#[test]
fn find_namespace_finds_nothing_for_an_unknown_pid() {
    let list = vec![ns(1, None, "root"), ns(2, Some(10), "alice")];
    assert_eq!(find_namespace(list, 11), None);
    assert_eq!(find_namespace(vec![], 1), None);
}

#[test]
fn cloned_namespace_is_equal() {
    let n = ns(4026531839, Some(1), "root");
    assert_eq!(n.clone(), n);
}
