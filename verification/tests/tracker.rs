use convis::data::{Container, Process, Status};
use convis::dispatch::dispatch;
use convis::event::{Call, Exec, Sock, SockAddr};
use convis::track::{classify_cgroup, RuntimeRef, Tracker};

fn proc_named(pid: i32, cmd: &[&str]) -> Process {
    Process {
        pid,
        command: cmd.iter().map(|s| s.to_string()).collect(),
        container: None,
        pod: None,
        status: Status::Alive,
    }
}

fn sock(pid: i32) -> Sock {
    Sock {
        call: Call::Connect,
        pid,
        src: SockAddr { addr: 0x0A00_0001, port: 5000 },
        dst: SockAddr { addr: 0x0A00_0002, port: 80 },
        rx: 0,
        tx: 0,
        srtt: 0,
        retx: 0,
    }
}

#[test]
fn lifecycle_emits_one_record_then_purges() {
    let mut t = Tracker::new();
    t.ingest(Exec::Exec(42), Some(proc_named(42, &["nc", "-v"])));
    assert_eq!(t.len(), 1);

    // The sock event hits the cache; no resolution is needed.
    let rec = dispatch(&mut t, &sock(42), None, "host-1", 1111).expect("record");
    assert_eq!(rec.process.pid, 42);
    assert_eq!(rec.process.command, vec!["nc".to_string(), "-v".to_string()]);
    assert_eq!(rec.event, "Connect");
    assert_eq!(rec.src, SockAddr { addr: 0x0A00_0001, port: 5000 });
    assert_eq!(rec.dst, SockAddr { addr: 0x0A00_0002, port: 80 });
    assert_eq!(rec.hostname, "host-1");
    assert_eq!(rec.timestamp, 1111);
    assert_eq!(t.len(), 1);

    t.ingest(Exec::Exit(42), None);
    assert_eq!(t.len(), 1);
    let swept = t.sweep();
    assert_eq!(swept, 1);
    assert_eq!(t.len(), 0);

    // The entry is gone: a new lookup without resolution finds nothing.
    assert!(dispatch(&mut t, &sock(42), None, "host-1", 2222).is_none());
}

#[test]
fn unattributed_event_emits_no_record() {
    let mut t = Tracker::new();
    assert!(dispatch(&mut t, &sock(99), None, "host-1", 1).is_none());
    assert_eq!(t.len(), 0);
}

#[test]
fn miss_with_resolution_caches_and_emits() {
    let mut t = Tracker::new();
    let rec = dispatch(&mut t, &sock(5), Some(proc_named(5, &["sshd"])), "h", 7).expect("record");
    assert_eq!(rec.process.pid, 5);
    assert_eq!(t.len(), 1);
    // Cached now: the next lookup needs no resolution.
    let rec = dispatch(&mut t, &sock(5), None, "h", 8).expect("record");
    assert_eq!(rec.process.command, vec!["sshd".to_string()]);
}

#[test]
fn hit_ignores_new_resolution() {
    let mut t = Tracker::new();
    t.ingest(Exec::Exec(5), Some(proc_named(5, &["first"])));
    let got = t.get(5, Some(proc_named(5, &["second"])));
    assert_eq!(got.unwrap().command, vec!["first".to_string()]);
    assert_eq!(t.len(), 1);
}

#[test]
fn exit_for_unknown_pid_is_a_no_op() {
    let mut t = Tracker::new();
    t.ingest(Exec::Exit(42), None);
    assert_eq!(t.len(), 0);
    assert_eq!(t.sweep(), 0);
}

#[test]
fn exit_preserves_fields_until_sweep() {
    let mut t = Tracker::new();
    t.ingest(Exec::Exec(8), Some(proc_named(8, &["worker", "--job", "3"])));
    t.ingest(Exec::Exit(8), None);
    let got = t.get(8, None).expect("dead entry still cached");
    assert_eq!(got.status, Status::Dead);
    assert_eq!(got.command, vec!["worker".to_string(), "--job".to_string(), "3".to_string()]);
}

#[test]
fn sweep_keeps_live_entries() {
    let mut t = Tracker::new();
    t.ingest(Exec::Exec(1), Some(proc_named(1, &["a"])));
    t.ingest(Exec::Exec(2), Some(proc_named(2, &["b"])));
    t.ingest(Exec::Exit(1), None);
    assert_eq!(t.sweep(), 1);
    assert_eq!(t.len(), 1);
    assert!(t.get(2, None).is_some());
    assert!(t.get(1, None).is_none());
}

#[test]
fn racing_lookup_and_exec_agree_on_the_final_entry() {
    // One order: the lookup misses and resolves `a`, then the exec event
    // overwrites with `b`.
    let mut t1 = Tracker::new();
    let _ = t1.get(7, Some(proc_named(7, &["a"])));
    t1.ingest(Exec::Exec(7), Some(proc_named(7, &["b"])));
    // The other order: the exec event lands first and the lookup hits.
    let mut t2 = Tracker::new();
    t2.ingest(Exec::Exec(7), Some(proc_named(7, &["b"])));
    let hit = t2.get(7, Some(proc_named(7, &["a"])));
    assert_eq!(hit.unwrap().command, vec!["b".to_string()]);
    // Both orders leave the same, uncorrupted entry.
    let e1 = t1.get(7, None).unwrap();
    let e2 = t2.get(7, None).unwrap();
    assert_eq!(e1, e2);
    assert_eq!(e1.command, vec!["b".to_string()]);
    assert_eq!(t1.len(), 1);
    assert_eq!(t2.len(), 1);
}

#[test]
fn a_thousand_events_emit_in_order() {
    let mut t = Tracker::new();
    t.ingest(Exec::Exec(3), Some(proc_named(3, &["svc"])));
    let mut records = Vec::new();
    for i in 0..1000u64 {
        let mut s = sock(3);
        s.rx = i as u32;
        if let Some(rec) = dispatch(&mut t, &s, None, "h", i) {
            records.push(rec);
        }
    }
    assert_eq!(records.len(), 1000);
    for (i, rec) in records.iter().enumerate() {
        assert_eq!(rec.timestamp, i as u64);
        assert_eq!(rec.rx, i as u32);
    }
}

#[test]
fn docker_cgroup_is_classified() {
    assert_eq!(
        classify_cgroup(b"/docker/abcd"),
        Some(RuntimeRef::Docker(b"abcd".to_vec()))
    );
    // Exactly three segments are required.
    assert_eq!(classify_cgroup(b"/docker/abcd/nested"), None);
    assert_eq!(classify_cgroup(b"docker/abcd"), None);
}

#[test]
fn kubepods_cgroup_takes_the_last_segment() {
    assert_eq!(
        classify_cgroup(b"/kubepods/besteffort/pod1234/deadbeef"),
        Some(RuntimeRef::Cri(b"deadbeef".to_vec()))
    );
    assert_eq!(
        classify_cgroup(b"/kubepods/x"),
        Some(RuntimeRef::Cri(b"x".to_vec()))
    );
    assert_eq!(classify_cgroup(b"/kubepods"), None);
}

#[test]
fn other_cgroups_are_skipped() {
    assert_eq!(classify_cgroup(b"/system.slice/ssh.service"), None);
    assert_eq!(classify_cgroup(b""), None);
    assert_eq!(classify_cgroup(b"/"), None);
}

#[test]
fn containerised_process_reaches_the_record() {
    let mut t = Tracker::new();
    let mut p = proc_named(5, &["app"]);
    p.container = Some(Container {
        id: "abcd".to_string(),
        name: "web".to_string(),
        image: "img:1".to_string(),
        labels: Vec::new(),
    });
    let rec = dispatch(&mut t, &sock(5), Some(p), "h", 1).expect("record");
    assert_eq!(rec.process.container.as_ref().unwrap().id, "abcd");
}
