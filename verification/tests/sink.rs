use convis::code::{kprobe_target, tracepoint_parts};
use convis::data::{Container, Process, Record, Status};
use convis::event::SockAddr;
use convis::sink::args::Args;
use convis::sink::nr::nr_event;
use convis::sink::prom::prom_series;
use convis::sink::{Batch, Error, Sink};
use convis::text::{i32_string, ipv4_string, join_spaces, u64_string};

fn record() -> Record {
    Record {
        timestamp: 1700000000123,
        event: "Connect".to_string(),
        src: SockAddr { addr: 0x0A00_0001, port: 5000 },
        dst: SockAddr { addr: 0xC0A8_0107, port: 443 },
        process: Process {
            pid: 42,
            command: vec!["nc".to_string(), "-v".to_string()],
            container: Some(Container {
                id: "abcd".to_string(),
                name: "web".to_string(),
                image: "img:1".to_string(),
                labels: Vec::new(),
            }),
            pod: None,
            status: Status::Alive,
        },
        hostname: "host-1".to_string(),
        rx: 100,
        tx: 200,
        srtt: 3000,
        retx: 1,
    }
}

#[test]
fn args_parse_name_and_pairs() {
    let (name, args) = Args::parse(b"newrelic,account=1,key=abc");
    assert_eq!(name, b"newrelic".to_vec());
    assert_eq!(args.get(b"account").unwrap(), &b"1".to_vec());
    assert_eq!(args.opt(b"key"), Some(&b"abc".to_vec()));
    assert!(args.opt(b"region").is_none());
    match args.get(b"region") {
        Err(Error::MissingArg(n)) => assert_eq!(n, b"region".to_vec()),
        other => panic!("expected a missing argument, got {:?}", other),
    }
}

#[test]
fn args_last_duplicate_wins() {
    let (_, args) = Args::parse(b"x,a=1,a=2");
    assert_eq!(args.opt(b"a"), Some(&b"2".to_vec()));
}

#[test]
fn args_pieces_without_equals_are_skipped() {
    let (name, args) = Args::parse(b"stdout,loose,k=v");
    assert_eq!(name, b"stdout".to_vec());
    assert!(args.opt(b"loose").is_none());
    assert_eq!(args.opt(b"k"), Some(&b"v".to_vec()));
}

#[test]
fn args_empty_spec() {
    let (name, args) = Args::parse(b"");
    assert_eq!(name, b"".to_vec());
    assert!(args.opt(b"k").is_none());
}

#[test]
fn sink_default_is_stdout() {
    assert!(matches!(Sink::default(), Sink::Stdout));
}

#[test]
fn sink_stdout_parses() {
    assert!(matches!(Sink::from_spec(b"stdout"), Ok(Sink::Stdout)));
    assert!(matches!(Sink::from_spec(b"stdout,k=v"), Ok(Sink::Stdout)));
}

#[test]
fn sink_unknown_is_rejected() {
    match Sink::from_spec(b"elastic,k=v") {
        Err(Error::UnknownSink(s)) => assert_eq!(s, b"elastic,k=v".to_vec()),
        other => panic!("expected an unknown sink, got {:?}", other),
    }
}

#[test]
fn newrelic_endpoint_is_regional() {
    match Sink::from_spec(b"newrelic,account=12345,key=abc123") {
        Ok(Sink::NewRelic(c)) => {
            assert_eq!(
                String::from_utf8(c.endpoint).unwrap(),
                "https://insights-collector.newrelic.com/v1/accounts/12345/events"
            );
            assert_eq!(c.key, b"abc123".to_vec());
        }
        other => panic!("expected a collector config, got {:?}", other),
    }
    match Sink::from_spec(b"newrelic,account=9,key=k,region=eu") {
        Ok(Sink::NewRelic(c)) => {
            assert_eq!(
                String::from_utf8(c.endpoint).unwrap(),
                "https://insights-collector.eu01.nr-data.net/v1/accounts/9/events"
            );
        }
        other => panic!("expected a collector config, got {:?}", other),
    }
}

#[test]
fn newrelic_missing_or_bad_arguments() {
    match Sink::from_spec(b"newrelic,account=1") {
        Err(Error::MissingArg(n)) => assert_eq!(n, b"key".to_vec()),
        other => panic!("expected a missing argument, got {:?}", other),
    }
    match Sink::from_spec(b"newrelic,key=1") {
        Err(Error::MissingArg(n)) => assert_eq!(n, b"account".to_vec()),
        other => panic!("expected a missing argument, got {:?}", other),
    }
    match Sink::from_spec(b"newrelic,account=1,key=2,region=mars") {
        Err(Error::InvalidRegion(r)) => assert_eq!(r, b"mars".to_vec()),
        other => panic!("expected an invalid region, got {:?}", other),
    }
}

#[test]
fn prometheus_config_and_basic_auth() {
    match Sink::from_spec(b"prometheus,endpoint=http://push.example/api") {
        Ok(Sink::Prometheus(c)) => {
            assert_eq!(c.endpoint, b"http://push.example/api".to_vec());
            assert!(c.auth.is_none());
        }
        other => panic!("expected a remote-write config, got {:?}", other),
    }
    match Sink::from_spec(b"prometheus,endpoint=e,username=user,password=pass") {
        Ok(Sink::Prometheus(c)) => {
            // base64 of "user:pass" under the standard alphabet.
            assert_eq!(c.auth.unwrap(), b"Basic dXNlcjpwYXNz".to_vec());
        }
        other => panic!("expected a remote-write config, got {:?}", other),
    }
    match Sink::from_spec(b"prometheus,username=u") {
        Err(Error::MissingArg(n)) => assert_eq!(n, b"endpoint".to_vec()),
        other => panic!("expected a missing argument, got {:?}", other),
    }
}

#[test]
fn prometheus_auth_needs_both_credentials() {
    match Sink::from_spec(b"prometheus,endpoint=e,username=u") {
        Ok(Sink::Prometheus(c)) => assert!(c.auth.is_none()),
        other => panic!("expected a remote-write config, got {:?}", other),
    }
}

#[test]
fn nr_event_maps_every_field() {
    let e = nr_event(&record());
    assert_eq!(e.event_type, "ContainerVisibility");
    assert_eq!(e.timestamp, 1700000000123);
    assert_eq!(e.event, "Connect");
    assert_eq!(e.source_ip, "10.0.0.1");
    assert_eq!(e.source_port, 5000);
    assert_eq!(e.source_host, "host-1");
    assert_eq!(e.destination_ip, "192.168.1.7");
    assert_eq!(e.destination_port, 443);
    assert_eq!(e.pid, 42);
    assert_eq!(e.cmd, "nc -v");
    assert_eq!(e.container_id, "abcd");
    assert_eq!(e.container_name, "web");
    assert_eq!(e.container_image, "img:1");
    assert_eq!((e.rx, e.tx), (100, 200));
}

#[test]
fn nr_event_without_container_is_blank() {
    let mut r = record();
    r.process.container = None;
    let e = nr_event(&r);
    assert_eq!(e.container_id, "");
    assert_eq!(e.container_name, "");
    assert_eq!(e.container_image, "");
}

#[test]
fn prom_series_labels_are_sorted_by_name() {
    let (a, b) = prom_series(&record()).unwrap();
    let names: Vec<&str> = a.labels.iter().map(|l| l.name.as_str()).collect();
    assert_eq!(
        names,
        vec![
            "__name__",
            "container_id",
            "container_image",
            "container_name",
            "destination_ip",
            "destination_port",
            "event",
            "process_cmd",
            "process_pid",
            "source_host",
            "source_ip",
            "source_port",
        ]
    );
    let mut sorted = names.clone();
    sorted.sort_unstable();
    assert_eq!(names, sorted);
    assert_eq!(a.labels[0].value, "bytes_rx");
    assert_eq!(b.labels[0].value, "bytes_tx");
    let values: Vec<&str> = a.labels.iter().map(|l| l.value.as_str()).collect();
    assert_eq!(values[1..4], ["abcd", "img:1", "web"]);
    assert_eq!(values[4..], ["192.168.1.7", "443", "Connect", "nc -v", "42", "host-1", "10.0.0.1", "5000"]);
}

#[test]
fn prom_series_samples_carry_counters_and_timestamp() {
    let (a, b) = prom_series(&record()).unwrap();
    assert_eq!(a.samples.len(), 1);
    assert_eq!(a.samples[0].value, 100);
    assert_eq!(a.samples[0].timestamp, 1700000000123);
    assert_eq!(b.samples.len(), 1);
    assert_eq!(b.samples[0].value, 200);
    assert_eq!(b.samples[0].timestamp, 1700000000123);
    let mut r = record();
    r.process.container = None;
    let (a, _) = prom_series(&r).unwrap();
    assert_eq!(a.labels.len(), 9);
}

#[test]
fn prom_series_rejects_oversized_timestamps() {
    let mut r = record();
    r.timestamp = u64::MAX;
    assert!(matches!(prom_series(&r), Err(Error::TimestampRange)));
}

#[test]
fn batch_drains_in_order() {
    let mut batch = Batch::new();
    assert_eq!(batch.len(), 0);
    let mut r1 = record();
    r1.timestamp = 1;
    let mut r2 = record();
    r2.timestamp = 2;
    batch.push(r1);
    batch.push(r2);
    assert_eq!(batch.len(), 2);
    let drained = batch.drain();
    assert_eq!(drained.len(), 2);
    assert_eq!(drained[0].timestamp, 1);
    assert_eq!(drained[1].timestamp, 2);
    assert_eq!(batch.len(), 0);
    assert!(batch.drain().is_empty());
}

#[test]
fn decimal_rendering() {
    assert_eq!(u64_string(0), "0");
    assert_eq!(u64_string(7), "7");
    assert_eq!(u64_string(65535), "65535");
    assert_eq!(u64_string(u64::MAX), "18446744073709551615");
    assert_eq!(i32_string(0), "0");
    assert_eq!(i32_string(-42), "-42");
    assert_eq!(i32_string(i32::MIN), "-2147483648");
    assert_eq!(i32_string(i32::MAX), "2147483647");
}

#[test]
fn ipv4_rendering() {
    assert_eq!(ipv4_string(0x0A00_0001), "10.0.0.1");
    assert_eq!(ipv4_string(0), "0.0.0.0");
    assert_eq!(ipv4_string(u32::MAX), "255.255.255.255");
    assert_eq!(ipv4_string(0x0102_0304), "1.2.3.4");
}

#[test]
fn command_joining() {
    assert_eq!(join_spaces(&vec![]), "");
    assert_eq!(join_spaces(&vec!["one".to_string()]), "one");
    assert_eq!(join_spaces(&vec!["a".to_string(), "b".to_string(), "c".to_string()]), "a b c");
}

#[test]
fn kprobe_aliases_redirect_to_tcp_connect() {
    assert_eq!(kprobe_target(b"call-tcp-connect"), b"tcp_v4_connect".to_vec());
    assert_eq!(kprobe_target(b"exit-tcp-connect"), b"tcp_v4_connect".to_vec());
    assert_eq!(kprobe_target(b"tcp_v4_rcv"), b"tcp_v4_rcv".to_vec());
}

#[test]
fn tracepoint_names_split_on_the_first_slash() {
    let (cat, name) = tracepoint_parts(b"sock/inet_sock_set_state");
    assert_eq!(cat, b"sock".to_vec());
    assert_eq!(name, b"inet_sock_set_state".to_vec());
    let (cat, name) = tracepoint_parts(b"a/b/c");
    assert_eq!(cat, b"a".to_vec());
    assert_eq!(name, b"b/c".to_vec());
    let (cat, name) = tracepoint_parts(b"plain");
    assert_eq!(cat, b"".to_vec());
    assert_eq!(name, b"plain".to_vec());
}
