use pentairservice::framer::Frame;
use pentairservice::time::Duration;
use pentairservice::transport::actor::{ActorAction, ActorEvent, BusCounters};
use pentairservice::transport::backoff::jitter_range;
use pentairservice::transport::replay::parse_hex_bytes;
use pentairservice::transport::{
    from_url, Backoff, BackoffConfig, BusActor, BusActorConfig, BusStats, IoFaultKind,
    ReplayTransport, SerialTransport, TcpTransport, TransportEndpoint, TransportError,
};

// --- endpoints -------------------------------------------------------------

#[test]
fn parse_tcp_host_port() {
    assert_eq!(
        TransportEndpoint::parse("tcp://192.168.1.50:8899").unwrap(),
        TransportEndpoint::Tcp {
            host: "192.168.1.50".into(),
            port: 8899,
        }
    );
}

#[test]
fn parse_tcp_ipv6() {
    assert_eq!(
        TransportEndpoint::parse("tcp://[::1]:8899").unwrap(),
        TransportEndpoint::Tcp {
            host: "::1".into(),
            port: 8899,
        }
    );
}

#[test]
fn parse_serial_path_and_baud() {
    assert_eq!(
        TransportEndpoint::parse("/dev/ttyUSB0").unwrap(),
        TransportEndpoint::Serial {
            path: "/dev/ttyUSB0".into(),
            baud: 9600,
        }
    );
    assert_eq!(
        TransportEndpoint::parse("serial:/dev/ttyUSB0?baud=115200").unwrap(),
        TransportEndpoint::Serial {
            path: "/dev/ttyUSB0".into(),
            baud: 115200,
        }
    );
    assert_eq!(
        TransportEndpoint::parse("serial:///dev/ttyUSB0,19200").unwrap(),
        TransportEndpoint::Serial {
            path: "/dev/ttyUSB0".into(),
            baud: 19200,
        }
    );
}

#[test]
fn parse_replay() {
    assert_eq!(
        TransportEndpoint::parse("replay:fixtures/status_temps.hex").unwrap(),
        TransportEndpoint::Replay {
            path: "fixtures/status_temps.hex".into(),
        }
    );
    assert_eq!(
        TransportEndpoint::parse("hexfile://fixtures/x.hex").unwrap(),
        TransportEndpoint::Replay {
            path: "fixtures/x.hex".into(),
        }
    );
}

#[test]
fn parse_rejects_empty_and_unknown() {
    assert!(TransportEndpoint::parse("").is_err());
    assert!(TransportEndpoint::parse("http://x").is_err());
    assert!(TransportEndpoint::parse("tcp://:8899").is_err());
    assert!(TransportEndpoint::parse("tcp://host").is_err());
    assert!(TransportEndpoint::parse("replay:").is_err());
    assert!(TransportEndpoint::parse("serial:").is_err());
    assert!(TransportEndpoint::parse("tcp://[::1").is_err());
}

#[test]
fn from_url_builds_strategies() {
    let t = from_url("tcp://127.0.0.1:8899").unwrap();
    assert_eq!(t.name(), "tcp");
    let r = from_url("replay:fixtures/status_temps.hex").unwrap();
    assert_eq!(r.name(), "replay");
    let s = from_url("/dev/ttyUSB0").unwrap();
    assert_eq!(s.name(), "serial");
}

#[test]
fn transport_error_display() {
    let e = TransportError::InvalidUrl("nope".into());
    assert!(e.to_string().contains("nope"));
    let e = TransportError::Serial("baud".into());
    assert!(e.to_string().contains("baud"));
}

#[test]
fn each_bad_url_tells_why() {
    for (url, why) in [
        ("  ", "empty transport URL"),
        ("http://x", "unsupported scheme (want tcp://, serial:, replay:, or /dev path): http://x"),
        ("tcp://:8899", "tcp host is empty"),
        ("tcp://host", "tcp URL missing host:port"),
        ("tcp://host:70000", "invalid tcp port: 70000"),
        ("tcp://host:", "invalid tcp port: "),
        ("tcp://[::1", "unclosed IPv6 bracket"),
        ("tcp://[::1]8899", "tcp URL missing :port"),
        ("tcp://[]:1", "tcp host is empty"),
        ("replay:  ", "replay path is empty"),
        ("serial: ", "serial path is empty"),
        ("serial:?baud=9600", "serial path is empty"),
        ("serial:,9600", "serial path is empty"),
        ("/dev/x?baud=fast", "bad baud in baud=fast"),
        ("/dev/x,99999999999", "bad baud: 99999999999"),
    ] {
        assert_eq!(
            TransportEndpoint::parse(url),
            Err(TransportError::InvalidUrl(why.to_string())),
            "{url}"
        );
    }
    assert_eq!(
        TransportError::InvalidUrl("x".into()).to_string(),
        "invalid transport URL: x"
    );
    assert_eq!(
        TransportError::io(IoFaultKind::Other, "gone").to_string(),
        "transport I/O: gone"
    );
    assert_eq!(TransportError::Serial("no".into()).to_string(), "serial config: no");
}

#[test]
fn less_common_urls() {
    let serial = |path: &str, baud: u32| TransportEndpoint::Serial { path: path.into(), baud };
    assert_eq!(TransportEndpoint::parse("./tty").unwrap(), serial("./tty", 9600));
    assert_eq!(TransportEndpoint::parse("/dev/x?4800").unwrap(), serial("/dev/x", 4800));
    assert_eq!(TransportEndpoint::parse("/dev/a,b").unwrap(), serial("/dev/a,b", 9600));
    assert_eq!(TransportEndpoint::parse("/dev/a,").unwrap(), serial("/dev/a,", 9600));
    assert_eq!(
        TransportEndpoint::parse("tcp://a:b:+80").unwrap(),
        TransportEndpoint::Tcp { host: "a:b".into(), port: 80 }
    );
    assert_eq!(
        TransportEndpoint::parse(" replay:// x.hex ").unwrap(),
        TransportEndpoint::Replay { path: "x.hex".into() }
    );
}

#[test]
fn addresses_are_urls_for_themselves() {
    let t = TcpTransport::new("ew11.local", 8899);
    assert_eq!(t.addr(), "ew11.local:8899");
    assert_eq!(
        TransportEndpoint::parse(&format!("tcp://{}", t.addr())).unwrap(),
        TransportEndpoint::Tcp { host: "ew11.local".into(), port: 8899 }
    );
}

// --- tcp and serial --------------------------------------------------------

#[test]
fn constructs_with_path_and_baud() {
    let t = SerialTransport::new("/dev/ttyUSB0", 9600);
    assert_eq!(t.path(), "/dev/ttyUSB0");
    assert_eq!(t.baud(), 9600);
    assert_eq!(t.name(), "serial");
}

#[test]
fn serial_read_write_without_open_errors() {
    let mut t = SerialTransport::new("/dev/ttyUSB0", 9600);
    let e = t.ready().unwrap_err();
    assert_eq!(e, TransportError::io(IoFaultKind::NotConnected, "serial transport not open"));
    assert!(!t.close());
    t.opened();
    assert!(t.ready().is_ok());
    assert!(t.close());
    assert!(t.ready().is_err());
}

#[test]
fn tcp_read_write_without_open_errors() {
    let mut t = TcpTransport::new("127.0.0.1", 1);
    assert_eq!(t.name(), "tcp");
    let e = t.ready().unwrap_err();
    assert_eq!(e, TransportError::io(IoFaultKind::NotConnected, "tcp transport not open"));
    t.opened();
    assert!(t.ready().is_ok());
    assert!(t.close());
    // Idempotent close
    assert!(!t.close());
}

// --- replay ----------------------------------------------------------------

#[test]
fn parse_dump_fixture_style() {
    let text = "< 0x0\t ff 00 ff a5 01\n< 0x5\t 02 03\n";
    assert_eq!(
        parse_hex_bytes(text),
        vec![0xff, 0x00, 0xff, 0xa5, 0x01, 0x02, 0x03]
    );
}

#[test]
fn parse_contiguous_and_comments() {
    let text = "# comment\nAABB\n/* c */\nCC\n";
    assert_eq!(parse_hex_bytes(text), vec![0xaa, 0xbb, 0xcc]);
}

#[test]
fn colon_address_prefix() {
    let text = "0000: aa bb\n0010: cc\n";
    assert_eq!(parse_hex_bytes(text), vec![0xaa, 0xbb, 0xcc]);
}

#[test]
fn recordings_of_other_shapes() {
    assert_eq!(parse_hex_bytes("a b c"), vec![0xab]);
    assert_eq!(parse_hex_bytes(": aa"), vec![0xaa]);
    assert_eq!(parse_hex_bytes("yy: aa"), vec![0xaa]);
    assert_eq!(parse_hex_bytes("0x1F: aa"), vec![0xaa]);
    assert_eq!(parse_hex_bytes("<aabb"), vec![0xaa, 0xbb]);
    assert_eq!(parse_hex_bytes("# aa"), vec![0xaa]);
    assert_eq!(parse_hex_bytes(""), Vec::<u8>::new());
}

#[test]
fn replay_from_bytes_chunked() {
    let mut t = ReplayTransport::from_bytes(vec![1, 2, 3, 4, 5]);
    assert!(t.to_load().is_none());
    t.open("");
    assert_eq!(t.read(2).unwrap(), vec![1, 2]);
    assert_eq!(t.read(2).unwrap(), vec![3, 4]);
    assert_eq!(t.remaining(), 1);
    assert_eq!(t.read(2).unwrap(), vec![5]);
    assert_eq!(t.read(2).unwrap().len(), 0);
    t.close();
}

#[test]
fn injected_disconnect() {
    let mut t = ReplayTransport::from_bytes(vec![9, 8, 7, 6]).disconnect_after_reads(1);
    t.open("");
    assert_eq!(t.read(2).unwrap().len(), 2);
    let err = t.read(2).expect_err("disconnect");
    assert!(matches!(err, TransportError::Io(_)));
    // Once: after it is opened again the recording starts over.
    assert!(t.read(2).is_err());
    t.open("");
    assert_eq!(t.read(9).unwrap(), vec![9, 8, 7, 6]);
}

#[test]
fn write_rejected_unless_allowed() {
    let mut t = ReplayTransport::from_bytes(vec![1]);
    t.open("");
    assert!(t.write(b"x").is_err());
    let mut t = ReplayTransport::from_bytes(vec![1]).allow_write(true);
    t.open("");
    t.write(b"x").unwrap();
}

#[test]
fn not_open_errors() {
    let mut t = ReplayTransport::from_bytes(vec![1]);
    assert!(t.read(1).is_err());
}

#[test]
fn recordings_are_loaded_when_opened() {
    let mut t = ReplayTransport::from_path("x.hex");
    assert_eq!(t.label(), "replay:x.hex");
    assert_eq!(t.name(), "replay");
    assert!(t.is_empty());
    assert_eq!(t.to_load(), Some("x.hex"));
    t.open("0000: ff 00\n");
    assert_eq!((t.len(), t.remaining()), (2, 2));
    assert_eq!(t.read(0).unwrap(), Vec::<u8>::new());
    assert_eq!(t.read(8).unwrap(), vec![0xff, 0x00]);
    t.close();
    t.open("aa");
    assert_eq!(t.read(8).unwrap(), vec![0xaa]);

    let mut once = ReplayTransport::from_path("x.hex").rewind_on_open(false);
    once.open("ff00");
    assert_eq!(once.read(1).unwrap(), vec![0xff]);
    assert!(once.to_load().is_none());
    once.open("aaaa");
    assert_eq!(once.read(9).unwrap(), vec![0x00]);
    assert_eq!(once.read(9).unwrap(), Vec::<u8>::new());
}

// --- backoff ---------------------------------------------------------------

#[test]
fn exponential_grows_then_caps() {
    let mut b = Backoff::deterministic(BackoffConfig {
        initial: Duration::from_millis(10),
        max: Duration::from_millis(80),
        multiplier: 2,
        jitter_pct: 0,
    });
    assert_eq!(b.next_delay(), Duration::from_millis(10));
    assert_eq!(b.next_delay(), Duration::from_millis(20));
    assert_eq!(b.next_delay(), Duration::from_millis(40));
    assert_eq!(b.next_delay(), Duration::from_millis(80));
    assert_eq!(b.next_delay(), Duration::from_millis(80));
    b.reset();
    assert_eq!(b.attempt(), 0);
    assert_eq!(b.next_delay(), Duration::from_millis(10));
}

#[test]
fn default_and_accelerated_configs() {
    let d = BackoffConfig::default();
    assert!(d.initial < d.max);
    let a = BackoffConfig::accelerated_for_tests();
    assert!(a.max <= Duration::from_millis(50));
}

#[test]
fn jitter_stays_near_base() {
    let mut b = Backoff::new(BackoffConfig {
        initial: Duration::from_millis(100),
        max: Duration::from_secs(1),
        multiplier: 2,
        jitter_pct: 25,
    });
    for _ in 0..20 {
        let d = b.next_delay();
        // First attempt base=100 ±25 → [75, 125]
        assert!(d >= Duration::from_millis(50));
        assert!(d <= Duration::from_millis(200));
        assert!(d >= Duration::from_millis(75));
        assert!(d <= Duration::from_millis(125));
        b.reset();
    }
}

#[test]
fn no_delay_exceeds_the_cap() {
    let mut b = Backoff::new(BackoffConfig::default());
    let mut longest = Duration::from_millis(0);
    for _ in 0..200 {
        let d = b.next_delay();
        assert!(d <= Duration::from_secs(30));
        if d > longest {
            longest = d;
        }
    }
    assert!(longest > Duration::from_millis(22_500));
    assert_eq!(Duration::from_millis(7).as_nanos(), 7_000_000);
}

#[test]
fn zero_initial_jitter_ok() {
    let mut b = Backoff::new(BackoffConfig {
        initial: Duration::from_millis(0),
        max: Duration::from_millis(10),
        multiplier: 2,
        jitter_pct: 50,
    });
    assert_eq!(b.next_delay(), Duration::from_millis(0));
}

#[test]
fn jitter_spreads_delays() {
    let mut b = Backoff::new(BackoffConfig {
        initial: Duration::from_secs(1000),
        max: Duration::from_secs(1000),
        multiplier: 2,
        jitter_pct: 25,
    });
    let mut seen = std::collections::BTreeSet::new();
    for _ in 0..50 {
        seen.insert(b.next_delay().as_millis());
        b.reset();
    }
    assert!(seen.len() > 1);
    assert!(seen.iter().all(|ms| (750_000..=1_250_000).contains(ms)));
}

#[test]
fn ranges_to_pick_from() {
    let ms = Duration::from_millis;
    assert_eq!(jitter_range(ms(100), 25), Some((75, 125)));
    assert_eq!(jitter_range(ms(1), 10), Some((0, 2)));
    assert_eq!(jitter_range(ms(10), 300), Some((0, 40)));
    assert_eq!(jitter_range(ms(0), 25), None);
    assert_eq!(jitter_range(ms(u64::MAX), 100), Some((u64::MAX - u64::MAX / 100, u64::MAX)));
}

#[test]
fn delays_at_the_edges() {
    let cfg = |initial: u64, max: u64, multiplier: u32| BackoffConfig {
        initial: Duration::from_millis(initial),
        max: Duration::from_millis(max),
        multiplier,
        jitter_pct: 25,
    };
    // A start above the cap is capped at once.
    let mut b = Backoff::deterministic(cfg(90, 80, 2));
    assert_eq!(b.next_delay(), Duration::from_millis(80));
    // No factor counts as one.
    let mut b = Backoff::deterministic(cfg(7, 80, 0));
    for _ in 0..5 {
        assert_eq!(b.next_delay(), Duration::from_millis(7));
    }
    assert_eq!(b.attempt(), 5);
    // Growth beyond any number is the cap.
    let mut b = Backoff::deterministic(cfg(u64::MAX, u64::MAX, u32::MAX));
    assert_eq!(b.next_delay(), Duration::from_millis(u64::MAX));
    for _ in 0..9 {
        assert_eq!(b.next_delay(), Duration::from_millis(u64::MAX));
    }
    assert_eq!(Duration::from_secs(3).as_millis(), 3000);
    assert_eq!(Duration::from_secs(3).min(Duration::from_millis(5)), Duration::from_millis(5));
}

// --- the actor -------------------------------------------------------------

const INFO: &str = "ffffffffffffffff00ffa50c0f10080d4848555a620400000000000000028a";

/// A transport that follows a script.
struct Scripted {
    opens: u32,
    max_opens: u32,
    payload: Vec<u8>,
    pos: usize,
    fail_open_times: u32,
    disconnect_after: Option<u32>,
    reads: u32,
}

impl Scripted {
    fn new(payload: Vec<u8>) -> Self {
        Scripted {
            opens: 0,
            max_opens: u32::MAX,
            payload,
            pos: 0,
            fail_open_times: 0,
            disconnect_after: None,
            reads: 0,
        }
    }

    fn open(&mut self) -> bool {
        self.opens += 1;
        if self.opens <= self.fail_open_times || self.opens > self.max_opens {
            return false;
        }
        self.pos = 0;
        self.reads = 0;
        true
    }

    fn read(&mut self, room: usize) -> Option<Vec<u8>> {
        if let Some(after) = self.disconnect_after {
            if self.reads >= after {
                return None;
            }
        }
        let n = room.min(self.payload.len() - self.pos);
        let data = self.payload[self.pos..self.pos + n].to_vec();
        self.pos += n;
        self.reads += 1;
        Some(data)
    }
}

/// Runs an actor to its end; `steps` is when it is told to stop.
fn drive(actor: &mut BusActor, t: &mut Scripted, steps: u32) -> (BusStats, Vec<Frame>, Vec<Duration>) {
    let mut frames = Vec::new();
    let mut delays = Vec::new();
    let mut event = ActorEvent::Ready { shutdown: false };
    for step in 0..1000 {
        let shutdown = step >= steps;
        event = match actor.run(event) {
            ActorAction::Open => {
                if t.open() {
                    ActorEvent::Opened
                } else {
                    ActorEvent::OpenFailed { shutdown }
                }
            }
            ActorAction::Read if shutdown => ActorEvent::Shutdown,
            ActorAction::Read => match t.read(actor.read_size()) {
                Some(data) => ActorEvent::Bytes { data, shutdown },
                None => ActorEvent::ReadFailed { shutdown },
            },
            ActorAction::Deliver(frame) => {
                frames.push(frame);
                ActorEvent::Delivered
            }
            ActorAction::Wait { delay, .. } => {
                delays.push(delay);
                ActorEvent::Ready { shutdown }
            }
            ActorAction::Stop(stats) => return (stats, frames, delays),
        };
    }
    panic!("the actor did not stop");
}

#[test]
fn actor_frames_replay_fixture() {
    let mut cfg = BusActorConfig::accelerated_for_tests();
    cfg.reconnect_on_eof = false;
    let mut t = Scripted::new(parse_hex_bytes(INFO));
    let mut actor = BusActor::new(cfg);
    let (stats, frames, delays) = drive(&mut actor, &mut t, u32::MAX);
    assert!(stats.frames >= 1, "expected framed messages, got {}", stats.frames);
    assert!(stats.connects >= 1);
    assert!(!frames.is_empty());
    assert_eq!((stats.frames, stats.connects, stats.reconnects), (1, 1, 0));
    assert_eq!(stats.bytes_read, 31);
    assert!(delays.is_empty());
}

#[test]
fn actor_reconnects_after_disconnect() {
    let mut scripted = Scripted::new(parse_hex_bytes(INFO));
    scripted.disconnect_after = Some(1);
    scripted.max_opens = 3;

    let mut cfg = BusActorConfig::accelerated_for_tests();
    cfg.max_reconnects = Some(2);
    cfg.reconnect_on_eof = true;

    let mut actor = BusActor::new(cfg);
    let (stats, frames, _) = drive(&mut actor, &mut scripted, u32::MAX);
    assert!(stats.connects >= 2, "connects={}", stats.connects);
    assert!(stats.reconnects >= 1);
    assert!(stats.stopped_on_max_reconnects || stats.reconnects >= 1);
    assert_eq!((stats.connects, stats.reconnects), (3, 2));
    assert!(stats.stopped_on_max_reconnects);
    assert_eq!(frames.len(), 3);
}

#[test]
fn actor_retries_failed_connect() {
    let mut scripted = Scripted::new(vec![0xff, 0x00, 0xff, 0xa5]);
    scripted.fail_open_times = 2;
    scripted.max_opens = 3;

    let mut cfg = BusActorConfig::accelerated_for_tests();
    cfg.reconnect_on_eof = false;
    cfg.max_reconnects = Some(5);

    let mut actor = BusActor::new(cfg);
    let (stats, _, delays) = drive(&mut actor, &mut scripted, u32::MAX);
    assert!(stats.connects >= 1);
    assert_eq!((stats.connects, stats.reconnects), (1, 2));
    assert_eq!(delays, vec![Duration::from_millis(1), Duration::from_millis(2)]);
}

#[test]
fn shutdown_during_backoff() {
    let mut scripted = Scripted::new(vec![]);
    scripted.fail_open_times = 100;
    let mut cfg = BusActorConfig::accelerated_for_tests();
    cfg.backoff.initial = Duration::from_secs(30);

    let mut actor = BusActor::new(cfg);
    let (stats, _, _) = drive(&mut actor, &mut scripted, 2);
    assert_eq!(stats.connects, 0);
}

#[test]
fn counters_snapshot() {
    let mut c = BusCounters::default();
    c.connects = 3;
    c.frames = 9;
    let s = c.snapshot();
    assert_eq!(s.connects, 3);
    assert_eq!(s.frames, 9);
}

#[test]
fn counters_follow_the_actor() {
    let mut cfg = BusActorConfig::default();
    assert_eq!((cfg.read_buf_size, cfg.reconnect_on_eof, cfg.max_reconnects), (512, true, None));
    cfg.read_buf_size = 0;
    let mut actor = BusActor::new(cfg);
    assert_eq!(actor.read_size(), 1);
    assert_eq!(actor.counters(), BusCounters::default());
    actor.run(ActorEvent::Ready { shutdown: false });
    actor.run(ActorEvent::Opened);
    assert!(actor.counters().connected);
    let data = parse_hex_bytes(INFO);
    let n = data.len() as u64;
    assert!(matches!(
        actor.run(ActorEvent::Bytes { data, shutdown: false }),
        ActorAction::Deliver(_)
    ));
    assert_eq!((actor.counters().frames, actor.counters().bytes_read), (1, n));
    assert!(matches!(actor.run(ActorEvent::Delivered), ActorAction::Read));
    match actor.run(ActorEvent::ReadFailed { shutdown: false }) {
        ActorAction::Wait { delay, close } => {
            assert!(close);
            assert!(delay >= Duration::from_millis(375) && delay <= Duration::from_millis(625));
        }
        other => panic!("unexpected {other:?}"),
    }
    assert!(!actor.counters().connected);
    assert_eq!(actor.counters().reconnects, 1);
}

#[test]
fn a_gone_receiver_stops_the_actor() {
    let mut actor = BusActor::new(BusActorConfig::accelerated_for_tests());
    actor.run(ActorEvent::Ready { shutdown: false });
    actor.run(ActorEvent::Opened);
    let mut data = parse_hex_bytes(INFO);
    *data.last_mut().unwrap() ^= 1;
    data.extend(parse_hex_bytes(INFO));
    assert!(matches!(
        actor.run(ActorEvent::Bytes { data, shutdown: false }),
        ActorAction::Deliver(_)
    ));
    match actor.run(ActorEvent::ReceiverGone) {
        ActorAction::Stop(stats) => {
            assert_eq!((stats.frames, stats.checksum_failures), (1, 1));
            assert!(!stats.stopped_on_max_reconnects);
        }
        other => panic!("unexpected {other:?}"),
    }
}

#[test]
fn reads_of_any_size_hand_on_the_same_frames() {
    let mut payload = parse_hex_bytes(INFO);
    payload.extend_from_slice(&[0x10, 0x02, 0x50, 0x00, 0x00, 0x62, 0x10, 0x03]);
    payload.extend(parse_hex_bytes(INFO));
    let mut cfg = BusActorConfig::accelerated_for_tests();
    cfg.reconnect_on_eof = false;
    let mut all = Vec::new();
    for size in [1, 2, 3, 7, 64] {
        cfg.read_buf_size = size;
        let mut actor = BusActor::new(cfg);
        let (stats, frames, _) = drive(&mut actor, &mut Scripted::new(payload.clone()), u32::MAX);
        assert_eq!(stats.frames, 3);
        assert_eq!(stats.bytes_read, payload.len() as u64);
        all.push(frames);
    }
    assert!(all.iter().all(|f| *f == all[0]));
}

#[test]
fn an_old_connection_leaves_no_bytes_behind() {
    let raw = parse_hex_bytes(INFO);
    let mut actor = BusActor::new(BusActorConfig::accelerated_for_tests());
    actor.run(ActorEvent::Ready { shutdown: false });
    actor.run(ActorEvent::Opened);
    actor.run(ActorEvent::Bytes { data: raw[..20].to_vec(), shutdown: false });
    actor.run(ActorEvent::Bytes { data: vec![], shutdown: false });
    actor.run(ActorEvent::Ready { shutdown: false });
    actor.run(ActorEvent::Opened);
    assert!(matches!(
        actor.run(ActorEvent::Bytes { data: raw[20..].to_vec(), shutdown: false }),
        ActorAction::Read
    ));
    assert!(matches!(actor.run(ActorEvent::Shutdown), ActorAction::Stop(_)));
}
