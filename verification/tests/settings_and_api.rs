use pentairservice::api::command::{dispatch, map_err, CircuitRef, CommandRequest};
use pentairservice::api::health::{health, HealthResponse};
use pentairservice::api::status::{get_frames, get_status, FramesQuery};
use pentairservice::commands::fixtures;
use pentairservice::commands::{CMD_CIRCUIT_CHANGE, CMD_HEAT_CHANGE};
use pentairservice::config::{
    resolve_config_path, Config, ConfigBuilder, ConfigError, EnvConfig, FileConfig,
    DEFAULT_BIND_ADDR, DEFAULT_LOG_LEVEL,
};
use pentairservice::registry::MessageRegistry;
use pentairservice::state::{apply_raw_a5_for_test, BusState};
use pentairservice::transport::{IoFaultKind, TransportError};
use pentairservice::write::{GateStep, WriteGate, WriteGateError, WriteResult, WriteVerdict};
use pentairservice::{log_transport_idle_state, spawn_bus_if_configured, BusPlan};

// --- settings --------------------------------------------------------------

fn no_env() -> EnvConfig {
    EnvConfig { bind_addr: None, transport_url: None, log_level: None }
}

fn text(s: &str) -> Option<String> {
    Some(s.to_string())
}

#[test]
fn defaults_idle_without_transport() {
    let cfg = Config::default();
    assert_eq!(cfg.bind_addr, DEFAULT_BIND_ADDR);
    assert!(!cfg.has_transport());
    assert_eq!(cfg.log_level, DEFAULT_LOG_LEVEL);
}

#[test]
fn builder_sets_fields() {
    let cfg = ConfigBuilder::new()
        .bind_addr("127.0.0.1:9090")
        .transport_url("tcp://ew11.local:8899")
        .log_level("debug")
        .build()
        .unwrap();
    assert_eq!(cfg.bind_addr, "127.0.0.1:9090");
    assert_eq!(cfg.transport_url.as_deref(), Some("tcp://ew11.local:8899"));
    assert!(cfg.has_transport());
    assert_eq!(cfg.log_level, "debug");
}

#[test]
fn empty_transport_url_clears() {
    let cfg = ConfigBuilder::new()
        .transport_url("tcp://h:1")
        .transport_url("")
        .build()
        .unwrap();
    assert!(!cfg.has_transport());
}

#[test]
fn clear_transport() {
    let cfg = ConfigBuilder::new()
        .transport_url("/dev/ttyUSB0")
        .clear_transport()
        .build()
        .unwrap();
    assert!(!cfg.has_transport());
}

#[test]
fn empty_bind_addr_errors() {
    let err = ConfigBuilder::new().bind_addr("   ").build().unwrap_err();
    assert!(matches!(err, ConfigError::EmptyBindAddr));
}

#[test]
fn merge_file_parses_toml() {
    let file = FileConfig {
        bind_addr: text("0.0.0.0:18080"),
        transport_url: text("tcp://10.0.0.5:8899"),
        log_level: text("warn"),
    };
    let cfg = ConfigBuilder::new().merge_file(file).build().unwrap();
    assert_eq!(cfg.bind_addr, "0.0.0.0:18080");
    assert_eq!(cfg.transport_url.as_deref(), Some("tcp://10.0.0.5:8899"));
    assert_eq!(cfg.log_level, "warn");
}

#[test]
fn env_overrides_file() {
    let file = FileConfig {
        bind_addr: text("0.0.0.0:1"),
        transport_url: text("tcp://file:1"),
        log_level: text("error"),
    };
    let env = EnvConfig {
        bind_addr: text("127.0.0.1:8080"),
        transport_url: text(""),
        log_level: text("debug"),
    };
    let cfg = Config::load(Some(file), env).unwrap();
    assert_eq!(cfg.bind_addr, "127.0.0.1:8080");
    assert!(!cfg.has_transport());
    assert_eq!(cfg.log_level, "debug");
}

#[test]
fn load_defaults_when_no_file_or_env() {
    let cfg = ConfigBuilder::new().build().unwrap();
    assert_eq!(cfg, Config::default());
    assert_eq!(Config::load(None, no_env()).unwrap(), Config::default());
}

#[test]
fn has_transport_false_for_whitespace() {
    let cfg = Config {
        bind_addr: DEFAULT_BIND_ADDR.into(),
        transport_url: Some("  ".into()),
        log_level: DEFAULT_LOG_LEVEL.into(),
    };
    assert!(!cfg.has_transport());
}

#[test]
fn resolve_config_path_from_env() {
    assert_eq!(
        resolve_config_path(Some("/tmp/custom.toml"), false).as_deref(),
        Some("/tmp/custom.toml")
    );
}

#[test]
fn resolve_config_path_empty_env_falls_through() {
    // An empty variable must not yield an empty path.
    assert_eq!(resolve_config_path(Some(""), false), None);
    assert_eq!(resolve_config_path(Some(""), true).as_deref(), Some("config.toml"));
    assert_eq!(resolve_config_path(None, true).as_deref(), Some("config.toml"));
    assert_eq!(resolve_config_path(None, false), None);
    assert_eq!(resolve_config_path(Some("a.toml"), true).as_deref(), Some("a.toml"));
}

#[test]
fn merge_file_partial_and_empty_transport() {
    let file = FileConfig { bind_addr: None, transport_url: text(""), log_level: None };
    let cfg = ConfigBuilder::new()
        .bind_addr("127.0.0.1:7")
        .merge_file(file)
        .build()
        .unwrap();
    assert_eq!(cfg.bind_addr, "127.0.0.1:7");
    assert!(!cfg.has_transport());
}

#[test]
fn empty_env_bind_ignored() {
    let env = EnvConfig { bind_addr: text(""), transport_url: None, log_level: text("") };
    let cfg = ConfigBuilder::new().from_env_and_disk(None, env).build().unwrap();
    assert!(!cfg.bind_addr.is_empty());
    assert_eq!(cfg, Config::default());
}

#[test]
fn config_error_display() {
    let err = ConfigError::EmptyBindAddr;
    assert!(err.to_string().contains("bind_addr"));
    let io = ConfigError::Io {
        path: "/x".into(),
        source: "nope".into(),
    };
    assert!(io.to_string().contains("/x"));
    assert_eq!(io.to_string(), "failed to read config file /x: nope");
    assert_eq!(
        ConfigError::Toml("bad".into()).to_string(),
        "failed to parse config TOML: bad"
    );
    assert_eq!(err.to_string(), "bind_addr must not be empty");
}

#[test]
fn a_blank_address_in_the_environment_is_refused() {
    let env = EnvConfig { bind_addr: text(" "), transport_url: None, log_level: None };
    assert_eq!(Config::load(None, env), Err(ConfigError::EmptyBindAddr));
}

#[test]
fn log_transport_idle_with_and_without_url() {
    let idle = Config::default();
    let notice = log_transport_idle_state(&idle);
    assert_eq!(notice.transport_url, None);
    assert!(notice.message.starts_with("no transport_url configured"));

    let with_url = Config {
        bind_addr: "127.0.0.1:0".into(),
        transport_url: Some("tcp://127.0.0.1:8899".into()),
        log_level: "info".into(),
    };
    let notice = log_transport_idle_state(&with_url);
    assert_eq!(notice.transport_url.as_deref(), Some("tcp://127.0.0.1:8899"));
    assert!(notice.message.starts_with("transport configured"));

    let blank = Config {
        bind_addr: "127.0.0.1:0".into(),
        transport_url: Some("  ".into()),
        log_level: "info".into(),
    };
    assert_eq!(log_transport_idle_state(&blank).transport_url, None);
}

#[test]
fn spawn_bus_invalid_url_still_ok() {
    let cfg = Config {
        bind_addr: "127.0.0.1:0".into(),
        transport_url: Some("http://not-supported".into()),
        log_level: "info".into(),
    };
    assert!(spawn_bus_if_configured(&cfg).is_none());
    assert!(matches!(spawn_bus_if_configured(&cfg), BusPlan::Refused(_)));
}

#[test]
fn spawn_bus_none_without_url() {
    let cfg = Config::default();
    assert!(spawn_bus_if_configured(&cfg).is_none());
    assert!(matches!(spawn_bus_if_configured(&cfg), BusPlan::Idle));
}

#[test]
fn a_configured_bus_is_spawned() {
    let cfg = ConfigBuilder::new().transport_url(" tcp://h:1 ").build().unwrap();
    assert_eq!(cfg.transport().as_deref(), Some("tcp://h:1"));
    match spawn_bus_if_configured(&cfg) {
        BusPlan::Spawn(t) => assert_eq!(t.name(), "tcp"),
        other => panic!("unexpected {other:?}"),
    }
    assert!(!spawn_bus_if_configured(&cfg).is_none());
}

// --- health and status -----------------------------------------------------

const INFO: &str = "ffffffffffffffff00ffa50c0f10080d4848555a620400000000000000028a";
const LIGHT_ON: &str =
    "ff00ffa50c0f10021d13330000000000000021000000043b3b00003c00000004000085df000d0381";

fn hx(s: &str) -> Vec<u8> {
    (0..s.len())
        .step_by(2)
        .map(|i| u8::from_str_radix(&s[i..i + 2], 16).unwrap())
        .collect()
}

fn seed_state() -> BusState {
    let mut state = BusState::default();
    let reg = MessageRegistry::with_defaults();
    apply_raw_a5_for_test(&mut state, &reg, &hx(INFO));
    apply_raw_a5_for_test(&mut state, &reg, &hx(LIGHT_ON));
    state
}

#[test]
fn health_response_ok_payload() {
    assert_eq!(HealthResponse::ok().status, "ok");
}

#[test]
fn health_handler_returns_ok_json() {
    let (status, body) = health();
    assert_eq!(status, 200);
    assert_eq!(body.status, "ok");
}

#[test]
fn status_returns_php_field_names() {
    let (status, body) = get_status(&seed_state());
    assert_eq!(status, 200);
    let system = body.system_status.unwrap();
    assert_eq!(system.hours, 0x13);
    assert_eq!(system.water_temp, 0x3B);
    assert_eq!(system.circuit_status.filter_pump, "off");
    let temps = body.temp_status.unwrap();
    assert_eq!(temps.water_set, 0x5A);
    assert_eq!(temps.spa_set, 0x62);
    assert!(body.frames_seen >= 2);
}

#[test]
fn frames_respects_limit() {
    let (_, body) = get_frames(&seed_state(), FramesQuery { limit: 1 });
    assert_eq!(body.count, 1);
    assert_eq!(body.frames.len(), 1);
    // Newest is SystemStatus (LIGHT_ON applied last).
    assert_eq!(body.frames[0].message.as_ref().unwrap().command(), 0x02);
}

#[test]
fn frames_default_limit() {
    let q = FramesQuery::default();
    assert_eq!(q.limit, 32);
}

#[test]
fn empty_status_nulls() {
    let (_, body) = get_status(&BusState::default());
    assert!(body.system_status.is_none());
    assert!(body.temp_status.is_none());
}

#[test]
fn frames_limit_is_held() {
    let reg = MessageRegistry::with_defaults();
    let mut state = BusState::with_capacity(300);
    for _ in 0..200 {
        apply_raw_a5_for_test(&mut state, &reg, &hx(INFO));
    }
    assert_eq!(get_frames(&state, FramesQuery { limit: 0 }).1.count, 1);
    assert_eq!(get_frames(&state, FramesQuery { limit: 128 }).1.count, 128);
    assert_eq!(get_frames(&state, FramesQuery { limit: 999 }).1.count, 128);
}

// --- commands --------------------------------------------------------------

/// What a free gate with writes disabled answers.
fn post(req: CommandRequest) -> Result<WriteResult, (u16, String, String)> {
    post_to(&mut WriteGate::new(false, 50, false), req)
}

fn post_to(gate: &mut WriteGate, req: CommandRequest) -> Result<WriteResult, (u16, String, String)> {
    match dispatch(gate, req) {
        Ok(GateStep::Done(r)) => Ok(r),
        Ok(GateStep::Transmit(p)) => panic!("nothing is to be sent: {p:?}"),
        Err(e) => {
            let (status, body) = map_err(e);
            Err((status, body.error, body.message))
        }
    }
}

fn heat(pool: Option<u8>, spa: Option<u8>, mode: Option<u8>) -> CommandRequest {
    CommandRequest {
        kind: text("HeatChange"),
        pool_set: pool,
        spa_set: spa,
        mode,
        ..CommandRequest::default()
    }
}

fn circuit(kind: &str, circuit: Option<CircuitRef>, on: Option<bool>) -> CommandRequest {
    CommandRequest { kind: text(kind), circuit, on, ..CommandRequest::default() }
}

#[test]
fn post_heat_typed_dry_run() {
    let body = post(heat(Some(43), Some(96), Some(5))).unwrap();
    assert_eq!(body.dry_run, true);
    assert_eq!(body.tx_hex, fixtures::SET_TEMP);
    assert_eq!(body.verdict, WriteVerdict::Ack);
    assert_eq!(body.command, CMD_HEAT_CHANGE);
}

#[test]
fn post_circuit_by_name() {
    let name = CircuitRef::Name("pool_light".into());
    let body = post(circuit("CircuitChange", Some(name), Some(true))).unwrap();
    assert_eq!(body.command, CMD_CIRCUIT_CHANGE);
    assert_eq!(body.verdict, WriteVerdict::Ack);
    assert!(body.dry_run);
}

#[test]
fn post_raw_hex_heat() {
    let req = CommandRequest { hex: text(fixtures::SET_TEMP), ..CommandRequest::default() };
    let body = post(req).unwrap();
    assert_eq!(body.tx_hex, fixtures::SET_TEMP);
    assert_eq!(body.verdict, WriteVerdict::Ack);
}

#[test]
fn post_missing_fields_400() {
    let (status, error, _) = post(heat(None, None, None)).unwrap_err();
    assert_eq!(status, 400);
    assert_eq!(error, "unsupported");
}

#[test]
fn busy_returns_409() {
    let mut gate = WriteGate::new(false, 500, false);
    gate.try_lock().unwrap();
    let req = circuit("CircuitChange", Some(CircuitRef::Number(1)), Some(false));
    let (status, error, _) = post_to(&mut gate, req).unwrap_err();
    assert_eq!(status, 409);
    assert_eq!(error, "busy");
    gate.release();
}

#[test]
fn post_heat_missing_spa_and_unknown_type() {
    let (s, _, message) = post(heat(Some(40), None, None)).unwrap_err();
    assert_eq!(s, 400);
    assert!(message.contains("spaSet"));

    let (s2, error2, message2) = post(circuit("PumpChange", None, None)).unwrap_err();
    assert_eq!(s2, 400);
    assert_eq!(error2, "unsupported");
    assert_eq!(
        message2,
        "unsupported write command: pumpchange (only CircuitChange / HeatChange / hex)"
    );

    let (s3, _, message3) = post(CommandRequest::default()).unwrap_err();
    assert_eq!(s3, 400);
    assert_eq!(
        message3,
        "unsupported write command: provide type (CircuitChange|HeatChange) or hex"
    );
}

#[test]
fn post_circuit_status_and_bad_circuit() {
    let mut req = circuit("circuit", Some(CircuitRef::Number(1)), None);
    req.status = Some(1);
    let body = post(req).unwrap();
    assert_eq!(body.command, CMD_CIRCUIT_CHANGE);

    let (s2, _, m2) =
        post(circuit("CircuitChange", Some(CircuitRef::Other), Some(true))).unwrap_err();
    assert_eq!(s2, 400);
    assert!(m2.ends_with("circuit must be number or name string"));

    let (s3, _, m3) =
        post(circuit("CircuitChange", Some(CircuitRef::Number(300)), Some(true))).unwrap_err();
    assert_eq!(s3, 400);
    assert!(m3.ends_with("circuit id out of range"));

    let (s4, _, m4) =
        post(circuit("CircuitChange", Some(CircuitRef::Number(1)), None)).unwrap_err();
    assert_eq!(s4, 400);
    assert!(m4.ends_with("CircuitChange requires on or status"));
}

#[test]
fn post_no_write_handle_503() {
    let mut gate = WriteGate::new(true, 10, false);
    let (status, error, _) = post_to(&mut gate, heat(Some(40), Some(90), Some(0))).unwrap_err();
    assert_eq!(status, 503);
    assert_eq!(error, "no_write_handle");
}

#[test]
fn post_bad_hex_400() {
    let req = CommandRequest { hex: text("zz"), ..CommandRequest::default() };
    let (s, error, _) = post(req).unwrap_err();
    assert_eq!(s, 400);
    assert_eq!(error, "bad_command");
}

#[test]
fn hex_counts_before_the_kind_unless_it_is_blank() {
    let mut req = heat(Some(1), Some(2), None);
    req.hex = text("  ");
    assert_eq!(post(req).unwrap().command, CMD_HEAT_CHANGE);
    let mut req = heat(Some(1), Some(2), None);
    req.hex = text("\tff00ffa507102088042b60050001f8\n");
    assert_eq!(post(req).unwrap().tx_hex, fixtures::SET_TEMP);
}

#[test]
fn kinds_are_read_in_any_case() {
    for kind in [" HEATCHANGE ", "heat", "0x88"] {
        let mut req = heat(Some(0x2B), Some(0x60), Some(5));
        req.kind = text(kind);
        assert_eq!(post(req).unwrap().tx_hex, fixtures::SET_TEMP);
    }
    let by_name = circuit("0X86", Some(CircuitRef::Name("Spa-Light".into())), Some(true));
    let by_number = circuit("circuitchange", Some(CircuitRef::Number(5)), Some(true));
    assert_eq!(post(by_name).unwrap(), post(by_number).unwrap());
    let (s, error, message) =
        post(circuit("circuit", Some(CircuitRef::Name("nope".into())), Some(true))).unwrap_err();
    assert_eq!((s, error.as_str()), (400, "bad_command"));
    assert!(message.starts_with("unknown circuit \"nope\""));
    let (_, _, message) = post(circuit("circuit", None, Some(true))).unwrap_err();
    assert!(message.ends_with("CircuitChange requires circuit"));
}

#[test]
fn on_counts_before_status() {
    let mut req = circuit("circuit", Some(CircuitRef::Number(1)), Some(false));
    req.status = Some(1);
    let mut off = circuit("circuit", Some(CircuitRef::Number(1)), None);
    off.status = Some(0);
    assert_eq!(post(req).unwrap().tx_hex, post(off).unwrap().tx_hex);
}

#[test]
fn a_failed_transport_is_a_bad_gateway() {
    let e = WriteGateError::Transport(TransportError::io(IoFaultKind::Other, "gone"));
    let (status, body) = map_err(e);
    assert_eq!((status, body.error.as_str()), (502, "transport"));
    assert_eq!(body.message, "transport write failed: transport I/O: gone");
}

#[test]
fn a_live_gate_hands_the_write_out() {
    let mut gate = WriteGate::new(true, 10, true);
    match dispatch(&mut gate, heat(Some(0x2B), Some(0x60), Some(5))).unwrap() {
        GateStep::Transmit(p) => assert_eq!(p.data, hx(fixtures::SET_TEMP)),
        other => panic!("unexpected {other:?}"),
    }
    assert!(gate.try_lock().is_err());
}
