use instrument_ctl::error::TransportError;
use instrument_ctl::interface::InstrumentClient;
use instrument_ctl::Instrument;
use std::sync::Arc;
use std::sync::Mutex;
use std::time::Duration;

/// A test double connector: records every call it receives, so a test can
/// check which connector instance the facade routed a call to.
struct RecordingClient {
    calls: Mutex<Vec<String>>,
    timeouts: Mutex<Vec<Duration>>,
}

impl RecordingClient {
    fn new() -> RecordingClient {
        RecordingClient { calls: Mutex::new(Vec::new()), timeouts: Mutex::new(Vec::new()) }
    }
}

impl InstrumentClient for RecordingClient {
    fn set_timeout(&self, duration: Duration) {
        self.timeouts.lock().unwrap().push(duration);
    }

    fn command(&self, cmd: &str) -> Result<(), TransportError> {
        self.calls.lock().unwrap().push(format!("command {}", cmd));
        Ok(())
    }

    fn query_raw(&self, cmd: &str) -> Result<Vec<u8>, TransportError> {
        self.calls.lock().unwrap().push(format!("query_raw {}", cmd));
        Ok(vec![0x41, 0x42, 0x43])
    }

    fn query(&self, cmd: &str) -> Result<String, TransportError> {
        self.calls.lock().unwrap().push(format!("query {}", cmd));
        Ok("MODEL-1234".to_string())
    }
}

/// A test double connector that fails every operation.
struct FailingClient;

impl InstrumentClient for FailingClient {
    fn set_timeout(&self, _duration: Duration) {}

    fn command(&self, _cmd: &str) -> Result<(), TransportError> {
        Err(TransportError { message: "bus gone".to_string() })
    }

    fn query_raw(&self, _cmd: &str) -> Result<Vec<u8>, TransportError> {
        Err(TransportError { message: "bus gone".to_string() })
    }

    fn query(&self, _cmd: &str) -> Result<String, TransportError> {
        Err(TransportError { message: "bus gone".to_string() })
    }
}

#[test]
fn command_then_query_use_the_same_connector() {
    let client = Arc::new(RecordingClient::new());
    let instrument = Instrument::from_client(Arc::clone(&client));
    instrument.command("*IDN").unwrap();
    let answer = instrument.query("*IDN?").unwrap();
    assert_eq!(answer, "MODEL-1234");
    let calls = client.calls.lock().unwrap().clone();
    assert_eq!(calls, vec!["command *IDN".to_string(), "query *IDN?".to_string()]);
}

#[test]
fn query_raw_passes_bytes_through() {
    let client = Arc::new(RecordingClient::new());
    let instrument = Instrument::from_client(Arc::clone(&client));
    let bytes = instrument.query_raw("CURVE?").unwrap();
    assert_eq!(bytes, vec![0x41, 0x42, 0x43]);
    assert_eq!(client.calls.lock().unwrap().clone(), vec!["query_raw CURVE?".to_string()]);
}

#[test]
fn cloned_handles_share_one_connection() {
    let client = Arc::new(RecordingClient::new());
    let first = Instrument::from_client(Arc::clone(&client));
    let second = first.clone();
    first.set_timeout(Duration::from_millis(250));
    second.set_timeout(Duration::from_millis(750));
    second.command("TRIG").unwrap();
    let timeouts = client.timeouts.lock().unwrap().clone();
    assert_eq!(timeouts, vec![Duration::from_millis(250), Duration::from_millis(750)]);
    let calls = client.calls.lock().unwrap().clone();
    assert_eq!(calls, vec!["command TRIG".to_string()]);
}

#[test]
fn transport_failures_surface_per_call() {
    let instrument = Instrument::from_client(Arc::new(FailingClient));
    assert_eq!(instrument.command("*RST").unwrap_err().message, "bus gone");
    assert_eq!(instrument.query("*IDN?").unwrap_err().message, "bus gone");
    assert_eq!(instrument.query_raw("*IDN?").unwrap_err().message, "bus gone");
}

#[test]
fn transport_error_describes_itself() {
    let e = TransportError { message: "device not found".to_string() };
    assert_eq!(e.describe(), "device not found");
}
