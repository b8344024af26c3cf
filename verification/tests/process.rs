use fipa_wasm_agents::frame::{encode_frame, read_blob, read_frame_at, write_blob, BlobError, Frame, FrameError, MAX_BLOB};
use fipa_wasm_agents::process::{build_runtime, native_agent, next_restart, AgentSpec, Limits, NativeAgent, Profile, RuntimePlan};
use fipa_wasm_agents::router::{AgentRuntime, OutboundIntent, Router};

#[test]
fn frame_roundtrip() {
    let frames = [
        Frame::Init,
        Frame::Config { from: "alice".into(), unl: b"agt(x, y)".to_vec(), body: b"data".to_vec() },
        Frame::Emit { receiver: "bob".into(), unl: b"agt(p, q)".to_vec(), body: vec![1, 2, 3] },
        Frame::Done,
    ];
    let mut buf = Vec::new();
    for f in &frames {
        buf.extend_from_slice(&encode_frame(f));
    }
    let mut pos = 0;
    for f in &frames {
        let (got, next) = read_frame_at(&buf, pos).unwrap().unwrap();
        assert_eq!(&got, f);
        pos = next;
    }
    assert_eq!(read_frame_at(&buf, pos).unwrap(), None);
}

#[test]
fn read_blob_rejects_oversized() {
    let mut buf = Vec::new();
    buf.extend_from_slice(&((MAX_BLOB as u32) + 1).to_be_bytes());
    assert!(read_blob(&buf).is_err());
}

#[test]
fn frame_bytes_are_exact_and_bad_frames_rejected() {
    assert_eq!(encode_frame(&Frame::Init), vec![0, 0, 0, 1, 0x01]);
    assert_eq!(encode_frame(&Frame::Done), vec![0, 0, 0, 1, 0x11]);
    let cfg = encode_frame(&Frame::Config { from: "a".into(), unl: vec![], body: vec![9] });
    assert_eq!(cfg, vec![0, 0, 0, 15, 0x02, 0, 0, 0, 1, b'a', 0, 0, 0, 0, 0, 0, 0, 1, 9]);
    assert_eq!(read_frame_at(&[0, 0, 0, 1, 0x07], 0), Err(FrameError::BadFrame));
    assert_eq!(read_frame_at(&[0, 0, 0, 0], 0), Err(FrameError::BadFrame));
    assert_eq!(read_frame_at(&[0, 0, 0, 5, 0x01], 0), Err(FrameError::UnexpectedEof));
    assert_eq!(read_frame_at(&[0, 0, 0, 2, 0x02, 0], 0), Err(FrameError::ShortFrame));
    assert_eq!(read_frame_at(&[0, 0, 1], 0), Err(FrameError::UnexpectedEof));
    assert_eq!(read_frame_at(&[0, 0, 1], 3), Ok(None));
    assert_eq!(read_frame_at(&[], 0), Ok(None));
}

#[test]
fn blobs_roundtrip_and_report_truncation() {
    let b = write_blob(b"hello");
    assert_eq!(b, vec![0, 0, 0, 5, b'h', b'e', b'l', b'l', b'o']);
    assert_eq!(read_blob(&b).unwrap(), b"hello".to_vec());
    assert_eq!(read_blob(&b[..6]), Err(BlobError::UnexpectedEof));
    assert_eq!(read_blob(&[0, 0]), Err(BlobError::UnexpectedEof));
    let mut big = ((MAX_BLOB as u32) + 1).to_be_bytes().to_vec();
    big.push(0);
    assert_eq!(read_blob(&big), Err(BlobError::TooLarge));
}

struct Trigger {
    on: String,
    to: String,
    unl: String,
    out: Vec<OutboundIntent>,
}

impl AgentRuntime for Trigger {
    fn init(&mut self) -> Result<(), String> {
        Ok(())
    }
    fn config(&mut self, _from: &str, unl: &[u8], _body: &[u8]) -> Result<(), String> {
        if String::from_utf8_lossy(unl).contains(&self.on) {
            self.out.push(OutboundIntent { receiver: self.to.clone(), unl: self.unl.clone().into_bytes(), body: Vec::new() });
        }
        Ok(())
    }
    fn take_sends(&mut self) -> Vec<OutboundIntent> {
        std::mem::take(&mut self.out)
    }
}

fn trigger(on: &str, to: &str, unl: &str) -> Trigger {
    Trigger { on: on.into(), to: to.into(), unl: unl.into(), out: Vec::new() }
}

#[test]
fn router_stamps_the_true_sender() {
    let mut r = Router::new();
    r.add("X", trigger("go", "out", "obj(ping, z)"));
    r.send("boot", "X", b"obj(go, x)", b"");
    r.run(16);
    let m = r.outbox.iter().find(|e| e.to == "out").expect("X emitted to out");
    assert_eq!(m.from, "X");
}

#[test]
fn router_chains_between_local_agents_and_keeps_injected_senders() {
    let mut r = Router::new();
    r.add("A", trigger("go", "B", "obj(relay, y)"));
    r.add("B", trigger("relay", "far", "obj(done, z)"));
    r.send("claimed", "A", b"obj(go, x)", b"");
    r.send("claimed", "nobody", b"x", b"");
    r.run(16);
    assert_eq!(r.outbox.len(), 2);
    assert_eq!((r.outbox[0].from.as_str(), r.outbox[0].to.as_str()), ("claimed", "nobody"));
    assert_eq!((r.outbox[1].from.as_str(), r.outbox[1].to.as_str()), ("B", "far"));
}

#[test]
fn router_budget_keeps_undelivered_envelopes_queued() {
    let mut r: Router<Trigger> = Router::new();
    r.send("s", "n1", b"", b"");
    r.send("s", "n2", b"", b"");
    r.send("s", "n3", b"", b"");
    r.run(1);
    assert_eq!(r.outbox.len(), 1);
    assert_eq!(r.outbox[0].to, "n1");
    r.run(0);
    assert_eq!(r.outbox.len(), 1);
    r.run(16);
    assert_eq!(r.outbox.len(), 3);
    assert_eq!(r.outbox[1].to, "n2");
    assert_eq!(r.outbox[2].to, "n3");
}

struct Greeter {
    out: Vec<OutboundIntent>,
}

impl AgentRuntime for Greeter {
    fn init(&mut self) -> Result<(), String> {
        self.out.push(OutboundIntent { receiver: "world".into(), unl: b"hello".to_vec(), body: vec![] });
        Ok(())
    }
    fn config(&mut self, _from: &str, _unl: &[u8], _body: &[u8]) -> Result<(), String> {
        Err("no".into())
    }
    fn take_sends(&mut self) -> Vec<OutboundIntent> {
        std::mem::take(&mut self.out)
    }
}

#[test]
fn router_stamps_init_output_with_the_new_id() {
    let mut r = Router::new();
    r.add("G", Greeter { out: vec![] });
    r.send("s", "G", b"x", b"");
    r.run(8);
    assert_eq!(r.outbox.len(), 1);
    assert_eq!(r.outbox[0].from, "G");
    assert_eq!(r.outbox[0].unl, b"hello".to_vec());
}

#[test]
fn restart_budget_and_default_limits() {
    assert_eq!(next_restart(0, 2), Ok(1));
    assert_eq!(next_restart(1, 2), Ok(2));
    assert_eq!(next_restart(2, 2), Err("agent exceeded max restarts (2)".to_string()));
    let l = Limits::default();
    assert_eq!((l.mem_bytes, l.cpu_secs), (256 * 1024 * 1024, 30));
}

#[test]
fn unknown_native_agent_is_an_error() {
    let r = build_runtime(&AgentSpec::Native("nope".into()), &Profile::InProcess);
    assert!(r.is_err());
    assert_eq!(r.unwrap_err(), "unknown native agent: nope");
    assert!(matches!(build_runtime(&AgentSpec::Native("echo".into()), &Profile::InProcess), Ok(RuntimePlan::Native(NativeAgent::Echo))));
    assert!(matches!(build_runtime(&AgentSpec::Native("nope".into()), &Profile::Hosted(Limits::default())), Ok(RuntimePlan::Hosted(_))));
    assert_eq!(native_agent("ams"), Some(NativeAgent::Ams));
}
