//! The phone's side of a call: certificates, the signalling loop, the bitrate, the encoder.

use streame::client::control::{AudioBackend, ClientEvent, EncodeLoop, EncoderControl};
use streame::client::keyframe::{Feedback, Incoming, KeyframeRequests, Tagged};
use streame::client::link::{event_of, status_line, Action, Input, Link, Notice, Status};
use streame::client::session::{
    apply_plan, height_for_bitrate, height_rank, plan_session, profile_for, quality_limitation,
    state_label, BitrateControl, ConnectionState, FrameClock, Meter, SessionLife,
};
use streame::client::vtenc::Profile;
use streame::client::ws::{
    bracket, config_body, config_request, fingerprint_hex, parse_fingerprint, socket_url,
    CertPolicy, ConfigReplyError,
};
use streame::ios::{
    block_samples, client_config, event_code, picture_time, AppConfig, STREAME_EVENT_CERT,
    STREAME_EVENT_CONNECTED, STREAME_EVENT_DISCONNECTED, STREAME_EVENT_ENDED, STREAME_EVENT_ERROR,
    STREAME_EVENT_ON_AIR, STREAME_EVENT_STATS, STREAME_EVENT_STATUS,
};
use streame::signaling::{ClientMsg, PhoneStats, ServerConfig, ServerMsg};

#[test]
fn empreinte_aller_retour() {
    let fp: [u8; 32] = core::array::from_fn(|i| (i as u8).wrapping_mul(7));
    let hex = fingerprint_hex(&fp);
    assert_eq!(parse_fingerprint(&hex), Some(fp));
    let colons: Vec<String> = hex
        .as_bytes()
        .chunks(2)
        .map(|c| String::from_utf8_lossy(c).to_uppercase())
        .collect();
    assert_eq!(parse_fingerprint(&colons.join(":")), Some(fp));
    assert_eq!(parse_fingerprint("abc"), None);
}

#[test]
fn politique_premiere_connexion_puis_changement() {
    let mut policy = CertPolicy::new(None);
    assert!(policy.verify_server_cert(&[1u8, 2, 3]).is_ok());
    let seen = policy.observed().expect("empreinte observée");
    assert!(!policy.mismatch());

    let mut pinned = CertPolicy::new(Some(seen));
    assert!(pinned.verify_server_cert(&[1u8, 2, 3]).is_ok());
    assert!(pinned.verify_server_cert(&[9u8, 9, 9]).is_err());
    assert!(pinned.mismatch());
}

#[test]
fn first_certificate_is_the_only_one_from_then_on() {
    let mut policy = CertPolicy::new(None);
    assert!(policy.verify_server_cert(&[1u8, 2, 3]).is_ok());
    assert!(policy.verify_server_cert(&[9u8, 9, 9]).is_err());
    assert!(policy.mismatch());
    assert!(policy.verify_server_cert(&[1u8, 2, 3]).is_ok());
    assert!(!policy.mismatch());
    assert!(policy.verify_server_cert(&[]).is_err());
}

#[test]
fn certificate_digest_is_sha256() {
    let mut policy = CertPolicy::new(None);
    let _ = policy.verify_server_cert(b"abc");
    assert_eq!(
        fingerprint_hex(&policy.observed().unwrap()),
        "ba7816bf8f01cfea414140de5dae2223b00361a396177a9cb410ff61f20015ad"
    );
}

#[test]
fn echelle_de_resolution_selon_le_debit() {
    assert_eq!(height_for_bitrate(3_000_000), 0);
    assert_eq!(height_for_bitrate(1_000_000), 720);
    assert_eq!(height_for_bitrate(500_000), 540);
    assert_eq!(height_for_bitrate(300_000), 360);
    assert!(height_rank(0) > height_rank(720) && height_rank(720) > height_rank(360));
}

#[test]
fn addresses_of_the_switcher() {
    assert_eq!(bracket("192.168.1.10"), "192.168.1.10");
    assert_eq!(bracket("fe80::1"), "[fe80::1]");
    assert_eq!(socket_url("192.168.1.10", 8443), "wss://192.168.1.10:8443/ws");
    let req = config_request("192.168.1.10", 8443);
    assert!(req.starts_with("GET /api/config HTTP/1.1\r\n"));
    assert!(req.ends_with("\r\n\r\n"));
    let ok = "HTTP/1.1 200 OK\r\ncontent-type: application/json\r\n\r\n{\"a\":1}";
    assert_eq!(config_body(ok).ok().unwrap(), "{\"a\":1}");
    assert!(matches!(config_body("HTTP/1.1 404 Not Found\r\n\r\n"), Err(ConfigReplyError::Status(_))));
    assert!(matches!(config_body("HTTP/1.1 200 OK\r\n"), Err(ConfigReplyError::Incomplete)));
}

fn offer() -> &'static str {
    "m=video 9 UDP/TLS/RTP/SAVPF 125\r\n\
     a=rtpmap:125 H264/90000\r\n\
     a=fmtp:125 level-asymmetry-allowed=1;packetization-mode=1;profile-level-id=42e01f;x-google-start-bitrate=2500\r\n"
}

#[test]
fn session_is_planned_from_the_offer() {
    let plan = plan_session(offer(), 720, &ServerConfig::default()).ok().unwrap();
    assert_eq!(plan.payload_type, 125);
    assert_eq!(plan.profile_level_id, "42e01f");
    assert_eq!((plan.max_kbps, plan.start_kbps), (4500, 2500));
    let mut enc = EncoderControl::new(1_000_000);
    apply_plan(&plan, &mut enc);
    assert_eq!(enc.bitrate(), 2_500_000);
    assert_eq!(enc.profile.id, "42e01f");
    assert!(plan_session("m=audio 9\r\n", 720, &ServerConfig::default()).is_err());
    assert_eq!(profile_for("640c1f"), Profile::High);
}

#[test]
fn resolution_falls_after_two_seconds_and_rises_after_five() {
    let plan = plan_session(offer(), 1080, &ServerConfig::default()).ok().unwrap();
    let mut enc = EncoderControl::new(1_000_000);
    apply_plan(&plan, &mut enc);
    let mut b = BitrateControl::new();
    let s = 1_000_000_000u64;
    assert_eq!(b.tick(500_000, 0, &mut enc), None);
    assert_eq!(enc.bitrate(), 500_000);
    assert_eq!(b.tick(500_000, 2 * s - 1, &mut enc), None);
    assert_eq!(b.tick(500_000, 2 * s, &mut enc), Some(540));
    assert_eq!(enc.max_height(), 540);
    assert_eq!(b.tick(6_000_000, 3 * s, &mut enc), None);
    assert_eq!(b.tick(6_000_000, 7 * s, &mut enc), None);
    assert_eq!(b.tick(6_000_000, 8 * s, &mut enc), Some(0));
}

#[test]
fn session_life_and_clocks() {
    let mut life = SessionLife::new();
    let mut enc = EncoderControl::new(1_000_000);
    assert!(!life.is_connected());
    let _ = life.state_changed(ConnectionState::Connected, &mut enc);
    assert!(life.is_connected());
    assert!(life.can_reoffer());
    assert!(life.close());
    assert!(!life.close());
    assert_eq!(state_label(ConnectionState::Connected), "connecté");
    let mut m = Meter { last: 10 };
    assert_eq!(m.since(25), 15);
    assert_eq!(m.since(5), 0);
    let mut clock = FrameClock::new(30);
    let first = clock.next(1_000_000_000);
    let second = clock.next(1_033_333_333);
    assert!(first > 0 && second > 0);
    assert_eq!(quality_limitation(false, 0, false, 3_000_000, 3_000_000), "none");
    assert_eq!(quality_limitation(true, 0, false, 1_000_000, 3_000_000), "bandwidth (pertes)");
}

#[test]
fn encoding_loop_follows_the_settings() {
    let mut enc = EncoderControl::new(2_000_000);
    enc.profile.store("42e01f");
    let mut l = EncodeLoop::new(30);
    assert!(l.plan(&enc, false, 1920, 1080).is_none(), "nobody listens");
    let plan = l.plan(&enc, true, 1920, 1080).unwrap();
    assert_eq!(plan.recreate.unwrap().profile, Profile::Baseline);
    assert!(plan.scale.is_none());
    enc.set_max_height(720);
    let plan = l.plan(&enc, true, 1920, 1080).unwrap();
    assert!(plan.recreate.is_none());
    assert_eq!(plan.scale, Some((1280, 720)));
    assert!(plan.new_scaler);
    enc.force_keyframe();
    assert!(enc.take_force(false));
    enc.encoded(true);
    assert!(!enc.take_force(false));
    assert!(enc.take_force(true));
}

#[test]
fn only_requests_for_key_frames_are_delivered() {
    let mut q: KeyframeRequests<u8, u8> = KeyframeRequests::new();
    q.handle_read(Tagged {
        packet: Incoming::Feedback(vec![
            Feedback { keyframe_request: false, packet: 1 },
            Feedback { keyframe_request: true, packet: 2 },
        ]),
        deliver: false,
    });
    let first = q.poll_read().unwrap();
    assert!(first.deliver);
    match first.packet {
        Incoming::Feedback(v) => assert_eq!(v.iter().map(|f| f.packet).collect::<Vec<_>>(), [2]),
        Incoming::Other(_) => panic!("a request was expected"),
    }
    assert!(q.poll_read().is_none());
    q.handle_read(Tagged {
        packet: Incoming::Feedback(vec![Feedback { keyframe_request: false, packet: 3 }]),
        deliver: false,
    });
    assert!(q.poll_read().is_none(), "other feedback is kept back");
    q.handle_read(Tagged { packet: Incoming::Other(5), deliver: false });
    assert!(!q.poll_read().unwrap().deliver);
    q.handle_write(Tagged { packet: Incoming::Other(7), deliver: false });
    assert!(matches!(q.poll_write().unwrap().packet, Incoming::Other(7)));
}

fn started(link: &mut Link) {
    let _ = link.handle(Input::Proceed);
    let _ = link.handle(Input::ConfigRead { observed: Some([1; 32]) });
    let _ = link.handle(Input::SocketOpened);
}

#[test]
fn signalling_loop_from_hello_to_bye() {
    let mut link = Link::new("iPhone de Léa");
    let a = link.handle(Input::Proceed);
    assert!(a.iter().any(|x| matches!(x, Action::FetchConfig)));
    let a = link.handle(Input::ConfigRead { observed: Some([1; 32]) });
    assert!(a.iter().any(|x| matches!(x, Action::OpenSocket)));
    assert!(a.iter().any(|x| matches!(
        x,
        Action::Notify(Notice::Certificate { trusted: true, .. })
    )));
    let a = link.handle(Input::SocketOpened);
    assert!(a.iter().any(|x| matches!(
        x,
        Action::Send(ClientMsg::Hello { name: Some(n) }) if n == "iPhone de Léa"
    )));
    let a = link.handle(Input::Received {
        msg: ServerMsg::Offer { sdp: "v=0".to_string() },
        can_reoffer: false,
    });
    assert!(a.iter().any(|x| matches!(x, Action::StartSession(s) if s == "v=0")));
    let a = link.handle(Input::Started { answer: "answer".to_string() });
    assert!(a.iter().any(|x| matches!(x, Action::Send(ClientMsg::Answer { sdp }) if sdp == "answer")));
    let a = link.handle(Input::Received { msg: ServerMsg::OnAir { on: true }, can_reoffer: false });
    assert!(a.iter().any(|x| matches!(x, Action::Notify(Notice::OnAir(true)))));
    let a = link.handle(Input::Received {
        msg: ServerMsg::Bye { reason: "fin".to_string() },
        can_reoffer: false,
    });
    assert!(a.iter().any(|x| matches!(x, Action::Notify(Notice::Ended(r)) if r == "fin")));
    assert!(a.iter().any(|x| matches!(x, Action::CloseSession)));
    assert!(link.handle(Input::Proceed).is_empty(), "over is over");
}

#[test]
fn lost_socket_is_tried_again_later() {
    let mut link = Link::new("");
    assert!(link.name.is_none());
    started(&mut link);
    let a = link.handle(Input::SocketLost);
    assert!(a.iter().any(|x| matches!(x, Action::DetachOutput)));
    let a = link.handle(Input::Proceed);
    assert!(a.iter().any(|x| matches!(x, Action::Notify(Notice::Disconnected))));
    assert!(a.iter().any(|x| matches!(x, Action::Sleep(2000))));
    let a = link.handle(Input::Cancelled);
    assert!(!a.iter().any(|x| matches!(x, Action::FetchConfig)));
}

#[test]
fn statuses_are_told_in_words() {
    assert!(status_line(&Status::Connecting, "regie", 8443).contains("regie"));
    assert!(matches!(event_of(Notice::OnAir(true), "h", 1), ClientEvent::OnAir(true)));
    assert!(matches!(event_of(Notice::Disconnected, "h", 1), ClientEvent::Disconnected));
    match event_of(Notice::Certificate { fingerprint: Some([0; 32]), trusted: false }, "h", 1) {
        ClientEvent::Certificate { fingerprint, trusted } => {
            assert_eq!(fingerprint.len(), 64);
            assert!(!trusted);
        }
        _ => panic!("a certificate was expected"),
    }
}

fn stats() -> PhoneStats {
    PhoneStats {
        width: 1920,
        height: 1080,
        fps_bits: 30f32.to_bits(),
        bitrate_kbps_bits: 4000.5f32.to_bits(),
        quality_limitation: "none".to_string(),
        rtt_ms_bits: None,
        codec: "H264".to_string(),
    }
}

#[test]
fn event_codes_of_the_application() {
    assert_eq!(event_code(&ClientEvent::Status(String::new())), STREAME_EVENT_STATUS);
    assert_eq!(event_code(&ClientEvent::Connected), STREAME_EVENT_CONNECTED);
    assert_eq!(event_code(&ClientEvent::Disconnected), STREAME_EVENT_DISCONNECTED);
    assert_eq!(event_code(&ClientEvent::OnAir(true)), STREAME_EVENT_ON_AIR);
    assert_eq!(event_code(&ClientEvent::Stats(stats())), STREAME_EVENT_STATS);
    assert_eq!(event_code(&ClientEvent::Error(String::new())), STREAME_EVENT_ERROR);
    assert_eq!(event_code(&ClientEvent::Ended(String::new())), STREAME_EVENT_ENDED);
    let cert = ClientEvent::Certificate { fingerprint: String::new(), trusted: true };
    assert_eq!(event_code(&cert), STREAME_EVENT_CERT);
    assert_eq!(
        [
            STREAME_EVENT_STATUS,
            STREAME_EVENT_CONNECTED,
            STREAME_EVENT_DISCONNECTED,
            STREAME_EVENT_ON_AIR,
            STREAME_EVENT_STATS,
            STREAME_EVENT_ERROR,
            STREAME_EVENT_ENDED,
            STREAME_EVENT_CERT
        ],
        [0, 1, 2, 3, 4, 5, 6, 7]
    );
}

#[test]
fn application_settings_become_a_session() {
    let cfg = client_config(AppConfig { audio: false, height: 720, ..Default::default() });
    assert_eq!(cfg.audio, AudioBackend::Off);
    assert_eq!((cfg.host.as_str(), cfg.port, cfg.height), ("127.0.0.1", 8443, 720));
    assert_eq!(client_config(AppConfig::default()).audio, AudioBackend::Bridge);
    assert_eq!(block_samples(480, 2), Some(960));
    assert_eq!(block_samples(480, 0), None);
    assert_eq!(picture_time(-5), 0);
    assert_eq!(picture_time(5), 5);
}

#[test]
fn missing_scaler_lifts_the_height_limit() {
    let mut control = EncoderControl::new(1_000_000);
    control.set_max_height(720);
    let mut l = EncodeLoop::new(30);
    let plan = l.plan(&control, true, 1920, 1080).unwrap();
    assert_eq!((plan.scale, plan.new_scaler), (Some((1280, 720)), true));
    l.scaler_made(&mut control, false);
    assert_eq!(control.max_height(), 0);
    assert_eq!(l.plan(&control, true, 1920, 1080).unwrap().scale, None);
    control.set_max_height(540);
    l.scaler_made(&mut control, true);
    let plan = l.plan(&control, true, 1920, 1080).unwrap();
    assert_eq!((plan.scale, plan.new_scaler), (Some((960, 540)), false));
}
