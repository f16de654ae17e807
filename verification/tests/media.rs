//! Streams of pictures and sound: H264 offers and units, the encoder's output, the decoder's
//! rules, rings of samples.

use streame::audio::{
    best_config, best_input_config, describe_device, find_device, low_latency_buffer, output_place,
    select_return, BusInput, BusPace, DeviceChoice, FormatRange, Meters, MixSource, Reader,
};
use streame::client::cpal_io::leading_channels;
use streame::client::pcm::{
    spread, FromStereo48k, PcmBridge, Resample, ToStereo48k, MAX_BLOCK_FRAMES,
};
use streame::client::vtenc::{
    annexb_from_sample, on_encoded, scaled_dims, take_report, Counters, EncodeReport, EncodedFrame,
    EncodedSample, EncoderConfig, FrameMeta, H264Encoder, Output, Profile, SampleFormat,
};
use streame::frame::{
    FpsCounter, FrameSlot, PixelFormat, SurfaceFrame, CODE_BGRA, CODE_NV12_FULL, CODE_NV12_VIDEO,
};
use streame::h264::{
    announce_start_bitrate, codec, fmtp, max_bitrate_kbps, nalus, offered_h264, rtcp_feedback,
    video_codec_preferences,
};
use streame::opus::{
    encoder_settings, Application, EncoderOptions, PayloadWait, Sequence, WaitStep, FRAME_SAMPLES,
    SAMPLE_RATE,
};
use streame::ring::Ring;
use streame::vt::{Decision, Fate, H264Decoder, Hardware, Outcome};

const RATE: usize = SAMPLE_RATE as usize;

fn bits(v: &[f32]) -> Vec<u32> {
    v.iter().map(|s| s.to_bits()).collect()
}

fn floats(v: &[u32]) -> Vec<f32> {
    v.iter().map(|s| f32::from_bits(*s)).collect()
}

/// Linear resampler of stereo samples.
struct Linear {
    ratio: f64,
    pos: f64,
    last: [f32; 2],
    primed: bool,
}

impl Linear {
    fn new(from: u32, to: u32) -> Self {
        Linear { ratio: from as f64 / to as f64, pos: 0.0, last: [0.0; 2], primed: false }
    }

    fn process(&mut self, input: &[f32]) -> Vec<f32> {
        let mut out = Vec::new();
        for f in input.chunks(2) {
            let cur = [f[0], f[1]];
            if !self.primed {
                self.primed = true;
                self.last = cur;
            }
            while self.pos < 1.0 {
                let t = self.pos as f32;
                out.push(self.last[0] + (cur[0] - self.last[0]) * t);
                out.push(self.last[1] + (cur[1] - self.last[1]) * t);
                self.pos += self.ratio;
            }
            self.pos -= 1.0;
            self.last = cur;
        }
        out
    }
}

/// Fills a block at any rate: plan, read, resample, lay out.
fn fill(
    from: &mut FromStereo48k,
    ring: &mut Ring,
    rs: &mut Linear,
    out: &mut [u32],
    channels: usize,
    rate: u32,
) -> bool {
    let Some(plan) = from.plan(ring, out.len(), channels, rate) else {
        return false;
    };
    let need = (plan.frames as f64 * rs.ratio).ceil() as usize + 1;
    let got = from.pull(ring, need);
    let src = bits(&rs.process(&floats(&from.pulled)));
    spread(&src, &plan, out);
    got > 0
}

#[test]
fn profil_depuis_profile_level_id() {
    assert_eq!(Profile::from_profile_level_id("42e01f"), Profile::Baseline);
    assert_eq!(Profile::from_profile_level_id("4d001f"), Profile::Main);
    assert_eq!(Profile::from_profile_level_id("640C1F"), Profile::High);
    assert_eq!(Profile::from_profile_level_id(""), Profile::Baseline);
}

#[test]
fn dimensions_reduites() {
    assert_eq!(scaled_dims(1920, 1080, 720), Some((1280, 720)));
    assert_eq!(scaled_dims(1920, 1080, 540), Some((960, 540)));
    assert_eq!(scaled_dims(1920, 1080, 360), Some((640, 360)));
    assert_eq!(scaled_dims(640, 480, 360), Some((480, 360)));
    assert_eq!(scaled_dims(1280, 720, 720), None);
    assert_eq!(scaled_dims(1280, 720, 0), None);
}

#[test]
fn sortie_bornee_jette_et_demande_une_image_cle() {
    let mut out = Output::default();
    let (tx, mut rx) = tokio::sync::mpsc::channel(Output::QUEUE);
    out.attach(tx);
    let frame = || EncodedFrame {
        data: Vec::new(),
        keyframe: false,
        captured: 0,
        pts: 0,
        width: 2,
        height: 2,
    };
    for _ in 0..Output::QUEUE + 2 {
        out.send(frame());
    }
    assert_eq!(out.dropped(), 2);
    assert!(out.take_need_keyframe());
    assert!(!out.take_need_keyframe());
    assert!(rx.try_recv().is_ok());
}

#[test]
fn debit_de_depart_annonce_sur_les_fmtp_h264() {
    let sdp = "m=video 9 UDP/TLS/RTP/SAVPF 125 103\r\n\
               a=fmtp:125 level-asymmetry-allowed=1;packetization-mode=1;profile-level-id=42e01f\r\n\
               a=fmtp:103 apt=125\r\n\
               a=fmtp:111 minptime=10;useinbandfec=1\r\n";
    let out = announce_start_bitrate(sdp, 3000);
    assert!(out.contains("profile-level-id=42e01f;x-google-start-bitrate=3000\r\n"));
    assert!(out.contains("a=fmtp:103 apt=125\r\n"), "RTX inchangé");
    assert!(out.contains("a=fmtp:111 minptime=10;useinbandfec=1\r\n"), "Opus inchangé");
    assert_eq!(announce_start_bitrate(sdp, 0), sdp);
    assert_eq!(announce_start_bitrate(&out, 3000), out, "idempotent");
}

#[test]
fn lecture_du_h264_offert() {
    let sdp = "m=video 9 UDP/TLS/RTP/SAVPF 102 125\r\n\
               a=rtpmap:102 H264/90000\r\n\
               a=rtpmap:125 H264/90000\r\n\
               a=rtpmap:111 opus/48000/2\r\n\
               a=fmtp:111 minptime=10;useinbandfec=1\r\n\
               a=fmtp:125 level-asymmetry-allowed=1;packetization-mode=1;profile-level-id=42e01f;x-google-start-bitrate=3000\r\n\
               a=fmtp:102 level-asymmetry-allowed=1;packetization-mode=0;profile-level-id=42001f\r\n";
    let got = offered_h264(sdp).unwrap();
    assert_eq!(got.payload_type, 125, "seul le packetization-mode=1 compte");
    assert_eq!(got.profile_level_id, "42e01f");
    assert_eq!(got.fmtp, "level-asymmetry-allowed=1;packetization-mode=1;profile-level-id=42e01f");
    assert_eq!(got.start_bitrate_kbps, Some(3000));
    assert!(offered_h264("m=audio 9\r\n").is_none());
}

#[test]
fn plafond_par_resolution() {
    assert_eq!(max_bitrate_kbps(1080, 8000), 8000);
    assert_eq!(max_bitrate_kbps(720, 8000), 4500);
    assert_eq!(max_bitrate_kbps(480, 8000), 2000);
}

#[test]
fn h264_decoupe_annexb() {
    let data = [0, 0, 0, 1, 0x67, 1, 2, 0, 0, 1, 0x68, 3, 0, 0, 0, 1, 0x65, 4, 5, 6];
    let n = nalus(&data);
    assert_eq!(n.len(), 3);
    assert_eq!(n[0], &[0x67, 1, 2]);
    assert_eq!(n[1], &[0x68, 3]);
    assert_eq!(n[2], &[0x65, 4, 5, 6]);
}

#[test]
fn vt_decoupe_annexb() {
    let data = [0, 0, 0, 1, 0x67, 1, 2, 0, 0, 1, 0x68, 3, 0, 0, 0, 1, 0x65, 4, 5, 6];
    let n = streame::vt::nalus(&data);
    assert_eq!(n.len(), 3);
    assert_eq!(n[0], &[0x67, 1, 2]);
    assert_eq!(n[1], &[0x68, 3]);
    assert_eq!(n[2], &[0x65, 4, 5, 6]);
}

#[test]
fn convertisseurs_sans_reallocation_au_bloc_maximal() {
    let max_resampled = MAX_BLOCK_FRAMES * 12 + 4;
    let mut to = ToStereo48k::new();
    let cap = to.stereo.capacity();
    let block = bits(&vec![0.1f32; MAX_BLOCK_FRAMES * 2]);
    assert_eq!(to.convert(&block, 2, 8_000), Some(Resample::Fresh));
    let n = Linear::new(8_000, 48_000).process(&floats(&to.stereo)).len();
    assert!(n > 0 && n <= max_resampled);
    assert_eq!(cap, to.stereo.capacity(), "réallocation en temps réel");

    let mut from = FromStereo48k::new();
    let cap = from.pulled.capacity();
    // 400 ms of a source at 120 kHz: one second of stereo at 48 kHz.
    let mut source = MixSource::new(120_000);
    assert_eq!(source.capacity, RATE * 2);
    assert!(source.push(&bits(&vec![0.5f32; RATE * 2])));
    let mut out = bits(&vec![0f32; (MAX_BLOCK_FRAMES + 100) * 2]);
    let mut rs = Linear::new(48_000, 8_000);
    assert!(fill(&mut from, &mut source.ring, &mut rs, &mut out, 2, 8_000));
    assert!(out[..MAX_BLOCK_FRAMES * 2].iter().skip(2).all(|s| f32::from_bits(*s) > 0.0));
    assert_eq!(cap, from.pulled.capacity(), "réallocation en temps réel");
    assert_eq!(out[(MAX_BLOCK_FRAMES + 50) * 2], 0, "au-delà du bloc maximal : silence");
}

#[test]
fn sous_alimentation_comptee_sans_journal() {
    let mut bridge = PcmBridge::new(true, true);
    let mut counters = Counters::default();
    let mut out = bits(&vec![0f32; 480 * 2]);
    bridge.speaker.push(&bits(&vec![0.5f32; RATE * 2 / 10]));
    assert!(bridge.pull_speaker(&mut counters, &mut out, 2));
    for _ in 0..12 {
        bridge.pull_speaker(&mut counters, &mut out, 2);
    }
    assert_eq!(counters.audio_underruns, 1);
}

#[test]
fn pont_micro_mono_24k_vers_trames_opus() {
    let mut bridge = PcmBridge::new(true, true);
    let block: Vec<f32> = (0..960).map(|i| i as f32 / 960.0).collect();
    assert_eq!(bridge.convert_mic(&bits(&block), 1, 24_000), Some(Resample::Fresh));
    let stereo = Linear::new(24_000, 48_000).process(&floats(&bridge.mic_in.stereo));
    assert!(bridge.push_stereo(&bits(&stereo)));
    let mut frame = bits(&vec![0f32; 960 * 2]);
    assert!(bridge.mic.pull_frame(&mut frame));
    assert!(bridge.mic.pull_frame(&mut frame));
    let shown = floats(&frame);
    assert!(!bridge.mic.pull_frame(&mut frame), "pas plus de 2 trames");
    assert!(shown[0] <= shown[2]);
}

#[test]
fn pont_sortie_silence_puis_son() {
    let mut bridge = PcmBridge::new(true, true);
    let mut counters = Counters::default();
    let mut out = bits(&vec![0f32; 480 * 2]);
    assert!(!bridge.pull_speaker(&mut counters, &mut out, 2), "anneau vide : silence");
    let tone: Vec<f32> = vec![0.5; 48_000 * 2 / 10];
    bridge.speaker.push(&bits(&tone));
    assert!(bridge.pull_speaker(&mut counters, &mut out, 2));
    assert!(floats(&out).iter().all(|s| (*s - 0.5).abs() < 1e-6));
    let mut mono = bits(&vec![0f32; 240]);
    let mut from = std::mem::take(&mut bridge.spk_out);
    let mut rs = Linear::new(48_000, 24_000);
    assert!(fill(&mut from, &mut bridge.speaker.ring, &mut rs, &mut mono, 1, 24_000));
}

#[test]
fn microphone_mute_keeps_the_stream_alive() {
    let mut bridge = PcmBridge::new(false, true);
    let block = bits(&vec![0.25f32; 960]);
    assert!(bridge.push_mic(&block, 1));
    let mut frame = bits(&vec![1f32; 1920]);
    assert!(bridge.mic.pull_frame(&mut frame));
    assert!(frame.iter().all(|s| *s == 0));
}

#[test]
fn speaker_that_is_off_or_full_drops() {
    let mut bridge = PcmBridge::new(true, false);
    let mut counters = Counters::default();
    bridge.speaker.push(&bits(&vec![0.5f32; 9600]));
    let mut out = vec![7u32; 960];
    assert!(!bridge.pull_speaker(&mut counters, &mut out, 2));
    assert!(out.iter().all(|s| *s == 0));
    let mut full = PcmBridge::new(true, true);
    full.speaker.push(&vec![1u32; 19_200]);
    full.speaker.push(&vec![2u32; 960]);
    let mut seen = vec![0u32; 8192 * 2];
    let _ = full.pull_speaker(&mut counters, &mut seen, 2);
    assert!(!seen.contains(&2));
}

#[test]
fn late_readers_catch_up_with_the_newest_sound() {
    let mut bridge = PcmBridge::new(true, true);
    let samples: Vec<u32> = (0..20_000u32).collect();
    assert!(bridge.push_stereo(&samples));
    let mut frame = vec![0u32; 1920];
    assert!(bridge.mic.pull_frame(&mut frame));
    assert!(frame[0] > 0, "the oldest samples were dropped");
    assert_eq!(frame[1], frame[0] + 1);
}

#[test]
fn offered_codecs_are_ordered_by_preference() {
    let prefs = video_codec_preferences("42e01f");
    assert!(prefs.len() > 1);
    assert!(prefs[0].rtp_codec.sdp_fmtp_line.contains("profile-level-id=42e01f"));
    assert_eq!(prefs[0].rtp_codec.mime_type, "video/H264");
    assert_eq!(prefs[0].rtp_codec.clock_rate, 90_000);
    assert_eq!(codec(&fmtp("42e01f")).sdp_fmtp_line, prefs[0].rtp_codec.sdp_fmtp_line);
    assert_eq!(rtcp_feedback().len(), prefs[0].rtp_codec.rtcp_feedback.len());
}

fn avcc(units: &[&[u8]]) -> Vec<u8> {
    let mut out = Vec::new();
    for u in units {
        out.extend_from_slice(&(u.len() as u32).to_be_bytes());
        out.extend_from_slice(u);
    }
    out
}

fn keyframe_sample() -> EncodedSample {
    EncodedSample {
        not_sync: Some(false),
        format: Some(SampleFormat {
            parameter_sets: vec![vec![0x67, 1, 2], vec![0x68, 3]],
            header_len: 4,
        }),
        data: Some(avcc(&[&[0x65, 4, 5, 6]])),
    }
}

#[test]
fn encoded_key_frame_reaches_the_decoder() {
    let (stream, key) = annexb_from_sample(&keyframe_sample()).unwrap();
    assert!(key);
    assert_eq!(
        stream,
        [0, 0, 0, 1, 0x67, 1, 2, 0, 0, 0, 1, 0x68, 3, 0, 0, 0, 1, 0x65, 4, 5, 6]
    );
    let units = nalus(&stream);
    assert_eq!(units.len(), 3);

    let mut d = H264Decoder::new();
    let unit = d.prepare(&stream);
    assert!(unit.open && unit.has_idr);
    assert_eq!(unit.avcc, avcc(&[&[0x65, 4, 5, 6]]));
    assert_eq!(d.sps, [0x67, 1, 2]);
    assert_eq!(d.pps, [0x68, 3]);
    d.session_opened(true);
    assert_eq!(d.decide(&unit), Decision::Submit);
    assert!(matches!(d.submitted(None), Outcome::Accepted));
    assert_eq!(d.frames_submitted(), 1);
}

#[test]
fn delta_frame_has_no_parameter_sets() {
    let sample = EncodedSample {
        not_sync: Some(true),
        format: None,
        data: Some(avcc(&[&[0x41, 9], &[0x41, 8, 7]])),
    };
    let (stream, key) = annexb_from_sample(&sample).unwrap();
    assert!(!key);
    assert_eq!(stream, [0, 0, 0, 1, 0x41, 9, 0, 0, 0, 1, 0x41, 8, 7]);
    let none = EncodedSample { not_sync: Some(false), format: None, data: Some(vec![]) };
    assert!(annexb_from_sample(&none).is_none());
}

#[test]
fn decoder_waits_for_a_key_frame_after_a_loss() {
    let (key, _) = annexb_from_sample(&keyframe_sample()).unwrap();
    let delta = [0, 0, 0, 1, 0x41, 1, 2, 3];
    let mut d = H264Decoder::new();
    let first = d.prepare(&delta);
    assert!(!first.open, "no parameter sets yet");
    assert_eq!(d.decide(&first), Decision::NeedKeyframe);
    let unit = d.prepare(&key);
    d.session_opened(true);
    assert_eq!(d.decide(&unit), Decision::Submit);
    let _ = d.submitted(None);

    d.mark_loss();
    let unit = d.prepare(&delta);
    assert!(!unit.open);
    assert_eq!(d.decide(&unit), Decision::NeedKeyframe);
    let unit = d.prepare(&key);
    assert!(!unit.open, "the same parameter sets keep the session");
    assert_eq!(d.decide(&unit), Decision::Submit);

    assert!(d.on_frame::<()>(-1, None).is_none());
    let unit = d.prepare(&delta);
    assert_eq!(d.decide(&unit), Decision::NeedKeyframe, "a failed picture asks for a key frame");
    assert!(d.on_frame::<()>(0, None).is_none());
    assert_eq!(d.dropped, 1);
    assert_eq!(d.errors, 0);
    assert!(matches!(d.submitted(Some("status -1".to_string())), Outcome::Error(e) if e == "status -1"));
    assert!(d.need_idr);
}

#[test]
fn delimiters_and_filler_are_left_out() {
    let data = [0, 0, 0, 1, 0x09, 0x10, 0, 0, 0, 1, 0x41, 5, 0, 0, 0, 1, 0x0c, 0xff];
    let mut d = H264Decoder::new();
    let unit = d.prepare(&data);
    assert_eq!(unit.avcc, avcc(&[&[0x41, 5]]));
    assert!(!unit.has_idr);
    d.session_opened(false);
    assert_eq!(d.decide(&unit), Decision::NeedKeyframe);
    let nothing = d.prepare(&[0, 0, 1, 0x09, 0x10]);
    d.session_opened(true);
    d.need_idr = false;
    assert_eq!(d.decide(&nothing), Decision::Nothing);
}

#[test]
fn encoder_reports_are_counted() {
    let mut c = Counters::default();
    let meta = FrameMeta { captured: 5, pts: 6, width: 1280, height: 720 };
    let f = take_report(&mut c, &EncodeReport::Encoded(keyframe_sample()), Some(meta)).unwrap();
    assert!(f.keyframe);
    assert_eq!((f.captured, f.pts, f.width, f.height), (5, 6, 1280, 720));
    assert_eq!((c.frames_out, c.keyframes, c.bytes_out), (1, 1, f.data.len() as u64));
    assert!(take_report(&mut c, &EncodeReport::Failed, Some(meta)).is_none());
    assert_eq!(c.errors, 1);
    let mut out = Output::default();
    let (tx, mut rx) = tokio::sync::mpsc::channel(Output::QUEUE);
    out.attach(tx);
    on_encoded(&mut c, &mut out, &EncodeReport::Encoded(keyframe_sample()), Some(meta));
    assert_eq!(rx.try_recv().unwrap().data, f.data);
    drop(rx);
    on_encoded(&mut c, &mut out, &EncodeReport::Encoded(keyframe_sample()), Some(meta));
    out.detach();
    assert!(!out.is_attached());
}

#[test]
fn frames_go_to_the_attached_queue() {
    let frame = |byte: u8| EncodedFrame {
        data: vec![byte],
        keyframe: byte == 1,
        captured: 7,
        pts: 8,
        width: 640,
        height: 360,
    };
    let mut out = Output::default();
    out.send(frame(9));
    let (first, mut first_rx) = tokio::sync::mpsc::channel(Output::QUEUE);
    out.attach(first);
    out.send(frame(1));
    out.send(frame(2));
    let (second, mut second_rx) = tokio::sync::mpsc::channel(Output::QUEUE);
    out.attach(second);
    out.send(frame(3));
    let got = first_rx.try_recv().unwrap();
    assert_eq!((got.data, got.keyframe, got.captured, got.pts), (vec![1], true, 7, 8));
    assert_eq!((got.width, got.height), (640, 360));
    assert_eq!(first_rx.try_recv().unwrap().data, vec![2]);
    assert!(first_rx.try_recv().is_err());
    assert_eq!(second_rx.try_recv().unwrap().data, vec![3]);
    assert!(out.is_attached());
    drop(second_rx);
    out.send(frame(4));
    assert!(!out.is_attached());
    assert_eq!(out.dropped(), 0);
}

#[test]
fn encoder_sessions_follow_the_picture() {
    let cfg = EncoderConfig { fps: 30, bitrate_bps: 3_000_000, profile: Profile::High };
    let mut e = H264Encoder::new(cfg);
    let mut c = Counters::default();
    assert!(e.needs_session(0, 720).is_err());
    assert!(matches!(e.needs_session(1280, 720), Ok(true)));
    e.session_opened(&mut c, 1280, 720);
    assert!(matches!(e.needs_session(1280, 720), Ok(false)));
    assert!(matches!(e.needs_session(1920, 1080), Ok(true)));
    assert!(!e.set_bitrate(3_000_000));
    assert!(e.set_bitrate(2_000_000));
    assert_eq!(e.bitrate(), 2_000_000);
    assert_eq!(e.session_settings().fps, 30);
    assert_eq!(e.session_settings().keyframe_interval_s, 10);
}

#[test]
fn slots_number_their_pictures() {
    let mut slot: FrameSlot<u8> = FrameSlot::new(4, 0);
    assert_eq!(slot.id(), 4);
    assert!(slot.latest().is_none());
    let f = SurfaceFrame::from_pixel_buffer(CODE_NV12_VIDEO, Some(9u8), 77, 1920, 1080).unwrap();
    slot.push(f, 0);
    let (seq, seen) = slot.latest().unwrap();
    assert_eq!((seq, seen.surface, seen.surface_id), (1, 9, 77));
    assert_eq!(seen.format, PixelFormat::Nv12);
    assert_eq!(slot.dimensions(), Some((1920, 1080)));
    slot.clear();
    assert_eq!(slot.seq(), 2);
    assert!(slot.dimensions().is_none());
    assert!(SurfaceFrame::<u8>::from_pixel_buffer(CODE_BGRA, None, 1, 2, 2).is_none());
    assert!(SurfaceFrame::from_pixel_buffer(0, Some(1u8), 1, 2, 2).is_none());
    let full = SurfaceFrame::from_pixel_buffer(CODE_NV12_FULL, Some(1u8), 1, 2, 2).unwrap();
    assert_eq!(full.format, PixelFormat::Nv12);
    let bgra = SurfaceFrame::from_pixel_buffer(CODE_BGRA, Some(1u8), 1, 2, 2).unwrap();
    assert_eq!(bgra.format, PixelFormat::Bgra);
}

#[test]
fn rates_are_measured_each_second() {
    let mut c = FpsCounter::new(0);
    for i in 1..=30u64 {
        c.tick(i * 33_333_334);
    }
    assert_eq!(c.value(1_000_000_020), (30, 1_000_000_020));
    assert_eq!(c.value(3_100_000_000).0, 0);
}

#[test]
fn opus_gaps_are_recovered_or_concealed() {
    let mut s = Sequence::new();
    let first = s.packet(100).unwrap();
    assert_eq!((first.conceal, first.recover), (0, false));
    s.decoded(960);
    let next = s.packet(101).unwrap();
    assert_eq!((next.conceal, next.recover), (0, false));
    let gap = s.packet(103).unwrap();
    assert!(gap.recover);
    assert_eq!(gap.frame, 1920);
    assert!(s.packet(102).is_none(), "a packet that comes late is ignored");
    let settings = encoder_settings(&EncoderOptions {
        bitrate: 96_000,
        application: Application::Voip,
        label: "micro",
    });
    assert_eq!(settings.bitrate, 96_000);
    assert!(settings.inband_fec);
    assert_eq!(FRAME_SAMPLES, 1920);
    let mut w = PayloadWait::new();
    assert_eq!(w.step(false, None, false), WaitStep::Again);
    assert_eq!(w.step(true, None, false), WaitStep::Cancelled);
    assert_eq!(w.step(false, Some(111), true), WaitStep::Ready(111));
}

#[test]
fn sound_devices_are_described_and_found() {
    let d = describe_device("Wing".to_string(), true, &Some(vec![2, 48, 8]));
    assert_eq!(d.class, "Audio/Sink");
    assert_eq!(d.max_channels, Some(48));
    assert_eq!(describe_device("x".to_string(), false, &None).max_channels, None);
    let devices = vec![Some("Built-in Output".to_string()), None, Some("WING USB".to_string())];
    assert_eq!(find_device("wing", &devices), DeviceChoice::Found(2));
    assert_eq!(find_device("", &devices), DeviceChoice::Default);
    assert_eq!(find_device("absent", &devices), DeviceChoice::Fallback);
    let formats = vec![
        FormatRange { channels: 2, min_rate: 44_100, max_rate: 48_000 },
        FormatRange { channels: 48, min_rate: 48_000, max_rate: 96_000 },
    ];
    assert_eq!(best_config((2, 48_000), &formats), (48, 48_000));
    assert_eq!(best_input_config((2, 44_100), &vec![]), (2, 44_100));
    assert_eq!(low_latency_buffer(Some((64, 4096))), Some(256));
    assert_eq!(low_latency_buffer(None), None);
}

#[test]
fn mixing_primes_and_keeps_the_newest() {
    let mut s = MixSource::new(48_000);
    let mut out = vec![9u32; 8];
    s.read(&mut out);
    assert!(out.iter().all(|v| *v == 0), "silence until enough is there");
    let samples: Vec<u32> = (1..=20_000u32).collect();
    s.push(&samples);
    s.read(&mut out);
    assert_eq!(out[1], out[0] + 1);
    assert_eq!(output_place(2, 4, 3, 12), Some(11));
    assert_eq!(output_place(2, 4, 4, 12), None);
    assert_eq!(select_return(&[1, 2, 3, 4, 5, 6], 3, (0, 2)), [1, 3, 4, 6]);
    let mut r = Reader::new(48_000);
    r.push(&vec![3u32; 1920]);
    let mut frame = vec![0u32; 1920];
    assert!(r.pull_frame(&mut frame));
    assert_eq!(frame[7], 3);
    let mut b = BusInput::new(48_000);
    assert_eq!(b.push(&[1, 2, 3]), 3);
    let mut two = [0u32; 2];
    assert_eq!(b.pop(&mut two), 2);
    assert_eq!(two, [1, 2]);
    assert_eq!(BusPace::tick_samples(48_000), 960);
    let m = Meters::default();
    assert_eq!(m.stream.rms, m.branding.rms);
}

#[test]
fn only_the_first_two_channels_are_used() {
    assert_eq!(leading_channels(&[1, 2, 3, 4, 5, 6, 7], 3), [1, 2, 4, 5]);
    assert_eq!(leading_channels(&[1, 2, 3], 1), [1, 2, 3]);
    assert!(leading_channels(&[1, 2, 3], 0).is_empty());
}

#[test]
fn encoder_limits_follow_the_bitrate() {
    let cfg = |fps, bitrate_bps| EncoderConfig { fps, bitrate_bps, profile: Profile::High };
    let e = H264Encoder::new(cfg(30, 3_000_000));
    assert_eq!(e.apply_bitrate(), (3_000_000, 468_750));
    assert_eq!(e.frame_duration_us(), 33_333);
    let e = H264Encoder::new(cfg(0, 10));
    assert_eq!(e.apply_bitrate(), (100_000, 15_625));
    assert_eq!(e.frame_duration_us(), 1_000_000);
}

#[test]
fn late_camera_pictures_are_counted() {
    let mut c = Counters::default();
    c.pushed(true);
    assert_eq!(c.dropped, 0);
    c.pushed(false);
    c.pushed(false);
    assert_eq!(c.dropped, 2);
}

#[test]
fn output_tells_how_much_waits() {
    let mut s = MixSource::new(48_000);
    assert_eq!(s.waiting(), 0);
    assert!(s.push(&[1, 2, 3, 4]));
    assert_eq!(s.waiting(), 4);
}

#[test]
fn ceiling_shrinks_with_the_picture() {
    let heights = [0, 240, 360, 479, 480, 540, 719, 720, 1079, 1080, 2160];
    for max in [0, 1, 2, 3, 8000, u32::MAX] {
        let c: Vec<u32> = heights.iter().map(|h| max_bitrate_kbps(*h, max)).collect();
        assert!(c.windows(2).all(|w| w[0] <= w[1]), "{c:?}");
        assert!(c.iter().all(|v| *v <= max));
    }
    assert_eq!(max_bitrate_kbps(360, 8000), 2000);
    assert_eq!(max_bitrate_kbps(720, 3), 2);
}

#[test]
fn configured_profile_comes_first() {
    let lines = |id: &str| -> Vec<(String, u8)> {
        video_codec_preferences(id)
            .into_iter()
            .map(|c| (c.rtp_codec.sdp_fmtp_line, c.payload_type))
            .collect()
    };
    let base = vec![(fmtp("42e01f"), 125), (fmtp("42001f"), 102), (fmtp("640032"), 123)];
    assert_eq!(lines(""), base);
    assert_eq!(lines(" 42E01F "), base);
    assert_eq!(lines("640032")[0], (fmtp("640032"), 123));
    let high = lines("640C1F");
    assert!(high[0].0.contains("profile-level-id=640c1f"));
    assert_eq!(high[0], (fmtp("640c1f"), 112));
    assert_eq!(high[1..], base[..]);
}

#[test]
fn start_bitrate_is_read_back_whatever_the_other_lines_say() {
    let sdp = "a=rtpmap:125 H264/90000\r\na=rtpmap:102 H264/90000\r\n\
               a=fmtp:125 packetization-mode=1;profile-level-id=42E01F\r\n\
               a=fmtp:102 packetization-mode=1;profile-level-id\r\n";
    let before = offered_h264(sdp).unwrap();
    let after = offered_h264(&announce_start_bitrate(sdp, 3000)).unwrap();
    assert_eq!(before.start_bitrate_kbps, None);
    assert_eq!(after.start_bitrate_kbps, Some(3000));
    assert_eq!(after.payload_type, before.payload_type);
    assert_eq!(after.profile_level_id, "42e01f");
    assert_eq!(after.fmtp, before.fmtp);
}

#[test]
fn short_start_codes_split_too() {
    let data = [0, 0, 1, 0x67, 7, 0, 0, 1, 0x68, 8, 0, 0, 0, 1, 0x65, 0];
    let n = nalus(&data);
    assert_eq!(n, [&[0x67u8, 7][..], &[0x68, 8][..], &[0x65, 0][..]]);
}

#[test]
fn frames_are_read_once_each() {
    let mut bridge = PcmBridge::new(true, true);
    let samples: Vec<u32> = (1..=3840u32).collect();
    assert!(bridge.push_stereo(&samples));
    let mut frame = vec![0u32; 1920];
    assert!(bridge.mic.pull_frame(&mut frame));
    assert_eq!(frame, samples[..1920]);
    assert!(bridge.mic.pull_frame(&mut frame));
    assert_eq!(frame, samples[1920..]);
    assert!(!bridge.mic.pull_frame(&mut frame));
    assert_eq!(frame, samples[1920..], "left as it was");

    let mut muted = PcmBridge::new(false, true);
    assert!(muted.push_stereo(&samples));
    for _ in 0..2 {
        frame.fill(9);
        assert!(muted.mic.pull_frame(&mut frame));
        assert!(frame.iter().all(|s| *s == 0));
    }
    assert!(!muted.mic.pull_frame(&mut frame));
}

#[test]
fn output_keeps_its_prebuffer() {
    let mut bridge = PcmBridge::new(true, true);
    let mut counters = Counters::default();
    let mut out = vec![0u32; 960];
    assert!(!bridge.pull_speaker(&mut counters, &mut out, 2));
    assert_eq!((bridge.spk_out.prebuffer, bridge.spk_out.rate), (5_760, 48_000));
    bridge.speaker.push(&vec![3u32; 5_759]);
    assert!(!bridge.pull_speaker(&mut counters, &mut out, 2));
    bridge.speaker.push(&[3u32]);
    for _ in 0..6 {
        assert!(bridge.pull_speaker(&mut counters, &mut out, 2));
        assert!(out.iter().all(|s| *s == 3));
    }
    assert_eq!(counters.audio_underruns, 0);
    for _ in 0..4 {
        assert!(!bridge.pull_speaker(&mut counters, &mut out, 2));
        assert!(out.iter().all(|s| *s == 0));
    }
    assert_eq!(counters.audio_underruns, 1);
    assert!(bridge.push_mic(&vec![1u32; 960], 1));
    assert_eq!(bridge.mic_in.rate, 48_000);
    let before = bridge.mic_in.stereo.clone();
    assert!(bridge.push_mic(&[], 1));
    assert_eq!(bridge.mic_in.stereo, before);
}

#[test]
fn nothing_is_decoded_before_a_key_frame() {
    let good = Hardware { opens: true, takes: true };
    let params = [0u8, 0, 0, 1, 0x67, 1, 0, 0, 0, 1, 0x68, 2];
    let picture = [0u8, 0, 0, 1, 0x41, 3];
    let mut key = params.to_vec();
    key.extend_from_slice(&[0, 0, 1, 0x65, 4]);
    let mut d = H264Decoder::new();
    assert_eq!(d.decode(&picture, good), Fate::NeedKeyframe);
    assert_eq!(d.decode(&params, good), Fate::NeedKeyframe);
    assert_eq!(d.decode(&picture, good), Fate::NeedKeyframe);
    assert_eq!(d.frames_submitted(), 0);
    assert_eq!(d.decode(&key, good), Fate::Accepted);
    assert_eq!(d.decode(&picture, good), Fate::Accepted);
    assert_eq!(d.frames_submitted(), 2);
    d.mark_loss();
    assert_eq!(d.decode(&picture, good), Fate::NeedKeyframe);
    assert_eq!(d.decode(&key, Hardware { opens: true, takes: false }), Fate::Failed);
    assert_eq!(d.decode(&picture, good), Fate::NeedKeyframe);
    assert_eq!(d.frames_submitted(), 2);
    assert_eq!(d.decode(&key, good), Fate::Accepted);
    let shown: Option<SurfaceFrame<u8>> = d.on_frame(-1, None);
    assert!(shown.is_none());
    assert_eq!(d.decode(&picture, good), Fate::NeedKeyframe);
    let mut fresh = H264Decoder::new();
    assert_eq!(fresh.decode(&key, Hardware { opens: false, takes: true }), Fate::Failed);
    assert_eq!(fresh.frames_submitted(), 0);
}
