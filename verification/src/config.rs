//! Configuration of the switcher: defaults, checks, and what a video layer plays.

use crate::avf::{Playlist, Segment};
use crate::strings;
use vstd::prelude::*;

verus! {

/// Bits of the opacity 1, in double precision.
pub const OPAQUE: u64 = 0x3ff0_0000_0000_0000;

/// Bits of the opacity 0.9, in double precision.
pub const NINE_TENTHS: u64 = 0x3fec_cccc_cccc_cccd;

/// Network settings.
pub struct ServerConfig {
    /// HTTPS address to listen on.
    pub bind: String,
    /// Directory of the certificate and its key.
    pub cert_dir: String,
    /// STUN server, empty for none.
    pub stun_server: String,
    /// Negotiated video codec: `H264` only.
    pub video_codec: String,
    /// Offered H.264 profile.
    pub h264_profile_level_id: String,
    /// Start bitrate announced to the phone (kb/s), 0 for none.
    pub video_start_bitrate_kbps: u32,
    /// Ceiling of the video bitrate at 1080 lines (kb/s).
    pub video_max_bitrate_kbps: u32,
    /// Opus bitrate towards the phone (bit/s).
    pub return_audio_bitrate: i32,
    /// Key frame asked for from time to time (s), 0 for never.
    pub keyframe_interval_s: u32,
    /// Announces the switcher on the local network.
    pub mdns: bool,
    /// Name of the switcher in the application, empty for that of the machine.
    pub name: String,
}

/// The values where nothing else is said.
pub open spec fn server_default(r: ServerConfig) -> bool {
    &&& r.bind@ == "0.0.0.0:8443"@
    &&& r.cert_dir@ == "certs"@
    &&& r.stun_server@ == "stun://stun.l.google.com:19302"@
    &&& r.video_codec@ == "H264"@
    &&& r.h264_profile_level_id@ == "42e01f"@
    &&& r.video_start_bitrate_kbps == 3000
    &&& r.video_max_bitrate_kbps == 8000
    &&& r.return_audio_bitrate == 64000
    &&& r.keyframe_interval_s == 10
    &&& r.mdns
    &&& r.name@ == Seq::<char>::empty()
}

impl Default for ServerConfig {
    fn default() -> (r: Self)
        ensures
            server_default(r),
    {
        ServerConfig {
            bind: strings::text("0.0.0.0:8443"),
            cert_dir: strings::text("certs"),
            stun_server: strings::text("stun://stun.l.google.com:19302"),
            video_codec: strings::text("H264"),
            h264_profile_level_id: strings::text("42e01f"),
            video_start_bitrate_kbps: 3000,
            video_max_bitrate_kbps: 8000,
            return_audio_bitrate: 64000,
            keyframe_interval_s: 10,
            mdns: true,
            name: String::new(),
        }
    }
}

/// Remote control over OSC.
pub struct OscConfig {
    pub enabled: bool,
    /// UDP address to listen on.
    pub bind: String,
}

/// The values where nothing else is said.
pub open spec fn osc_default(r: OscConfig) -> bool {
    &&& r.enabled
    &&& r.bind@ == "0.0.0.0:53100"@
}

impl Default for OscConfig {
    fn default() -> (r: Self)
        ensures
            osc_default(r),
    {
        OscConfig { enabled: true, bind: strings::text("0.0.0.0:53100") }
    }
}

/// Canvas of the scenes.
#[derive(Debug, Clone, Copy, PartialEq, Eq, Structural)]
pub struct VideoConfig {
    pub width: i32,
    pub height: i32,
    pub fps: i32,
    /// Internal latency (ms).
    pub mixer_latency_ms: u64,
    /// Delay of the phone's picture (ms) to meet its sound.
    pub av_offset_ms: u32,
}

/// The values where nothing else is said.
pub open spec fn video_default(r: VideoConfig) -> bool {
    &&& r == (VideoConfig {
        width: 1920,
        height: 1080,
        fps: 30,
        mixer_latency_ms: 60,
        av_offset_ms: 80,
    })
}

impl Default for VideoConfig {
    fn default() -> (r: Self)
        ensures
            video_default(r),
    {
        VideoConfig { width: 1920, height: 1080, fps: 30, mixer_latency_ms: 60, av_offset_ms: 80 }
    }
}

/// Programme output.
pub struct OutputConfig {
    /// Part of the display's name, or its index; empty for a second display if there is one.
    pub display: String,
    pub fullscreen: bool,
}

/// The values where nothing else is said.
pub open spec fn output_default(r: OutputConfig) -> bool {
    &&& r.display@ == Seq::<char>::empty()
    &&& r.fullscreen
}

impl Default for OutputConfig {
    fn default() -> (r: Self)
        ensures
            output_default(r),
    {
        OutputConfig { display: String::new(), fullscreen: true }
    }
}

/// Multiview window.
pub struct MultiviewConfig {
    pub enabled: bool,
    pub width: i32,
    pub height: i32,
    pub columns: u32,
    pub display: String,
    /// Shows the machine's clock, to measure the latency.
    pub clock: bool,
}

/// The values where nothing else is said.
pub open spec fn multiview_default(r: MultiviewConfig) -> bool {
    &&& r.enabled
    &&& r.width == 1280
    &&& r.height == 720
    &&& r.columns == 4
    &&& r.display@ == Seq::<char>::empty()
    &&& !r.clock
}

impl Default for MultiviewConfig {
    fn default() -> (r: Self)
        ensures
            multiview_default(r),
    {
        MultiviewConfig {
            enabled: true,
            width: 1280,
            height: 720,
            columns: 4,
            display: String::new(),
            clock: false,
        }
    }
}

/// Sound card.
pub struct AudioConfig {
    pub enabled: bool,
    /// `default`, `none` or part of the device's name.
    pub output_device: String,
    pub input_device: String,
    /// Channels of the output, 0 to detect them.
    pub output_channels: i32,
    /// Channels of the input, 0 to detect them.
    pub input_channels: i32,
    /// Output channels (from 1) of the phone's sound; none for not routed.
    pub stream_output_channels: Vec<usize>,
    /// Output channels (from 1) of the branding's sound; none for not routed.
    pub branding_output_channels: Vec<usize>,
    /// Input channels (from 1) sent back to the phone.
    pub return_from_input_channels: Vec<usize>,
    pub sample_rate: i32,
    /// Shows the meters.
    pub meters: bool,
}

fn two(a: usize, b: usize) -> (r: Vec<usize>)
    ensures
        r@ == seq![a, b],
{
    let mut v: Vec<usize> = Vec::new();
    v.push(a);
    v.push(b);
    assert(v@ == seq![a, b]);
    v
}

fn one_channel(a: usize) -> (r: Vec<usize>)
    ensures
        r@ == seq![a],
{
    let mut v: Vec<usize> = Vec::new();
    v.push(a);
    assert(v@ == seq![a]);
    v
}

/// The values where nothing else is said.
pub open spec fn audio_default(r: AudioConfig) -> bool {
    &&& r.enabled
    &&& r.output_device@ == "default"@
    &&& r.input_device@ == "default"@
    &&& r.output_channels == 0
    &&& r.input_channels == 0
    &&& r.stream_output_channels@ == seq![3usize, 4usize]
    &&& r.branding_output_channels@ == seq![1usize, 2usize]
    &&& r.return_from_input_channels@ == seq![1usize]
    &&& r.sample_rate == 48000
    &&& r.meters
}

impl Default for AudioConfig {
    fn default() -> (r: Self)
        ensures
            audio_default(r),
    {
        AudioConfig {
            enabled: true,
            output_device: strings::text("default"),
            input_device: strings::text("default"),
            output_channels: 0,
            input_channels: 0,
            stream_output_channels: two(3, 4),
            branding_output_channels: two(1, 2),
            return_from_input_channels: one_channel(1),
            sample_rate: 48000,
            meters: true,
        }
    }
}

/// Change of scene on the programme.
pub struct TransitionConfig {
    /// `cut` or `fade`.
    pub kind: String,
    pub duration_ms: u64,
}

/// The values where nothing else is said.
pub open spec fn transition_default(r: TransitionConfig) -> bool {
    &&& r.kind@ == "fade"@
    &&& r.duration_ms == 400
}

impl Default for TransitionConfig {
    fn default() -> (r: Self)
        ensures
            transition_default(r),
    {
        TransitionConfig { kind: strings::text("fade"), duration_ms: 400 }
    }
}

/// A key of the Stream Deck.
pub struct ButtonConfig {
    /// Index of the key, from the top left.
    pub index: u8,
    /// `program`, `cut`, `preview` or `take`.
    pub action: String,
    pub scene: String,
    /// Text, empty for the scene's name.
    pub label: String,
    /// Background at rest (`#RRGGBB`).
    pub color: String,
}

/// What a key is set to.
pub struct ButtonView {
    pub index: u8,
    pub action: Seq<char>,
    pub scene: Seq<char>,
    pub label: Seq<char>,
    pub color: Seq<char>,
}

impl View for ButtonConfig {
    type V = ButtonView;

    open spec fn view(&self) -> ButtonView {
        ButtonView {
            index: self.index,
            action: self.action@,
            scene: self.scene@,
            label: self.label@,
            color: self.color@,
        }
    }
}

impl Default for ButtonConfig {
    fn default() -> (r: Self)
        ensures
            r@ == button_view(0, "program"@, Seq::empty(), Seq::empty()),
    {
        ButtonConfig {
            index: 0,
            action: strings::text("program"),
            scene: String::new(),
            label: String::new(),
            color: String::new(),
        }
    }
}

/// A key without a colour of its own.
pub open spec fn button_view(index: u8, action: Seq<char>, scene: Seq<char>, label: Seq<char>) -> ButtonView {
    ButtonView { index, action, scene, label, color: Seq::empty() }
}

/// Stream Deck.
pub struct StreamDeckConfig {
    pub enabled: bool,
    /// Serial number, empty for the first one found.
    pub serial: String,
    pub brightness: u8,
    /// Keys; none for one per scene in order, then one to take.
    pub buttons: Vec<ButtonConfig>,
}

/// The values where nothing else is said.
pub open spec fn streamdeck_default(r: StreamDeckConfig) -> bool {
    &&& r.enabled
    &&& r.serial@ == Seq::<char>::empty()
    &&& r.brightness == 60
    &&& r.buttons@.len() == 0
}

impl Default for StreamDeckConfig {
    fn default() -> (r: Self)
        ensures
            streamdeck_default(r),
    {
        StreamDeckConfig { enabled: true, serial: String::new(), brightness: 60, buttons: Vec::new() }
    }
}

/// Place of a layer in the scene, in pixels; the full frame where it has no size.
#[derive(Debug, Clone, Copy, PartialEq, Eq, Structural)]
pub struct Geometry {
    pub x: i32,
    pub y: i32,
    pub width: Option<i32>,
    pub height: Option<i32>,
}

/// The full frame.
pub open spec fn full_frame() -> Geometry {
    Geometry { x: 0, y: 0, width: None, height: None }
}

impl Default for Geometry {
    fn default() -> (r: Self)
        ensures
            r == full_frame(),
    {
        Geometry { x: 0, y: 0, width: None, height: None }
    }
}

/// When a video plays.
#[derive(Debug, Clone, Copy, PartialEq, Eq, Structural)]
pub enum StartMode {
    /// From the launch on.
    Always,
    /// While its scene is on the air.
    OnAir,
}

/// A layer of a scene. Opacities are the bits of their double-precision numbers.
pub enum LayerConfig {
    /// The phone's picture.
    Phone { geometry: Geometry, opacity: u64 },
    /// A flat colour.
    Color { color: String, geometry: Geometry },
    /// A still image.
    Image { path: String, geometry: Geometry, opacity: u64 },
    /// A video file.
    Video {
        path: String,
        /// The last file plays in a loop.
        looped: bool,
        /// File played in a loop after `path`, which then plays once.
        next: Option<String>,
        /// Bounds of a loop inside the file (ms).
        loop_from_ms: Option<u64>,
        loop_to_ms: Option<u64>,
        start: Option<StartMode>,
        /// The file's sound is played.
        audio: bool,
        /// Forces or forbids transparency; none to detect it.
        alpha: Option<bool>,
        geometry: Geometry,
        opacity: u64,
    },
    /// Text.
    Text { text: String, font: String, color: String, geometry: Geometry },
}

/// What a layer is.
pub enum LayerView {
    Phone { geometry: Geometry, opacity: u64 },
    Color { color: Seq<char>, geometry: Geometry },
    Image { path: Seq<char>, geometry: Geometry, opacity: u64 },
    Video {
        path: Seq<char>,
        looped: bool,
        next: Option<Seq<char>>,
        loop_from_ms: Option<u64>,
        loop_to_ms: Option<u64>,
        start: Option<StartMode>,
        audio: bool,
        alpha: Option<bool>,
        geometry: Geometry,
        opacity: u64,
    },
    Text { text: Seq<char>, font: Seq<char>, color: Seq<char>, geometry: Geometry },
}

impl View for LayerConfig {
    type V = LayerView;

    open spec fn view(&self) -> LayerView {
        match *self {
            LayerConfig::Phone { geometry, opacity } => LayerView::Phone { geometry, opacity },
            LayerConfig::Color { color, geometry } => LayerView::Color { color: color@, geometry },
            LayerConfig::Image { path, geometry, opacity } => LayerView::Image {
                path: path@,
                geometry,
                opacity,
            },
            LayerConfig::Video {
                path,
                looped,
                next,
                loop_from_ms,
                loop_to_ms,
                start,
                audio,
                alpha,
                geometry,
                opacity,
            } => LayerView::Video {
                path: path@,
                looped,
                next: match next {
                    Some(n) => Some(n@),
                    None => None,
                },
                loop_from_ms,
                loop_to_ms,
                start,
                audio,
                alpha,
                geometry,
                opacity,
            },
            LayerConfig::Text { text, font, color, geometry } => LayerView::Text {
                text: text@,
                font: font@,
                color: color@,
                geometry,
            },
        }
    }
}

/// A scene.
pub struct SceneConfig {
    pub id: String,
    pub name: String,
    pub layers: Vec<LayerConfig>,
}

/// What a scene is.
pub struct SceneView {
    pub id: Seq<char>,
    pub name: Seq<char>,
    pub layers: Seq<LayerView>,
}

impl View for SceneConfig {
    type V = SceneView;

    open spec fn view(&self) -> SceneView {
        SceneView {
            id: self.id@,
            name: self.name@,
            layers: self.layers@.map_values(|l: LayerConfig| l@),
        }
    }
}

/// What a list of scenes is.
pub open spec fn scene_views(scenes: Seq<SceneConfig>) -> Seq<SceneView> {
    scenes.map_values(|s: SceneConfig| s@)
}

/// What a list of keys is.
pub open spec fn button_views(buttons: Seq<ButtonConfig>) -> Seq<ButtonView> {
    buttons.map_values(|b: ButtonConfig| b@)
}

/// A video loops where nothing else is said.
pub fn yes() -> (r: bool)
    ensures
        r,
{
    true
}

/// Opacity where nothing else is said.
pub fn one() -> (r: u64)
    ensures
        r == OPAQUE,
{
    OPAQUE
}

/// Font where nothing else is said.
pub fn default_font() -> (r: String)
    ensures
        r@ == "Sans Bold 48"@,
{
    strings::text("Sans Bold 48")
}

/// Text colour where nothing else is said.
pub fn white() -> (r: String)
    ensures
        r@ == "#FFFFFF"@,
{
    strings::text("#FFFFFF")
}

/// The whole configuration.
pub struct Config {
    pub server: ServerConfig,
    pub osc: OscConfig,
    pub video: VideoConfig,
    pub output: OutputConfig,
    pub multiview: MultiviewConfig,
    pub audio: AudioConfig,
    pub transition: TransitionConfig,
    pub streamdeck: StreamDeckConfig,
    pub scenes: Vec<SceneConfig>,
    /// Directory of relative paths.
    pub base_dir: String,
}

impl Default for Config {
    fn default() -> (r: Self)
        ensures
            server_default(r.server),
            osc_default(r.osc),
            video_default(r.video),
            output_default(r.output),
            multiview_default(r.multiview),
            audio_default(r.audio),
            transition_default(r.transition),
            streamdeck_default(r.streamdeck),
            r.scenes@.len() == 0,
            r.base_dir@ == Seq::<char>::empty(),
    {
        Config {
            server: ServerConfig::default(),
            osc: OscConfig::default(),
            video: VideoConfig::default(),
            output: OutputConfig::default(),
            multiview: MultiviewConfig::default(),
            audio: AudioConfig::default(),
            transition: TransitionConfig::default(),
            streamdeck: StreamDeckConfig::default(),
            scenes: Vec::new(),
            base_dir: String::new(),
        }
    }
}

/// A layer that shows the phone in full frame.
pub open spec fn phone_layer() -> LayerView {
    LayerView::Phone { geometry: full_frame(), opacity: OPAQUE }
}

/// The scene that shows black.
pub open spec fn black_scene() -> SceneView {
    SceneView {
        id: "black"@,
        name: "Noir"@,
        layers: seq![LayerView::Color { color: "#000000"@, geometry: full_frame() }],
    }
}

/// The scene that shows the phone.
pub open spec fn live_scene() -> SceneView {
    SceneView { id: "live"@, name: "Direct"@, layers: seq![phone_layer()] }
}

/// The scenes where none is configured.
pub open spec fn default_scene_views() -> Seq<SceneView> {
    seq![black_scene(), live_scene()]
}

/// The example scene with a banner and a text over the phone.
pub open spec fn branding_scene() -> SceneView {
    SceneView {
        id: "branding"@,
        name: "Habillage"@,
        layers: seq![
            phone_layer(),
            LayerView::Image {
                path: "assets/lower-third.png"@,
                geometry: full_frame(),
                opacity: OPAQUE,
            },
            LayerView::Text {
                text: "EN DIRECT"@,
                font: "Sans Bold 40"@,
                color: "#FFFFFF"@,
                geometry: Geometry { x: 120, y: 900, width: Some(600), height: Some(90) },
            },
        ],
    }
}

/// The example scene with a video over the phone.
pub open spec fn overlay_scene() -> SceneView {
    SceneView {
        id: "overlay"@,
        name: "Overlay vidéo"@,
        layers: seq![
            phone_layer(),
            LayerView::Video {
                path: "assets/overlay.mp4"@,
                looped: true,
                next: None,
                loop_from_ms: None,
                loop_to_ms: None,
                start: None,
                audio: true,
                alpha: None,
                geometry: Geometry { x: 1280, y: 60, width: Some(576), height: Some(324) },
                opacity: NINE_TENTHS,
            },
        ],
    }
}

/// The scenes of the example.
pub open spec fn example_scene_views() -> Seq<SceneView> {
    seq![black_scene(), live_scene(), branding_scene(), overlay_scene()]
}

/// The keys of the example: one per scene, then one to take.
pub open spec fn example_button_views() -> Seq<ButtonView> {
    seq![
        button_view(0, "program"@, "black"@, Seq::empty()),
        button_view(1, "program"@, "live"@, Seq::empty()),
        button_view(2, "program"@, "branding"@, Seq::empty()),
        button_view(3, "program"@, "overlay"@, Seq::empty()),
        button_view(4, "take"@, Seq::empty(), "TAKE"@),
    ]
}

fn phone() -> (r: LayerConfig)
    ensures
        r@ == phone_layer(),
{
    LayerConfig::Phone { geometry: Geometry::default(), opacity: OPAQUE }
}

fn scene(id: &str, name: &str, layers: Vec<LayerConfig>) -> (r: SceneConfig)
    ensures
        r@ == (SceneView {
            id: id@,
            name: name@,
            layers: layers@.map_values(|l: LayerConfig| l@),
        }),
{
    SceneConfig { id: strings::text(id), name: strings::text(name), layers }
}

fn black() -> (r: SceneConfig)
    ensures
        r@ == black_scene(),
{
    let mut layers: Vec<LayerConfig> = Vec::new();
    layers.push(
        LayerConfig::Color { color: strings::text("#000000"), geometry: Geometry::default() },
    );
    assert(layers@.map_values(|l: LayerConfig| l@) == black_scene().layers);
    scene("black", "Noir", layers)
}

fn live() -> (r: SceneConfig)
    ensures
        r@ == live_scene(),
{
    let mut layers: Vec<LayerConfig> = Vec::new();
    layers.push(phone());
    assert(layers@.map_values(|l: LayerConfig| l@) == live_scene().layers);
    scene("live", "Direct", layers)
}

fn branding() -> (r: SceneConfig)
    ensures
        r@ == branding_scene(),
{
    let mut layers: Vec<LayerConfig> = Vec::new();
    layers.push(phone());
    layers.push(
        LayerConfig::Image {
            path: strings::text("assets/lower-third.png"),
            geometry: Geometry::default(),
            opacity: OPAQUE,
        },
    );
    layers.push(
        LayerConfig::Text {
            text: strings::text("EN DIRECT"),
            font: strings::text("Sans Bold 40"),
            color: strings::text("#FFFFFF"),
            geometry: Geometry { x: 120, y: 900, width: Some(600), height: Some(90) },
        },
    );
    assert(layers@.map_values(|l: LayerConfig| l@) == branding_scene().layers);
    scene("branding", "Habillage", layers)
}

fn overlay() -> (r: SceneConfig)
    ensures
        r@ == overlay_scene(),
{
    let mut layers: Vec<LayerConfig> = Vec::new();
    layers.push(phone());
    layers.push(
        LayerConfig::Video {
            path: strings::text("assets/overlay.mp4"),
            looped: true,
            next: None,
            loop_from_ms: None,
            loop_to_ms: None,
            start: None,
            audio: true,
            alpha: None,
            geometry: Geometry { x: 1280, y: 60, width: Some(576), height: Some(324) },
            opacity: NINE_TENTHS,
        },
    );
    assert(layers@.map_values(|l: LayerConfig| l@) == overlay_scene().layers);
    scene("overlay", "Overlay vidéo", layers)
}

fn button(index: u8, action: &str, scene: &str, label: &str) -> (r: ButtonConfig)
    ensures
        r@ == button_view(index, action@, scene@, label@),
{
    ButtonConfig {
        index,
        action: strings::text(action),
        scene: strings::text(scene),
        label: strings::text(label),
        color: String::new(),
    }
}

/// Why a configuration is refused.
pub enum ConfigError {
    /// Two scenes have the same identifier.
    DuplicateScenes,
    /// A size or a frame rate is not positive.
    BadVideo,
    /// The codec cannot be decoded.
    UnknownCodec(String),
}

impl ConfigError {
    /// What the operator reads.
    pub fn message(&self) -> (r: String)
        ensures
            r@ == (match *self {
                ConfigError::DuplicateScenes => "identifiants de scènes en double"@,
                ConfigError::BadVideo => "video.width/height/fps invalides"@,
                ConfigError::UnknownCodec(c) => "server.video_codec inconnu : "@ + c@
                    + " (seul H264 est décodé en matériel)"@,
            }),
    {
        match self {
            ConfigError::DuplicateScenes => strings::text("identifiants de scènes en double"),
            ConfigError::BadVideo => strings::text("video.width/height/fps invalides"),
            ConfigError::UnknownCodec(c) => {
                let mut t = strings::text("server.video_codec inconnu : ");
                t.append(c.as_str());
                t.append(" (seul H264 est décodé en matériel)");
                t
            },
        }
    }
}

/// The scene at place `i` with its identifier and name filled in.
pub open spec fn filled(s: SceneView, i: int) -> SceneView {
    let id = if s.id.len() == 0 {
        "scene"@ + strings::decimal((i + 1) as nat)
    } else {
        s.id
    };
    SceneView {
        id,
        name: if s.name.len() == 0 {
            id
        } else {
            s.name
        },
        layers: s.layers,
    }
}

/// The scenes with identifiers and names filled in; the default ones where there is none.
pub open spec fn filled_scenes(scenes: Seq<SceneView>) -> Seq<SceneView> {
    if scenes.len() == 0 {
        default_scene_views()
    } else {
        Seq::new(scenes.len(), |i: int| filled(scenes[i], i))
    }
}

/// No two scenes have the same identifier.
pub open spec fn unique_ids(scenes: Seq<SceneView>) -> bool {
    forall|i: int, j: int|
        #![trigger scenes[i].id, scenes[j].id]
        0 <= i < j < scenes.len() ==> scenes[i].id != scenes[j].id
}

/// The canvas has a size and a frame rate.
pub open spec fn good_video(v: VideoConfig) -> bool {
    v.width > 0 && v.height > 0 && v.fps > 0
}

/// The codec is H.264, in any case of the letter.
pub open spec fn good_codec(codec: Seq<char>) -> bool {
    strings::ascii_uppercase(codec) == "H264"@
}

fn ids_unique(scenes: &Vec<SceneConfig>) -> (r: bool)
    ensures
        r == unique_ids(scene_views(scenes@)),
{
    let ghost v = scene_views(scenes@);
    let mut i: usize = 0;
    while i < scenes.len()
        invariant
            i <= scenes.len(),
            v == scene_views(scenes@),
            forall|a: int, b: int|
                #![trigger v[a].id, v[b].id]
                0 <= a < i && a < b < v.len() ==> v[a].id != v[b].id,
        decreases scenes.len() - i,
    {
        let mut j: usize = i + 1;
        while j < scenes.len()
            invariant
                i < j <= scenes.len(),
                v == scene_views(scenes@),
                forall|b: int| i < b < j ==> v[i as int].id != (#[trigger] v[b]).id,
            decreases scenes.len() - j,
        {
            if strings::same_text(scenes[i].id.as_str(), scenes[j].id.as_str()) {
                assert(v[i as int].id == v[j as int].id);
                return false;
            }
            j += 1;
        }
        i += 1;
    }
    true
}

impl Config {
    /// The scenes where none is configured: black, then the phone.
    pub fn default_scenes() -> (r: Vec<SceneConfig>)
        ensures
            scene_views(r@) == default_scene_views(),
    {
        let mut out: Vec<SceneConfig> = Vec::new();
        out.push(black());
        out.push(live());
        assert(scene_views(out@) == default_scene_views());
        out
    }

    /// Checks the configuration and fills in what can be: scenes, identifiers, names, columns.
    pub fn validate(&mut self) -> (r: Result<(), ConfigError>)
        ensures
            ({
                let scenes = filled_scenes(scene_views(old(self).scenes@));
                &&& scene_views(final(self).scenes@) == scenes
                &&& (match r {
                    Ok(()) => unique_ids(scenes) && good_video(old(self).video) && good_codec(
                        old(self).server.video_codec@,
                    ),
                    Err(ConfigError::DuplicateScenes) => !unique_ids(scenes),
                    Err(ConfigError::BadVideo) => unique_ids(scenes) && !good_video(
                        old(self).video,
                    ),
                    Err(ConfigError::UnknownCodec(c)) => {
                        &&& unique_ids(scenes)
                        &&& good_video(old(self).video)
                        &&& !good_codec(old(self).server.video_codec@)
                        &&& c@ == strings::ascii_uppercase(old(self).server.video_codec@)
                    },
                })
                &&& final(self).multiview.columns == (if r is Ok && old(self).multiview.columns
                    == 0 {
                    4
                } else {
                    old(self).multiview.columns
                })
                &&& final(self).multiview.enabled == old(self).multiview.enabled
                &&& final(self).multiview.width == old(self).multiview.width
                &&& final(self).multiview.height == old(self).multiview.height
                &&& final(self).multiview.display == old(self).multiview.display
                &&& final(self).multiview.clock == old(self).multiview.clock
                &&& final(self).server == old(self).server
                &&& final(self).osc == old(self).osc
                &&& final(self).video == old(self).video
                &&& final(self).output == old(self).output
                &&& final(self).audio == old(self).audio
                &&& final(self).transition == old(self).transition
                &&& final(self).streamdeck == old(self).streamdeck
                &&& final(self).base_dir == old(self).base_dir
            }),
    {
        self.fill_scenes();
        if !ids_unique(&self.scenes) {
            return Err(ConfigError::DuplicateScenes);
        }
        if !(self.video.width > 0 && self.video.height > 0 && self.video.fps > 0) {
            return Err(ConfigError::BadVideo);
        }
        let codec = strings::chars_of(self.server.video_codec.as_str());
        let upper = strings::ascii_uppercase_of(codec.as_slice());
        if !strings::is_text(upper.as_slice(), "H264") {
            return Err(ConfigError::UnknownCodec(strings::string_of(upper.as_slice())));
        }
        if self.multiview.columns == 0 {
            self.multiview.columns = 4;
        }
        Ok(())
    }

    fn fill_scenes(&mut self)
        ensures
            scene_views(final(self).scenes@) == filled_scenes(scene_views(old(self).scenes@)),
            *final(self) == (Config { scenes: final(self).scenes, ..*old(self) }),
    {
        if self.scenes.len() == 0 {
            self.scenes = Config::default_scenes();
            return;
        }
        let mut old_scenes: Vec<SceneConfig> = Vec::new();
        core::mem::swap(&mut old_scenes, &mut self.scenes);
        let ghost all = old_scenes@;
        let ghost want = filled_scenes(scene_views(all));
        let mut out: Vec<SceneConfig> = Vec::new();
        let mut n: u64 = 0;
        for s in it: old_scenes
            invariant
                it.seq() == all,
                n == it.index(),
                all.len() <= u64::MAX,
                all.len() > 0,
                want == filled_scenes(scene_views(all)),
                scene_views(out@) == want.take(it.index() as int),
        {
            let ghost i = it.index() as int;
            let ghost v = s@;
            assert(v == scene_views(all)[i]);
            n = n + 1;
            let SceneConfig { id, name, layers } = s;
            let id = if id.as_str().is_empty() {
                let mut t = strings::text("scene");
                strings::push_decimal(&mut t, n);
                t
            } else {
                id
            };
            let name = if name.as_str().is_empty() {
                id.clone()
            } else {
                name
            };
            let ghost before = out@;
            let filled_one = SceneConfig { id, name, layers };
            assert(filled_one@ == filled(v, i));
            out.push(filled_one);
            assert(scene_views(out@) == scene_views(before).push(filled(v, i)));
        }
        assert(want.take(all.len() as int) == want);
        self.scenes = out;
    }

    /// A complete example.
    pub fn example() -> (r: Self)
        ensures
            server_default(r.server),
            osc_default(r.osc),
            video_default(r.video),
            r.output.display@ == "HDMI"@,
            r.output.fullscreen,
            multiview_default(r.multiview),
            r.audio.output_device@ == "WING"@,
            r.audio.input_device@ == "WING"@,
            r.audio.branding_output_channels@ == seq![1usize, 2usize],
            r.audio.stream_output_channels@ == seq![3usize, 4usize],
            r.audio.return_from_input_channels@ == seq![1usize],
            r.audio.enabled && r.audio.meters,
            r.audio.output_channels == 0 && r.audio.input_channels == 0,
            r.audio.sample_rate == 48000,
            transition_default(r.transition),
            r.streamdeck.enabled,
            r.streamdeck.serial@ == Seq::<char>::empty(),
            r.streamdeck.brightness == 60,
            button_views(r.streamdeck.buttons@) == example_button_views(),
            scene_views(r.scenes@) == example_scene_views(),
            r.base_dir@ == Seq::<char>::empty(),
    {
        let mut cfg = Config::default();
        cfg.audio.output_device = strings::text("WING");
        cfg.audio.input_device = strings::text("WING");
        cfg.audio.branding_output_channels = two(1, 2);
        cfg.audio.stream_output_channels = two(3, 4);
        cfg.audio.return_from_input_channels = one_channel(1);
        cfg.output.display = strings::text("HDMI");
        let mut scenes: Vec<SceneConfig> = Vec::new();
        scenes.push(black());
        scenes.push(live());
        scenes.push(branding());
        scenes.push(overlay());
        assert(scene_views(scenes@) == example_scene_views());
        cfg.scenes = scenes;
        let mut buttons: Vec<ButtonConfig> = Vec::new();
        buttons.push(button(0, "program", "black", ""));
        buttons.push(button(1, "program", "live", ""));
        buttons.push(button(2, "program", "branding", ""));
        buttons.push(button(3, "program", "overlay", ""));
        buttons.push(button(4, "take", "", "TAKE"));
        proof {
            reveal_strlit("");
            assert(""@ == Seq::<char>::empty());
        }
        assert(button_views(buttons@) == example_button_views());
        cfg.streamdeck.buttons = buttons;
        cfg
    }

    /// A path of the configuration: relative ones are taken from its directory.
    pub fn resolve(&self, p: &str) -> (r: String)
        ensures
            r@ == resolved(self.base_dir@, p@),
    {
        let s = strings::chars_of(p);
        let b = strings::chars_of(self.base_dir.as_str());
        if (s.len() > 0 && s[0] == '/') || b.len() == 0 {
            return strings::text(p);
        }
        let mut out = strings::text(self.base_dir.as_str());
        if b[b.len() - 1] != '/' {
            out.append("/");
        }
        out.append(p);
        out
    }
}

/// A path taken from a directory: itself where it is absolute, else behind the directory.
pub open spec fn resolved(base: Seq<char>, p: Seq<char>) -> Seq<char> {
    if p.len() > 0 && p[0] == '/' || base.len() == 0 {
        p
    } else if base.last() == '/' {
        base + p
    } else {
        base + "/"@ + p
    }
}

/// A checked configuration has scenes, each with its own identifier and a name.
pub proof fn filled_scenes_are_named(scenes: Seq<SceneView>)
    ensures
        filled_scenes(scenes).len() > 0,
        forall|i: int|
            0 <= i < filled_scenes(scenes).len() ==> (#[trigger] filled_scenes(scenes)[i]).id.len()
                > 0 && filled_scenes(scenes)[i].name.len() > 0,
{
    reveal_strlit("black");
    reveal_strlit("Noir");
    reveal_strlit("live");
    reveal_strlit("Direct");
    reveal_strlit("scene");
}

/// Checking a second time changes nothing.
pub proof fn filling_twice_changes_nothing(scenes: Seq<SceneView>)
    ensures
        filled_scenes(filled_scenes(scenes)) == filled_scenes(scenes),
{
    filled_scenes_are_named(scenes);
    let once = filled_scenes(scenes);
    assert forall|i: int| 0 <= i < once.len() implies filled(once[i], i) == once[i] by {}
    assert(filled_scenes(once) =~= once);
}

/// `s` without the marks at its start.
pub open spec fn without_marks(s: Seq<char>) -> Seq<char>
    decreases s.len(),
{
    if s.len() > 0 && s[0] == '#' {
        without_marks(s.drop_first())
    } else {
        s
    }
}

/// Value of a hexadecimal digit.
pub open spec fn hex_value(c: char) -> Option<int> {
    crate::client::ws::hex_value(c)
}

/// Every character is a hexadecimal digit.
pub open spec fn all_hex(s: Seq<char>) -> bool {
    forall|i: int| 0 <= i < s.len() ==> hex_value(#[trigger] s[i]) is Some
}

/// The byte that the digits `i` and `i + 1` of `h` write.
pub open spec fn hex_byte(h: Seq<char>, i: int) -> u8 {
    (hex_value(h[i])->0 * 16 + hex_value(h[i + 1])->0) as u8
}

/// The colour that a text writes: `#RRGGBB` (opaque) or `#RRGGBBAA`, hexadecimal digits only.
pub open spec fn color_in(s: Seq<char>) -> Option<(u8, u8, u8, u8)> {
    let h = without_marks(strings::trim(s));
    if !all_hex(h) {
        None
    } else if h.len() == 6 {
        Some((hex_byte(h, 0), hex_byte(h, 2), hex_byte(h, 4), 0xff))
    } else if h.len() == 8 {
        Some((hex_byte(h, 0), hex_byte(h, 2), hex_byte(h, 4), hex_byte(h, 6)))
    } else {
        None
    }
}

fn hex_digit(c: char) -> (r: Option<u32>)
    ensures
        (match r {
            Some(v) => v < 16 && hex_value(c) == Some(v as int),
            None => hex_value(c) is None,
        }),
{
    if '0' <= c && c <= '9' {
        Some(((c as u8) - 48) as u32)
    } else if 'a' <= c && c <= 'f' {
        Some(((c as u8) - 97 + 10) as u32)
    } else if 'A' <= c && c <= 'F' {
        Some(((c as u8) - 65 + 10) as u32)
    } else {
        None
    }
}

/// The byte of two hexadecimal digits, `None` where one of them is not a digit.
fn byte_of(h: &[char], i: usize) -> (r: Option<u8>)
    requires
        i + 1 < h@.len(),
    ensures
        (match r {
            Some(b) => hex_value(h@[i as int]) is Some && hex_value(h@[i + 1]) is Some && b
                == hex_byte(h@, i as int),
            None => hex_value(h@[i as int]) is None || hex_value(h@[i + 1]) is None,
        }),
{
    match (hex_digit(h[i]), hex_digit(h[i + 1])) {
        (Some(a), Some(b)) => Some((a * 16 + b) as u8),
        _ => None,
    }
}

/// Reads `#RRGGBB` or `#RRGGBBAA`.
pub fn parse_color(s: &str) -> (r: Option<(u8, u8, u8, u8)>)
    ensures
        r == color_in(s@),
{
    let c = strings::chars_of(s);
    let t = strings::trim_of(c.as_slice());
    let mut n: usize = 0;
    assert(t@.skip(0) == t@);
    while n < t.len() && t[n] == '#'
        invariant
            n <= t.len(),
            without_marks(t@.skip(n as int)) == without_marks(t@),
        decreases t.len() - n,
    {
        assert(t@.skip(n as int).drop_first() == t@.skip(n + 1));
        n += 1;
    }
    let h = strings::part(t.as_slice(), n, t.len());
    assert(h@ == t@.skip(n as int));
    assert(h@ == without_marks(t@));
    if h.len() != 6 && h.len() != 8 {
        return None;
    }
    match (
        byte_of(h.as_slice(), 0),
        byte_of(h.as_slice(), 2),
        byte_of(h.as_slice(), 4),
        if h.len() == 8 {
            byte_of(h.as_slice(), 6)
        } else {
            Some(0xff)
        },
    ) {
        (Some(red), Some(green), Some(blue), Some(alpha)) => Some((red, green, blue, alpha)),
        _ => None,
    }
}

/// A piece of a play list: path, range (nanoseconds), whether it repeats.
pub struct SegmentView {
    pub path: Seq<char>,
    pub from: int,
    pub to: Option<int>,
    pub repeat: bool,
}

/// What the pieces of a play list are.
pub open spec fn segment_views(list: Seq<Segment>) -> Seq<SegmentView> {
    list.map_values(
        |s: Segment|
            SegmentView {
                path: s.path@,
                from: s.from as int,
                to: match s.to {
                    Some(t) => Some(t as int),
                    None => None,
                },
                repeat: s.repeat,
            },
    )
}

/// Nanoseconds of an optional time in milliseconds.
pub open spec fn ns(ms: Option<u64>) -> Option<int> {
    match ms {
        Some(m) => Some(m as int * 1_000_000),
        None => None,
    }
}

/// What a video plays: a file then another in a loop; or a file up to the end of a range, then
/// the range in a loop; or a file in a loop. The last piece repeats where the layer loops.
pub open spec fn video_pieces(v: LayerView, base: Seq<char>) -> Seq<SegmentView> {
    match v {
        LayerView::Video { path, looped, next, loop_from_ms, loop_to_ms, .. } => {
            let file = resolved(base, path);
            match next {
                Some(second) => seq![
                    SegmentView { path: file, from: 0, to: None, repeat: false },
                    SegmentView {
                        path: resolved(base, second),
                        from: 0,
                        to: None,
                        repeat: looped,
                    },
                ],
                None => if loop_from_ms is None && loop_to_ms is None {
                    seq![SegmentView { path: file, from: 0, to: None, repeat: looped }]
                } else {
                    seq![
                        SegmentView { path: file, from: 0, to: ns(loop_to_ms), repeat: false },
                        SegmentView {
                            path: file,
                            from: match loop_from_ms {
                                Some(m) => m as int * 1_000_000,
                                None => 0,
                            },
                            to: ns(loop_to_ms),
                            repeat: looped,
                        },
                    ]
                },
            }
        },
        _ => seq![],
    }
}

/// When a video plays: as configured; else on the air as soon as it has a second file or a range.
pub open spec fn video_start(v: LayerView) -> StartMode {
    match v {
        LayerView::Video { next, loop_from_ms, loop_to_ms, start, .. } => match start {
            Some(m) => m,
            None => if next is Some || loop_from_ms is Some || loop_to_ms is Some {
                StartMode::OnAir
            } else {
                StartMode::Always
            },
        },
        _ => StartMode::Always,
    }
}

/// The bounds of a loop can be counted in nanoseconds.
pub open spec fn bounds_fit(v: LayerView) -> bool {
    v matches LayerView::Video { loop_from_ms, loop_to_ms, .. } ==> {
        &&& loop_from_ms matches Some(m) ==> m <= u64::MAX / 1_000_000
        &&& loop_to_ms matches Some(m) ==> m <= u64::MAX / 1_000_000
    }
}

fn piece(path: String, from: u64, to: Option<u64>, repeat: bool) -> (r: Segment)
    ensures
        r == (Segment { path, from, to, repeat }),
{
    Segment { path, from, to, repeat }
}

impl Config {
    /// The play list of a video layer; none for another layer.
    pub fn playlist(&self, layer: &LayerConfig) -> (r: Option<Playlist>)
        requires
            bounds_fit(layer@),
        ensures
            r is Some <==> layer@ is Video,
            r matches Some(p) ==> {
                &&& segment_views(p.segments@) == video_pieces(layer@, self.base_dir@)
                &&& p.autostart == (video_start(layer@) == StartMode::Always)
                &&& p.audio == layer@->Video_audio
                &&& p.alpha == layer@->Video_alpha
            },
    {
        match layer {
            LayerConfig::Video {
                path,
                looped,
                next,
                loop_from_ms,
                loop_to_ms,
                start,
                audio,
                alpha,
                geometry: _,
                opacity: _,
            } => {
                let mut segments: Vec<Segment> = Vec::new();
                let file = self.resolve(path.as_str());
                let to: Option<u64> = match loop_to_ms {
                    Some(m) => Some(*m * 1_000_000),
                    None => None,
                };
                let from: u64 = match loop_from_ms {
                    Some(m) => *m * 1_000_000,
                    None => 0,
                };
                match next {
                    Some(second) => {
                        segments.push(piece(file, 0, None, false));
                        segments.push(piece(self.resolve(second.as_str()), 0, None, *looped));
                    },
                    None => {
                        if loop_from_ms.is_none() && loop_to_ms.is_none() {
                            segments.push(piece(file, 0, None, *looped));
                        } else {
                            segments.push(piece(file.clone(), 0, to, false));
                            segments.push(piece(file, from, to, *looped));
                        }
                    },
                }
                assert(segment_views(segments@) =~= video_pieces(layer@, self.base_dir@));
                let autostart = match start {
                    Some(m) => *m == StartMode::Always,
                    None => next.is_none() && loop_from_ms.is_none() && loop_to_ms.is_none(),
                };
                Some(Playlist { segments, autostart, audio: *audio, alpha: *alpha })
            },
            _ => None,
        }
    }
}

/// Every piece of a video but the last plays once, and the last repeats where the layer loops.
pub proof fn only_the_last_piece_repeats(v: LayerView, base: Seq<char>, i: int)
    requires
        0 <= i < video_pieces(v, base).len(),
    ensures
        video_pieces(v, base)[i].repeat == (i == video_pieces(v, base).len() - 1
            && v->Video_looped),
{
}

/// A scene keeps the identifier and the name that it has. Without an identifier it is called by its
/// place, counted from 1; without a name it is shown under its identifier. Its layers stay.
pub proof fn scenes_are_filled_in(s: SceneView, i: int)
    requires
        i >= 0,
    ensures
        ({
            let f = filled(s, i);
            &&& f.layers == s.layers
            &&& s.id.len() > 0 ==> f.id == s.id
            &&& s.id.len() == 0 ==> f.id == "scene"@ + strings::decimal((i + 1) as nat)
            &&& s.name.len() > 0 ==> f.name == s.name
            &&& s.name.len() == 0 ==> f.name == f.id
        }),
{
}

/// Configured scenes stay where they are, each filled in at its own place; without any there are
/// two, black and then the phone in full frame.
pub proof fn configured_scenes_stay(scenes: Seq<SceneView>, i: int)
    ensures
        scenes.len() > 0 ==> filled_scenes(scenes).len() == scenes.len(),
        0 <= i < scenes.len() ==> filled_scenes(scenes)[i] == filled(scenes[i], i),
        scenes.len() == 0 ==> {
            let d = filled_scenes(scenes);
            &&& d.len() == 2
            &&& d[0].id == "black"@ && d[0].name == "Noir"@ && d[0].layers.len() == 1
            &&& d[0].layers[0] is Color && d[0].layers[0]->Color_color == "#000000"@
            &&& d[1].id == "live"@ && d[1].name == "Direct"@ && d[1].layers.len() == 1
            &&& d[0].layers[0]->Color_geometry == d[1].layers[0]->Phone_geometry
            &&& d[1].layers[0] is Phone && d[1].layers[0]->Phone_geometry == (Geometry {
                x: 0,
                y: 0,
                width: None,
                height: None,
            })
            &&& d[1].layers[0]->Phone_opacity == 0x3ff0_0000_0000_0000u64
        },
{
}

/// A configuration is refused where two scenes share an identifier, a size or the frame rate is
/// not positive, or the codec is not H.264, in either case of its letter; and for nothing else.
pub proof fn bad_configurations_are_refused(
    scenes: Seq<SceneView>,
    i: int,
    j: int,
    v: VideoConfig,
    codec: Seq<char>,
)
    ensures
        0 <= i < j < scenes.len() && scenes[i].id == scenes[j].id ==> !unique_ids(scenes),
        (forall|a: int, b: int|
            0 <= a < b < scenes.len() ==> (#[trigger] scenes[a]).id != (#[trigger] scenes[b]).id)
            ==> unique_ids(scenes),
        v.width <= 0 || v.height <= 0 || v.fps <= 0 <==> !good_video(v),
        good_codec(codec) <==> codec.len() == 4 && (codec[0] == 'h' || codec[0] == 'H') && codec[1]
            == '2' && codec[2] == '6' && codec[3] == '4',
{
    reveal_strlit("H264");
    let h = "H264"@;
    assert(h.len() == 4 && h[0] == 'H' && h[1] == '2' && h[2] == '6' && h[3] == '4');
    let up = strings::ascii_uppercase(codec);
    assert(up.len() == codec.len());
    if codec.len() == 4 {
        assert(up[0] == strings::ascii_upper(codec[0]) && up[1] == strings::ascii_upper(codec[1]));
        assert(up[2] == strings::ascii_upper(codec[2]) && up[3] == strings::ascii_upper(codec[3]));
        assert('a' <= codec[0] <= 'z' ==> strings::ascii_upper(codec[0]) as u32 == codec[0] as u32
            - 32);
        assert('a' <= codec[1] <= 'z' ==> strings::ascii_upper(codec[1]) as u32 >= 65);
        assert('a' <= codec[2] <= 'z' ==> strings::ascii_upper(codec[2]) as u32 >= 65);
        assert('a' <= codec[3] <= 'z' ==> strings::ascii_upper(codec[3]) as u32 >= 65);
        if up[0] == 'H' && up[1] == '2' && up[2] == '6' && up[3] == '4' {
            assert(up =~= h);
            assert(codec[0] == 'h' || codec[0] == 'H') by {
                if 'a' <= codec[0] <= 'z' {
                    assert(codec[0] as u32 == 104);
                }
            }
        }
        if codec[0] == 'h' {
            assert(strings::ascii_upper('h') == 'H');
        }
    }
}

/// A path that begins with a slash is taken as it is; any other one from the directory of the
/// configuration, with one slash between them, or as it is where there is no such directory.
pub proof fn paths_are_taken_from_the_directory(base: Seq<char>, p: Seq<char>)
    ensures
        p.len() > 0 && p[0] == '/' ==> resolved(base, p) == p,
        base.len() == 0 ==> resolved(base, p) == p,
        base.len() > 0 && !(p.len() > 0 && p[0] == '/') && base.last() != '/' ==> resolved(base, p)
            == base + seq!['/'] + p,
        base.len() > 0 && !(p.len() > 0 && p[0] == '/') && base.last() == '/' ==> resolved(base, p)
            == base + p,
{
    reveal_strlit("/");
    assert("/"@ =~= seq!['/']);
}

/// A colour is read from six hexadecimal digits, red first, then green, then blue, and opaque; or
/// from eight, the last two for the alpha. Marks before it and white space around it do not count.
pub proof fn colours_are_read(h: Seq<char>, marks: Seq<char>, before: Seq<char>, after: Seq<char>)
    requires
        h.len() == 6 || h.len() == 8,
        forall|i: int| 0 <= i < h.len() ==> crate::client::ws::hex_value(#[trigger] h[i]) is Some,
        forall|i: int| 0 <= i < marks.len() ==> #[trigger] marks[i] == '#',
        forall|i: int| 0 <= i < before.len() ==> strings::is_white(#[trigger] before[i]),
        forall|i: int| 0 <= i < after.len() ==> strings::is_white(#[trigger] after[i]),
    ensures
        ({
            let v = |i: int| crate::client::ws::hex_value(h[i])->0;
            let c = color_in(before + marks + h + after);
            &&& c is Some
            &&& (c->0).0 == v(0) * 16 + v(1)
            &&& (c->0).1 == v(2) * 16 + v(3)
            &&& (c->0).2 == v(4) * 16 + v(5)
            &&& h.len() == 6 ==> (c->0).3 == 255
            &&& h.len() == 8 ==> (c->0).3 == v(6) * 16 + v(7)
        }),
{
    let inner = marks + h;
    let s = before + marks + h + after;
    assert(h[0] == h[0]);
    assert(crate::client::ws::hex_value(h[h.len() - 1]) is Some);
    assert(crate::client::ws::hex_value(h[0]) is Some);
    assert(s =~= before + inner + after);
    assert(!strings::is_white(inner[0])) by {
        if marks.len() > 0 {
            assert(inner[0] == marks[0]);
        } else {
            assert(inner[0] == h[0]);
        }
    }
    assert(inner.last() == h[h.len() - 1]);
    strings::lemma_trim_is(before, inner, after);
    lemma_marks(marks, h);
    assert forall|i: int| 0 <= i < h.len() implies 0 <= crate::client::ws::hex_value(
        #[trigger] h[i],
    )->0 < 16 by {
        crate::client::ws::hexadecimal_digits_are_worth_their_place(h[i]);
        assert(crate::client::ws::hex_value(h[i]) is Some);
    }
    assert(all_hex(h));
}

proof fn lemma_marks(marks: Seq<char>, h: Seq<char>)
    requires
        h.len() > 0,
        h[0] != '#',
        forall|i: int| 0 <= i < marks.len() ==> #[trigger] marks[i] == '#',
    ensures
        without_marks(marks + h) == h,
    decreases marks.len(),
{
    if marks.len() == 0 {
        assert(marks + h =~= h);
    } else {
        let m = marks.drop_first();
        assert(marks[0] == '#');
        assert forall|i: int| 0 <= i < m.len() implies #[trigger] m[i] == '#' by {
            assert(m[i] == marks[i + 1]);
        }
        lemma_marks(m, h);
        assert((marks + h).drop_first() =~= m + h);
    }
}

/// A text with another number of digits, or with something else among them, is no colour.
pub proof fn other_texts_are_no_colours(s: Seq<char>, i: int)
    ensures
        ({
            let h = without_marks(strings::trim(s));
            &&& h.len() != 6 && h.len() != 8 ==> color_in(s) is None
            &&& 0 <= i < h.len() && crate::client::ws::hex_value(h[i]) is None ==> color_in(
                s,
            ) is None
        }),
{
}

/// What a video plays. With a second file: the first one once, whole, then the second one. With
/// bounds: the file up to the end of the loop once, then the part between the bounds, the beginning
/// and the end of the file standing for bounds that are not given. Otherwise the file, whole.
pub proof fn videos_play_what_is_configured(v: LayerView, base: Seq<char>)
    requires
        v is Video,
    ensures
        ({
            let p = video_pieces(v, base);
            let file = resolved(base, v->Video_path);
            let from = v->loop_from_ms;
            let to = v->loop_to_ms;
            &&& v->next is Some ==> p == seq![
                SegmentView { path: file, from: 0, to: None, repeat: false },
                SegmentView {
                    path: resolved(base, v->next->0),
                    from: 0,
                    to: None,
                    repeat: v->looped,
                },
            ]
            &&& v->next is None && from is None && to is None ==> p == seq![
                SegmentView { path: file, from: 0, to: None, repeat: v->looped },
            ]
            &&& v->next is None && (from is Some || to is Some) ==> {
                &&& p.len() == 2
                &&& p[0].path == file && p[1].path == file
                &&& p[0].from == 0 && !p[0].repeat && p[1].repeat == v->looped
                &&& from is Some ==> p[1].from == from->0 * 1_000_000
                &&& from is None ==> p[1].from == 0
                &&& to is Some ==> p[0].to == Some(to->0 * 1_000_000) && p[1].to == p[0].to
                &&& to is None ==> p[0].to is None && p[1].to is None
            }
        }),
{
}

/// A video plays when it is told to. Without being told it plays from the launch on where it is one
/// whole file, and on the air where it has a second file or bounds.
pub proof fn videos_start_when_told(v: LayerView)
    requires
        v is Video,
    ensures
        v->start is Some ==> video_start(v) == v->start->0,
        v->start is None && v->next is None && v->loop_from_ms is None && v->loop_to_ms is None
            ==> video_start(v) == StartMode::Always,
        v->start is None && (v->next is Some || v->loop_from_ms is Some || v->loop_to_ms is Some)
            ==> video_start(v) == StartMode::OnAir,
{
}

/// Bounds fit where their nanoseconds can be counted.
pub proof fn bounds_fit_in_nanoseconds(v: LayerView)
    ensures
        bounds_fit(v) <==> !(v is Video) || (v->loop_from_ms is Some ==> v->loop_from_ms->0
            * 1_000_000 <= u64::MAX) && (v->loop_to_ms is Some ==> v->loop_to_ms->0 * 1_000_000
            <= u64::MAX),
{
}

/// A configuration without options listens on port 8443, offers baseline H.264 that starts at 3 Mb/s
/// and goes up to 8, shows 30 pictures of 1920 by 1080 a second, fades for 400 ms, and routes the
/// branding to the first two outputs and the phone to the next two.
pub proof fn options_have_their_defaults(
    s: ServerConfig,
    o: OscConfig,
    v: VideoConfig,
    w: OutputConfig,
    m: MultiviewConfig,
    a: AudioConfig,
    t: TransitionConfig,
    d: StreamDeckConfig,
)
    ensures
        server_default(s) ==> s.bind@ == "0.0.0.0:8443"@ && s.cert_dir@ == "certs"@
            && s.stun_server@ == "stun://stun.l.google.com:19302"@ && s.video_codec@ == "H264"@
            && s.h264_profile_level_id@ == "42e01f"@ && s.video_start_bitrate_kbps == 3000
            && s.video_max_bitrate_kbps == 8000 && s.return_audio_bitrate == 64000
            && s.keyframe_interval_s == 10 && s.mdns && s.name@.len() == 0,
        osc_default(o) ==> o.enabled && o.bind@ == "0.0.0.0:53100"@,
        video_default(v) ==> v.width == 1920 && v.height == 1080 && v.fps == 30
            && v.mixer_latency_ms == 60 && v.av_offset_ms == 80,
        output_default(w) ==> w.display@.len() == 0 && w.fullscreen,
        multiview_default(m) ==> m.enabled && m.width == 1280 && m.height == 720 && m.columns == 4
            && m.display@.len() == 0 && !m.clock,
        audio_default(a) ==> a.enabled && a.output_device@ == "default"@ && a.input_device@
            == "default"@ && a.output_channels == 0 && a.input_channels == 0
            && a.stream_output_channels@ == seq![3usize, 4usize] && a.branding_output_channels@
            == seq![1usize, 2usize] && a.return_from_input_channels@ == seq![1usize]
            && a.sample_rate == 48000 && a.meters,
        transition_default(t) ==> t.kind@ == "fade"@ && t.duration_ms == 400,
        streamdeck_default(d) ==> d.enabled && d.serial@.len() == 0 && d.brightness == 60
            && d.buttons@.len() == 0,
{
}

/// The example has four scenes: black, the phone, the phone with a banner and a text, and the phone
/// with a looping video in its corner; and a key for each of them, then one to take.
pub proof fn example_shows_every_kind_of_scene()
    ensures
        ({
            let s = example_scene_views();
            let b = example_button_views();
            &&& s.len() == 4
            &&& s[0] == filled_scenes(Seq::empty())[0] && s[1] == filled_scenes(Seq::empty())[1]
            &&& s[2].id == "branding"@ && s[2].name == "Habillage"@ && s[2].layers.len() == 3
            &&& s[2].layers[0] == s[1].layers[0]
            &&& s[2].layers[1] is Image && s[2].layers[1]->Image_path == "assets/lower-third.png"@
            &&& s[2].layers[1]->Image_geometry == s[1].layers[0]->Phone_geometry
            &&& s[2].layers[2] is Text && s[2].layers[2]->text == "EN DIRECT"@
            &&& s[2].layers[2]->font == "Sans Bold 40"@ && s[2].layers[2]->Text_color
                == "#FFFFFF"@
            &&& s[2].layers[2]->Text_geometry == (Geometry {
                x: 120,
                y: 900,
                width: Some(600),
                height: Some(90),
            })
            &&& s[3].id == "overlay"@ && s[3].name == "Overlay vidéo"@ && s[3].layers.len() == 2
            &&& s[3].layers[0] == s[1].layers[0]
            &&& s[3].layers[1] is Video && s[3].layers[1]->Video_path == "assets/overlay.mp4"@
                && s[3].layers[1]->looped && s[3].layers[1]->audio
            &&& s[3].layers[1]->Video_geometry == (Geometry {
                x: 1280,
                y: 60,
                width: Some(576),
                height: Some(324),
            })
            &&& s[3].layers[1]->next is None && s[3].layers[1]->alpha is None
                && s[3].layers[1]->start is None
            &&& b.len() == 5
            &&& forall|i: int|
                0 <= i < 4 ==> (#[trigger] b[i]).index == i && b[i].action == "program"@
                    && b[i].scene == s[i].id && b[i].label.len() == 0
            &&& b[4].index == 4 && b[4].action == "take"@ && b[4].label == "TAKE"@
        }),
{
}

/// A configuration is accepted exactly where no two scenes have one identifier and its picture and
/// codec can be had. It then has at least one column, and nothing else of it changes but the
/// scenes that are filled in.
pub proof fn configurations_are_accepted(c: &mut Config, r: Result<(), ConfigError>)
    requires
        call_ensures(Config::validate, (c,), r),
    ensures
        r is Ok <==> unique_ids(scene_views(final(c).scenes@)) && good_video(old(c).video)
            && good_codec(old(c).server.video_codec@),
        r is Ok ==> final(c).multiview.columns > 0,
        old(c).multiview.columns > 0 ==> final(c).multiview.columns == old(c).multiview.columns,
        r is Ok && old(c).multiview.columns == 0 ==> final(c).multiview.columns == 4,
        final(c).server == old(c).server && final(c).osc == old(c).osc && final(c).video == old(
            c,
        ).video,
        final(c).output == old(c).output && final(c).audio == old(c).audio,
        final(c).transition == old(c).transition && final(c).streamdeck == old(c).streamdeck,
        final(c).base_dir == old(c).base_dir,
        final(c).multiview.enabled == old(c).multiview.enabled,
        old(c).scenes@.len() > 0 ==> scene_views(final(c).scenes@) == filled_scenes(
            scene_views(old(c).scenes@),
        ),
{
}

/// A layer has a list to play exactly where it is a video, with its own sound and transparency.
pub proof fn video_layers_have_lists(c: &Config, layer: &LayerConfig, r: Option<Playlist>)
    requires
        bounds_fit(layer@),
        call_ensures(Config::playlist, (c, layer), r),
    ensures
        r is Some <==> layer@ is Video,
        r is Some ==> r->0.audio == layer@->Video_audio && r->0.alpha == layer@->Video_alpha,
        r is Some ==> (r->0.autostart <==> video_start(layer@) == StartMode::Always),
{
}

/// Each refusal says what is wrong.
pub proof fn refusals_say_what_is_wrong(e: &ConfigError, r: String)
    requires
        call_ensures(ConfigError::message, (e,), r),
    ensures
        *e is DuplicateScenes ==> r@ == "identifiants de scènes en double"@,
        *e is BadVideo ==> r@ == "video.width/height/fps invalides"@,
        e matches ConfigError::UnknownCodec(c) ==> r@ == "server.video_codec inconnu : "@ + c@
            + " (seul H264 est décodé en matériel)"@,
{
}

} // verus!
