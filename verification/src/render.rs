//! What is drawn, in which order and out of which texture. The pictures themselves, and the exact
//! places of what is drawn, are the drawing code's.

use crate::config::Geometry;
use crate::engine::{Engine, Layer, LayerKind, RenderState};
use crate::frame::PixelFormat;
use crate::strings;
use vstd::prelude::*;

verus! {

/// Most draws in a picture.
pub const MAX_DRAWS: u64 = 2048;

/// Size of the parameters of a draw.
pub const UNIFORM_SLOT: u64 = 256;

/// A texture that is kept.
#[derive(Debug, Clone, Copy, PartialEq, Eq, Structural)]
pub enum Texture {
    /// Latest picture of a source.
    Slot(u64),
    /// Still picture of a layer.
    Layer(u64),
    /// A whole scene.
    Scene(u64),
    /// A text.
    Label(u64),
}

/// Numbers that a texture can have within its kind.
pub const KEY_RANGE: u64 = 0x0100_0000_0000_0000;

/// Number of a texture within its kind.
pub open spec fn number_in_kind(t: Texture) -> u64 {
    match t {
        Texture::Slot(n) => n,
        Texture::Layer(n) => n,
        Texture::Scene(n) => n,
        Texture::Label(n) => n,
    }
}

/// Number of the kind of a texture.
pub open spec fn kind_number(t: Texture) -> u64 {
    match t {
        Texture::Slot(_) => 1,
        Texture::Layer(_) => 2,
        Texture::Scene(_) => 3,
        Texture::Label(_) => 4,
    }
}

/// Key under which a texture is kept.
pub open spec fn key_of(t: Texture) -> int {
    kind_number(t) * KEY_RANGE + number_in_kind(t)
}

/// Key under which a texture is kept.
pub fn texture_key(t: Texture) -> (r: u64)
    requires
        number_in_kind(t) < KEY_RANGE,
    ensures
        r == key_of(t),
{
    match t {
        Texture::Slot(n) => KEY_RANGE + n,
        Texture::Layer(n) => 2 * KEY_RANGE + n,
        Texture::Scene(n) => 3 * KEY_RANGE + n,
        Texture::Label(n) => 4 * KEY_RANGE + n,
    }
}

/// Two textures never have the same key.
pub proof fn texture_keys_are_distinct(a: Texture, b: Texture)
    requires
        number_in_kind(a) < KEY_RANGE,
        number_in_kind(b) < KEY_RANGE,
        key_of(a) == key_of(b),
    ensures
        a == b,
{
}

/// How a texture's samples are read.
pub fn kind_of_format(f: PixelFormat) -> (r: u32)
    ensures
        r == (match f {
            PixelFormat::Bgra => 1u32,
            PixelFormat::Nv12 => 2u32,
        }),
{
    match f {
        PixelFormat::Bgra => 1,
        PixelFormat::Nv12 => 2,
    }
}

/// Whether a texture has to be made: there is none yet, or one of another size or kind.
pub fn must_make(existing: Option<(u32, u32, u32)>, width: u32, height: u32, kind: u32) -> (r: bool)
    ensures
        r == (existing != Some((width, height, kind))),
{
    match existing {
        Some((w, h, k)) => !(w == width && h == height && k == kind),
        None => true,
    }
}

/// Size of the second plane of a picture: half of each side, rounded up.
pub fn half_size(width: u32, height: u32) -> (r: (u32, u32))
    ensures
        r.0 == (width + 1) / 2,
        r.1 == (height + 1) / 2,
{
    (width / 2 + width % 2, height / 2 + height % 2)
}

/// Part of a texture that a plane of `len` bytes fills: no more rows than it holds, and no wider
/// than a row.
pub fn plane_extent(len: u32, stride: u32, width: u32, height: u32, bpp: u32) -> (r: (u32, u32))
    requires
        bpp > 0,
        width * bpp <= u32::MAX,
    ensures
        r.0 as int == (if width * bpp < stride {
            width * bpp
        } else {
            stride as int
        }) / (bpp as int),
        r.1 as int == ({
            let rows = len as int / (if stride > 0 {
                stride as int
            } else {
                1
            });
            if (height as int) < rows {
                height as int
            } else {
                rows
            }
        }),
{
    let step: u32 = if stride > 0 {
        stride
    } else {
        1
    };
    let held: u32 = len / step;
    let rows: u32 = if height < held {
        height
    } else {
        held
    };
    let row: u32 = if width * bpp < stride {
        width * bpp
    } else {
        stride
    };
    (row / bpp, rows)
}

/// A texture of a source is up to date: it holds the picture of this number.
pub fn is_current(held: Option<u64>, seq: u64) -> (r: bool)
    ensures
        r == (held == Some(seq)),
{
    match held {
        Some(h) => h == seq,
        None => false,
    }
}

/// A text that is drawn, and the number of its texture.
pub struct Label {
    pub id: String,
    /// The text in the texture, where it changes.
    pub text: String,
    pub number: u64,
}

/// Textures of texts: of those that stay, found by what they show, and of those that change, found
/// by their names.
pub struct Labels {
    pub fixed: Vec<Label>,
    pub changing: Vec<Label>,
    pub next: u64,
}

/// The first label with an identifier.
pub open spec fn is_label(list: Seq<Label>, id: Seq<char>, i: int) -> bool {
    &&& 0 <= i < list.len()
    &&& list[i].id@ == id
    &&& forall|j: int| 0 <= j < i ==> (#[trigger] list[j]).id@ != id
}

/// No label has an identifier.
pub open spec fn no_label(list: Seq<Label>, id: Seq<char>) -> bool {
    forall|j: int| 0 <= j < list.len() ==> (#[trigger] list[j]).id@ != id
}

/// Every label has a number of its own, below the next.
pub open spec fn labels_wf(l: Labels) -> bool {
    &&& forall|i: int| 0 <= i < l.fixed@.len() ==> (#[trigger] l.fixed@[i]).number < l.next
    &&& forall|i: int| 0 <= i < l.changing@.len() ==> (#[trigger] l.changing@[i]).number < l.next
    &&& forall|i: int, j: int|
        0 <= i < j < l.fixed@.len() ==> (#[trigger] l.fixed@[i]).number != (
        #[trigger] l.fixed@[j]).number
    &&& forall|i: int, j: int|
        0 <= i < j < l.changing@.len() ==> (#[trigger] l.changing@[i]).number != (
        #[trigger] l.changing@[j]).number
    &&& forall|i: int, j: int|
        0 <= i < l.fixed@.len() && 0 <= j < l.changing@.len() ==> (#[trigger] l.fixed@[i]).number
            != (#[trigger] l.changing@[j]).number
}

fn find_label(list: &Vec<Label>, id: &str) -> (r: Option<usize>)
    ensures
        (match r {
            Some(i) => is_label(list@, id@, i as int),
            None => no_label(list@, id@),
        }),
{
    let mut i: usize = 0;
    while i < list.len()
        invariant
            i <= list@.len(),
            forall|j: int| 0 <= j < i ==> (#[trigger] list@[j]).id@ != id@,
        decreases list.len() - i,
    {
        if strings::same_text(list[i].id.as_str(), id) {
            return Some(i);
        }
        i += 1;
    }
    None
}

impl Labels {
    /// No text was drawn yet.
    pub fn new() -> (r: Self)
        ensures
            labels_wf(r),
            r.fixed@.len() == 0,
            r.changing@.len() == 0,
            r.next == 1,
    {
        Labels { fixed: Vec::new(), changing: Vec::new(), next: 1 }
    }

    /// Number of the texture of a text that stays, and whether it has to be drawn.
    pub fn label(&mut self, id: &str) -> (r: (u64, bool))
        requires
            labels_wf(*old(self)),
            old(self).next < u64::MAX,
        ensures
            labels_wf(*final(self)),
            final(self).changing == old(self).changing,
            no_label(old(self).fixed@, id@) ==> {
                &&& r == (old(self).next, true)
                &&& final(self).next == old(self).next + 1
                &&& final(self).fixed@.len() == old(self).fixed@.len() + 1
                &&& final(self).fixed@.drop_last() == old(self).fixed@
                &&& final(self).fixed@.last().id@ == id@
                &&& final(self).fixed@.last().number == r.0
            },
            forall|i: int|
                #[trigger] is_label(old(self).fixed@, id@, i) ==> {
                    &&& r == (old(self).fixed@[i].number, false)
                    &&& *final(self) == *old(self)
                },
    {
        match find_label(&self.fixed, id) {
            Some(i) => {
                let n: u64 = self.fixed[i].number;
                proof {
                    assert forall|k: int| #[trigger] is_label(self.fixed@, id@, k) implies k
                        == i by {
                        assert(self.fixed@[k].id@ == id@);
                        assert(self.fixed@[i as int].id@ == id@);
                    }
                }
                (n, false)
            },
            None => {
                let n: u64 = self.next;
                self.next = n + 1;
                self.fixed.push(
                    Label { id: strings::text(id), text: String::new(), number: n },
                );
                assert(self.fixed@.drop_last() =~= old(self).fixed@);
                (n, true)
            },
        }
    }

    /// Number of the texture of a text that changes, and whether it has to be drawn again.
    pub fn dyn_label(&mut self, name: &str, text: &str) -> (r: (u64, bool))
        requires
            labels_wf(*old(self)),
            old(self).next < u64::MAX,
        ensures
            labels_wf(*final(self)),
            final(self).fixed == old(self).fixed,
            no_label(old(self).changing@, name@) ==> {
                &&& r == (old(self).next, true)
                &&& final(self).next == old(self).next + 1
                &&& final(self).changing@.len() == old(self).changing@.len() + 1
                &&& final(self).changing@.drop_last() == old(self).changing@
                &&& final(self).changing@.last().id@ == name@
                &&& final(self).changing@.last().text@ == text@
                &&& final(self).changing@.last().number == r.0
            },
            forall|i: int|
                #[trigger] is_label(old(self).changing@, name@, i) ==> {
                    &&& r == (
                        old(self).changing@[i].number,
                        old(self).changing@[i].text@ != text@,
                    )
                    &&& final(self).next == old(self).next
                    &&& final(self).changing@.len() == old(self).changing@.len()
                    &&& final(self).changing@[i].text@ == text@
                    &&& final(self).changing@[i].id@ == name@
                    &&& final(self).changing@[i].number == r.0
                    &&& forall|j: int|
                        0 <= j < old(self).changing@.len() && j != i
                            ==> #[trigger] final(self).changing@[j] == old(self).changing@[j]
                },
    {
        match find_label(&self.changing, name) {
            Some(i) => {
                let n: u64 = self.changing[i].number;
                proof {
                    assert forall|k: int| #[trigger] is_label(self.changing@, name@, k) implies k
                        == i by {
                        assert(self.changing@[k].id@ == name@);
                        assert(self.changing@[i as int].id@ == name@);
                    }
                }
                if strings::same_text(self.changing[i].text.as_str(), text) {
                    (n, false)
                } else {
                    let fresh = Label { id: strings::text(name), text: strings::text(text), number: n };
                    self.changing.set(i, fresh);
                    (n, true)
                }
            },
            None => {
                let n: u64 = self.next;
                self.next = n + 1;
                self.changing.push(
                    Label { id: strings::text(name), text: strings::text(text), number: n },
                );
                assert(self.changing@.drop_last() =~= old(self).changing@);
                (n, true)
            },
        }
    }
}

/// How the place of a layer follows from its geometry and the size of its picture.
#[derive(Debug, Clone, Copy, PartialEq, Eq, Structural)]
pub enum Fit {
    /// As wide and high as given.
    Exact { width: i32, height: i32 },
    /// As wide as given, as high as the picture's shape asks for.
    ByWidth(i32),
    /// As high as given, as wide as the picture's shape asks for.
    ByHeight(i32),
    /// As large as the canvas allows, in its middle.
    Contain,
    /// The whole canvas.
    Canvas,
}

/// How a layer is fitted, with a picture or without.
pub open spec fn fit_of(g: Geometry, picture: bool) -> Fit {
    match (g.width, g.height) {
        (Some(width), Some(height)) => Fit::Exact { width, height },
        (Some(w), None) if picture => Fit::ByWidth(w),
        (None, Some(h)) if picture => Fit::ByHeight(h),
        (None, None) if picture => Fit::Contain,
        _ => Fit::Canvas,
    }
}

/// How a layer is fitted.
pub fn layer_fit(g: &Geometry, picture: bool) -> (r: Fit)
    ensures
        r == fit_of(*g, picture),
{
    match (g.width, g.height) {
        (Some(width), Some(height)) => Fit::Exact { width, height },
        (Some(w), None) => if picture {
            Fit::ByWidth(w)
        } else {
            Fit::Canvas
        },
        (None, Some(h)) => if picture {
            Fit::ByHeight(h)
        } else {
            Fit::Canvas
        },
        (None, None) => if picture {
            Fit::Contain
        } else {
            Fit::Canvas
        },
    }
}

/// The box in whose middle a text stands, where its geometry gives one.
pub fn text_box(g: &Geometry) -> (r: Option<(i32, i32)>)
    ensures
        r == (match (g.width, g.height) {
            (Some(w), Some(h)) => Some((w, h)),
            _ => None,
        }),
{
    match (g.width, g.height) {
        (Some(w), Some(h)) => Some((w, h)),
        _ => None,
    }
}

/// Something drawn into a scene.
#[derive(Debug, Clone, Copy, PartialEq, Eq, Structural)]
pub enum SceneItem {
    /// A layer, by its place in the scene.
    Layer(usize),
    /// That the phone is missing.
    Waiting,
}

/// A layer is drawn: its picture is there, if it needs one. `ready` tells of each layer whether its
/// video has a picture.
pub open spec fn is_drawn(l: Layer, i: int, phone_ready: bool, ready: Seq<bool>) -> bool {
    match l.kind {
        LayerKind::Phone => phone_ready,
        LayerKind::Video { .. } => i < ready.len() && ready[i],
        _ => true,
    }
}

/// The drawn layers among the first `n`.
pub open spec fn drawn_layers(
    layers: Seq<Layer>,
    n: int,
    phone_ready: bool,
    ready: Seq<bool>,
) -> Seq<SceneItem>
    decreases n,
{
    if n <= 0 {
        seq![]
    } else {
        let before = drawn_layers(layers, n - 1, phone_ready, ready);
        if is_drawn(layers[n - 1], n - 1, phone_ready, ready) {
            before.push(SceneItem::Layer((n - 1) as usize))
        } else {
            before
        }
    }
}

/// Some layer shows the phone.
pub open spec fn wants_phone(layers: Seq<Layer>) -> bool {
    exists|i: int| 0 <= i < layers.len() && (#[trigger] layers[i]).kind == LayerKind::Phone
}

/// What is drawn into a scene: its layers from the back to the front, and over them that the phone
/// is missing, where the scene shows it.
pub open spec fn scene_items(
    layers: Seq<Layer>,
    phone_ready: bool,
    phone_connected: bool,
    ready: Seq<bool>,
) -> Seq<SceneItem> {
    drawn_layers(layers, layers.len() as int, phone_ready, ready) + (if wants_phone(layers) && (
    !phone_ready || !phone_connected) {
        seq![SceneItem::Waiting]
    } else {
        seq![]
    })
}

/// What is drawn into a scene.
pub fn scene_plan(
    layers: &Vec<Layer>,
    phone_ready: bool,
    phone_connected: bool,
    ready: &Vec<bool>,
) -> (r: Vec<SceneItem>)
    ensures
        r@ == scene_items(layers@, phone_ready, phone_connected, ready@),
{
    let mut out: Vec<SceneItem> = Vec::new();
    let mut wants = false;
    let mut i: usize = 0;
    while i < layers.len()
        invariant
            i <= layers@.len(),
            out@ == drawn_layers(layers@, i as int, phone_ready, ready@),
            wants == exists|j: int| 0 <= j < i && (#[trigger] layers@[j]).kind == LayerKind::Phone,
        decreases layers.len() - i,
    {
        let drawn = match layers[i].kind {
            LayerKind::Phone => {
                wants = true;
                phone_ready
            },
            LayerKind::Video { .. } => i < ready.len() && ready[i],
            LayerKind::Color => true,
            LayerKind::Image => true,
            LayerKind::Text => true,
        };
        if drawn {
            out.push(SceneItem::Layer(i));
        }
        i += 1;
    }
    if wants && (!phone_ready || !phone_connected) {
        out.push(SceneItem::Waiting);
    }
    assert(out@ =~= scene_items(layers@, phone_ready, phone_connected, ready@));
    out
}

/// A scene without the phone never says that the phone is missing.
pub proof fn other_scenes_do_not_wait(
    layers: Seq<Layer>,
    phone_ready: bool,
    phone_connected: bool,
    ready: Seq<bool>,
)
    requires
        !wants_phone(layers),
    ensures
        !scene_items(layers, phone_ready, phone_connected, ready).contains(SceneItem::Waiting),
{
    lemma_drawn_layers(layers, layers.len() as int, phone_ready, ready);
    let items = scene_items(layers, phone_ready, phone_connected, ready);
    assert(items =~= drawn_layers(layers, layers.len() as int, phone_ready, ready));
}

proof fn lemma_drawn_layers(layers: Seq<Layer>, n: int, phone_ready: bool, ready: Seq<bool>)
    ensures
        forall|i: int|
            0 <= i < drawn_layers(layers, n, phone_ready, ready).len() ==> (
            #[trigger] drawn_layers(layers, n, phone_ready, ready)[i]) is Layer,
    decreases n,
{
    if n > 0 {
        lemma_drawn_layers(layers, n - 1, phone_ready, ready);
    }
}

/// An area of a window.
#[derive(Debug, Clone, Copy, PartialEq, Eq, Structural)]
pub enum Area {
    Program,
    Preview,
    Tile(usize),
}

/// How much of a scene is seen.
#[derive(Debug, Clone, Copy, PartialEq, Eq, Structural)]
pub enum Opacity {
    Full,
    /// As far as the fade has come: time that has passed, and its duration.
    Fade { passed: u64, duration: u64 },
}

/// Colour of a frame: red on the air, green for the preview.
#[derive(Debug, Clone, Copy, PartialEq, Eq, Structural)]
pub enum Mark {
    Red,
    Green,
}

/// A text on the multiview.
#[derive(Debug, Clone, Copy, PartialEq, Eq, Structural)]
pub enum Caption {
    Program,
    Preview,
    Stats,
    Scene(usize),
}

/// Where a text stands in its area.
#[derive(Debug, Clone, Copy, PartialEq, Eq, Structural)]
pub enum Corner {
    TopLeft,
    TopRight,
    BottomLeft,
}

/// Something drawn into a window.
#[derive(Debug, Clone, Copy, PartialEq, Eq, Structural)]
pub enum Item {
    Scene { scene: usize, area: Area, opacity: Opacity },
    Frame { area: Area, mark: Mark },
    Text { caption: Caption, area: Area, corner: Corner },
    /// Background of the meters; their number.
    Panel(usize),
    /// A meter, by its place in the list.
    Meter(usize),
}

/// The programme in an area; during a fade the new scene comes over the old one.
pub open spec fn program_items(rs: RenderState, area: Area) -> Seq<Item> {
    match rs.fade {
        Some((from, passed, duration)) => seq![
            Item::Scene { scene: from, area, opacity: Opacity::Full },
            Item::Scene { scene: rs.program, area, opacity: Opacity::Fade { passed, duration } },
        ],
        None => seq![Item::Scene { scene: rs.program, area, opacity: Opacity::Full }],
    }
}

/// The tile of a scene: its picture, a frame where it is on the air or on the preview, its name.
pub open spec fn tile_items(rs: RenderState, i: int) -> Seq<Item> {
    let area = Area::Tile(i as usize);
    seq![Item::Scene { scene: i as usize, area, opacity: Opacity::Full }] + (if i == rs.program {
        seq![Item::Frame { area, mark: Mark::Red }]
    } else if i == rs.preview {
        seq![Item::Frame { area, mark: Mark::Green }]
    } else {
        seq![]
    }) + seq![
        Item::Text { caption: Caption::Scene(i as usize), area, corner: Corner::BottomLeft },
    ]
}

/// The tiles of the first `n` scenes.
pub open spec fn tiles_items(rs: RenderState, n: int) -> Seq<Item>
    decreases n,
{
    if n <= 0 {
        seq![]
    } else {
        tiles_items(rs, n - 1) + tile_items(rs, n - 1)
    }
}

/// The two large pictures with their frames and texts.
pub open spec fn large_items(rs: RenderState) -> Seq<Item> {
    program_items(rs, Area::Program) + seq![
        Item::Scene { scene: rs.preview, area: Area::Preview, opacity: Opacity::Full },
        Item::Frame { area: Area::Program, mark: Mark::Red },
        Item::Frame { area: Area::Preview, mark: Mark::Green },
        Item::Text { caption: Caption::Program, area: Area::Program, corner: Corner::TopLeft },
        Item::Text { caption: Caption::Preview, area: Area::Preview, corner: Corner::TopLeft },
        Item::Text { caption: Caption::Stats, area: Area::Program, corner: Corner::TopRight },
    ]
}

/// The meters, on a background of their own.
pub open spec fn meter_items(m: nat) -> Seq<Item> {
    if m == 0 {
        seq![]
    } else {
        seq![Item::Panel(m as usize)] + Seq::new(m, |i: int| Item::Meter(i as usize))
    }
}

/// What is drawn on the multiview, from the back to the front.
pub open spec fn multiview_items(rs: RenderState, scenes: nat, meters: nat) -> Seq<Item> {
    large_items(rs) + tiles_items(rs, scenes as int) + meter_items(meters)
}

/// What is drawn on the programme.
pub fn program_plan(rs: &RenderState) -> (r: Vec<Item>)
    ensures
        r@ == program_items(*rs, Area::Program),
{
    let mut out: Vec<Item> = Vec::new();
    push_program(rs, &mut out);
    assert(out@ =~= program_items(*rs, Area::Program));
    out
}

fn push_program(rs: &RenderState, out: &mut Vec<Item>)
    ensures
        final(out)@ == old(out)@ + program_items(*rs, Area::Program),
{
    match rs.fade {
        Some((from, passed, duration)) => {
            out.push(Item::Scene { scene: from, area: Area::Program, opacity: Opacity::Full });
            out.push(
                Item::Scene {
                    scene: rs.program,
                    area: Area::Program,
                    opacity: Opacity::Fade { passed, duration },
                },
            );
        },
        None => {
            out.push(
                Item::Scene { scene: rs.program, area: Area::Program, opacity: Opacity::Full },
            );
        },
    }
    assert(out@ =~= old(out)@ + program_items(*rs, Area::Program));
}

/// What is drawn on the multiview.
pub fn multiview_plan(rs: &RenderState, scenes: usize, meters: usize) -> (r: Vec<Item>)
    ensures
        r@ == multiview_items(*rs, scenes as nat, meters as nat),
{
    let mut out: Vec<Item> = Vec::new();
    push_program(rs, &mut out);
    out.push(Item::Scene { scene: rs.preview, area: Area::Preview, opacity: Opacity::Full });
    out.push(Item::Frame { area: Area::Program, mark: Mark::Red });
    out.push(Item::Frame { area: Area::Preview, mark: Mark::Green });
    out.push(
        Item::Text { caption: Caption::Program, area: Area::Program, corner: Corner::TopLeft },
    );
    out.push(
        Item::Text { caption: Caption::Preview, area: Area::Preview, corner: Corner::TopLeft },
    );
    out.push(Item::Text { caption: Caption::Stats, area: Area::Program, corner: Corner::TopRight });
    let ghost large = large_items(*rs);
    assert(out@ =~= large);
    let mut i: usize = 0;
    assert(out@ =~= large + tiles_items(*rs, 0));
    while i < scenes
        invariant
            i <= scenes,
            out@ == large + tiles_items(*rs, i as int),
        decreases scenes - i,
    {
        let ghost before = out@;
        let area = Area::Tile(i);
        out.push(Item::Scene { scene: i, area, opacity: Opacity::Full });
        if i == rs.program {
            out.push(Item::Frame { area, mark: Mark::Red });
        } else if i == rs.preview {
            out.push(Item::Frame { area, mark: Mark::Green });
        }
        out.push(Item::Text { caption: Caption::Scene(i), area, corner: Corner::BottomLeft });
        assert(out@ =~= before + tile_items(*rs, i as int));
        i += 1;
        assert(out@ =~= large + tiles_items(*rs, i as int));
    }
    let ghost upper = out@;
    if meters > 0 {
        out.push(Item::Panel(meters));
        let ghost panel = out@;
        let mut k: usize = 0;
        assert(out@ =~= panel + Seq::new(0, |j: int| Item::Meter(j as usize)));
        while k < meters
            invariant
                k <= meters,
                out@ == panel + Seq::new(k as nat, |j: int| Item::Meter(j as usize)),
            decreases meters - k,
        {
            out.push(Item::Meter(k));
            k += 1;
            assert(out@ =~= panel + Seq::new(k as nat, |j: int| Item::Meter(j as usize)));
        }
    }
    assert(out@ =~= upper + meter_items(meters as nat));
    out
}

/// On the multiview every scene has a tile that shows it and bears its name, and the scenes on
/// the air and on the preview are framed.
pub proof fn every_scene_has_a_tile(rs: RenderState, scenes: nat, meters: nat, i: int)
    requires
        0 <= i < scenes <= usize::MAX,
    ensures
        ({
            let items = multiview_items(rs, scenes, meters);
            let area = Area::Tile(i as usize);
            &&& items.contains(
                Item::Scene { scene: i as usize, area, opacity: Opacity::Full },
            )
            &&& items.contains(
                Item::Text {
                    caption: Caption::Scene(i as usize),
                    area,
                    corner: Corner::BottomLeft,
                },
            )
            &&& i == rs.program ==> items.contains(Item::Frame { area, mark: Mark::Red })
            &&& i == rs.preview && i != rs.program ==> items.contains(
                Item::Frame { area, mark: Mark::Green },
            )
        }),
{
    let items = multiview_items(rs, scenes, meters);
    let large = large_items(rs);
    let tiles = tiles_items(rs, scenes as int);
    let mine = tile_items(rs, i);
    let k = lemma_tile_place(rs, scenes as int, i);
    assert forall|j: int| 0 <= j < mine.len() implies items.contains(#[trigger] mine[j]) by {
        assert(tiles[k + j] == mine[j]);
        assert(items[large.len() + k + j] == mine[j]);
    }
    let area = Area::Tile(i as usize);
    assert(mine[0] == Item::Scene { scene: i as usize, area, opacity: Opacity::Full });
    assert(mine.last() == Item::Text {
        caption: Caption::Scene(i as usize),
        area,
        corner: Corner::BottomLeft,
    });
    assert(mine.last() == mine[mine.len() - 1]);
    if i == rs.program {
        assert(mine[1] == Item::Frame { area, mark: Mark::Red });
    } else if i == rs.preview {
        assert(mine[1] == Item::Frame { area, mark: Mark::Green });
    }
}

proof fn lemma_tile_place(rs: RenderState, n: int, i: int) -> (k: int)
    requires
        0 <= i < n,
    ensures
        0 <= k,
        k + tile_items(rs, i).len() <= tiles_items(rs, n).len(),
        forall|j: int|
            0 <= j < tile_items(rs, i).len() ==> tiles_items(rs, n)[k + j] == #[trigger] tile_items(
                rs,
                i,
            )[j],
    decreases n,
{
    if i == n - 1 {
        tiles_items(rs, n - 1).len() as int
    } else {
        lemma_tile_place(rs, n - 1, i)
    }
}

/// During a fade the scene that comes is drawn over the one that goes.
pub proof fn fade_comes_over(rs: RenderState, area: Area)
    requires
        rs.fade is Some,
    ensures
        program_items(rs, area).len() == 2,
        program_items(rs, area)[1] == (Item::Scene {
            scene: rs.program,
            area,
            opacity: Opacity::Fade { passed: (rs.fade->0).1, duration: (rs.fade->0).2 },
        }),
{
}

/// Text of a caption, but for the statistics.
pub open spec fn caption_text(c: Caption, e: Engine) -> Seq<char> {
    match c {
        Caption::Program => "PROGRAMME"@,
        Caption::Preview => "PREVIEW"@,
        Caption::Stats => seq![],
        Caption::Scene(i) => strings::decimal((i + 1) as nat) + " · "@ + e.scenes@[i as int].name@,
    }
}

/// Text of a caption, but for the statistics: a scene's number and name.
pub fn caption(c: Caption, engine: &Engine) -> (r: String)
    requires
        c matches Caption::Scene(i) ==> i < engine.scenes@.len() < u64::MAX,
    ensures
        r@ == caption_text(c, *engine),
{
    match c {
        Caption::Program => strings::text("PROGRAMME"),
        Caption::Preview => strings::text("PREVIEW"),
        Caption::Stats => String::new(),
        Caption::Scene(i) => {
            let mut out = String::new();
            strings::push_decimal(&mut out, i as u64 + 1);
            out.append(" · ");
            out.append(engine.scenes[i].name.as_str());
            assert(out@ =~= caption_text(c, *engine));
            out
        },
    }
}

/// Short name of a meter.
pub open spec fn short_name(id: Seq<char>, label: Seq<char>) -> Seq<char> {
    if id == "stream"@ {
        "Stream"@
    } else if id == "branding"@ {
        "Habillage"@
    } else if id == "return"@ {
        "Retour"@
    } else {
        label
    }
}

/// Short name of a meter.
pub fn meter_name(id: &str, label: &str) -> (r: String)
    ensures
        r@ == short_name(id@, label@),
{
    if strings::same_text(id, "stream") {
        strings::text("Stream")
    } else if strings::same_text(id, "branding") {
        strings::text("Habillage")
    } else if strings::same_text(id, "return") {
        strings::text("Retour")
    } else {
        strings::text(label)
    }
}

/// Draws of a pass that still find a place for their parameters, after `slot` others.
pub fn draws_that_fit(slot: u64, draws: u64) -> (r: u64)
    ensures
        r == (if slot >= MAX_DRAWS {
            0
        } else if draws < MAX_DRAWS - slot {
            draws as int
        } else {
            MAX_DRAWS - slot
        }),
        slot + r <= MAX_DRAWS || r == 0,
{
    if slot >= MAX_DRAWS {
        0
    } else if draws < MAX_DRAWS - slot {
        draws
    } else {
        MAX_DRAWS - slot
    }
}

/// Format of a window's surface: the first that is not sRGB, else the first.
pub fn pick_format(srgb: &Vec<bool>) -> (r: Option<usize>)
    ensures
        srgb@.len() == 0 ==> r is None,
        srgb@.len() > 0 ==> r is Some && r->0 < srgb@.len(),
        r is Some && srgb@[r->0 as int] ==> r->0 == 0 && forall|j: int|
            0 <= j < srgb@.len() ==> #[trigger] srgb@[j],
        r is Some && !srgb@[r->0 as int] ==> forall|j: int|
            0 <= j < r->0 ==> #[trigger] srgb@[j],
{
    let mut i: usize = 0;
    while i < srgb.len()
        invariant
            i <= srgb@.len(),
            forall|j: int| 0 <= j < i ==> #[trigger] srgb@[j],
        decreases srgb.len() - i,
    {
        if !srgb[i] {
            return Some(i);
        }
        i += 1;
    }
    if srgb.len() > 0 {
        Some(0)
    } else {
        None
    }
}

/// How pictures are handed to the screen.
#[derive(Debug, Clone, Copy, PartialEq, Eq, Structural)]
pub enum Presenting {
    /// At the screen's pace.
    Paced,
    /// The latest at the screen's pace.
    Latest,
    /// At once.
    Immediate,
}

/// How pictures are handed to the screen: the programme at its pace, other windows without waiting.
pub fn presenting(vsync: bool, mailbox: bool) -> (r: Presenting)
    ensures
        r == (if vsync {
            Presenting::Paced
        } else if mailbox {
            Presenting::Latest
        } else {
            Presenting::Immediate
        }),
{
    if vsync {
        Presenting::Paced
    } else if mailbox {
        Presenting::Latest
    } else {
        Presenting::Immediate
    }
}

/// New size of a surface; none where a window has no area.
pub fn resized(w: u32, h: u32) -> (r: Option<(u32, u32)>)
    ensures
        r == (if w == 0 || h == 0 {
            None::<(u32, u32)>
        } else {
            Some((w, h))
        }),
{
    if w == 0 || h == 0 {
        None
    } else {
        Some((w, h))
    }
}

/// What asking for a window's next picture gave.
#[derive(Debug, Clone, Copy, PartialEq, Eq, Structural)]
pub enum Surface {
    Ready,
    /// The window is hidden, or it took too long.
    Unavailable,
    /// The surface no longer fits its window.
    Stale,
}

/// What to do then.
#[derive(Debug, Clone, Copy, PartialEq, Eq, Structural)]
pub enum Acquire {
    Draw,
    Skip,
    /// Configure the surface again, and ask once more.
    Reconfigure,
    Fail,
}

/// What to do after asking for a window's next picture; `again` where it was asked for twice.
pub fn acquire(got: Surface, again: bool) -> (r: Acquire)
    ensures
        r == (match got {
            Surface::Ready => Acquire::Draw,
            Surface::Unavailable => if again {
                Acquire::Fail
            } else {
                Acquire::Skip
            },
            Surface::Stale => if again {
                Acquire::Fail
            } else {
                Acquire::Reconfigure
            },
        }),
{
    match got {
        Surface::Ready => Acquire::Draw,
        Surface::Unavailable => if again {
            Acquire::Fail
        } else {
            Acquire::Skip
        },
        Surface::Stale => if again {
            Acquire::Fail
        } else {
            Acquire::Reconfigure
        },
    }
}

/// A layer fills the size that it is given. Given one side, a picture keeps its shape; given none,
/// it is as large as the canvas allows. Something without a picture takes the canvas.
pub proof fn layers_fit_their_geometry(g: Geometry, picture: bool)
    ensures
        g.width is Some && g.height is Some ==> fit_of(g, picture) == (Fit::Exact {
            width: g.width->0,
            height: g.height->0,
        }),
        g.width is Some && g.height is None && picture ==> fit_of(g, picture) == Fit::ByWidth(
            g.width->0,
        ),
        g.width is None && g.height is Some && picture ==> fit_of(g, picture) == Fit::ByHeight(
            g.height->0,
        ),
        g.width is None && g.height is None && picture ==> fit_of(g, picture) == Fit::Contain,
        (g.width is None || g.height is None) && !picture ==> fit_of(g, picture) == Fit::Canvas,
{
}

/// A layer is drawn where there is something to draw: the phone once its picture is there, a video
/// once it has one, and everything else always.
pub proof fn layers_are_drawn_once_ready(l: Layer, i: int, phone_ready: bool, ready: Seq<bool>)
    requires
        0 <= i < ready.len(),
    ensures
        l.kind is Phone ==> is_drawn(l, i, phone_ready, ready) == phone_ready,
        l.kind is Video ==> is_drawn(l, i, phone_ready, ready) == ready[i],
        l.kind is Color || l.kind is Image || l.kind is Text ==> is_drawn(l, i, phone_ready, ready),
{
}

/// A scene is drawn from its first layer to its last: a further layer, where it is drawn, comes
/// over all the others.
pub proof fn layers_are_drawn_in_order(
    layers: Seq<Layer>,
    n: int,
    phone_ready: bool,
    ready: Seq<bool>,
)
    requires
        0 <= n < layers.len() <= usize::MAX,
    ensures
        ({
            let before = drawn_layers(layers, n, phone_ready, ready);
            let after = drawn_layers(layers, n + 1, phone_ready, ready);
            &&& is_drawn(layers[n], n, phone_ready, ready) ==> after == before.push(
                SceneItem::Layer(n as usize),
            )
            &&& !is_drawn(layers[n], n, phone_ready, ready) ==> after == before
        }),
        drawn_layers(layers, 0, phone_ready, ready).len() == 0,
{
}

/// A scene that shows the phone says over everything else that it is missing, as long as the phone
/// is not connected or sent no picture, and only then.
pub proof fn missing_phone_is_told(
    layers: Seq<Layer>,
    i: int,
    phone_ready: bool,
    phone_connected: bool,
    ready: Seq<bool>,
)
    requires
        0 <= i < layers.len(),
        layers[i].kind is Phone,
    ensures
        ({
            let drawn = drawn_layers(layers, layers.len() as int, phone_ready, ready);
            let items = scene_items(layers, phone_ready, phone_connected, ready);
            &&& !phone_ready || !phone_connected ==> items == drawn.push(SceneItem::Waiting)
            &&& phone_ready && phone_connected ==> items == drawn
        }),
{
    assert(layers[i].kind == LayerKind::Phone);
    assert(wants_phone(layers));
    let drawn = drawn_layers(layers, layers.len() as int, phone_ready, ready);
    let items = scene_items(layers, phone_ready, phone_connected, ready);
    if phone_ready && phone_connected {
        assert(items =~= drawn);
    } else {
        assert(items =~= drawn.push(SceneItem::Waiting));
    }
}

/// The programme is the scene on the air, whole; during a fade the one that goes is drawn whole
/// under it, and it is seen as far as the fade has come.
pub proof fn programme_is_drawn_whole(rs: RenderState, area: Area)
    ensures
        rs.fade is None ==> program_items(rs, area) == seq![
            Item::Scene { scene: rs.program, area, opacity: Opacity::Full },
        ],
        rs.fade is Some ==> program_items(rs, area) == seq![
            Item::Scene { scene: (rs.fade->0).0, area, opacity: Opacity::Full },
            Item::Scene {
                scene: rs.program,
                area,
                opacity: Opacity::Fade { passed: (rs.fade->0).1, duration: (rs.fade->0).2 },
            },
        ],
{
}

/// The tile of a scene shows it, with its name on the lower left; red around the one on the air,
/// green around the one on the preview, red where it is both, and nothing around the others.
pub proof fn tiles_show_their_scene(rs: RenderState, i: usize)
    ensures
        ({
            let area = Area::Tile(i);
            let scene = Item::Scene { scene: i, area, opacity: Opacity::Full };
            let name = Item::Text {
                caption: Caption::Scene(i),
                area,
                corner: Corner::BottomLeft,
            };
            let t = tile_items(rs, i as int);
            &&& i == rs.program ==> t == seq![scene, Item::Frame { area, mark: Mark::Red }, name]
            &&& i != rs.program && i == rs.preview ==> t == seq![
                scene,
                Item::Frame { area, mark: Mark::Green },
                name,
            ]
            &&& i != rs.program && i != rs.preview ==> t == seq![scene, name]
        }),
{
    let area = Area::Tile(i);
    let scene = Item::Scene { scene: i, area, opacity: Opacity::Full };
    let name = Item::Text { caption: Caption::Scene(i), area, corner: Corner::BottomLeft };
    let t = tile_items(rs, i as int);
    if i == rs.program {
        assert(t =~= seq![scene, Item::Frame { area, mark: Mark::Red }, name]);
    } else if i == rs.preview {
        assert(t =~= seq![scene, Item::Frame { area, mark: Mark::Green }, name]);
    } else {
        assert(t =~= seq![scene, name]);
    }
}

/// The multiview begins with the programme and the preview, each in its frame and under its name,
/// and the statistics; then come the tiles, scene by scene, and over everything the meters.
pub proof fn multiview_is_drawn_in_order(rs: RenderState, scenes: nat, meters: nat)
    ensures
        ({
            let p = program_items(rs, Area::Program);
            let l = large_items(rs);
            let m = multiview_items(rs, scenes, meters);
            &&& l.take(p.len() as int) == p
            &&& l.len() == p.len() + 6
            &&& l[p.len() as int] == (Item::Scene {
                scene: rs.preview,
                area: Area::Preview,
                opacity: Opacity::Full,
            })
            &&& l[p.len() as int + 1] == (Item::Frame { area: Area::Program, mark: Mark::Red })
            &&& l[p.len() as int + 2] == (Item::Frame { area: Area::Preview, mark: Mark::Green })
            &&& l[p.len() as int + 3] == (Item::Text {
                caption: Caption::Program,
                area: Area::Program,
                corner: Corner::TopLeft,
            })
            &&& l[p.len() as int + 4] == (Item::Text {
                caption: Caption::Preview,
                area: Area::Preview,
                corner: Corner::TopLeft,
            })
            &&& l[p.len() as int + 5] == (Item::Text {
                caption: Caption::Stats,
                area: Area::Program,
                corner: Corner::TopRight,
            })
            &&& m == l + tiles_items(rs, scenes as int) + meter_items(meters)
        }),
        tiles_items(rs, 0).len() == 0,
        tiles_items(rs, scenes as int + 1) == tiles_items(rs, scenes as int) + tile_items(
            rs,
            scenes as int,
        ),
        meter_items(0).len() == 0,
        meters > 0 ==> meter_items(meters).len() == meters + 1 && meter_items(meters)[0]
            == Item::Panel(meters as usize),
        forall|i: int|
            0 <= i < meters ==> #[trigger] meter_items(meters)[i + 1] == Item::Meter(i as usize),
{
    let p = program_items(rs, Area::Program);
    assert(large_items(rs).take(p.len() as int) =~= p);
}

/// The captions name the programme, the preview, and each scene by its number, counted from 1, and
/// its name.
pub proof fn captions_name_what_is_shown(e: Engine, i: usize)
    ensures
        caption_text(Caption::Program, e) == "PROGRAMME"@,
        caption_text(Caption::Preview, e) == "PREVIEW"@,
        caption_text(Caption::Scene(i), e) == strings::decimal((i + 1) as nat) + " · "@
            + e.scenes@[i as int].name@,
{
}

/// The known meters have a short name; any other one is called by its label.
pub proof fn meters_have_short_names(id: Seq<char>, label: Seq<char>)
    ensures
        id == "stream"@ ==> short_name(id, label) == "Stream"@,
        id == "branding"@ ==> short_name(id, label) == "Habillage"@,
        id == "return"@ ==> short_name(id, label) == "Retour"@,
        id != "stream"@ && id != "branding"@ && id != "return"@ ==> short_name(id, label) == label,
{
    reveal_strlit("stream");
    reveal_strlit("branding");
    reveal_strlit("return");
    assert("stream"@[0] == 's' && "branding"@[0] == 'b' && "return"@[0] == 'r');
}

/// A texture is kept under its number, apart from those of other kinds.
pub proof fn textures_are_kept_by_kind(n: u64)
    requires
        n < 0x0100_0000_0000_0000,
    ensures
        key_of(Texture::Slot(n)) == 0x0100_0000_0000_0000 + n,
        key_of(Texture::Layer(n)) == 0x0200_0000_0000_0000 + n,
        key_of(Texture::Scene(n)) == 0x0300_0000_0000_0000 + n,
        key_of(Texture::Label(n)) == 0x0400_0000_0000_0000 + n,
{
}

/// A texture is made anew where there is none, or one of another size or kind; it is up to date
/// where it holds the picture of the number asked for.
pub proof fn textures_are_made_when_needed(
    existing: Option<(u32, u32, u32)>,
    w: u32,
    h: u32,
    k: u32,
    make: bool,
    held: Option<u64>,
    seq: u64,
    current: bool,
)
    requires
        call_ensures(must_make, (existing, w, h, k), make),
        call_ensures(is_current, (held, seq), current),
    ensures
        !make <==> existing is Some && (existing->0).0 == w && (existing->0).1 == h && (
        existing->0).2 == k,
        current <==> held is Some && held->0 == seq,
{
}

/// A picture is presented at the screen's pace on the programme, and without waiting elsewhere; a
/// surface follows its window, unless that has no area; one that no longer fits is configured again
/// and asked once more, and given up after that.
pub proof fn surfaces_follow_their_windows(
    vsync: bool,
    mailbox: bool,
    p: Presenting,
    w: u32,
    h: u32,
    size: Option<(u32, u32)>,
    got: Surface,
    again: bool,
    next: Acquire,
)
    requires
        call_ensures(presenting, (vsync, mailbox), p),
        call_ensures(resized, (w, h), size),
        call_ensures(acquire, (got, again), next),
    ensures
        p == Presenting::Paced <==> vsync,
        p == Presenting::Latest <==> !vsync && mailbox,
        size is Some <==> w > 0 && h > 0,
        size is Some ==> size->0 == (w, h),
        next == Acquire::Draw <==> got == Surface::Ready,
        next == Acquire::Skip <==> got == Surface::Unavailable && !again,
        next == Acquire::Reconfigure <==> got == Surface::Stale && !again,
{
}

/// A label is drawn once: asked for again, it has the same number and nothing to draw.
pub proof fn labels_are_drawn_once(
    l: &mut Labels,
    id: &str,
    first: (u64, bool),
    m: &mut Labels,
    again: (u64, bool),
)
    requires
        labels_wf(*old(l)),
        old(l).next < u64::MAX - 1,
        no_label(old(l).fixed@, id@),
        call_ensures(Labels::label, (l, id), first),
        *old(m) == *final(l),
        call_ensures(Labels::label, (m, id), again),
    ensures
        first.1,
        again == (first.0, false),
        final(l).changing == old(l).changing,
{
    let n = old(l).fixed@.len() as int;
    let after = final(l).fixed@;
    assert(after[n].id@ == id@);
    assert forall|j: int| 0 <= j < n implies (#[trigger] after[j]).id@ != id@ by {
        assert(after[j] == after.drop_last()[j]);
        assert(old(l).fixed@[j].id@ != id@);
    }
    assert(is_label(old(m).fixed@, id@, n));
}

/// A text that changes keeps its number and is drawn again exactly where it is another one.
pub proof fn changing_labels_are_drawn_again(
    l: &mut Labels,
    name: &str,
    text: &str,
    r: (u64, bool),
    i: int,
)
    requires
        is_label(old(l).changing@, name@, i),
        call_ensures(Labels::dyn_label, (l, name, text), r),
    ensures
        r.0 == old(l).changing@[i].number,
        r.1 <==> old(l).changing@[i].text@ != text@,
        final(l).changing@[i].text@ == text@ && final(l).changing@[i].number == r.0,
        final(l).next == old(l).next && final(l).fixed == old(l).fixed,
{
}

/// A first text gets the next number and is drawn.
pub proof fn new_labels_are_numbered_on(l: &mut Labels, name: &str, text: &str, r: (u64, bool))
    requires
        no_label(old(l).changing@, name@),
        call_ensures(Labels::dyn_label, (l, name, text), r),
    ensures
        r == (old(l).next, true),
        final(l).next == old(l).next + 1,
        final(l).changing@.last().text@ == text@ && final(l).changing@.last().number == r.0,
        final(l).fixed == old(l).fixed,
{
}

/// Colour at half the size covers the picture: rounded up on both sides.
pub proof fn half_sizes_cover_the_picture(w: u32, h: u32, r: (u32, u32))
    requires
        call_ensures(half_size, (w, h), r),
    ensures
        w <= 2 * r.0 <= w + 1,
        h <= 2 * r.1 <= h + 1,
{
}

/// What is copied of a plane lies in the picture and in the memory: no row is longer than its
/// stride, and no row is outside.
pub proof fn planes_lie_in_their_memory(
    len: u32,
    stride: u32,
    width: u32,
    height: u32,
    bpp: u32,
    r: (u32, u32),
)
    requires
        bpp > 0,
        stride > 0,
        width * bpp <= u32::MAX,
        call_ensures(plane_extent, (len, stride, width, height, bpp), r),
    ensures
        r.0 * bpp <= stride,
        r.0 <= width,
        width * bpp <= stride ==> r.0 == width,
        r.1 <= height,
        r.1 * stride <= len,
        height * stride <= len ==> r.1 == height,
{
    let row = if width * bpp < stride {
        width * bpp
    } else {
        stride as int
    };
    assert(row / (bpp as int) * bpp <= row && row / (bpp as int) <= width) by (nonlinear_arith)
        requires
            bpp > 0,
            0 <= row <= width * bpp,
    ;
    assert(row == width * bpp ==> row / (bpp as int) == width) by (nonlinear_arith)
        requires
            bpp > 0,
    ;
    let rows = len as int / (stride as int);
    assert(rows * stride <= len) by (nonlinear_arith)
        requires
            stride > 0,
            rows == len as int / (stride as int),
    ;
    assert(r.1 * stride <= rows * stride) by (nonlinear_arith)
        requires
            r.1 <= rows,
            stride > 0,
    ;
    assert(height * stride <= len ==> height <= rows) by (nonlinear_arith)
        requires
            stride > 0,
            rows == len as int / (stride as int),
    ;
}

/// No more is drawn than there is room for, and as much as there is.
pub proof fn draws_fit_in_their_room(slot: u64, draws: u64, r: u64)
    requires
        call_ensures(draws_that_fit, (slot, draws), r),
    ensures
        r <= draws,
        slot < 2048 ==> slot + r <= 2048,
        slot < 2048 && slot + draws <= 2048 ==> r == draws,
        slot < 2048 && slot + draws > 2048 ==> slot + r == 2048,
        slot >= 2048 ==> r == 0,
{
}

/// The first plain format is taken, and the first of all where there is none.
pub proof fn plain_formats_are_preferred(srgb: &Vec<bool>, r: Option<usize>, i: int)
    requires
        call_ensures(pick_format, (srgb,), r),
    ensures
        r is None <==> srgb@.len() == 0,
        r is Some ==> r->0 < srgb@.len(),
        0 <= i < srgb@.len() && !srgb@[i] ==> r is Some && r->0 <= i && !srgb@[r->0 as int],
        r is Some && srgb@[r->0 as int] ==> r->0 == 0,
{
}

/// A text has a box where both its sides are given.
pub proof fn boxes_have_two_sides(g: &Geometry, r: Option<(i32, i32)>)
    requires
        call_ensures(text_box, (g,), r),
    ensures
        r is Some <==> g.width is Some && g.height is Some,
        r is Some ==> (r->0).0 == g.width->0 && (r->0).1 == g.height->0,
{
}

} // verus!
