//! Control of the scenes by the keys of a Stream Deck.

use crate::config;
use crate::config::{ButtonConfig, Config};
use crate::engine;
use crate::engine::{Effect, Engine, Scene};
use crate::strings;
use vstd::prelude::*;

verus! {

/// What a key does.
#[derive(Debug, Clone, Copy, PartialEq, Eq, Structural)]
pub enum Action {
    Program(usize),
    Cut(usize),
    Preview(usize),
    Take,
}

/// A key.
#[derive(Debug)]
pub struct Button {
    pub index: u8,
    pub label: String,
    pub color: (u8, u8, u8),
    pub action: Action,
}

/// Contents of a [`Button`].
pub struct KeyView {
    pub index: u8,
    pub label: Seq<char>,
    pub color: (u8, u8, u8),
    pub action: Action,
}

impl View for Button {
    type V = KeyView;

    open spec fn view(&self) -> KeyView {
        KeyView {
            index: self.index,
            label: self.label@,
            color: self.color,
            action: self.action,
        }
    }
}

/// Contents of keys.
pub open spec fn key_views(keys: Seq<Button>) -> Seq<KeyView> {
    keys.map_values(|b: Button| b@)
}

/// The keys where none is configured: one for each scene in order, then one to take.
pub open spec fn default_keys(scenes: Seq<Scene>) -> Seq<config::ButtonView> {
    Seq::new(
        scenes.len(),
        |i: int|
            config::button_view((i % 256) as u8, "program"@, scenes[i].id@, Seq::empty()),
    ).push(config::button_view((scenes.len() % 256) as u8, "take"@, Seq::empty(), "TAKE"@))
}

/// The keys that are wanted.
pub open spec fn wanted_keys(
    configured: Seq<config::ButtonView>,
    scenes: Seq<Scene>,
) -> Seq<config::ButtonView> {
    if configured.len() == 0 {
        default_keys(scenes)
    } else {
        configured
    }
}

/// What a key does, by its action in lower case and its scene.
pub open spec fn action_for(low: Seq<char>, scene: Option<usize>) -> Option<Action> {
    if low == "take"@ {
        Some(Action::Take)
    } else {
        match scene {
            Some(i) => if low == "cut"@ {
                Some(Action::Cut(i))
            } else if low == "preview"@ {
                Some(Action::Preview(i))
            } else if low == "program"@ || low == ""@ {
                Some(Action::Program(i))
            } else {
                None
            },
            None => None,
        }
    }
}

/// Colour of a key at rest: its own, else blue for the key that takes and grey for the others.
pub open spec fn rest_color(color: Seq<char>, action: Action) -> (u8, u8, u8) {
    match config::color_in(color) {
        Some((r, g, b, _)) => (r, g, b),
        None => if action == Action::Take {
            (40, 40, 120)
        } else {
            (40, 40, 40)
        },
    }
}

/// A key, with its action in lower and in upper case; none where the action or the scene is not
/// known. Without a text it shows the scene's name, else its action.
pub open spec fn key_for(
    b: config::ButtonView,
    low: Seq<char>,
    upper: Seq<char>,
    scenes: Seq<Scene>,
) -> Option<KeyView> {
    let scene = engine::scene_with(scenes, b.scene);
    match action_for(low, scene) {
        Some(action) => Some(
            KeyView {
                index: b.index,
                label: if b.label.len() > 0 {
                    b.label
                } else {
                    match scene {
                        Some(i) => scenes[i as int].name@,
                        None => upper,
                    }
                },
                color: rest_color(b.color, action),
                action,
            },
        ),
        None => None,
    }
}

/// The keys of a list that can be made.
pub open spec fn keys_for(list: Seq<config::ButtonView>, scenes: Seq<Scene>) -> Seq<KeyView>
    decreases list.len(),
{
    if list.len() == 0 {
        seq![]
    } else {
        let before = keys_for(list.drop_last(), scenes);
        let b = list.last();
        match key_for(b, strings::lowercase(b.action), strings::uppercase(b.action), scenes) {
            Some(k) => before.push(k),
            None => before,
        }
    }
}

/// Makes a key, with its action in lower and in upper case.
pub fn make_button(b: &ButtonConfig, low: &str, upper: &str, engine: &Engine) -> (r: Option<Button>)
    ensures
        (match r {
            Some(k) => key_for(b@, low@, upper@, engine.scenes@) == Some(k@),
            None => key_for(b@, low@, upper@, engine.scenes@) is None,
        }),
{
    let scene = engine.scene_index(b.scene.as_str());
    let action = if strings::same_text(low, "take") {
        Action::Take
    } else {
        let i: usize = match scene {
            Some(i) => i,
            None => {
                return None;
            },
        };
        if strings::same_text(low, "cut") {
            Action::Cut(i)
        } else if strings::same_text(low, "preview") {
            Action::Preview(i)
        } else if strings::same_text(low, "program") || strings::same_text(low, "") {
            Action::Program(i)
        } else {
            return None;
        }
    };
    let own = strings::chars_of(b.label.as_str());
    let label = if own.len() > 0 {
        b.label.clone()
    } else {
        match scene {
            Some(i) => engine.scenes[i].name.clone(),
            None => strings::text(upper),
        }
    };
    let color = match config::parse_color(b.color.as_str()) {
        Some((r, g, bl, _)) => (r, g, bl),
        None => if action == Action::Take {
            (40, 40, 120)
        } else {
            (40, 40, 40)
        },
    };
    Some(Button { index: b.index, label, color, action })
}

fn one_key(index: u8, action: &str, scene: &str, label: &str) -> (r: ButtonConfig)
    ensures
        r@ == config::button_view(index, action@, scene@, label@),
{
    ButtonConfig {
        index,
        action: strings::text(action),
        scene: strings::text(scene),
        label: strings::text(label),
        color: String::new(),
    }
}

fn add_key(out: &mut Vec<Button>, b: &ButtonConfig, engine: &Engine)
    ensures
        key_views(final(out)@) == (match key_for(
            b@,
            strings::lowercase(b@.action),
            strings::uppercase(b@.action),
            engine.scenes@,
        ) {
            Some(k) => key_views(old(out)@).push(k),
            None => key_views(old(out)@),
        }),
{
    let low = strings::to_lowercase(b.action.as_str());
    let upper = strings::to_uppercase(b.action.as_str());
    if let Some(k) = make_button(b, low.as_str(), upper.as_str(), engine) {
        let ghost v = k@;
        out.push(k);
        assert(key_views(out@) =~= key_views(old(out)@).push(v));
    }
}

/// The keys of a Stream Deck: the configured ones, or one for each scene and one to take.
pub fn build_buttons(cfg: &Config, engine: &Engine) -> (r: Vec<Button>)
    ensures
        key_views(r@) == keys_for(
            wanted_keys(config::button_views(cfg.streamdeck.buttons@), engine.scenes@),
            engine.scenes@,
        ),
{
    let mut out: Vec<Button> = Vec::new();
    let ghost scenes = engine.scenes@;
    let ghost list = wanted_keys(config::button_views(cfg.streamdeck.buttons@), scenes);
    let mut i: usize = 0;
    assert(list.take(0) == Seq::<config::ButtonView>::empty());
    assert(key_views(out@) =~= keys_for(list.take(0), scenes));
    if cfg.streamdeck.buttons.len() == 0 {
        while i < engine.scenes.len()
            invariant
                i <= engine.scenes@.len(),
                scenes == engine.scenes@,
                list == default_keys(scenes),
                key_views(out@) == keys_for(list.take(i as int), scenes),
            decreases engine.scenes.len() - i,
        {
            let b = one_key((i % 256) as u8, "program", engine.scenes[i].id.as_str(), "");
            proof {
                reveal_strlit("");
                assert(""@ =~= Seq::<char>::empty());
                assert(list.take(i + 1).drop_last() == list.take(i as int));
                assert(list.take(i + 1).last() == b@);
            }
            add_key(&mut out, &b, engine);
            i += 1;
        }
        let b = one_key((engine.scenes.len() % 256) as u8, "take", "", "TAKE");
        proof {
            reveal_strlit("");
            assert(""@ =~= Seq::<char>::empty());
            assert(list.take(i + 1) == list);
            assert(list.drop_last() == list.take(i as int));
            assert(list.last() == b@);
        }
        add_key(&mut out, &b, engine);
    } else {
        let buttons = &cfg.streamdeck.buttons;
        while i < buttons.len()
            invariant
                i <= buttons@.len(),
                scenes == engine.scenes@,
                list == config::button_views(buttons@),
                key_views(out@) == keys_for(list.take(i as int), scenes),
            decreases buttons.len() - i,
        {
            proof {
                assert(list.take(i + 1).drop_last() == list.take(i as int));
                assert(list.take(i + 1).last() == buttons@[i as int]@);
            }
            add_key(&mut out, &buttons[i], engine);
            i += 1;
        }
        assert(list.take(list.len() as int) == list);
    }
    out
}

/// The first key at a place.
pub open spec fn key_at(keys: Seq<Button>, place: int) -> Option<Action>
    decreases keys.len(),
{
    if keys.len() == 0 {
        None
    } else if keys[0].index == place {
        Some(keys[0].action)
    } else {
        key_at(keys.drop_first(), place)
    }
}

/// What the key at a place does.
pub fn action_at(keys: &Vec<Button>, place: usize) -> (r: Option<Action>)
    ensures
        r == key_at(keys@, place as int),
{
    let mut i: usize = 0;
    assert(keys@.skip(0) == keys@);
    while i < keys.len()
        invariant
            i <= keys@.len(),
            key_at(keys@.skip(i as int), place as int) == key_at(keys@, place as int),
        decreases keys.len() - i,
    {
        assert(keys@.skip(i as int)[0] == keys@[i as int]);
        assert(keys@.skip(i as int).drop_first() == keys@.skip(i + 1));
        if keys[i].index as usize == place {
            return Some(keys[i].action);
        }
        i += 1;
    }
    None
}

/// The switcher after a key, and what to do.
pub open spec fn performed(e: Engine, a: Action, now: u64) -> (Engine, Seq<Effect>) {
    match a {
        Action::Program(i) => engine::switched(e, i, true, now),
        Action::Cut(i) => engine::switched(e, i, false, now),
        Action::Preview(i) => engine::previewed(e, i),
        Action::Take => engine::taken(e, now),
    }
}

/// A key goes down: it is held now and was not before.
pub open spec fn goes_down(before: Seq<bool>, state: Seq<bool>, i: int) -> bool {
    state[i] && !(i < before.len() && before[i])
}

/// The switcher after the first `n` keys were looked at, and what to do.
pub open spec fn after_keys(
    e: Engine,
    keys: Seq<Button>,
    before: Seq<bool>,
    state: Seq<bool>,
    n: int,
    now: u64,
) -> (Engine, Seq<Effect>)
    decreases n,
{
    if n <= 0 {
        (e, seq![])
    } else {
        let a = after_keys(e, keys, before, state, n - 1, now);
        match key_at(keys, n - 1) {
            Some(action) if goes_down(before, state, n - 1) => {
                let b = performed(a.0, action, now);
                (b.0, a.1 + b.1)
            },
            _ => a,
        }
    }
}

/// Keys held, and the scenes last shown on them.
pub struct Deck {
    pub held: Vec<bool>,
    pub shown: Option<(usize, usize)>,
}

impl Deck {
    /// A Stream Deck was connected.
    pub fn new(key_count: usize) -> (r: Self)
        ensures
            r.held@ == Seq::new(key_count as nat, |i: int| false),
            r.shown is None,
    {
        let mut held: Vec<bool> = Vec::new();
        let mut i: usize = 0;
        while i < key_count
            invariant
                i <= key_count,
                held@ == Seq::new(i as nat, |j: int| false),
            decreases key_count - i,
        {
            held.push(false);
            i += 1;
            assert(held@ =~= Seq::new(i as nat, |j: int| false));
        }
        Deck { held, shown: None }
    }

    /// Whether the keys have to be drawn again.
    pub fn must_draw(&mut self, program: usize, preview: usize) -> (r: bool)
        ensures
            r == (old(self).shown != Some((program, preview))),
            final(self).shown == Some((program, preview)),
            final(self).held == old(self).held,
    {
        let same = match self.shown {
            Some((a, b)) => a == program && b == preview,
            None => false,
        };
        self.shown = Some((program, preview));
        !same
    }

    /// The keys changed: those that go down act, in order.
    pub fn on_keys(
        &mut self,
        engine: &mut Engine,
        keys: &Vec<Button>,
        state: Vec<bool>,
        now: u64,
    ) -> (r: Vec<Effect>)
        requires
            engine::engine_wf(*old(engine)),
        ensures
            engine::engine_wf(*final(engine)),
            (*final(engine), r@) == after_keys(
                *old(engine),
                keys@,
                old(self).held@,
                state@,
                state@.len() as int,
                now,
            ),
            final(self).held == state,
            final(self).shown == old(self).shown,
    {
        let ghost start = *engine;
        let ghost before = self.held@;
        let mut out: Vec<Effect> = Vec::new();
        let mut i: usize = 0;
        while i < state.len()
            invariant
                i <= state@.len(),
                before == self.held@,
                engine::engine_wf(*engine),
                (*engine, out@) == after_keys(start, keys@, before, state@, i as int, now),
            decreases state.len() - i,
        {
            if state[i] && !(i < self.held.len() && self.held[i]) {
                if let Some(action) = action_at(keys, i) {
                    let mut more = perform(engine, action, now);
                    out.append(&mut more);
                }
            }
            i += 1;
        }
        self.held = state;
        out
    }
}

/// Performs the action of a key.
pub fn perform(engine: &mut Engine, action: Action, now: u64) -> (r: Vec<Effect>)
    requires
        engine::engine_wf(*old(engine)),
    ensures
        engine::engine_wf(*final(engine)),
        (*final(engine), r@) == performed(*old(engine), action, now),
{
    match action {
        Action::Program(i) => engine.transition_to(i, now),
        Action::Cut(i) => engine.cut(i, now),
        Action::Preview(i) => engine.set_preview(i),
        Action::Take => engine.take(now),
    }
}

/// Background and text of a key: red for the programme, green for the preview.
pub open spec fn colors_of(
    action: Action,
    rest: (u8, u8, u8),
    program: usize,
    preview: usize,
) -> ((u8, u8, u8), (u8, u8, u8)) {
    let shown = match action {
        Action::Program(s) | Action::Cut(s) => s == program,
        _ => false,
    };
    let next = match action {
        Action::Program(s) | Action::Cut(s) | Action::Preview(s) => s == preview,
        Action::Take => false,
    };
    if shown {
        ((200, 30, 30), (255, 255, 255))
    } else if next {
        ((30, 160, 60), (255, 255, 255))
    } else {
        (rest, (230, 230, 230))
    }
}

/// Background and text of a key.
pub fn key_colors(b: &Button, program: usize, preview: usize) -> (r: (
    (u8, u8, u8),
    (u8, u8, u8),
))
    ensures
        r == colors_of(b.action, b.color, program, preview),
{
    let shown = match b.action {
        Action::Program(s) => s == program,
        Action::Cut(s) => s == program,
        _ => false,
    };
    let next = match b.action {
        Action::Program(s) => s == preview,
        Action::Cut(s) => s == preview,
        Action::Preview(s) => s == preview,
        Action::Take => false,
    };
    if shown {
        ((200, 30, 30), (255, 255, 255))
    } else if next {
        ((30, 160, 60), (255, 255, 255))
    } else {
        (b.color, (230, 230, 230))
    }
}

/// A Stream Deck is the wanted one: it has that serial number, or any will do.
pub open spec fn is_wanted(serial: Seq<char>, wanted: Seq<char>) -> bool {
    wanted.len() == 0 || serial == wanted
}

/// The Stream Deck to use: the first that is wanted.
pub fn pick_deck(serials: &Vec<String>, wanted: &str) -> (r: Option<usize>)
    ensures
        r matches Some(i) ==> {
            &&& i < serials@.len()
            &&& is_wanted(serials@[i as int]@, wanted@)
            &&& forall|j: int| 0 <= j < i ==> !is_wanted((#[trigger] serials@[j])@, wanted@)
        },
        r is None ==> forall|j: int|
            0 <= j < serials@.len() ==> !is_wanted((#[trigger] serials@[j])@, wanted@),
{
    let w = strings::chars_of(wanted);
    let mut i: usize = 0;
    while i < serials.len()
        invariant
            i <= serials@.len(),
            w@ == wanted@,
            forall|j: int| 0 <= j < i ==> !is_wanted((#[trigger] serials@[j])@, wanted@),
        decreases serials.len() - i,
    {
        if w.len() == 0 || strings::same_text(serials[i].as_str(), wanted) {
            return Some(i);
        }
        i += 1;
    }
    None
}

/// Brightness in percent.
pub fn brightness(percent: u8) -> (r: u8)
    ensures
        r == (if percent < 100 {
            percent
        } else {
            100
        }),
{
    if percent < 100 {
        percent
    } else {
        100
    }
}

/// A key that stays down acts once.
pub proof fn held_keys_do_not_repeat(
    e: Engine,
    keys: Seq<Button>,
    state: Seq<bool>,
    n: int,
    now: u64,
)
    requires
        0 <= n <= state.len(),
    ensures
        after_keys(e, keys, state, state, n, now) == (e, Seq::<Effect>::empty()),
    decreases n,
{
    if n > 0 {
        held_keys_do_not_repeat(e, keys, state, n - 1, now);
    }
}

/// Without a configuration every scene has its key: the one at a scene's place puts it on the
/// programme.
pub proof fn every_scene_has_its_key(scenes: Seq<Scene>, i: int)
    requires
        0 <= i < scenes.len() < 256,
    ensures
        default_keys(scenes)[i].index == i,
        default_keys(scenes)[i].scene == scenes[i].id@,
        default_keys(scenes)[i].action == "program"@,
        default_keys(scenes)[scenes.len() as int].index == scenes.len(),
        default_keys(scenes)[scenes.len() as int].action == "take"@,
{
}

/// The keys wanted are the configured ones; without any, one for each scene and one to take, each
/// at its own place.
pub proof fn configured_keys_are_wanted(configured: Seq<config::ButtonView>, scenes: Seq<Scene>)
    ensures
        configured.len() > 0 ==> wanted_keys(configured, scenes) == configured,
        configured.len() == 0 ==> wanted_keys(configured, scenes).len() == scenes.len() + 1,
        configured.len() == 0 ==> wanted_keys(configured, scenes) == default_keys(scenes),
        default_keys(scenes).last().label == "TAKE"@ && default_keys(scenes).last().action
            == "take"@,
        scenes.len() < 256 ==> default_keys(scenes).last().index == scenes.len(),
        forall|i: int|
            0 <= i < scenes.len() ==> (#[trigger] default_keys(scenes)[i]).action == "program"@
                && default_keys(scenes)[i].scene == scenes[i].id@ && default_keys(scenes)[i].index
                == i % 256,
        forall|i: int|
            0 <= i < scenes.len() ==> (#[trigger] default_keys(scenes)[i]).label.len() == 0
                && default_keys(scenes)[i].color.len() == 0,
{
}

/// A key does what its action says, on its scene: `program`, which is also what no action means,
/// `cut` or `preview`; `take` needs no scene. An unknown action, or one without its scene, makes no
/// key.
pub proof fn keys_do_what_they_say(low: Seq<char>, scene: Option<usize>, i: usize)
    ensures
        action_for("program"@, Some(i)) == Some(Action::Program(i)),
        action_for(""@, Some(i)) == Some(Action::Program(i)),
        action_for("cut"@, Some(i)) == Some(Action::Cut(i)),
        action_for("preview"@, Some(i)) == Some(Action::Preview(i)),
        action_for("take"@, scene) == Some(Action::Take),
        low != "take"@ ==> action_for(low, None) is None,
        low != "take"@ && low != "program"@ && low != ""@ && low != "cut"@ && low != "preview"@
            ==> action_for(low, scene) is None,
{
    reveal_strlit("program");
    reveal_strlit("cut");
    reveal_strlit("preview");
    reveal_strlit("take");
    reveal_strlit("");
    assert("program"@.len() == 7 && "cut"@.len() == 3 && "preview"@.len() == 7 && "take"@.len()
        == 4 && ""@.len() == 0);
    assert("program"@[2] == 'o' && "preview"@[2] == 'e');
}

/// A key is at the place that it is given, in its own colour, or in blue where it takes and grey
/// where it does not; it bears its own text, else the name of its scene, else its action in upper
/// case.
pub proof fn keys_look_as_configured(
    b: config::ButtonView,
    low: Seq<char>,
    upper: Seq<char>,
    scenes: Seq<Scene>,
)
    ensures
        ({
            let scene = engine::scene_with(scenes, b.scene);
            let k = key_for(b, low, upper, scenes);
            let own = config::color_in(b.color);
            &&& k is Some <==> action_for(low, scene) is Some
            &&& k is Some ==> {
                &&& (k->0).index == b.index
                &&& Some((k->0).action) == action_for(low, scene)
                &&& b.label.len() > 0 ==> (k->0).label == b.label
                &&& b.label.len() == 0 && scene is Some ==> (k->0).label
                    == scenes[scene->0 as int].name@
                &&& b.label.len() == 0 && scene is None ==> (k->0).label == upper
                &&& own is Some ==> (k->0).color == ((own->0).0, (own->0).1, (own->0).2)
                &&& own is None && (k->0).action == Action::Take ==> (k->0).color == (
                    40u8,
                    40u8,
                    120u8,
                )
                &&& own is None && (k->0).action != Action::Take ==> (k->0).color == (
                    40u8,
                    40u8,
                    40u8,
                )
            }
        }),
{
}

/// Every key of a list that can be made is, in order; the others are left out.
pub proof fn keys_are_made_in_order(
    list: Seq<config::ButtonView>,
    b: config::ButtonView,
    scenes: Seq<Scene>,
)
    ensures
        ({
            let k = key_for(
                b,
                strings::lowercase(b.action),
                strings::uppercase(b.action),
                scenes,
            );
            &&& k is Some ==> keys_for(list.push(b), scenes) == keys_for(list, scenes).push(k->0)
            &&& k is None ==> keys_for(list.push(b), scenes) == keys_for(list, scenes)
        }),
        keys_for(Seq::empty(), scenes).len() == 0,
{
    assert(list.push(b).drop_last() =~= list);
}

/// The key at a place is the first one that is there.
pub proof fn first_key_at_a_place_acts(keys: Seq<Button>, place: int, i: int)
    ensures
        0 <= i < keys.len() && keys[i].index == place && (forall|j: int|
            0 <= j < i ==> (#[trigger] keys[j]).index != place) ==> key_at(keys, place) == Some(
            keys[i].action,
        ),
        (forall|j: int| 0 <= j < keys.len() ==> (#[trigger] keys[j]).index != place) ==> key_at(
            keys,
            place,
        ) is None,
    decreases keys.len(),
{
    if keys.len() > 0 {
        let rest = keys.drop_first();
        first_key_at_a_place_acts(rest, place, i - 1);
        if 0 <= i < keys.len() && keys[i].index == place && (forall|j: int|
            0 <= j < i ==> (#[trigger] keys[j]).index != place) && i > 0 {
            assert(keys[0].index != place);
            assert(rest[i - 1] == keys[i]);
            assert forall|j: int| 0 <= j < i - 1 implies (#[trigger] rest[j]).index != place by {
                assert(rest[j] == keys[j + 1]);
            }
        }
        if forall|j: int| 0 <= j < keys.len() ==> (#[trigger] keys[j]).index != place {
            assert(keys[0].index != place);
            assert forall|j: int| 0 <= j < rest.len() implies (#[trigger] rest[j]).index
                != place by {
                assert(rest[j] == keys[j + 1]);
            }
        }
    }
}

/// A key that goes down acts on what the keys before it left; a key that is up, or was down
/// already, does nothing, and neither does a place without a key.
pub proof fn keys_act_when_they_go_down(
    e: Engine,
    keys: Seq<Button>,
    before: Seq<bool>,
    state: Seq<bool>,
    n: int,
    now: u64,
)
    requires
        0 <= n < state.len(),
    ensures
        ({
            let a = after_keys(e, keys, before, state, n, now);
            let b = after_keys(e, keys, before, state, n + 1, now);
            let down = state[n] && (n >= before.len() || !before[n]);
            let key = key_at(keys, n);
            &&& down && key is Some ==> b.0 == performed(a.0, key->0, now).0 && b.1 == a.1
                + performed(a.0, key->0, now).1
            &&& !down || key is None ==> b == a
        }),
        after_keys(e, keys, before, state, 0, now) == (e, Seq::<Effect>::empty()),
{
}

/// A key does to the switcher what it says: its scene to the programme with the configured
/// transition, or at once, or to the preview; or preview to programme.
pub proof fn keys_switch_scenes(e: Engine, i: usize, now: u64)
    ensures
        performed(e, Action::Program(i), now) == engine::switched(e, i, true, now),
        performed(e, Action::Cut(i), now) == engine::switched(e, i, false, now),
        performed(e, Action::Preview(i), now) == engine::previewed(e, i),
        performed(e, Action::Take, now) == engine::taken(e, now),
{
}

/// The keys of the scene on the air are red, those of the scene on the preview green, on the air
/// winning; the others rest in their own colour. A key that only previews is never red, and the one
/// that takes never changes.
pub proof fn keys_light_up(rest: (u8, u8, u8), s: usize, program: usize, preview: usize)
    ensures
        ({
            let red = ((200u8, 30u8, 30u8), (255u8, 255u8, 255u8));
            let green = ((30u8, 160u8, 60u8), (255u8, 255u8, 255u8));
            let dark = (rest, (230u8, 230u8, 230u8));
            &&& s == program ==> colors_of(Action::Program(s), rest, program, preview) == red
            &&& s == program ==> colors_of(Action::Cut(s), rest, program, preview) == red
            &&& s != program && s == preview ==> colors_of(
                Action::Program(s),
                rest,
                program,
                preview,
            ) == green
            &&& s != program && s == preview ==> colors_of(Action::Cut(s), rest, program, preview)
                == green
            &&& s != program && s != preview ==> colors_of(
                Action::Program(s),
                rest,
                program,
                preview,
            ) == dark
            &&& s != program && s != preview ==> colors_of(Action::Cut(s), rest, program, preview)
                == dark
            &&& s == preview ==> colors_of(Action::Preview(s), rest, program, preview) == green
            &&& s != preview ==> colors_of(Action::Preview(s), rest, program, preview) == dark
            &&& colors_of(Action::Take, rest, program, preview) == dark
        }),
{
}

/// Any Stream Deck will do where none is named; else only the one with that serial number. It is
/// as bright as asked for, 100 percent at most.
pub proof fn decks_are_known_by_their_serial(
    serial: Seq<char>,
    wanted: Seq<char>,
    percent: u8,
    r: u8,
)
    requires
        call_ensures(brightness, (percent,), r),
    ensures
        wanted.len() == 0 ==> is_wanted(serial, wanted),
        wanted.len() > 0 ==> is_wanted(serial, wanted) == (serial == wanted),
        percent <= 100 ==> r == percent,
        percent >= 100 ==> r == 100,
{
}

/// The keys are drawn when the programme or the preview changes, and not again while they stay.
pub proof fn keys_are_drawn_when_they_change(
    d: &mut Deck,
    program: usize,
    preview: usize,
    first: bool,
    e: &mut Deck,
    p: usize,
    q: usize,
    second: bool,
    count: usize,
    fresh: Deck,
)
    requires
        call_ensures(Deck::must_draw, (d, program, preview), first),
        *old(e) == *final(d),
        call_ensures(Deck::must_draw, (e, p, q), second),
        call_ensures(Deck::new, (count,), fresh),
    ensures
        old(d).shown is None ==> first,
        second <==> p != program || q != preview,
        final(d).held == old(d).held,
        fresh.shown is None && fresh.held@.len() == count,
        forall|i: int| 0 <= i < count ==> !(#[trigger] fresh.held@[i]),
{
}

/// A deck keeps what is held down; keys that stay as they are do nothing.
pub proof fn held_keys_do_nothing(
    d: &mut Deck,
    engine: &mut Engine,
    keys: &Vec<Button>,
    state: Vec<bool>,
    now: u64,
    r: Vec<Effect>,
)
    requires
        state@ == old(d).held@,
        call_ensures(Deck::on_keys, (d, engine, keys, state, now), r),
    ensures
        final(d).held == state && final(d).shown == old(d).shown,
        *final(engine) == *old(engine),
        r@.len() == 0,
{
    lemma_held(*old(engine), keys@, state@, state@.len() as int, now);
}

proof fn lemma_held(e: Engine, keys: Seq<Button>, state: Seq<bool>, n: int, now: u64)
    requires
        0 <= n <= state.len(),
    ensures
        after_keys(e, keys, state, state, n, now) == (e, Seq::<Effect>::empty()),
    decreases n,
{
    if n > 0 {
        lemma_held(e, keys, state, n - 1, now);
    }
}

/// The first deck that will do is taken.
pub proof fn first_deck_that_will_do_is_taken(
    serials: &Vec<String>,
    wanted: &str,
    r: Option<usize>,
    i: int,
)
    requires
        call_ensures(pick_deck, (serials, wanted), r),
    ensures
        r is Some ==> r->0 < serials@.len() && (wanted@.len() == 0 || serials@[r->0 as int]@
            == wanted@),
        r is Some && 0 <= i < r->0 ==> wanted@.len() > 0 && serials@[i]@ != wanted@,
{
    if r is Some && 0 <= i < r->0 {
        assert(!is_wanted(serials@[i]@, wanted@));
    }
}

} // verus!
