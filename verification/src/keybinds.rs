//! The keyboard shortcuts and what they are bound to.

use vstd::prelude::*;

use crate::paths::text_of;
use crate::text::same_text;

verus! {

/// The name egui gives the key that it finds under a name, if it finds one.
pub uninterp spec fn key_named(name: Seq<char>) -> Option<Seq<char>>;

/// Whether egui calls a key by this name.
pub open spec fn is_key(name: Seq<char>) -> bool {
    key_named(name) == Some(name)
}

/// Whether this is the name of a key that is bound to something from the start.
pub open spec fn is_usual_key(name: Seq<char>) -> bool {
    ||| name == "S"@
    ||| name == "E"@
    ||| name == "Space"@
    ||| name == "Left"@
    ||| name == "Right"@
    ||| name == "Z"@
    ||| name == "Y"@
}

/// `egui::Key::from_name`, the key given by what `egui::Key::name` calls it: a name
/// that comes back is found under itself, and so are those of the keys bound from
/// the start. Which other names are found is left unsaid.
#[verifier::external_body]
fn key_from_name(name: &str) -> (key: Option<String>)
    ensures
        text_of(key) == key_named(name@),
        key is Some ==> is_key(key->0@),
        is_usual_key(name@) ==> key is Some && key->0@ == name@,
{
    egui::Key::from_name(name).map(|key| key.name().to_owned())
}

/// A key with the modifiers held with it.
pub struct Combo {
    pub key: Seq<char>,
    pub ctrl: bool,
    pub shift: bool,
}

/// A key, by egui's name for it, with the modifiers held with it.
#[derive(Debug)]
pub struct Shortcut {
    pub key: String,
    pub ctrl: bool,
    pub shift: bool,
}

impl View for Shortcut {
    type V = Combo;

    open spec fn view(&self) -> Combo {
        Combo { key: self.key@, ctrl: self.ctrl, shift: self.shift }
    }
}

impl Combo {
    /// How it reads.
    pub open spec fn text(self) -> Seq<char> {
        (if self.ctrl {
            "Ctrl+"@
        } else {
            ""@
        }) + (if self.shift {
            "Shift+"@
        } else {
            ""@
        }) + self.key
    }
}

impl Shortcut {
    /// The same shortcut again.
    pub fn copied(&self) -> (copy: Shortcut)
        ensures
            copy@ == self@,
    {
        Shortcut { key: self.key.clone(), ctrl: self.ctrl, shift: self.shift }
    }

    /// Whether this is the same key with the same modifiers.
    pub fn same(&self, other: &Shortcut) -> (same: bool)
        ensures
            same == (self@ == other@),
    {
        same_text(self.key.as_str(), other.key.as_str()) && self.ctrl == other.ctrl && self.shift
            == other.shift
    }

    /// How it reads.
    pub fn label(&self) -> (label: String)
        ensures
            label@ == self@.text(),
    {
        proof {
            reveal_strlit("");
        }
        let mut label = String::new();
        if self.ctrl {
            label.append("Ctrl+");
        }
        if self.shift {
            label.append("Shift+");
        }
        label.append(self.key.as_str());
        assert(label@ == self@.text());
        label
    }

    /// Whether it is being pressed, or held, when its key is, with these modifiers.
    pub fn is_hit(&self, key: bool, ctrl: bool, shift: bool) -> (hit: bool)
        ensures
            hit == (key && ctrl == self.ctrl && shift == self.shift),
    {
        key && ctrl == self.ctrl && shift == self.shift
    }
}

/// A user-rebindable keyboard action.
#[derive(Clone, Copy, PartialEq, Eq, Structural, Debug)]
pub enum Bind {
    SetStart,
    SetEnd,
    PlayPauseClip,
    PlayPause,
    SkipBack,
    SkipForward,
    StepBack,
    StepForward,
    Undo,
    Redo,
}

/// All actions, in display order: each consecutive pair forms one row of two.
pub open spec fn all_binds() -> Seq<Bind> {
    seq![
        Bind::SetStart,
        Bind::SetEnd,
        Bind::PlayPauseClip,
        Bind::PlayPause,
        Bind::SkipForward,
        Bind::SkipBack,
        Bind::StepForward,
        Bind::StepBack,
        Bind::Undo,
        Bind::Redo,
    ]
}

/// Every action is listed.
proof fn lemma_all_binds(bind: Bind)
    ensures
        all_binds().contains(bind),
{
    let all = all_binds();
    assert(all[0] == Bind::SetStart);
    assert(all[1] == Bind::SetEnd);
    assert(all[2] == Bind::PlayPauseClip);
    assert(all[3] == Bind::PlayPause);
    assert(all[4] == Bind::SkipForward);
    assert(all[5] == Bind::SkipBack);
    assert(all[6] == Bind::StepForward);
    assert(all[7] == Bind::StepBack);
    assert(all[8] == Bind::Undo);
    assert(all[9] == Bind::Redo);
}

impl Bind {
    /// All actions, in display order.
    pub fn all() -> (binds: Vec<Bind>)
        ensures
            binds@ == all_binds(),
    {
        let mut binds: Vec<Bind> = Vec::new();
        binds.push(Bind::SetStart);
        binds.push(Bind::SetEnd);
        binds.push(Bind::PlayPauseClip);
        binds.push(Bind::PlayPause);
        binds.push(Bind::SkipForward);
        binds.push(Bind::SkipBack);
        binds.push(Bind::StepForward);
        binds.push(Bind::StepBack);
        binds.push(Bind::Undo);
        binds.push(Bind::Redo);
        assert(binds@ == all_binds());
        binds
    }

    /// The action as the settings show it.
    pub fn label(self) -> (label: &'static str)
        ensures
            label@ == (match self {
                Bind::SetStart => "Set start"@,
                Bind::SetEnd => "Set end"@,
                Bind::PlayPauseClip => "Play / pause clip"@,
                Bind::PlayPause => "Play / pause"@,
                Bind::SkipBack => "Skip back 5s"@,
                Bind::SkipForward => "Skip forward 5s"@,
                Bind::StepBack => "Step back 1 frame"@,
                Bind::StepForward => "Step forward 1 frame"@,
                Bind::Undo => "Undo"@,
                Bind::Redo => "Redo"@,
            }),
    {
        match self {
            Bind::SetStart => "Set start",
            Bind::SetEnd => "Set end",
            Bind::PlayPauseClip => "Play / pause clip",
            Bind::PlayPause => "Play / pause",
            Bind::SkipBack => "Skip back 5s",
            Bind::SkipForward => "Skip forward 5s",
            Bind::StepBack => "Step back 1 frame",
            Bind::StepForward => "Step forward 1 frame",
            Bind::Undo => "Undo",
            Bind::Redo => "Redo",
        }
    }

    /// The name an action is saved under.
    pub open spec fn id_text(self) -> Seq<char> {
        match self {
            Bind::SetStart => "set_start"@,
            Bind::SetEnd => "set_end"@,
            Bind::PlayPauseClip => "play_pause_clip"@,
            Bind::PlayPause => "play_pause"@,
            Bind::SkipBack => "skip_back"@,
            Bind::SkipForward => "skip_forward"@,
            Bind::StepBack => "step_back"@,
            Bind::StepForward => "step_forward"@,
            Bind::Undo => "undo"@,
            Bind::Redo => "redo"@,
        }
    }

    /// Stable identifier for persistence, decoupled from display order so
    /// reordering or adding actions never misreads an older save.
    pub fn id(self) -> (id: &'static str)
        ensures
            id@ == self.id_text(),
    {
        match self {
            Bind::SetStart => "set_start",
            Bind::SetEnd => "set_end",
            Bind::PlayPauseClip => "play_pause_clip",
            Bind::PlayPause => "play_pause",
            Bind::SkipBack => "skip_back",
            Bind::SkipForward => "skip_forward",
            Bind::StepBack => "step_back",
            Bind::StepForward => "step_forward",
            Bind::Undo => "undo",
            Bind::Redo => "redo",
        }
    }

    /// The action saved under `id`, if there is one.
    pub fn from_id(id: &str) -> (bind: Option<Bind>)
        ensures
            match bind {
                Some(bind) => bind.id_text() == id@,
                None => forall|bind: Bind| #[trigger] bind.id_text() != id@,
            },
    {
        let all = Bind::all();
        let mut i: usize = 0;
        while i < all.len()
            invariant
                i <= all@.len(),
                all@ == all_binds(),
                forall|j: int| 0 <= j < i ==> (#[trigger] all@[j]).id_text() != id@,
            decreases all@.len() - i,
        {
            let bind = all[i];
            if same_text(bind.id(), id) {
                return Some(bind);
            }
            i = i + 1;
        }
        proof {
            assert forall|bind: Bind| #[trigger] bind.id_text() != id@ by {
                lemma_all_binds(bind);
                let j = all_binds().index_of(bind);
                assert(all@[j] == bind);
            }
        }
        None
    }
}

/// No two actions are saved under one name.
pub proof fn law_ids_are_distinct(a: Bind, b: Bind)
    ensures
        a.id_text() == b.id_text() ==> a == b,
{
    reveal_strlit("set_start");
    reveal_strlit("set_end");
    reveal_strlit("play_pause_clip");
    reveal_strlit("play_pause");
    reveal_strlit("skip_back");
    reveal_strlit("skip_forward");
    reveal_strlit("step_back");
    reveal_strlit("step_forward");
    reveal_strlit("undo");
    reveal_strlit("redo");
    assert(a.id_text().len() == b.id_text().len() && a.id_text()[0] == b.id_text()[0]
        && a.id_text()[1] == b.id_text()[1] && a.id_text()[2] == b.id_text()[2] && a.id_text()[3]
        == b.id_text()[3] ==> a == b || a.id_text()[4] != b.id_text()[4] || a.id_text()[5]
        != b.id_text()[5]);
}

/// The configurable shortcuts for the clip and playback actions.
#[derive(Debug)]
pub struct Keybinds {
    pub set_start: Shortcut,
    pub set_end: Shortcut,
    pub play_pause_clip: Shortcut,
    pub play_pause: Shortcut,
    pub skip_back: Shortcut,
    pub skip_forward: Shortcut,
    pub step_back: Shortcut,
    pub step_forward: Shortcut,
    pub undo: Shortcut,
    pub redo: Shortcut,
}

impl View for Keybinds {
    type V = Map<Bind, Combo>;

    open spec fn view(&self) -> Map<Bind, Combo> {
        Map::new(|bind: Bind| true, |bind: Bind| self.on(bind))
    }
}

/// What each action is bound to from the start.
pub open spec fn usual(bind: Bind) -> Combo {
    match bind {
        Bind::SetStart => Combo { key: "S"@, ctrl: false, shift: false },
        Bind::SetEnd => Combo { key: "E"@, ctrl: false, shift: false },
        Bind::PlayPauseClip => Combo { key: "Space"@, ctrl: false, shift: false },
        Bind::PlayPause => Combo { key: "Space"@, ctrl: false, shift: true },
        Bind::SkipBack => Combo { key: "Left"@, ctrl: false, shift: false },
        Bind::SkipForward => Combo { key: "Right"@, ctrl: false, shift: false },
        Bind::StepBack => Combo { key: "Left"@, ctrl: false, shift: true },
        Bind::StepForward => Combo { key: "Right"@, ctrl: false, shift: true },
        Bind::Undo => Combo { key: "Z"@, ctrl: true, shift: false },
        Bind::Redo => Combo { key: "Y"@, ctrl: true, shift: false },
    }
}

/// Every action on what it is bound to from the start.
pub open spec fn usual_binds() -> Map<Bind, Combo> {
    Map::new(|bind: Bind| true, |bind: Bind| usual(bind))
}

/// Whether every action has a shortcut.
pub open spec fn is_total(binds: Map<Bind, Combo>) -> bool {
    forall|bind: Bind| #[trigger] binds.dom().contains(bind)
}

/// Whether every shortcut is of a key by egui's name for it.
pub open spec fn all_keys(binds: Map<Bind, Combo>) -> bool {
    forall|bind: Bind| is_key((#[trigger] binds[bind]).key)
}

/// Whether no two actions share a shortcut.
pub open spec fn all_distinct(binds: Map<Bind, Combo>) -> bool {
    forall|a: Bind, b: Bind| a != b ==> #[trigger] binds[a] != #[trigger] binds[b]
}

/// With `bind` on `combo`, and whatever was on it on what `bind` was.
pub open spec fn rebound(binds: Map<Bind, Combo>, bind: Bind, combo: Combo) -> Map<Bind, Combo> {
    Map::new(
        |b: Bind| true,
        |b: Bind|
            if b == bind {
                combo
            } else if binds[b] == combo {
                binds[bind]
            } else {
                binds[b]
            },
    )
}

/// A key that is bound from the start, as egui gives it.
fn usual_key(name: &str) -> (key: String)
    requires
        is_usual_key(name@),
    ensures
        key@ == name@,
        is_key(key@),
{
    match key_from_name(name) {
        Some(key) => key,
        None => name.to_owned(),
    }
}

impl Keybinds {
    /// What an action is bound to.
    pub open spec fn on(self, bind: Bind) -> Combo {
        match bind {
            Bind::SetStart => self.set_start@,
            Bind::SetEnd => self.set_end@,
            Bind::PlayPauseClip => self.play_pause_clip@,
            Bind::PlayPause => self.play_pause@,
            Bind::SkipBack => self.skip_back@,
            Bind::SkipForward => self.skip_forward@,
            Bind::StepBack => self.step_back@,
            Bind::StepForward => self.step_forward@,
            Bind::Undo => self.undo@,
            Bind::Redo => self.redo@,
        }
    }

    /// Every action on what it is bound to from the start.
    pub fn new() -> (binds: Keybinds)
        ensures
            binds@ == usual_binds(),
            all_keys(binds@),
    {
        let binds = Keybinds {
            set_start: Shortcut { key: usual_key("S"), ctrl: false, shift: false },
            set_end: Shortcut { key: usual_key("E"), ctrl: false, shift: false },
            play_pause_clip: Shortcut { key: usual_key("Space"), ctrl: false, shift: false },
            play_pause: Shortcut { key: usual_key("Space"), ctrl: false, shift: true },
            skip_back: Shortcut { key: usual_key("Left"), ctrl: false, shift: false },
            skip_forward: Shortcut { key: usual_key("Right"), ctrl: false, shift: false },
            step_back: Shortcut { key: usual_key("Left"), ctrl: false, shift: true },
            step_forward: Shortcut { key: usual_key("Right"), ctrl: false, shift: true },
            undo: Shortcut { key: usual_key("Z"), ctrl: true, shift: false },
            redo: Shortcut { key: usual_key("Y"), ctrl: true, shift: false },
        };
        assert(binds@ == usual_binds());
        binds
    }

    /// What an action is bound to.
    pub fn shortcut(&self, bind: Bind) -> (shortcut: &Shortcut)
        ensures
            shortcut@ == self@[bind],
    {
        match bind {
            Bind::SetStart => &self.set_start,
            Bind::SetEnd => &self.set_end,
            Bind::PlayPauseClip => &self.play_pause_clip,
            Bind::PlayPause => &self.play_pause,
            Bind::SkipBack => &self.skip_back,
            Bind::SkipForward => &self.skip_forward,
            Bind::StepBack => &self.step_back,
            Bind::StepForward => &self.step_forward,
            Bind::Undo => &self.undo,
            Bind::Redo => &self.redo,
        }
    }

    /// Binds an action, whatever else is on the shortcut.
    pub fn put(&mut self, bind: Bind, sc: Shortcut)
        ensures
            final(self)@ == old(self)@.insert(bind, sc@),
    {
        match bind {
            Bind::SetStart => self.set_start = sc,
            Bind::SetEnd => self.set_end = sc,
            Bind::PlayPauseClip => self.play_pause_clip = sc,
            Bind::PlayPause => self.play_pause = sc,
            Bind::SkipBack => self.skip_back = sc,
            Bind::SkipForward => self.skip_forward = sc,
            Bind::StepBack => self.step_back = sc,
            Bind::StepForward => self.step_forward = sc,
            Bind::Undo => self.undo = sc,
            Bind::Redo => self.redo = sc,
        }
        assert(self@ == old(self)@.insert(bind, sc@));
    }

    /// Bind `sc` to `bind`. If another action already uses `sc`, swap so it takes
    /// `bind`'s old shortcut — keeping every action on a distinct shortcut.
    pub fn rebind(&mut self, bind: Bind, sc: Shortcut)
        ensures
            final(self)@ == rebound(old(self)@, bind, sc@),
    {
        let before = self.shortcut(bind).copied();
        let all = Bind::all();
        let mut i: usize = 0;
        while i < all.len()
            invariant
                i <= all@.len(),
                all@ == all_binds(),
                before@ == old(self)@[bind],
                is_total(self@),
                forall|j: int|
                    i <= j < all@.len() ==> self@[#[trigger] all@[j]] == old(self)@[all@[j]],
                forall|j: int|
                    0 <= j < i && all@[j] != bind ==> self@[#[trigger] all@[j]] == (
                    if old(self)@[all@[j]] == sc@ {
                        before@
                    } else {
                        old(self)@[all@[j]]
                    }),
            decreases all@.len() - i,
        {
            let other = all[i];
            if other != bind && self.shortcut(other).same(&sc) {
                self.put(other, before.copied());
            }
            i = i + 1;
        }
        let ghost swapped = self@;
        let ghost combo = sc@;
        self.put(bind, sc);
        proof {
            assert forall|b: Bind| #[trigger] self@[b] == rebound(old(self)@, bind, combo)[b] by {
                lemma_all_binds(b);
                let j = all_binds().index_of(b);
                assert(all@[j] == b);
            }
            assert(self@ == rebound(old(self)@, bind, combo));
        }
    }

    /// Takes the key pressed while an action waits for its new shortcut: Escape
    /// leaves the action as it is.
    pub fn capture(&mut self, bind: Bind, pressed: Shortcut)
        ensures
            final(self)@ == (if pressed.key@ == "Escape"@ {
                old(self)@
            } else {
                rebound(old(self)@, bind, pressed@)
            }),
    {
        if !same_text(pressed.key.as_str(), "Escape") {
            self.rebind(bind, pressed);
        }
    }
}

/// Rebinding an action puts it on the new shortcut and keeps every action on a
/// shortcut of its own.
pub proof fn law_rebinding_keeps_shortcuts_distinct(
    binds: Map<Bind, Combo>,
    bind: Bind,
    combo: Combo,
)
    requires
        is_total(binds),
        all_distinct(binds),
    ensures
        rebound(binds, bind, combo)[bind] == combo,
        all_distinct(rebound(binds, bind, combo)),
{
}

/// The shortcuts bound from the start are distinct.
pub proof fn law_usual_shortcuts_are_distinct()
    ensures
        all_distinct(usual_binds()),
{
    reveal_strlit("S");
    reveal_strlit("E");
    reveal_strlit("Space");
    reveal_strlit("Left");
    reveal_strlit("Right");
    reveal_strlit("Z");
    reveal_strlit("Y");
    assert forall|a: Bind, b: Bind| a != b implies #[trigger] usual_binds()[a]
        != #[trigger] usual_binds()[b] by {
        let x = usual(a);
        let y = usual(b);
        if x == y {
            assert(x.key.len() == y.key.len());
            assert(x.key[0] == y.key[0]);
        }
    }
}

/// One saved shortcut: the action's id, the key's name, and the modifiers.
#[derive(Debug)]
pub struct SavedBind {
    pub id: String,
    pub name: String,
    pub ctrl: bool,
    pub shift: bool,
}

/// What is stored: shortcuts as they are saved now, as they were saved before they
/// had Ctrl, or nothing that can be read.
#[derive(Debug)]
pub enum Stored {
    Binds(Vec<SavedBind>),
    CtrlLess(Vec<(String, String, bool)>),
    Nothing,
}

/// A saved shortcut's fields.
pub struct SavedText {
    pub id: Seq<char>,
    pub name: Seq<char>,
    pub ctrl: bool,
    pub shift: bool,
}

impl View for SavedBind {
    type V = SavedText;

    open spec fn view(&self) -> SavedText {
        SavedText { id: self.id@, name: self.name@, ctrl: self.ctrl, shift: self.shift }
    }
}

/// The saved fields of a list of shortcuts.
pub open spec fn saved_texts(saved: Seq<SavedBind>) -> Seq<SavedText> {
    saved.map_values(|s: SavedBind| s@)
}

/// The saved fields of a list of shortcuts from before they had Ctrl.
pub open spec fn ctrl_less_texts(saved: Seq<(String, String, bool)>) -> Seq<SavedText> {
    saved.map_values(
        |s: (String, String, bool)|
            SavedText { id: s.0@, name: s.1@, ctrl: false, shift: s.2 },
    )
}

/// With one saved shortcut applied, if its action and its key are known.
pub open spec fn applied(binds: Map<Bind, Combo>, saved: SavedText) -> Map<Bind, Combo> {
    match key_named(saved.name) {
        Some(key) => if exists|bind: Bind| #[trigger] bind.id_text() == saved.id {
            binds.insert(
                choose|bind: Bind| #[trigger] bind.id_text() == saved.id,
                Combo { key, ctrl: saved.ctrl, shift: saved.shift },
            )
        } else {
            binds
        },
        None => binds,
    }
}

/// With each saved shortcut applied in turn.
pub open spec fn applied_all(binds: Map<Bind, Combo>, saved: Seq<SavedText>) -> Map<Bind, Combo>
    decreases saved.len(),
{
    if saved.len() == 0 {
        binds
    } else {
        applied(applied_all(binds, saved.drop_last()), saved.last())
    }
}

/// What is saved of the shortcuts, in display order.
pub open spec fn saved_of(binds: Map<Bind, Combo>) -> Seq<SavedText> {
    all_binds().map_values(
        |bind: Bind|
            SavedText {
                id: bind.id_text(),
                name: binds[bind].key,
                ctrl: binds[bind].ctrl,
                shift: binds[bind].shift,
            },
    )
}

impl Keybinds {
    fn apply_saved(&mut self, id: &str, name: &str, ctrl: bool, shift: bool)
        ensures
            final(self)@ == applied(old(self)@, SavedText { id: id@, name: name@, ctrl, shift }),
            all_keys(old(self)@) ==> all_keys(final(self)@),
    {
        if let Some(bind) = Bind::from_id(id) {
            if let Some(key) = key_from_name(name) {
                proof {
                    let chosen = choose|bind: Bind| #[trigger] bind.id_text() == id@;
                    assert(bind.id_text() == id@);
                    law_ids_are_distinct(bind, chosen);
                }
                self.put(bind, Shortcut { key, ctrl, shift });
            }
        }
    }

    /// The shortcuts that were stored. Each is kept under a stable id, so reordering
    /// or adding actions can't misread a save; unknown ids and keys are passed
    /// over, and absent actions keep what they are bound to from the start.
    pub fn load(stored: &Stored) -> (binds: Keybinds)
        ensures
            binds@ == (match *stored {
                Stored::Binds(saved) => applied_all(usual_binds(), saved_texts(saved@)),
                Stored::CtrlLess(saved) => applied_all(usual_binds(), ctrl_less_texts(saved@)),
                Stored::Nothing => usual_binds(),
            }),
            all_keys(binds@),
    {
        let mut binds = Keybinds::new();
        match stored {
            Stored::Binds(saved) => {
                let ghost texts = saved_texts(saved@);
                let mut i: usize = 0;
                assert(texts.take(0) == Seq::<SavedText>::empty());
                while i < saved.len()
                    invariant
                        i <= saved@.len(),
                        texts == saved_texts(saved@),
                        binds@ == applied_all(usual_binds(), texts.take(i as int)),
                        all_keys(binds@),
                    decreases saved@.len() - i,
                {
                    let s = &saved[i];
                    proof {
                        assert(texts.take(i + 1).drop_last() == texts.take(i as int));
                        assert(texts.take(i + 1).last() == s@);
                    }
                    binds.apply_saved(s.id.as_str(), s.name.as_str(), s.ctrl, s.shift);
                    i = i + 1;
                }
                assert(texts.take(texts.len() as int) == texts);
            },
            Stored::CtrlLess(saved) => {
                let ghost texts = ctrl_less_texts(saved@);
                let mut i: usize = 0;
                assert(texts.take(0) == Seq::<SavedText>::empty());
                while i < saved.len()
                    invariant
                        i <= saved@.len(),
                        texts == ctrl_less_texts(saved@),
                        binds@ == applied_all(usual_binds(), texts.take(i as int)),
                        all_keys(binds@),
                    decreases saved@.len() - i,
                {
                    let s = &saved[i];
                    proof {
                        assert(texts.take(i + 1).drop_last() == texts.take(i as int));
                    }
                    binds.apply_saved(s.0.as_str(), s.1.as_str(), false, s.2);
                    i = i + 1;
                }
                assert(texts.take(texts.len() as int) == texts);
            },
            Stored::Nothing => {},
        }
        binds
    }

    /// What to store of the shortcuts.
    pub fn save(&self) -> (saved: Vec<SavedBind>)
        ensures
            saved_texts(saved@) == saved_of(self@),
    {
        let all = Bind::all();
        let mut saved: Vec<SavedBind> = Vec::new();
        let mut i: usize = 0;
        while i < all.len()
            invariant
                i <= all@.len(),
                all@ == all_binds(),
                saved@.len() == i,
                forall|j: int| 0 <= j < i ==> (#[trigger] saved@[j])@ == saved_of(self@)[j],
            decreases all@.len() - i,
        {
            let bind = all[i];
            let sc = self.shortcut(bind);
            saved.push(
                SavedBind {
                    id: bind.id().to_owned(),
                    name: sc.key.clone(),
                    ctrl: sc.ctrl,
                    shift: sc.shift,
                },
            );
            i = i + 1;
        }
        assert(saved_texts(saved@) == saved_of(self@));
        saved
    }
}

/// Applying what is saved of the first `n` actions puts those where they were.
proof fn lemma_applied_saved(binds: Map<Bind, Combo>, start: Map<Bind, Combo>, n: int)
    requires
        is_total(binds),
        is_total(start),
        all_keys(binds),
        0 <= n <= all_binds().len(),
    ensures
        ({
            let after = applied_all(start, saved_of(binds).take(n));
            &&& is_total(after)
            &&& forall|j: int|
                0 <= j < n ==> after[#[trigger] all_binds()[j]] == binds[all_binds()[j]]
        }),
    decreases n,
{
    let saved = saved_of(binds);
    if n > 0 {
        lemma_applied_saved(binds, start, n - 1);
        assert(saved.take(n).drop_last() == saved.take(n - 1));
        let last = saved.take(n).last();
        let bind = all_binds()[n - 1];
        assert(last == saved[n - 1]);
        assert(bind.id_text() == last.id);
        let chosen = choose|b: Bind| #[trigger] b.id_text() == last.id;
        law_ids_are_distinct(bind, chosen);
        assert(is_key(binds[bind].key));
    } else {
        assert(saved.take(0) == Seq::<SavedText>::empty());
    }
}

/// Shortcuts that were saved come back as they were, whatever the actions are bound
/// to from the start.
pub proof fn law_saved_shortcuts_come_back(binds: Map<Bind, Combo>)
    ensures
        is_total(binds) && all_keys(binds) ==> applied_all(usual_binds(), saved_of(binds)) == binds,
{
    if is_total(binds) && all_keys(binds) {
        let n = all_binds().len() as int;
        lemma_applied_saved(binds, usual_binds(), n);
        assert(saved_of(binds).take(n) == saved_of(binds));
        let after = applied_all(usual_binds(), saved_of(binds));
        assert forall|bind: Bind| #[trigger] after[bind] == binds[bind] by {
            lemma_all_binds(bind);
            let j = all_binds().index_of(bind);
            assert(all_binds()[j] == bind);
        }
        assert(after == binds);
    }
}

/// Rebinding touches two actions at most: the one that is bound, and the one that was
/// on the shortcut, which takes over what the first had.
pub proof fn law_rebinding_swaps(
    binds: Map<Bind, Combo>,
    bind: Bind,
    combo: Combo,
    other: Bind,
)
    requires
        other != bind,
    ensures
        rebound(binds, bind, combo)[bind] == combo,
        binds[other] == combo ==> rebound(binds, bind, combo)[other] == binds[bind],
        binds[other] != combo ==> rebound(binds, bind, combo)[other] == binds[other],
        is_total(rebound(binds, bind, combo)),
{
}

/// A saved shortcut goes to the action it was saved for and to no other; one with a
/// name or a key that is not known changes nothing.
pub proof fn law_saved_shortcut_goes_to_its_action(
    binds: Map<Bind, Combo>,
    saved: SavedText,
    bind: Bind,
)
    ensures
        bind.id_text() == saved.id && key_named(saved.name) is Some ==> applied(binds, saved)[bind]
            == (Combo { key: key_named(saved.name)->0, ctrl: saved.ctrl, shift: saved.shift }),
        bind.id_text() != saved.id ==> applied(binds, saved)[bind] == binds[bind],
        key_named(saved.name) is None ==> applied(binds, saved) == binds,
        (forall|b: Bind| #[trigger] b.id_text() != saved.id) ==> applied(binds, saved) == binds,
{
    if bind.id_text() == saved.id {
        let chosen = choose|b: Bind| #[trigger] b.id_text() == saved.id;
        law_ids_are_distinct(bind, chosen);
    }
}

/// A shortcut saved before there was Ctrl comes without it and is otherwise what it
/// was.
pub proof fn law_older_shortcuts_have_no_ctrl(saved: Seq<(String, String, bool)>, i: int)
    requires
        0 <= i < saved.len(),
    ensures
        ctrl_less_texts(saved).len() == saved.len(),
        ctrl_less_texts(saved)[i] == (SavedText {
            id: saved[i].0@,
            name: saved[i].1@,
            ctrl: false,
            shift: saved[i].2,
        }),
{
}

/// From the start Shift turns playing the clip into playing the video and a skip into a
/// step, back is left and forward is right, and Ctrl is for undo and redo alone.
pub proof fn law_usual_shortcuts_go_together(bind: Bind)
    ensures
        usual(Bind::PlayPause) == (Combo { shift: true, ..usual(Bind::PlayPauseClip) }),
        usual(Bind::StepBack) == (Combo { shift: true, ..usual(Bind::SkipBack) }),
        usual(Bind::StepForward) == (Combo { shift: true, ..usual(Bind::SkipForward) }),
        usual(Bind::SkipBack).key == "Left"@ && usual(Bind::SkipForward).key == "Right"@,
        usual(Bind::SetStart).key == "S"@ && usual(Bind::SetEnd).key == "E"@,
        usual(Bind::PlayPauseClip).key == "Space"@,
        usual(Bind::Undo).key == "Z"@ && usual(Bind::Redo).key == "Y"@,
        usual(bind).ctrl <==> bind is Undo || bind is Redo,
        usual(bind).shift <==> bind is PlayPause || bind is StepBack || bind is StepForward,
{
}

/// A shortcut reads as its key with the modifiers before it, Ctrl first.
pub proof fn law_modifiers_come_first(combo: Combo)
    ensures
        (Combo { ctrl: false, shift: false, ..combo }).text() == combo.key,
        (Combo { ctrl: false, shift: true, ..combo }).text() == "Shift+"@ + combo.key,
        (Combo { ctrl: true, ..combo }).text() == "Ctrl+"@ + (Combo { ctrl: false, ..combo }).text(),
{
    reveal_strlit("");
    let c = combo;
    assert((Combo { ctrl: false, shift: false, ..c }).text() =~= c.key);
    assert((Combo { ctrl: false, shift: true, ..c }).text() =~= "Shift+"@ + c.key);
    assert((Combo { ctrl: true, ..c }).text() =~= "Ctrl+"@ + (Combo { ctrl: false, ..c }).text());
}

/// Each action's shortcut is the one kept under its name.
pub proof fn law_actions_have_their_own_shortcut(binds: Keybinds)
    ensures
        is_total(binds@),
        binds@[Bind::SetStart] == binds.set_start@ && binds@[Bind::SetEnd] == binds.set_end@,
        binds@[Bind::PlayPauseClip] == binds.play_pause_clip@,
        binds@[Bind::PlayPause] == binds.play_pause@,
        binds@[Bind::SkipBack] == binds.skip_back@ && binds@[Bind::SkipForward]
            == binds.skip_forward@,
        binds@[Bind::StepBack] == binds.step_back@ && binds@[Bind::StepForward]
            == binds.step_forward@,
        binds@[Bind::Undo] == binds.undo@ && binds@[Bind::Redo] == binds.redo@,
{
}

/// The names that actions are saved under never change, so that older saves can be read;
/// every action is listed once.
pub proof fn law_ids_are_stable()
    ensures
        Bind::SetStart.id_text() == "set_start"@ && Bind::SetEnd.id_text() == "set_end"@,
        Bind::PlayPauseClip.id_text() == "play_pause_clip"@,
        Bind::PlayPause.id_text() == "play_pause"@,
        Bind::SkipBack.id_text() == "skip_back"@ && Bind::SkipForward.id_text() == "skip_forward"@,
        Bind::StepBack.id_text() == "step_back"@ && Bind::StepForward.id_text() == "step_forward"@,
        Bind::Undo.id_text() == "undo"@ && Bind::Redo.id_text() == "redo"@,
        forall|bind: Bind| #[trigger] all_binds().contains(bind),
        all_binds().no_duplicates(),
{
    assert forall|bind: Bind| #[trigger] all_binds().contains(bind) by {
        lemma_all_binds(bind);
    }
}

} // verus!
