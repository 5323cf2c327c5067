//! The game's top-level states and the rules tied to them: which music
//! plays in each state, the sound effects, and the keyboard bindings of the
//! input actions.

use vstd::prelude::*;

verus! {

/// The top-level state of the game.
#[derive(Clone, Copy, Debug, PartialEq, Eq, Structural)]
pub enum GameState {
    Loading,
    TitleScreen,
    Town,
    Dungeon,
    Combat,
    GameOver,
}

/// The phase of a combat round.
#[derive(Clone, Copy, Debug, PartialEq, Eq, Structural)]
pub enum CombatPhase {
    PlayerInput,
    ExecuteActions,
    TurnResult,
    Victory,
}

/// A music track.
#[derive(Clone, Copy, Debug, PartialEq, Eq, Structural)]
pub enum BgmTrack {
    Title,
    Town,
    Dungeon,
    Combat,
    GameOver,
}

/// The music of a state; none while loading.
pub fn bgm_for_state(s: GameState) -> (r: Option<BgmTrack>)
    ensures
        r == match s {
            GameState::Loading => None,
            GameState::TitleScreen => Some(BgmTrack::Title),
            GameState::Town => Some(BgmTrack::Town),
            GameState::Dungeon => Some(BgmTrack::Dungeon),
            GameState::Combat => Some(BgmTrack::Combat),
            GameState::GameOver => Some(BgmTrack::GameOver),
        },
{
    match s {
        GameState::Loading => None,
        GameState::TitleScreen => Some(BgmTrack::Title),
        GameState::Town => Some(BgmTrack::Town),
        GameState::Dungeon => Some(BgmTrack::Dungeon),
        GameState::Combat => Some(BgmTrack::Combat),
        GameState::GameOver => Some(BgmTrack::GameOver),
    }
}

/// A sound effect.
#[derive(Clone, Copy, Debug, PartialEq, Eq, Structural)]
pub enum SfxKind {
    Footstep,
    Door,
    DoorClose,
    EncounterSting,
    MenuClick,
    AttackHit,
    SpinnerWhoosh,
}

/// Menu navigation actions.
#[derive(Clone, Copy, Debug, PartialEq, Eq, Structural)]
pub enum MenuAction {
    Up,
    Down,
    Left,
    Right,
    Confirm,
    Cancel,
    Pause,
    Recruit,
    Dismiss,
    RowSwap,
    SlotSwap,
    PrevTarget,
    NextTarget,
}

/// Dungeon exploration actions.
#[derive(Clone, Copy, Debug, PartialEq, Eq, Structural)]
pub enum DungeonAction {
    MoveForward,
    MoveBackward,
    StrafeLeft,
    StrafeRight,
    TurnLeft,
    TurnRight,
    Interact,
    OpenMap,
    OpenInventory,
    Pause,
}

/// Combat menu actions.
#[derive(Clone, Copy, Debug, PartialEq, Eq, Structural)]
pub enum CombatAction {
    Up,
    Down,
    Left,
    Right,
    Confirm,
    Cancel,
}

/// A key by its position on a US layout.
#[derive(Clone, Copy, Debug, PartialEq, Eq, Structural)]
pub enum PhysicalKey {
    KeyW,
    KeyA,
    KeyS,
    KeyD,
    KeyQ,
    KeyE,
    KeyF,
    KeyM,
    KeyR,
    KeyG,
    KeyT,
    ArrowUp,
    ArrowDown,
    ArrowLeft,
    ArrowRight,
    Enter,
    Space,
    Escape,
    Tab,
    BracketLeft,
    BracketRight,
}

/// The default bindings of the menu actions.
pub fn default_menu_bindings() -> (r: Vec<(MenuAction, PhysicalKey)>)
    ensures
        r@ == seq![
            (MenuAction::Up, PhysicalKey::ArrowUp),
            (MenuAction::Up, PhysicalKey::KeyW),
            (MenuAction::Down, PhysicalKey::ArrowDown),
            (MenuAction::Down, PhysicalKey::KeyS),
            (MenuAction::Left, PhysicalKey::ArrowLeft),
            (MenuAction::Left, PhysicalKey::KeyA),
            (MenuAction::Right, PhysicalKey::ArrowRight),
            (MenuAction::Right, PhysicalKey::KeyD),
            (MenuAction::Confirm, PhysicalKey::Enter),
            (MenuAction::Confirm, PhysicalKey::Space),
            (MenuAction::Cancel, PhysicalKey::Escape),
            (MenuAction::Pause, PhysicalKey::Escape),
            (MenuAction::Recruit, PhysicalKey::KeyR),
            (MenuAction::Dismiss, PhysicalKey::KeyG),
            (MenuAction::RowSwap, PhysicalKey::KeyF),
            (MenuAction::SlotSwap, PhysicalKey::KeyT),
            (MenuAction::PrevTarget, PhysicalKey::BracketLeft),
            (MenuAction::NextTarget, PhysicalKey::BracketRight),
        ],
{
    let mut v = Vec::new();
    v.push((MenuAction::Up, PhysicalKey::ArrowUp));
    v.push((MenuAction::Up, PhysicalKey::KeyW));
    v.push((MenuAction::Down, PhysicalKey::ArrowDown));
    v.push((MenuAction::Down, PhysicalKey::KeyS));
    v.push((MenuAction::Left, PhysicalKey::ArrowLeft));
    v.push((MenuAction::Left, PhysicalKey::KeyA));
    v.push((MenuAction::Right, PhysicalKey::ArrowRight));
    v.push((MenuAction::Right, PhysicalKey::KeyD));
    v.push((MenuAction::Confirm, PhysicalKey::Enter));
    v.push((MenuAction::Confirm, PhysicalKey::Space));
    v.push((MenuAction::Cancel, PhysicalKey::Escape));
    v.push((MenuAction::Pause, PhysicalKey::Escape));
    v.push((MenuAction::Recruit, PhysicalKey::KeyR));
    v.push((MenuAction::Dismiss, PhysicalKey::KeyG));
    v.push((MenuAction::RowSwap, PhysicalKey::KeyF));
    v.push((MenuAction::SlotSwap, PhysicalKey::KeyT));
    v.push((MenuAction::PrevTarget, PhysicalKey::BracketLeft));
    v.push((MenuAction::NextTarget, PhysicalKey::BracketRight));
    v
}

/// The default bindings of the dungeon actions: WASD and the arrows move
/// and strafe, Q/E turn, F interacts, M the map, Tab the inventory.
pub fn default_dungeon_bindings() -> (r: Vec<(DungeonAction, PhysicalKey)>)
    ensures
        r@ == seq![
            (DungeonAction::MoveForward, PhysicalKey::KeyW),
            (DungeonAction::MoveForward, PhysicalKey::ArrowUp),
            (DungeonAction::MoveBackward, PhysicalKey::KeyS),
            (DungeonAction::MoveBackward, PhysicalKey::ArrowDown),
            (DungeonAction::StrafeLeft, PhysicalKey::KeyA),
            (DungeonAction::StrafeLeft, PhysicalKey::ArrowLeft),
            (DungeonAction::StrafeRight, PhysicalKey::KeyD),
            (DungeonAction::StrafeRight, PhysicalKey::ArrowRight),
            (DungeonAction::TurnLeft, PhysicalKey::KeyQ),
            (DungeonAction::TurnRight, PhysicalKey::KeyE),
            (DungeonAction::Interact, PhysicalKey::KeyF),
            (DungeonAction::OpenMap, PhysicalKey::KeyM),
            (DungeonAction::OpenInventory, PhysicalKey::Tab),
            (DungeonAction::Pause, PhysicalKey::Escape),
        ],
{
    let mut v = Vec::new();
    v.push((DungeonAction::MoveForward, PhysicalKey::KeyW));
    v.push((DungeonAction::MoveForward, PhysicalKey::ArrowUp));
    v.push((DungeonAction::MoveBackward, PhysicalKey::KeyS));
    v.push((DungeonAction::MoveBackward, PhysicalKey::ArrowDown));
    v.push((DungeonAction::StrafeLeft, PhysicalKey::KeyA));
    v.push((DungeonAction::StrafeLeft, PhysicalKey::ArrowLeft));
    v.push((DungeonAction::StrafeRight, PhysicalKey::KeyD));
    v.push((DungeonAction::StrafeRight, PhysicalKey::ArrowRight));
    v.push((DungeonAction::TurnLeft, PhysicalKey::KeyQ));
    v.push((DungeonAction::TurnRight, PhysicalKey::KeyE));
    v.push((DungeonAction::Interact, PhysicalKey::KeyF));
    v.push((DungeonAction::OpenMap, PhysicalKey::KeyM));
    v.push((DungeonAction::OpenInventory, PhysicalKey::Tab));
    v.push((DungeonAction::Pause, PhysicalKey::Escape));
    v
}

/// The default bindings of the combat actions.
pub fn default_combat_bindings() -> (r: Vec<(CombatAction, PhysicalKey)>)
    ensures
        r@ == seq![
            (CombatAction::Up, PhysicalKey::ArrowUp),
            (CombatAction::Up, PhysicalKey::KeyW),
            (CombatAction::Down, PhysicalKey::ArrowDown),
            (CombatAction::Down, PhysicalKey::KeyS),
            (CombatAction::Left, PhysicalKey::ArrowLeft),
            (CombatAction::Left, PhysicalKey::KeyA),
            (CombatAction::Right, PhysicalKey::ArrowRight),
            (CombatAction::Right, PhysicalKey::KeyD),
            (CombatAction::Confirm, PhysicalKey::Enter),
            (CombatAction::Confirm, PhysicalKey::Space),
            (CombatAction::Cancel, PhysicalKey::Escape),
        ],
{
    let mut v = Vec::new();
    v.push((CombatAction::Up, PhysicalKey::ArrowUp));
    v.push((CombatAction::Up, PhysicalKey::KeyW));
    v.push((CombatAction::Down, PhysicalKey::ArrowDown));
    v.push((CombatAction::Down, PhysicalKey::KeyS));
    v.push((CombatAction::Left, PhysicalKey::ArrowLeft));
    v.push((CombatAction::Left, PhysicalKey::KeyA));
    v.push((CombatAction::Right, PhysicalKey::ArrowRight));
    v.push((CombatAction::Right, PhysicalKey::KeyD));
    v.push((CombatAction::Confirm, PhysicalKey::Enter));
    v.push((CombatAction::Confirm, PhysicalKey::Space));
    v.push((CombatAction::Cancel, PhysicalKey::Escape));
    v
}

/// The actions a typed character (as the keyboard layout produces it, in
/// lower case) presses, so that letters work on any layout: dungeon
/// letters M, Q, E; WASD for both the dungeon and the menu cursor; F for
/// interact and row swap; R, G, T and the brackets for the town verbs.
pub open spec fn logical_key_actions(c: char) -> (Seq<DungeonAction>, Seq<MenuAction>) {
    if c == 'm' {
        (seq![DungeonAction::OpenMap], Seq::empty())
    } else if c == 'q' {
        (seq![DungeonAction::TurnLeft], Seq::empty())
    } else if c == 'e' {
        (seq![DungeonAction::TurnRight], Seq::empty())
    } else if c == 'w' {
        (seq![DungeonAction::MoveForward], seq![MenuAction::Up])
    } else if c == 'a' {
        (seq![DungeonAction::StrafeLeft], seq![MenuAction::Left])
    } else if c == 's' {
        (seq![DungeonAction::MoveBackward], seq![MenuAction::Down])
    } else if c == 'd' {
        (seq![DungeonAction::StrafeRight], seq![MenuAction::Right])
    } else if c == 'f' {
        (seq![DungeonAction::Interact], seq![MenuAction::RowSwap])
    } else if c == 'r' {
        (Seq::empty(), seq![MenuAction::Recruit])
    } else if c == 'g' {
        (Seq::empty(), seq![MenuAction::Dismiss])
    } else if c == 't' {
        (Seq::empty(), seq![MenuAction::SlotSwap])
    } else if c == '[' {
        (Seq::empty(), seq![MenuAction::PrevTarget])
    } else if c == ']' {
        (Seq::empty(), seq![MenuAction::NextTarget])
    } else {
        (Seq::empty(), Seq::empty())
    }
}

/// The ASCII lower case of a character.
pub open spec fn ascii_lower(c: char) -> char {
    if 'A' <= c <= 'Z' { ((c as u32) + 32) as char } else { c }
}


/// Letters are read without regard to case: an upper-case letter presses
/// what its lower-case letter presses; other characters are read as they
/// are.
pub proof fn lemma_key_case_rules(c: char)
    ensures
        'A' <= c <= 'Z' ==> 'a' <= ascii_lower(c) <= 'z' && ascii_lower(c) as u32 == c as u32 + 32,
        !('A' <= c <= 'Z') ==> ascii_lower(c) == c,
        ascii_lower(ascii_lower(c)) == ascii_lower(c),
        ascii_lower('W') == 'w' && ascii_lower('A') == 'a' && ascii_lower('S') == 's'
            && ascii_lower('D') == 'd',
{
}

/// The actions pressed (or released) by the logical key `text`: a single
/// character, read case-insensitively (see `logical_key_actions`); any
/// other text presses nothing.
pub fn apply_logical_key_bindings(text: &str) -> (r: (Vec<DungeonAction>, Vec<MenuAction>))
    ensures
        text@.len() == 1 ==> r.0@ == logical_key_actions(ascii_lower(text@[0])).0 && r.1@
            == logical_key_actions(ascii_lower(text@[0])).1,
        text@.len() != 1 ==> r.0@.len() == 0 && r.1@.len() == 0,
{
    let mut d: Vec<DungeonAction> = Vec::new();
    let mut m: Vec<MenuAction> = Vec::new();
    if text.unicode_len() != 1 {
        return (d, m);
    }
    let c0 = text.get_char(0);
    let c = if 'A' <= c0 && c0 <= 'Z' { ((c0 as u32) + 32) as u8 as char } else { c0 };
    proof {
        if 'A' <= c0 <= 'Z' {
            assert(((c0 as u32) + 32) as u8 as char == ((c0 as u32) + 32) as char);
        }
    }
    if c == 'm' {
        d.push(DungeonAction::OpenMap);
    } else if c == 'q' {
        d.push(DungeonAction::TurnLeft);
    } else if c == 'e' {
        d.push(DungeonAction::TurnRight);
    } else if c == 'w' {
        d.push(DungeonAction::MoveForward);
        m.push(MenuAction::Up);
    } else if c == 'a' {
        d.push(DungeonAction::StrafeLeft);
        m.push(MenuAction::Left);
    } else if c == 's' {
        d.push(DungeonAction::MoveBackward);
        m.push(MenuAction::Down);
    } else if c == 'd' {
        d.push(DungeonAction::StrafeRight);
        m.push(MenuAction::Right);
    } else if c == 'f' {
        d.push(DungeonAction::Interact);
        m.push(MenuAction::RowSwap);
    } else if c == 'r' {
        m.push(MenuAction::Recruit);
    } else if c == 'g' {
        m.push(MenuAction::Dismiss);
    } else if c == 't' {
        m.push(MenuAction::SlotSwap);
    } else if c == '[' {
        m.push(MenuAction::PrevTarget);
    } else if c == ']' {
        m.push(MenuAction::NextTarget);
    }
    (d, m)
}

} // verus!
