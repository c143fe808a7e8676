//! The menus: which one is open, which button is selected, and what a
//! pressed button asks for.

use vstd::prelude::*;
use vstd::arithmetic::div_mod::{lemma_fundamental_div_mod, lemma_fundamental_div_mod_converse};

verus! {

/// The menus of the game.
#[derive(Clone, Copy, Debug, PartialEq, Eq, Structural)]
pub enum MenuKind {
    /// The menu that the game starts with.
    Start,
    /// The menu that opens in the hub.
    Hub,
    /// The menu that opens in a level.
    Level,
}

/// The buttons of the menus.
#[derive(Clone, Copy, Debug, PartialEq, Eq, Structural)]
pub enum MenuButtonKind {
    Start,
    Continue,
    Restart,
    RestartLevel,
    BackToHub,
    Editor,
    OtherGames,
    Quit,
}

/// What a pressed button asks the game to do.
#[derive(Clone, Copy, Debug, PartialEq, Eq, Structural)]
pub enum MenuAction {
    /// Show the way into the hub.
    Intro,
    /// Go on with the game.
    Resume,
    /// Load the current level anew.
    ReloadLevel,
    /// Load the hub.
    LoadHub,
    /// Open or close the level editor.
    ToggleEditor,
    /// Nothing.
    Stay,
    /// End the game.
    Quit,
}

/// What the player does to a menu with the keyboard.
#[derive(Clone, Copy, Debug, PartialEq, Eq, Structural)]
pub enum MenuKey {
    Up,
    Down,
    Confirm,
    Close,
}

/// What the pointer does to a button.
#[derive(Clone, Copy, Debug, PartialEq, Eq, Structural)]
pub enum Interaction {
    Pressed,
    Hovered,
    Away,
}

impl MenuButtonKind {
    /// The buttons of the menu `menu_kind`, from top to bottom.
    pub open spec fn spec_buttons_for_menu(menu_kind: MenuKind) -> Seq<MenuButtonKind> {
        match menu_kind {
            MenuKind::Start => seq![
                MenuButtonKind::Start,
                MenuButtonKind::Editor,
                MenuButtonKind::OtherGames,
                MenuButtonKind::Quit,
            ],
            MenuKind::Hub => seq![
                MenuButtonKind::Continue,
                MenuButtonKind::Restart,
                MenuButtonKind::Editor,
                MenuButtonKind::OtherGames,
                MenuButtonKind::Quit,
            ],
            MenuKind::Level => seq![
                MenuButtonKind::Continue,
                MenuButtonKind::RestartLevel,
                MenuButtonKind::BackToHub,
                MenuButtonKind::Editor,
                MenuButtonKind::Quit,
            ],
        }
    }

    /// The buttons of the menu `menu_kind`, from top to bottom.
    pub fn buttons_for_menu(menu_kind: MenuKind) -> (buttons: Vec<MenuButtonKind>)
        ensures
            buttons@ == MenuButtonKind::spec_buttons_for_menu(menu_kind),
    {
        let buttons = match menu_kind {
            MenuKind::Start => vec![
                MenuButtonKind::Start,
                MenuButtonKind::Editor,
                MenuButtonKind::OtherGames,
                MenuButtonKind::Quit,
            ],
            MenuKind::Hub => vec![
                MenuButtonKind::Continue,
                MenuButtonKind::Restart,
                MenuButtonKind::Editor,
                MenuButtonKind::OtherGames,
                MenuButtonKind::Quit,
            ],
            MenuKind::Level => vec![
                MenuButtonKind::Continue,
                MenuButtonKind::RestartLevel,
                MenuButtonKind::BackToHub,
                MenuButtonKind::Editor,
                MenuButtonKind::Quit,
            ],
        };
        assert(buttons@ =~= MenuButtonKind::spec_buttons_for_menu(menu_kind));
        buttons
    }

    /// What the button says.
    pub fn label(self) -> (label: &'static str)
        ensures
            label@ == (match self {
                MenuButtonKind::Start => "Start"@,
                MenuButtonKind::Continue => "Continue"@,
                MenuButtonKind::Restart => "Restart"@,
                MenuButtonKind::RestartLevel => "Restart Level"@,
                MenuButtonKind::BackToHub => "Exit Level"@,
                MenuButtonKind::Editor => "Level Editor"@,
                MenuButtonKind::OtherGames => "Other Games"@,
                MenuButtonKind::Quit => "Quit Game"@,
            }),
    {
        match self {
            MenuButtonKind::Start => "Start",
            MenuButtonKind::Continue => "Continue",
            MenuButtonKind::Restart => "Restart",
            MenuButtonKind::RestartLevel => "Restart Level",
            MenuButtonKind::BackToHub => "Exit Level",
            MenuButtonKind::Editor => "Level Editor",
            MenuButtonKind::OtherGames => "Other Games",
            MenuButtonKind::Quit => "Quit Game",
        }
    }

    /// What the button asks for when it is pressed.
    pub open spec fn spec_action(self) -> MenuAction {
        match self {
            MenuButtonKind::Start => MenuAction::Intro,
            MenuButtonKind::Continue => MenuAction::Resume,
            MenuButtonKind::Restart => MenuAction::ReloadLevel,
            MenuButtonKind::RestartLevel => MenuAction::ReloadLevel,
            MenuButtonKind::BackToHub => MenuAction::LoadHub,
            MenuButtonKind::Editor => MenuAction::ToggleEditor,
            MenuButtonKind::OtherGames => MenuAction::Stay,
            MenuButtonKind::Quit => MenuAction::Quit,
        }
    }

    /// What the button asks for when it is pressed.
    #[verifier::when_used_as_spec(spec_action)]
    pub fn action(self) -> (action: MenuAction)
        ensures
            action == self.spec_action(),
    {
        match self {
            MenuButtonKind::Start => MenuAction::Intro,
            MenuButtonKind::Continue => MenuAction::Resume,
            MenuButtonKind::Restart => MenuAction::ReloadLevel,
            MenuButtonKind::RestartLevel => MenuAction::ReloadLevel,
            MenuButtonKind::BackToHub => MenuAction::LoadHub,
            MenuButtonKind::Editor => MenuAction::ToggleEditor,
            MenuButtonKind::OtherGames => MenuAction::Stay,
            MenuButtonKind::Quit => MenuAction::Quit,
        }
    }
}

/// Which menu is open and which of its buttons is selected.
#[derive(Clone, Copy, Debug, PartialEq, Eq, Structural)]
pub struct MenuState {
    pub open_menu: Option<MenuKind>,
    pub selected_button: MenuButtonKind,
}

impl Default for MenuState {
    fn default() -> (state: MenuState)
        ensures
            state.open_menu == Some(MenuKind::Start),
            state.selected_button == MenuButtonKind::Start,
    {
        MenuState { open_menu: Some(MenuKind::Start), selected_button: MenuButtonKind::Start }
    }
}

/// The place of `button` among `buttons`, or 0 where it is not among them.
pub open spec fn place_of(buttons: Seq<MenuButtonKind>, button: MenuButtonKind) -> int {
    if buttons.contains(button) {
        choose|i: int|
            0 <= i < buttons.len() && buttons[i] == button && forall|k: int|
                0 <= k < i ==> buttons[k] != button
    } else {
        0
    }
}

/// The button that is selected once the selection has gone `delta` buttons
/// down from `selected` in the menu `menu_kind` (up, where `delta` is
/// negative). The selection goes round: below the last button comes the
/// first.
pub open spec fn button_after(
    menu_kind: MenuKind,
    selected: MenuButtonKind,
    delta: int,
) -> MenuButtonKind {
    let buttons = MenuButtonKind::spec_buttons_for_menu(menu_kind);
    buttons[(place_of(buttons, selected) + delta) % (buttons.len() as int)]
}

/// The place `delta` places after the place `current` among `count` places
/// that go round.
fn wrapped(current: usize, delta: isize, count: usize) -> (next: usize)
    requires
        0 < count <= 1000,
        current < count,
    ensures
        next == (current + delta) % (count as int),
        next < count,
{
    let count: i128 = count as i128;
    let shifted: i128 = current as i128 + delta as i128;
    let next: i128 = if shifted >= 0 {
        shifted % count
    } else {
        let back: i128 = (-shifted) % count;
        if back == 0 {
            0
        } else {
            count - back
        }
    };
    proof {
        let n = count as int;
        let s = shifted as int;
        if s < 0 {
            let back = (-s) % n;
            let times = (-s) / n;
            lemma_fundamental_div_mod(-s, n);
            if back == 0 {
                assert(s == (-times) * n + 0) by (nonlinear_arith)
                    requires
                        -s == n * times + 0,
                ;
                lemma_fundamental_div_mod_converse(s, n, -times, 0);
            } else {
                assert(s == (-times - 1) * n + (n - back)) by (nonlinear_arith)
                    requires
                        -s == n * times + back,
                ;
                lemma_fundamental_div_mod_converse(s, n, -times - 1, n - back);
            }
        }
    }
    next as usize
}

impl MenuState {
    pub open spec fn spec_is_open(&self) -> bool {
        self.open_menu is Some
    }

    /// Whether a menu is open.
    #[verifier::when_used_as_spec(spec_is_open)]
    pub fn is_open(&self) -> (open: bool)
        ensures
            open == self.spec_is_open(),
    {
        self.open_menu.is_some()
    }

    pub open spec fn spec_is_in_start_menu(&self) -> bool {
        self.open_menu == Some(MenuKind::Start)
    }

    /// Whether the menu that the game starts with is open.
    #[verifier::when_used_as_spec(spec_is_in_start_menu)]
    pub fn is_in_start_menu(&self) -> (start: bool)
        ensures
            start == self.spec_is_in_start_menu(),
    {
        match self.open_menu {
            Some(MenuKind::Start) => true,
            _ => false,
        }
    }

    /// Moves the selection `delta` buttons down in the menu `menu_kind`.
    pub fn move_selected_button(&mut self, menu_kind: MenuKind, delta: isize)
        ensures
            final(self).open_menu == old(self).open_menu,
            final(self).selected_button == button_after(
                menu_kind,
                old(self).selected_button,
                delta as int,
            ),
    {
        let buttons = MenuButtonKind::buttons_for_menu(menu_kind);
        let mut current: usize = 0;
        let mut i: usize = 0;
        let mut found = false;
        while i < buttons.len() && !found
            invariant
                i <= buttons.len(),
                !found ==> forall|k: int| 0 <= k < i ==> buttons@[k] != self.selected_button,
                found ==> current < buttons.len() && buttons@[current as int]
                    == self.selected_button && forall|k: int|
                    0 <= k < current ==> buttons@[k] != self.selected_button,
                !found ==> current == 0,
            decreases buttons.len() - i + if found { 0int } else { 1int },
        {
            if buttons[i] == self.selected_button {
                current = i;
                found = true;
            } else {
                i += 1;
            }
        }
        proof {
            if found {
                assert(buttons@.contains(self.selected_button));
                let first = place_of(buttons@, self.selected_button);
                assert(first == current);
            } else {
                assert(!buttons@.contains(self.selected_button));
            }
        }
        let next = wrapped(current, delta, buttons.len());
        self.selected_button = buttons[next];
    }

    /// Opens the menu `menu`, with its first button selected.
    pub fn set_open(&mut self, menu: MenuKind)
        ensures
            final(self).open_menu == Some(menu),
            final(self).selected_button == MenuButtonKind::spec_buttons_for_menu(menu)[0],
    {
        self.open_menu = Some(menu);
        self.selected_button = match menu {
            MenuKind::Start => MenuButtonKind::Start,
            MenuKind::Hub | MenuKind::Level => MenuButtonKind::Continue,
        };
    }

    /// The menu once the selected button has been pressed: closed, unless the
    /// button has nothing to do or ends the game.
    pub open spec fn after_press(self) -> MenuState {
        match self.selected_button.action() {
            MenuAction::Stay | MenuAction::Quit => self,
            _ => MenuState { open_menu: None, ..self },
        }
    }

    /// Presses the selected button, and says what it asks for.
    pub fn on_button_press(&mut self) -> (action: MenuAction)
        ensures
            action == old(self).selected_button.action(),
            *final(self) == old(self).after_press(),
    {
        let action = self.selected_button.action();
        match action {
            MenuAction::Stay | MenuAction::Quit => {},
            _ => {
                self.open_menu = None;
            },
        }
        action
    }

    /// The menu once `key` has been put in: the selection has moved, or the
    /// menu has closed. A closed menu takes no key, and confirming changes
    /// nothing by itself.
    pub open spec fn after_key(self, key: MenuKey) -> MenuState {
        match (self.open_menu, key) {
            (Some(menu), MenuKey::Up) => MenuState {
                selected_button: button_after(menu, self.selected_button, -1),
                ..self
            },
            (Some(menu), MenuKey::Down) => MenuState {
                selected_button: button_after(menu, self.selected_button, 1),
                ..self
            },
            (Some(_), MenuKey::Close) => MenuState { open_menu: None, ..self },
            _ => self,
        }
    }

    /// Takes a key. Says whether the selected button is to be pressed.
    pub fn on_menu_keyboard_input(&mut self, key: MenuKey) -> (press: bool)
        ensures
            *final(self) == old(self).after_key(key),
            press == (old(self).open_menu is Some && key == MenuKey::Confirm),
    {
        let menu = match self.open_menu {
            Some(menu) => menu,
            None => {
                return false;
            },
        };
        match key {
            MenuKey::Up => {
                self.move_selected_button(menu, -1);
                false
            },
            MenuKey::Down => {
                self.move_selected_button(menu, 1);
                false
            },
            MenuKey::Confirm => true,
            MenuKey::Close => {
                self.open_menu = None;
                false
            },
        }
    }

    /// Takes what the pointer does to `button`: a button under the pointer is
    /// selected. Says whether it is to be pressed.
    pub fn on_menu_interaction_input(
        &mut self,
        interaction: Interaction,
        button: MenuButtonKind,
    ) -> (press: bool)
        ensures
            final(self).open_menu == old(self).open_menu,
            final(self).selected_button == (if interaction == Interaction::Away {
                old(self).selected_button
            } else {
                button
            }),
            press == (interaction == Interaction::Pressed),
    {
        match interaction {
            Interaction::Pressed => {
                self.selected_button = button;
                true
            },
            Interaction::Hovered => {
                self.selected_button = button;
                false
            },
            Interaction::Away => false,
        }
    }
}

} // verus!
