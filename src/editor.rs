use vstd::prelude::*;
use crossterm::event::KeyCode;
use crate::buffer::{
    cursor_in_range, delete_step, insert_char_step, insert_text_step,
    lemma_steps_keep_cursor_in_range, move_step, Buffer, BufferView, Movement,
};
use crate::config::Config;
use crate::theme::{default_index, ThemeManager, THEME_COUNT};

verus! {

/// One thing the user asked for.
#[derive(Clone, Debug, PartialEq)]
pub enum Action {
    InsertChar(char),
    InsertText(String),
    DeleteBackward,
    Move(Movement),
    CycleTheme,
    Quit,
}

/// What a key press asks for. `control` says that Control alone was held;
/// `plain` that no modifier or Shift alone was held.
pub open spec fn key_action(code: KeyCode, control: bool, plain: bool) -> Option<Action> {
    if control {
        match code {
            KeyCode::Char('q') | KeyCode::Char('c') => Some(Action::Quit),
            KeyCode::Char(' ') => Some(Action::CycleTheme),
            _ => None,
        }
    } else if plain {
        match code {
            KeyCode::Char(c) => Some(Action::InsertChar(c)),
            KeyCode::Backspace => Some(Action::DeleteBackward),
            KeyCode::Up => Some(Action::Move(Movement::Up)),
            KeyCode::Left => Some(Action::Move(Movement::Left)),
            KeyCode::Right => Some(Action::Move(Movement::Right)),
            KeyCode::Down => Some(Action::Move(Movement::Down)),
            _ => None,
        }
    } else {
        None
    }
}

pub fn action_for_key(code: KeyCode, control: bool, plain: bool) -> (r: Option<Action>)
    ensures
        r == key_action(code, control, plain),
{
    if control {
        match code {
            KeyCode::Char('q') | KeyCode::Char('c') => Some(Action::Quit),
            KeyCode::Char(' ') => Some(Action::CycleTheme),
            _ => None,
        }
    } else if plain {
        match code {
            KeyCode::Char(c) => Some(Action::InsertChar(c)),
            KeyCode::Backspace => Some(Action::DeleteBackward),
            _ => match Movement::from_key_code(code) {
                Some(m) => Some(Action::Move(m)),
                None => None,
            },
        }
    } else {
        None
    }
}

/// A session: settings, the buffer being edited and the theme in use.
pub struct Editor {
    pub config: Config,
    pub buffer: Buffer,
    pub theme_manager: ThemeManager,
}

/// The buffer after `action`.
pub open spec fn buffer_after(v: BufferView, action: Action) -> BufferView {
    match action {
        Action::InsertChar(c) => insert_char_step(v, c),
        Action::InsertText(t) => insert_text_step(v, t@),
        Action::DeleteBackward => delete_step(v),
        Action::Move(m) => move_step(v, m),
        _ => v,
    }
}

/// The buffer after each of `actions` in turn.
pub open spec fn buffer_after_all(v: BufferView, actions: Seq<Action>) -> BufferView
    decreases actions.len(),
{
    if actions.len() == 0 {
        v
    } else {
        buffer_after_all(buffer_after(v, actions[0]), actions.drop_first())
    }
}

/// Whatever actions follow one another, the cursor stays within the text.
pub proof fn lemma_cursor_in_range_after_actions(v: BufferView, actions: Seq<Action>)
    requires
        cursor_in_range(v),
    ensures
        cursor_in_range(buffer_after_all(v, actions)),
    decreases actions.len(),
{
    if actions.len() > 0 {
        let none = Seq::<char>::empty();
        match actions[0] {
            Action::InsertText(t) => lemma_steps_keep_cursor_in_range(v, t@, ' ', Movement::Left),
            Action::InsertChar(c) => lemma_steps_keep_cursor_in_range(v, none, c, Movement::Left),
            Action::Move(m) => lemma_steps_keep_cursor_in_range(v, none, ' ', m),
            _ => lemma_steps_keep_cursor_in_range(v, none, ' ', Movement::Left),
        }
        lemma_cursor_in_range_after_actions(buffer_after(v, actions[0]), actions.drop_first());
    }
}

impl Editor {
    pub open spec fn wf(&self) -> bool {
        self.buffer.wf() && self.theme_manager.wf()
    }

    /// A session on an empty buffer and the default theme.
    pub fn with_config(config: Config) -> (r: Editor)
        ensures
            r.wf(),
            r.config == config,
            r.buffer@ == Buffer::empty_view(),
            r.theme_manager@ == default_index(),
    {
        Editor { config, buffer: Buffer::empty(), theme_manager: ThemeManager::new() }
    }

    /// Carries out `action`; returns false once the session should end.
    pub fn apply(&mut self, action: Action) -> (running: bool)
        requires
            old(self).wf(),
        ensures
            final(self).wf(),
            running == (action != Action::Quit),
            final(self).config == old(self).config,
            final(self).buffer@ == buffer_after(old(self).buffer@, action),
            final(self).theme_manager@ == if action == Action::CycleTheme {
                (old(self).theme_manager@ + 1) % (THEME_COUNT as nat)
            } else {
                old(self).theme_manager@
            },
    {
        match action {
            Action::InsertChar(c) => self.buffer.insert_character(c),
            Action::InsertText(t) => self.buffer.insert(t.as_str()),
            Action::DeleteBackward => self.buffer.delete_character(),
            Action::Move(m) => self.buffer.handle_movement(m),
            Action::CycleTheme => self.theme_manager.next_theme(),
            Action::Quit => {
                return false;
            },
        }
        true
    }
}

} // verus!
