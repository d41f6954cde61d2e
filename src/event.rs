//! One step of the navigator: an input event and what the caller does next.
use vstd::prelude::*;
use crate::nav::{App, DirChange, moved_down, moved_up, homed, ended, name_opt, popped_filter, command_of};
use crate::filter::filter_text;

verus! {

/// An input event, as the terminal reader hands it over.
pub enum Input {
    Down,
    Up,
    Home,
    End,
    ToggleHidden,
    Activate,
    Char(char),
    Backspace,
    Escape,
    Quit,
    Click(u16, u16),
    Tick,
}

/// What the caller does after a step.
pub enum Step {
    /// Redraw and wait for the next event.
    Stay,
    /// Scan the target directory and hand the scan to `App::enter_dir`.
    Scan(DirChange),
    /// Write the command and stop.
    Quit(String),
}

/// The step's result once an optional directory change is known.
pub open spec fn scan_step(r: Step, m: Option<DirChange>) -> bool {
    match m {
        Some(c) => r matches Step::Scan(d) && d == c,
        None => r is Stay,
    }
}

impl App {
    /// Applies one input event.
    pub fn handle(&mut self, input: Input) -> (r: Step)
        requires
            old(self).wf(),
        ensures
            final(self).wf(),
            match input {
                Input::Down => r is Stay && final(self).same_but_selection(old(self))
                    && final(self).selected == moved_down(old(self).selected, old(self).list_length as int),
                Input::Up => r is Stay && final(self).same_but_selection(old(self))
                    && final(self).selected == moved_up(old(self).selected),
                Input::Home => r is Stay && final(self).same_but_selection(old(self))
                    && final(self).selected == homed(old(self).selected, old(self).subdirs@.len() as int),
                Input::End => r is Stay && final(self).same_but_selection(old(self))
                    && final(self).selected == ended(old(self).selected, old(self).subdirs@.len() as int, old(self).list_length as int),
                Input::ToggleHidden => r is Stay && final(self).rebuilt_from(old(self))
                    && final(self).show_hidden == !old(self).show_hidden && final(self).filter == old(self).filter,
                Input::Activate => *final(self) == *old(self) && (old(self).activation() is None ==> r is Stay)
                    && (old(self).activation() matches Some((t, c)) ==> (r matches Step::Scan(m) && m.target@ == t
                    && m.target.wf() && name_opt(m.came_from) == c)),
                Input::Char(c) => r is Stay && final(self).rebuilt_from(old(self)) && final(self).show_hidden == old(self).show_hidden
                    && name_opt(final(self).filter) == Some(filter_text(old(self).filter).push(c)),
                Input::Backspace => r is Stay && name_opt(final(self).filter) == popped_filter(old(self).filter)
                    && (old(self).filter is None ==> *final(self) == *old(self))
                    && (old(self).filter is Some ==> final(self).rebuilt_from(old(self)))
                    && final(self).show_hidden == old(self).show_hidden,
                Input::Escape => r is Stay && final(self).rebuilt_from(old(self)) && final(self).filter is None
                    && final(self).show_hidden == old(self).show_hidden,
                Input::Quit => *final(self) == *old(self) && (r matches Step::Quit(cmd) && cmd@ == command_of(old(self).current_dir@)),
                Input::Click(x, y) => exists|m: Option<DirChange>| final(self).clicked(old(self), x, y, m) && #[trigger] scan_step(r, m),
                Input::Tick => r is Stay && *final(self) == *old(self),
            },
    {
        match input {
            Input::Down => {
                self.move_down();
                Step::Stay
            },
            Input::Up => {
                self.move_up();
                Step::Stay
            },
            Input::Home => {
                self.move_home();
                Step::Stay
            },
            Input::End => {
                self.move_end();
                Step::Stay
            },
            Input::ToggleHidden => {
                self.toggle_hidden();
                Step::Stay
            },
            Input::Activate => match self.change_target() {
                Some(m) => Step::Scan(m),
                None => Step::Stay,
            },
            Input::Char(c) => {
                self.push_filter(c);
                Step::Stay
            },
            Input::Backspace => {
                self.pop_filter();
                Step::Stay
            },
            Input::Escape => {
                self.clear_filter();
                Step::Stay
            },
            Input::Quit => Step::Quit(self.command_text()),
            Input::Click(x, y) => {
                let m = self.click(x, y);
                let ghost g = m;
                let r = match m {
                    Some(c) => Step::Scan(c),
                    None => Step::Stay,
                };
                assert(scan_step(r, g));
                r
            },
            Input::Tick => Step::Stay,
        }
    }
}

} // verus!
