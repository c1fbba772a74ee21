//! The control plane: operator commands that toggle between listening and
//! typing, edit the typed buffer, submit it as a surrogate unit, scroll the
//! two history panels, and request shutdown.

use vstd::prelude::*;

use crate::state::{
    bump_seq, trim_excess, Annotation, AnnotationModel, InputMode, PipelineState, StateModel, Unit,
    UnitModel,
};
use crate::text::{pop_char, push_char};

verus! {

/// One operator command, already decoded from the raw input device.
#[derive(Clone, Copy, Debug)]
pub enum Command {
    /// Switch between `Listening` and `Typing`; writes the listening flag.
    Toggle,
    /// One typed character while in `Typing` mode.
    TypeChar(char),
    /// Remove the last typed character.
    Backspace,
    /// Finalize the typed buffer as a surrogate unit.
    Submit,
    /// Request pipeline shutdown.
    Quit,
    ScrollUnitsDown,
    ScrollUnitsUp,
    ScrollAnnotationsDown,
    ScrollAnnotationsUp,
}

/// One step down, clamped to the last line of the panel's content.
pub open spec fn scroll_down(pos: nat, content: nat) -> nat {
    if content == 0 {
        pos
    } else if pos + 1 < content {
        pos + 1
    } else {
        (content - 1) as nat
    }
}

/// One step up, stopping at the top.
pub open spec fn scroll_up(pos: nat) -> nat {
    if pos > 0 {
        (pos - 1) as nat
    } else {
        0
    }
}

/// The status line shown after a surrogate unit is submitted.
pub open spec fn submit_status(input: Seq<char>) -> Seq<char> {
    "Input '"@ + input + "' submitted. Press Ctrl+S to start listening."@
}

/// The control plane's transition function: the state after one command.
pub open spec fn step_command(s: StateModel, c: Command) -> StateModel {
    match c {
        Command::Quit => StateModel { should_quit: true, status: "Exiting..."@, ..s },
        Command::Toggle => {
            if s.mode is Listening {
                StateModel {
                    mode: InputMode::Typing,
                    listening: false,
                    status:
                        "Stopped. Press Ctrl+S to Start. Type your message, Enter to process."@,
                    live_text: Seq::empty(),
                    user_input: Seq::empty(),
                    ..s
                }
            } else {
                StateModel {
                    mode: InputMode::Listening,
                    listening: true,
                    status: "Starting... Press 's' to Stop/Start, 'q' to Quit"@,
                    user_input: Seq::empty(),
                    ..s
                }
            }
        },
        Command::TypeChar(ch) => {
            if s.mode is Typing {
                StateModel { user_input: s.user_input.push(ch), ..s }
            } else {
                s
            }
        },
        Command::Backspace => {
            if s.mode is Typing && s.user_input.len() > 0 {
                StateModel { user_input: s.user_input.drop_last(), ..s }
            } else {
                s
            }
        },
        Command::Submit => {
            if s.mode is Typing && s.user_input.len() > 0 {
                // A surrogate unit is an already-finalized unit: it is
                // prepended with a fresh id and pending slot exactly as a
                // unit-finalized event is.
                let units = seq![UnitModel { seq: s.next_seq, text: s.user_input }] + s.units;
                StateModel {
                    units,
                    annotations: trim_excess(
                        seq![AnnotationModel::Pending] + s.annotations,
                        units.len(),
                    ),
                    next_seq: bump_seq(s.next_seq),
                    user_input: Seq::empty(),
                    status: submit_status(s.user_input),
                    ..s
                }
            } else {
                s
            }
        },
        Command::ScrollUnitsDown => StateModel {
            unit_scroll: scroll_down(s.unit_scroll, s.units.len()),
            ..s
        },
        Command::ScrollUnitsUp => StateModel { unit_scroll: scroll_up(s.unit_scroll), ..s },
        Command::ScrollAnnotationsDown => StateModel {
            annotation_scroll: scroll_down(s.annotation_scroll, s.annotations.len()),
            ..s
        },
        Command::ScrollAnnotationsUp => StateModel {
            annotation_scroll: scroll_up(s.annotation_scroll),
            ..s
        },
    }
}

/// One step down over a panel with `content` lines, saturating and clamped.
fn scroll_down_exec(pos: usize, content: usize) -> (r: usize)
    ensures
        r as nat == scroll_down(pos as nat, content as nat),
{
    if content == 0 {
        pos
    } else {
        let next = if pos < usize::MAX {
            pos + 1
        } else {
            usize::MAX
        };
        if next >= content {
            content - 1
        } else {
            next
        }
    }
}

impl PipelineState {
    /// Applies one operator command; the new state is exactly `step_command`
    /// of the old. The caller must copy `listening` into the shared flag
    /// after every command.
    pub fn apply_command(&mut self, c: Command)
        ensures
            final(self)@ == step_command(old(self)@, c),
    {
        let ghost pre = self@;
        match c {
            Command::Quit => {
                self.should_quit = true;
                self.status = String::from_str("Exiting...");
                proof {
                    assert(self@ =~= step_command(pre, c));
                }
            },
            Command::Toggle => {
                match self.mode {
                    InputMode::Listening => {
                        self.mode = InputMode::Typing;
                        self.listening = false;
                        self.status = String::from_str(
                            "Stopped. Press Ctrl+S to Start. Type your message, Enter to process.",
                        );
                        self.live_text = String::new();
                        self.user_input = String::new();
                    },
                    InputMode::Typing => {
                        self.mode = InputMode::Listening;
                        self.listening = true;
                        self.status = String::from_str(
                            "Starting... Press 's' to Stop/Start, 'q' to Quit",
                        );
                        self.user_input = String::new();
                    },
                }
                proof {
                    assert(self@ =~= step_command(pre, c));
                }
            },
            Command::TypeChar(ch) => {
                match self.mode {
                    InputMode::Typing => {
                        push_char(&mut self.user_input, ch);
                    },
                    InputMode::Listening => {},
                }
                proof {
                    assert(self@ =~= step_command(pre, c));
                }
            },
            Command::Backspace => {
                match self.mode {
                    InputMode::Typing => {
                        let _ = pop_char(&mut self.user_input);
                    },
                    InputMode::Listening => {},
                }
                proof {
                    assert(self@ =~= step_command(pre, c));
                }
            },
            Command::Submit => {
                match self.mode {
                    InputMode::Typing => {
                        if !self.user_input.as_str().is_empty() {
                            let input = self.user_input.clone();
                            let id = self.next_seq;
                            self.units.insert(0, Unit { seq: id, text: input.clone() });
                            self.annotations.insert(0, Annotation::Pending);
                            if self.next_seq < u64::MAX {
                                self.next_seq = self.next_seq + 1;
                            }
                            if self.annotations.len() > self.units.len() {
                                let keep = self.units.len();
                                self.annotations.truncate(keep);
                            }
                            self.status = String::from_str("Input '").concat(
                                input.as_str(),
                            ).concat("' submitted. Press Ctrl+S to start listening.");
                            self.user_input = String::new();
                            proof {
                                assert(self@.units =~= step_command(pre, c).units);
                                assert(self@.annotations =~= step_command(pre, c).annotations);
                            }
                        }
                    },
                    InputMode::Listening => {},
                }
                proof {
                    assert(self@ =~= step_command(pre, c));
                }
            },
            Command::ScrollUnitsDown => {
                self.unit_scroll = scroll_down_exec(self.unit_scroll, self.units.len());
                proof {
                    assert(self@ =~= step_command(pre, c));
                }
            },
            Command::ScrollUnitsUp => {
                if self.unit_scroll > 0 {
                    self.unit_scroll = self.unit_scroll - 1;
                }
                proof {
                    assert(self@ =~= step_command(pre, c));
                }
            },
            Command::ScrollAnnotationsDown => {
                self.annotation_scroll = scroll_down_exec(
                    self.annotation_scroll,
                    self.annotations.len(),
                );
                proof {
                    assert(self@ =~= step_command(pre, c));
                }
            },
            Command::ScrollAnnotationsUp => {
                if self.annotation_scroll > 0 {
                    self.annotation_scroll = self.annotation_scroll - 1;
                }
                proof {
                    assert(self@ =~= step_command(pre, c));
                }
            },
        }
    }
}

} // verus!
