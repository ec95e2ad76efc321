//! The session: the committed state of the plotter, its derived data, and
//! the input dispatch that routes each discrete event to an edit, a commit,
//! a focus move or a screen change.

use vstd::prelude::*;

use crate::adapter::{blank_text, fn_accepted, is_blank, parse_function, FuncDef};
use crate::area::{integrate, range_defined, recalc_spec};
use crate::fixed::{lemma_parse_fixed_in_range, parse_fixed, parse_fixed_spec, MAX_COORD};
use crate::focus::{field_at_spec, Field, FocusGrid, Step};
use crate::lines::{bound_line, vline_from, zero_line, zero_line_from};
use crate::sample::{sample, sampled_from, IntegrationBounds, PlotWindow, SampleSet};

verus! {

/// Which screen is active.
#[derive(Clone, Copy, PartialEq, Eq, Structural, Debug)]
pub enum Screen {
    Main,
    Settings,
}

/// A discrete input event, already freed of raw terminal key codes.
#[derive(Clone, Copy, PartialEq, Eq, Structural, Debug)]
pub enum InputEvent {
    Character(char),
    Backspace,
    Confirm,
    Arrow(Step),
    Cancel,
    ScreenToggle,
    Other,
}

/// A recoverable fault surfaced to the user; none of these ends the session.
#[derive(Clone, Copy, PartialEq, Eq, Structural, Debug)]
pub enum Notice {
    /// A field's text did not parse; the committed value is untouched.
    ParseError,
    /// A bound fell outside the sampled domain or the bounds are inverted;
    /// the shown area is untouched.
    UndefinedRange,
    /// The committed window would lose `min < max`; it is untouched.
    DegenerateWindow,
}

/// The whole state of one plotting session.
pub struct Session {
    /// The committed function.
    pub func: FuncDef,
    /// The committed plotting window.
    pub window: PlotWindow,
    /// The committed integration bounds.
    pub bounds: IntegrationBounds,
    /// The sampling step, in micro-units.
    pub step: i64,
    /// The sampled curve, rebuilt on every commit.
    pub samples: SampleSet,
    /// The vertical marker at the lower bound.
    pub lower_line: Vec<(i64, i64)>,
    /// The vertical marker at the upper bound.
    pub upper_line: Vec<(i64, i64)>,
    /// The horizontal zero-line across the window.
    pub zero_axis: Vec<(i64, i64)>,
    /// The last successfully computed area, in micro-units.
    pub area: i128,
    /// The active screen.
    pub screen: Screen,
    /// The focus position on the settings grid.
    pub focus: FocusGrid,
    /// Set by the user-initiated exit; checked once per event loop turn.
    pub exit: bool,
    pub function_text: Vec<char>,
    pub lower_text: Vec<char>,
    pub upper_text: Vec<char>,
    pub min_x_text: Vec<char>,
    pub max_x_text: Vec<char>,
    pub min_y_text: Vec<char>,
    pub max_y_text: Vec<char>,
}

impl Session {
    /// The session invariant: the committed window is well-formed, the
    /// bounds and step lie in range, the samples are well-formed and the
    /// focus is on the grid.
    pub open spec fn wf(self) -> bool {
        &&& self.window.wf()
        &&& self.bounds.in_range()
        &&& 1 <= self.step <= MAX_COORD
        &&& self.samples.wf()
        &&& self.focus.wf()
    }

    /// The text buffer of a field; the recalculation trigger has none.
    pub open spec fn buffer_for(self, f: Field) -> Seq<char> {
        match f {
            Field::Function => self.function_text@,
            Field::LowerBound => self.lower_text@,
            Field::UpperBound => self.upper_text@,
            Field::RecalculateArea => Seq::empty(),
            Field::MinX => self.min_x_text@,
            Field::MaxX => self.max_x_text@,
            Field::MinY => self.min_y_text@,
            Field::MaxY => self.max_y_text@,
        }
    }

    /// The field the focus rests on.
    pub open spec fn focused_field(self) -> Field {
        field_at_spec(self.focus.row as int, self.focus.col as int)
    }
}

/// The committed values are the same in both states.
pub open spec fn same_committed(a: Session, b: Session) -> bool {
    &&& b.func@ == a.func@
    &&& b.window == a.window
    &&& b.bounds == a.bounds
    &&& b.step == a.step
}

/// The sampled curve and the overlay lines are the same in both states.
pub open spec fn same_curve(a: Session, b: Session) -> bool {
    &&& b.samples.points@ == a.samples.points@
    &&& b.samples.step == a.samples.step
    &&& b.samples.lower_index == a.samples.lower_index
    &&& b.samples.upper_index == a.samples.upper_index
    &&& b.lower_line@ == a.lower_line@
    &&& b.upper_line@ == a.upper_line@
    &&& b.zero_axis@ == a.zero_axis@
}

/// All derived data, the shown area included, is the same in both states.
pub open spec fn same_derived(a: Session, b: Session) -> bool {
    same_curve(a, b) && b.area == a.area
}

/// All seven text buffers are the same in both states.
pub open spec fn same_buffers(a: Session, b: Session) -> bool {
    &&& b.function_text@ == a.function_text@
    &&& b.lower_text@ == a.lower_text@
    &&& b.upper_text@ == a.upper_text@
    &&& b.min_x_text@ == a.min_x_text@
    &&& b.max_x_text@ == a.max_x_text@
    &&& b.min_y_text@ == a.min_y_text@
    &&& b.max_y_text@ == a.max_y_text@
}

/// Screen, focus and exit flag are the same in both states.
pub open spec fn same_ui(a: Session, b: Session) -> bool {
    b.screen == a.screen && b.focus == a.focus && b.exit == a.exit
}

/// What a full recompute leaves behind: samples, bound lines and zero-line
/// all rebuilt from the committed state, and the area recalculated, keeping
/// its previous value when the bound range is undefined.
pub open spec fn recomputed(a: Session, b: Session, r: Option<Notice>) -> bool {
    &&& sampled_from(b.samples, b.func@, b.window, b.bounds, b.step as int)
    &&& vline_from(b.lower_line@, b.func@, b.bounds.lower as int, b.window)
    &&& vline_from(b.upper_line@, b.func@, b.bounds.upper as int, b.window)
    &&& zero_line_from(b.zero_axis@, b.window)
    &&& b.area as int == recalc_spec(b.samples, a.area as int)
    &&& r == if range_defined(b.samples) {
        Option::<Notice>::None
    } else {
        Option::Some(Notice::UndefinedRange)
    }
}

/// What appending one character to the focused field's buffer leaves: the
/// trigger field swallows it, every other buffer is untouched.
pub open spec fn char_edit(a: Session, b: Session, c: char) -> bool {
    let f = a.focused_field();
    if f is RecalculateArea {
        same_buffers(a, b)
    } else {
        &&& b.buffer_for(f) == a.buffer_for(f).push(c)
        &&& forall|g: Field| g != f ==> #[trigger] b.buffer_for(g) == a.buffer_for(g)
    }
}

/// What removing the last character of the focused field's buffer leaves.
pub open spec fn backspace_edit(a: Session, b: Session) -> bool {
    let f = a.focused_field();
    if f is RecalculateArea {
        same_buffers(a, b)
    } else {
        &&& b.buffer_for(f) == if a.buffer_for(f).len() > 0 {
            a.buffer_for(f).drop_last()
        } else {
            a.buffer_for(f)
        }
        &&& forall|g: Field| g != f ==> #[trigger] b.buffer_for(g) == a.buffer_for(g)
    }
}

/// Everything the session does not touch when a commit is refused.
pub open spec fn commit_refused(a: Session, b: Session) -> bool {
    same_committed(a, b) && same_derived(a, b) && same_buffers(a, b)
}

/// What confirming the focused field does, by field: parse the buffer and,
/// on success, commit the value and recompute; on failure leave the
/// committed state untouched and surface the fault.  Committing a window
/// edge that would break `min < max` is refused.  Confirming the trigger
/// field only recalculates the area over the existing samples.
pub open spec fn confirm_applied(a: Session, b: Session, r: Option<Notice>) -> bool {
    match a.focused_field() {
        Field::Function => if blank_text(a.function_text@) {
            r == Some(Notice::ParseError) && commit_refused(a, b)
        } else if fn_accepted(a.function_text@) {
            &&& b.func@ == a.function_text@
            &&& b.window == a.window
            &&& b.bounds == a.bounds
            &&& b.step == a.step
            &&& same_buffers(a, b)
            &&& recomputed(a, b, r)
        } else {
            r == Some(Notice::ParseError) && commit_refused(a, b)
        },
        Field::LowerBound => match parse_fixed_spec(a.lower_text@) {
            Some(v) => {
                &&& b.bounds == (IntegrationBounds { lower: v as i64, upper: a.bounds.upper })
                &&& b.func@ == a.func@
                &&& b.window == a.window
                &&& b.step == a.step
                &&& same_buffers(a, b)
                &&& recomputed(a, b, r)
            },
            None => r == Some(Notice::ParseError) && commit_refused(a, b),
        },
        Field::UpperBound => match parse_fixed_spec(a.upper_text@) {
            Some(v) => {
                &&& b.bounds == (IntegrationBounds { lower: a.bounds.lower, upper: v as i64 })
                &&& b.func@ == a.func@
                &&& b.window == a.window
                &&& b.step == a.step
                &&& same_buffers(a, b)
                &&& recomputed(a, b, r)
            },
            None => r == Some(Notice::ParseError) && commit_refused(a, b),
        },
        Field::RecalculateArea => {
            &&& same_committed(a, b)
            &&& same_curve(a, b)
            &&& same_buffers(a, b)
            &&& b.area as int == recalc_spec(a.samples, a.area as int)
            &&& r == if range_defined(a.samples) {
                Option::<Notice>::None
            } else {
                Option::Some(Notice::UndefinedRange)
            }
        },
        Field::MinX => window_commit(a, b, r, a.min_x_text@, 0),
        Field::MaxX => window_commit(a, b, r, a.max_x_text@, 1),
        Field::MinY => window_commit(a, b, r, a.min_y_text@, 2),
        Field::MaxY => window_commit(a, b, r, a.max_y_text@, 3),
    }
}

/// The window with one edge replaced: edges are numbered in the order
/// `x_min`, `x_max`, `y_min`, `y_max`.
pub open spec fn window_with(w: PlotWindow, edge: int, v: int) -> PlotWindow {
    if edge == 0 {
        PlotWindow { x_min: v as i64, x_max: w.x_max, y_min: w.y_min, y_max: w.y_max }
    } else if edge == 1 {
        PlotWindow { x_min: w.x_min, x_max: v as i64, y_min: w.y_min, y_max: w.y_max }
    } else if edge == 2 {
        PlotWindow { x_min: w.x_min, x_max: w.x_max, y_min: v as i64, y_max: w.y_max }
    } else {
        PlotWindow { x_min: w.x_min, x_max: w.x_max, y_min: w.y_min, y_max: v as i64 }
    }
}

/// Committing one window edge: a parse failure or a degenerate result is
/// refused, otherwise the new window is committed and everything recomputed.
pub open spec fn window_commit(
    a: Session,
    b: Session,
    r: Option<Notice>,
    text: Seq<char>,
    edge: int,
) -> bool {
    match parse_fixed_spec(text) {
        Some(v) => {
            let cand = window_with(a.window, edge, v);
            if cand.x_min < cand.x_max && cand.y_min < cand.y_max {
                &&& b.window == cand
                &&& b.func@ == a.func@
                &&& b.bounds == a.bounds
                &&& b.step == a.step
                &&& same_buffers(a, b)
                &&& recomputed(a, b, r)
            } else {
                r == Some(Notice::DegenerateWindow) && commit_refused(a, b)
            }
        },
        None => r == Some(Notice::ParseError) && commit_refused(a, b),
    }
}

impl Session {
    /// Build the starting session: function `x`, window `[-5,5]` by
    /// `[-10,10]`, bounds `[0,0]`, a step of a thousandth, nothing sampled
    /// yet, area zero, the main screen, and focus on the function field.
    /// Yields nothing only if the adapter refuses the default function text.
    pub fn new() -> (r: Option<Session>)
        ensures
            r is Some <==> fn_accepted(seq!['x']),
            r matches Some(s) ==> {
                &&& s.wf()
                &&& s.func@ == seq!['x']
                &&& s.window == (PlotWindow {
                    x_min: -5_000_000i64,
                    x_max: 5_000_000,
                    y_min: -10_000_000i64,
                    y_max: 10_000_000,
                })
                &&& s.bounds == (IntegrationBounds { lower: 0, upper: 0 })
                &&& s.step == 1000
                &&& s.samples.points@.len() == 0
                &&& s.samples.lower_index is None
                &&& s.samples.upper_index is None
                &&& s.lower_line@.len() == 0
                &&& s.upper_line@.len() == 0
                &&& s.zero_axis@.len() == 0
                &&& s.area == 0
                &&& s.screen is Main
                &&& s.focus == (FocusGrid { row: 0, col: 0 })
                &&& !s.exit
                &&& s.function_text@ == seq!['x']
                &&& s.lower_text@ == seq!['0']
                &&& s.upper_text@ == seq!['0']
                &&& s.min_x_text@ == seq!['-', '5']
                &&& s.max_x_text@ == seq!['5']
                &&& s.min_y_text@ == seq!['-', '1', '0']
                &&& s.max_y_text@ == seq!['1', '0']
            },
    {
        let mut function_text: Vec<char> = Vec::new();
        function_text.push('x');
        let mut lower_text: Vec<char> = Vec::new();
        lower_text.push('0');
        let mut upper_text: Vec<char> = Vec::new();
        upper_text.push('0');
        let mut min_x_text: Vec<char> = Vec::new();
        min_x_text.push('-');
        min_x_text.push('5');
        let mut max_x_text: Vec<char> = Vec::new();
        max_x_text.push('5');
        let mut min_y_text: Vec<char> = Vec::new();
        min_y_text.push('-');
        min_y_text.push('1');
        min_y_text.push('0');
        let mut max_y_text: Vec<char> = Vec::new();
        max_y_text.push('1');
        max_y_text.push('0');
        proof {
            assert(function_text@ =~= seq!['x']);
            assert(lower_text@ =~= seq!['0']);
            assert(upper_text@ =~= seq!['0']);
            assert(min_x_text@ =~= seq!['-', '5']);
            assert(max_x_text@ =~= seq!['5']);
            assert(min_y_text@ =~= seq!['-', '1', '0']);
            assert(max_y_text@ =~= seq!['1', '0']);
        }
        proof {
            assert(!blank_text(function_text@)) by {
                assert(function_text@[0] == 'x');
                assert(!crate::adapter::is_blank_char('x'));
            }
        }
        let func = match parse_function(&function_text) {
            Some(fd) => fd,
            None => {
                return None;
            },
        };
        Some(
            Session {
                func,
                window: PlotWindow {
                    x_min: -5_000_000i64,
                    x_max: 5_000_000,
                    y_min: -10_000_000i64,
                    y_max: 10_000_000,
                },
                bounds: IntegrationBounds { lower: 0, upper: 0 },
                step: 1000,
                samples: SampleSet::empty(),
                lower_line: Vec::new(),
                upper_line: Vec::new(),
                zero_axis: Vec::new(),
                area: 0,
                screen: Screen::Main,
                focus: FocusGrid { row: 0, col: 0 },
                exit: false,
                function_text,
                lower_text,
                upper_text,
                min_x_text,
                max_x_text,
                min_y_text,
                max_y_text,
            },
        )
    }

    /// Rebuild samples, bound lines, zero-line and the area from the
    /// committed state.
    fn recompute(&mut self) -> (r: Option<Notice>)
        requires
            old(self).wf(),
        ensures
            final(self).wf(),
            same_committed(*old(self), *final(self)),
            same_buffers(*old(self), *final(self)),
            same_ui(*old(self), *final(self)),
            recomputed(*old(self), *final(self), r),
    {
        self.samples = sample(&self.func, &self.window, &self.bounds, self.step);
        self.lower_line = bound_line(&self.func, self.bounds.lower, &self.window);
        self.upper_line = bound_line(&self.func, self.bounds.upper, &self.window);
        self.zero_axis = zero_line(&self.window);
        match integrate(&self.samples) {
            Ok(a) => {
                self.area = a;
                None
            },
            Err(_) => Some(Notice::UndefinedRange),
        }
    }

    /// Recalculate the area over the existing samples, without resampling.
    fn recalc_area(&mut self) -> (r: Option<Notice>)
        requires
            old(self).wf(),
        ensures
            final(self).wf(),
            same_committed(*old(self), *final(self)),
            same_curve(*old(self), *final(self)),
            same_buffers(*old(self), *final(self)),
            same_ui(*old(self), *final(self)),
            final(self).area as int == recalc_spec(old(self).samples, old(self).area as int),
            r == if range_defined(old(self).samples) {
                Option::<Notice>::None
            } else {
                Option::Some(Notice::UndefinedRange)
            },
    {
        match integrate(&self.samples) {
            Ok(a) => {
                self.area = a;
                None
            },
            Err(_) => Some(Notice::UndefinedRange),
        }
    }

    /// Commit the focused field.
    fn commit(&mut self) -> (r: Option<Notice>)
        requires
            old(self).wf(),
        ensures
            final(self).wf(),
            same_ui(*old(self), *final(self)),
            confirm_applied(*old(self), *final(self), r),
    {
        let f = self.focus.focused();
        match f {
            Field::Function => {
                if is_blank(&self.function_text) {
                    // The adapter's tokenizer cannot reject a whitespace-only
                    // text normally; refuse it here like any other bad parse.
                    return Some(Notice::ParseError);
                }
                match parse_function(&self.function_text) {
                    Some(fd) => {
                        self.func = fd;
                        self.recompute()
                    },
                    None => Some(Notice::ParseError),
                }
            },
            Field::LowerBound => match parse_fixed(&self.lower_text) {
                Some(v) => {
                    proof {
                        lemma_parse_fixed_in_range(self.lower_text@);
                    }
                    self.bounds = IntegrationBounds { lower: v, upper: self.bounds.upper };
                    self.recompute()
                },
                None => Some(Notice::ParseError),
            },
            Field::UpperBound => match parse_fixed(&self.upper_text) {
                Some(v) => {
                    proof {
                        lemma_parse_fixed_in_range(self.upper_text@);
                    }
                    self.bounds = IntegrationBounds { lower: self.bounds.lower, upper: v };
                    self.recompute()
                },
                None => Some(Notice::ParseError),
            },
            Field::RecalculateArea => self.recalc_area(),
            Field::MinX => match parse_fixed(&self.min_x_text) {
                Some(v) => {
                    proof {
                        lemma_parse_fixed_in_range(self.min_x_text@);
                    }
                    let cand = PlotWindow {
                        x_min: v,
                        x_max: self.window.x_max,
                        y_min: self.window.y_min,
                        y_max: self.window.y_max,
                    };
                    if cand.x_min < cand.x_max && cand.y_min < cand.y_max {
                        self.window = cand;
                        self.recompute()
                    } else {
                        Some(Notice::DegenerateWindow)
                    }
                },
                None => Some(Notice::ParseError),
            },
            Field::MaxX => match parse_fixed(&self.max_x_text) {
                Some(v) => {
                    proof {
                        lemma_parse_fixed_in_range(self.max_x_text@);
                    }
                    let cand = PlotWindow {
                        x_min: self.window.x_min,
                        x_max: v,
                        y_min: self.window.y_min,
                        y_max: self.window.y_max,
                    };
                    if cand.x_min < cand.x_max && cand.y_min < cand.y_max {
                        self.window = cand;
                        self.recompute()
                    } else {
                        Some(Notice::DegenerateWindow)
                    }
                },
                None => Some(Notice::ParseError),
            },
            Field::MinY => match parse_fixed(&self.min_y_text) {
                Some(v) => {
                    proof {
                        lemma_parse_fixed_in_range(self.min_y_text@);
                    }
                    let cand = PlotWindow {
                        x_min: self.window.x_min,
                        x_max: self.window.x_max,
                        y_min: v,
                        y_max: self.window.y_max,
                    };
                    if cand.x_min < cand.x_max && cand.y_min < cand.y_max {
                        self.window = cand;
                        self.recompute()
                    } else {
                        Some(Notice::DegenerateWindow)
                    }
                },
                None => Some(Notice::ParseError),
            },
            Field::MaxY => match parse_fixed(&self.max_y_text) {
                Some(v) => {
                    proof {
                        lemma_parse_fixed_in_range(self.max_y_text@);
                    }
                    let cand = PlotWindow {
                        x_min: self.window.x_min,
                        x_max: self.window.x_max,
                        y_min: self.window.y_min,
                        y_max: v,
                    };
                    if cand.x_min < cand.x_max && cand.y_min < cand.y_max {
                        self.window = cand;
                        self.recompute()
                    } else {
                        Some(Notice::DegenerateWindow)
                    }
                },
                None => Some(Notice::ParseError),
            },
        }
    }

    /// Append a character to the focused field's buffer.
    fn push_char(&mut self, c: char)
        requires
            old(self).wf(),
        ensures
            final(self).wf(),
            same_committed(*old(self), *final(self)),
            same_derived(*old(self), *final(self)),
            same_ui(*old(self), *final(self)),
            char_edit(*old(self), *final(self), c),
    {
        let f = self.focus.focused();
        match f {
            Field::Function => self.function_text.push(c),
            Field::LowerBound => self.lower_text.push(c),
            Field::UpperBound => self.upper_text.push(c),
            Field::RecalculateArea => {},
            Field::MinX => self.min_x_text.push(c),
            Field::MaxX => self.max_x_text.push(c),
            Field::MinY => self.min_y_text.push(c),
            Field::MaxY => self.max_y_text.push(c),
        }
    }

    /// Remove the last character of the focused field's buffer, if any.
    fn pop_char(&mut self)
        requires
            old(self).wf(),
        ensures
            final(self).wf(),
            same_committed(*old(self), *final(self)),
            same_derived(*old(self), *final(self)),
            same_ui(*old(self), *final(self)),
            backspace_edit(*old(self), *final(self)),
    {
        let f = self.focus.focused();
        match f {
            Field::Function => {
                if self.function_text.len() > 0 {
                    self.function_text.pop();
                }
            },
            Field::LowerBound => {
                if self.lower_text.len() > 0 {
                    self.lower_text.pop();
                }
            },
            Field::UpperBound => {
                if self.upper_text.len() > 0 {
                    self.upper_text.pop();
                }
            },
            Field::RecalculateArea => {},
            Field::MinX => {
                if self.min_x_text.len() > 0 {
                    self.min_x_text.pop();
                }
            },
            Field::MaxX => {
                if self.max_x_text.len() > 0 {
                    self.max_x_text.pop();
                }
            },
            Field::MinY => {
                if self.min_y_text.len() > 0 {
                    self.min_y_text.pop();
                }
            },
            Field::MaxY => {
                if self.max_y_text.len() > 0 {
                    self.max_y_text.pop();
                }
            },
        }
    }

    /// Route one input event.  Edits, commits and focus moves act only
    /// while the settings screen is open; the screen toggle only enters the
    /// settings screen, and cancel leaves it, or ends the session from the
    /// main screen.
    pub fn handle_event(&mut self, ev: InputEvent) -> (r: Option<Notice>)
        requires
            old(self).wf(),
        ensures
            final(self).wf(),
            match ev {
                InputEvent::Character(c) => {
                    &&& r is None
                    &&& same_committed(*old(self), *final(self))
                    &&& same_derived(*old(self), *final(self))
                    &&& same_ui(*old(self), *final(self))
                    &&& if old(self).screen is Settings {
                        char_edit(*old(self), *final(self), c)
                    } else {
                        same_buffers(*old(self), *final(self))
                    }
                },
                InputEvent::Backspace => {
                    &&& r is None
                    &&& same_committed(*old(self), *final(self))
                    &&& same_derived(*old(self), *final(self))
                    &&& same_ui(*old(self), *final(self))
                    &&& if old(self).screen is Settings {
                        backspace_edit(*old(self), *final(self))
                    } else {
                        same_buffers(*old(self), *final(self))
                    }
                },
                InputEvent::Confirm => {
                    &&& same_ui(*old(self), *final(self))
                    &&& if old(self).screen is Settings {
                        confirm_applied(*old(self), *final(self), r)
                    } else {
                        r is None && commit_refused(*old(self), *final(self))
                    }
                },
                InputEvent::Arrow(d) => {
                    &&& r is None
                    &&& same_committed(*old(self), *final(self))
                    &&& same_derived(*old(self), *final(self))
                    &&& same_buffers(*old(self), *final(self))
                    &&& final(self).screen == old(self).screen
                    &&& final(self).exit == old(self).exit
                    &&& final(self).focus == if old(self).screen is Settings {
                        old(self).focus.step_spec(d)
                    } else {
                        old(self).focus
                    }
                },
                InputEvent::Cancel => {
                    &&& r is None
                    &&& same_committed(*old(self), *final(self))
                    &&& same_derived(*old(self), *final(self))
                    &&& same_buffers(*old(self), *final(self))
                    &&& final(self).focus == old(self).focus
                    &&& final(self).screen is Main
                    &&& final(self).exit == (old(self).exit || old(self).screen is Main)
                },
                InputEvent::ScreenToggle => {
                    &&& r is None
                    &&& same_committed(*old(self), *final(self))
                    &&& same_derived(*old(self), *final(self))
                    &&& same_buffers(*old(self), *final(self))
                    &&& final(self).focus == old(self).focus
                    &&& final(self).exit == old(self).exit
                    &&& final(self).screen is Settings
                },
                InputEvent::Other => {
                    &&& r is None
                    &&& same_committed(*old(self), *final(self))
                    &&& same_derived(*old(self), *final(self))
                    &&& same_buffers(*old(self), *final(self))
                    &&& same_ui(*old(self), *final(self))
                },
            },
    {
        match ev {
            InputEvent::Character(c) => {
                if matches!(self.screen, Screen::Settings) {
                    self.push_char(c);
                }
                None
            },
            InputEvent::Backspace => {
                if matches!(self.screen, Screen::Settings) {
                    self.pop_char();
                }
                None
            },
            InputEvent::Confirm => {
                if matches!(self.screen, Screen::Settings) {
                    self.commit()
                } else {
                    None
                }
            },
            InputEvent::Arrow(d) => {
                if matches!(self.screen, Screen::Settings) {
                    self.focus.shift(d);
                }
                None
            },
            InputEvent::Cancel => {
                match self.screen {
                    Screen::Settings => {
                        self.screen = Screen::Main;
                    },
                    Screen::Main => {
                        self.exit = true;
                    },
                }
                None
            },
            InputEvent::ScreenToggle => {
                self.screen = Screen::Settings;
                None
            },
            InputEvent::Other => None,
        }
    }
}

} // verus!
