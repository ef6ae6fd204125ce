//! Widget-facing rules: geometry, focus transfer, and the log lines test
//! widgets write.
//!
//! Widgets themselves are consumers of the event-delivery interface and live
//! with the embedding program (their behaviour is a bag of callbacks); the
//! rules they all share — clamping a preferred size into layout constraints,
//! which widget gains and loses focus, and the exact text a test widget logs
//! — are decided here.

use vstd::prelude::*;

verus! {

/// Identifies one widget; fresh ids come from the context's
/// [`crate::graphics::UidSource`].
pub type WidgetId = u64;

/// A width and height, in pixels.
#[derive(Clone, Copy, Debug, PartialEq, Eq, Structural)]
pub struct UISize {
    pub width: u32,
    pub height: u32,
}

impl UISize {
    pub fn new(width: u32, height: u32) -> (r: UISize)
        ensures
            r == (UISize { width, height }),
    {
        UISize { width, height }
    }
}

/// A position, in pixels from the top-left corner.
#[derive(Clone, Copy, Debug, PartialEq, Eq, Structural)]
pub struct UIPos {
    pub x: i32,
    pub y: i32,
}

/// A placed rectangle.
#[derive(Clone, Copy, Debug, PartialEq, Eq, Structural)]
pub struct UIRect {
    pub pos: UIPos,
    pub size: UISize,
}

/// The bounds a layout pass hands a widget.
#[derive(Clone, Copy, Debug, PartialEq, Eq, Structural)]
pub struct UISizeConstraint {
    pub min: UISize,
    pub max: UISize,
}

impl UISizeConstraint {
    /// The constraint admits at least one size.
    pub open spec fn wf(self) -> bool {
        self.min.width <= self.max.width && self.min.height <= self.max.height
    }
}

/// A value clamped into an interval.
pub open spec fn spec_clamp(v: u32, lo: u32, hi: u32) -> u32 {
    if v < lo {
        lo
    } else if v > hi {
        hi
    } else {
        v
    }
}

/// The size a test widget answers a layout pass with: its preferred size,
/// clamped into the constraints.
pub fn layout_clamped(pref: UISize, constraint: &UISizeConstraint) -> (r: UISize)
    requires
        constraint.wf(),
    ensures
        r.width == spec_clamp(pref.width, constraint.min.width, constraint.max.width),
        r.height == spec_clamp(pref.height, constraint.min.height, constraint.max.height),
        constraint.min.width <= r.width <= constraint.max.width,
        constraint.min.height <= r.height <= constraint.max.height,
{
    let width = if pref.width < constraint.min.width {
        constraint.min.width
    } else if pref.width > constraint.max.width {
        constraint.max.width
    } else {
        pref.width
    };
    let height = if pref.height < constraint.min.height {
        constraint.min.height
    } else if pref.height > constraint.max.height {
        constraint.max.height
    } else {
        pref.height
    };
    UISize { width, height }
}

/// Which widget holds focus, and which held it before.
#[derive(Clone, Copy, Debug, PartialEq, Eq, Structural)]
pub struct FocusState {
    pub focused: Option<WidgetId>,
    pub prev_focused: Option<WidgetId>,
}

/// The focus-change notifications one focus transfer asks for.
#[derive(Clone, Copy, Debug, PartialEq, Eq, Structural)]
pub struct FocusActions {
    /// Notify this widget that it lost focus.
    pub unfocus: Option<WidgetId>,
    /// Notify this widget that it gained focus.
    pub focus: Option<WidgetId>,
    /// A second widget tried to take focus within one press: refused, warn.
    pub refused: bool,
}

impl FocusState {
    /// No widget focused.
    pub fn new() -> (r: FocusState)
        ensures
            r == (FocusState { focused: None, prev_focused: None }),
    {
        FocusState { focused: None, prev_focused: None }
    }

    /// Transfer focus to `new_widget`. Only one widget may take focus per
    /// press: while one is focused, further requests are refused. When focus
    /// moves back to the widget that held it before, nobody is notified.
    pub fn set_focus_widget(&mut self, new_widget: Option<WidgetId>) -> (r: FocusActions)
        ensures
            old(self).focused is Some ==> {
                &&& *final(self) == *old(self)
                &&& r == (FocusActions { unfocus: None, focus: None, refused: true })
            },
            old(self).focused is None ==> {
                &&& final(self).focused == new_widget
                &&& if old(self).prev_focused == new_widget {
                    &&& final(self).prev_focused == old(self).prev_focused
                    &&& r == (FocusActions { unfocus: None, focus: None, refused: false })
                } else {
                    &&& final(self).prev_focused is None
                    &&& r == (FocusActions {
                        unfocus: old(self).prev_focused,
                        focus: new_widget,
                        refused: false,
                    })
                }
            },
    {
        if self.focused.is_some() {
            return FocusActions { unfocus: None, focus: None, refused: true };
        }
        self.focused = new_widget;
        let same = match (self.prev_focused, self.focused) {
            (Some(p), Some(n)) => p == n,
            (None, None) => true,
            _ => false,
        };
        if same {
            return FocusActions { unfocus: None, focus: None, refused: false };
        }
        let unfocus = self.prev_focused.take();
        FocusActions { unfocus, focus: new_widget, refused: false }
    }
}

/// The decimal digit for one value below ten.
pub open spec fn spec_digit(d: int) -> char {
    if d == 0 {
        '0'
    } else if d == 1 {
        '1'
    } else if d == 2 {
        '2'
    } else if d == 3 {
        '3'
    } else if d == 4 {
        '4'
    } else if d == 5 {
        '5'
    } else if d == 6 {
        '6'
    } else if d == 7 {
        '7'
    } else if d == 8 {
        '8'
    } else {
        '9'
    }
}

/// The decimal spelling of a non-negative number, most significant digit
/// first.
pub open spec fn spec_decimal(n: int) -> Seq<char>
    decreases n,
{
    if n < 10 {
        seq![spec_digit(n)]
    } else {
        spec_decimal(n / 10).push(spec_digit(n % 10))
    }
}

/// One decimal digit as text.
fn digit_str(d: u64) -> (r: &'static str)
    requires
        d < 10,
    ensures
        r@ == seq![spec_digit(d as int)],
{
    proof {
        reveal_strlit("0");
        reveal_strlit("1");
        reveal_strlit("2");
        reveal_strlit("3");
        reveal_strlit("4");
        reveal_strlit("5");
        reveal_strlit("6");
        reveal_strlit("7");
        reveal_strlit("8");
        reveal_strlit("9");
    }
    let r: &'static str = if d == 0 {
        "0"
    } else if d == 1 {
        "1"
    } else if d == 2 {
        "2"
    } else if d == 3 {
        "3"
    } else if d == 4 {
        "4"
    } else if d == 5 {
        "5"
    } else if d == 6 {
        "6"
    } else if d == 7 {
        "7"
    } else if d == 8 {
        "8"
    } else {
        "9"
    };
    proof {
        assert(r@ =~= seq![spec_digit(d as int)]);
    }
    r
}

/// A number spelled in decimal.
pub fn u64_to_string(n: u64) -> (r: String)
    ensures
        r@ == spec_decimal(n as int),
    decreases n,
{
    if n < 10 {
        String::from_str(digit_str(n))
    } else {
        let mut s = u64_to_string(n / 10);
        s.append(digit_str(n % 10));
        proof {
            assert(s@ =~= spec_decimal(n as int));
        }
        s
    }
}

/// What a test widget appends to its log when it sees one event: the event
/// category's prefix, the event's own label when asked for, its own id, and a
/// line break.
pub fn test_log_line(prefix: &str, event_label: Option<&str>, test_id: u64) -> (r: String)
    ensures
        r@ == prefix@ + (match event_label {
            Some(label) => label@ + " - "@,
            None => Seq::<char>::empty(),
        }) + spec_decimal(test_id as int) + "\n"@,
{
    let mut line = String::from_str(prefix);
    match event_label {
        Some(label) => {
            line.append(label);
            line.append(" - ");
        },
        None => {
        },
    }
    let digits = u64_to_string(test_id);
    line.append(digits.as_str());
    line.append("\n");
    proof {
        assert(line@ =~= prefix@ + (match event_label {
            Some(label) => label@ + " - "@,
            None => Seq::<char>::empty(),
        }) + spec_decimal(test_id as int) + "\n"@);
    }
    line
}

} // verus!
