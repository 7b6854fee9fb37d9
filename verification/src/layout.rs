//! The immediate-mode UI layout and interaction engine.
//!
//! Once per frame the engine walks the UI document — a list of elements in
//! document order, each carrying a constraint pair — while maintaining a
//! stack of nested layout containers. For every element it resolves the size
//! constraints against the current container, then the position constraints
//! against the resolved size, computes the absolute pixel rectangle, emits
//! draw commands, hit-tests the frame's pointer events, runs the
//! captured-input state machine of editable fields over the frame's key
//! events, and advances the container's layout cursor.

use vstd::prelude::*;
use crate::constraint::ConstraintCom;
use crate::constraint::position_in_pixels;
use crate::constraint::position_resolves;
use crate::constraint::size_in_pixels;
use crate::constraint::size_resolves;
use crate::geometry::PixelPoint;
use crate::geometry::PixelRect;
use crate::geometry::PixelSize;
use crate::geometry::rect_contains;
use crate::input::InputEvent;
use crate::input::Key;
use crate::input::KeysRes;
use crate::input::key_char;

verus! {

/// A plain text label.
pub struct TextUICom {
    pub text: String,
    pub font: String,
}

impl TextUICom {
    pub fn new(text: &str, font: &str) -> (r: TextUICom)
        ensures
            r.text@ == text@,
            r.font@ == font@,
    {
        TextUICom { text: text.to_owned(), font: font.to_owned() }
    }
}

/// A push button: drawn with `sprite`, or `sprite_pressed` on the frames in
/// which a pointer-down lands inside its rectangle; a press emits a
/// `ButtonPressed` event carrying `element_name`.
pub struct ButtonUICom {
    pub sprite: String,
    pub sprite_pressed: String,
    pub element_name: String,
}

impl ButtonUICom {
    pub fn new(sprite: &str, sprite_pressed: &str, element_name: &str) -> (r: ButtonUICom)
        ensures
            r.sprite@ == sprite@,
            r.sprite_pressed@ == sprite_pressed@,
            r.element_name@ == element_name@,
    {
        ButtonUICom {
            sprite: sprite.to_owned(),
            sprite_pressed: sprite_pressed.to_owned(),
            element_name: element_name.to_owned(),
        }
    }
}

/// An editable text field. `captured` is the exclusive keyboard-ownership
/// flag; `overflowed` records that the backend reported the rendered text as
/// overflowing the field, so the engine drops the last character before the
/// next render.
pub struct TextFieldUICom {
    pub background: String,
    pub text: Vec<char>,
    pub font: String,
    pub element_name: String,
    pub captured: bool,
    pub overflowed: bool,
}

impl TextFieldUICom {
    pub fn new(background: &str, text: Vec<char>, font: &str, element_name: &str) -> (r:
        TextFieldUICom)
        ensures
            r.background@ == background@,
            r.text@ == text@,
            r.font@ == font@,
            r.element_name@ == element_name@,
            r.captured == false,
            r.overflowed == false,
    {
        TextFieldUICom {
            background: background.to_owned(),
            text,
            font: font.to_owned(),
            element_name: element_name.to_owned(),
            captured: false,
            overflowed: false,
        }
    }
}

/// Opens a nested group laid out top to bottom.
pub struct StartVerticalGroupCom {
    pub sprite: String,
}

impl StartVerticalGroupCom {
    pub fn new(sprite: &str) -> (r: StartVerticalGroupCom)
        ensures
            r.sprite@ == sprite@,
    {
        StartVerticalGroupCom { sprite: sprite.to_owned() }
    }
}

/// Opens a nested group laid out left to right.
pub struct StartHorizontalGroupCom {
    pub sprite: String,
}

impl StartHorizontalGroupCom {
    pub fn new(sprite: &str) -> (r: StartHorizontalGroupCom)
        ensures
            r.sprite@ == sprite@,
    {
        StartHorizontalGroupCom { sprite: sprite.to_owned() }
    }
}

/// Closes the innermost open group.
#[derive(Clone, Copy, Debug, PartialEq, Eq, Structural)]
pub struct EndGroupCom;

impl EndGroupCom {
    pub fn new() -> (r: EndGroupCom)
        ensures
            r == EndGroupCom,
    {
        EndGroupCom
    }
}

/// The closed set of UI element kinds the engine understands.
pub enum UiWidget {
    Label(TextUICom),
    Button(ButtonUICom),
    Field(TextFieldUICom),
    StartVGroup(StartVerticalGroupCom),
    StartHGroup(StartHorizontalGroupCom),
    EndGroup(EndGroupCom),
}

/// One entry of the UI document: a widget with its constraint pair.
pub struct UiElement {
    pub constraint: ConstraintCom,
    pub widget: UiWidget,
}

/// Mathematical image of a widget: strings become character sequences.
pub ghost enum UiWidgetView {
    Label { text: Seq<char>, font: Seq<char> },
    Button { sprite: Seq<char>, sprite_pressed: Seq<char>, id: Seq<char> },
    Field {
        background: Seq<char>,
        text: Seq<char>,
        font: Seq<char>,
        id: Seq<char>,
        captured: bool,
        overflowed: bool,
    },
    StartVGroup { sprite: Seq<char> },
    StartHGroup { sprite: Seq<char> },
    EndGroup,
}

/// Mathematical image of one document entry.
pub ghost struct UiElementView {
    pub constraint: ConstraintCom,
    pub widget: UiWidgetView,
}

impl View for UiWidget {
    type V = UiWidgetView;

    open spec fn view(&self) -> UiWidgetView {
        match self {
            UiWidget::Label(l) => UiWidgetView::Label { text: l.text@, font: l.font@ },
            UiWidget::Button(b) => UiWidgetView::Button {
                sprite: b.sprite@,
                sprite_pressed: b.sprite_pressed@,
                id: b.element_name@,
            },
            UiWidget::Field(f) => UiWidgetView::Field {
                background: f.background@,
                text: f.text@,
                font: f.font@,
                id: f.element_name@,
                captured: f.captured,
                overflowed: f.overflowed,
            },
            UiWidget::StartVGroup(g) => UiWidgetView::StartVGroup { sprite: g.sprite@ },
            UiWidget::StartHGroup(g) => UiWidgetView::StartHGroup { sprite: g.sprite@ },
            UiWidget::EndGroup(_) => UiWidgetView::EndGroup,
        }
    }
}

impl View for UiElement {
    type V = UiElementView;

    open spec fn view(&self) -> UiElementView {
        UiElementView { constraint: self.constraint, widget: self.widget@ }
    }
}

/// The views of a whole document.
pub open spec fn elem_views(s: Seq<UiElement>) -> Seq<UiElementView> {
    s.map_values(|e: UiElement| e@)
}

/// A UI event synthesized by the engine, in emission order.
pub enum UIEvent {
    ButtonPressed { id: String },
    TextChanged { id: String, text: Vec<char> },
}

/// Mathematical image of a UI event.
pub ghost enum UIEventView {
    ButtonPressed { id: Seq<char> },
    TextChanged { id: Seq<char>, text: Seq<char> },
}

impl View for UIEvent {
    type V = UIEventView;

    open spec fn view(&self) -> UIEventView {
        match self {
            UIEvent::ButtonPressed { id } => UIEventView::ButtonPressed { id: id@ },
            UIEvent::TextChanged { id, text } => UIEventView::TextChanged { id: id@, text: text@ },
        }
    }
}

/// The views of an event list.
pub open spec fn event_views(s: Seq<UIEvent>) -> Seq<UIEventView> {
    s.map_values(|e: UIEvent| e@)
}

/// A draw command for the render backend, in issue order. `FieldText` draws
/// an editable field's text; `field` is the index of that field in the
/// document, so the backend can report text overflow back to that element.
#[allow(inconsistent_fields)]
pub enum RenderCmd {
    Sprite { key: String, rect: PixelRect },
    Text { text: String, font: String, rect: PixelRect },
    FieldText { text: Vec<char>, font: String, rect: PixelRect, field: usize },
}

/// Mathematical image of a draw command.
#[allow(inconsistent_fields)]
pub ghost enum RenderCmdView {
    Sprite { key: Seq<char>, rect: PixelRect },
    Text { text: Seq<char>, font: Seq<char>, rect: PixelRect },
    FieldText { text: Seq<char>, font: Seq<char>, rect: PixelRect, field: int },
}

impl View for RenderCmd {
    type V = RenderCmdView;

    open spec fn view(&self) -> RenderCmdView {
        match self {
            RenderCmd::Sprite { key, rect } => RenderCmdView::Sprite { key: key@, rect: *rect },
            RenderCmd::Text { text, font, rect } => RenderCmdView::Text {
                text: text@,
                font: font@,
                rect: *rect,
            },
            RenderCmd::FieldText { text, font, rect, field } => RenderCmdView::FieldText {
                text: text@,
                font: font@,
                rect: *rect,
                field: *field as int,
            },
        }
    }
}

/// The views of a command list.
pub open spec fn cmd_views(s: Seq<RenderCmd>) -> Seq<RenderCmdView> {
    s.map_values(|c: RenderCmd| c@)
}

/// One entry of the container stack: the container's absolute origin, its
/// pixel extent, the cursor offset already used along each axis, and its
/// orientation (vertical stacks children top to bottom).
#[derive(Clone, Copy, Debug, PartialEq, Eq, Structural)]
pub struct ContainerFrame {
    pub origin: PixelPoint,
    pub extent: PixelSize,
    pub offset_x: u32,
    pub offset_y: u32,
    pub vertical: bool,
}

/// The synthetic root container spanning the full screen.
pub open spec fn root_frame(screen: PixelSize) -> ContainerFrame {
    ContainerFrame {
        origin: PixelPoint { x: 0, y: 0 },
        extent: screen,
        offset_x: 0,
        offset_y: 0,
        vertical: true,
    }
}

/// A malformed UI document, surfaced immediately: unmatched group markers,
/// a constraint that cannot be satisfied in its container, or geometry that
/// leaves the pixel coordinate range.
#[derive(Clone, Copy, Debug, PartialEq, Eq, Structural)]
pub enum LayoutError {
    /// A group-end marker with only the synthetic root on the stack.
    UnmatchedGroupEnd,
    /// The document ended with a group still open.
    UnclosedGroup,
    /// A size or position constraint has no solution in its container.
    ConstraintUnsatisfiable,
    /// A resolved rectangle or cursor offset left the representable range.
    CoordinateOverflow,
}

/// Both axes' size constraints resolve in `f`, and both position
/// constraints resolve given the resolved sizes.
pub open spec fn geo_ok(c: ConstraintCom, f: ContainerFrame) -> bool {
    &&& size_resolves(c.x_size, f.extent.w as nat, f.offset_x as nat)
    &&& size_resolves(c.y_size, f.extent.h as nat, f.offset_y as nat)
    &&& position_resolves(c.x_pos, geo_w(c, f), f.extent.w as nat)
    &&& position_resolves(c.y_pos, geo_h(c, f), f.extent.h as nat)
}

/// Resolved width in pixels.
pub open spec fn geo_w(c: ConstraintCom, f: ContainerFrame) -> nat {
    size_in_pixels(c.x_size, f.extent.w as nat, f.offset_x as nat)
}

/// Resolved height in pixels.
pub open spec fn geo_h(c: ConstraintCom, f: ContainerFrame) -> nat {
    size_in_pixels(c.y_size, f.extent.h as nat, f.offset_y as nat)
}

/// Resolved local x offset from the container origin.
pub open spec fn geo_lx(c: ConstraintCom, f: ContainerFrame) -> nat {
    position_in_pixels(c.x_pos, geo_w(c, f), f.extent.w as nat)
}

/// Resolved local y offset from the container origin.
pub open spec fn geo_ly(c: ConstraintCom, f: ContainerFrame) -> nat {
    position_in_pixels(c.y_pos, geo_h(c, f), f.extent.h as nat)
}

/// Absolute x of the element: container origin plus cursor plus local.
pub open spec fn geo_px(c: ConstraintCom, f: ContainerFrame) -> int {
    f.origin.x + f.offset_x + geo_lx(c, f)
}

/// Absolute y of the element.
pub open spec fn geo_py(c: ConstraintCom, f: ContainerFrame) -> int {
    f.origin.y + f.offset_y + geo_ly(c, f)
}

/// The absolute position stays in the pixel coordinate range.
pub open spec fn coords_fit(c: ConstraintCom, f: ContainerFrame) -> bool {
    &&& i32::MIN <= geo_px(c, f) <= i32::MAX
    &&& i32::MIN <= geo_py(c, f) <= i32::MAX
}

/// The element's absolute pixel rectangle.
pub open spec fn geo_rect(c: ConstraintCom, f: ContainerFrame) -> PixelRect
    recommends
        geo_ok(c, f),
        coords_fit(c, f),
{
    PixelRect {
        pos: PixelPoint { x: geo_px(c, f) as i32, y: geo_py(c, f) as i32 },
        size: PixelSize { w: geo_w(c, f) as u32, h: geo_h(c, f) as u32 },
    }
}

/// The cursor value after this element: resolved size plus resolved local
/// offset is added along the container's primary axis.
pub open spec fn adv_total(c: ConstraintCom, f: ContainerFrame) -> int {
    if f.vertical {
        f.offset_y + geo_h(c, f) + geo_ly(c, f)
    } else {
        f.offset_x + geo_w(c, f) + geo_lx(c, f)
    }
}

/// The advanced cursor still fits its representation.
pub open spec fn adv_ok(c: ConstraintCom, f: ContainerFrame) -> bool {
    adv_total(c, f) <= u32::MAX
}

/// The container frame with its cursor advanced past this element.
pub open spec fn advanced_frame(c: ConstraintCom, f: ContainerFrame) -> ContainerFrame
    recommends
        adv_ok(c, f),
{
    if f.vertical {
        ContainerFrame { offset_y: adv_total(c, f) as u32, ..f }
    } else {
        ContainerFrame { offset_x: adv_total(c, f) as u32, ..f }
    }
}

/// Whether this input event is a pointer-down inside `rect`.
pub open spec fn mouse_down_inside(e: InputEvent, rect: PixelRect) -> bool {
    e matches InputEvent::MouseDown(x, y) && rect_contains(rect, x as int, y as int)
}

/// Whether any pointer-down of the frame lands inside `rect`.
pub open spec fn button_hit(input: Seq<InputEvent>, rect: PixelRect) -> bool {
    exists|j: int| 0 <= j < input.len() && mouse_down_inside(#[trigger] input[j], rect)
}

/// The captured-input state machine of one editable field, folded over the
/// frame's input events in queue order. Returns the text after all events,
/// the capture flag after all events, and the `TextChanged` events emitted,
/// one per text mutation, each carrying the full new text.
pub open spec fn field_fold(
    text: Seq<char>,
    captured: bool,
    id: Seq<char>,
    rect: PixelRect,
    input: Seq<InputEvent>,
    shift: bool,
) -> (Seq<char>, bool, Seq<UIEventView>)
    decreases input.len(),
{
    if input.len() == 0 {
        (text, captured, Seq::<UIEventView>::empty())
    } else {
        let prev = field_fold(text, captured, id, rect, input.drop_last(), shift);
        let t1 = prev.0;
        let c1 = prev.1;
        let out1 = prev.2;
        match input.last() {
            InputEvent::MouseDown(x, y) => {
                if rect_contains(rect, x as int, y as int) {
                    (t1, true, out1)
                } else {
                    (t1, false, out1)
                }
            },
            InputEvent::KeyDown(k) => {
                if c1 {
                    if k == Key::Backspace {
                        if t1.len() > 0 {
                            let t2 = t1.drop_last();
                            (t2, c1, out1.push(UIEventView::TextChanged { id, text: t2 }))
                        } else {
                            (t1, c1, out1)
                        }
                    } else {
                        match key_char(k, shift) {
                            Some(ch) => {
                                let t2 = t1.push(ch);
                                (t2, c1, out1.push(UIEventView::TextChanged { id, text: t2 }))
                            },
                            None => (t1, c1, out1),
                        }
                    }
                } else {
                    (t1, c1, out1)
                }
            },
            _ => (t1, c1, out1),
        }
    }
}

/// The full engine state while walking the document: the container stack,
/// the document (processed entries updated in place), and the events and
/// draw commands emitted so far.
#[verifier::ext_equal]
pub ghost struct LayoutState {
    pub stack: Seq<ContainerFrame>,
    pub elems: Seq<UiElementView>,
    pub events: Seq<UIEventView>,
    pub cmds: Seq<RenderCmdView>,
}

/// Process document entry `i`. On a malformed entry the state is returned
/// unchanged together with the error; otherwise the successor state.
pub open spec fn ui_step(s: LayoutState, i: int, input: Seq<InputEvent>, shift: bool) -> (
    LayoutState,
    Option<LayoutError>,
)
    recommends
        0 <= i < s.elems.len(),
        s.stack.len() >= 1,
{
    let e = s.elems[i];
    let f = s.stack.last();
    if e.widget is EndGroup {
        if s.stack.len() <= 1 {
            (s, Some(LayoutError::UnmatchedGroupEnd))
        } else {
            (LayoutState { stack: s.stack.drop_last(), ..s }, None)
        }
    } else if !geo_ok(e.constraint, f) {
        (s, Some(LayoutError::ConstraintUnsatisfiable))
    } else if !coords_fit(e.constraint, f) {
        (s, Some(LayoutError::CoordinateOverflow))
    } else if !adv_ok(e.constraint, f) {
        (s, Some(LayoutError::CoordinateOverflow))
    } else {
        let rect = geo_rect(e.constraint, f);
        let stack1 = s.stack.update(s.stack.len() - 1, advanced_frame(e.constraint, f));
        match e.widget {
            UiWidgetView::Label { text, font } => (
                LayoutState {
                    stack: stack1,
                    cmds: s.cmds.push(RenderCmdView::Text { text, font, rect }),
                    ..s
                },
                None,
            ),
            UiWidgetView::Button { sprite, sprite_pressed, id } => {
                if button_hit(input, rect) {
                    (
                        LayoutState {
                            stack: stack1,
                            events: s.events.push(UIEventView::ButtonPressed { id }),
                            cmds: s.cmds.push(RenderCmdView::Sprite { key: sprite_pressed, rect }),
                            ..s
                        },
                        None,
                    )
                } else {
                    (
                        LayoutState {
                            stack: stack1,
                            cmds: s.cmds.push(RenderCmdView::Sprite { key: sprite, rect }),
                            ..s
                        },
                        None,
                    )
                }
            },
            UiWidgetView::Field { background, text, font, id, captured, overflowed } => {
                let text1 = if overflowed && text.len() > 0 {
                    text.drop_last()
                } else {
                    text
                };
                let folded = field_fold(text1, captured, id, rect, input, shift);
                (
                    LayoutState {
                        stack: stack1,
                        elems: s.elems.update(
                            i,
                            UiElementView {
                                constraint: e.constraint,
                                widget: UiWidgetView::Field {
                                    background,
                                    text: folded.0,
                                    font,
                                    id,
                                    captured: folded.1,
                                    overflowed: false,
                                },
                            },
                        ),
                        events: s.events + folded.2,
                        cmds: s.cmds.push(RenderCmdView::Sprite { key: background, rect }).push(
                            RenderCmdView::FieldText { text: text1, font, rect, field: i },
                        ),
                    },
                    None,
                )
            },
            UiWidgetView::StartVGroup { sprite } => (
                LayoutState {
                    stack: stack1.push(
                        ContainerFrame {
                            origin: rect.pos,
                            extent: rect.size,
                            offset_x: 0,
                            offset_y: 0,
                            vertical: true,
                        },
                    ),
                    cmds: s.cmds.push(RenderCmdView::Sprite { key: sprite, rect }),
                    ..s
                },
                None,
            ),
            UiWidgetView::StartHGroup { sprite } => (
                LayoutState {
                    stack: stack1.push(
                        ContainerFrame {
                            origin: rect.pos,
                            extent: rect.size,
                            offset_x: 0,
                            offset_y: 0,
                            vertical: false,
                        },
                    ),
                    cmds: s.cmds.push(RenderCmdView::Sprite { key: sprite, rect }),
                    ..s
                },
                None,
            ),
            UiWidgetView::EndGroup => (s, None),
        }
    }
}

/// Process the first `n` document entries, stopping at the first error.
pub open spec fn ui_fold(s0: LayoutState, n: int, input: Seq<InputEvent>, shift: bool) -> (
    LayoutState,
    Option<LayoutError>,
)
    recommends
        0 <= n <= s0.elems.len(),
    decreases n,
{
    if n <= 0 {
        (s0, None)
    } else {
        let prev = ui_fold(s0, n - 1, input, shift);
        if prev.1 is Some {
            prev
        } else {
            ui_step(prev.0, n - 1, input, shift)
        }
    }
}

/// The engine state before any entry is processed: only the synthetic root
/// container, nothing emitted.
pub open spec fn init_state(elems: Seq<UiElementView>, screen: PixelSize) -> LayoutState {
    LayoutState {
        stack: seq![root_frame(screen)],
        elems,
        events: Seq::<UIEventView>::empty(),
        cmds: Seq::<RenderCmdView>::empty(),
    }
}

/// One whole engine pass over the document. The result is the final state
/// and, for a malformed document, the error: an unmatched group-end or an
/// unsatisfiable constraint where it is found, and a still-open group once
/// the document has ended.
pub open spec fn ui_run(
    elems: Seq<UiElementView>,
    screen: PixelSize,
    input: Seq<InputEvent>,
    shift: bool,
) -> (LayoutState, Option<LayoutError>) {
    let r = ui_fold(init_state(elems, screen), elems.len() as int, input, shift);
    if r.1 is Some {
        r
    } else if r.0.stack.len() != 1 {
        (r.0, Some(LayoutError::UnclosedGroup))
    } else {
        r
    }
}

/// Copy a text buffer.
fn clone_chars(v: &Vec<char>) -> (r: Vec<char>)
    ensures
        r@ == v@,
{
    let r = v.clone();
    proof {
        assert(r@ =~= v@);
    }
    r
}

/// Resolve the rectangle of one element against the current container, or
/// report why the document is malformed there.
fn resolve_rect(f: &ContainerFrame, c: &ConstraintCom) -> (r: Result<PixelRect, LayoutError>)
    ensures
        !geo_ok(*c, *f) ==> r == Err::<PixelRect, LayoutError>(LayoutError::ConstraintUnsatisfiable),
        geo_ok(*c, *f) && !coords_fit(*c, *f) ==> r == Err::<PixelRect, LayoutError>(
            LayoutError::CoordinateOverflow,
        ),
        geo_ok(*c, *f) && coords_fit(*c, *f) ==> r == Ok::<PixelRect, LayoutError>(geo_rect(*c, *f)),
{
    let w = match c.x_size.as_pixels(f.extent.w, f.offset_x) {
        Some(w) => w,
        None => {
            return Err(LayoutError::ConstraintUnsatisfiable);
        },
    };
    let h = match c.y_size.as_pixels(f.extent.h, f.offset_y) {
        Some(h) => h,
        None => {
            return Err(LayoutError::ConstraintUnsatisfiable);
        },
    };
    let lx = match c.x_pos.as_pixels(w, f.extent.w) {
        Some(v) => v,
        None => {
            return Err(LayoutError::ConstraintUnsatisfiable);
        },
    };
    let ly = match c.y_pos.as_pixels(h, f.extent.h) {
        Some(v) => v,
        None => {
            return Err(LayoutError::ConstraintUnsatisfiable);
        },
    };
    let px: i64 = f.origin.x as i64 + f.offset_x as i64 + lx as i64;
    let py: i64 = f.origin.y as i64 + f.offset_y as i64 + ly as i64;
    if px < i32::MIN as i64 || px > i32::MAX as i64 || py < i32::MIN as i64 || py > i32::MAX as i64 {
        return Err(LayoutError::CoordinateOverflow);
    }
    Ok(PixelRect { pos: PixelPoint { x: px as i32, y: py as i32 }, size: PixelSize { w, h } })
}

/// Advance the container's cursor past an element whose constraints are
/// known to resolve, or report that the cursor left its range.
fn advance_frame(f: &ContainerFrame, c: &ConstraintCom) -> (r: Option<ContainerFrame>)
    requires
        geo_ok(*c, *f),
    ensures
        adv_ok(*c, *f) ==> r == Some(advanced_frame(*c, *f)),
        !adv_ok(*c, *f) ==> r is None,
{
    let w = match c.x_size.as_pixels(f.extent.w, f.offset_x) {
        Some(v) => v,
        None => {
            proof {
                assert(false);
            }
            return None;
        },
    };
    let h = match c.y_size.as_pixels(f.extent.h, f.offset_y) {
        Some(v) => v,
        None => {
            proof {
                assert(false);
            }
            return None;
        },
    };
    let lx = match c.x_pos.as_pixels(w, f.extent.w) {
        Some(v) => v,
        None => {
            proof {
                assert(false);
            }
            return None;
        },
    };
    let ly = match c.y_pos.as_pixels(h, f.extent.h) {
        Some(v) => v,
        None => {
            proof {
                assert(false);
            }
            return None;
        },
    };
    if f.vertical {
        let sum: u64 = f.offset_y as u64 + h as u64 + ly as u64;
        if sum > u32::MAX as u64 {
            None
        } else {
            Some(ContainerFrame { offset_y: sum as u32, ..*f })
        }
    } else {
        let sum: u64 = f.offset_x as u64 + w as u64 + lx as u64;
        if sum > u32::MAX as u64 {
            None
        } else {
            Some(ContainerFrame { offset_x: sum as u32, ..*f })
        }
    }
}

/// Whether any queued pointer-down lands inside `rect`.
fn any_mouse_down_inside(input: &Vec<InputEvent>, rect: PixelRect) -> (r: bool)
    ensures
        r == button_hit(input@, rect),
{
    let mut j: usize = 0;
    while j < input.len()
        invariant
            j <= input@.len(),
            forall|k: int| 0 <= k < j ==> !mouse_down_inside(#[trigger] input@[k], rect),
        decreases input@.len() - j,
    {
        match input[j] {
            InputEvent::MouseDown(x, y) => {
                if rect.contains(x, y) {
                    proof {
                        assert(mouse_down_inside(input@[j as int], rect));
                    }
                    return true;
                }
            },
            _ => {},
        }
        j += 1;
    }
    false
}

/// Run one editable field's captured-input state machine over the frame's
/// input events in queue order, appending the emitted `TextChanged` events.
fn process_field_events(
    text: &mut Vec<char>,
    captured: &mut bool,
    id: &String,
    rect: PixelRect,
    input: &Vec<InputEvent>,
    shift: bool,
    events: &mut Vec<UIEvent>,
)
    ensures
        ({
            let folded = field_fold(old(text)@, *old(captured), id@, rect, input@, shift);
            &&& final(text)@ == folded.0
            &&& *final(captured) == folded.1
            &&& event_views(final(events)@) == event_views(old(events)@) + folded.2
        }),
{
    let ghost t0 = text@;
    let ghost c0 = *captured;
    let ghost ev0 = events@;
    proof {
        assert(event_views(events@) =~= event_views(ev0) + field_fold(
            t0,
            c0,
            id@,
            rect,
            input@.take(0),
            shift,
        ).2);
    }
    let mut j: usize = 0;
    while j < input.len()
        invariant
            j <= input@.len(),
            t0 == old(text)@,
            c0 == *old(captured),
            ev0 == old(events)@,
            ({
                let folded = field_fold(t0, c0, id@, rect, input@.take(j as int), shift);
                &&& text@ == folded.0
                &&& *captured == folded.1
                &&& event_views(events@) == event_views(ev0) + folded.2
            }),
        decreases input@.len() - j,
    {
        let ghost pre_ev = events@;
        let ghost folded_pre = field_fold(t0, c0, id@, rect, input@.take(j as int), shift);
        match input[j] {
            InputEvent::MouseDown(x, y) => {
                if rect.contains(x, y) {
                    *captured = true;
                } else {
                    *captured = false;
                }
            },
            InputEvent::KeyDown(k) => {
                if *captured {
                    if k == Key::Backspace {
                        if text.len() > 0 {
                            text.pop();
                            events.push(
                                UIEvent::TextChanged { id: id.clone(), text: clone_chars(text) },
                            );
                        }
                    } else {
                        match k.to_char(shift) {
                            Some(ch) => {
                                text.push(ch);
                                events.push(
                                    UIEvent::TextChanged {
                                        id: id.clone(),
                                        text: clone_chars(text),
                                    },
                                );
                            },
                            None => {},
                        }
                    }
                }
            },
            _ => {},
        }
        proof {
            assert(input@.take(j as int + 1).drop_last() =~= input@.take(j as int));
            assert(input@.take(j as int + 1).last() == input@[j as int]);
            let folded_post = field_fold(t0, c0, id@, rect, input@.take(j as int + 1), shift);
            if events@ != pre_ev {
                assert(events@.len() == pre_ev.len() + 1);
                assert(event_views(events@) =~= event_views(pre_ev).push(
                    events@[events@.len() - 1]@,
                ));
                assert((event_views(ev0) + folded_pre.2).push(events@[events@.len() - 1]@) =~= event_views(
                    ev0,
                ) + folded_pre.2.push(events@[events@.len() - 1]@));
            }
            assert(text@ == folded_post.0);
            assert(*captured == folded_post.1);
            assert(event_views(events@) =~= event_views(ev0) + folded_post.2);
        }
        j += 1;
    }
    proof {
        assert(input@.take(input@.len() as int) =~= input@);
    }
}


/// The engine state assembled from the executable pieces.
pub open spec fn state_of(
    stack: Seq<ContainerFrame>,
    elems: Seq<UiElement>,
    events: Seq<UIEvent>,
    cmds: Seq<RenderCmd>,
) -> LayoutState {
    LayoutState {
        stack,
        elems: elem_views(elems),
        events: event_views(events),
        cmds: cmd_views(cmds),
    }
}

/// Process document entry `i` against the live engine state. Exactly the
/// executable form of `ui_step`: on an error the state is left unchanged.
#[verifier::rlimit(60)]
fn ui_step_exec(
    stack: &mut Vec<ContainerFrame>,
    elems: &mut Vec<UiElement>,
    events: &mut Vec<UIEvent>,
    cmds: &mut Vec<RenderCmd>,
    i: usize,
    input: &Vec<InputEvent>,
    shift: bool,
) -> (r: Option<LayoutError>)
    requires
        i < old(elems)@.len(),
        old(stack)@.len() >= 1,
    ensures
        ({
            let res = ui_step(
                state_of(old(stack)@, old(elems)@, old(events)@, old(cmds)@),
                i as int,
                input@,
                shift,
            );
            &&& r == res.1
            &&& state_of(final(stack)@, final(elems)@, final(events)@, final(cmds)@) == res.0
        }),
{
    let ghost pre = state_of(old(stack)@, old(elems)@, old(events)@, old(cmds)@);
    let ghost res = ui_step(pre, i as int, input@, shift);
    proof {
        assert(pre.elems[i as int] == old(elems)@[i as int]@);
    }
    let mut is_end = false;
    match &elems[i].widget {
        UiWidget::EndGroup(_) => {
            is_end = true;
        },
        _ => {},
    }
    if is_end {
        if stack.len() <= 1 {
            return Some(LayoutError::UnmatchedGroupEnd);
        }
        stack.pop();
        proof {
            assert(state_of(stack@, elems@, events@, cmds@) =~= res.0);
        }
        return None;
    }
    let f: ContainerFrame = stack[stack.len() - 1];
    proof {
        assert(f == pre.stack.last());
    }
    let c: ConstraintCom = elems[i].constraint;
    let rect = match resolve_rect(&f, &c) {
        Ok(rect) => rect,
        Err(e) => {
            return Some(e);
        },
    };
    let f_adv = match advance_frame(&f, &c) {
        Some(fa) => fa,
        None => {
            return Some(LayoutError::CoordinateOverflow);
        },
    };
    let top = stack.len() - 1;
    match &elems[i].widget {
        UiWidget::Label(l) => {
            cmds.push(RenderCmd::Text { text: l.text.clone(), font: l.font.clone(), rect });
            stack.set(top, f_adv);
            proof {
                assert(cmd_views(cmds@) =~= pre.cmds.push(res.0.cmds.last()));
                assert(state_of(stack@, elems@, events@, cmds@) =~= res.0);
            }
            None
        },
        UiWidget::Button(b) => {
            if any_mouse_down_inside(input, rect) {
                events.push(UIEvent::ButtonPressed { id: b.element_name.clone() });
                cmds.push(RenderCmd::Sprite { key: b.sprite_pressed.clone(), rect });
                proof {
                    assert(event_views(events@) =~= pre.events.push(res.0.events.last()));
                    assert(cmd_views(cmds@) =~= pre.cmds.push(res.0.cmds.last()));
                }
            } else {
                cmds.push(RenderCmd::Sprite { key: b.sprite.clone(), rect });
                proof {
                    assert(cmd_views(cmds@) =~= pre.cmds.push(res.0.cmds.last()));
                }
            }
            stack.set(top, f_adv);
            proof {
                assert(state_of(stack@, elems@, events@, cmds@) =~= res.0);
            }
            None
        },
        UiWidget::Field(tf) => {
            let background = tf.background.clone();
            let font = tf.font.clone();
            let id = tf.element_name.clone();
            let mut text = clone_chars(&tf.text);
            let mut captured = tf.captured;
            let overflowed = tf.overflowed;
            // a pending overflow report truncates the text first, so this
            // frame's draw and key handling already see the shorter text
            if overflowed {
                text.pop();
            }
            cmds.push(RenderCmd::Sprite { key: background.clone(), rect });
            cmds.push(
                RenderCmd::FieldText { text: clone_chars(&text), font: font.clone(), rect, field: i },
            );
            proof {
                assert(cmd_views(cmds@) =~= pre.cmds.push(
                    RenderCmdView::Sprite { key: background@, rect },
                ).push(RenderCmdView::FieldText { text: text@, font: font@, rect, field: i as int }));
            }
            process_field_events(&mut text, &mut captured, &id, rect, input, shift, events);
            elems.set(
                i,
                UiElement {
                    constraint: c,
                    widget: UiWidget::Field(
                        TextFieldUICom {
                            background,
                            text,
                            font,
                            element_name: id,
                            captured,
                            overflowed: false,
                        },
                    ),
                },
            );
            stack.set(top, f_adv);
            proof {
                assert(elem_views(elems@) =~= res.0.elems);
                assert(event_views(events@) =~= res.0.events);
                assert(state_of(stack@, elems@, events@, cmds@) =~= res.0);
            }
            None
        },
        UiWidget::StartVGroup(g) => {
            cmds.push(RenderCmd::Sprite { key: g.sprite.clone(), rect });
            stack.set(top, f_adv);
            stack.push(
                ContainerFrame {
                    origin: rect.pos,
                    extent: rect.size,
                    offset_x: 0,
                    offset_y: 0,
                    vertical: true,
                },
            );
            proof {
                assert(cmd_views(cmds@) =~= pre.cmds.push(res.0.cmds.last()));
                assert(state_of(stack@, elems@, events@, cmds@) =~= res.0);
            }
            None
        },
        UiWidget::StartHGroup(g) => {
            cmds.push(RenderCmd::Sprite { key: g.sprite.clone(), rect });
            stack.set(top, f_adv);
            stack.push(
                ContainerFrame {
                    origin: rect.pos,
                    extent: rect.size,
                    offset_x: 0,
                    offset_y: 0,
                    vertical: false,
                },
            );
            proof {
                assert(cmd_views(cmds@) =~= pre.cmds.push(res.0.cmds.last()));
                assert(state_of(stack@, elems@, events@, cmds@) =~= res.0);
            }
            None
        },
        UiWidget::EndGroup(_) => {
            proof {
                assert(false);
            }
            None
        },
    }
}


/// Everything one successful engine pass hands back: the synthesized UI
/// events and the draw commands of the frame, each in emission order.
pub struct UiFrameOutput {
    pub events: Vec<UIEvent>,
    pub commands: Vec<RenderCmd>,
}

/// One step never changes the document's length, and a step that succeeds
/// leaves at least the root container on the stack.
pub proof fn lemma_step_shape(s: LayoutState, i: int, input: Seq<InputEvent>, shift: bool)
    requires
        0 <= i < s.elems.len(),
        s.stack.len() >= 1,
    ensures
        ({
            let step = ui_step(s, i, input, shift);
            &&& step.0.elems.len() == s.elems.len()
            &&& (step.1 is None ==> step.0.stack.len() >= 1)
        }),
{
}

/// Once the fold has hit an error, folding further entries changes nothing.
pub proof fn lemma_fold_error_stable(
    s0: LayoutState,
    n: int,
    m: int,
    input: Seq<InputEvent>,
    shift: bool,
)
    requires
        0 <= n <= m,
        ui_fold(s0, n, input, shift).1 is Some,
    ensures
        ui_fold(s0, m, input, shift) == ui_fold(s0, n, input, shift),
    decreases m - n,
{
    if m > n {
        lemma_fold_error_stable(s0, n, m - 1, input, shift);
    }
}

/// One whole engine pass over the document: the executable form of
/// `ui_run`. It resolves every element against the container stack, emits
/// draw commands and UI events in document order, and applies the editable
/// fields' edits to the document in place. On a malformed document the
/// matching error is returned and the document keeps the edits made before
/// the failing entry, exactly as `ui_run` states.
#[verifier::rlimit(60)]
pub fn run_ui_frame(
    elems: &mut Vec<UiElement>,
    screen: PixelSize,
    input: &Vec<InputEvent>,
    keys: &KeysRes,
) -> (r: Result<UiFrameOutput, LayoutError>)
    ensures
        ({
            let run = ui_run(elem_views(old(elems)@), screen, input@, keys@.contains(Key::Shift));
            &&& elem_views(final(elems)@) == run.0.elems
            &&& match r {
                Ok(out) => run.1 is None && event_views(out.events@) == run.0.events
                    && cmd_views(out.commands@) == run.0.cmds,
                Err(e) => run.1 == Some(e),
            }
        }),
{
    let shift = keys.pressed(Key::Shift);
    let ghost s0 = init_state(elem_views(old(elems)@), screen);
    let mut stack: Vec<ContainerFrame> = Vec::new();
    stack.push(
        ContainerFrame {
            origin: PixelPoint { x: 0, y: 0 },
            extent: screen,
            offset_x: 0,
            offset_y: 0,
            vertical: true,
        },
    );
    let mut events: Vec<UIEvent> = Vec::new();
    let mut cmds: Vec<RenderCmd> = Vec::new();
    proof {
        assert(stack@ =~= seq![root_frame(screen)]);
        assert(event_views(events@) =~= Seq::<UIEventView>::empty());
        assert(cmd_views(cmds@) =~= Seq::<RenderCmdView>::empty());
        assert(state_of(stack@, elems@, events@, cmds@) =~= s0);
    }
    let n = elems.len();
    let mut i: usize = 0;
    while i < n
        invariant
            i <= n,
            n == old(elems)@.len(),
            elems@.len() == n,
            s0 == init_state(elem_views(old(elems)@), screen),
            shift == keys@.contains(Key::Shift),
            ui_fold(s0, i as int, input@, shift) == (
                state_of(stack@, elems@, events@, cmds@),
                None::<LayoutError>,
            ),
            stack@.len() >= 1,
        decreases n - i,
    {
        proof {
            lemma_step_shape(
                state_of(stack@, elems@, events@, cmds@),
                i as int,
                input@,
                shift,
            );
        }
        match ui_step_exec(&mut stack, elems, &mut events, &mut cmds, i, input, shift) {
            Some(e) => {
                proof {
                    assert(ui_fold(s0, i as int + 1, input@, shift) == (
                        state_of(stack@, elems@, events@, cmds@),
                        Some(e),
                    ));
                    lemma_fold_error_stable(s0, i as int + 1, n as int, input@, shift);
                }
                return Err(e);
            },
            None => {
                proof {
                    assert(ui_fold(s0, i as int + 1, input@, shift) == (
                        state_of(stack@, elems@, events@, cmds@),
                        None::<LayoutError>,
                    ));
                    assert(stack@.len() >= 1);
                    assert(elems@.len() == n);
                }
                i += 1;
            },
        }
    }
    if stack.len() != 1 {
        return Err(LayoutError::UnclosedGroup);
    }
    Ok(UiFrameOutput { events, commands: cmds })
}


/// An element's resolved extent never depends on its position
/// constraints: size resolution is strictly prior to position resolution
/// on each axis.
pub proof fn lemma_element_size_ignores_position(
    a: ConstraintCom,
    b: ConstraintCom,
    f: ContainerFrame,
)
    requires
        a.x_size == b.x_size,
        a.y_size == b.y_size,
    ensures
        geo_w(a, f) == geo_w(b, f),
        geo_h(a, f) == geo_h(b, f),
{
}

/// Whether this entry opens a group.
pub open spec fn is_group_start(w: UiWidgetView) -> bool {
    w is StartVGroup || w is StartHGroup
}

/// Whether this entry closes a group.
pub open spec fn is_group_end(w: UiWidgetView) -> bool {
    w is EndGroup
}

/// How many of the first `n` entries open a group.
pub open spec fn count_starts(elems: Seq<UiElementView>, n: int) -> int
    decreases n,
{
    if n <= 0 {
        0
    } else {
        count_starts(elems, n - 1) + if is_group_start(elems[n - 1].widget) {
            1int
        } else {
            0int
        }
    }
}

/// How many of the first `n` entries close a group.
pub open spec fn count_ends(elems: Seq<UiElementView>, n: int) -> int
    decreases n,
{
    if n <= 0 {
        0
    } else {
        count_ends(elems, n - 1) + if is_group_end(elems[n - 1].widget) {
            1int
        } else {
            0int
        }
    }
}

/// A document whose group markers match: no prefix closes more groups than
/// it has opened, and the whole document closes every group it opens.
pub open spec fn balanced(elems: Seq<UiElementView>) -> bool {
    &&& forall|m: int|
        0 <= m <= elems.len() ==> #[trigger] count_ends(elems, m) <= count_starts(elems, m)
    &&& count_ends(elems, elems.len() as int) == count_starts(elems, elems.len() as int)
}

/// Entries keep their group-marker kind across a fold (only editable
/// fields are rewritten, and a field stays a field).
pub open spec fn same_marker(a: UiElementView, b: UiElementView) -> bool {
    &&& is_group_start(a.widget) == is_group_start(b.widget)
    &&& is_group_end(a.widget) == is_group_end(b.widget)
}

/// An error-free fold keeps the document's marker structure and its stack
/// depth is exactly one more than the surplus of group-starts over
/// group-ends among the entries processed.
pub proof fn lemma_fold_depth(s0: LayoutState, n: int, input: Seq<InputEvent>, shift: bool)
    requires
        0 <= n <= s0.elems.len(),
        s0.stack.len() == 1,
    ensures
        ({
            let fold = ui_fold(s0, n, input, shift);
            fold.1 is None ==> {
                &&& fold.0.elems.len() == s0.elems.len()
                &&& forall|j: int|
                    0 <= j < s0.elems.len() ==> same_marker(
                        #[trigger] fold.0.elems[j],
                        s0.elems[j],
                    )
                &&& fold.0.stack.len() >= 1
                &&& fold.0.stack.len() == 1 + count_starts(s0.elems, n) - count_ends(s0.elems, n)
            }
        }),
    decreases n,
{
    if n > 0 {
        lemma_fold_depth(s0, n - 1, input, shift);
        let prev = ui_fold(s0, n - 1, input, shift);
        if prev.1 is None {
            lemma_step_shape(prev.0, n - 1, input, shift);
            let step = ui_step(prev.0, n - 1, input, shift);
            if step.1 is None {
                assert(same_marker(prev.0.elems[n - 1], s0.elems[n - 1]));
            }
        } else {
            assert(ui_fold(s0, n, input, shift) == prev);
        }
    }
}

/// A fold without an error has no error on any prefix either.
pub proof fn lemma_fold_prefix_ok(
    s0: LayoutState,
    m: int,
    n: int,
    input: Seq<InputEvent>,
    shift: bool,
)
    requires
        0 <= m <= n,
        ui_fold(s0, n, input, shift).1 is None,
    ensures
        ui_fold(s0, m, input, shift).1 is None,
{
    if ui_fold(s0, m, input, shift).1 is Some {
        lemma_fold_error_stable(s0, m, n, input, shift);
    }
}

/// Every group-start has a matching group-end before the document ends: a
/// document on which the engine pass succeeds is balanced. Violations are
/// surfaced as `UnmatchedGroupEnd` or `UnclosedGroup`, never ignored.
pub proof fn lemma_success_implies_balanced(
    elems: Seq<UiElementView>,
    screen: PixelSize,
    input: Seq<InputEvent>,
    shift: bool,
)
    requires
        ui_run(elems, screen, input, shift).1 is None,
    ensures
        balanced(elems),
{
    let s0 = init_state(elems, screen);
    let len = elems.len() as int;
    lemma_fold_depth(s0, len, input, shift);
    assert forall|m: int| 0 <= m <= len implies #[trigger] count_ends(elems, m) <= count_starts(
        elems,
        m,
    ) by {
        lemma_fold_prefix_ok(s0, m, len, input, shift);
        lemma_fold_depth(s0, m, input, shift);
    }
}

/// No field carries a pending overflow report from the backend.
pub open spec fn no_overflow_pending(e: UiElementView) -> bool {
    e.widget matches UiWidgetView::Field { overflowed, .. } ==> !overflowed
}

/// With no input, a fold emits nothing and rewrites nothing.
proof fn lemma_fold_empty_input(s0: LayoutState, n: int, shift: bool)
    requires
        0 <= n <= s0.elems.len(),
        s0.events == Seq::<UIEventView>::empty(),
        forall|j: int| 0 <= j < s0.elems.len() ==> no_overflow_pending(#[trigger] s0.elems[j]),
    ensures
        ({
            let fold = ui_fold(s0, n, Seq::<InputEvent>::empty(), shift);
            &&& fold.0.elems == s0.elems
            &&& fold.0.events == Seq::<UIEventView>::empty()
        }),
    decreases n,
{
    let input = Seq::<InputEvent>::empty();
    if n > 0 {
        lemma_fold_empty_input(s0, n - 1, shift);
        let prev = ui_fold(s0, n - 1, input, shift);
        if prev.1 is None {
            let e = prev.0.elems[n - 1];
            let f = prev.0.stack.last();
            assert(no_overflow_pending(s0.elems[n - 1]));
            match e.widget {
                UiWidgetView::Button { sprite, sprite_pressed, id } => {
                    assert(!button_hit(input, geo_rect(e.constraint, f)));
                },
                UiWidgetView::Field { background, text, font, id, captured, overflowed } => {
                    let rect = geo_rect(e.constraint, f);
                    assert(field_fold(text, captured, id, rect, input, shift) == (
                        text,
                        captured,
                        Seq::<UIEventView>::empty(),
                    ));
                    assert(!overflowed);
                    let step = ui_step(prev.0, n - 1, input, shift);
                    if step.1 is None {
                        assert(e.widget == (UiWidgetView::Field {
                            background,
                            text,
                            font,
                            id,
                            captured,
                            overflowed: false,
                        }));
                        assert(step.0.elems =~= prev.0.elems);
                        assert(step.0.events =~= prev.0.events);
                    }
                },
                _ => {},
            }
        }
    }
}

/// Idempotence of the engine on a quiet frame: with an empty input queue
/// and no pending overflow report, a pass emits no UI events and leaves the
/// document unchanged — so a second pass in the same frame produces exactly
/// the same rectangles and draw commands and again no events.
pub proof fn lemma_empty_input_idempotent(
    elems: Seq<UiElementView>,
    screen: PixelSize,
    shift: bool,
)
    requires
        forall|j: int| 0 <= j < elems.len() ==> no_overflow_pending(#[trigger] elems[j]),
    ensures
        ui_run(elems, screen, Seq::<InputEvent>::empty(), shift).0.events == Seq::<
            UIEventView,
        >::empty(),
        ui_run(elems, screen, Seq::<InputEvent>::empty(), shift).0.elems == elems,
        ui_run(
            ui_run(elems, screen, Seq::<InputEvent>::empty(), shift).0.elems,
            screen,
            Seq::<InputEvent>::empty(),
            shift,
        ) == ui_run(elems, screen, Seq::<InputEvent>::empty(), shift),
{
    let s0 = init_state(elems, screen);
    lemma_fold_empty_input(s0, elems.len() as int, shift);
}

} // verus!
