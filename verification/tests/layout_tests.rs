use invader::constraint::{ConstraintCom, PositionConstraint, SizeConstraint};
use invader::geometry::{PixelPoint, PixelRect, PixelSize};
use invader::input::{InputEvent, Key, KeysRes};
use invader::layout::{
    run_ui_frame, ButtonUICom, EndGroupCom, LayoutError, RenderCmd, StartVerticalGroupCom,
    TextFieldUICom, TextUICom, UIEvent, UiElement, UiWidget,
};

fn fill_constraint() -> ConstraintCom {
    ConstraintCom::new(
        PositionConstraint::Start,
        PositionConstraint::Start,
        SizeConstraint::Fill,
        SizeConstraint::Fill,
    )
}

fn button(name: &str) -> UiWidget {
    UiWidget::Button(ButtonUICom::new("btn", "btn_pressed", name))
}

fn rect(x: i32, y: i32, w: u32, h: u32) -> PixelRect {
    PixelRect { pos: PixelPoint { x, y }, size: PixelSize { w, h } }
}

fn cmd_rect(cmd: &RenderCmd) -> PixelRect {
    match cmd {
        RenderCmd::Sprite { rect, .. } => *rect,
        RenderCmd::Text { rect, .. } => *rect,
        RenderCmd::FieldText { rect, .. } => *rect,
    }
}

#[test]
fn hit_test_upper_bound_exclusive() {
    let r = rect(10, 20, 30, 40);
    assert!(r.contains(10, 20));
    assert!(r.contains(39, 59));
    assert!(!r.contains(40, 30)); // x exactly at origin + extent
    assert!(!r.contains(20, 60)); // y exactly at origin + extent
    assert!(!r.contains(40, 60));
}

#[test]
fn size_constraints_resolve_exactly() {
    assert_eq!(SizeConstraint::Pixels(250).as_pixels(100, 0), Some(250));
    assert_eq!(SizeConstraint::Proportion(1, 2).as_pixels(801, 0), Some(400));
    assert_eq!(SizeConstraint::Proportion(3, 2).as_pixels(100, 0), Some(150));
    assert_eq!(SizeConstraint::Proportion(1, 0).as_pixels(100, 0), None);
    assert_eq!(SizeConstraint::NegativePixels(30).as_pixels(100, 0), Some(70));
    assert_eq!(SizeConstraint::NegativePixels(101).as_pixels(100, 0), None);
    assert_eq!(SizeConstraint::Fill.as_pixels(100, 60), Some(40));
    assert_eq!(SizeConstraint::Fill.as_pixels(100, 101), None);
}

#[test]
fn position_constraints_resolve_exactly() {
    assert_eq!(PositionConstraint::Start.as_pixels(10, 100), Some(0));
    assert_eq!(PositionConstraint::Center.as_pixels(10, 100), Some(45));
    assert_eq!(PositionConstraint::End.as_pixels(10, 100), Some(90));
    assert_eq!(PositionConstraint::End.as_pixels(101, 100), None);
    assert_eq!(PositionConstraint::StartPixelOffset(7).as_pixels(10, 100), Some(7));
}

#[test]
fn vertical_group_two_fill_buttons_share_height() {
    // A 200 by 100 vertical group holding two buttons with `Fill` height:
    // the rectangles stack with zero gap and together cover exactly the
    // group's height, each as wide as the group.
    let mut doc = vec![
        UiElement {
            constraint: ConstraintCom::new(
                PositionConstraint::Start,
                PositionConstraint::Start,
                SizeConstraint::Pixels(200),
                SizeConstraint::Pixels(100),
            ),
            widget: UiWidget::StartVGroup(StartVerticalGroupCom::new("panel")),
        },
        UiElement { constraint: fill_constraint(), widget: button("a") },
        UiElement { constraint: fill_constraint(), widget: button("b") },
        UiElement { constraint: fill_constraint(), widget: UiWidget::EndGroup(EndGroupCom::new()) },
    ];
    let screen = PixelSize { w: 800, h: 600 };
    let out = run_ui_frame(&mut doc, screen, &Vec::new(), &KeysRes::new()).unwrap();
    assert!(out.events.is_empty());
    assert_eq!(out.commands.len(), 3);
    assert_eq!(cmd_rect(&out.commands[0]), rect(0, 0, 200, 100));
    let first = cmd_rect(&out.commands[1]);
    let second = cmd_rect(&out.commands[2]);
    assert_eq!(first, rect(0, 0, 200, 100));
    assert_eq!(second, rect(0, 100, 200, 0));
    // zero gap, combined height equal to the group's height, full width
    assert_eq!(first.pos.y + first.size.h as i32, second.pos.y);
    assert_eq!(first.size.h + second.size.h, 100);
    assert_eq!(first.size.w, 200);
    assert_eq!(second.size.w, 200);
}

#[test]
fn captured_field_applies_key_sequence() {
    // A captured editable field receiving 'h', 'i', Backspace ends with
    // text "h"; every mutation emits a TextChanged event with the full new
    // text, so the last event carries "h".
    let mut doc = vec![UiElement {
        constraint: ConstraintCom::new(
            PositionConstraint::Start,
            PositionConstraint::Start,
            SizeConstraint::Pixels(120),
            SizeConstraint::Pixels(20),
        ),
        widget: UiWidget::Field(TextFieldUICom {
            background: String::from("bg"),
            text: Vec::new(),
            font: String::from("mono"),
            element_name: String::from("name_entry"),
            captured: true,
            overflowed: false,
        }),
    }];
    let input = vec![
        InputEvent::KeyDown(Key::H),
        InputEvent::KeyDown(Key::I),
        InputEvent::KeyDown(Key::Backspace),
    ];
    let screen = PixelSize { w: 800, h: 600 };
    let out = run_ui_frame(&mut doc, screen, &input, &KeysRes::new()).unwrap();
    match &doc[0].widget {
        UiWidget::Field(f) => {
            assert_eq!(f.text, vec!['h']);
            assert!(f.captured);
        }
        _ => panic!("field expected"),
    }
    let texts: Vec<Vec<char>> = out
        .events
        .iter()
        .map(|e| match e {
            UIEvent::TextChanged { id, text } => {
                assert_eq!(id, "name_entry");
                text.clone()
            }
            _ => panic!("only text events expected"),
        })
        .collect();
    assert_eq!(texts, vec![vec!['h'], vec!['h', 'i'], vec!['h']]);
}

#[test]
fn pointer_down_outside_releases_every_field() {
    // A pointer-down at (5, 5) outside every editable field's rectangle
    // sets every field's captured flag to false in the same frame.
    let field = |name: &str, offset: u32| UiElement {
        constraint: ConstraintCom::new(
            PositionConstraint::StartPixelOffset(100),
            PositionConstraint::StartPixelOffset(offset),
            SizeConstraint::Pixels(120),
            SizeConstraint::Pixels(20),
        ),
        widget: UiWidget::Field(TextFieldUICom {
            background: String::from("bg"),
            text: vec!['x'],
            font: String::from("mono"),
            element_name: String::from(name),
            captured: true,
            overflowed: false,
        }),
    };
    let mut doc = vec![field("one", 100), field("two", 300)];
    let input = vec![InputEvent::MouseDown(5, 5)];
    let screen = PixelSize { w: 800, h: 600 };
    run_ui_frame(&mut doc, screen, &input, &KeysRes::new()).unwrap();
    for elem in &doc {
        match &elem.widget {
            UiWidget::Field(f) => assert!(!f.captured),
            _ => panic!("field expected"),
        }
    }
}

#[test]
fn pointer_down_inside_presses_button() {
    let mut doc = vec![UiElement {
        constraint: ConstraintCom::new(
            PositionConstraint::Start,
            PositionConstraint::Start,
            SizeConstraint::Pixels(100),
            SizeConstraint::Pixels(50),
        ),
        widget: button("fire"),
    }];
    let screen = PixelSize { w: 800, h: 600 };
    let input = vec![InputEvent::MouseDown(99, 49)];
    let out = run_ui_frame(&mut doc, screen, &input, &KeysRes::new()).unwrap();
    assert_eq!(out.events.len(), 1);
    match &out.events[0] {
        UIEvent::ButtonPressed { id } => assert_eq!(id, "fire"),
        _ => panic!("button event expected"),
    }
    match &out.commands[0] {
        RenderCmd::Sprite { key, .. } => assert_eq!(key, "btn_pressed"),
        _ => panic!("sprite expected"),
    }
}

#[test]
fn pointer_down_on_edge_does_not_press() {
    let mut doc = vec![UiElement {
        constraint: ConstraintCom::new(
            PositionConstraint::Start,
            PositionConstraint::Start,
            SizeConstraint::Pixels(100),
            SizeConstraint::Pixels(50),
        ),
        widget: button("fire"),
    }];
    let screen = PixelSize { w: 800, h: 600 };
    let input = vec![InputEvent::MouseDown(100, 25)];
    let out = run_ui_frame(&mut doc, screen, &input, &KeysRes::new()).unwrap();
    assert!(out.events.is_empty());
    match &out.commands[0] {
        RenderCmd::Sprite { key, .. } => assert_eq!(key, "btn"),
        _ => panic!("sprite expected"),
    }
}

#[test]
fn unmatched_group_end_is_reported() {
    let mut doc = vec![UiElement {
        constraint: fill_constraint(),
        widget: UiWidget::EndGroup(EndGroupCom::new()),
    }];
    let screen = PixelSize { w: 800, h: 600 };
    let r = run_ui_frame(&mut doc, screen, &Vec::new(), &KeysRes::new());
    assert_eq!(r.err(), Some(LayoutError::UnmatchedGroupEnd));
}

#[test]
fn unclosed_group_is_reported() {
    let mut doc = vec![UiElement {
        constraint: fill_constraint(),
        widget: UiWidget::StartVGroup(StartVerticalGroupCom::new("panel")),
    }];
    let screen = PixelSize { w: 800, h: 600 };
    let r = run_ui_frame(&mut doc, screen, &Vec::new(), &KeysRes::new());
    assert_eq!(r.err(), Some(LayoutError::UnclosedGroup));
}

#[test]
fn unsatisfiable_constraint_is_reported() {
    let mut doc = vec![UiElement {
        constraint: ConstraintCom::new(
            PositionConstraint::End,
            PositionConstraint::Start,
            SizeConstraint::Pixels(1000),
            SizeConstraint::Pixels(50),
        ),
        widget: button("wide"),
    }];
    let screen = PixelSize { w: 800, h: 600 };
    let r = run_ui_frame(&mut doc, screen, &Vec::new(), &KeysRes::new());
    assert_eq!(r.err(), Some(LayoutError::ConstraintUnsatisfiable));
}

#[test]
fn cursor_overflow_is_reported() {
    let tall = || UiElement {
        constraint: ConstraintCom::new(
            PositionConstraint::Start,
            PositionConstraint::Start,
            SizeConstraint::Pixels(10),
            SizeConstraint::Pixels(u32::MAX),
        ),
        widget: UiWidget::Label(TextUICom::new("big", "mono")),
    };
    let mut doc = vec![tall(), tall()];
    let screen = PixelSize { w: 800, h: 600 };
    let r = run_ui_frame(&mut doc, screen, &Vec::new(), &KeysRes::new());
    assert_eq!(r.err(), Some(LayoutError::CoordinateOverflow));
}

#[test]
fn quiet_frame_is_idempotent() {
    // Two engine passes with an unchanged document and no input in between
    // produce identical rectangles and no events.
    let mut doc = vec![
        UiElement {
            constraint: ConstraintCom::new(
                PositionConstraint::Center,
                PositionConstraint::Center,
                SizeConstraint::Proportion(1, 2),
                SizeConstraint::Pixels(100),
            ),
            widget: UiWidget::StartVGroup(StartVerticalGroupCom::new("panel")),
        },
        UiElement {
            constraint: fill_constraint(),
            widget: UiWidget::Label(TextUICom::new("hello", "mono")),
        },
        UiElement { constraint: fill_constraint(), widget: UiWidget::EndGroup(EndGroupCom::new()) },
    ];
    let screen = PixelSize { w: 800, h: 600 };
    let first = run_ui_frame(&mut doc, screen, &Vec::new(), &KeysRes::new()).unwrap();
    let second = run_ui_frame(&mut doc, screen, &Vec::new(), &KeysRes::new()).unwrap();
    assert!(first.events.is_empty());
    assert!(second.events.is_empty());
    let first_rects: Vec<PixelRect> = first.commands.iter().map(cmd_rect).collect();
    let second_rects: Vec<PixelRect> = second.commands.iter().map(cmd_rect).collect();
    assert_eq!(first_rects, second_rects);
    assert_eq!(first_rects[0], rect(200, 250, 400, 100));
}

#[test]
fn overflowed_field_drops_last_character_before_next_render() {
    let mut doc = vec![UiElement {
        constraint: ConstraintCom::new(
            PositionConstraint::Start,
            PositionConstraint::Start,
            SizeConstraint::Pixels(120),
            SizeConstraint::Pixels(20),
        ),
        widget: UiWidget::Field(TextFieldUICom {
            background: String::from("bg"),
            text: vec!['a', 'b', 'c'],
            font: String::from("mono"),
            element_name: String::from("entry"),
            captured: false,
            overflowed: true,
        }),
    }];
    let screen = PixelSize { w: 800, h: 600 };
    let out = run_ui_frame(&mut doc, screen, &Vec::new(), &KeysRes::new()).unwrap();
    // the pass after the report already draws the truncated text
    match &out.commands[1] {
        RenderCmd::FieldText { text, field, .. } => {
            assert_eq!(*text, vec!['a', 'b']);
            assert_eq!(*field, 0);
        }
        _ => panic!("field text expected"),
    }
    // the report is consumed with the truncation
    match &doc[0].widget {
        UiWidget::Field(f) => {
            assert_eq!(f.text, vec!['a', 'b']);
            assert!(!f.overflowed);
        }
        _ => panic!("field expected"),
    }
    assert!(out.events.is_empty());
}

#[test]
fn overflow_truncation_applies_before_key_events() {
    // the pending truncation lands before the frame's key events: with
    // text "ab" overflowing and a 'c' typed in the same frame, 'b' is
    // dropped first and 'c' appended after, ending in "ac"
    let mut doc = vec![UiElement {
        constraint: ConstraintCom::new(
            PositionConstraint::Start,
            PositionConstraint::Start,
            SizeConstraint::Pixels(120),
            SizeConstraint::Pixels(20),
        ),
        widget: UiWidget::Field(TextFieldUICom {
            background: String::from("bg"),
            text: vec!['a', 'b'],
            font: String::from("mono"),
            element_name: String::from("entry"),
            captured: true,
            overflowed: true,
        }),
    }];
    let input = vec![InputEvent::KeyDown(Key::C)];
    let screen = PixelSize { w: 800, h: 600 };
    let out = run_ui_frame(&mut doc, screen, &input, &KeysRes::new()).unwrap();
    // the frame's draw already shows the truncated text
    match &out.commands[1] {
        RenderCmd::FieldText { text, .. } => assert_eq!(*text, vec!['a']),
        _ => panic!("field text expected"),
    }
    match &doc[0].widget {
        UiWidget::Field(f) => {
            assert_eq!(f.text, vec!['a', 'c']);
            assert!(!f.overflowed);
        }
        _ => panic!("field expected"),
    }
    assert_eq!(out.events.len(), 1);
    match &out.events[0] {
        UIEvent::TextChanged { text, .. } => assert_eq!(*text, vec!['a', 'c']),
        _ => panic!("text event expected"),
    }
}

#[test]
fn position_kind_never_changes_size() {
    // resolving the same size constraints under every position kind gives
    // the same rectangle sizes
    let positions = [
        PositionConstraint::Start,
        PositionConstraint::Center,
        PositionConstraint::End,
        PositionConstraint::StartPixelOffset(5),
    ];
    let mut sizes = Vec::new();
    for pos in positions {
        let mut doc = vec![UiElement {
            constraint: ConstraintCom::new(
                pos,
                pos,
                SizeConstraint::Proportion(1, 4),
                SizeConstraint::NegativePixels(100),
            ),
            widget: button("probe"),
        }];
        let screen = PixelSize { w: 800, h: 600 };
        let out = run_ui_frame(&mut doc, screen, &Vec::new(), &KeysRes::new()).unwrap();
        sizes.push(cmd_rect(&out.commands[0]).size);
    }
    for s in &sizes {
        assert_eq!(*s, sizes[0]);
        assert_eq!((s.w, s.h), (200, 500));
    }
}
