use ptgui::button::Button;
use ptgui::common::DrawableType;
use ptgui::draw_handle::{DrawCommand, DrawHandle};
use ptgui::fraction::Fraction;
use ptgui::gui_component::GuiComponentBehaviour;
use ptgui::label::Label;
use ptgui::slider::Slider;
use ptgui::types::{Colour, Pointer};

fn pointer(x: i32, y: i32) -> Pointer {
    Pointer { position: (x, y), pressed: false, held: false }
}

const GRAY: Colour = Colour { r: 130, g: 130, b: 130, a: 255 };
const DARK_GRAY: Colour = Colour { r: 80, g: 80, b: 80, a: 255 };
const RAY_WHITE: Colour = Colour { r: 245, g: 245, b: 245, a: 255 };
const LIGHT_GRAY: Colour = Colour { r: 200, g: 200, b: 200, a: 255 };
const BLACK: Colour = Colour { r: 0, g: 0, b: 0, a: 255 };

#[test]
fn button_width_follows_the_measured_text() {
    let mut button = Button::new("Hi", "greet", 20, (0, 0), 17);
    assert_eq!(button.get_dimensions(), (27, 50));
    assert_eq!(button.get_text(), "Hi");
    assert_eq!(button.get_font_size(), 20);

    button.set_text("Longer", 63);
    assert_eq!(button.get_dimensions(), (73, 50));
    assert_eq!(button.get_text(), "Longer");
}

#[test]
fn button_set_text_keeps_the_height() {
    let mut button = Button::new_with_dimensions("Hi", "greet", 20, (3, 4), (120, 77));
    assert_eq!(button.get_dimensions(), (120, 77));
    let shown = button.set_text("Other", 30).get_dimensions();
    assert_eq!(shown, (40, 77));
    assert_eq!(button.get_position(), (3, 4));
}

#[test]
fn button_width_saturates() {
    let button = Button::new("Hi", "greet", 20, (0, 0), i32::MAX - 3);
    assert_eq!(button.get_dimensions(), (i32::MAX, 50));
}

#[test]
fn button_hover_sets_the_colour() {
    let mut button = Button::new("Hi", "greet", 20, (10, 20), 40);
    assert_eq!(button.get_colour(), GRAY);
    assert!(button.is_hovered((30, 40)));
    assert_eq!(button.get_colour(), DARK_GRAY);
    assert!(!button.is_hovered((10, 40)));
    assert_eq!(button.get_colour(), GRAY);
    assert!(!button.is_hovered((60, 40)));
    assert!(button.is_hovered((59, 69)));
}

#[test]
fn button_click_is_edge_triggered() {
    let mut button = Button::new("Hi", "greet", 20, (10, 20), 40);
    assert_eq!(button.is_clicked((30, 40), true), "greet");
    assert_eq!(button.is_clicked((30, 40), false), "");
    assert_eq!(button.is_clicked((300, 40), true), "");
    assert_eq!(button.is_clicked((10, 20), true), "");
}

#[test]
fn button_draws_rectangle_then_caption() {
    let mut button = Button::new("Hi", "greet", 20, (10, 20), 40);
    let mut handle = DrawHandle::begin(pointer(30, 40));
    button.draw(&mut handle);
    assert_eq!(
        handle.commands(),
        &vec![
            DrawCommand::Rectangle { x: 10, y: 20, width: 60, height: 50, colour: DARK_GRAY },
            DrawCommand::Text {
                text: "Hi".to_string(),
                x: 20,
                y: 40,
                font_size: 20,
                colour: RAY_WHITE,
            },
        ]
    );

    let mut away = DrawHandle::begin(pointer(500, 500));
    button.draw(&mut away);
    assert_eq!(
        away.commands()[0],
        DrawCommand::Rectangle { x: 10, y: 20, width: 60, height: 50, colour: GRAY }
    );
}

#[test]
fn label_is_not_interactive() {
    let mut label = Label::new("Name", 20, (5, 6), 44);
    assert_eq!(label.get_dimensions(), (54, 50));
    assert_eq!(label.get_colour(), DARK_GRAY);
    assert!(!label.is_hovered((10, 10)));
    label.is_clicked((10, 10), true);
    assert_eq!(label.get_colour(), DARK_GRAY);
    assert_eq!(label.get_position(), (5, 6));
    assert_eq!(label.get_text(), "Name");
    assert_eq!(label.get_font_size(), 20);
}

#[test]
fn label_draws_rectangle_rule_and_caption() {
    let mut label = Label::new("Name", 20, (5, 6), 44);
    let mut handle = DrawHandle::begin(pointer(10, 10));
    label.draw(&mut handle);
    assert_eq!(
        handle.commands(),
        &vec![
            DrawCommand::Rectangle { x: 5, y: 6, width: 64, height: 50, colour: DARK_GRAY },
            DrawCommand::Line {
                x1: 5,
                y1: 56,
                x2: 69,
                y2: 56,
                thickness_tenths: 35,
                colour: BLACK,
            },
            DrawCommand::Text {
                text: "Name".to_string(),
                x: 15,
                y: 26,
                font_size: 20,
                colour: RAY_WHITE,
            },
        ]
    );
}

#[test]
fn label_set_text_and_resize() {
    let mut label = Label::new_with_dimensions("Name", 12, (0, 0), (10, 20));
    label.set_text("Longer name", 100);
    assert_eq!(label.get_dimensions(), (110, 20));
    assert_eq!(label.get_text(), "Longer name");
    label.resize((7, 8));
    assert_eq!(label.get_dimensions(), (7, 8));
    label.move_x(33);
    assert_eq!(label.get_position(), (33, 0));
}

#[test]
fn slider_clamps_the_initial_value() {
    let high = Slider::new(0, 10, Fraction::from_int(50), (0, 0), 100);
    assert_eq!(high.get_value(), Fraction::from_int(10));
    let low = Slider::new(0, 10, Fraction::from_int(-5), (0, 0), 100);
    assert_eq!(low.get_value(), Fraction::from_int(0));
    let kept = Slider::new(0, 10, Fraction { numerator: 5, denominator: 2 }, (0, 0), 100);
    assert_eq!(kept.get_value(), Fraction { numerator: 5, denominator: 2 });
    let none = Slider::new(3, 10, Fraction { numerator: 5, denominator: 0 }, (0, 0), 100);
    assert_eq!(none.get_value(), Fraction::from_int(3));
    let just_above = Slider::new(0, 10, Fraction { numerator: 21, denominator: 2 }, (0, 0), 100);
    assert_eq!(just_above.get_value(), Fraction::from_int(10));
}

#[test]
fn slider_geometry_at_creation() {
    let slider = Slider::new(0, 10, Fraction::from_int(5), (100, 200), 100);
    assert_eq!(slider.get_dimensions(), (220, 50));
    assert_eq!(slider.get_position(), (100, 200));
    // the track starts at (110, 207); half of the way along 100 pixels is 50
    assert_eq!(slider.get_box_position(), (160, 207));

    let at_min = Slider::new(0, 10, Fraction::from_int(0), (100, 200), 100);
    assert_eq!(at_min.get_box_position(), (110, 207));
    let at_max = Slider::new(0, 10, Fraction::from_int(10), (100, 200), 100);
    assert_eq!(at_max.get_box_position(), (210, 207));
    let quarter = Slider::new(0, 10, Fraction { numerator: 5, denominator: 2 }, (0, 0), 100);
    assert_eq!(quarter.get_box_position(), (35, 7));
    let third = Slider::new(0, 3, Fraction::from_int(1), (0, 0), 100);
    assert_eq!(third.get_box_position(), (43, 7));
    let no_range = Slider::new(4, 4, Fraction::from_int(4), (0, 0), 100);
    assert_eq!(no_range.get_box_position(), (10, 7));
    assert_eq!(no_range.get_value(), Fraction::from_int(4));
}

#[test]
fn slider_drag_sets_box_and_value() {
    let mut slider = Slider::new(0, 10, Fraction::from_int(0), (0, 0), 100);
    slider.is_clicked((50, 20), true);
    assert_eq!(slider.get_box_position(), (35, 7));
    assert_eq!(slider.get_value(), Fraction { numerator: 250, denominator: 70 });

    slider.is_clicked((200, 20), true);
    assert_eq!(slider.get_box_position(), (80, 7));
    assert_eq!(slider.get_value(), Fraction { numerator: 700, denominator: 70 });

    slider.is_clicked((5, 20), true);
    assert_eq!(slider.get_box_position(), (10, 7));
    assert_eq!(slider.get_value(), Fraction { numerator: 0, denominator: 70 });
}

#[test]
fn slider_drag_with_offset_range() {
    let mut slider = Slider::new(-20, 20, Fraction::from_int(0), (0, 0), 130);
    assert_eq!(slider.get_box_position(), (75, 7));
    slider.is_clicked((60, 20), true);
    // the box stands 35 of 100 pixels along: -20 + 35 * 40 / 100
    assert_eq!(slider.get_box_position(), (45, 7));
    assert_eq!(slider.get_value(), Fraction { numerator: -2000 + 1400, denominator: 100 });
    assert_eq!(slider.get_value().truncate(), -6);
}

#[test]
fn slider_is_level_triggered() {
    let mut slider = Slider::new(0, 10, Fraction::from_int(0), (0, 0), 100);
    slider.is_clicked((50, 20), false);
    assert_eq!(slider.get_box_position(), (10, 7));
    assert_eq!(slider.get_value(), Fraction::from_int(0));
    slider.is_clicked((50, 20), true);
    slider.is_clicked((60, 20), true);
    slider.is_clicked((70, 20), true);
    assert_eq!(slider.get_box_position(), (55, 7));
    assert_eq!(slider.get_value(), Fraction { numerator: 450, denominator: 70 });
}

#[test]
fn slider_ignores_a_pointer_that_is_elsewhere() {
    let mut slider = Slider::new(0, 10, Fraction::from_int(0), (0, 0), 100);
    slider.is_clicked((500, 20), true);
    assert_eq!(slider.get_box_position(), (10, 7));
    slider.is_clicked((50, 50), true);
    assert_eq!(slider.get_box_position(), (10, 7));
    slider.is_clicked((0, 20), true);
    assert_eq!(slider.get_box_position(), (10, 7));
}

#[test]
fn slider_drag_does_not_drift() {
    let mut slider = Slider::new(0, 255, Fraction::from_int(0), (100, 100), 100);
    slider.is_clicked((163, 120), true);
    let first = slider.get_value();
    let first_box = slider.get_box_position();
    slider.is_clicked((163, 120), true);
    assert_eq!(slider.get_value(), first);
    assert_eq!(slider.get_box_position(), first_box);
    assert_eq!(first, Fraction { numerator: 38 * 255, denominator: 70 });
}

#[test]
fn slider_hover_is_about_the_box() {
    let mut slider = Slider::new(0, 10, Fraction::from_int(0), (0, 0), 100);
    // the box covers (10, 7) to (40, 42)
    assert!(slider.is_hovered((20, 20)));
    assert!(!slider.is_hovered((100, 20)));
    assert!(!slider.is_hovered((10, 20)));
    assert!(!slider.is_hovered((40, 20)));
    assert!(!slider.is_hovered((20, 42)));
}

#[test]
fn slider_draws_four_primitives() {
    let mut slider = Slider::new(0, 10, Fraction::from_int(5), (0, 0), 100);
    let mut handle = DrawHandle::begin(pointer(65, 20));
    slider.draw(&mut handle);
    assert_eq!(
        handle.commands(),
        &vec![
            DrawCommand::Rectangle { x: 0, y: 0, width: 220, height: 50, colour: GRAY },
            DrawCommand::Number {
                value: Fraction::from_int(5),
                decimals: 2,
                x: 115,
                y: 10,
                font_size: 32,
                colour: RAY_WHITE,
            },
            DrawCommand::Rectangle { x: 10, y: 7, width: 100, height: 35, colour: LIGHT_GRAY },
            DrawCommand::Rectangle { x: 60, y: 7, width: 30, height: 35, colour: DARK_GRAY },
        ]
    );
    let mut away = DrawHandle::begin(pointer(0, 0));
    slider.draw(&mut away);
    assert_eq!(
        away.commands()[3],
        DrawCommand::Rectangle { x: 60, y: 7, width: 30, height: 35, colour: RAY_WHITE }
    );
}

#[test]
fn slider_resize_keeps_value_and_box_position() {
    let mut slider = Slider::new(0, 10, Fraction::from_int(5), (0, 0), 100);
    slider.resize((320, 60));
    assert_eq!(slider.get_dimensions(), (320, 60));
    assert_eq!(slider.get_value(), Fraction::from_int(5));
    assert_eq!(slider.get_box_position(), (60, 7));

    // the track is now 200 wide and the box 45 high: a drag reads the new geometry
    let mut handle = DrawHandle::begin(pointer(0, 0));
    slider.draw(&mut handle);
    assert_eq!(
        handle.commands()[2],
        DrawCommand::Rectangle { x: 10, y: 7, width: 200, height: 45, colour: LIGHT_GRAY }
    );
    assert_eq!(
        handle.commands()[3],
        DrawCommand::Rectangle { x: 60, y: 7, width: 30, height: 45, colour: RAY_WHITE }
    );
    slider.is_clicked((75, 20), true);
    assert_eq!(slider.get_box_position(), (60, 7));
    assert_eq!(slider.get_value(), Fraction { numerator: 500, denominator: 170 });
}

#[test]
fn slider_moves_with_track_and_box() {
    let mut slider = Slider::new(0, 10, Fraction::from_int(5), (0, 0), 100);
    slider.move_x(40);
    assert_eq!(slider.get_position(), (40, 0));
    assert_eq!(slider.get_box_position(), (100, 7));
    let mut handle = DrawHandle::begin(pointer(0, 0));
    slider.draw(&mut handle);
    assert_eq!(
        handle.commands()[2],
        DrawCommand::Rectangle { x: 50, y: 7, width: 100, height: 35, colour: LIGHT_GRAY }
    );
}

#[test]
fn slider_with_a_track_no_wider_than_its_box() {
    let mut slider = Slider::new(2, 10, Fraction::from_int(5), (0, 0), 30);
    slider.is_clicked((20, 20), true);
    assert_eq!(slider.get_value(), Fraction::from_int(2));
    assert_eq!(slider.get_box_position(), (10, 7));
}

#[test]
fn widgets_of_one_kind_are_collected_in_order() {
    let widgets = || {
        vec![
            DrawableType::Button(Button::new("a", "1", 20, (0, 0), 10)),
            DrawableType::Slider(Slider::new(0, 1, Fraction::from_int(0), (0, 0), 50)),
            DrawableType::Label(Label::new("l", 20, (0, 0), 10)),
            DrawableType::Button(Button::new("b", "2", 20, (0, 0), 20)),
            DrawableType::Slider(Slider::new(0, 9, Fraction::from_int(9), (0, 0), 50)),
        ]
    };
    let buttons = DrawableType::buttons(widgets());
    assert_eq!(buttons.len(), 2);
    assert_eq!(buttons[0].get_text(), "a");
    assert_eq!(buttons[1].get_text(), "b");
    let sliders = DrawableType::sliders(widgets());
    assert_eq!(sliders.len(), 2);
    assert_eq!(sliders[0].get_value(), Fraction::from_int(0));
    assert_eq!(sliders[1].get_value(), Fraction::from_int(9));
    let labels = DrawableType::labels(widgets());
    assert_eq!(labels.len(), 1);
    assert_eq!(labels[0].get_text(), "l");
    assert!(DrawableType::buttons(Vec::new()).is_empty());
}

#[test]
fn union_dispatches_by_kind() {
    let mut widget = DrawableType::Slider(Slider::new(0, 10, Fraction::from_int(5), (0, 0), 100));
    assert_eq!(widget.get_position(), (0, 0));
    assert_eq!(widget.get_dimensions(), (220, 50));
    widget.resize((300, 50));
    assert_eq!(widget.get_dimensions(), (300, 50));
    widget.move_x(10);
    assert_eq!(widget.get_position(), (10, 0));
    assert!(!widget.has_button());

    let mut button = DrawableType::Button(Button::new("a", "go", 20, (0, 0), 10));
    assert!(button.has_button());
    let mut actions = vec!["kept".to_string()];
    let handle = DrawHandle::begin(Pointer { position: (5, 5), pressed: true, held: true });
    button.is_clicked((5, 5), &mut actions, &handle);
    assert_eq!(actions, vec!["kept".to_string(), "go".to_string()]);
    button.is_clicked((500, 5), &mut actions, &handle);
    assert_eq!(actions, vec!["kept".to_string(), "go".to_string(), "".to_string()]);
    button.move_x(7);
    assert_eq!(button.get_position(), (7, 0));
}
