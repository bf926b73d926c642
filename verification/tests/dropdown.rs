use ptgui::button::Button;
use ptgui::common::DrawableType;
use ptgui::draw_handle::{DrawCommand, DrawHandle};
use ptgui::dropdown::Dropdown;
use ptgui::error::GuiError;
use ptgui::fraction::Fraction;
use ptgui::gui_component::GuiComponentBehaviour;
use ptgui::label::Label;
use ptgui::types::{Colour, Pointer};

const GRAY: Colour = Colour { r: 130, g: 130, b: 130, a: 255 };
const DARK_GRAY: Colour = Colour { r: 80, g: 80, b: 80, a: 255 };
const RAY_WHITE: Colour = Colour { r: 245, g: 245, b: 245, a: 255 };

fn frame(x: i32, y: i32, pressed: bool) -> DrawHandle {
    DrawHandle::begin(Pointer { position: (x, y), pressed, held: pressed })
}

/// A dropdown at (0, 0), 50 by 50, with two buttons to its right.
fn menu() -> Dropdown {
    let mut dropdown = Dropdown::new("Menu", 20, (0, 0), 40);
    dropdown.add_button("One", "one", 30).add_button("Two", "two", 60);
    dropdown
}

#[test]
fn dropdown_starts_closed_and_empty() {
    let dropdown = Dropdown::new("Menu", 20, (7, 9), 40);
    assert!(!dropdown.is_shown());
    assert_eq!(dropdown.get_dimensions(), (50, 50));
    assert_eq!(dropdown.get_position(), (7, 9));
    assert_eq!(dropdown.get_colour(), GRAY);
    assert!(dropdown.get_components().is_empty());
    assert!(dropdown.get_actions().is_empty());
    assert!(!dropdown.has_button());
}

#[test]
fn dropdown_toggles_on_clicks_inside_the_header() {
    let mut dropdown = menu();
    assert!(!dropdown.is_shown());
    dropdown.is_clicked((10, 10), true);
    assert!(dropdown.is_shown());
    assert_eq!(dropdown.get_colour(), DARK_GRAY);
    dropdown.is_clicked((10, 10), true);
    assert!(!dropdown.is_shown());
}

#[test]
fn dropdown_ignores_clicks_elsewhere() {
    let mut dropdown = menu();
    dropdown.is_clicked((10, 10), true);
    assert!(dropdown.is_shown());
    dropdown.is_clicked((200, 200), true);
    assert!(dropdown.is_shown());
    dropdown.is_clicked((50, 10), true);
    assert!(dropdown.is_shown());
    dropdown.is_clicked((10, 10), false);
    assert!(dropdown.is_shown());
}

#[test]
fn dropdown_places_components_right_of_the_header() {
    let mut dropdown = Dropdown::new("Menu", 20, (100, 200), 40);
    dropdown
        .add_button("One", "one", 30)
        .add_slider(0, 10, Fraction::from_int(5))
        .add_dropdown("More", 44)
        .add_component(DrawableType::Label(Label::new("note", 20, (1, 2), 10)));
    let components = dropdown.get_components();
    assert_eq!(components.len(), 4);
    assert_eq!(components[0].get_position(), (150, 200));
    assert_eq!(components[0].get_dimensions(), (40, 50));
    assert_eq!(components[1].get_position(), (150, 250));
    assert_eq!(components[1].get_dimensions(), (370, 50));
    assert_eq!(components[2].get_position(), (150, 300));
    assert_eq!(components[2].get_dimensions(), (54, 50));
    assert_eq!(components[3].get_position(), (1, 2));
    assert!(dropdown.has_button());
}

#[test]
fn closed_dropdown_draws_its_header_alone() {
    let mut dropdown = menu();
    let mut handle = frame(60, 10, true);
    dropdown.draw(&mut handle);
    assert_eq!(
        handle.commands(),
        &vec![
            DrawCommand::Rectangle { x: 0, y: 0, width: 60, height: 50, colour: GRAY },
            DrawCommand::Text {
                text: "Menu".to_string(),
                x: 10,
                y: 20,
                font_size: 20,
                colour: RAY_WHITE,
            },
        ]
    );
    // the pointer is over the first button, and the button is pressed:
    // a closed dropdown does not pass the click on
    assert!(dropdown.get_actions().is_empty());
}

#[test]
fn open_dropdown_draws_and_hit_tests_its_components() {
    let mut dropdown = menu();
    dropdown.is_clicked((10, 10), true);
    let mut handle = frame(60, 10, true);
    dropdown.draw(&mut handle);
    assert_eq!(
        handle.commands(),
        &vec![
            DrawCommand::Rectangle { x: 0, y: 0, width: 60, height: 50, colour: DARK_GRAY },
            DrawCommand::Text {
                text: "Menu".to_string(),
                x: 10,
                y: 20,
                font_size: 20,
                colour: RAY_WHITE,
            },
            DrawCommand::Rectangle { x: 50, y: 0, width: 50, height: 50, colour: DARK_GRAY },
            DrawCommand::Text {
                text: "One".to_string(),
                x: 60,
                y: 20,
                font_size: 20,
                colour: RAY_WHITE,
            },
            DrawCommand::Rectangle { x: 50, y: 50, width: 80, height: 50, colour: GRAY },
            DrawCommand::Text {
                text: "Two".to_string(),
                x: 60,
                y: 70,
                font_size: 20,
                colour: RAY_WHITE,
            },
        ]
    );
    assert_eq!(dropdown.get_actions(), &vec!["one".to_string(), "".to_string()]);
}

#[test]
fn dropdown_drops_the_actions_of_the_frame_before() {
    let mut dropdown = menu();
    dropdown.is_clicked((10, 10), true);
    let mut first = frame(60, 10, true);
    dropdown.draw(&mut first);
    assert_eq!(dropdown.get_actions(), &vec!["one".to_string(), "".to_string()]);
    let mut second = frame(60, 10, false);
    dropdown.draw(&mut second);
    assert_eq!(dropdown.get_actions(), &vec!["".to_string(), "".to_string()]);
    let mut third = frame(60, 60, true);
    dropdown.draw(&mut third);
    assert_eq!(dropdown.get_actions(), &vec!["".to_string(), "two".to_string()]);
}

#[test]
fn dropdown_header_colour_follows_hover_and_state() {
    let mut dropdown = menu();
    assert!(dropdown.is_hovered((10, 10)));
    assert_eq!(dropdown.get_colour(), DARK_GRAY);
    assert!(!dropdown.is_hovered((100, 100)));
    assert_eq!(dropdown.get_colour(), GRAY);
    dropdown.is_clicked((10, 10), true);
    assert!(!dropdown.is_hovered((100, 100)));
    assert_eq!(dropdown.get_colour(), DARK_GRAY);
}

#[test]
fn dropdown_bubbles_its_actions() {
    let mut dropdown = menu();
    dropdown.is_clicked((10, 10), true);
    let mut handle = frame(60, 60, true);
    dropdown.draw(&mut handle);
    let mut queue = vec!["before".to_string()];
    dropdown.bubble_actions(&mut queue);
    assert_eq!(queue, vec!["before".to_string(), "".to_string(), "two".to_string()]);
    assert!(dropdown.get_actions().is_empty());
}

#[test]
fn dropdown_in_a_collection_passes_its_actions_up() {
    let mut widget = DrawableType::Dropdown(menu());
    let mut queue: Vec<String> = Vec::new();
    // first frame: the click opens the dropdown
    let mut first = frame(10, 10, true);
    widget.draw(&mut first);
    widget.is_clicked((10, 10), &mut queue, &first);
    assert!(queue.is_empty());
    // second frame: the click reaches the second button
    let mut second = frame(60, 60, true);
    widget.draw(&mut second);
    widget.is_clicked((60, 60), &mut queue, &second);
    assert_eq!(queue, vec!["".to_string(), "two".to_string()]);
    if let DrawableType::Dropdown(d) = &widget {
        assert!(d.is_shown());
        assert!(d.get_actions().is_empty());
    } else {
        panic!("not a dropdown");
    }
}

#[test]
fn dropdown_brings_its_components_to_one_width() {
    let mut dropdown = menu();
    dropdown.set_components_fix_widths(true);
    let mut handle = frame(0, 0, false);
    dropdown.draw(&mut handle);
    let components = dropdown.get_components();
    assert_eq!(components[0].get_dimensions(), (70, 50));
    assert_eq!(components[1].get_dimensions(), (70, 50));
    // the dropdown keeps its own width
    assert_eq!(dropdown.get_dimensions(), (50, 50));
}

#[test]
fn dropdown_without_fixed_widths_leaves_them() {
    let mut dropdown = menu();
    dropdown.is_clicked((10, 10), true);
    let mut handle = frame(0, 0, false);
    dropdown.draw(&mut handle);
    let components = dropdown.get_components();
    assert_eq!(components[0].get_dimensions(), (40, 50));
    assert_eq!(components[1].get_dimensions(), (70, 50));
}

#[test]
fn dropdown_resize_moves_its_components() {
    let mut dropdown = menu();
    dropdown.add_slider(0, 10, Fraction::from_int(0));
    dropdown.resize((120, 40));
    assert_eq!(dropdown.get_dimensions(), (120, 40));
    let components = dropdown.get_components();
    assert_eq!(components[0].get_position(), (120, 0));
    assert_eq!(components[1].get_position(), (120, 50));
    assert_eq!(components[2].get_position(), (120, 100));
    if let DrawableType::Slider(s) = &components[2] {
        assert_eq!(s.get_box_position(), (130, 107));
    } else {
        panic!("not a slider");
    }
    dropdown.move_x(5);
    assert_eq!(dropdown.get_position(), (5, 0));
    assert_eq!(dropdown.get_components()[0].get_position(), (120, 0));
}

#[test]
fn dropdown_slider_values_by_index() {
    let mut dropdown = Dropdown::new("Menu", 20, (0, 0), 40);
    dropdown
        .add_slider(0, 10, Fraction::from_int(3))
        .add_button("One", "one", 30)
        .add_slider(0, 100, Fraction { numerator: 151, denominator: 2 });
    assert_eq!(dropdown.get_slider_value(0), Ok(Fraction::from_int(3)));
    assert_eq!(
        dropdown.get_slider_value(1),
        Ok(Fraction { numerator: 151, denominator: 2 })
    );
    assert_eq!(dropdown.get_slider_value_i32(1), Ok(75));
    assert_eq!(dropdown.get_slider_value(2), Err(GuiError::Index));
    assert_eq!(dropdown.get_slider_value_i32(2), Err(GuiError::Index));
    assert_eq!(dropdown.get_slider_value(3), Err(GuiError::Index));
}

#[test]
fn nested_dropdowns_are_found_at_their_own_depth_only() {
    let mut dropdown = Dropdown::new("Menu", 20, (0, 0), 40);
    dropdown
        .add_dropdown("First", 30)
        .add_button("One", "one", 30)
        .add_dropdown("Second", 30);
    dropdown.get_dropdowns_mut(1).unwrap().add_dropdown("Inner", 30);
    {
        let found = dropdown.get_dropdowns().unwrap();
        assert_eq!(found.len(), 2);
        assert_eq!(found[0].get_position(), (50, 0));
        assert_eq!(found[1].get_position(), (50, 100));
        assert_eq!(found[1].get_dropdowns().unwrap().len(), 1);
        assert!(found[0].get_dropdowns().unwrap().is_empty());
    }
    assert!(matches!(dropdown.get_dropdowns_mut(2), Err(GuiError::Index)));
    dropdown.get_dropdowns_mut(0).unwrap().add_button("Deep", "deep", 10);
    assert!(dropdown.get_dropdowns().unwrap()[0].has_button());
    assert!(!dropdown.get_dropdowns().unwrap()[1].has_button());
}

#[test]
fn nested_dropdown_bubbles_through_both_levels() {
    let mut outer = Dropdown::new("Menu", 20, (0, 0), 40);
    outer.add_dropdown("More", 40);
    outer.get_dropdowns_mut(0).unwrap().add_button("Deep", "deep", 30);
    // inner header at (50, 0), 50 by 50; its button at (100, 0), 40 by 50
    outer.is_clicked((10, 10), true);
    let mut first = frame(60, 10, true);
    outer.draw(&mut first);
    assert!(outer.get_dropdowns().unwrap()[0].is_shown());
    assert!(outer.get_actions().is_empty());
    let mut second = frame(110, 10, true);
    outer.draw(&mut second);
    assert_eq!(outer.get_actions(), &vec!["deep".to_string()]);
    assert_eq!(second.commands().len(), 6);
}

#[test]
fn button_alone_is_no_dropdown() {
    let button = DrawableType::Button(Button::new("a", "b", 20, (0, 0), 10));
    let mut dropdown = Dropdown::new("Menu", 20, (0, 0), 40);
    dropdown.add_component(button);
    assert!(dropdown.get_dropdowns().unwrap().is_empty());
    assert!(matches!(dropdown.get_dropdowns_mut(0), Err(GuiError::Index)));
}
