use al_structures::ui::color::{AnsiColor, Color};
use al_structures::ui::component_state::{ComponentState, ComponentStateTrait, SizeConstraints};
use al_structures::ui::label::{Label, TextAlignment};
use al_structures::ui::layout::{inline_layout, inline_size, BlockMeasure, BlockPlacer};
use al_structures::ui::rect::Rect;
use al_structures::ui::style::{Modifier, Style};
use al_structures::ui::window::{Layout, TitlePlan, WindowBuilder};

#[test]
fn max_coordinates() {
    let rect = Rect::new(u16::MAX, u16::MAX, u16::MAX, u16::MAX);
    assert_eq!(rect.x, u16::MAX);
    assert_eq!(rect.y, u16::MAX);
    assert_eq!(rect.width, u16::MAX);
    assert_eq!(rect.height, u16::MAX);
}

#[test]
fn edges() {
    let rect = Rect::new(5, 10, 20, 30);
    assert_eq!(rect.right(), 24);
    assert!(rect.contains((24, 10)));

    assert_eq!(rect.bottom(), 39);
    assert!(rect.contains((5, 39)));
}

#[test]
fn rect_contains_point() {
    let rect = Rect::new(5, 5, 10, 10);
    assert!(rect.contains((8, 8)));
    assert!(rect.contains((10, 10)));

    assert!(!rect.contains((4, 8)));
    assert!(rect.contains((5, 8)));

    assert!(!rect.contains((5, 4)));
    assert!(!rect.contains((4, 5)));
    assert!(rect.contains((5, 5)));

    assert!(rect.contains((14, 8)));
    assert!(!rect.contains((15, 8)));

    assert!(!rect.contains((15, 5)));
    assert!(!rect.contains((14, 4)));
    assert!(rect.contains((14, 5)));

    assert!(!rect.contains((8, 4)));
    assert!(rect.contains((8, 5)));

    assert!(rect.contains((8, 14)));
    assert!(!rect.contains((8, 15)));

    assert!(!rect.contains((4, 14)));
    assert!(!rect.contains((5, 15)));
    assert!(rect.contains((5, 14)));

    assert!(!rect.contains((15, 14)));
    assert!(!rect.contains((14, 15)));
    assert!(rect.contains((14, 14)));
}

#[test]
fn intersects() {
    let rect_a = Rect::new(0, 0, 10, 10);
    let rect_b = Rect::new(5, 5, 10, 10);
    assert!(rect_a.intersects(rect_b));
    assert!(rect_b.intersects(rect_a));

    let rect_b = Rect::new(10, 0, 10, 10);
    assert!(!rect_a.intersects(rect_b));
    assert!(!rect_b.intersects(rect_a));

    let rect_b = Rect::new(10, 10, 10, 10);
    assert!(!rect_a.intersects(rect_b));
    assert!(!rect_b.intersects(rect_a));

    let rect_b = Rect::new(5, 5, 2, 2);
    assert!(rect_a.intersects(rect_b));
    assert!(rect_b.intersects(rect_a));

    let rect_a = Rect::new(10, 10, 20, 20);
    let rect_b = Rect::new(0, 10, 15, 20);
    assert!(rect_a.intersects(rect_b));
    assert!(rect_b.intersects(rect_a));

    let rect_b = Rect::new(10, 0, 20, 15);
    assert!(rect_a.intersects(rect_b));
    assert!(rect_b.intersects(rect_a));

    assert!(Rect::new(5, 5, 10, 10).intersects(Rect::new(5, 5, 10, 10)));

    let rect_a = Rect::new(5, 5, 0, 0);
    let rect_b = Rect::new(5, 5, 10, 10);
    assert!(!rect_a.intersects(rect_b));
    assert!(!rect_b.intersects(rect_a));
}

#[test]
fn union_commutative() {
    let rect_a = Rect::new(0, 0, 10, 10);
    let rect_b = Rect::new(5, 5, 10, 10);
    let union_a_b = rect_a.union(rect_b);
    let union_b_a = rect_b.union(rect_a);
    assert_eq!(union_a_b, union_b_a);
}

#[test]
fn union() {
    let rect_a = Rect::new(0, 0, 10, 10);
    let rect_b = Rect::new(5, 5, 10, 10);
    let union = rect_a.union(rect_b);
    assert_eq!(union.x, 0);
    assert_eq!(union.y, 0);
    assert_eq!(union.width, 15);
    assert_eq!(union.height, 15);

    let rect_b = Rect::new(20, 20, 10, 10);
    let union = rect_a.union(rect_b);
    assert_eq!(union.x, 0);
    assert_eq!(union.y, 0);
    assert_eq!(union.width, 30);
    assert_eq!(union.height, 30);
    assert_eq!(union.right(), 29);
    assert_eq!(union.bottom(), 29);
    assert!(union.intersects(rect_a));
    assert!(union.intersects(rect_b));

    let rect_b = Rect::new(5, 5, 2, 2);
    assert_eq!(rect_a.union(rect_b), rect_a);

    assert_eq!(Rect::new(5, 5, 10, 10).union(Rect::new(5, 5, 10, 10)), Rect::new(5, 5, 10, 10));

    let rect_b = Rect::new(10, 10, 0, 0);
    let union = rect_a.union(rect_b);
    assert!(union.contains((10, 10)));
    assert_eq!(union.x, 0);
    assert_eq!(union.y, 0);
    assert_eq!(union.width, 11);
    assert_eq!(union.height, 11);
}

#[test]
fn relative() {
    let parent = Rect::new(10, 10, 40, 40);
    let abs_child = Rect::new(20, 20, 10, 10);
    let rel_child = abs_child.relative(parent);
    assert_eq!(rel_child.x, 10);
    assert_eq!(rel_child.y, 10);
    assert_eq!(rel_child.width, 10);
    assert_eq!(rel_child.height, 10);

    let parent = Rect::new(10, 10, 30, 20);
    let abs_child = Rect::new(10, 10, 10, 10);
    let rel_child = abs_child.relative(parent);
    assert_eq!(rel_child.x, 0);
    assert_eq!(rel_child.y, 0);

    let parent = Rect::new(10, 10, 20, 20);
    let abs_child = Rect::new(35, 35, 10, 10);
    let rel_child = abs_child.relative(parent);
    assert_eq!(rel_child.x, 25);
    assert_eq!(rel_child.y, 25);
}

#[test]
fn absolute() {
    let parent = Rect::new(10, 10, 20, 20);
    let abs_child = Rect::new(5, 5, 10, 10).absolute(parent);
    assert_eq!(abs_child.x, 15);
    assert_eq!(abs_child.y, 15);
    assert_eq!(abs_child.width, 10);
    assert_eq!(abs_child.height, 10);

    let rel_child = Rect::new(0, 0, 10, 10);
    let abs_child = rel_child.absolute(parent);
    assert_eq!(abs_child.x, 10);
    assert_eq!(abs_child.y, 10);

    let rel_child = Rect::new(25, 25, 10, 10);
    let abs_child = rel_child.absolute(parent);
    assert_eq!(abs_child.x, 35);
    assert_eq!(abs_child.y, 35);
}

#[test]
fn rect_default() {
    let rect = Rect::<u16>::default();
    assert_eq!(rect.x, 0);
    assert_eq!(rect.y, 0);
    assert_eq!(rect.width, 0);
    assert_eq!(rect.height, 0);
}

#[test]
fn rect_equality() {
    assert_eq!(Rect::new(5, 5, 10, 10), Rect::new(5, 5, 10, 10));
    assert_ne!(Rect::new(5, 5, 10, 10), Rect::new(5, 5, 10, 11));
}

#[test]
fn rect_intersection_values() {
    let rect_a = Rect::new(0, 0, 10, 10);
    let inter = rect_a.intersection(Rect::new(5, 5, 10, 10));
    assert_eq!(inter, Rect::new(5, 5, 5, 5));
    assert_eq!(rect_a.intersection(Rect::new(15, 15, 10, 10)), Rect::new(0, 0, 0, 0));
    assert_eq!(rect_a.intersection(Rect::new(5, 5, 2, 2)), Rect::new(5, 5, 2, 2));
    assert_eq!(
        rect_a.intersection(Rect::new(5, 5, 10, 10)),
        Rect::new(5, 5, 10, 10).intersection(rect_a)
    );
}

#[test]
fn rect_right_saturates() {
    let rect = Rect::new(250u8, 0, 10, 1);
    assert_eq!(rect.right(), 255);
    let empty = Rect::new(3i32, 4, 0, -2);
    assert_eq!(empty.right(), 3);
    assert_eq!(empty.bottom(), 4);
}

#[test]
fn from() {
    assert_eq!(Color::Rgb(100, 150, 200), (100, 150, 200).into());
    assert_eq!(Color::Rgb(0, 0, 0), (0, 0, 0).into());
    assert_eq!(Color::Rgb(255, 255, 255), (255, 255, 255).into());
    assert_eq!(Color::Index256(127), 127.into());
    assert_eq!(Color::Ansi(AnsiColor::Green), AnsiColor::Green.into());
}

#[test]
fn color_equality() {
    assert_eq!(Color::Rgb(100, 100, 100), Color::Rgb(100, 100, 100));
    assert_ne!(Color::Rgb(100, 100, 100), Color::Rgb(100, 100, 101));
    assert_ne!(Color::Rgb(255, 0, 0), Color::Index256(1));
    assert_eq!(AnsiColor::Yellow, AnsiColor::Yellow);
    assert_ne!(AnsiColor::Yellow, AnsiColor::Cyan);
}

#[test]
fn ansi_color() {
    assert_eq!(AnsiColor::Black.index(), 0);
    assert_eq!(AnsiColor::Red.index(), 1);
    assert_eq!(AnsiColor::Green.index(), 2);
    assert_eq!(AnsiColor::Yellow.index(), 3);
    assert_eq!(AnsiColor::Blue.index(), 4);
    assert_eq!(AnsiColor::Magenta.index(), 5);
    assert_eq!(AnsiColor::Cyan.index(), 6);
    assert_eq!(AnsiColor::White.index(), 7);
    assert_eq!(AnsiColor::Gray.index(), 8);
    assert_eq!(AnsiColor::BrightRed.index(), 9);
    assert_eq!(AnsiColor::BrightGreen.index(), 10);
    assert_eq!(AnsiColor::BrightYellow.index(), 11);
    assert_eq!(AnsiColor::BrightBlue.index(), 12);
    assert_eq!(AnsiColor::BrightMagenta.index(), 13);
    assert_eq!(AnsiColor::BrightCyan.index(), 14);
    assert_eq!(AnsiColor::BrightWhite.index(), 15);
    let color = AnsiColor::default();
    assert_eq!(color, AnsiColor::White);
}

#[test]
fn style_default() {
    let style = Style::new();
    assert_eq!(style, Style::default());
    assert_eq!(style.fg, Color::Default);
    assert_eq!(style.bg, Color::Default);
    assert_eq!(style.modifiers, Modifier::new());
}

#[test]
fn color() {
    let style = Style::new().fg(AnsiColor::Red);
    assert_eq!(style.fg, Color::Ansi(AnsiColor::Red));
    let style = Style::new().fg((255u8, 128u8, 64u8));
    assert_eq!(style.fg, Color::Rgb(255, 128, 64));
    let style = Style::new().fg(200u8);
    assert_eq!(style.fg, Color::Index256(200));
    let style = Style::new().fg(AnsiColor::Red).fg(AnsiColor::Blue);
    assert_eq!(style.fg, Color::Ansi(AnsiColor::Blue));

    let style = Style::new().bg(AnsiColor::Green);
    assert_eq!(style.bg, Color::Ansi(AnsiColor::Green));
    let style = Style::new().bg((100u8, 150u8, 200u8));
    assert_eq!(style.bg, Color::Rgb(100, 150, 200));
    let style = Style::new().bg(50u8);
    assert_eq!(style.bg, Color::Index256(50));
    let style = Style::new().bg(AnsiColor::Yellow).bg(AnsiColor::Cyan);
    assert_eq!(style.bg, Color::Ansi(AnsiColor::Cyan));
}

#[test]
fn complex_builder() {
    let style = Style::new()
        .fg(AnsiColor::Blue)
        .bg((100u8, 100u8, 100u8))
        .bold(true)
        .underline(true)
        .fg(AnsiColor::White);
    assert_eq!(style.fg, Color::Ansi(AnsiColor::White));
    assert_eq!(style.bg, Color::Rgb(100, 100, 100));
    assert!(style.modifiers.bold);
    assert!(style.modifiers.underline);
    assert!(!style.modifiers.inverse);
}

#[test]
fn set_modifiers() {
    let modifiers = Modifier::new().bold(true).underline(true);
    let style = Style::new().modifiers(modifiers);
    assert!(style.modifiers.bold);
    assert!(style.modifiers.underline);
}

#[test]
fn style_equality() {
    assert_eq!(Style::new().fg(AnsiColor::Red).bold(true), Style::new().fg(AnsiColor::Red).bold(true));
    assert_ne!(Style::new().fg(AnsiColor::Red).bold(true), Style::new().fg(AnsiColor::Red));
}

#[test]
fn style_inverse() {
    let style = Style::new().inverse(true);
    assert!(style.modifiers.inverse);
    assert!(!style.inverse(false).modifiers.inverse);
}

#[test]
fn new_none() {
    let state = ComponentState::<u16>::new(None);
    assert!(state.rect().is_none());
    assert!(state.is_render_dirty());
}

#[test]
fn new_some() {
    let rect = Rect::new(5, 5, 10, 10);
    let state = ComponentState::new(Some(rect));
    assert_eq!(*state.rect(), Some(rect));
    assert!(state.is_render_dirty());
}

#[test]
fn component_state_default() {
    let state = ComponentState::<u16>::default();
    assert!(state.rect().is_none());
    assert!(state.is_render_dirty());
    assert_eq!(state, ComponentState::new(None));
}

#[test]
fn mark_dirty() {
    let mut state = ComponentState::<u16>::default();
    state.mark_render_dirty();
    assert!(state.is_render_dirty());
    state.mark_render_clean();
    assert!(!state.is_render_dirty());
    state.mark_render_dirty();
    assert!(state.is_render_dirty());
}

#[test]
fn set_rect() {
    let mut state = ComponentState::<u16>::default();
    let rect = Rect::new(5, 5, 10, 10);
    state.set_rect(Some(rect));
    assert_eq!(*state.rect(), Some(rect));
    let new_rect = Rect::new(10, 10, 20, 20);
    state.set_rect(Some(new_rect));
    assert_eq!(*state.rect(), Some(new_rect));
    state.set_rect(None);
    assert!(state.rect().is_none());
}

#[test]
fn component_state_contains_point() {
    let mut state = ComponentState::new(Some(Rect::new(5, 5, 10, 10)));
    assert!(state.contains((5, 5).into()));
    assert!(state.contains((14, 14).into()));
    assert!(!state.contains((15, 15).into()));
    state.set_rect(None);
    assert!(!state.contains((5, 5).into()));
}

#[test]
fn component_state_equality() {
    assert_eq!(
        ComponentState::new(Some(Rect::new(5, 5, 10, 10))),
        ComponentState::new(Some(Rect::new(5, 5, 10, 10)))
    );
    assert_eq!(ComponentState::<u8>::new(None), ComponentState::<u8>::new(None));
    assert_ne!(
        ComponentState::new(Some(Rect::new(5, 5, 10, 10))),
        ComponentState::new(Some(Rect::new(5, 5, 10, 11)))
    );
    assert_ne!(ComponentState::new(Some(Rect::new(5, 5, 10, 10))), ComponentState::new(None));
}

#[test]
fn set_text() {
    let mut label = Label::new("Hello 世界 🌍");
    assert_eq!(label.text(), "Hello 世界 🌍");

    label.set_text("Updated");
    assert_eq!(label.text(), "Updated");

    label.set_text("");
    assert_eq!(label.text(), "");
}

#[test]
fn style() {
    let style = Style::default();
    let label = Label::new("").with_style(Some(style));
    assert_eq!(label.style, Some(style));
    assert!(!label.wrapping);

    let label = Label::new("").with_wrapping(true);
    assert!(label.wrapping);
}

#[test]
fn size_constraints() {
    let (w, h) = Label::new("Hello").size_with_state(&ComponentState::<u8>::default(), SizeConstraints::unbounded());
    assert_eq!(w, 5);
    assert_eq!(h, 1);

    let (w, h) = Label::new("Hello World").size_with_state(&ComponentState::default(), SizeConstraints::width(5u8));
    assert_eq!(w, 5);
    assert_eq!(h, 1);

    let (w, h) = Label::new("").size_with_state(&ComponentState::<u8>::default(), SizeConstraints::unbounded());
    assert_eq!(w, 0);
    assert_eq!(h, 1);
}

#[test]
fn label_alignment_and_long_text() {
    let label = Label::new("x".repeat(300)).with_alignment(TextAlignment::Right);
    assert_eq!(label.alignment, TextAlignment::Right);
    let (w, h) = label.size_with_state(&ComponentState::<u8>::default(), SizeConstraints::unbounded());
    assert_eq!((w, h), (0, 1));
}

#[test]
fn new() {
    let builder = WindowBuilder::<u8>::new();
    assert_eq!(builder.rect, Rect::default());
    assert_eq!(builder.z, 0);
    assert!(builder.title.is_none());
    assert!(builder.color.is_none());

    let rect = Rect::new(5, 5, 100, 50);
    let builder = WindowBuilder::new()
        .layout(Layout::Block)
        .rect(rect)
        .z(10)
        .title("Test Window".to_string())
        .color(Color::Default)
        .border_color(Some(Color::Default));

    assert_eq!(builder.layout, Layout::Block);
    assert_eq!(builder.rect, rect);
    assert_eq!(builder.z, 10);
    assert_eq!(builder.title, Some("Test Window".to_string()));
    assert!(builder.color.is_some());
    assert!(builder.border_color.is_some());

    let mut window = builder.build();
    assert_eq!(window.title, "Test Window");
    assert_eq!(window.rect, Rect::new(5, 5, 100, 50));
    assert_eq!(window.z, 10);
    assert!(window.visible);
    window.set_visible(false);
    assert!(!window.visible);
}

#[test]
fn window_setters() {
    let mut window = WindowBuilder::<i16>::new().build();
    assert_eq!(window.title, "");
    assert_eq!(window.color, Color::Default);
    window.set_pos(3, 4);
    window.set_size(7, 8);
    window.set_z(2);
    window.set_title("t".to_string());
    window.set_color(AnsiColor::Red);
    window.set_border_color(Some(AnsiColor::Blue));
    window.set_component_color(None::<AnsiColor>);
    assert_eq!(window.rect, Rect::new(3, 4, 7, 8));
    assert_eq!(window.z, 2);
    assert_eq!(window.title, "t");
    assert_eq!(window.color, Color::Ansi(AnsiColor::Red));
    assert_eq!(window.border_color, Some(Color::Ansi(AnsiColor::Blue)));
    assert_eq!(window.component_color, None);
    assert!(window.visible());
}

fn area(rect: &Rect<u16>) -> f64 {
    rect.width as f64 * rect.height as f64
}

#[test]
fn zero_dimensions() {
    let rect = Rect::new(0u16, 0, 0, 0);
    assert_eq!(rect.width, 0);
    assert_eq!(rect.height, 0);
    assert_eq!(area(&rect), 0.);
    assert!(!rect.contains((0, 0)));
}

#[test]
fn intersection_commutative() {
    let rect_a = Rect::new(0u16, 0, 10, 10);
    let rect_b = Rect::new(5u16, 5, 10, 10);
    assert_eq!(rect_a.intersection(rect_b), rect_b.intersection(rect_a));
}

#[test]
fn intersection() {
    let rect_a = Rect::new(0u16, 0, 10, 10);
    let rect_b = Rect::new(5u16, 5, 10, 10);
    let inter = rect_a.intersection(rect_b);
    assert_eq!(inter.x, 5);
    assert_eq!(inter.y, 5);
    assert_eq!(inter.width, 5);
    assert_eq!(inter.height, 5);
    assert_eq!(area(&inter), 25.);

    let rect_b = Rect::new(15u16, 15, 10, 10);
    let inter = rect_a.intersection(rect_b);
    assert_eq!(inter.x, 0);
    assert_eq!(inter.y, 0);
    assert_eq!(inter.width, 0);
    assert_eq!(inter.height, 0);
    assert_eq!(area(&inter), 0.);

    let rect_b = Rect::new(5u16, 5, 2, 2);
    let inter = rect_a.intersection(rect_b);
    assert_eq!(inter.x, 5);
    assert_eq!(inter.y, 5);
    assert_eq!(inter.width, 2);
    assert_eq!(inter.height, 2);
    assert_eq!(area(&inter), 4.);

    assert_eq!(
        Rect::new(5u16, 5, 10, 10).intersection(Rect::new(5, 5, 10, 10)),
        Rect::new(5, 5, 10, 10)
    );

    let rect_b = Rect::new(10u16, 0, 10, 10);
    let inter = rect_a.intersection(rect_b);
    assert_eq!(inter.width, 0);
    assert_eq!(inter.height, 0);

    let rect_b = Rect::new(5u16, 5, 0, 10);
    let inter = rect_a.intersection(rect_b);
    assert_eq!(inter.width, 0);
    assert_eq!(inter.height, 0);

    let rect_b = Rect::new(5u16, 5, 10, 0);
    let inter = rect_a.intersection(rect_b);
    assert_eq!(inter.width, 0);
    assert_eq!(inter.height, 0);
}

#[test]
fn intersection_lies_in_both_and_union_covers_both() {
    let a = Rect::new(0u16, 0, 10, 10);
    let b = Rect::new(5u16, 3, 10, 4);
    let inter = a.intersection(b);
    let uni = a.union(b);
    for px in 0u16..20 {
        for py in 0u16..20 {
            if inter.contains((px, py)) {
                assert!(a.contains((px, py)) && b.contains((px, py)));
            }
            if a.contains((px, py)) || b.contains((px, py)) {
                assert!(uni.contains((px, py)));
            }
        }
    }
    assert!(a.intersects(b));
}

#[test]
fn render_plan_bordered_titled_window() {
    let window = WindowBuilder::<u16>::new()
        .rect(Rect::new(0, 0, 10, 6))
        .title("Hi".to_string())
        .color(Color::Ansi(AnsiColor::Blue))
        .border_color(Some(Color::Ansi(AnsiColor::Red)))
        .build();
    let clip = Rect::new(0, 0, 20, 20);
    let plan = window.render_plan(true, clip).unwrap();
    assert_eq!(plan.frame, Rect::new(0, 0, 10, 6));
    assert_eq!(plan.frame_clip, clip);
    assert_eq!(plan.color, Color::Ansi(AnsiColor::Blue));
    assert_eq!(plan.border_color, Some(Color::Ansi(AnsiColor::Red)));
    assert_eq!(plan.inner, Rect::new(1, 1, 8, 4));
    assert_eq!(plan.inner_clip, Rect::new(1, 1, 8, 4));
    assert_eq!(
        plan.title,
        Some(TitlePlan {
            text_x: 1,
            text_y: 1,
            clip: Rect::new(1, 1, 8, 4),
            bar: Rect::new(1, 2, 8, 1),
            bar_border: Some(Color::Ansi(AnsiColor::Red)),
            body: Rect::new(1, 3, 8, 2),
        })
    );
    assert_eq!(plan.pane_clip, Some(Rect::new(1, 3, 8, 2)));
}

#[test]
fn render_plan_plain_window_uses_clip() {
    let window = WindowBuilder::<u16>::new().rect(Rect::new(2, 3, 10, 6)).build();
    let clip = Rect::new(0, 0, 5, 5);
    let plan = window.render_plan(true, clip).unwrap();
    assert_eq!(plan.inner, Rect::new(2, 3, 10, 6));
    assert_eq!(plan.inner_clip, clip);
    assert_eq!(plan.title, None);
    assert_eq!(plan.pane_clip, Some(clip));
}

#[test]
fn render_plan_title_bar_gets_default_border() {
    let window = WindowBuilder::<u16>::new()
        .rect(Rect::new(0, 0, 10, 6))
        .title("T".to_string())
        .build();
    let plan = window.render_plan(true, Rect::new(0, 0, 10, 6)).unwrap();
    let title = plan.title.unwrap();
    assert_eq!(title.bar, Rect::new(0, 1, 10, 1));
    assert_eq!(title.bar_border, Some(Color::Default));
    assert_eq!(plan.pane_clip, Some(Rect::new(0, 2, 10, 4)));
}

#[test]
fn render_plan_nothing_when_hidden_or_clean() {
    let mut window = WindowBuilder::<u16>::new().rect(Rect::new(0, 0, 10, 6)).build();
    assert_eq!(window.render_plan(false, Rect::new(0, 0, 10, 6)), None);
    window.set_visible(false);
    assert_eq!(window.render_plan(true, Rect::new(0, 0, 10, 6)), None);
}

#[test]
fn render_plan_empty_inner_clip_skips_title_and_pane() {
    let window = WindowBuilder::<u16>::new()
        .rect(Rect::new(0, 0, 10, 6))
        .title("T".to_string())
        .border_color(Some(Color::Default))
        .build();
    let plan = window.render_plan(true, Rect::new(30, 30, 5, 5)).unwrap();
    assert_eq!(plan.inner_clip, Rect::new(0, 0, 0, 0));
    assert_eq!(plan.title, None);
    assert_eq!(plan.pane_clip, None);
}

#[test]
fn inline_layout_wraps_past_the_edge() {
    let rects = inline_layout(Rect::<u16>::new(0, 0, 10, 10), &vec![(4, 2), (4, 3), (4, 1)]);
    assert_eq!(rects, vec![Rect::new(0, 0, 4, 2), Rect::new(4, 0, 4, 3), Rect::new(0, 3, 4, 1)]);
}

#[test]
fn inline_layout_keeps_a_wide_child_on_an_empty_line() {
    let rects = inline_layout(Rect::<u16>::new(2, 0, 5, 10), &vec![(7, 1), (1, 1)]);
    assert_eq!(rects, vec![Rect::new(2, 0, 7, 1), Rect::new(2, 1, 1, 1)]);
}

#[test]
fn inline_layout_of_nothing() {
    assert!(inline_layout(Rect::<u16>::new(0, 0, 10, 10), &vec![]).is_empty());
}

#[test]
fn inline_size_measures_lines() {
    let sizes: Vec<(u16, u16)> = vec![(4, 2), (4, 3), (4, 1)];
    assert_eq!(inline_size(&sizes, SizeConstraints::width(10)), (8, 4));
    assert_eq!(inline_size(&sizes, SizeConstraints::new(10, 3)), (8, 3));
    assert_eq!(inline_size(&sizes, SizeConstraints::unbounded()), (12, 3));
    assert_eq!(inline_size(&Vec::<(u16, u16)>::new(), SizeConstraints::new(10, 3)), (0, 0));
}

#[test]
fn block_measure_stops_when_the_height_is_used() {
    let constraints = SizeConstraints::<u16>::new(10, 5);
    let mut m = BlockMeasure::start(constraints);
    assert_eq!(m.next_constraints(), Some(SizeConstraints::new(10, 5)));
    m.add((4, 3));
    assert_eq!((m.width, m.height), (4, 3));
    assert_eq!(m.next_constraints(), Some(SizeConstraints::new(10, 2)));
    m.add((7, 3));
    assert_eq!((m.width, m.height), (7, 6));
    assert_eq!(m.next_constraints(), None);
    assert_eq!(constraints.clip(m.width, m.height), (7, 5));
}

#[test]
fn block_measure_without_bounds_uses_the_largest_coordinate() {
    let m = BlockMeasure::<u16>::start(SizeConstraints::unbounded());
    assert_eq!((m.max_width, m.max_height), (u16::MAX, u16::MAX));
    assert_eq!(m.next_constraints(), Some(SizeConstraints::new(u16::MAX, u16::MAX)));
}

#[test]
fn block_placer_stacks_children() {
    let mut p = BlockPlacer::<i32>::start(Rect::new(1, 2, 10, 5));
    assert_eq!(p.next_constraints(), Some(SizeConstraints::new(10, 5)));
    assert_eq!(p.place((4, 2)), Rect::new(1, 2, 4, 2));
    assert_eq!(p.next_constraints(), Some(SizeConstraints::new(10, 3)));
    assert_eq!(p.place((3, 4)), Rect::new(1, 4, 3, 4));
    assert_eq!(p.next_constraints(), None);
}

#[test]
fn block_placer_stacks_unsigned_children() {
    let mut p = BlockPlacer::<u16>::start(Rect::new(0, 0, 10, 10));
    assert_eq!(p.next_constraints(), Some(SizeConstraints::new(10, 10)));
    assert_eq!(p.place((10, 4)), Rect::new(0, 0, 10, 4));
    assert_eq!(p.next_constraints(), Some(SizeConstraints::new(10, 6)));
    assert_eq!(p.place((10, 6)), Rect::new(0, 4, 10, 6));
    assert_eq!(p.next_constraints(), None);
}

#[test]
fn block_placer_with_no_height_places_nothing() {
    let p = BlockPlacer::<u16>::start(Rect::new(0, 0, 10, 0));
    assert_eq!(p.next_constraints(), None);
}
