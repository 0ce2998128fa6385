use rustyfications::config;
use rustyfications::{
    stack_layout, stack_offsets, text_eq, Action, Config, Edge, EdgeInfo, Edges, HintValue, Hints,
    IData, Id, LevelFilter,
};

fn image(width: i32) -> IData {
    IData {
        width,
        height: 1,
        rowstride: 3 * width,
        has_alpha: false,
        bits_per_sample: 8,
        channels: 3,
        data: vec![0; 3 * width as usize],
    }
}

#[test]
fn empty_text_hints_are_absent() {
    let h = Hints::from_entries(vec![
        ("desktop-entry".to_string(), HintValue::Str(String::new())),
        ("image-path".to_string(), HintValue::Str(String::new())),
    ]);
    assert_eq!(h.desktop_entry, None);
    assert_eq!(h.image_path, None);
}

#[test]
fn text_hints_are_kept() {
    let h = Hints::from_entries(vec![
        ("desktop-entry".to_string(), HintValue::Str("org.mail".to_string())),
        ("image-path".to_string(), HintValue::Str("/tmp/a.png".to_string())),
        ("urgency".to_string(), HintValue::Other),
    ]);
    assert_eq!(h.desktop_entry.as_deref(), Some("org.mail"));
    assert_eq!(h.image_path.as_deref(), Some("/tmp/a.png"));
    assert!(!h.action_icons);
}

#[test]
fn wrong_typed_hints_default_independently() {
    let h = Hints::from_entries(vec![
        ("action-icons".to_string(), HintValue::Str("yes".to_string())),
        ("desktop-entry".to_string(), HintValue::Bool(true)),
        ("image-data".to_string(), HintValue::Image(image(2))),
        ("icon_data".to_string(), HintValue::Bool(false)),
    ]);
    assert!(!h.action_icons);
    assert_eq!(h.desktop_entry, None);
    assert_eq!(h.image_data.as_ref().map(|i| i.width), Some(2));
    assert!(h.icon_data.is_none());
}

#[test]
fn last_entry_of_a_key_counts() {
    let h = Hints::from_entries(vec![
        ("icon_data".to_string(), HintValue::Image(image(1))),
        ("icon_data".to_string(), HintValue::Image(image(4))),
        ("action-icons".to_string(), HintValue::Bool(true)),
    ]);
    assert_eq!(h.icon_data.map(|i| i.width), Some(4));
    assert!(h.action_icons);
    let none = Hints::empty();
    assert!(!none.action_icons && none.image_data.is_none());
}

#[test]
fn layout_offsets_follow_extents() {
    assert_eq!(stack_offsets(&vec![30, 40, 50], 5, 5), Some(vec![5, 40, 85]));
    assert_eq!(stack_offsets(&vec![], 5, 5), Some(vec![]));
    assert_eq!(stack_offsets(&vec![10, 10], -3, 0), Some(vec![0, 7]));
    assert_eq!(stack_offsets(&vec![i32::MAX, 1], 1, 0), None);
    assert_eq!(stack_offsets(&vec![i32::MAX], 1, 0), Some(vec![0]));
}

#[test]
fn layout_under_default_edges() {
    let l = stack_layout(&config::edges(), &vec![60, 80]).unwrap();
    assert_eq!(l.edge, Some(Edge::Top));
    assert_eq!(l.offsets, vec![5, 70]);
    let mut bottom = Edges::none();
    bottom.insert(Edge::Bottom, EdgeInfo { margin: 1, padding: 12 });
    bottom.insert(Edge::Left, EdgeInfo { margin: 3, padding: 0 });
    let l = stack_layout(&bottom, &vec![10, 10, 10]).unwrap();
    assert_eq!(l.edge, Some(Edge::Bottom));
    assert_eq!(l.offsets, vec![12, 25, 38]);
    let l = stack_layout(&Edges::none(), &vec![10, 10]).unwrap();
    assert_eq!(l.edge, None);
    assert_eq!(l.offsets, vec![0, 10]);
}

#[test]
fn default_configuration() {
    let c = Config::default();
    assert_eq!(c.expire_timeout, 5000);
    assert!(c.new_on_top);
    assert_eq!(c.icon_size, 72);
    assert_eq!(c.log_level, LevelFilter::Info);
    assert_eq!(c.window_close_icon, "window-close");
    assert!(!c.show_app_name);
    assert_eq!(c.window_size, (410, 30));
    assert!(c.icons_alias.is_empty());
    assert_eq!(c.edges.get(Edge::Top), Some(EdgeInfo { margin: 5, padding: 5 }));
    assert_eq!(c.edges.get(Edge::Right), Some(EdgeInfo { margin: 5, padding: 0 }));
    assert!(!c.edges.contains(Edge::Left) && !c.edges.contains(Edge::Bottom));
    assert!(c.validate());
    assert_eq!(LevelFilter::default(), LevelFilter::Info);
    assert_eq!(EdgeInfo::default(), EdgeInfo { margin: 0, padding: 0 });
}

#[test]
fn opposite_edges_are_refused() {
    let mut c = Config::default();
    c.edges.insert(Edge::Bottom, EdgeInfo::default());
    assert!(!c.validate());
    let mut c = Config::default();
    c.edges.insert(Edge::Left, EdgeInfo::default());
    assert!(!c.validate());
}

#[test]
fn total_margin_adds_padding() {
    assert_eq!(EdgeInfo { margin: 5, padding: 7 }.total_margin(), 12);
}

#[test]
fn icon_aliases() {
    let mut c = Config::default();
    c.icons_alias.push(("inline-reply".to_string(), "mail-reply".to_string()));
    c.icons_alias.push(("dismiss".to_string(), "window-close".to_string()));
    c.icons_alias.push(("dismiss".to_string(), "edit-delete".to_string()));
    assert_eq!(c.icon_alias("inline-reply"), "mail-reply");
    assert_eq!(c.icon_alias("dismiss"), "edit-delete");
    assert_eq!(c.icon_alias("open"), "open");
}

#[test]
fn id_allocation() {
    let mut ids = Id::new();
    assert_eq!(ids.current_glob(), 0);
    assert_eq!(ids.bump_glob(), 1);
    assert_eq!(ids.bump_glob(), 2);
    assert_eq!(ids.current_glob(), 2);
}

#[test]
fn default_action() {
    let a = Action::default();
    assert_eq!(a.key, "default");
    assert_eq!(a.text, "Default");
    assert!(!a.icon);
    let b = Action::new("open", "Open", true);
    assert_eq!(b.to_string(), "Open");
    assert!(!b.is_default());
}

#[test]
fn text_equality() {
    assert!(text_eq("äb", "äb"));
    assert!(!text_eq("ab", "abc"));
    assert!(!text_eq("ab", "ac"));
}

#[test]
fn theme_colours_are_read() {
    let text = "@define-color borders #aaa;\n  @define-color theme_base_color  white ;;\nfoo\n@define-color lone;\r\n@define-color@define-color twice red\n@define-color borders #bbb";
    let colors = rustyfications::css_glob_export_colors(text);
    assert_eq!(
        colors,
        vec![
            ("borders".to_string(), "#aaa".to_string()),
            ("theme_base_color".to_string(), " white".to_string()),
            ("twice".to_string(), "red".to_string()),
            ("borders".to_string(), "#bbb".to_string()),
        ]
    );
    assert!(rustyfications::css_glob_export_colors("").is_empty());
    assert!(rustyfications::css_glob_export_colors("a { color: red; }\n").is_empty());
}

#[test]
fn centred_square_crop() {
    assert_eq!(rustyfications::square_crop(100, 60), (20, 0, 60));
    assert_eq!(rustyfications::square_crop(30, 91), (0, 30, 30));
    assert_eq!(rustyfications::square_crop(0, 5), (0, 2, 0));
}
