use nest_editor::camera::{camera_move_axes, CameraKeys, MoveAxes};
use nest_editor::plugins::{
    default_plugins_replacement, replace_default_nest_plugins, DefaultNestPlugins,
    NestPluginsCall, StatementShape,
};
use nest_editor::view::{
    custom_tab_text, hierarchy_filter, play_button, viewport_fits_window, HierarchyFilter,
    PlayButtonEvent, PlayButtonIcon, TabContent, WindowType,
};

#[test]
fn tab_names() {
    assert_eq!(WindowType::Inspector.name(), "Inspector");
    assert_eq!(WindowType::Viewport.name(), "Scene");
    assert_eq!(WindowType::World.name(), "World");
    assert_eq!(WindowType::Assets.name(), "Assets");
    assert_eq!(WindowType::Resources.name(), "Resources");
    assert_eq!(WindowType::Project.name(), "Project");
    assert_eq!(WindowType::Console.name(), "Console");
    assert_eq!(WindowType::_Custom("Mine".to_string()).name(), "Mine");
}

#[test]
fn viewport_title_depends_on_where_the_editor_runs() {
    assert_eq!(WindowType::Viewport.title(true), "Game");
    assert_eq!(WindowType::Viewport.title(false), "Scene");
    assert_eq!(WindowType::Console.title(true), "Console");
}

#[test]
fn only_the_viewport_is_pinned() {
    assert!(!WindowType::Viewport.allowed_in_windows());
    assert!(!WindowType::Viewport.clear_background());
    assert!(WindowType::World.allowed_in_windows());
    assert!(WindowType::World.clear_background());
}

#[test]
fn tab_content() {
    assert_eq!(WindowType::Inspector.content(1), TabContent::EntityInspector);
    assert_eq!(WindowType::Inspector.content(0), TabContent::SharedComponents);
    assert_eq!(WindowType::Inspector.content(3), TabContent::SharedComponents);
    assert_eq!(WindowType::Viewport.content(1), TabContent::GameViewport);
    assert_eq!(WindowType::_Custom("c".to_string()).content(0), TabContent::CustomLabel);
    assert_eq!(custom_tab_text("c"), "Custom tab: c");
}

#[test]
fn hierarchy_and_play_button() {
    assert_eq!(hierarchy_filter(false), HierarchyFilter::SceneObjectsOnly);
    assert_eq!(hierarchy_filter(true), HierarchyFilter::AllEntities);
    assert_eq!(
        play_button(true),
        (PlayButtonIcon::Stop, "Stop".to_string(), PlayButtonEvent::ReturnToEditor)
    );
    assert_eq!(
        play_button(false),
        (PlayButtonIcon::Play, "Play".to_string(), PlayButtonEvent::OpenGame)
    );
}

#[test]
fn viewport_must_fit_the_window() {
    assert!(viewport_fits_window((10, 10), (90, 90), (100, 100)));
    assert!(!viewport_fits_window((10, 10), (91, 90), (100, 100)));
    assert!(!viewport_fits_window((0, 20), (50, 81), (100, 100)));
}

fn stmt(method: Option<&str>, path: Option<&[&str]>) -> StatementShape {
    StatementShape {
        method: method.map(|m| m.to_string()),
        first_arg_path: path.map(|p| p.iter().map(|s| s.to_string()).collect()),
    }
}

#[test]
fn default_plugins_are_replaced() {
    let s = stmt(Some("add_plugins"), Some(&["bevy", "DefaultPlugins"]));
    assert_eq!(default_plugins_replacement(&s, true), Some(NestPluginsCall::Editor));
    assert_eq!(default_plugins_replacement(&s, false), Some(NestPluginsCall::Runtime));
    let other = stmt(Some("add_systems"), Some(&["DefaultPlugins"]));
    assert_eq!(default_plugins_replacement(&other, true), None);
    let not_path = stmt(Some("add_plugins"), None);
    assert_eq!(default_plugins_replacement(&not_path, true), None);
    let other_plugin = stmt(Some("add_plugins"), Some(&["MyPlugin"]));
    assert_eq!(default_plugins_replacement(&other_plugin, false), None);
    let no_call = stmt(None, None);
    assert_eq!(default_plugins_replacement(&no_call, false), None);
}

#[test]
fn builder_statements_are_rewritten_one_by_one() {
    let original = || {
        vec![
            stmt(None, None),
            stmt(Some("add_plugins"), Some(&["DefaultPlugins"])),
            stmt(Some("add_systems"), Some(&["Startup"])),
        ]
    };
    let rewritten = vec![stmt(None, None), stmt(Some("add_plugins"), None), stmt(Some("add_systems"), Some(&["Startup"]))];

    let mut game = original();
    assert_eq!(
        replace_default_nest_plugins(&mut game, false),
        vec![None, Some(NestPluginsCall::Runtime), None]
    );
    assert_eq!(game, rewritten);

    let mut editor = original();
    assert_eq!(
        replace_default_nest_plugins(&mut editor, true),
        vec![None, Some(NestPluginsCall::Editor), None]
    );
    assert_eq!(editor, rewritten);
}

#[test]
fn rewriting_twice_changes_nothing_more() {
    let mut stmts = vec![
        stmt(Some("add_plugins"), Some(&["bevy", "prelude", "DefaultPlugins"])),
        stmt(Some("add_plugins"), Some(&["MyPlugin"])),
    ];
    replace_default_nest_plugins(&mut stmts, true);
    let once = vec![stmt(Some("add_plugins"), None), stmt(Some("add_plugins"), Some(&["MyPlugin"]))];
    assert_eq!(stmts, once);
    for e in [true, false] {
        assert_eq!(replace_default_nest_plugins(&mut stmts, e), vec![None, None]);
        assert_eq!(stmts, once);
    }
}

#[test]
fn nest_plugins_modes() {
    assert!(DefaultNestPlugins::editor().is_editor());
    assert!(!DefaultNestPlugins::default().is_editor());
}

#[test]
fn camera_moves_only_with_the_right_button() {
    let keys = CameraKeys { w: true, s: false, a: true, d: true, e: false, q: true };
    assert_eq!(camera_move_axes(false, keys), None);
    assert_eq!(camera_move_axes(true, keys), Some(MoveAxes { forward: 1, right: 0, up: -1 }));
}
