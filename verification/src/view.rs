use vstd::prelude::*;

verus! {

/// The tabs of the editor's dock.
#[derive(Debug, PartialEq, Eq)]
pub enum WindowType {
    Inspector,
    Viewport,
    World,
    Assets,
    Resources,
    Project,
    Console,
    _Custom(String),
}

/// The name of a tab.
pub open spec fn window_type_name(w: WindowType) -> Seq<char> {
    match w {
        WindowType::Inspector => "Inspector"@,
        WindowType::Viewport => "Scene"@,
        WindowType::World => "World"@,
        WindowType::Assets => "Assets"@,
        WindowType::Resources => "Resources"@,
        WindowType::Project => "Project"@,
        WindowType::Console => "Console"@,
        WindowType::_Custom(name) => name@,
    }
}

/// What a tab shows.
#[derive(Debug, Clone, Copy, PartialEq, Eq, Structural)]
pub enum TabContent {
    /// The game's image: the tab only records where it is drawn.
    GameViewport,
    /// The components of the one selected entity, with a row to add one.
    EntityInspector,
    /// The components that all selected entities share.
    SharedComponents,
    /// The entity hierarchy and a button that creates an entity.
    Hierarchy,
    /// A text naming the custom tab.
    CustomLabel,
    AllAssets,
    AllResources,
    ProjectFiles,
    Log,
}

/// Which entities the hierarchy lists.
#[derive(Debug, Clone, Copy, PartialEq, Eq, Structural)]
pub enum HierarchyFilter {
    /// Only the entities that belong to the edited scene.
    SceneObjectsOnly,
    /// Every entity of the running game.
    AllEntities,
}

/// The event that the play button sends.
#[derive(Debug, Clone, Copy, PartialEq, Eq, Structural)]
pub enum PlayButtonEvent {
    OpenGame,
    ReturnToEditor,
}

/// The icon of the play button.
#[derive(Debug, Clone, Copy, PartialEq, Eq, Structural)]
pub enum PlayButtonIcon {
    Play,
    Stop,
}

impl WindowType {
    /// The name of the tab.
    pub fn name(&self) -> (r: String)
        ensures
            r@ == window_type_name(*self),
    {
        match self {
            WindowType::Inspector => String::from_str("Inspector"),
            WindowType::Viewport => String::from_str("Scene"),
            WindowType::World => String::from_str("World"),
            WindowType::Assets => String::from_str("Assets"),
            WindowType::Resources => String::from_str("Resources"),
            WindowType::Project => String::from_str("Project"),
            WindowType::Console => String::from_str("Console"),
            WindowType::_Custom(name) => name.clone(),
        }
    }

    /// The title shown on the tab: the viewport reads "Game" while the
    /// editor runs inside the game, and every other tab its name.
    pub fn title(&self, in_game_editor: bool) -> (r: String)
        ensures
            r@ == (if *self is Viewport {
                if in_game_editor {
                    "Game"@
                } else {
                    "Scene"@
                }
            } else {
                window_type_name(*self)
            }),
    {
        if let WindowType::Viewport = self {
            if in_game_editor {
                return String::from_str("Game");
            } else {
                return String::from_str("Scene");
            }
        }
        self.name()
    }

    /// Only the viewport keeps the game's image behind it.
    pub fn clear_background(&self) -> (r: bool)
        ensures
            r == !(*self is Viewport),
    {
        !matches!(self, WindowType::Viewport)
    }

    /// Every tab but the viewport may be dragged out into a window.
    pub fn allowed_in_windows(&self) -> (r: bool)
        ensures
            r == !(*self is Viewport),
    {
        !matches!(self, WindowType::Viewport)
    }

    /// What the tab shows, given how many entities are selected.
    pub fn content(&self, selected_entities: usize) -> (r: TabContent)
        ensures
            r == match *self {
                WindowType::Viewport => TabContent::GameViewport,
                WindowType::Inspector => if selected_entities == 1 {
                    TabContent::EntityInspector
                } else {
                    TabContent::SharedComponents
                },
                WindowType::World => TabContent::Hierarchy,
                WindowType::_Custom(_) => TabContent::CustomLabel,
                WindowType::Assets => TabContent::AllAssets,
                WindowType::Resources => TabContent::AllResources,
                WindowType::Project => TabContent::ProjectFiles,
                WindowType::Console => TabContent::Log,
            },
    {
        match self {
            WindowType::Viewport => TabContent::GameViewport,
            WindowType::Inspector => {
                if selected_entities == 1 {
                    TabContent::EntityInspector
                } else {
                    TabContent::SharedComponents
                }
            },
            WindowType::World => TabContent::Hierarchy,
            WindowType::_Custom(_) => TabContent::CustomLabel,
            WindowType::Assets => TabContent::AllAssets,
            WindowType::Resources => TabContent::AllResources,
            WindowType::Project => TabContent::ProjectFiles,
            WindowType::Console => TabContent::Log,
        }
    }
}

/// The text that a custom tab shows.
pub fn custom_tab_text(name: &str) -> (r: String)
    ensures
        r@ == "Custom tab: "@ + name@,
{
    let mut r = String::from_str("Custom tab: ");
    r.append(name);
    r
}

/// Inside the running game the hierarchy lists every entity; in the editor
/// only the objects of the scene.
pub fn hierarchy_filter(in_game_editor: bool) -> (r: HierarchyFilter)
    ensures
        r == (if in_game_editor {
            HierarchyFilter::AllEntities
        } else {
            HierarchyFilter::SceneObjectsOnly
        }),
{
    if !in_game_editor {
        HierarchyFilter::SceneObjectsOnly
    } else {
        HierarchyFilter::AllEntities
    }
}

/// The play button of the top bar: "Stop" with the stop icon, going back
/// to the editor, while the editor runs inside the game; else "Play" with
/// the play icon, opening the game.
pub fn play_button(in_game_editor: bool) -> (r: (PlayButtonIcon, String, PlayButtonEvent))
    ensures
        in_game_editor ==> r.0 == PlayButtonIcon::Stop && r.1@ == "Stop"@ && r.2
            == PlayButtonEvent::ReturnToEditor,
        !in_game_editor ==> r.0 == PlayButtonIcon::Play && r.1@ == "Play"@ && r.2
            == PlayButtonEvent::OpenGame,
{
    if in_game_editor {
        (PlayButtonIcon::Stop, String::from_str("Stop"), PlayButtonEvent::ReturnToEditor)
    } else {
        (PlayButtonIcon::Play, String::from_str("Play"), PlayButtonEvent::OpenGame)
    }
}

/// Whether the camera's viewport, placed at `physical_position` with size
/// `physical_size` in physical pixels, lies within a window of
/// `window_size`; a viewport reaching past the window is not applied.
pub fn viewport_fits_window(
    physical_position: (u32, u32),
    physical_size: (u32, u32),
    window_size: (u32, u32),
) -> (r: bool)
    requires
        physical_position.0 + physical_size.0 <= u32::MAX,
        physical_position.1 + physical_size.1 <= u32::MAX,
    ensures
        r == (physical_position.0 + physical_size.0 <= window_size.0 && physical_position.1
            + physical_size.1 <= window_size.1),
{
    let rect = (physical_position.0 + physical_size.0, physical_position.1 + physical_size.1);
    rect.0 <= window_size.0 && rect.1 <= window_size.1
}

} // verus!
