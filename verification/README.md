# nest_editor

The logic of the Nest game editor, verified with Verus.

- `src/user_app_state.rs`, `src/user_app.rs`: the lifecycle of a game loaded
  from its dynamic library (load, build, hand over the window, take it back,
  kill, unload), with the rule of which operation each state accepts.
- `src/editor_events.rs`: where window events go while the editor or the game
  holds the window, and the operations one frame performs on the game.
- `src/project_tree.rs`, `src/names.rs`: the file tree of the project panel,
  built from a directory walk, and its rows with their ids.
- `src/paths.rs`, `src/user_project.rs`: file names and joined paths as
  `std::path` computes them on Unix, and where a project's library is built
  and copied to.
- `src/view.rs`, `src/plugins.rs`, `src/camera.rs`: tab names and contents,
  the play button, the viewport check, the rewriting of a game's app builder,
  and the editor camera's movement keys.

`app/` is a small command-line driver: it walks the project directory, builds
the game's library, loads it with `libloading` and runs the game until it asks
to return to the editor.

A directory of the project tree is a `Vec` of entries kept sorted by name
(the order of `String`), the invariant `wf_entries` in `src/project_tree.rs`.
It stands where the original used a `BTreeMap<String, FileNode>`: for maps
with `String` keys Verus proves next to nothing, while the sorted `Vec`
lets every property of the tree be proved.

The `serde` dependency serves only `app/input.rs`: a copy of bevy's
mouse-button event that serializes to the same JSON that bevy's own
`Serialize` derive writes, since bevy itself is not a dependency here.
