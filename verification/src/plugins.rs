use vstd::prelude::*;

verus! {

/// The plugins that a game built with Nest starts with: the game's own
/// plugins when run as a game, or the editor's when run inside the editor.
#[derive(Debug)]
pub struct DefaultNestPlugins {
    is_editor: bool,
}

impl DefaultNestPlugins {
    pub closed spec fn spec_is_editor(&self) -> bool {
        self.is_editor
    }

    /// The plugins for running the game inside the editor.
    pub fn editor() -> (r: Self)
        ensures
            r.spec_is_editor(),
    {
        Self { is_editor: true }
    }

    /// Whether these are the editor's plugins.
    pub fn is_editor(&self) -> (r: bool)
        ensures
            r == self.spec_is_editor(),
    {
        self.is_editor
    }
}

impl Default for DefaultNestPlugins {
    /// The plugins for running the game on its own.
    fn default() -> (r: Self)
        ensures
            !r.spec_is_editor(),
    {
        Self { is_editor: false }
    }
}

/// The call that replaces an `add_plugins(DefaultPlugins)` statement of a
/// game's app builder.
#[derive(Debug, Clone, Copy, PartialEq, Eq, Structural)]
pub enum NestPluginsCall {
    /// `app.add_plugins(DefaultNestPlugins::default());`
    Runtime,
    /// `app.add_plugins(DefaultNestPlugins::editor());`
    Editor,
}

/// What the rewriting of an app builder reads of one statement: the name of
/// the method when the statement is a method call, and the segments of its
/// first argument when that argument is a path.
#[derive(Debug, PartialEq, Eq)]
pub struct StatementShape {
    pub method: Option<String>,
    pub first_arg_path: Option<Vec<String>>,
}

/// Whether the statement adds the default plugins: a call of `add_plugins`
/// whose first argument is a path with a segment `DefaultPlugins`.
pub open spec fn adds_default_plugins(stmt: StatementShape) -> bool {
    &&& stmt.method matches Some(m) && m@ == "add_plugins"@
    &&& stmt.first_arg_path matches Some(segments) && exists|i: int|
        0 <= i < segments@.len() && #[trigger] segments@[i]@ == "DefaultPlugins"@
}

/// The call that replaces the statement, if any: the editor's plugins in
/// the builder used by the editor, the game's own plugins otherwise.
pub fn default_plugins_replacement(stmt: &StatementShape, is_editor: bool) -> (r: Option<
    NestPluginsCall,
>)
    ensures
        r == (if adds_default_plugins(*stmt) {
            Some(
                if is_editor {
                    NestPluginsCall::Editor
                } else {
                    NestPluginsCall::Runtime
                },
            )
        } else {
            None
        }),
{
    let add_plugins = String::from_str("add_plugins");
    let default_plugins = String::from_str("DefaultPlugins");
    match &stmt.method {
        Some(method) => {
            if *method != add_plugins {
                return None;
            }
        },
        None => {
            return None;
        },
    }
    match &stmt.first_arg_path {
        Some(segments) => {
            let mut i: usize = 0;
            while i < segments.len()
                invariant
                    i <= segments.len(),
                    default_plugins@ == "DefaultPlugins"@,
                    stmt.first_arg_path == Some(*segments),
                    stmt.method matches Some(m) && m@ == "add_plugins"@,
                    forall|j: int| 0 <= j < i ==> #[trigger] segments@[j]@ != "DefaultPlugins"@,
                decreases segments.len() - i,
            {
                if segments[i] == default_plugins {
                    assert(segments@[i as int]@ == "DefaultPlugins"@);
                    assert(stmt.first_arg_path matches Some(sg) && sg == *segments);
                    assert(adds_default_plugins(*stmt));
                    return Some(
                        if is_editor {
                            NestPluginsCall::Editor
                        } else {
                            NestPluginsCall::Runtime
                        },
                    );
                }
                i += 1;
            }
            None
        },
        None => None,
    }
}

/// The shape of the statement that replaces an `add_plugins(DefaultPlugins)`
/// statement: a call of `add_plugins` whose first argument is a call
/// (`DefaultNestPlugins::default()` or `DefaultNestPlugins::editor()`), not a
/// path.
pub open spec fn is_nest_plugins_statement(stmt: StatementShape) -> bool {
    &&& stmt.method matches Some(m) && m@ == "add_plugins"@
    &&& stmt.first_arg_path is None
}

/// `new` is `old` rewritten: every statement that adds the default plugins
/// is replaced by the call of `add_plugins` with the Nest plugins, every
/// other statement stays as it was.
pub open spec fn is_rewrite_of(new: Seq<StatementShape>, old: Seq<StatementShape>) -> bool {
    &&& new.len() == old.len()
    &&& forall|i: int|
        0 <= i < old.len() ==> if adds_default_plugins(#[trigger] old[i]) {
            is_nest_plugins_statement(new[i])
        } else {
            new[i] == old[i]
        }
}

/// Rewrites the statements of an app builder in place: each statement that
/// adds the default plugins becomes `app.add_plugins(DefaultNestPlugins::…)`
/// (the editor's plugins when `is_editor`, the game's own otherwise). The
/// result says, for each statement, which call replaced it, or `None` where
/// it stayed.
pub fn replace_default_nest_plugins(stmts: &mut Vec<StatementShape>, is_editor: bool) -> (r: Vec<
    Option<NestPluginsCall>,
>)
    ensures
        is_rewrite_of(final(stmts)@, old(stmts)@),
        r@.len() == old(stmts)@.len(),
        forall|i: int|
            0 <= i < old(stmts)@.len() ==> #[trigger] r@[i] == (if adds_default_plugins(
                old(stmts)@[i],
            ) {
                Some(
                    if is_editor {
                        NestPluginsCall::Editor
                    } else {
                        NestPluginsCall::Runtime
                    },
                )
            } else {
                None
            }),
{
    let ghost old_stmts = stmts@;
    let mut r: Vec<Option<NestPluginsCall>> = Vec::new();
    let mut i: usize = 0;
    while i < stmts.len()
        invariant
            i <= stmts.len(),
            stmts@.len() == old_stmts.len(),
            r@.len() == i,
            forall|j: int| i <= j < old_stmts.len() ==> #[trigger] stmts@[j] == old_stmts[j],
            forall|j: int|
                0 <= j < i ==> if adds_default_plugins(#[trigger] old_stmts[j]) {
                    is_nest_plugins_statement(stmts@[j])
                } else {
                    stmts@[j] == old_stmts[j]
                },
            forall|j: int|
                0 <= j < i ==> #[trigger] r@[j] == (if adds_default_plugins(old_stmts[j]) {
                    Some(
                        if is_editor {
                            NestPluginsCall::Editor
                        } else {
                            NestPluginsCall::Runtime
                        },
                    )
                } else {
                    None
                }),
        decreases stmts.len() - i,
    {
        let replacement = default_plugins_replacement(&stmts[i], is_editor);
        if replacement.is_some() {
            let call = StatementShape {
                method: Some(String::from_str("add_plugins")),
                first_arg_path: None,
            };
            stmts.set(i, call);
        }
        r.push(replacement);
        i += 1;
    }
    r
}

/// The statement put in place of the default plugins never adds the
/// default plugins: its first argument is a call, not a path.
pub proof fn lemma_nest_plugins_statement_not_replaced(stmt: StatementShape)
    requires
        is_nest_plugins_statement(stmt),
    ensures
        !adds_default_plugins(stmt),
{
}

/// Rewriting is idempotent: once a builder is rewritten (for the editor or
/// for the game), rewriting it again, for either, changes nothing and
/// replaces nothing.
pub proof fn lemma_rewrite_idempotent(
    a: Seq<StatementShape>,
    b: Seq<StatementShape>,
    c: Seq<StatementShape>,
)
    requires
        is_rewrite_of(b, a),
        is_rewrite_of(c, b),
    ensures
        forall|i: int| 0 <= i < b.len() ==> !adds_default_plugins(#[trigger] b[i]),
        c == b,
{
    assert forall|i: int| 0 <= i < b.len() implies !adds_default_plugins(#[trigger] b[i]) by {
        if adds_default_plugins(a[i]) {
            lemma_nest_plugins_statement_not_replaced(b[i]);
        }
    }
    assert forall|i: int| 0 <= i < b.len() implies c[i] == b[i] by {
        assert(!adds_default_plugins(b[i]));
    }
    assert(c =~= b);
}

} // verus!
