use vstd::prelude::*;

use crate::paths::{
    file_name, file_name_of, is_plain_component, join_path, lemma_file_name_is_plain,
    lemma_file_name_of_join, path_join,
};

verus! {

/// A user's game project, known by the path of its directory.
#[derive(Debug)]
pub struct UserProject {
    project_path: String,
}

/// The text of a version-4 UUID as `Uuid`'s `Display` writes it: 36
/// characters, lower-case hexadecimal digits in groups of 8, 4, 4, 4 and
/// 12 separated by `-`, the version digit `4` and a variant digit among
/// `8`, `9`, `a`, `b`.
pub open spec fn is_uuid_v4_text(s: Seq<char>) -> bool {
    &&& s.len() == 36
    &&& forall|i: int|
        0 <= i < 36 ==> if i == 8 || i == 13 || i == 18 || i == 23 {
            #[trigger] s[i] == '-'
        } else {
            ('0' <= s[i] <= '9') || ('a' <= s[i] <= 'f')
        }
    &&& s[14] == '4'
    &&& (s[19] == '8' || s[19] == '9' || s[19] == 'a' || s[19] == 'b')
}

/// The file name under which a project's build writes its library.
pub open spec fn dylib_file_name(project_name: Seq<char>) -> Seq<char> {
    "lib"@ + project_name + ".dylib"@
}

/// The file name of a copy of the library, told apart by `id`.
pub open spec fn temp_dylib_file_name(project_name: Seq<char>, id: Seq<char>) -> Seq<char> {
    "lib"@ + project_name + "_"@ + id + ".dylib"@
}

/// A fresh random identifier, from `uuid::Uuid::new_v4` written as text.
/// The contract claims only the shape of the text, which holds of every
/// value `new_v4` can return (it sets the version and variant bits and the
/// hyphenated lower-case form is what `Display` writes). Which identifier
/// comes out is left open; `new_v4` panics where the system's random
/// source fails, which no argument can rule out.
#[verifier::external_body]
fn new_uuid_v4_text() -> (id: String)
    ensures
        is_uuid_v4_text(id@),
{
    uuid::Uuid::new_v4().to_string()
}

impl UserProject {
    pub closed spec fn spec_project_path(&self) -> Seq<char> {
        self.project_path@
    }

    pub fn new(project_path: String) -> (r: Self)
        ensures
            r.spec_project_path() == project_path@,
    {
        Self { project_path }
    }

    pub fn project_path(&self) -> (r: &String)
        ensures
            r@ == self.spec_project_path(),
    {
        &self.project_path
    }

    /// The last component of the project's path.
    pub fn project_name(&self) -> (r: &str)
        requires
            file_name_of(self.spec_project_path()) is Some,
        ensures
            file_name_of(self.spec_project_path()) == Some(r@),
    {
        file_name(self.project_path.as_str()).unwrap()
    }

    /// Where the project's build leaves its library, given the absolute
    /// path of the project: `target/debug/lib<name>.dylib` below it.
    pub fn generated_dylib_path(&self, absolute_project_path: &str) -> (r: String)
        requires
            file_name_of(self.spec_project_path()) is Some,
        ensures
            r@ == path_join(
                path_join(absolute_project_path@, "target/debug/"@),
                dylib_file_name(file_name_of(self.spec_project_path())->0),
            ),
    {
        let project_name = self.project_name();
        let mut lib_name = String::from_str("lib");
        lib_name.append(project_name);
        lib_name.append(".dylib");
        let dir = join_path(absolute_project_path, "target/debug/");
        join_path(dir.as_str(), lib_name.as_str())
    }

    /// Where the library is moved to be loaded, told apart from earlier
    /// copies by `id`: `lib<name>_<id>.dylib` in `temp_dir`.
    pub fn temp_lib_path_with_id(&self, temp_dir: &str, id: &str) -> (r: String)
        requires
            file_name_of(self.spec_project_path()) is Some,
        ensures
            r@ == path_join(
                temp_dir@,
                temp_dylib_file_name(file_name_of(self.spec_project_path())->0, id@),
            ),
    {
        let project_name = self.project_name();
        let mut lib_name = String::from_str("lib");
        lib_name.append(project_name);
        lib_name.append("_");
        lib_name.append(id);
        lib_name.append(".dylib");
        join_path(temp_dir, lib_name.as_str())
    }

    /// Where the library is moved to be loaded, told apart by a fresh
    /// random UUID.
    pub fn temp_lib_path(&self, temp_dir: &str) -> (r: String)
        requires
            file_name_of(self.spec_project_path()) is Some,
        ensures
            exists|id: Seq<char>|
                is_uuid_v4_text(id) && r@ == path_join(
                    temp_dir@,
                    temp_dylib_file_name(file_name_of(self.spec_project_path())->0, id),
                ),
    {
        let id = new_uuid_v4_text();
        self.temp_lib_path_with_id(temp_dir, id.as_str())
    }
}

/// The library's file name is the last component of the path where the
/// build leaves it, and of the path it is moved to.
pub proof fn lemma_dylib_paths_end_in_file_name(
    project_path: Seq<char>,
    dir: Seq<char>,
    id: Seq<char>,
)
    requires
        file_name_of(project_path) is Some,
        forall|i: int| 0 <= i < id.len() ==> #[trigger] id[i] != '/',
    ensures
        file_name_of(path_join(dir, dylib_file_name(file_name_of(project_path)->0))) == Some(
            dylib_file_name(file_name_of(project_path)->0),
        ),
        file_name_of(path_join(dir, temp_dylib_file_name(file_name_of(project_path)->0, id)))
            == Some(temp_dylib_file_name(file_name_of(project_path)->0, id)),
{
    let n = file_name_of(project_path)->0;
    lemma_file_name_is_plain(project_path);
    reveal_strlit("lib");
    reveal_strlit(".dylib");
    reveal_strlit("_");
    let d = dylib_file_name(n);
    let t = temp_dylib_file_name(n, id);
    assert forall|i: int| 0 <= i < d.len() implies #[trigger] d[i] != '/' by {
        if 3 <= i < 3 + n.len() {
            assert(d[i] == n[i - 3]);
        }
    }
    assert forall|i: int| 0 <= i < t.len() implies #[trigger] t[i] != '/' by {
        if 3 <= i < 3 + n.len() {
            assert(t[i] == n[i - 3]);
        } else if 4 + n.len() <= i < 4 + n.len() + id.len() {
            assert(t[i] == id[i - 4 - n.len()]);
        }
    }
    assert(d.len() > 2 && t.len() > 2);
    assert(is_plain_component(d));
    assert(is_plain_component(t));
    lemma_file_name_of_join(dir, d);
    lemma_file_name_of_join(dir, t);
}

/// Copies of the library told apart by different UUIDs get different file
/// names.
pub proof fn lemma_temp_names_distinct(name: Seq<char>, a: Seq<char>, b: Seq<char>)
    requires
        is_uuid_v4_text(a),
        is_uuid_v4_text(b),
        a != b,
    ensures
        temp_dylib_file_name(name, a) != temp_dylib_file_name(name, b),
{
    reveal_strlit("lib");
    reveal_strlit(".dylib");
    reveal_strlit("_");
    let ta = temp_dylib_file_name(name, a);
    let tb = temp_dylib_file_name(name, b);
    let k: int = 4 + name.len() as int;
    if ta == tb {
        assert(ta.subrange(k, k + 36) =~= a);
        assert(tb.subrange(k, k + 36) =~= b);
    }
}

impl Clone for UserProject {
    fn clone(&self) -> (r: Self)
        ensures
            r.spec_project_path() == self.spec_project_path(),
    {
        UserProject { project_path: self.project_path.clone() }
    }
}

} // verus!
