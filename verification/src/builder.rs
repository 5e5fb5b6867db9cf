//! Building the rendered SQL for a target.
//!
//! The caller resolves the target and the working root to canonical path
//! strings, reads the target directory's top-level entry names, and walks
//! the root for `.sql` fragment files; this module does everything else:
//! naming the fragments, selecting the entry point, refusing structurally
//! invalid targets, rendering, and trimming the result.

use vstd::prelude::*;
use vstd::string::StringExecFns;
use crate::paths::{
    spec_trim_slashes,
    spec_relative_to,
    spec_file_name,
    spec_has_sql_ext,
    spec_entry_name,
    trim_trailing_slashes,
    relative_to,
    has_sql_ext,
    entry_name,
};
use crate::text::{spec_trim, trim_chars, chars_of, string_of, str_eq, lemma_trim_idempotent};
use crate::render::{tera_new, tera_add_template, tera_register_date_range, tera_render};

verus! {

/// One fragment file found under the working root: its canonical path and
/// its text.
pub struct SqlFile {
    pub path: String,
    pub content: String,
}

/// What the build target is.
pub enum TargetKind {
    /// A directory; `top_entries` holds the names of its immediate entries.
    Directory { top_entries: Vec<String> },
    /// A single file, with its text.
    File { content: String },
}

/// Everything a build needs, as plain values: the canonical working root,
/// the canonical target path, the kind of target, and the `.sql` files
/// walked from the root.
pub struct BuildRequest {
    pub working_dir: String,
    pub target: String,
    pub kind: TargetKind,
    pub files: Vec<SqlFile>,
}

/// The ways a build fails.
#[derive(Debug)]
pub enum BuildError {
    /// The target directory has entries, but none with the `sql` extension.
    NoSqlFilesFound { entries: Vec<String> },
    /// The entry-point template is not registered.
    IndexNotFound { entry: String },
    /// Registering a template or rendering the entry point failed; the
    /// message carries the engine's diagnostic.
    Render { message: String },
}

/// Whether a build target is a directory. The caller decides the kind when
/// it probes the filesystem; everything downstream goes through this test.
pub fn is_dir(kind: &TargetKind) -> (r: bool)
    ensures
        r == (*kind is Directory),
{
    match kind {
        TargetKind::Directory { .. } => true,
        TargetKind::File { .. } => false,
    }
}

/// The root-relative target path.
pub open spec fn spec_rel_target(req: BuildRequest) -> Seq<char> {
    spec_relative_to(req.working_dir@, spec_trim_slashes(req.target@))
}

/// The entry-point template name of a request.
pub open spec fn spec_entry(req: BuildRequest) -> Seq<char> {
    spec_entry_name(req.kind is Directory, spec_rel_target(req), req.target@)
}

/// The names under which the request's fragments are registered: each
/// walked file under its root-relative path, and, for a single-file target,
/// the target under its own file name.
pub open spec fn spec_fragment_names(req: BuildRequest) -> Seq<Seq<char>> {
    req.files@.map(|i: int, f: SqlFile| spec_relative_to(req.working_dir@, f.path@)) + (
    if req.kind is File {
        seq![spec_file_name(spec_trim_slashes(req.target@))]
    } else {
        Seq::<Seq<char>>::empty()
    })
}

/// Some entry name carries the `sql` extension.
pub open spec fn spec_some_sql_entry(entries: Seq<Seq<char>>) -> bool {
    exists|i: int| 0 <= i < entries.len() && spec_has_sql_ext(#[trigger] entries[i])
}

/// The build reaches the rendering step: the target is a file, or a
/// directory with entries of which at least one has the `sql` extension.
pub open spec fn spec_render_reached(req: BuildRequest) -> bool {
    match req.kind {
        TargetKind::Directory { top_entries } => top_entries@.len() > 0 && spec_some_sql_entry(
            top_entries.deep_view(),
        ),
        TargetKind::File { .. } => true,
    }
}

/// Renders the SQL for a request.
///
/// An empty directory target yields the empty string. A directory target
/// with entries but no `.sql` entry is refused, naming the entries. The
/// entry point (`index.sql` for directories, the file's own name for
/// files) must be registered, or the build is refused at render time; any
/// template error is passed through. The rendered output is trimmed.
pub fn build(req: &BuildRequest) -> (r: Result<String, BuildError>)
    ensures
        req.kind matches TargetKind::Directory { top_entries } ==> ((top_entries@.len() == 0
            ==> (r matches Ok(s) && s@ == Seq::<char>::empty())) && ((top_entries@.len() > 0
            && !spec_some_sql_entry(top_entries.deep_view())) ==> (r matches Err(
            BuildError::NoSqlFilesFound { entries },
        ) && entries.deep_view() == top_entries.deep_view()))),
        r matches Err(BuildError::NoSqlFilesFound { entries }) ==> (req.kind matches
            TargetKind::Directory { top_entries } && top_entries@.len() > 0 && !spec_some_sql_entry(
            top_entries.deep_view(),
        ) && entries.deep_view() == top_entries.deep_view()),
        (spec_render_reached(*req) && !spec_fragment_names(*req).contains(spec_entry(*req))) ==> (
        r matches Err(BuildError::IndexNotFound { entry }) && entry@ == spec_entry(*req)),
        r matches Err(BuildError::IndexNotFound { entry }) ==> (spec_render_reached(*req)
            && !spec_fragment_names(*req).contains(spec_entry(*req)) && entry@ == spec_entry(*req)),
        r matches Err(BuildError::Render { .. }) ==> (spec_render_reached(*req)
            && spec_fragment_names(*req).contains(spec_entry(*req))),
        r matches Ok(s) ==> s@ == spec_trim(s@),
        r is Ok ==> ((req.kind matches TargetKind::Directory { top_entries } && top_entries@.len()
            == 0) || (spec_render_reached(*req) && spec_fragment_names(*req).contains(
            spec_entry(*req),
        ))),
{
    match &req.kind {
        TargetKind::Directory { top_entries } => {
            if top_entries.len() == 0 {
                return Ok(String::new());
            }
            let mut any_sql = false;
            let mut i: usize = 0;
            while i < top_entries.len()
                invariant
                    0 <= i <= top_entries@.len(),
                    any_sql == spec_some_sql_entry(top_entries.deep_view().take(i as int)),
                decreases top_entries@.len() - i,
            {
                let ghost before = top_entries.deep_view().take(i as int);
                let ghost after = top_entries.deep_view().take(i as int + 1);
                let is_sql = has_sql_ext(top_entries[i].as_str());
                proof {
                    assert(top_entries.deep_view()[i as int] == top_entries@[i as int]@);
                    assert(after =~= before.push(top_entries@[i as int]@));
                    if is_sql {
                        assert(after[i as int] == top_entries@[i as int]@);
                        assert(spec_some_sql_entry(after));
                    } else {
                        if spec_some_sql_entry(after) && !spec_some_sql_entry(before) {
                            let w = choose|w: int|
                                0 <= w < after.len() && spec_has_sql_ext(#[trigger] after[w]);
                            if w < i {
                                assert(before[w] == after[w]);
                            }
                        }
                    }
                }
                any_sql = any_sql || is_sql;
                i += 1;
            }
            proof {
                assert(top_entries.deep_view().take(top_entries@.len() as int)
                    =~= top_entries.deep_view());
            }
            if !any_sql {
                let entries = clone_strings(top_entries);
                return Err(BuildError::NoSqlFilesFound { entries });
            }
        },
        TargetKind::File { .. } => {},
    }
    render_request(req)
}

/// A copy of a vector of strings, character for character.
fn clone_strings(v: &Vec<String>) -> (r: Vec<String>)
    ensures
        r.deep_view() == v.deep_view(),
{
    let mut r: Vec<String> = Vec::new();
    let mut i: usize = 0;
    proof {
        assert(r.deep_view() =~= v.deep_view().take(0));
    }
    while i < v.len()
        invariant
            0 <= i <= v@.len(),
            r.deep_view() == v.deep_view().take(i as int),
        decreases v@.len() - i,
    {
        let ghost prev = r.deep_view();
        let item = v[i].clone();
        let ghost itemv = item@;
        r.push(item);
        proof {
            assert(r.deep_view() =~= prev.push(itemv));
            assert(v.deep_view()[i as int] == v@[i as int]@);
            assert(prev.push(itemv) =~= v.deep_view().take(i as int + 1));
        }
        i += 1;
    }
    proof {
        assert(v.deep_view().take(v@.len() as int) =~= v.deep_view());
    }
    r
}

/// The rendering step shared by both target kinds: names the fragments,
/// checks the entry point, and runs the engine.
fn render_request(req: &BuildRequest) -> (r: Result<String, BuildError>)
    requires
        spec_render_reached(*req),
    ensures
        !spec_fragment_names(*req).contains(spec_entry(*req)) ==> (r matches Err(
            BuildError::IndexNotFound { entry },
        ) && entry@ == spec_entry(*req)),
        r matches Err(BuildError::IndexNotFound { entry }) ==> (!spec_fragment_names(
            *req,
        ).contains(spec_entry(*req)) && entry@ == spec_entry(*req)),
        r matches Err(BuildError::Render { .. }) ==> spec_fragment_names(*req).contains(
            spec_entry(*req),
        ),
        !(r matches Err(BuildError::NoSqlFilesFound { .. })),
        r matches Ok(s) ==> s@ == spec_trim(s@),
{
    let trimmed_target = trim_trailing_slashes(req.target.as_str());
    let rel = relative_to(req.working_dir.as_str(), trimmed_target.as_str());
    let target_is_dir = is_dir(&req.kind);
    let entry = entry_name(target_is_dir, rel.as_str(), req.target.as_str());

    let ghost name_map = req.files@.map(
        |k: int, f: SqlFile| spec_relative_to(req.working_dir@, f.path@),
    );
    let mut names: Vec<String> = Vec::new();
    let mut i: usize = 0;
    proof {
        assert(names.deep_view() =~= name_map.take(0));
    }
    while i < req.files.len()
        invariant
            0 <= i <= req.files@.len(),
            name_map == req.files@.map(
                |k: int, f: SqlFile| spec_relative_to(req.working_dir@, f.path@),
            ),
            names.deep_view() == name_map.take(i as int),
        decreases req.files@.len() - i,
    {
        let ghost prev = names.deep_view();
        let name = relative_to(req.working_dir.as_str(), req.files[i].path.as_str());
        let ghost namev = name@;
        names.push(name);
        proof {
            assert(names.deep_view() =~= prev.push(namev));
            assert(name_map[i as int] == spec_relative_to(
                req.working_dir@,
                req.files@[i as int].path@,
            ));
            assert(prev.push(namev) =~= name_map.take(i as int + 1));
        }
        i += 1;
    }
    proof {
        assert(name_map.take(req.files@.len() as int) =~= name_map);
    }
    match &req.kind {
        TargetKind::File { .. } => {
            let ghost prev = names.deep_view();
            let t = trim_trailing_slashes(req.target.as_str());
            let own = crate::paths::file_name(t.as_str());
            let ghost ownv = own@;
            names.push(own);
            proof {
                assert(names.deep_view() =~= prev.push(ownv));
                assert(prev.push(ownv) =~= spec_fragment_names(*req));
            }
        },
        TargetKind::Directory { .. } => {
            proof {
                assert(names.deep_view() =~= spec_fragment_names(*req));
            }
        },
    }
    proof {
        assert(names.deep_view() =~= spec_fragment_names(*req));
    }

    // The entry point must be registered; this is where a directory tree
    // without an `index.sql` is refused.
    let mut found = false;
    let ghost mut wit: int = 0;
    let mut j: usize = 0;
    while j < names.len()
        invariant
            0 <= j <= names@.len(),
            found ==> 0 <= wit < j && names.deep_view()[wit] == entry@,
            !found ==> forall|k: int| 0 <= k < j ==> names.deep_view()[k] != entry@,
            entry@ == spec_entry(*req),
            names.deep_view() =~= spec_fragment_names(*req),
        decreases names@.len() - j,
    {
        if !found {
            let eq = str_eq(names[j].as_str(), entry.as_str());
            proof {
                assert(names.deep_view()[j as int] == names@[j as int]@);
            }
            if eq {
                found = true;
                proof {
                    wit = j as int;
                }
            }
        }
        j += 1;
    }
    if !found {
        proof {
            if spec_fragment_names(*req).contains(entry@) {
                let w = choose|w: int|
                    0 <= w < spec_fragment_names(*req).len() && spec_fragment_names(*req)[w]
                        == entry@;
                assert(names.deep_view()[w] == entry@);
            }
        }
        return Err(BuildError::IndexNotFound { entry });
    }
    proof {
        assert(spec_fragment_names(*req)[wit] == entry@);
        assert(spec_fragment_names(*req).contains(entry@));
    }

    // Register every fragment and render the entry point.
    let mut engine = tera_new();
    let mut a: usize = 0;
    while a < req.files.len()
        invariant
            0 <= a <= req.files@.len(),
            spec_fragment_names(*req).contains(spec_entry(*req)),
            entry@ == spec_entry(*req),
        decreases req.files@.len() - a,
    {
        let name = relative_to(req.working_dir.as_str(), req.files[a].path.as_str());
        match tera_add_template(&mut engine, name.as_str(), req.files[a].content.as_str()) {
            Ok(()) => {},
            Err(message) => {
                return Err(BuildError::Render { message });
            },
        }
        a += 1;
    }
    match &req.kind {
        TargetKind::File { content } => {
            let t = trim_trailing_slashes(req.target.as_str());
            let own = crate::paths::file_name(t.as_str());
            match tera_add_template(&mut engine, own.as_str(), content.as_str()) {
                Ok(()) => {},
                Err(message) => {
                    return Err(BuildError::Render { message });
                },
            }
        },
        TargetKind::Directory { .. } => {},
    }
    tera_register_date_range(&mut engine);
    match tera_render(&engine, entry.as_str()) {
        Ok(out) => {
            let v = chars_of(out.as_str());
            let t = trim_chars(&v);
            proof {
                lemma_trim_idempotent(out@);
            }
            Ok(string_of(&t))
        },
        Err(message) => Err(BuildError::Render { message }),
    }
}

/// The names rendered as a quoted, comma-separated list, over the first `n`
/// of them.
pub open spec fn spec_quoted_list(es: Seq<Seq<char>>, n: int) -> Seq<char>
    decreases n,
{
    if n <= 0 {
        Seq::empty()
    } else if n == 1 {
        "\""@ + es[0] + "\""@
    } else {
        spec_quoted_list(es, n - 1) + ", \""@ + es[n - 1] + "\""@
    }
}

/// The diagnostic text of a [`BuildError`].
pub open spec fn spec_build_error_message(e: BuildError) -> Seq<char> {
    match e {
        BuildError::NoSqlFilesFound { entries } => "top-level doesn't contains any index.sql file: ["@
            + spec_quoted_list(entries.deep_view(), entries@.len() as int) + "]"@,
        BuildError::IndexNotFound { entry } => "template '"@ + entry@ + "' not found"@,
        BuildError::Render { message } => message@,
    }
}

impl BuildError {
    /// Renders the error for display, naming the offending entries or the
    /// missing entry point.
    pub fn message(&self) -> (r: String)
        ensures
            r@ == spec_build_error_message(*self),
    {
        match self {
            BuildError::NoSqlFilesFound { entries } => {
                let mut m = String::new();
                m.append("top-level doesn't contains any index.sql file: [");
                let ghost head = "top-level doesn't contains any index.sql file: ["@;
                let mut i: usize = 0;
                while i < entries.len()
                    invariant
                        0 <= i <= entries@.len(),
                        m@ == head + spec_quoted_list(entries.deep_view(), i as int),
                    decreases entries@.len() - i,
                {
                    if i > 0 {
                        m.append(", \"");
                    } else {
                        m.append("\"");
                    }
                    m.append(entries[i].as_str());
                    m.append("\"");
                    proof {
                        assert(entries.deep_view()[i as int] == entries@[i as int]@);
                        if i == 0 {
                            assert(head + Seq::<char>::empty() =~= head);
                            assert(head + ("\""@ + entries.deep_view()[0] + "\""@) =~= ((head
                                + "\""@) + entries.deep_view()[0]) + "\""@);
                        } else {
                            assert(head + (spec_quoted_list(entries.deep_view(), i as int)
                                + ", \""@ + entries.deep_view()[i as int] + "\""@) =~= (((head
                                + spec_quoted_list(entries.deep_view(), i as int)) + ", \""@)
                                + entries.deep_view()[i as int]) + "\""@);
                        }
                    }
                    i += 1;
                }
                m.append("]");
                proof {
                    assert(head + spec_quoted_list(
                        entries.deep_view(),
                        entries@.len() as int,
                    ) + "]"@ =~= spec_build_error_message(*self));
                }
                m
            },
            BuildError::IndexNotFound { entry } => {
                let mut m = String::new();
                m.append("template '");
                m.append(entry.as_str());
                m.append("' not found");
                proof {
                    assert((("template '"@ + entry@) + "' not found"@) =~= ("template '"@ + entry@
                        + "' not found"@));
                }
                m
            },
            BuildError::Render { message } => message.clone(),
        }
    }
}

} // verus!
