use vstd::prelude::*;

verus! {

/// What `Path::join` makes of a directory and a name, as text.
pub uninterp spec fn joined_path(dir: Seq<char>, name: Seq<char>) -> Seq<char>;

/// Relies on `Path::join` and `Path::to_string_lossy`: the path of `name`
/// inside `dir`, which depends on the two texts alone; with `name` relative,
/// free of separators and prefixes, and neither `.` nor `..`, it ends with
/// `name`.
#[verifier::external_body]
fn join_path(dir: &str, name: &str) -> (r: String)
    requires
        forall|i: int|
            0 <= i < name@.len() ==> #[trigger] name@[i] != '/' && name@[i] != '\\' && name@[i]
                != ':',
        name@ != "."@,
        name@ != ".."@,
    ensures
        r@ == joined_path(dir@, name@),
        name@.is_suffix_of(r@),
{
    std::path::Path::new(dir).join(name).to_string_lossy().into_owned()
}

/// The path of the report file `.pw.cql.md` inside `preview_dir_path`.
pub fn get_preview_file_path(preview_dir_path: &str) -> (r: String)
    ensures
        r@ == joined_path(preview_dir_path@, ".pw.cql.md"@),
        ".pw.cql.md"@.is_suffix_of(r@),
{
    proof {
        reveal_strlit(".pw.cql.md");
        reveal_strlit(".");
        reveal_strlit("..");
        assert(".pw.cql.md"@ != "."@) by {
            assert(".pw.cql.md"@.len() != "."@.len());
        }
        assert(".pw.cql.md"@ != ".."@) by {
            assert(".pw.cql.md"@.len() != ".."@.len());
        }
    }
    join_path(preview_dir_path, ".pw.cql.md")
}

/// The `info` command, which has no behaviour of its own yet.
pub fn cmd_info() {
}

} // verus!
