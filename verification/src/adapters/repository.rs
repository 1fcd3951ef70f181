//! A stand-in file repository that keeps nothing: it reports each change on
//! standard output and answers lookups with a fixed example record.
use std::io::Write;
use vstd::prelude::*;
use crate::domain::entity::FileEntity;
use crate::domain::factory::build_file;
use crate::domain::repository::FileRepository;
use crate::text::owned;
use vstd::string::StringExecFns;

verus! {

/// Writes `line` and a newline to standard output (`writeln!` on
/// `std::io::stdout()`); a failed write is ignored.
#[verifier::external_body]
fn print_line(line: &str) {
    let _ = writeln!(std::io::stdout(), "{}", line);
}

/// A repository that only reports what it is asked to do.
pub struct LocalRepositoty;

/// The report of `track`.
pub fn tracked_message(path: &str) -> (r: String)
    ensures
        r@ == "File with path \""@ + path@ + "\" was tracked"@,
{
    let mut m = owned("File with path \"");
    m.append(path);
    m.append("\" was tracked");
    m
}

/// The report of `remove`.
pub fn removed_message(id_path: &str) -> (r: String)
    ensures
        r@ == "File with path(or id)\""@ + id_path@ + "\" was removed"@,
{
    let mut m = owned("File with path(or id)\"");
    m.append(id_path);
    m.append("\" was removed");
    m
}

/// The report of `update`.
pub fn updated_message(id: &str) -> (r: String)
    ensures
        r@ == "File with id\""@ + id@ + "\" was updated"@,
{
    let mut m = owned("File with id\"");
    m.append(id);
    m.append("\" was updated");
    m
}

/// The fixed record the stand-in answers with.
pub open spec fn is_example_file(f: FileEntity) -> bool {
    f.id@ == "id example"@ && f.path@ == "path example"@
}

impl FileRepository for LocalRepositoty {
    /// Every lookup finds the example record.
    open spec fn lookup_answer(&self, id_path: Seq<char>, r: FileEntity) -> bool {
        is_example_file(r)
    }

    /// The listing holds the example record alone.
    open spec fn list_answer(&self, r: Seq<FileEntity>) -> bool {
        r.len() == 1 && is_example_file(r[0])
    }

    fn track(&mut self, file: FileEntity) {
        print_line(tracked_message(file.path.as_str()).as_str());
    }

    fn remove(&mut self, id_path: &str) {
        print_line(removed_message(id_path).as_str());
    }

    fn update(&mut self, file: FileEntity) {
        print_line(updated_message(file.id.as_str()).as_str());
    }

    fn get_by_id_or_path(&self, id_path: &str) -> (r: FileEntity)
        ensures
            is_example_file(r),
    {
        build_file("id example", "path example")
    }

    fn list(&self) -> (r: Vec<FileEntity>)
        ensures
            r@.len() == 1,
            is_example_file(r@[0]),
    {
        let mut r: Vec<FileEntity> = Vec::new();
        r.push(build_file("id example", "path example"));
        r
    }
}

} // verus!
