//! The diagnostic run: for each file, the outcome of the pipeline and the
//! text the agent would receive, without a window. It is what makes the
//! honest limit's rules measurable; reading the files, running mmdr and
//! printing are the application's.

use vstd::prelude::*;

use crate::diagram::{noted, outcome_text, recount_of, told, Drawing, Rejection};
use crate::text::{chars_of, string_of};

verus! {

/// What the diagnostic run says of an outcome for the view `view_id`: the
/// outcome's name, then the recount and the notes of a drawing, or the words
/// of a rejection.
pub open spec fn outcome_for(drawn: Result<Drawing, Rejection>, view_id: Seq<char>) -> Seq<char> {
    match drawn {
        Ok(drawing) => noted(
            "drawn\n"@ + recount_of(drawing.nodes as nat, drawing.edges as nat),
            drawing.notes@,
        ),
        Err(rejection) => outcome_text(rejection) + "\n"@ + told(rejection, view_id),
    }
}

/// The outcome of the pipeline, then its text: the recount and the notes of
/// a drawing, or the words the agent would receive for a rejection of view
/// `view_id`.
pub fn outcome_of(drawn: &Result<Drawing, Rejection>, view_id: &str) -> (text: String)
    ensures
        text@ == outcome_for(*drawn, view_id@),
{
    match drawn {
        Ok(drawing) => {
            let mut text = string_of(&chars_of("drawn\n"));
            let recount = drawing.recount();
            text.append(recount.as_str());
            drawing.noted_after(text)
        },
        Err(rejection) => {
            let mut text = string_of(&chars_of(rejection.outcome()));
            text.append("\n");
            let told = rejection.told_about(view_id);
            text.append(told.as_str());
            text
        },
    }
}

/// The report of one file: a heading with its path, then the outcome's text,
/// or `unreadable` and why when the file could not be read.
pub open spec fn reported(path: Seq<char>, read: Result<Seq<char>, Seq<char>>) -> Seq<char> {
    "== "@ + path + "\n"@ + match read {
        Ok(outcome) => outcome,
        Err(error) => "unreadable\n"@ + error,
    }
}

/// A report is the file's heading line, `== ` and its path, followed by what
/// the run says of it: the whole outcome text, or `unreadable` and why.
pub proof fn law_a_report_is_the_heading_then_the_outcome(
    path: Seq<char>,
    read: Result<Seq<char>, Seq<char>>,
)
    ensures
        reported(path, read).take(path.len() + 4 as int) == "== "@ + path + "\n"@,
        match read {
            Ok(outcome) => reported(path, read).skip(path.len() + 4 as int) == outcome,
            Err(error) => reported(path, read).skip(path.len() + 4 as int) == "unreadable\n"@ + error,
        },
{
    reveal_strlit("== ");
    reveal_strlit("\n");
    let heading = "== "@ + path + "\n"@;
    assert(heading.len() == path.len() + 4);
    let body = match read {
        Ok(outcome) => outcome,
        Err(error) => "unreadable\n"@ + error,
    };
    assert(reported(path, read) == heading + body);
    assert((heading + body).take(heading.len() as int) =~= heading);
    assert((heading + body).skip(heading.len() as int) =~= body);
}

pub fn report(path: &str, read: Result<String, String>) -> (text: String)
    ensures
        text@ == reported(
            path@,
            match read {
                Ok(outcome) => Ok(outcome@),
                Err(error) => Err(error@),
            },
        ),
{
    let mut text = string_of(&chars_of("== "));
    text.append(path);
    text.append("\n");
    match read {
        Ok(outcome) => text.append(outcome.as_str()),
        Err(error) => {
            text.append("unreadable\n");
            text.append(error.as_str());
        },
    }
    text
}

/// What `Path::file_stem` calls the stem of `path` under the path rules of
/// the target the program is built for: the file name without its
/// extension, if the path has a file name.
pub uninterp spec fn path_file_stem(path: Seq<char>) -> Option<Seq<char>>;

/// `Path::file_stem`, as text.
#[verifier::external_body]
fn file_stem(path: &str) -> (stem: Option<&str>)
    ensures
        match stem {
            Some(s) => path_file_stem(path@) == Some(s@),
            None => path_file_stem(path@) is None,
        },
{
    std::path::Path::new(path).file_stem().and_then(|stem| stem.to_str())
}

/// The view id of a diagnostic run is the file's name, without extension.
pub fn view_id(path: &str) -> (id: &str)
    ensures
        id@ == match path_file_stem(path@) {
            Some(stem) => stem,
            None => path@,
        },
{
    match file_stem(path) {
        Some(stem) => stem,
        None => path,
    }
}

} // verus!
