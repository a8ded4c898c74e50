//! Turn-loop helpers: the ambient context text placed at the start of every
//! session, and the choice of the first user input.
//!
//! The surrounding program gathers the working directory, the file listing
//! and the process arguments; this module builds the exact texts from them.

use vstd::prelude::*;
use vstd::string::StringExecFns;

verus! {

/// The given parts joined with the separator between them.
pub open spec fn join_with(parts: Seq<Seq<char>>, sep: Seq<char>) -> Seq<char>
    decreases parts.len(),
{
    if parts.len() == 0 {
        Seq::empty()
    } else if parts.len() == 1 {
        parts[0]
    } else {
        join_with(parts.drop_last(), sep) + sep + parts.last()
    }
}

/// The ambient context handed to the model: the working directory and the
/// names in it.
pub open spec fn context_spec(cwd: Seq<char>, files: Seq<Seq<char>>) -> Seq<char> {
    "Current directory: "@ + cwd + "\nFiles in directory: "@ + join_with(files, ", "@)
}

/// Joins the parts from position `from` on with the separator between them.
pub fn join_all(parts: &Vec<String>, from: usize, sep: &str) -> (r: String)
    requires
        from <= parts@.len(),
    ensures
        r@ == join_with(parts.deep_view().subrange(from as int, parts.deep_view().len() as int), sep@),
{
    let ghost fsv = parts.deep_view();
    let mut out = String::new();
    let mut i: usize = from;
    while i < parts.len()
        invariant
            from <= i <= parts@.len(),
            fsv == parts.deep_view(),
            fsv.len() == parts@.len(),
            out@ == join_with(fsv.subrange(from as int, i as int), sep@),
        decreases parts@.len() - i,
    {
        if i > from {
            out.append(sep);
        }
        out.append(parts[i].as_str());
        proof {
            assert(fsv.subrange(from as int, i as int + 1).drop_last() =~= fsv.subrange(
                from as int,
                i as int,
            ));
            assert(fsv.subrange(from as int, i as int + 1).last() == fsv[i as int]);
            assert(fsv[i as int] == parts@[i as int]@);
            if i == from {
                assert(out@ =~= fsv.subrange(from as int, i as int + 1)[0]);
            }
        }
        i += 1;
    }
    out
}

/// Builds the ambient context text from the working directory and the file
/// names in it.
pub fn ai_context(cwd: &str, files: &Vec<String>) -> (r: String)
    ensures
        r@ == context_spec(cwd@, files.deep_view()),
{
    let mut out = String::new();
    out.append("Current directory: ");
    out.append(cwd);
    out.append("\nFiles in directory: ");
    let joined = join_all(files, 0, ", ");
    out.append(joined.as_str());
    proof {
        assert(files.deep_view().subrange(0, files.deep_view().len() as int) =~= files.deep_view());
        assert(out@ =~= context_spec(cwd@, files.deep_view()));
    }
    out
}

/// The first user input of the session: on the first iteration, when the
/// process got arguments beyond its own name, their concatenation with
/// single spaces; otherwise nothing, and the caller prompts instead.
pub fn initial_input(iteration: usize, args: &Vec<String>) -> (r: Option<String>)
    ensures
        (r is Some) == (iteration == 0 && args@.len() > 1),
        r matches Some(s) ==> s@ == join_with(
            args.deep_view().subrange(1, args.deep_view().len() as int),
            " "@,
        ),
{
    if iteration == 0 && args.len() > 1 {
        Some(join_all(args, 1, " "))
    } else {
        None
    }
}

} // verus!
