//! What is handed to the programs that a build runs, and when ending a
//! running product is tried again.

use vstd::prelude::*;
use vstd::string::*;
use crate::text::texts;

verus! {

/// The value of the search path for a child process: the inherited
/// search path, then each of `bin_paths` after a semicolon.
pub open spec fn search_path_of(bin_paths: Seq<String>) -> Seq<char>
    decreases bin_paths.len(),
{
    if bin_paths.len() == 0 {
        "%PATH%"@
    } else {
        search_path_of(bin_paths.drop_last()) + ";"@ + bin_paths.last()@
    }
}

/// The search path that a tool is run with.
pub fn search_path(bin_paths: &Vec<String>) -> (r: String)
    ensures
        r@ == search_path_of(bin_paths@),
{
    let mut path = String::from_str("%PATH%");
    let mut i: usize = 0;
    assert(bin_paths@.subrange(0, 0) =~= Seq::<String>::empty());
    while i < bin_paths.len()
        invariant
            i <= bin_paths@.len(),
            path@ == search_path_of(bin_paths@.subrange(0, i as int)),
        decreases bin_paths@.len() - i,
    {
        proof {
            let next = bin_paths@.subrange(0, i + 1);
            assert(next.drop_last() =~= bin_paths@.subrange(0, i as int));
            assert(next.last() == bin_paths@[i as int]);
        }
        path.append(";");
        path.append(bin_paths[i].as_str());
        i = i + 1;
    }
    assert(bin_paths@.subrange(0, i as int) =~= bin_paths@);
    path
}

/// The arguments with which the running program `image` is ended by force.
pub fn kill_arguments(image: &str) -> (r: Vec<String>)
    ensures
        texts(r@) == seq!["/F"@, "/IM"@, image@],
{
    let mut out: Vec<String> = Vec::new();
    out.push(String::from_str("/F"));
    out.push(String::from_str("/IM"));
    out.push(String::from_str(image));
    assert(texts(out@) =~= seq!["/F"@, "/IM"@, image@]);
    out
}

/// The arguments with which a running debugger is ended by force.
pub fn kill_debugger() -> (r: Vec<String>)
    ensures
        texts(r@) == seq!["/F"@, "/IM"@, "devenv.exe"@],
{
    kill_arguments("devenv.exe")
}

/// Whether ending a program is tried again: it is as long as the attempt
/// ends with the code 1, for the file of the program may stay locked for
/// a while after the program was told to end.
pub fn kill_again(exit_code: Option<i32>) -> (r: bool)
    ensures
        r == (exit_code == Some(1i32)),
{
    match exit_code {
        Some(code) => code == 1,
        None => false,
    }
}

} // verus!
