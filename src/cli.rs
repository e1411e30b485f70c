use vstd::prelude::*;
use crate::text::{chars_of, extend_chars, string_of};

verus! {

/// The command-line options of a build.
#[derive(Clone, Debug)]
pub struct Opt {
    /// Keep the output directory instead of removing it before the build.
    pub disable_rm_target: bool,
    /// How many times the verbose flag was given.
    pub verbose: u8,
    /// The directory of the contents.
    pub input: String,
    /// The directory that the site is written to.
    pub output: String,
}

/// What a build reads, where it writes, and how.
#[derive(Clone, Debug)]
pub struct BuildConfiguration {
    pub input: String,
    pub output: String,
    /// Remove the output directory before writing.
    pub remove_output: bool,
    /// Directories under the input root copied as they are into the output root.
    pub static_dirs: Vec<String>,
}

impl Opt {
    /// The build that these options ask for; the `static` directory holds the assets.
    pub fn configuration(&self) -> (r: BuildConfiguration)
        ensures
            r.input@ == self.input@,
            r.output@ == self.output@,
            r.remove_output == !self.disable_rm_target,
            r.static_dirs@.len() == 1,
            r.static_dirs@[0]@ == "static"@,
    {
        BuildConfiguration {
            input: self.input.as_str().to_owned(),
            output: self.output.as_str().to_owned(),
            remove_output: !self.disable_rm_target,
            static_dirs: vec!["static".to_owned()],
        }
    }
}

/// Where a page with the relative path `page_path` is written under `root`.
pub fn output_path(root: &str, page_path: &str) -> (r: String)
    ensures
        r@ == root@ + "/"@ + page_path@,
{
    let mut v = chars_of(root);
    extend_chars(&mut v, &chars_of("/"));
    extend_chars(&mut v, &chars_of(page_path));
    string_of(&v)
}

} // verus!
