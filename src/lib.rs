//! Compiles a small line-oriented markup language into an HTML document.
use vstd::prelude::*;
use vstd::string::{StrSliceExecFns, StringExecFns};
use vstd::utf8::encode_utf8;

pub mod document;
pub mod inline;
pub mod laws;
pub mod style;
pub mod text;

pub use document::compile;
pub use inline::{format_inlines, separate_link};
pub use style::{ListKind, Style};

use text::{chars_of, find_back_in, is_last_position, last_position};

verus! {

/// Command-line arguments of the compiler.
pub struct Args {
    /// Input file path.
    pub file: String,
    /// Output file path.
    pub out: Option<String>,
}

/// `filename` without what follows its last dot (the dot included).
pub open spec fn stem(filename: Seq<char>) -> Seq<char> {
    match last_position(filename, '.') {
        Some(p) => filename.subrange(0, p),
        None => filename,
    }
}

/// `filename` with its extension replaced by `extension`; an empty
/// extension leaves the name without one.
pub open spec fn with_extension(filename: Seq<char>, extension: Seq<char>) -> Seq<char> {
    if extension.len() == 0 {
        stem(filename)
    } else {
        stem(filename) + seq!['.'] + extension
    }
}

/// Byte offset of the last `c` in `s`, as `str::rfind` gives it: the length
/// of the UTF-8 encoding of what precedes it.
pub fn find_back(s: &str, c: char) -> (r: Option<usize>)
    ensures
        match last_position(s@, c) {
            Some(i) => r == Some(encode_utf8(s@.take(i)).len() as usize),
            None => r is None,
        },
{
    let v = chars_of(s);
    match find_back_in(&v, c) {
        Some(i) => {
            proof {
                let w = choose|j: int| is_last_position(s@, c, j);
                assert(is_last_position(s@, c, w));
                assert(w == i);
            }
            let before = s.substring_char(0, i);
            assert(before@ =~= s@.take(i as int));
            Some(before.len())
        },
        None => None,
    }
}

/// Replaces the extension of a file name: everything after the last dot.
pub fn replace_file_extension(filename: &str, extension: &str) -> (r: String)
    ensures
        r@ == with_extension(filename@, extension@),
{
    let v = chars_of(filename);
    let dot = find_back_in(&v, '.');
    proof {
        if let Some(p) = dot {
            let w = choose|j: int| is_last_position(filename@, '.', j);
            assert(is_last_position(filename@, '.', w));
            assert(w == p);
        }
    }
    let name = match dot {
        Some(p) => filename.substring_char(0, p),
        None => filename,
    };
    let mut r = String::from_str(name);
    if extension.is_empty() {
        return r;
    }
    r.append(".");
    proof {
        reveal_strlit(".");
    }
    r.append(extension);
    r
}

impl Args {
    /// Where the compiled page goes: the given output path, else the input
    /// path with the extension `html`.
    pub fn output_path(&self) -> (r: String)
        ensures
            r@ == match self.out {
                Some(o) => o@,
                None => with_extension(self.file@, "html"@),
            },
    {
        match &self.out {
            Some(o) => o.clone(),
            None => replace_file_extension(self.file.as_str(), "html"),
        }
    }
}

} // verus!
