//! Stylesheet compilation.

use vstd::prelude::*;

use crate::web::MyError;

verus! {

/// Relies on rsass::compile_scss with the default output format. The
/// compiler resolves `@use` and `@import` through the working directory, so
/// for a stylesheet that imports, the result depends on what is on disk,
/// not on the text alone: nothing is promised of the outcome. The body
/// yields nothing when the compiler rejects the stylesheet or its output is
/// not UTF-8.
#[verifier::external_body]
fn compile_scss_text(src: &str) -> Option<String> {
    let out = match rsass::compile_scss(src.as_bytes(), rsass::output::Format::default()) {
        Ok(bytes) => bytes,
        Err(_) => return None,
    };
    String::from_utf8(out).ok()
}

/// What each compiler outcome becomes: this run's CSS is passed through,
/// and a rejection is the one stylesheet error.
fn css_or_invalid(compiled: Option<String>) -> (r: Result<String, MyError>)
    ensures
        match compiled {
            Some(css) => r matches Ok(c) && c == css,
            None => r matches Err(e) && e matches MyError::InvalidScss,
        },
{
    match compiled {
        Some(css) => Ok(css),
        None => Err(MyError::InvalidScss),
    }
}

/// Compile a stylesheet to CSS, rejecting one the compiler cannot process.
/// The compiler may read imported files, so the CSS is this run's outcome;
/// the one error a caller can see is `InvalidScss`.
pub fn sass(src: String) -> (r: Result<String, MyError>)
    ensures
        r matches Err(e) ==> e matches MyError::InvalidScss,
{
    css_or_invalid(compile_scss_text(src.as_str()))
}

} // verus!
