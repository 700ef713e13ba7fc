//! Error types: field-level validation errors and the library's error kinds.

use vstd::prelude::*;

use crate::target_url::opt_view;

verus! {

/// One structural problem found in a configuration.
#[derive(Debug, Clone)]
pub struct ValidationError {
    /// The route's path, or `routes[i]` for a route without a path, or
    /// `(root)`.
    pub route: String,
    pub field: String,
    pub message: String,
    pub suggestion: Option<String>,
}

/// The view of a validation error: route, field, message and suggestion.
pub type ErrorView = (Seq<char>, Seq<char>, Seq<char>, Option<Seq<char>>);

impl View for ValidationError {
    type V = ErrorView;

    open spec fn view(&self) -> ErrorView {
        (self.route@, self.field@, self.message@, opt_view(self.suggestion))
    }
}

/// The views of a sequence of validation errors.
pub open spec fn error_views(es: Seq<ValidationError>) -> Seq<ErrorView> {
    es.map_values(|e: ValidationError| e@)
}

/// The line that describes a validation error:
/// `  route R: F — M`, then ` (S)` where there is a suggestion.
pub open spec fn error_line(e: ErrorView) -> Seq<char> {
    let head = "  route "@ + e.0 + ": "@ + e.1 + " \u{2014} "@ + e.2;
    match e.3 {
        Some(s) => head + " ("@ + s + ")"@,
        None => head,
    }
}

/// The lines of the first `n` errors, separated by newlines.
pub open spec fn error_lines(es: Seq<ErrorView>, n: int) -> Seq<char>
    decreases n,
{
    if n <= 0 {
        Seq::empty()
    } else if n == 1 {
        error_line(es[0])
    } else {
        error_lines(es, n - 1) + "\n"@ + error_line(es[n - 1])
    }
}

impl ValidationError {
    /// The line that describes this error.
    pub fn to_display_string(&self) -> (r: String)
        ensures
            r@ == error_line(self@),
    {
        let mut s = String::from_str("  route ");
        s.append(self.route.as_str());
        s.append(": ");
        s.append(self.field.as_str());
        s.append(" \u{2014} ");
        s.append(self.message.as_str());
        match &self.suggestion {
            Some(x) => {
                s.append(" (");
                s.append(x.as_str());
                s.append(")");
            },
            None => {},
        }
        s
    }
}

/// The lines of all errors, separated by newlines.
pub fn format_errors(errors: &Vec<ValidationError>) -> (r: String)
    ensures
        r@ == error_lines(error_views(errors@), errors@.len() as int),
{
    let ghost ev = error_views(errors@);
    let mut buf = String::new();
    let mut i: usize = 0;
    while i < errors.len()
        invariant
            ev == error_views(errors@),
            i <= errors@.len(),
            buf@ == error_lines(ev, i as int),
        decreases errors@.len() - i,
    {
        if i > 0 {
            buf.append("\n");
        }
        let line = errors[i].to_display_string();
        buf.append(line.as_str());
        i = i + 1;
    }
    buf
}

/// The errors the library reports.
#[derive(Debug)]
pub enum SwitchboardError {
    /// Neither a file nor a database backend was given.
    NoConfigSource { hint: String },
    /// The configuration file is absent.
    ConfigFileNotFound { path: String },
    /// The payload is not well-formed in its format.
    ConfigParse { path: String, message: String },
    /// The configuration is malformed.
    ConfigValidation { errors: Vec<ValidationError> },
    /// The extension or format is not recognised.
    UnsupportedFormat(String),
    /// A file or network operation failed.
    Io(String),
    /// A database backend failed.
    Database { backend: String, message: String },
}

} // verus!
