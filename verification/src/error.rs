//! The errors a configuration operation can surface.
//!
//! Sources are carried as plain message strings; `error_chain_fmt` builds
//! the chain text that a debug report prints.

use vstd::prelude::*;
use vstd::string::StrSliceExecFns;
use vstd::string::StringExecFns;

use crate::render::hex_digit_char;
use crate::render::spec_hex_digit;

verus! {

/// What went wrong while reading, parsing or writing a configuration file.
#[derive(Debug)]
pub enum Error {
    /// Expected the semantic-release configuration to exist at `path`.
    ConfigurationFileNotFound { path: String },
    /// Unable to open the file at `path`.
    FileOpenError { message: String, path: String },
    /// Unable to read the file at `path`.
    FileReadError { message: String, path: String },
    /// Unable to parse the semantic-release configuration file.
    FileParseError { message: String, path: String },
    /// Unable to serialize the configuration.
    FileSerializeError { message: String },
    /// Unable to write changes to the file at `path`.
    FileWriteError { message: String, path: String },
}

/// One path character as debug formatting writes it between quotes: the
/// quote, the backslash, and the ASCII control characters are escaped the
/// way Rust's debug formatting of a string escapes them; every other
/// character stands for itself.
pub open spec fn spec_path_escape_char(c: char) -> Seq<char> {
    if c == '"' {
        "\\\""@
    } else if c == '\\' {
        "\\\\"@
    } else if c == '\0' {
        "\\0"@
    } else if c == '\n' {
        "\\n"@
    } else if c == '\r' {
        "\\r"@
    } else if c == '\t' {
        "\\t"@
    } else if (c as u32) < 0x10 {
        "\\u{"@.push(spec_hex_digit((c as u32) as nat)) + "}"@
    } else if (c as u32) < 0x20 || (c as u32) == 0x7f {
        "\\u{"@.push(spec_hex_digit(((c as u32) / 16) as nat)).push(
            spec_hex_digit(((c as u32) % 16) as nat),
        ) + "}"@
    } else {
        seq![c]
    }
}

/// The debug-escaped form of the characters of `s` from position `from` on.
pub open spec fn spec_path_escaped(s: Seq<char>, from: int) -> Seq<char>
    decreases s.len() - from,
{
    if 0 <= from < s.len() {
        spec_path_escape_char(s[from]) + spec_path_escaped(s, from + 1)
    } else {
        Seq::empty()
    }
}

/// A path as debug formatting renders it: quoted and escaped.
pub open spec fn spec_path_quoted(s: Seq<char>) -> Seq<char> {
    "\""@ + spec_path_escaped(s, 0) + "\""@
}

/// The one-line description of an error. Paths appear quoted, as debug
/// formatting renders them.
pub open spec fn spec_display(e: Error) -> Seq<char> {
    match e {
        Error::ConfigurationFileNotFound { path } => "Expected configuration file does not exist "@
            + spec_path_quoted(path@),
        Error::FileOpenError { message: _, path } => "Unable to open file "@ + spec_path_quoted(
            path@,
        ),
        Error::FileReadError { message: _, path } => "Unable to read file "@ + spec_path_quoted(
            path@,
        ),
        Error::FileParseError { message: _, path } => "Unable to parse file "@ + spec_path_quoted(
            path@,
        ),
        Error::FileSerializeError { message: _ } => "Unable to serialize semantic-release configuration"@,
        // A write failure's description is the quoted path alone; the
        // cause message names the failure itself.
        Error::FileWriteError { message: _, path } => spec_path_quoted(path@),
    }
}

/// The message of the underlying cause, if there is one.
pub open spec fn spec_source(e: Error) -> Option<Seq<char>> {
    match e {
        Error::ConfigurationFileNotFound { path: _ } => None,
        Error::FileOpenError { message, path: _ } => Some(message@),
        Error::FileReadError { message, path: _ } => Some(message@),
        Error::FileParseError { message, path: _ } => Some(message@),
        Error::FileSerializeError { message } => Some(message@),
        Error::FileWriteError { message, path: _ } => Some(message@),
    }
}

/// One `Caused by:` paragraph per cause, from position `from` on.
pub open spec fn spec_causes(causes: Seq<Seq<char>>, from: int) -> Seq<char>
    decreases causes.len() - from,
{
    if 0 <= from < causes.len() {
        "Caused by:\n\t"@ + causes[from] + "\n"@ + spec_causes(causes, from + 1)
    } else {
        Seq::empty()
    }
}

/// The chain text: the message, a blank line, then one paragraph per cause.
pub open spec fn spec_error_chain(message: Seq<char>, causes: Seq<Seq<char>>) -> Seq<char> {
    message + "\n\n"@ + spec_causes(causes, 0)
}

/// Appends the debug-escaped form of the one character `c`.
fn append_path_escape_char(c: char, out: &mut String)
    ensures
        final(out)@ == old(out)@ + spec_path_escape_char(c),
{
    if c == '"' {
        out.append("\\\"");
    } else if c == '\\' {
        out.append("\\\\");
    } else if c == '\0' {
        out.append("\\0");
    } else if c == '\n' {
        out.append("\\n");
    } else if c == '\r' {
        out.append("\\r");
    } else if c == '\t' {
        out.append("\\t");
    } else if (c as u32) < 0x10 {
        out.append("\\u{");
        out.push(hex_digit_char(c as u32));
        out.append("}");
        proof {
            assert(out@ =~= old(out)@ + spec_path_escape_char(c));
        }
    } else if (c as u32) < 0x20 || (c as u32) == 0x7f {
        out.append("\\u{");
        out.push(hex_digit_char((c as u32) / 16));
        out.push(hex_digit_char((c as u32) % 16));
        out.append("}");
        proof {
            assert(out@ =~= old(out)@ + spec_path_escape_char(c));
        }
    } else {
        out.push(c);
        proof {
            assert(out@ =~= old(out)@ + seq![c]);
        }
    }
}

/// Appends the debug-escaped form of the characters of `s` from `from` on.
fn append_path_escaped_from(s: &str, from: usize, len: usize, out: &mut String)
    requires
        len == s@.len(),
        from <= len,
    ensures
        final(out)@ == old(out)@ + spec_path_escaped(s@, from as int),
    decreases len - from,
{
    if from < len {
        let c = s.get_char(from);
        append_path_escape_char(c, out);
        append_path_escaped_from(s, from + 1, len, out);
        proof {
            assert(out@ =~= old(out)@ + spec_path_escaped(s@, from as int));
        }
    }
}

/// Appends a path as debug formatting renders it: quoted and escaped.
fn append_path_quoted(s: &String, out: &mut String)
    ensures
        final(out)@ == old(out)@ + spec_path_quoted(s@),
{
    out.append("\"");
    let len = s.as_str().unicode_len();
    append_path_escaped_from(s.as_str(), 0, len, out);
    out.append("\"");
    proof {
        assert(out@ =~= old(out)@ + spec_path_quoted(s@));
    }
}

/// Appends the `Caused by:` paragraphs for `causes[from..]`.
fn append_causes(causes: &Vec<String>, from: usize, out: &mut String)
    requires
        from <= causes@.len(),
    ensures
        final(out)@ == old(out)@ + spec_causes(causes.deep_view(), from as int),
    decreases causes@.len() - from,
{
    let n = causes.len();
    if from < n {
        out.append("Caused by:\n\t");
        out.append(causes[from].as_str());
        out.append("\n");
        append_causes(causes, from + 1, out);
        proof {
            assert(out@ =~= old(out)@ + spec_causes(causes.deep_view(), from as int));
        }
    }
}

/// The text an error chain prints: the message, then each cause in turn.
pub fn error_chain_fmt(message: &String, causes: &Vec<String>) -> (r: String)
    ensures
        r@ == spec_error_chain(message@, causes.deep_view()),
{
    let mut out = String::new();
    out.append(message.as_str());
    out.append("\n\n");
    append_causes(causes, 0, &mut out);
    proof {
        assert(out@ =~= spec_error_chain(message@, causes.deep_view()));
    }
    out
}

impl Error {
    /// The one-line description of this error.
    pub fn display_string(&self) -> (r: String)
        ensures
            r@ == spec_display(*self),
    {
        let mut out = String::new();
        match self {
            Error::ConfigurationFileNotFound { path } => {
                out.append("Expected configuration file does not exist ");
                append_path_quoted(path, &mut out);
            },
            Error::FileOpenError { message: _, path } => {
                out.append("Unable to open file ");
                append_path_quoted(path, &mut out);
            },
            Error::FileReadError { message: _, path } => {
                out.append("Unable to read file ");
                append_path_quoted(path, &mut out);
            },
            Error::FileParseError { message: _, path } => {
                out.append("Unable to parse file ");
                append_path_quoted(path, &mut out);
            },
            Error::FileSerializeError { message: _ } => {
                out.append("Unable to serialize semantic-release configuration");
            },
            Error::FileWriteError { message: _, path } => {
                append_path_quoted(path, &mut out);
            },
        }
        out
    }

    /// The message of the underlying cause, if there is one.
    pub fn source_message(&self) -> (r: Option<String>)
        ensures
            match r {
                Some(m) => spec_source(*self) == Some(m@),
                None => spec_source(*self) is None,
            },
    {
        match self {
            Error::ConfigurationFileNotFound { path: _ } => None,
            Error::FileOpenError { message, path: _ } => Some(message.clone()),
            Error::FileReadError { message, path: _ } => Some(message.clone()),
            Error::FileParseError { message, path: _ } => Some(message.clone()),
            Error::FileSerializeError { message } => Some(message.clone()),
            Error::FileWriteError { message, path: _ } => Some(message.clone()),
        }
    }

    /// The whole chain: the description, then the cause if there is one.
    pub fn debug_string(&self) -> (r: String)
        ensures
            r@ == spec_error_chain(
                spec_display(*self),
                match spec_source(*self) {
                    Some(m) => seq![m],
                    None => Seq::empty(),
                },
            ),
    {
        let message = self.display_string();
        let mut causes: Vec<String> = Vec::new();
        match self.source_message() {
            Some(m) => {
                causes.push(m);
                proof {
                    assert(causes.deep_view() =~= seq![spec_source(*self)->Some_0]);
                }
            },
            None => {
                proof {
                    assert(causes.deep_view() =~= Seq::<Seq<char>>::empty());
                }
            },
        }
        error_chain_fmt(&message, &causes)
    }
}

} // verus!
