//! Source positions and the error type that carries them.
use vstd::prelude::*;
use crate::common::text::{chars_of, decimal_digits, push_decimal, push_str, string_from_chars};

verus! {

/// A position in a source text.
#[derive(Debug, PartialEq, Eq, Structural, Clone, Copy)]
pub struct Location {
    /// 0-based line number
    pub line: usize,
    /// 0-based column number
    pub col: usize,
}

/// A span of a source text, both ends inclusive.
#[derive(Debug, PartialEq, Eq, Structural, Clone, Copy)]
pub struct Range {
    pub from: Location,
    pub to: Location,
}

/// A span together with the path of the file it lies in.
#[derive(Debug)]
pub struct FileInfo {
    pub filepath: String,
    pub range: Range,
}

/// An error of parsing, lowering or evaluation.
#[derive(Debug)]
pub struct CompileError {
    pub info: Option<FileInfo>,
    pub message: Option<String>,
}

/// The mathematical model of an error: its position and the characters of
/// its message.
pub struct ErrorView {
    pub info: Option<FileInfo>,
    pub message: Option<Seq<char>>,
}

impl View for CompileError {
    type V = ErrorView;

    open spec fn view(&self) -> ErrorView {
        ErrorView {
            info: self.info,
            message: match self.message {
                Some(m) => Some(m@),
                None => None,
            },
        }
    }
}

/// The model of an error at `info` with the message `text`.
pub open spec fn fault_at(info: Option<FileInfo>, text: Seq<char>) -> ErrorView {
    ErrorView { info, message: Some(text) }
}

impl Clone for FileInfo {
    fn clone(&self) -> (r: Self)
        ensures
            r == *self,
    {
        FileInfo { filepath: self.filepath.clone(), range: self.range }
    }
}

/// A copy of optional position metadata.
pub fn clone_info(info: &Option<FileInfo>) -> (r: Option<FileInfo>)
    ensures
        r == *info,
{
    match info {
        Some(i) => Some(i.clone()),
        None => None,
    }
}

impl Clone for CompileError {
    fn clone(&self) -> (r: Self)
        ensures
            r == *self,
    {
        CompileError {
            info: clone_info(&self.info),
            message: match &self.message {
                Some(m) => Some(m.clone()),
                None => None,
            },
        }
    }
}

/// `a` if present, else `b`.
pub open spec fn info_or(a: Option<FileInfo>, b: Option<FileInfo>) -> Option<FileInfo> {
    if a is Some {
        a
    } else {
        b
    }
}

/// The first present metadata of `a` and `b`.
pub fn first_info(a: Option<FileInfo>, b: &Option<FileInfo>) -> (r: Option<FileInfo>)
    ensures
        r == info_or(a, *b),
{
    match a {
        Some(i) => Some(i),
        None => clone_info(b),
    }
}

impl Location {
    /// The rendering `line L col C`, both counted from one.
    pub open spec fn render(self) -> Seq<char> {
        "line "@ + decimal_digits((self.line + 1) as nat) + " col "@ + decimal_digits(
            (self.col + 1) as nat,
        )
    }

    fn push_to(&self, out: &mut Vec<char>)
        requires
            self.line < usize::MAX,
            self.col < usize::MAX,
        ensures
            final(out)@ == old(out)@ + self.render(),
    {
        push_str(out, "line ");
        push_decimal(out, self.line + 1);
        push_str(out, " col ");
        push_decimal(out, self.col + 1);
        assert(out@ =~= old(out)@ + self.render());
    }

    /// The location as `line L col C`, counted from one.
    pub fn to_string(&self) -> (r: String)
        requires
            self.line < usize::MAX,
            self.col < usize::MAX,
        ensures
            r@ == self.render(),
    {
        let mut out: Vec<char> = Vec::new();
        self.push_to(&mut out);
        assert(out@ =~= self.render());
        string_from_chars(&out)
    }
}

impl Range {
    /// Both ends can be rendered counting from one.
    pub open spec fn printable(self) -> bool {
        self.from.line < usize::MAX && self.from.col < usize::MAX && self.to.line < usize::MAX
            && self.to.col < usize::MAX
    }

    /// `(from)` for a single position, `(from-to)` otherwise.
    pub open spec fn render(self) -> Seq<char> {
        if self.from == self.to {
            "("@ + self.from.render() + ")"@
        } else {
            "("@ + self.from.render() + "-"@ + self.to.render() + ")"@
        }
    }

    fn push_to(&self, out: &mut Vec<char>)
        requires
            self.printable(),
        ensures
            final(out)@ == old(out)@ + self.render(),
    {
        push_str(out, "(");
        self.from.push_to(out);
        if self.from != self.to {
            push_str(out, "-");
            self.to.push_to(out);
        }
        push_str(out, ")");
        assert(out@ =~= old(out)@ + self.render());
    }

    /// The span in parentheses, counted from one.
    pub fn to_string(&self) -> (r: String)
        requires
            self.printable(),
        ensures
            r@ == self.render(),
    {
        let mut out: Vec<char> = Vec::new();
        self.push_to(&mut out);
        assert(out@ =~= self.render());
        string_from_chars(&out)
    }
}

impl FileInfo {
    /// `<path>: <range>`.
    pub open spec fn render(self) -> Seq<char> {
        self.filepath@ + ": "@ + self.range.render()
    }

    fn push_to(&self, out: &mut Vec<char>)
        requires
            self.range.printable(),
        ensures
            final(out)@ == old(out)@ + self.render(),
    {
        push_str(out, self.filepath.as_str());
        push_str(out, ": ");
        self.range.push_to(out);
        assert(out@ =~= old(out)@ + self.render());
    }

    /// The path and the span, as they stand at the head of a message.
    pub fn to_string(&self) -> (r: String)
        requires
            self.range.printable(),
        ensures
            r@ == self.render(),
    {
        let mut out: Vec<char> = Vec::new();
        self.push_to(&mut out);
        assert(out@ =~= self.render());
        string_from_chars(&out)
    }
}

impl CompileError {
    /// The position can be rendered counting from one.
    pub open spec fn printable(self) -> bool {
        self.info is Some ==> self.info->0.range.printable()
    }

    /// `<position>: <message>`, with `<no file>` and `<no message>` for the
    /// absent parts.
    pub open spec fn render(self) -> Seq<char> {
        (match self.info {
            Some(info) => info.render(),
            None => "<no file>"@,
        }) + ": "@ + (match self.message {
            Some(m) => m@,
            None => "<no message>"@,
        })
    }

    /// Whether the position can be rendered counting from one.
    pub fn can_print(&self) -> (r: bool)
        ensures
            r == self.printable(),
    {
        match &self.info {
            Some(info) => info.range.from.line < usize::MAX && info.range.from.col < usize::MAX
                && info.range.to.line < usize::MAX && info.range.to.col < usize::MAX,
            None => true,
        }
    }

    /// The error as it is shown to the user.
    pub fn to_string(&self) -> (r: String)
        requires
            self.printable(),
        ensures
            r@ == self.render(),
    {
        let mut out: Vec<char> = Vec::new();
        match &self.info {
            Some(info) => info.push_to(&mut out),
            None => push_str(&mut out, "<no file>"),
        }
        push_str(&mut out, ": ");
        match &self.message {
            Some(m) => push_str(&mut out, m.as_str()),
            None => push_str(&mut out, "<no message>"),
        }
        assert(out@ =~= self.render());
        string_from_chars(&out)
    }

    /// An error at `info` with the message `text`.
    pub fn at(info: Option<FileInfo>, text: &str) -> (r: CompileError)
        ensures
            r@ == fault_at(info, text@),
    {
        let cs = chars_of(text);
        CompileError { info, message: Some(string_from_chars(&cs)) }
    }

    /// An error at `info` with the characters `text` as its message.
    pub fn with_chars(info: Option<FileInfo>, text: &Vec<char>) -> (r: CompileError)
        ensures
            r@ == fault_at(info, text@),
    {
        CompileError { info, message: Some(string_from_chars(text)) }
    }
}

} // verus!
