//! What a declaration resolves to, and how resolution can fail.

use vstd::prelude::*;

verus! {

/// A dependency whose kind has been settled.
#[derive(Debug, PartialEq, Eq)]
pub enum ResolvedDependency {
    /// A namespace that the language brings along; nothing is fetched.
    Builtin(String),
    /// A library of the registry, by name.
    Library(String),
    /// A file beside the project, by path.
    Local(String),
    /// An archive to download, by URL.
    RemoteArchive(String),
}

/// The mathematical value of a [`ResolvedDependency`].
pub enum DependencyView {
    Builtin(Seq<char>),
    Library(Seq<char>),
    Local(Seq<char>),
    RemoteArchive(Seq<char>),
}

impl View for ResolvedDependency {
    type V = DependencyView;

    open spec fn view(&self) -> DependencyView {
        match self {
            ResolvedDependency::Builtin(s) => DependencyView::Builtin(s@),
            ResolvedDependency::Library(s) => DependencyView::Library(s@),
            ResolvedDependency::Local(s) => DependencyView::Local(s@),
            ResolvedDependency::RemoteArchive(s) => DependencyView::RemoteArchive(s@),
        }
    }
}

impl DeepView for ResolvedDependency {
    type V = DependencyView;

    open spec fn deep_view(&self) -> DependencyView {
        self@
    }
}

impl Clone for ResolvedDependency {
    fn clone(&self) -> (r: Self)
        ensures
            r@ == self@,
    {
        match self {
            ResolvedDependency::Builtin(s) => ResolvedDependency::Builtin(s.clone()),
            ResolvedDependency::Library(s) => ResolvedDependency::Library(s.clone()),
            ResolvedDependency::Local(s) => ResolvedDependency::Local(s.clone()),
            ResolvedDependency::RemoteArchive(s) => ResolvedDependency::RemoteArchive(s.clone()),
        }
    }
}

/// Why the resolution of a source file stopped. Every error names the file
/// that was being resolved.
#[derive(Debug, PartialEq, Eq)]
pub enum ResolutionError {
    /// A declaration line with nothing between its brackets.
    EmptyDeclaration { file: String, line: usize },
    /// A declaration whose token fits no kind.
    UnknownDependency { file: String, token: String, line: usize },
    /// A library of the registry could not be cloned, or its pinned ref
    /// could not be checked out.
    MaterializationFailed { file: String, line: usize, name: String, cause: String },
    /// The source file could not be read.
    ReadFailure { file: String, cause: String },
}

/// The mathematical value of a [`ResolutionError`].
pub enum ErrorView {
    EmptyDeclaration { file: Seq<char>, line: nat },
    UnknownDependency { file: Seq<char>, token: Seq<char>, line: nat },
    MaterializationFailed { file: Seq<char>, line: nat, name: Seq<char>, cause: Seq<char> },
    ReadFailure { file: Seq<char>, cause: Seq<char> },
}

impl View for ResolutionError {
    type V = ErrorView;

    open spec fn view(&self) -> ErrorView {
        match self {
            ResolutionError::EmptyDeclaration { file, line } => ErrorView::EmptyDeclaration {
                file: file@,
                line: *line as nat,
            },
            ResolutionError::UnknownDependency {
                file,
                token,
                line,
            } => ErrorView::UnknownDependency { file: file@, token: token@, line: *line as nat },
            ResolutionError::MaterializationFailed {
                file,
                line,
                name,
                cause,
            } => ErrorView::MaterializationFailed {
                file: file@,
                line: *line as nat,
                name: name@,
                cause: cause@,
            },
            ResolutionError::ReadFailure { file, cause } => ErrorView::ReadFailure {
                file: file@,
                cause: cause@,
            },
        }
    }
}

impl DeepView for ResolutionError {
    type V = ErrorView;

    open spec fn deep_view(&self) -> ErrorView {
        self@
    }
}

impl Clone for ResolutionError {
    fn clone(&self) -> (r: Self)
        ensures
            r@ == self@,
    {
        match self {
            ResolutionError::EmptyDeclaration { file, line } => ResolutionError::EmptyDeclaration {
                file: file.clone(),
                line: *line,
            },
            ResolutionError::UnknownDependency {
                file,
                token,
                line,
            } => ResolutionError::UnknownDependency {
                file: file.clone(),
                token: token.clone(),
                line: *line,
            },
            ResolutionError::MaterializationFailed {
                file,
                line,
                name,
                cause,
            } => ResolutionError::MaterializationFailed {
                file: file.clone(),
                line: *line,
                name: name.clone(),
                cause: cause.clone(),
            },
            ResolutionError::ReadFailure { file, cause } => ResolutionError::ReadFailure {
                file: file.clone(),
                cause: cause.clone(),
            },
        }
    }
}

/// The character that stands for a digit.
pub open spec fn digit(d: nat) -> char {
    if d == 0 {
        '0'
    } else if d == 1 {
        '1'
    } else if d == 2 {
        '2'
    } else if d == 3 {
        '3'
    } else if d == 4 {
        '4'
    } else if d == 5 {
        '5'
    } else if d == 6 {
        '6'
    } else if d == 7 {
        '7'
    } else if d == 8 {
        '8'
    } else {
        '9'
    }
}

/// A number written in decimal, without leading zeros.
pub open spec fn decimal(n: nat) -> Seq<char>
    decreases n,
{
    if n < 10 {
        seq![digit(n)]
    } else {
        decimal(n / 10).push(digit(n % 10))
    }
}

/// The message of an error: where it happened, then what happened.
pub open spec fn message_of(e: ErrorView) -> Seq<char> {
    match e {
        ErrorView::EmptyDeclaration { file, line } => file + ":"@ + decimal(line)
            + ": Empty dep"@,
        ErrorView::UnknownDependency { file, token, line } => file + ":"@ + decimal(line)
            + ": Unknown dep '"@ + token + "'"@,
        ErrorView::MaterializationFailed { file, line, name, cause } => file + ":"@ + decimal(
            line,
        ) + ": Failed to materialize '"@ + name + "': "@ + cause,
        ErrorView::ReadFailure { file, cause } => "Failed to read "@ + file + ": "@ + cause,
    }
}

fn digit_text(d: usize) -> (s: &'static str)
    requires
        d < 10,
    ensures
        s@ == seq![digit(d as nat)],
{
    proof {
        reveal_strlit("0");
        reveal_strlit("1");
        reveal_strlit("2");
        reveal_strlit("3");
        reveal_strlit("4");
        reveal_strlit("5");
        reveal_strlit("6");
        reveal_strlit("7");
        reveal_strlit("8");
        reveal_strlit("9");
    }
    let s = if d == 0 {
        "0"
    } else if d == 1 {
        "1"
    } else if d == 2 {
        "2"
    } else if d == 3 {
        "3"
    } else if d == 4 {
        "4"
    } else if d == 5 {
        "5"
    } else if d == 6 {
        "6"
    } else if d == 7 {
        "7"
    } else if d == 8 {
        "8"
    } else {
        "9"
    };
    assert(s@ =~= seq![digit(d as nat)]);
    s
}

/// Writes `n` in decimal at the end of `out`.
pub fn append_decimal(out: &mut String, n: usize)
    ensures
        final(out)@ == old(out)@ + decimal(n as nat),
    decreases n,
{
    if n >= 10 {
        append_decimal(out, n / 10);
    }
    out.append(digit_text(n % 10));
    proof {
        if n >= 10 {
            assert(final(out)@ =~= old(out)@ + decimal(n as nat / 10).push(digit(n as nat % 10)));
        }
    }
}

impl ResolutionError {
    /// The line of the source file at which resolution stopped, where the
    /// error belongs to a line.
    pub fn line(&self) -> (r: Option<usize>)
        ensures
            r == match *self {
                ResolutionError::EmptyDeclaration { line, .. } => Some(line),
                ResolutionError::UnknownDependency { line, .. } => Some(line),
                ResolutionError::MaterializationFailed { line, .. } => Some(line),
                ResolutionError::ReadFailure { .. } => None,
            },
    {
        match self {
            ResolutionError::EmptyDeclaration { line, .. } => Some(*line),
            ResolutionError::UnknownDependency { line, .. } => Some(*line),
            ResolutionError::MaterializationFailed { line, .. } => Some(*line),
            ResolutionError::ReadFailure { .. } => None,
        }
    }

    /// The error in words.
    pub fn message(&self) -> (m: String)
        ensures
            m@ == message_of(self@),
    {
        match self {
            ResolutionError::EmptyDeclaration { file, line } => {
                let mut m = file.clone();
                m.append(":");
                append_decimal(&mut m, *line);
                m.append(": Empty dep");
                m
            },
            ResolutionError::UnknownDependency { file, token, line } => {
                let mut m = file.clone();
                m.append(":");
                append_decimal(&mut m, *line);
                m.append(": Unknown dep '");
                m.append(token.as_str());
                m.append("'");
                m
            },
            ResolutionError::MaterializationFailed { file, line, name, cause } => {
                let mut m = file.clone();
                m.append(":");
                append_decimal(&mut m, *line);
                m.append(": Failed to materialize '");
                m.append(name.as_str());
                m.append("': ");
                m.append(cause.as_str());
                m
            },
            ResolutionError::ReadFailure { file, cause } => {
                let mut m = String::from_str("Failed to read ");
                m.append(file.as_str());
                m.append(": ");
                m.append(cause.as_str());
                m
            },
        }
    }
}

} // verus!
