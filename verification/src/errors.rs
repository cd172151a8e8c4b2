//! The errors of the library.
use vstd::prelude::*;

verus! {

/// What a `TodoRError` stands for.
pub enum ErrorView {
    InputIsDir { filepath: Seq<char> },
    CannotAccessFile { filepath: Seq<char> },
    InvalidExtension { ext: Seq<char> },
    FileNotTracked { filepath: Seq<char> },
    TodoNotFound { line: nat },
    InvalidDefaultExtension { ext: Seq<char> },
    InvalidConfigFile { message: Seq<char> },
    InvalidIgnorePath { message: Seq<char> },
    InvalidOutputFormat { message: Seq<char> },
}

/// What can go wrong.
#[derive(Debug)]
pub enum TodoRError {
    /// The path given is that of a directory.
    InputIsDir { filepath: String },
    /// The file cannot be opened.
    CannotAccessFile { filepath: String },
    /// The file extension is not supported.
    InvalidExtension { ext: String },
    /// A change was asked for in a file that was never scanned.
    FileNotTracked { filepath: String },
    /// No annotation stands on the line given.
    TodoNotFound { line: usize },
    /// No comment types are known for the default extension.
    InvalidDefaultExtension { ext: String },
    /// The configuration cannot be used.
    InvalidConfigFile { message: String },
    /// A path to be ignored cannot be used.
    InvalidIgnorePath { message: String },
    /// The output format is not supported.
    InvalidOutputFormat { message: String },
}

impl View for TodoRError {
    type V = ErrorView;

    open spec fn view(&self) -> ErrorView {
        match self {
            TodoRError::InputIsDir { filepath } => ErrorView::InputIsDir { filepath: filepath@ },
            TodoRError::CannotAccessFile { filepath } => ErrorView::CannotAccessFile {
                filepath: filepath@,
            },
            TodoRError::InvalidExtension { ext } => ErrorView::InvalidExtension { ext: ext@ },
            TodoRError::FileNotTracked { filepath } => ErrorView::FileNotTracked {
                filepath: filepath@,
            },
            TodoRError::TodoNotFound { line } => ErrorView::TodoNotFound { line: *line as nat },
            TodoRError::InvalidDefaultExtension { ext } => ErrorView::InvalidDefaultExtension {
                ext: ext@,
            },
            TodoRError::InvalidConfigFile { message } => ErrorView::InvalidConfigFile {
                message: message@,
            },
            TodoRError::InvalidIgnorePath { message } => ErrorView::InvalidIgnorePath {
                message: message@,
            },
            TodoRError::InvalidOutputFormat { message } => ErrorView::InvalidOutputFormat {
                message: message@,
            },
        }
    }
}

/// The character of a decimal digit.
pub open spec fn digit_char(d: nat) -> char {
    if d == 0 {
        '0'
    } else if d == 1 {
        '1'
    } else if d == 2 {
        '2'
    } else if d == 3 {
        '3'
    } else if d == 4 {
        '4'
    } else if d == 5 {
        '5'
    } else if d == 6 {
        '6'
    } else if d == 7 {
        '7'
    } else if d == 8 {
        '8'
    } else {
        '9'
    }
}

/// The decimal numeral of `n`, without leading zeros.
pub open spec fn decimal(n: nat) -> Seq<char>
    decreases n,
{
    if n < 10 {
        seq![digit_char(n)]
    } else {
        decimal(n / 10).push(digit_char(n % 10))
    }
}

/// The one-character string of a decimal digit.
fn digit_str(d: usize) -> (s: &'static str)
    requires
        d < 10,
    ensures
        s@ == seq![digit_char(d as nat)],
{
    proof {
        reveal_strlit("0");
        reveal_strlit("1");
        reveal_strlit("2");
        reveal_strlit("3");
        reveal_strlit("4");
        reveal_strlit("5");
        reveal_strlit("6");
        reveal_strlit("7");
        reveal_strlit("8");
        reveal_strlit("9");
    }
    let s = if d == 0 {
        "0"
    } else if d == 1 {
        "1"
    } else if d == 2 {
        "2"
    } else if d == 3 {
        "3"
    } else if d == 4 {
        "4"
    } else if d == 5 {
        "5"
    } else if d == 6 {
        "6"
    } else if d == 7 {
        "7"
    } else if d == 8 {
        "8"
    } else {
        "9"
    };
    assert(s@ =~= seq![digit_char(d as nat)]);
    s
}

/// Writes `n` as a decimal numeral.
pub fn decimal_string(n: usize) -> (s: String)
    ensures
        s@ == decimal(n as nat),
    decreases n,
{
    if n < 10 {
        String::from_str(digit_str(n))
    } else {
        let mut s = decimal_string(n / 10);
        s.append(digit_str(n % 10));
        assert(s@ =~= decimal(n as nat / 10).push(digit_char(n as nat % 10)));
        s
    }
}

impl ErrorView {
    /// The message of the error.
    pub open spec fn message(self) -> Seq<char> {
        match self {
            ErrorView::InputIsDir { filepath } => "'"@ + filepath + "' is a directory"@,
            ErrorView::CannotAccessFile { filepath } => "cannot access '"@ + filepath + "'"@,
            ErrorView::InvalidExtension { ext } => "'"@ + ext + "' is an invalid extension"@,
            ErrorView::FileNotTracked { filepath } => "'"@ + filepath + "' is not a tracked file"@,
            ErrorView::TodoNotFound { line } => "TODO comment not found in line "@ + decimal(line),
            ErrorView::InvalidDefaultExtension { ext } => "'"@ + ext
                + "' is an invalid default extension"@,
            ErrorView::InvalidConfigFile { message } => "invalid config file: "@ + message,
            ErrorView::InvalidIgnorePath { message } => "invalid ignore path: "@ + message,
            ErrorView::InvalidOutputFormat { message } => "invalid output format: "@ + message,
        }
    }
}

/// `before`, then `middle`, then `after`, as one string.
fn framed(before: &str, middle: &str, after: &str) -> (s: String)
    ensures
        s@ == before@ + middle@ + after@,
{
    let mut s = String::from_str(before);
    s.append(middle);
    s.append(after);
    s
}

impl TodoRError {
    /// The message of the error, as it is shown to the user.
    pub fn to_string(&self) -> (s: String)
        ensures
            s@ == self@.message(),
    {
        match self {
            TodoRError::InputIsDir { filepath } => framed("'", filepath.as_str(), "' is a directory"),
            TodoRError::CannotAccessFile { filepath } => framed(
                "cannot access '",
                filepath.as_str(),
                "'",
            ),
            TodoRError::InvalidExtension { ext } => framed(
                "'",
                ext.as_str(),
                "' is an invalid extension",
            ),
            TodoRError::FileNotTracked { filepath } => framed(
                "'",
                filepath.as_str(),
                "' is not a tracked file",
            ),
            TodoRError::TodoNotFound { line } => {
                let mut s = String::from_str("TODO comment not found in line ");
                s.append(decimal_string(*line).as_str());
                s
            },
            TodoRError::InvalidDefaultExtension { ext } => framed(
                "'",
                ext.as_str(),
                "' is an invalid default extension",
            ),
            TodoRError::InvalidConfigFile { message } => {
                let mut s = String::from_str("invalid config file: ");
                s.append(message.as_str());
                s
            },
            TodoRError::InvalidIgnorePath { message } => {
                let mut s = String::from_str("invalid ignore path: ");
                s.append(message.as_str());
                s
            },
            TodoRError::InvalidOutputFormat { message } => {
                let mut s = String::from_str("invalid output format: ");
                s.append(message.as_str());
                s
            },
        }
    }
}

} // verus!
