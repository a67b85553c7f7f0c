use vstd::prelude::*;

verus! {

/// Everything that can go wrong in a run, each variant carrying the context
/// its user-facing message needs.
#[allow(inconsistent_fields)]
pub enum Error {
    TempfileCreation { io_error: String, dir_path: String },
    TempfileWrite { io_error: String, path: String },
    TempfileOpen { io_error: String, path: String },
    TempfileRead { io_error: String, path: String },
    BadSources { errors: Vec<(String, String)> },
    BadDestinations { errors: Vec<(String, Option<String>)> },
    EditorInvocation { io_error: String, editor_command: String },
    EditorStatus { status: Option<i32> },
    LineCount { file_count: usize, line_count: usize },
    Rename { io_error: String, from: String, to: String },
}

/// The decimal digit character for `d` (meaningful for 0 through 9).
pub open spec fn dec_digit(d: int) -> char {
    if d == 0 {
        '0'
    } else if d == 1 {
        '1'
    } else if d == 2 {
        '2'
    } else if d == 3 {
        '3'
    } else if d == 4 {
        '4'
    } else if d == 5 {
        '5'
    } else if d == 6 {
        '6'
    } else if d == 7 {
        '7'
    } else if d == 8 {
        '8'
    } else {
        '9'
    }
}

/// The decimal digits of a nonnegative `n`, most significant first.
pub open spec fn dec_str(n: int) -> Seq<char>
    decreases n,
{
    if n < 10 {
        seq![dec_digit(n)]
    } else {
        dec_str(n / 10).push(dec_digit(n % 10))
    }
}

/// The decimal rendering of `n`, with a leading minus sign when negative.
pub open spec fn int_str(n: int) -> Seq<char> {
    if n < 0 {
        seq!['-'] + dec_str(-n)
    } else {
        dec_str(n)
    }
}

/// Appends the decimal digits of `n` to `s`.
fn push_dec(s: &mut String, n: u64)
    ensures
        final(s)@ == old(s)@ + dec_str(n as int),
    decreases n,
{
    if n >= 10 {
        push_dec(s, n / 10);
    }
    let d = n % 10;
    if d == 0 {
        s.append("0");
        proof {
            reveal_strlit("0");
            assert(("0")@ =~= seq![dec_digit(n as int % 10)]);
        }
    } else if d == 1 {
        s.append("1");
        proof {
            reveal_strlit("1");
            assert(("1")@ =~= seq![dec_digit(n as int % 10)]);
        }
    } else if d == 2 {
        s.append("2");
        proof {
            reveal_strlit("2");
            assert(("2")@ =~= seq![dec_digit(n as int % 10)]);
        }
    } else if d == 3 {
        s.append("3");
        proof {
            reveal_strlit("3");
            assert(("3")@ =~= seq![dec_digit(n as int % 10)]);
        }
    } else if d == 4 {
        s.append("4");
        proof {
            reveal_strlit("4");
            assert(("4")@ =~= seq![dec_digit(n as int % 10)]);
        }
    } else if d == 5 {
        s.append("5");
        proof {
            reveal_strlit("5");
            assert(("5")@ =~= seq![dec_digit(n as int % 10)]);
        }
    } else if d == 6 {
        s.append("6");
        proof {
            reveal_strlit("6");
            assert(("6")@ =~= seq![dec_digit(n as int % 10)]);
        }
    } else if d == 7 {
        s.append("7");
        proof {
            reveal_strlit("7");
            assert(("7")@ =~= seq![dec_digit(n as int % 10)]);
        }
    } else if d == 8 {
        s.append("8");
        proof {
            reveal_strlit("8");
            assert(("8")@ =~= seq![dec_digit(n as int % 10)]);
        }
    } else {
        s.append("9");
        proof {
            reveal_strlit("9");
            assert(("9")@ =~= seq![dec_digit(n as int % 10)]);
        }
    }
    proof {
        if n < 10 {
            assert(old(s)@ + seq![dec_digit(n as int)] =~= old(s)@ + dec_str(n as int));
        } else {
            assert((old(s)@ + dec_str(n as int / 10)) + seq![dec_digit(n as int % 10)] =~= old(s)@
                + dec_str(n as int));
        }
    }
}

/// Appends the decimal rendering of `n`, minus sign included, to `s`.
fn push_int(s: &mut String, n: i32)
    ensures
        final(s)@ == old(s)@ + int_str(n as int),
{
    if n < 0 {
        s.append("-");
        let m: u64 = (-(n as i64)) as u64;
        push_dec(s, m);
        proof {
            reveal_strlit("-");
            assert(("-")@ =~= seq!['-']);
            assert((old(s)@ + seq!['-']) + dec_str(m as int) =~= old(s)@ + int_str(n as int));
        }
    } else {
        push_dec(s, n as u64);
    }
}

/// The per-path detail lines of a `BadSources` report, for the first `n`
/// entries: `path: error`, one per line.
pub open spec fn source_error_lines(errors: Seq<(String, String)>, n: int) -> Seq<char>
    decreases n,
{
    if n <= 0 {
        Seq::empty()
    } else {
        source_error_lines(errors, n - 1) + errors[n - 1].0@ + (": ")@ + errors[n - 1].1@ + (
        "\n")@
    }
}

/// The per-path detail lines of a `BadDestinations` report, for the first `n`
/// entries: a destination whose check failed shows the failure, one that
/// simply exists says so.
pub open spec fn destination_error_lines(errors: Seq<(String, Option<String>)>, n: int) -> Seq<
    char,
>
    decreases n,
{
    if n <= 0 {
        Seq::empty()
    } else {
        destination_error_lines(errors, n - 1) + errors[n - 1].0@ + (match errors[n - 1].1 {
            Some(e) => (": ")@ + e@,
            None => (": already exists")@,
        }) + ("\n")@
    }
}

/// The full user-facing message of an error.
pub open spec fn message_of(e: &Error) -> Seq<char> {
    match e {
        Error::TempfileCreation { io_error, dir_path } => ("Error creating tempfile in `")@
            + dir_path@ + ("`: ")@ + io_error@,
        Error::TempfileWrite { io_error, path } => ("Error writing to tempfile `")@ + path@ + (
        "`: ")@ + io_error@,
        Error::TempfileOpen { io_error, path } => ("Error opening tempfile `")@ + path@ + ("`: ")@
            + io_error@,
        Error::TempfileRead { io_error, path } => ("Error reading tempfile `")@ + path@ + ("`: ")@
            + io_error@,
        Error::BadSources { errors } => ("Error accessing source files:\n")@ + source_error_lines(
            errors@,
            errors@.len() as int,
        ),
        Error::BadDestinations { errors } => ("Error with destinations:\n")@
            + destination_error_lines(errors@, errors@.len() as int),
        Error::EditorInvocation { io_error, editor_command } => ("Error invoking editor `")@
            + editor_command@ + ("`: ")@ + io_error@,
        Error::EditorStatus { status: Some(code) } => ("Editor failed with status code: ")@
            + int_str(*code as int),
        Error::EditorStatus { status: None } => ("Editor failed with unknown status")@,
        Error::LineCount { file_count, line_count } => ("Renaming ")@ + dec_str(*file_count as int)
            + (" files but found ")@ + dec_str(*line_count as int) + (" lines")@,
        Error::Rename { io_error, from, to } => ("Error renaming file `")@ + from@ + ("` -> `")@
            + to@ + ("`: ")@ + io_error@,
    }
}

impl Error {
    /// The human-readable report for this error, exactly as it is printed.
    pub fn message(&self) -> (m: String)
        ensures
            m@ == message_of(self),
    {
        let mut m = String::new();
        match self {
            Error::TempfileCreation { io_error, dir_path } => {
                m.append("Error creating tempfile in `");
                m.append(dir_path.as_str());
                m.append("`: ");
                m.append(io_error.as_str());
            },
            Error::TempfileWrite { io_error, path } => {
                m.append("Error writing to tempfile `");
                m.append(path.as_str());
                m.append("`: ");
                m.append(io_error.as_str());
            },
            Error::TempfileOpen { io_error, path } => {
                m.append("Error opening tempfile `");
                m.append(path.as_str());
                m.append("`: ");
                m.append(io_error.as_str());
            },
            Error::TempfileRead { io_error, path } => {
                m.append("Error reading tempfile `");
                m.append(path.as_str());
                m.append("`: ");
                m.append(io_error.as_str());
            },
            Error::BadSources { errors } => {
                m.append("Error accessing source files:\n");
                let mut i: usize = 0;
                while i < errors.len()
                    invariant
                        i <= errors@.len(),
                        m@ == ("Error accessing source files:\n")@ + source_error_lines(
                            errors@,
                            i as int,
                        ),
                    decreases errors@.len() - i,
                {
                    m.append(errors[i].0.as_str());
                    m.append(": ");
                    m.append(errors[i].1.as_str());
                    m.append("\n");
                    i = i + 1;
                }
            },
            Error::BadDestinations { errors } => {
                m.append("Error with destinations:\n");
                let mut i: usize = 0;
                while i < errors.len()
                    invariant
                        i <= errors@.len(),
                        m@ == ("Error with destinations:\n")@ + destination_error_lines(
                            errors@,
                            i as int,
                        ),
                    decreases errors@.len() - i,
                {
                    m.append(errors[i].0.as_str());
                    match &errors[i].1 {
                        Some(e) => {
                            m.append(": ");
                            m.append(e.as_str());
                        },
                        None => {
                            m.append(": already exists");
                        },
                    }
                    m.append("\n");
                    i = i + 1;
                }
            },
            Error::EditorInvocation { io_error, editor_command } => {
                m.append("Error invoking editor `");
                m.append(editor_command.as_str());
                m.append("`: ");
                m.append(io_error.as_str());
            },
            Error::EditorStatus { status } => {
                match status {
                    Some(code) => {
                        m.append("Editor failed with status code: ");
                        push_int(&mut m, *code);
                    },
                    None => {
                        m.append("Editor failed with unknown status");
                    },
                }
            },
            Error::LineCount { file_count, line_count } => {
                m.append("Renaming ");
                push_dec(&mut m, *file_count as u64);
                m.append(" files but found ");
                push_dec(&mut m, *line_count as u64);
                m.append(" lines");
            },
            Error::Rename { io_error, from, to } => {
                m.append("Error renaming file `");
                m.append(from.as_str());
                m.append("` -> `");
                m.append(to.as_str());
                m.append("`: ");
                m.append(io_error.as_str());
            },
        }
        m
    }
}

} // verus!
