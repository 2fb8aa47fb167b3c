//! The terminal tool's command check and the report of a finished command.

use vstd::prelude::*;
use crate::text::{
    byte_len, byte_prefix, byte_prefix_string, decimal, is_boundary, push_decimal,
    push_signed_decimal, signed_decimal, trim, trim_str,
};

verus! {

/// Output longer than this many bytes is cut in the report.
pub open spec fn output_limit() -> nat {
    8000
}

/// The command to run for a terminal request, or the error for a blank one.
pub open spec fn command_of(input: Seq<char>) -> Result<Seq<char>, Seq<char>> {
    if trim(input).len() == 0 {
        Err("Error: empty command"@)
    } else {
        Ok(trim(input))
    }
}

/// Checks a terminal request: the trimmed command, or the error answer.
pub fn shell_command(input: &str) -> (r: Result<String, String>)
    ensures
        match r {
            Ok(c) => command_of(input@) == Ok::<Seq<char>, Seq<char>>(c@),
            Err(e) => command_of(input@) == Err::<Seq<char>, Seq<char>>(e@),
        },
{
    let command = trim_str(input);
    if command.as_str().is_empty() {
        Err("Error: empty command".to_owned())
    } else {
        Ok(command)
    }
}

/// The exit code as reported: the process's code, or -1 without one.
pub open spec fn exit_code(code: Option<i32>) -> int {
    match code {
        Some(c) => c as int,
        None => -1,
    }
}

/// The answer of the terminal tool for a finished command.
pub open spec fn shell_report(code: Option<i32>, stdout: Seq<char>, stderr: Seq<char>) -> Seq<char> {
    if exit_code(code) == 0 {
        if byte_len(stdout) > output_limit() {
            "Command succeeded. Output (truncated):\n"@ + byte_prefix(stdout, output_limit() as int)
                + "...\n["@ + decimal(byte_len(stdout)) + " bytes total]"@
        } else {
            "Command succeeded. Output:\n"@ + stdout
        }
    } else {
        "Command failed (exit code "@ + signed_decimal(exit_code(code)) + "). stdout:\n"@ + stdout
            + "\nstderr:\n"@ + stderr
    }
}

/// Reports a finished command from its exit code and its decoded output.
/// Long output of a successful command is cut at byte 8000, which must
/// then be a character boundary.
pub fn command_report(code: Option<i32>, stdout: &str, stderr: &str) -> (r: String)
    requires
        exit_code(code) == 0 && byte_len(stdout@) > output_limit() ==> is_boundary(
            stdout@,
            output_limit() as int,
        ),
    ensures
        r@ == shell_report(code, stdout@, stderr@),
{
    let c: i32 = match code {
        Some(c) => c,
        None => -1,
    };
    if c == 0 {
        let n = stdout.as_bytes().len();
        if n > 8000 {
            let mut r = "Command succeeded. Output (truncated):\n".to_owned();
            let head = byte_prefix_string(stdout, 8000);
            r.append(head.as_str());
            r.append("...\n[");
            push_decimal(&mut r, n as u64);
            r.append(" bytes total]");
            r
        } else {
            let mut r = "Command succeeded. Output:\n".to_owned();
            r.append(stdout);
            r
        }
    } else {
        let mut r = "Command failed (exit code ".to_owned();
        push_signed_decimal(&mut r, c as i64);
        r.append("). stdout:\n");
        r.append(stdout);
        r.append("\nstderr:\n");
        r.append(stderr);
        r
    }
}

} // verus!
