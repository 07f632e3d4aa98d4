use miniscript::compile;
use miniscript::errors::{CompileError, MsErrorType};
use miniscript::vm::chunk::pretty_print;

fn shown(code: &str) -> String {
    match compile("<eval>", code) {
        Ok(chunk) => format!("{code}\n------\n{}", pretty_print(&chunk, code)),
        Err(errors) => errors
            .iter()
            .map(|error| match &error.error_type {
                MsErrorType::Compile(compile) => {
                    let CompileError::Compilation(reason, span, contexts) = compile else {
                        unreachable!()
                    };
                    let mut text = format!(
                        "[{}] {} at {}..{}",
                        error.code(),
                        compile.message(),
                        span.start,
                        span.end
                    );
                    for (label, span) in contexts {
                        text = format!("{text}\n  {label} at {}..{}", span.start, span.end);
                    }
                    let _ = reason;
                    text
                }
                MsErrorType::Internal(internal) => {
                    format!("[{}] {}", error.code(), internal.message())
                }
                MsErrorType::Runtime(_) => format!("[{}] runtime error", error.code()),
            })
            .collect::<Vec<String>>()
            .join("\n\n"),
    }
}

#[test]
fn test_binary() {
    let result = shown("1 + 2");
    assert_eq!(result, "1 + 2\n------\n0: return  |  ");
}

#[test]
fn test_print() {
    let result = shown("print 1 + 2");
    let expected = [
        "print 1 + 2",
        "------",
        "0: $0 = 1         |  1",
        "1: $1 = 2         |  2",
        "2: $0 = $0 + $1   |  1 + 2",
        "3: $0 = print $0  |  print 1 + 2",
        "4: return         |  ",
    ]
    .join("\n");
    assert_eq!(result, expected);
}

#[test]
fn test_single_comparison() {
    let result = shown("print 1 == 2");
    let expected = [
        "print 1 == 2",
        "------",
        "0: $0 = 1         |  1",
        "1: $1 = 2         |  2",
        "2: $0 = $0 == $1  |  1 == 2",
        "3: $0 = print $0  |  print 1 == 2",
        "4: return         |  ",
    ]
    .join("\n");
    assert_eq!(result, expected);
}

#[test]
fn test_chained_comparison() {
    let result = shown("print 1 == 2 > 1 < 3");
    let expected = [
        "print 1 == 2 > 1 < 3",
        "------",
        " 0: $0 = 1          |  ",
        " 1: $1 = 1          |  1",
        " 2: $2 = 2          |  2",
        " 3: $1 = $1 == $2   |  1 == 2",
        " 4: $0 = $0 and $1  |  1 == 2",
        " 5: $1 = 1          |  1",
        " 6: $2 = $2 > $1    |  2 > 1",
        " 7: $0 = $0 and $2  |  1 == 2 > 1",
        " 8: $2 = 3          |  3",
        " 9: $1 = $1 < $2    |  1 < 3",
        "10: $0 = $0 and $1  |  1 == 2 > 1 < 3",
        "11: $0 = print $0   |  print 1 == 2 > 1 < 3",
        "12: return          |  ",
    ]
    .join("\n");
    assert_eq!(result, expected);
}

#[test]
fn test_fail() {
    let result = shown("if a print 5");
    let expected = [
        "[2000] Parsing error: expected 'then' at 5..10",
        "  while parsing this if statement at 0..2",
    ]
    .join("\n");
    assert_eq!(result, expected);
}
