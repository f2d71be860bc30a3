use declavatar::compiler::{Compile, Compiler, ErrorStackCompiler, Severity, Validate};

/// A compiler that adds numbers, reporting large and huge left-hand sides.
struct TestCompiler {
    inner: ErrorStackCompiler<String>,
}

impl TestCompiler {
    fn new() -> TestCompiler {
        TestCompiler { inner: ErrorStackCompiler::new() }
    }

    fn messages(self) -> Vec<(Severity, String)> {
        self.inner.messages()
    }

    fn ensure<T>(&mut self, source: T) -> Result<bool, String>
    where
        Self: Validate<T>,
    {
        <Self as Validate<T>>::validate(self, source)
    }
}

impl Compiler for TestCompiler {
    type Error = String;

    fn info(&mut self, message: String) {
        self.inner.info(message);
    }

    fn warn(&mut self, message: String) {
        self.inner.warn(message);
    }

    fn error(&mut self, message: String) {
        self.inner.error(message);
    }
}

impl Compile<(&str, usize)> for TestCompiler {
    type Output = usize;

    fn compile(&mut self, (source, rhs): (&str, usize)) -> Result<usize, String> {
        match source.parse::<usize>() {
            Ok(v) if v >= 10000 => {
                self.warn(format!("huge lhs {v}"));
                Ok(v + rhs)
            }
            Ok(v) if v >= 100 => {
                self.info(format!("large lhs {v}"));
                Ok(v + rhs)
            }
            Ok(v) => Ok(v + rhs),
            Err(e) => {
                self.error(e.to_string());
                Ok(0)
            }
        }
    }
}

impl Validate<(&str, &str)> for TestCompiler {
    fn validate(&mut self, (lhs, rhs): (&str, &str)) -> Result<bool, String> {
        Ok(lhs >= rhs)
    }
}

#[test]
fn compiler_works() {
    let mut compiler = TestCompiler::new();
    assert_eq!(compiler.compile(("22", 20)), Ok(42));
}

#[test]
fn compiler_info_passes() {
    let mut compiler = TestCompiler::new();
    let compiled = compiler.compile(("100", 28));
    let messages = compiler.messages();
    assert_eq!(compiled, Ok(128));
    assert_eq!(messages, vec![(Severity::Information, "large lhs 100".into())]);
}

#[test]
fn compiler_warn_passes() {
    let mut compiler = TestCompiler::new();
    let compiled = compiler.compile(("16000", 384));
    let messages = compiler.messages();
    assert_eq!(compiled, Ok(16384));
    assert_eq!(messages, vec![(Severity::Warning, "huge lhs 16000".into())]);
}

#[test]
fn compiler_error_stops() {
    let mut compiler = TestCompiler::new();
    let compiled = compiler.compile(("not a number", 384));
    let messages = compiler.messages();
    assert_eq!(compiled, Ok(0));
    assert_eq!(messages, vec![(Severity::Error, "invalid digit found in string".into())]);
}

#[test]
fn compiler_validates() {
    let mut compiler = TestCompiler::new();
    assert_eq!(compiler.ensure(("latter", "former")), Ok(true));
    assert_eq!(compiler.ensure(("Ash", "Sephira")), Ok(false));
}

#[test]
fn error_stack_compiler_keeps_messages_in_order() {
    let mut compiler: ErrorStackCompiler<String> = ErrorStackCompiler::new();
    assert!(!compiler.errornous());
    compiler.info("one".to_string());
    compiler.warn("two".to_string());
    assert!(!compiler.errornous());
    compiler.error("three".to_string());
    assert!(compiler.errornous());
    compiler.info("four".to_string());
    assert!(compiler.errornous());
    assert_eq!(
        compiler.messages(),
        vec![
            (Severity::Information, "one".to_string()),
            (Severity::Warning, "two".to_string()),
            (Severity::Error, "three".to_string()),
            (Severity::Information, "four".to_string()),
        ]
    );
}
