//! A compiler that stacks up diagnostic messages while it works.
use std::marker::PhantomData;

use vstd::prelude::*;

verus! {

/// How serious a diagnostic message is.
#[derive(Debug, Clone, Copy, PartialEq, Eq, Hash, Structural)]
pub enum Severity {
    Information,
    Warning,
    Error,
}

/// Something that records diagnostics and can be asked to compile or validate sources.
pub trait Compiler {
    type Error;

    fn info(&mut self, message: String);

    fn warn(&mut self, message: String);

    fn error(&mut self, message: String);
}

/// Compiles a source of type `T` into `Self::Output`.
pub trait Compile<T>: Compiler {
    type Output;

    /// Whether a compiler in this state may give back `result` for `source`; each
    /// implementation says what its compilation yields.
    /// An implementation that does not say admits every result.
    open spec fn compiles_to(&self, source: T, result: Result<Self::Output, Self::Error>) -> bool {
        true
    }

    fn compile(&mut self, source: T) -> (r: Result<Self::Output, Self::Error>)
        ensures
            old(self).compiles_to(source, r),
    ;
}

/// Validates a source of type `T`.
pub trait Validate<T>: Compiler {
    /// Whether a compiler in this state may give back `result` for validating `source`;
    /// each implementation says what its validation yields.
    /// An implementation that does not say admits every result.
    open spec fn validates_to(&self, source: T, result: Result<bool, Self::Error>) -> bool {
        true
    }

    fn validate(&mut self, source: T) -> (r: Result<bool, Self::Error>)
        ensures
            old(self).validates_to(source, r),
    ;
}

/// The abstract content of a message list: severities with their texts.
pub open spec fn messages_view(messages: Seq<(Severity, String)>) -> Seq<(Severity, Seq<char>)> {
    messages.map_values(|m: (Severity, String)| (m.0, m.1@))
}

/// Whether a message list holds an error.
pub open spec fn has_error(messages: Seq<(Severity, Seq<char>)>) -> bool {
    exists|i: int| 0 <= i < messages.len() && (#[trigger] messages[i]).0 == Severity::Error
}

/// A compiler that keeps every message in the order it was reported.
pub struct ErrorStackCompiler<E> {
    messages: Vec<(Severity, String)>,
    errornous: bool,
    reports: Ghost<Seq<Report>>,
    _error_type: PhantomData<E>,
}

impl<E> View for ErrorStackCompiler<E> {
    type V = Seq<(Severity, Seq<char>)>;

    closed spec fn view(&self) -> Seq<(Severity, Seq<char>)> {
        messages_view(self.messages@)
    }
}

impl<E> ErrorStackCompiler<E> {
    /// The reports made to this compiler since it was made, in order.
    pub closed spec fn reports(&self) -> Seq<Report> {
        self.reports@
    }

    /// The error flag agrees with the recorded messages, which are those of the reports.
    pub closed spec fn wf(&self) -> bool {
        &&& self.errornous == has_error(self@)
        &&& self@ == messages_after(self.reports@)
    }

    pub fn new() -> (compiler: ErrorStackCompiler<E>)
        ensures
            compiler@ == Seq::<(Severity, Seq<char>)>::empty(),
            compiler.reports() == Seq::<Report>::empty(),
            compiler.wf(),
    {
        let compiler = ErrorStackCompiler {
            messages: Vec::new(),
            errornous: false,
            reports: Ghost(Seq::empty()),
            _error_type: PhantomData,
        };
        proof {
            assert(compiler@ =~= Seq::<(Severity, Seq<char>)>::empty());
        }
        compiler
    }

    /// Whether an error has been reported.
    pub fn errornous(&self) -> (r: bool)
        requires
            self.wf(),
        ensures
            r == has_error(self@),
            r <==> exists|i: int| 0 <= i < self.reports().len() && #[trigger] self.reports()[i] is Error,
    {
        proof {
            lemma_error_stack_history(self.reports@);
        }
        self.errornous
    }

    /// All reported messages, in the order they were reported.
    pub fn messages(self) -> (messages: Vec<(Severity, String)>)
        ensures
            messages_view(messages@) == self@,
            self.wf() ==> messages_view(messages@) == messages_after(self.reports()),
    {
        self.messages
    }
}

impl<E> Compiler for ErrorStackCompiler<E> {
    type Error = E;

    fn info(&mut self, message: String)
        ensures
            final(self)@ == old(self)@.push((Severity::Information, message@)),
            final(self).reports() == old(self).reports().push(Report::Info(message@)),
            old(self).wf() ==> final(self).wf(),
    {
        let ghost m = message@;
        self.messages.push((Severity::Information, message));
        self.reports = Ghost(self.reports@.push(Report::Info(m)));
        proof {
            assert(self.reports@.drop_last() =~= old(self).reports@);
            assert(self.reports@.last() == Report::Info(m));
            assert(messages_view(self.messages@) =~= messages_view(old(self).messages@).push(
                (Severity::Information, message@),
            ));
            if has_error(self@) {
                let i = choose|i: int| 0 <= i < self@.len() && (#[trigger] self@[i]).0 == Severity::Error;
                assert(old(self)@[i] == self@[i]);
            }
            if has_error(old(self)@) {
                let i = choose|i: int|
                    0 <= i < old(self)@.len() && (#[trigger] old(self)@[i]).0 == Severity::Error;
                assert(old(self)@[i] == self@[i]);
            }
        }
    }

    fn warn(&mut self, message: String)
        ensures
            final(self)@ == old(self)@.push((Severity::Warning, message@)),
            final(self).reports() == old(self).reports().push(Report::Warn(message@)),
            old(self).wf() ==> final(self).wf(),
    {
        let ghost m = message@;
        self.messages.push((Severity::Warning, message));
        self.reports = Ghost(self.reports@.push(Report::Warn(m)));
        proof {
            assert(self.reports@.drop_last() =~= old(self).reports@);
            assert(self.reports@.last() == Report::Warn(m));
            assert(messages_view(self.messages@) =~= messages_view(old(self).messages@).push(
                (Severity::Warning, message@),
            ));
            if has_error(self@) {
                let i = choose|i: int| 0 <= i < self@.len() && (#[trigger] self@[i]).0 == Severity::Error;
                assert(old(self)@[i] == self@[i]);
            }
            if has_error(old(self)@) {
                let i = choose|i: int|
                    0 <= i < old(self)@.len() && (#[trigger] old(self)@[i]).0 == Severity::Error;
                assert(old(self)@[i] == self@[i]);
            }
        }
    }

    fn error(&mut self, message: String)
        ensures
            final(self)@ == old(self)@.push((Severity::Error, message@)),
            final(self).reports() == old(self).reports().push(Report::Error(message@)),
            old(self).wf() ==> final(self).wf(),
    {
        self.errornous = true;
        let ghost m = message@;
        self.messages.push((Severity::Error, message));
        self.reports = Ghost(self.reports@.push(Report::Error(m)));
        proof {
            assert(self.reports@.drop_last() =~= old(self).reports@);
            assert(self.reports@.last() == Report::Error(m));
            assert(messages_view(self.messages@) =~= messages_view(old(self).messages@).push(
                (Severity::Error, message@),
            ));
            assert(self@[self@.len() - 1].0 == Severity::Error);
        }
    }
}

impl<E> ErrorStackCompiler<E> {
    /// Compiles `source` with this compiler's own `Compile` implementation: the result is
    /// one that implementation gives for `source`.
    pub fn parse<T>(&mut self, source: T) -> (r: Result<<Self as Compile<T>>::Output, <Self as Compiler>::Error>) where
        Self: Compile<T>,
        ensures
            old(self).compiles_to(source, r),
     {
        <Self as Compile<T>>::compile(self, source)
    }

    /// Validates `source` with this compiler's own `Validate` implementation: the result is
    /// one that implementation gives for `source`.
    pub fn ensure<T>(&mut self, source: T) -> (r: Result<bool, <Self as Compiler>::Error>) where
        Self: Validate<T>,
        ensures
            old(self).validates_to(source, r),
    {
        <Self as Validate<T>>::validate(self, source)
    }
}


/// A report made to a compiler: its severity and message.
pub enum Report {
    Info(Seq<char>),
    Warn(Seq<char>),
    Error(Seq<char>),
}

/// The message that a report records.
pub open spec fn report_message(r: Report) -> (Severity, Seq<char>) {
    match r {
        Report::Info(m) => (Severity::Information, m),
        Report::Warn(m) => (Severity::Warning, m),
        Report::Error(m) => (Severity::Error, m),
    }
}

/// The messages that a fresh compiler holds after `reports`, one for each, in order.
pub open spec fn messages_after(reports: Seq<Report>) -> Seq<(Severity, Seq<char>)>
    decreases reports.len(),
{
    if reports.len() == 0 {
        Seq::empty()
    } else {
        messages_after(reports.drop_last()).push(report_message(reports.last()))
    }
}

/// A fresh compiler that is then given `reports` (by `info`, `warn` and `error`, each of which
/// appends its message) holds one message for each report, in order, with its severity; and
/// it is erroneous exactly when one of the reports was an error.
pub proof fn lemma_error_stack_history(reports: Seq<Report>)
    ensures
        messages_after(reports).len() == reports.len(),
        forall|i: int| 0 <= i < reports.len() ==> #[trigger] messages_after(reports)[i] == report_message(reports[i]),
        has_error(messages_after(reports)) <==> exists|i: int| 0 <= i < reports.len() && #[trigger] reports[i] is Error,
    decreases reports.len(),
{
    if reports.len() > 0 {
        let prev = reports.drop_last();
        lemma_error_stack_history(prev);
        let m = messages_after(reports);
        assert forall|i: int| 0 <= i < reports.len() implies #[trigger] m[i] == report_message(reports[i]) by {
            if i < prev.len() {
                assert(prev[i] == reports[i]);
            }
        }
        if has_error(m) {
            let i = choose|i: int| 0 <= i < m.len() && (#[trigger] m[i]).0 == Severity::Error;
            assert(m[i] == report_message(reports[i]));
            assert(reports[i] is Error);
        }
        if exists|i: int| 0 <= i < reports.len() && #[trigger] reports[i] is Error {
            let i = choose|i: int| 0 <= i < reports.len() && #[trigger] reports[i] is Error;
            assert(m[i] == report_message(reports[i]));
            assert(m[i].0 == Severity::Error);
        }
    }
}

} // verus!
