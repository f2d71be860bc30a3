//! A compiler session as the C interface holds it: its arguments, the compiled avatar as JSON,
//! and the logs as JSON.
use vstd::prelude::*;

use crate::decl_v2::arguments::{Arguments, DeclarationFormat};

verus! {

/// The status a C caller receives.
#[derive(Debug, Clone, Copy, PartialEq, Eq, Structural)]
pub enum StatusCode {
    Success,
    Utf8Error,
    CompileError,
    AlreadyInUse,
    NotCompiled,
    InvalidPointer,
}

pub open spec fn status_number(s: StatusCode) -> u32 {
    match s {
        StatusCode::Success => 0,
        StatusCode::Utf8Error => 1,
        StatusCode::CompileError => 2,
        StatusCode::AlreadyInUse => 3,
        StatusCode::NotCompiled => 4,
        StatusCode::InvalidPointer => 128,
    }
}

impl StatusCode {
    /// The number that stands for this status across the C interface.
    pub fn code(self) -> (r: u32)
        ensures
            r == status_number(self),
    {
        match self {
            StatusCode::Success => 0,
            StatusCode::Utf8Error => 1,
            StatusCode::CompileError => 2,
            StatusCode::AlreadyInUse => 3,
            StatusCode::NotCompiled => 4,
            StatusCode::InvalidPointer => 128,
        }
    }
}

/// A compiler session: a session compiles once until it is reset.
pub struct Declavatar {
    in_use: bool,
    args: Arguments,
    avatar_json: Option<String>,
    logs_jsons: Vec<String>,
    history: Ghost<Seq<(u32, ReadOutcome)>>,
}

pub open spec fn opt_str_view(o: Option<String>) -> Option<Seq<char>> {
    match o {
        Some(s) => Some(s@),
        None => None,
    }
}

/// A session as what it tells: whether it is in use, the compiled avatar's JSON, and the
/// logs' JSON.
pub type SessionView = (bool, Option<Seq<char>>, Seq<Seq<char>>);

/// What reading and compiling a declaration gives: the avatar's JSON, or the logs' JSON.
pub type ReadOutcome = Result<Seq<char>, Seq<Seq<char>>>;

pub open spec fn read_outcome_view(o: Result<String, Vec<String>>) -> ReadOutcome {
    match o {
        Ok(j) => Ok(j@),
        Err(ls) => Err(ls@.map_values(|l: String| l@)),
    }
}

/// One compilation of a session, for a declaration of the given kind that reads and compiles
/// to `outcome`: a session in use is refused and stays as it was; otherwise it is taken, an
/// unknown kind is a compile error, an avatar's JSON is kept, and logs are added as an error.
pub open spec fn compile_step(v: SessionView, kind: u32, outcome: ReadOutcome) -> (SessionView, Result<
    (),
    StatusCode,
>) {
    if v.0 {
        (v, Err(StatusCode::AlreadyInUse))
    } else if kind != 1 && kind != 2 {
        ((true, v.1, v.2), Err(StatusCode::CompileError))
    } else {
        match outcome {
            Ok(j) => ((true, Some(j), v.2), Ok(())),
            Err(ls) => ((true, v.1, v.2 + ls), Err(StatusCode::CompileError)),
        }
    }
}

/// A fresh session: not in use, nothing compiled, no logs.
pub open spec fn fresh_session() -> SessionView {
    (false, None, Seq::empty())
}

/// The session after a run of compilations, each a kind with what it reads to, and their
/// answers.
pub open spec fn compile_history(v: SessionView, steps: Seq<(u32, ReadOutcome)>) -> (SessionView, Seq<
    Result<(), StatusCode>,
>)
    decreases steps.len(),
{
    if steps.len() == 0 {
        (v, Seq::empty())
    } else {
        let (before, answers) = compile_history(v, steps.drop_last());
        let (after, answer) = compile_step(before, steps.last().0, steps.last().1);
        (after, answers.push(answer))
    }
}

/// A session compiles once until it is reset: after a first compilation every later one is
/// refused with `AlreadyInUse` and changes nothing.
pub proof fn lemma_session_compiles_once(steps: Seq<(u32, ReadOutcome)>)
    requires
        steps.len() > 0,
    ensures
        ({
            let first = compile_step(fresh_session(), steps[0].0, steps[0].1);
            let (v, answers) = compile_history(fresh_session(), steps);
            &&& v == first.0
            &&& answers.len() == steps.len()
            &&& answers[0] == first.1
            &&& forall|i: int| 1 <= i < answers.len() ==> #[trigger] answers[i] == Err::<(), StatusCode>(
                StatusCode::AlreadyInUse,
            )
        }),
    decreases steps.len(),
{
    let first = compile_step(fresh_session(), steps[0].0, steps[0].1);
    assert(first.0.0);
    assert(steps.last() == steps[steps.len() - 1]);
    if steps.len() == 1 {
        assert(steps.drop_last().len() == 0);
        assert(steps.last() == steps[0]);
        let h0 = compile_history(fresh_session(), steps.drop_last());
        assert(h0.0 == fresh_session() && h0.1.len() == 0);
        let (v, answers) = compile_history(fresh_session(), steps);
        assert(answers == h0.1.push(first.1));
        assert(answers[0] == first.1);
    } else {
        let prev = steps.drop_last();
        assert(prev[0] == steps[0]);
        lemma_session_compiles_once(prev);
        let (v, answers) = compile_history(fresh_session(), steps);
        let (pv, pa) = compile_history(fresh_session(), prev);
        assert forall|i: int| 1 <= i < answers.len() implies #[trigger] answers[i] == Err::<(), StatusCode>(
            StatusCode::AlreadyInUse,
        ) by {
            if i < pa.len() {
                assert(answers[i] == pa[i]);
            }
        }
        assert(answers[0] == pa[0]);
    }
}

/// After any compilations of a fresh session, the avatar's JSON is there exactly when a
/// compilation succeeded, and it is the JSON that compilation gave.
pub proof fn lemma_avatar_json_exactly_after_success(steps: Seq<(u32, ReadOutcome)>)
    ensures
        ({
            let (v, answers) = compile_history(fresh_session(), steps);
            &&& v.1 is Some <==> exists|i: int| 0 <= i < answers.len() && #[trigger] answers[i] is Ok
            &&& forall|i: int|
                0 <= i < answers.len() && #[trigger] answers[i] is Ok ==> steps[i].1 == Ok::<
                    Seq<char>,
                    Seq<Seq<char>>,
                >(v.1->0)
        }),
{
    if steps.len() > 0 {
        lemma_session_compiles_once(steps);
        let (v, answers) = compile_history(fresh_session(), steps);
        assert forall|i: int| 0 <= i < answers.len() && #[trigger] answers[i] is Ok implies i == 0 by {}
        if v.1 is Some {
            assert(answers[0] is Ok);
        }
    } else {
        assert(compile_history(fresh_session(), steps).1.len() == 0);
    }
}

/// Whether `o` is what `read` answers for a declaration of the given kind, given the format
/// with these library paths.
pub open spec fn read_as<F: FnOnce(DeclarationFormat) -> Result<String, Vec<String>>>(
    read: F,
    kind: u32,
    paths: Seq<Seq<char>>,
    o: Result<String, Vec<String>>,
) -> bool {
    exists|f: DeclarationFormat|
        #[trigger] call_ensures(read, (f,), o) && match f {
            DeclarationFormat::Sexpr(ps) => kind == 1 && ps@.map_values(|p: String| p@) == paths,
            DeclarationFormat::Lua(ps) => kind == 2 && ps@.map_values(|p: String| p@) == paths,
        }
}

impl Declavatar {
    pub closed spec fn in_use(&self) -> bool {
        self.in_use
    }

    pub closed spec fn arguments(&self) -> Arguments {
        self.args
    }

    pub closed spec fn avatar_json_view(&self) -> Option<Seq<char>> {
        opt_str_view(self.avatar_json)
    }

    pub closed spec fn logs_view(&self) -> Seq<Seq<char>> {
        self.logs_jsons@.map_values(|s: String| s@)
    }

    /// What the session tells: in use, the avatar's JSON, the logs' JSON.
    pub open spec fn session(&self) -> SessionView {
        (self.in_use(), self.avatar_json_view(), self.logs_view())
    }

    /// The compilations made since the session was made or last reset: each kind with what
    /// its declaration read and compiled to.
    pub closed spec fn history(&self) -> Seq<(u32, ReadOutcome)> {
        self.history@
    }

    /// The session is what its compilations since it was made or last reset left.
    pub closed spec fn wf(&self) -> bool {
        self.session() == compile_history(fresh_session(), self.history@).0
    }

    /// A fresh session: not in use, no arguments, nothing compiled, no logs.
    pub fn new() -> (r: Declavatar)
        ensures
            !r.in_use(),
            r.arguments().wf(),
            r.arguments().library_paths_view().len() == 0,
            r.arguments().symbols_view().len() == 0,
            r.arguments().localizations_view().len() == 0,
            r.avatar_json_view() is None,
            r.logs_view().len() == 0,
            r.history().len() == 0,
            r.wf(),
    {
        let r = Declavatar {
            in_use: false,
            args: Arguments::new(),
            avatar_json: None,
            logs_jsons: Vec::new(),
            history: Ghost(Seq::empty()),
        };
        proof {
            assert(r.logs_view() =~= Seq::<Seq<char>>::empty());
        }
        r
    }

    /// Makes the session fresh again.
    pub fn reset(&mut self)
        ensures
            !final(self).in_use(),
            final(self).arguments().wf(),
            final(self).arguments().library_paths_view().len() == 0,
            final(self).arguments().symbols_view().len() == 0,
            final(self).arguments().localizations_view().len() == 0,
            final(self).avatar_json_view() is None,
            final(self).logs_view().len() == 0,
            final(self).history().len() == 0,
            final(self).wf(),
    {
        self.in_use = false;
        self.args.clear();
        self.avatar_json = None;
        self.logs_jsons.clear();
        self.history = Ghost(Seq::empty());
        proof {
            assert(self.logs_view() =~= Seq::<Seq<char>>::empty());
        }
    }

    /// The arguments, to change them; nothing else of the session changes.
    pub fn args_mut(&mut self) -> (r: &mut Arguments)
        ensures
            *r == old(self).arguments(),
            final(self).arguments() == *final(r),
            final(self).in_use() == old(self).in_use(),
            final(self).avatar_json_view() == old(self).avatar_json_view(),
            final(self).logs_view() == old(self).logs_view(),
            final(self).history() == old(self).history(),
            old(self).wf() ==> final(self).wf(),
    {
        &mut self.args
    }

    /// Starts compiling a declaration of the given kind (1 for S-expressions, 2 for Lua): a
    /// session in use is refused, and an unknown kind is a compile error after the session
    /// has been taken.
    fn begin_compile(&mut self, kind: u32) -> (r: Result<DeclarationFormat, StatusCode>)
        ensures
            final(self).arguments() == old(self).arguments(),
            final(self).history() == old(self).history(),
            final(self).avatar_json_view() == old(self).avatar_json_view(),
            final(self).logs_view() == old(self).logs_view(),
            old(self).in_use() ==> r == Err::<DeclarationFormat, StatusCode>(StatusCode::AlreadyInUse)
                && final(self).in_use(),
            !old(self).in_use() ==> final(self).in_use() && match r {
                Ok(DeclarationFormat::Sexpr(paths)) => kind == 1 && paths@.map_values(
                    |p: String| p@,
                ) == old(self).arguments().library_paths_view(),
                Ok(DeclarationFormat::Lua(paths)) => kind == 2 && paths@.map_values(|p: String| p@)
                    == old(self).arguments().library_paths_view(),
                Err(e) => e == StatusCode::CompileError && kind != 1 && kind != 2,
            },
    {
        if self.in_use {
            return Err(StatusCode::AlreadyInUse);
        } else {
            self.in_use = true;
        }
        if kind == 1 {
            Ok(DeclarationFormat::Sexpr(clone_paths(&self.args.library_paths)))
        } else if kind == 2 {
            Ok(DeclarationFormat::Lua(clone_paths(&self.args.library_paths)))
        } else {
            Err(StatusCode::CompileError)
        }
    }

    /// Finishes a compilation: the avatar's JSON is kept, or the logs' JSON are added and the
    /// compilation is an error.
    fn finish_compile(&mut self, outcome: Result<String, Vec<String>>) -> (r: Result<(), StatusCode>)
        ensures
            final(self).arguments() == old(self).arguments(),
            final(self).history() == old(self).history(),
            final(self).in_use() == old(self).in_use(),
            match outcome {
                Ok(json) => r is Ok && final(self).avatar_json_view() == Some(json@)
                    && final(self).logs_view() == old(self).logs_view(),
                Err(logs) => r == Err::<(), StatusCode>(StatusCode::CompileError)
                    && final(self).avatar_json_view() == old(self).avatar_json_view()
                    && final(self).logs_view() == old(self).logs_view() + logs@.map_values(
                    |s: String| s@,
                ),
            },
    {
        match outcome {
            Ok(json) => {
                self.avatar_json = Some(json);
                Ok(())
            },
            Err(logs) => {
                let ghost before = self.logs_jsons@;
                let ghost added = logs@;
                let mut logs = logs;
                self.logs_jsons.append(&mut logs);
                proof {
                    assert(self.logs_jsons@ =~= before + added);
                    assert(self.logs_view() =~= before.map_values(|s: String| s@) + added.map_values(
                        |s: String| s@,
                    ));
                }
                Err(StatusCode::CompileError)
            },
        }
    }

    /// Compiles a declaration of the given kind (1 for S-expressions, 2 for Lua): a session
    /// in use is refused; otherwise the session is taken, an unknown kind is a compile error,
    /// and `read` is given the format with the library paths and answers with the avatar's
    /// JSON, kept, or the logs' JSON, added as a compile error (see `compile_step`).
    pub fn compile<F: FnOnce(DeclarationFormat) -> Result<String, Vec<String>>>(&mut self, kind: u32, read: F) -> (r:
        Result<(), StatusCode>)
        requires
            old(self).wf(),
            forall|f: DeclarationFormat| call_requires(read, (f,)),
        ensures
            final(self).wf(),
            final(self).arguments() == old(self).arguments(),
            final(self).history().drop_last() == old(self).history(),
            final(self).history().len() == old(self).history().len() + 1,
            final(self).history().last().0 == kind,
            (final(self).session(), r) == compile_step(old(self).session(), kind, final(self).history().last().1),
            !old(self).in_use() && (kind == 1 || kind == 2) ==> exists|o: Result<String, Vec<String>>|
                #[trigger] read_as(read, kind, old(self).arguments().library_paths_view(), o)
                    && read_outcome_view(o) == final(self).history().last().1,
            old(self).history().len() > 0 ==> r == Err::<(), StatusCode>(StatusCode::AlreadyInUse)
                && final(self).session() == old(self).session(),
    {
        let ghost before = self.session();
        let ghost h = self.history@;
        proof {
            if h.len() > 0 {
                lemma_session_compiles_once(h);
                assert(before.0);
            }
        }
        let ghost mut og: Result<String, Vec<String>> = vstd::pervasive::arbitrary();
        let r = match self.begin_compile(kind) {
            Ok(format) => {
                let ghost f = format;
                let outcome = read(format);
                proof {
                    og = outcome;
                    assert(call_ensures(read, (f,), outcome));
                    assert(read_as(read, kind, old(self).arguments().library_paths_view(), outcome));
                }
                let ghost mid = self.session();
                let r = self.finish_compile(outcome);
                proof {
                    let o = og;
                    assert(!before.0 && (kind == 1 || kind == 2));
                    assert(mid == (true, before.1, before.2));
                    match o {
                        Ok(j) => {
                            assert(self.session() == (true, Some(j@), before.2));
                            let u: () = r->Ok_0;
                            assert(r == Ok::<(), StatusCode>(u));
                            assert(read_outcome_view(o) == Ok::<Seq<char>, Seq<Seq<char>>>(j@));
                        },
                        Err(ls) => {
                            assert(self.session().2 == before.2 + ls@.map_values(|l: String| l@));
                            assert(self.session() == (true, before.1, before.2 + ls@.map_values(|l: String| l@)));
                            assert(read_outcome_view(o) == Err::<Seq<char>, Seq<Seq<char>>>(ls@.map_values(|l: String| l@)));
                        },
                    }
                }
                r
            },
            Err(e) => {
                proof {
                    assert(before.0 || (kind != 1 && kind != 2));
                }
                Err(e)
            },
        };
        let ghost o = og;
        self.history = Ghost(self.history@.push((kind, read_outcome_view(o))));
        proof {
            assert(before == old(self).session());
            assert((self.session(), r) == compile_step(old(self).session(), kind, read_outcome_view(o)));
            let hn = self.history@;
            assert(hn.drop_last() =~= h);
            assert(hn.last() == (kind, read_outcome_view(o)));
            assert(self.wf());
            assert(!old(self).in_use() && (kind == 1 || kind == 2) ==> read_as(
                read,
                kind,
                old(self).arguments().library_paths_view(),
                o,
            ));
        }
        r
    }

    /// The compiled avatar as JSON, or `NotCompiled`.
    pub fn avatar_json(&self) -> (r: Result<&str, StatusCode>)
        ensures
            match self.avatar_json_view() {
                Some(json) => r matches Ok(s) && s@ == json,
                None => r == Err::<&str, StatusCode>(StatusCode::NotCompiled),
            },
            self.wf() ==> ({
                let answers = compile_history(fresh_session(), self.history()).1;
                &&& r is Ok <==> exists|i: int| 0 <= i < answers.len() && #[trigger] answers[i] is Ok
                &&& forall|i: int|
                    0 <= i < answers.len() && #[trigger] answers[i] is Ok ==> (r matches Ok(s)
                        && self.history()[i].1 == Ok::<Seq<char>, Seq<Seq<char>>>(s@))
            }),
    {
        proof {
            lemma_avatar_json_exactly_after_success(self.history@);
        }
        match &self.avatar_json {
            Some(json) => Ok(json.as_str()),
            None => Err(StatusCode::NotCompiled),
        }
    }

    /// The logs as JSON, in order.
    pub fn log_jsons(&self) -> (r: &[String])
        ensures
            r@.map_values(|s: String| s@) == self.logs_view(),
    {
        self.logs_jsons.as_slice()
    }
}

fn clone_paths(paths: &Vec<String>) -> (r: Vec<String>)
    ensures
        r@ == paths@,
{
    let mut r: Vec<String> = Vec::new();
    let mut i: usize = 0;
    while i < paths.len()
        invariant
            i <= paths@.len(),
            r@ == paths@.subrange(0, i as int),
        decreases paths@.len() - i,
    {
        let p = paths[i].clone();
        r.push(p);
        proof {
            assert(r@ =~= paths@.subrange(0, i + 1));
        }
        i = i + 1;
    }
    proof {
        assert(paths@.subrange(0, paths@.len() as int) =~= paths@);
    }
    r
}

} // verus!
