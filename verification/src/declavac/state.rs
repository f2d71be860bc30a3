//! The state of a library session: arguments, registered attachment schemas and the last
//! error; and the state of a compilation's outcome.
use vstd::prelude::*;

use crate::arbittach::schema::Attachment as AttachmentSchema;
use crate::avatar_v2::transformer::avatar::{avatar_outcome, avatar_well_formed};
use crate::avatar_v2::data::avatar::Avatar;
use crate::avatar_v2::{transform_outcome, with_schema, TransformResult, Transformer};
use crate::decl_v2::data::DeclAvatar;
use crate::decl_v2::arguments::{with_localization, with_symbol, Arguments};
use crate::declavac::serialization::Jsoned;
use crate::declavac::DeclavatarStatus;
use crate::avatar_v2::logger::{render, LogView, Severity};

verus! {

/// A session: what compilations will be given (arguments, and the attachment schemas
/// registered by name), and the error of the last request.
pub struct DeclavatarState {
    args: Arguments,
    transformer: Transformer,
    last_error: Option<String>,
}

impl DeclavatarState {
    pub closed spec fn arguments(&self) -> Arguments {
        self.args
    }

    /// The registered schemas, one for each name, in the order their names first came.
    pub closed spec fn attachments_view(&self) -> Seq<AttachmentSchema> {
        self.transformer.schemas()
    }

    pub closed spec fn last_error_view(&self) -> Option<Seq<char>> {
        match self.last_error {
            Some(e) => Some(e@),
            None => None,
        }
    }

    pub closed spec fn wf(&self) -> bool {
        self.args.wf() && self.transformer.wf()
    }

    pub fn new() -> (r: DeclavatarState)
        ensures
            r.wf(),
            r.arguments().library_paths_view().len() == 0,
            r.arguments().symbols_view().len() == 0,
            r.arguments().localizations_view().len() == 0,
            r.attachments_view().len() == 0,
            r.last_error_view() is None,
    {
        DeclavatarState { args: Arguments::new(), transformer: Transformer::new(), last_error: None }
    }

    /// The error of the last request, if it failed.
    pub fn last_error(&self) -> (r: (Option<&str>, DeclavatarStatus))
        ensures
            r.1 == DeclavatarStatus::Success,
            match self.last_error_view() {
                Some(e) => r.0 matches Some(s) && s@ == e,
                None => r.0 is None,
            },
    {
        match &self.last_error {
            Some(e) => (Some(e.as_str()), DeclavatarStatus::Success),
            None => (None, DeclavatarStatus::Success),
        }
    }

    /// Forgets the arguments and schemas.
    pub fn clear(&mut self) -> (r: DeclavatarStatus)
        ensures
            r == DeclavatarStatus::Success,
            final(self).wf(),
            final(self).arguments().library_paths_view().len() == 0,
            final(self).arguments().symbols_view().len() == 0,
            final(self).arguments().localizations_view().len() == 0,
            final(self).attachments_view().len() == 0,
            final(self).last_error_view() is None,
    {
        self.args.clear();
        self.transformer = Transformer::new();
        self.last_error = None;
        DeclavatarStatus::Success
    }

    pub fn add_library_path(&mut self, path: &str) -> (r: DeclavatarStatus)
        requires
            old(self).wf(),
        ensures
            r == DeclavatarStatus::Success,
            final(self).wf(),
            final(self).arguments().library_paths_view() == old(
                self,
            ).arguments().library_paths_view().push(path@),
            final(self).arguments().symbols_view() == old(self).arguments().symbols_view(),
            final(self).arguments().localizations_view() == old(
                self,
            ).arguments().localizations_view(),
            final(self).attachments_view() == old(self).attachments_view(),
            final(self).last_error_view() is None,
    {
        self.args.add_library_path(path);
        self.last_error = None;
        DeclavatarStatus::Success
    }

    pub fn define_symbol(&mut self, symbol: &str) -> (r: DeclavatarStatus)
        requires
            old(self).wf(),
        ensures
            r == DeclavatarStatus::Success,
            final(self).wf(),
            final(self).arguments().symbols_view() == with_symbol(
                old(self).arguments().symbols_view(),
                symbol@,
            ),
            final(self).arguments().library_paths_view() == old(
                self,
            ).arguments().library_paths_view(),
            final(self).arguments().localizations_view() == old(
                self,
            ).arguments().localizations_view(),
            final(self).attachments_view() == old(self).attachments_view(),
            final(self).last_error_view() is None,
    {
        self.args.define_symbol(symbol);
        self.last_error = None;
        DeclavatarStatus::Success
    }

    pub fn define_localization(&mut self, key: &str, value: &str) -> (r: DeclavatarStatus)
        requires
            old(self).wf(),
        ensures
            r == DeclavatarStatus::Success,
            final(self).wf(),
            final(self).arguments().localizations_view() == with_localization(
                old(self).arguments().localizations_view(),
                key@,
                value@,
            ),
            final(self).arguments().library_paths_view() == old(
                self,
            ).arguments().library_paths_view(),
            final(self).arguments().symbols_view() == old(self).arguments().symbols_view(),
            final(self).attachments_view() == old(self).attachments_view(),
            final(self).last_error_view() is None,
    {
        self.args.define_localization(key, value);
        self.last_error = None;
        DeclavatarStatus::Success
    }

    /// Registers a schema that has been read from JSON, replacing one of the same name; a
    /// reading error is kept as the last error and answered with `JsonError`.
    pub fn add_attachment(&mut self, parsed: Result<AttachmentSchema, String>) -> (r: DeclavatarStatus)
        requires
            old(self).wf(),
        ensures
            final(self).arguments() == old(self).arguments(),
            final(self).wf(),
            match parsed {
                Ok(schema) => r == DeclavatarStatus::Success && final(self).attachments_view()
                    == with_schema(old(self).attachments_view(), schema) && final(self).last_error_view() is None,
                Err(e) => r == DeclavatarStatus::JsonError && final(self).attachments_view() == old(
                    self,
                ).attachments_view() && final(self).last_error_view() == Some(e@),
            },
    {
        match parsed {
            Ok(schema) => {
                self.transformer.register_arbittach_schema(schema);
                self.last_error = None;
                DeclavatarStatus::Success
            },
            Err(e) => {
                self.last_error = Some(e);
                DeclavatarStatus::JsonError
            },
        }
    }

    /// Compiles a declaration that has been read, with the registered schemas, into a compiled
    /// state: a reading error is `CompileError` with no avatar and that error as the one log;
    /// otherwise `Success`, with the avatar's JSON exactly when the transformer gave an avatar,
    /// and one log for each log of the transformer, in order. `avatar_json` and `log_json`
    /// serialize what they are given; the session itself does not change.
    pub fn compile<A, L, FA, FL>(&self, parsed: Result<DeclAvatar, String>, avatar_json: FA, log_json: FL) -> (r: (
        CompiledState<A, L>,
        DeclavatarStatus,
    )) where FA: Fn(Avatar) -> Jsoned<A>, FL: Fn(CompileLog) -> Jsoned<L>
        requires
            self.wf(),
            parsed matches Ok(a) ==> avatar_well_formed(a),
            forall|a: Avatar| call_requires(avatar_json, (a,)),
            forall|l: CompileLog| call_requires(log_json, (l,)),
        ensures
            match parsed {
                Ok(a) => r.1 == DeclavatarStatus::Success && exists|t: TransformResult|
                    #[trigger] transform_outcome(a, self.attachments_view(), t) && assembled(t, avatar_json, log_json, r.0),
                Err(e) => r.1 == DeclavatarStatus::CompileError && r.0.avatar_view() is None
                    && r.0.logs_view().len() == 1 && exists|j: Jsoned<L>|
                    #[trigger] call_ensures(log_json, (CompileLog::Reading(e),), j) && r.0.logs_view()[0]
                        == j.json_view(),
            },
    {
        match parsed {
            Ok(avatar) => {
                let t = self.transformer.transform_avatar(avatar);
                let ghost tg = t;
                proof {
                    assert(transform_outcome(avatar, self.attachments_view(), tg));
                }
                let TransformResult { avatar: compiled, logs } = t;
                let avatar_part = match compiled {
                    Some(av) => {
                        let ghost ag = av;
                        let j = avatar_json(av);
                        proof {
                            assert(tg.avatar == Some(ag));
                            assert(call_ensures(avatar_json, (ag,), j));
                        }
                        Some(j)
                    },
                    None => None,
                };
                let mut rest = logs;
                let mut jsons: Vec<Jsoned<L>> = Vec::new();
                while rest.len() > 0
                    invariant
                        forall|l: CompileLog| call_requires(log_json, (l,)),
                        jsons@.len() + rest@.len() == tg.logs@.len(),
                        rest@ == tg.logs@.subrange(jsons@.len() as int, tg.logs@.len() as int),
                        forall|i: int|
                            0 <= i < jsons@.len() ==> #[trigger] call_ensures(
                                log_json,
                                (CompileLog::Transform(tg.logs@[i].0, tg.logs@[i].1, tg.logs@[i].2),),
                                jsons@[i],
                            ),
                    decreases rest@.len(),
                {
                    let ghost k: int = jsons@.len() as int;
                    let (severity, message, value) = rest.remove(0);
                    proof {
                        assert(tg.logs@[k] == (severity, message, value));
                        assert(rest@ =~= tg.logs@.subrange(k + 1, tg.logs@.len() as int));
                    }
                    let j = log_json(CompileLog::Transform(severity, message, value));
                    jsons.push(j);
                }
                let r = CompiledState { avatar: avatar_part, logs: jsons };
                proof {
                    assert(jsons@.len() == tg.logs@.len());
                    assert forall|i: int|
                        #![trigger tg.logs@[i]]
                        0 <= i < tg.logs@.len() implies exists|j: Jsoned<L>|
                            #[trigger] call_ensures(log_json, (CompileLog::Transform(tg.logs@[i].0, tg.logs@[i].1, tg.logs@[i].2),), j)
                                && r.logs_view()[i] == j.json_view() by {
                        assert(call_ensures(log_json, (CompileLog::Transform(tg.logs@[i].0, tg.logs@[i].1, tg.logs@[i].2),), jsons@[i]));
                        assert(r.logs_view()[i] == jsons@[i].json_view());
                    }
                    match tg.avatar {
                        Some(av) => {
                            let j = avatar_part->0;
                            assert(call_ensures(avatar_json, (av,), j));
                            assert(r.avatar_view() == Some(j.json_view()));
                        },
                        None => {},
                    }
                    assert(assembled(tg, avatar_json, log_json, r));
                }
                (r, DeclavatarStatus::Success)
            },
            Err(e) => {
                let ghost eg = e;
                let j = log_json(CompileLog::Reading(e));
                let mut logs: Vec<Jsoned<L>> = Vec::new();
                logs.push(j);
                let r = CompiledState { avatar: None, logs };
                proof {
                    assert(r.logs_view()[0] == j.json_view());
                    assert(call_ensures(log_json, (CompileLog::Reading(eg),), j));
                }
                (r, DeclavatarStatus::CompileError)
            },
        }
    }
}

/// A log of a compilation, handed out to be serialized: the error of reading the
/// declaration, or a log of the transformer with its severity, its message, and the float
/// (as IEEE-754 bits) that ends the message where it ends with one.
pub enum CompileLog {
    Reading(String),
    Transform(Severity, String, Option<u64>),
}

/// Whether `c` holds the avatar of `t` serialized by `avatar_json`, exactly when there is one,
/// and each log of `t`, in order, serialized by `log_json`.
pub open spec fn assembled<A, L, FA: Fn(Avatar) -> Jsoned<A>, FL: Fn(CompileLog) -> Jsoned<L>>(
    t: TransformResult,
    avatar_json: FA,
    log_json: FL,
    c: CompiledState<A, L>,
) -> bool {
    &&& match t.avatar {
        Some(av) => exists|j: Jsoned<A>| #[trigger] call_ensures(avatar_json, (av,), j) && c.avatar_view() == Some(j.json_view()),
        None => c.avatar_view() is None,
    }
    &&& c.logs_view().len() == t.logs@.len()
    &&& forall|i: int|
        #![trigger t.logs@[i]]
        0 <= i < t.logs@.len() ==> exists|j: Jsoned<L>|
            #[trigger] call_ensures(log_json, (CompileLog::Transform(t.logs@[i].0, t.logs@[i].1, t.logs@[i].2),), j)
                && c.logs_view()[i] == j.json_view()
}

/// The outcome of a compilation: the avatar if one came out, and the logs, each with its JSON.
#[derive(Debug)]
pub struct CompiledState<A, L> {
    avatar: Option<Jsoned<A>>,
    logs: Vec<Jsoned<L>>,
}

impl<A, L> CompiledState<A, L> {
    pub closed spec fn avatar_view(&self) -> Option<Seq<char>> {
        match self.avatar {
            Some(a) => Some(a.json_view()),
            None => None,
        }
    }

    pub closed spec fn logs_view(&self) -> Seq<Seq<char>> {
        self.logs@.map_values(|l: Jsoned<L>| l.json_view())
    }

    pub fn new(avatar: Option<Jsoned<A>>, logs: Vec<Jsoned<L>>) -> (r: CompiledState<A, L>)
        ensures
            r.avatar_view() == match avatar {
                Some(a) => Some(a.json_view()),
                None => None,
            },
            r.logs_view() == logs@.map_values(|l: Jsoned<L>| l.json_view()),
    {
        CompiledState { avatar, logs }
    }

    /// The avatar's JSON, if an avatar came out.
    pub fn avatar_json(&self) -> (r: Option<&str>)
        ensures
            match self.avatar_view() {
                Some(j) => r matches Some(s) && s@ == j,
                None => r is None,
            },
    {
        match &self.avatar {
            Some(a) => a.json(),
            None => None,
        }
    }

    pub fn logs_len(&self) -> (r: usize)
        ensures
            r == self.logs_view().len(),
    {
        self.logs.len()
    }

    /// The JSON of the log at `index`, if there is one.
    pub fn log_json(&self, index: usize) -> (r: Option<&str>)
        ensures
            index < self.logs_view().len() ==> (r matches Some(s) && s@ == self.logs_view()[index as int]),
            index >= self.logs_view().len() ==> r is None,
    {
        if index < self.logs.len() {
            self.logs[index].json()
        } else {
            None
        }
    }
}

} // verus!
