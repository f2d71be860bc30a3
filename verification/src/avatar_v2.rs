//! The second format: attachment schemas registered by name, and avatars compiled with them.
pub mod data;
pub mod logger;
pub mod transformer;

use vstd::prelude::*;

use crate::arbittach::schema::Attachment as AttachmentSchema;
use crate::avatar_v2::data::avatar::Avatar;
use crate::avatar_v2::logger::{entries_view, entry_message, message_view, LogEntry, LogView, Logger, Severity};
use crate::avatar_v2::transformer::avatar::{avatar_outcome, avatar_well_formed, compile_avatar};
use crate::avatar_v2::transformer::attachment::schema_named;
use crate::decl_v2::data::DeclAvatar;
use crate::lookup::{first_match, lemma_first_match_found};

verus! {

pub open spec fn schema_names(schemas: Seq<AttachmentSchema>) -> Seq<Seq<char>> {
    schemas.map_values(|s: AttachmentSchema| s.name@)
}

/// The schemas with `schema` registered: it replaces the schema of the same name in its
/// place, or comes last.
pub open spec fn with_schema(schemas: Seq<AttachmentSchema>, schema: AttachmentSchema) -> Seq<AttachmentSchema> {
    if schema_names(schemas).contains(schema.name@) {
        let i = choose|i: int| 0 <= i < schemas.len() && (#[trigger] schemas[i]).name@ == schema.name@;
        schemas.update(i, schema)
    } else {
        schemas.push(schema)
    }
}

/// After a schema is registered, looking its name up finds that schema, provided no name was
/// registered twice before.
pub proof fn lemma_registered_schema_found(schemas: Seq<AttachmentSchema>, schema: AttachmentSchema)
    requires
        forall|i: int, j: int| 0 <= i < j < schemas.len() ==> (#[trigger] schemas[i]).name@ != (#[trigger] schemas[j]).name@,
    ensures
        first_match(with_schema(schemas, schema), schema_named(schema.name@)) matches Some(k)
            && with_schema(schemas, schema)[k] == schema,
{
    let r = with_schema(schemas, schema);
    let p = schema_named(schema.name@);
    if schema_names(schemas).contains(schema.name@) {
        let i = choose|i: int| 0 <= i < schemas.len() && (#[trigger] schemas[i]).name@ == schema.name@;
        assert forall|j: int| 0 <= j < i implies !p(#[trigger] r[j]) by {
            assert(schemas[j].name@ != schemas[i].name@);
        }
        lemma_first_match_found(r, p, i);
    } else {
        let n = schemas.len() as int;
        assert forall|j: int| 0 <= j < n implies !p(#[trigger] r[j]) by {
            assert(schema_names(schemas)[j] == schemas[j].name@);
        }
        lemma_first_match_found(r, p, n);
    }
}

/// Compiles avatars with the attachment schemas registered so far; a name is registered at
/// most once.
pub struct Transformer {
    arbittach_schemas: Vec<AttachmentSchema>,
}

/// The avatar, if it compiled, and every log with its severity and message.
pub struct TransformResult {
    pub avatar: Option<Avatar>,
    /// Each log as its severity, its message inside its contexts, and the float that ends the
    /// message where it ends with one (as IEEE-754 bits, for the caller to write).
    pub logs: Vec<(Severity, String, Option<u64>)>,
}

/// Whether `logs` are `entries` written out, one for one (see `entry_message`).
pub open spec fn written_from(entries: Seq<LogEntry>, logs: Seq<(Severity, String, Option<u64>)>) -> bool {
    &&& logs.len() == entries.len()
    &&& forall|i: int| 0 <= i < logs.len() ==> message_view(#[trigger] logs[i]) == entry_message(entries[i])
}

/// What transforming `d` with `schemas` gives: the avatar that `compile_avatar` gives on a
/// fresh logger, and every log it recorded, written out in order.
pub open spec fn transform_outcome(d: DeclAvatar, schemas: Seq<AttachmentSchema>, r: TransformResult) -> bool {
    exists|entries: Seq<LogEntry>|
        #[trigger] avatar_outcome(d, schemas, Seq::empty(), Seq::empty(), entries_view(entries), r.avatar)
            && written_from(entries, r.logs@)
}

impl Transformer {
    /// The registered schemas, in the order their names were first registered.
    pub closed spec fn schemas(&self) -> Seq<AttachmentSchema> {
        self.arbittach_schemas@
    }

    /// No name is registered twice.
    pub open spec fn wf(&self) -> bool {
        forall|i: int, j: int|
            0 <= i < j < self.schemas().len() ==> (#[trigger] self.schemas()[i]).name@ != (
            #[trigger] self.schemas()[j]).name@
    }

    pub fn new() -> (r: Transformer)
        ensures
            r.wf(),
            r.schemas().len() == 0,
    {
        Transformer { arbittach_schemas: Vec::new() }
    }

    /// Registers a schema under its name, replacing one registered under the same name.
    #[verifier::loop_isolation(false)]
    pub fn register_arbittach_schema(&mut self, schema: AttachmentSchema)
        requires
            old(self).wf(),
        ensures
            final(self).wf(),
            final(self).schemas() == with_schema(old(self).schemas(), schema),
    {
        let ghost before = self.arbittach_schemas@;
        let mut i: usize = 0;
        while i < self.arbittach_schemas.len()
            invariant
                i <= self.arbittach_schemas@.len(),
                self.arbittach_schemas@ == before,
                forall|j: int| 0 <= j < i ==> (#[trigger] before[j]).name@ != schema.name@,
            decreases self.arbittach_schemas@.len() - i,
        {
            if crate::avatar::transformer::dependencies::str_equal(
                self.arbittach_schemas[i].name.as_str(),
                schema.name.as_str(),
            ) {
                proof {
                    assert(schema_names(before)[i as int] == schema.name@);
                    assert(schema_names(before).contains(schema.name@));
                    let c = choose|c: int| 0 <= c < before.len() && (#[trigger] before[c]).name@ == schema.name@;
                    if c != i {
                        if c < i {
                            assert(before[c].name@ != schema.name@);
                        } else {
                            assert(old(self).schemas()[i as int].name@ != old(self).schemas()[c].name@);
                        }
                    }
                }
                self.arbittach_schemas.set(i, schema);
                proof {
                    assert forall|a: int, b: int| 0 <= a < b < self.schemas().len() implies (
                    #[trigger] self.schemas()[a]).name@ != (#[trigger] self.schemas()[b]).name@ by {
                        assert(self.schemas()[a].name@ == old(self).schemas()[a].name@);
                        assert(self.schemas()[b].name@ == old(self).schemas()[b].name@);
                    }
                }
                return;
            }
            i = i + 1;
        }
        proof {
            assert forall|k: int| 0 <= k < before.len() implies schema_names(before)[k] != schema.name@ by {}
        }
        self.arbittach_schemas.push(schema);
        proof {
            assert forall|a: int, b: int| 0 <= a < b < self.schemas().len() implies (
            #[trigger] self.schemas()[a]).name@ != (#[trigger] self.schemas()[b]).name@ by {
                if b < before.len() {
                    assert(old(self).schemas()[a].name@ != old(self).schemas()[b].name@);
                } else {
                    assert(before[a].name@ != schema.name@);
                }
            }
        }
    }

    /// Compiles an avatar with the registered schemas (see `compile_avatar`) on a fresh
    /// logger, and hands back every log it recorded.
    pub fn transform_avatar(&self, avatar: DeclAvatar) -> (r: TransformResult)
        requires
            avatar_well_formed(avatar),
        ensures
            transform_outcome(avatar, self.schemas(), r),
    {
        let ghost d = avatar;
        let mut logger = Logger::new();
        proof {
            assert(logger.log_view() =~= Seq::<LogView>::empty());
            assert(logger.open_contexts() =~= Seq::<Seq<char>>::empty());
        }
        let avatar = compile_avatar(&mut logger, avatar, &self.arbittach_schemas);
        let logs = logger.logs();
        proof {
            let entries = logger.entries();
            assert(avatar_outcome(d, self.schemas(), Seq::empty(), Seq::empty(), entries_view(entries), avatar));
            let r = TransformResult { avatar, logs };
            assert(transform_outcome(d, self.schemas(), r) ) by {
                assert(written_from(entries, r.logs@));
            }
        }
        TransformResult { avatar, logs }
    }
}

} // verus!
