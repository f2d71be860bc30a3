//! Compiles parameter drivers.
use vstd::prelude::*;

use crate::avatar::data::{
    same_kind, AnimationGroup, AnimationGroupContent, Driver, DriverGroup, GroupOption, ParameterScope,
    ParameterType,
};
use crate::avatar::transformer::{
    dependencies::{
        error_entry, group_names, str_equal, typed_lookup, untyped_lookup, AnimationGroupFilterExt,
        AnimationsView, CompiledAnimations,
    },
    failure, success, Compiled, Context, LogKind, LogLevel,
};
use crate::decl::data::{Drive as DeclDrive, DriveTarget as DeclDriveTarget, Drivers as DeclDrivers};
use crate::lookup::{first_index_of, lemma_first_index_absent, lemma_first_index_found};

verus! {

/// The content of a driver.
pub enum DriverView {
    SetInt(Seq<char>, u8),
    SetFloat(Seq<char>, u64),
    SetBool(Seq<char>, bool),
    AddInt(Seq<char>, u8),
    AddFloat(Seq<char>, u64),
    RandomInt(Seq<char>, (u8, u8)),
    RandomFloat(Seq<char>, (u64, u64)),
    RandomBool(Seq<char>, u64),
    Copy(Seq<char>, Seq<char>),
    RangedCopy(Seq<char>, Seq<char>, (u64, u64), (u64, u64)),
}

pub open spec fn driver_view(d: Driver) -> DriverView {
    match d {
        Driver::SetInt(p, v) => DriverView::SetInt(p@, v),
        Driver::SetFloat(p, v) => DriverView::SetFloat(p@, v),
        Driver::SetBool(p, v) => DriverView::SetBool(p@, v),
        Driver::AddInt(p, v) => DriverView::AddInt(p@, v),
        Driver::AddFloat(p, v) => DriverView::AddFloat(p@, v),
        Driver::RandomInt(p, r) => DriverView::RandomInt(p@, r),
        Driver::RandomFloat(p, r) => DriverView::RandomFloat(p@, r),
        Driver::RandomBool(p, c) => DriverView::RandomBool(p@, c),
        Driver::Copy(f, t) => DriverView::Copy(f@, t@),
        Driver::RangedCopy(f, t, a, b) => DriverView::RangedCopy(f@, t@, a, b),
    }
}

pub open spec fn option_names(options: Seq<GroupOption>) -> Seq<Seq<char>> {
    options.map_values(|o: GroupOption| o.name@)
}

/// The largest option order of a group, or 1 for a group without options.
pub open spec fn max_order(options: Seq<GroupOption>) -> usize
    decreases options.len(),
{
    if options.len() == 0 {
        1
    } else if options.len() == 1 {
        options[0].order
    } else {
        let rest = max_order(options.drop_last());
        if options.last().order > rest {
            options.last().order
        } else {
            rest
        }
    }
}

/// What a driver yields and what it logs.
pub type DriveOutcome = (Option<DriverView>, Seq<(LogLevel, Seq<char>)>);

pub open spec fn failed_with(text: Seq<char>) -> DriveOutcome {
    (None, seq![error_entry(text)])
}

/// Resolves a selection group by name, checks its int parameter, and continues with `then`
/// on the group's parameter and options.
pub open spec fn with_group(
    anims: AnimationsView,
    group_name: Seq<char>,
    then: spec_fn(Seq<char>, Seq<GroupOption>) -> DriveOutcome,
) -> DriveOutcome {
    match first_index_of(group_names(anims.2), group_name) {
        None => failed_with("animation group '"@ + group_name + "' not found"@),
        Some(gi) => {
            let group = anims.2[gi];
            match group.content {
                AnimationGroupContent::Group { parameter, options, .. } => match typed_lookup(
                    anims.0,
                    parameter@,
                    ParameterType::Int(0),
                    ParameterScope::Internal,
                ) {
                    Err(t) => failed_with(t),
                    Ok(_) => then(parameter@, options@),
                },
                _ => failed_with("group '"@ + group.name@ + "' must be group block"@),
            }
        },
    }
}

/// Checks a parameter's type and continues with the driver it makes.
pub open spec fn with_parameter(
    anims: AnimationsView,
    name: Seq<char>,
    ty: ParameterType,
    driver: DriverView,
) -> DriveOutcome {
    match typed_lookup(anims.0, name, ty, ParameterScope::Internal) {
        Err(t) => failed_with(t),
        Ok(_) => (Some(driver), seq![]),
    }
}

/// The outcome of compiling one drive of the driver group `driver_name`.
pub open spec fn drive_spec(anims: AnimationsView, driver_name: Seq<char>, d: DeclDrive) -> DriveOutcome {
    match d {
        DeclDrive::Assign(target) => match target {
            DeclDriveTarget::Group { name, option } => match option {
                None => failed_with("driver option '"@ + driver_name + "' not specified"@),
                Some(option_name) => with_group(
                    anims,
                    name@,
                    |parameter: Seq<char>, options: Seq<GroupOption>|
                        match first_index_of(option_names(options), option_name@) {
                            None => failed_with(
                                "group '"@ + name@ + "', option '"@ + option_name@ + "' not found"@,
                            ),
                            Some(oi) => (
                                Some(DriverView::SetInt(parameter, options[oi].order as u8)),
                                seq![],
                            ),
                        },
                ),
            },
            DeclDriveTarget::IntParameter { name, value } => with_parameter(
                anims,
                name@,
                ParameterType::Int(0),
                DriverView::SetInt(name@, value),
            ),
            DeclDriveTarget::FloatParameter { name, value } => with_parameter(
                anims,
                name@,
                ParameterType::Float(0),
                DriverView::SetFloat(name@, value),
            ),
            DeclDriveTarget::BoolParameter { name, value } => with_parameter(
                anims,
                name@,
                ParameterType::Bool(false),
                DriverView::SetBool(name@, value),
            ),
        },
        DeclDrive::Add(target) => match target {
            DeclDriveTarget::IntParameter { name, value } => with_parameter(
                anims,
                name@,
                ParameterType::Int(0),
                DriverView::AddInt(name@, value),
            ),
            DeclDriveTarget::FloatParameter { name, value } => with_parameter(
                anims,
                name@,
                ParameterType::Float(0),
                DriverView::AddFloat(name@, value),
            ),
            _ => failed_with("driver '"@ + driver_name + "' has invalid add target"@),
        },
        DeclDrive::Random { group, parameter, chance, range } => match (group, parameter, chance, range) {
            (Some(g), None, None, (None, None)) => with_group(
                anims,
                g@,
                |parameter: Seq<char>, options: Seq<GroupOption>|
                    (Some(DriverView::RandomInt(parameter, (1, max_order(options) as u8))), seq![]),
            ),
            (None, Some(p), Some(c), (None, None)) => with_parameter(
                anims,
                p@,
                ParameterType::Bool(false),
                DriverView::RandomBool(p@, c),
            ),
            (None, Some(p), None, (Some(min), Some(max))) => with_parameter(
                anims,
                p@,
                ParameterType::Float(0),
                DriverView::RandomFloat(p@, (min, max)),
            ),
            _ => failed_with("driver '"@ + driver_name + "' has invalid random target specification"@),
        },
        DeclDrive::Copy { from, to, from_range, to_range } => match untyped_lookup(
            anims.0,
            from@,
            ParameterScope::Internal,
        ) {
            Err(t) => failed_with(t),
            Ok(fi) => match untyped_lookup(anims.0, to@, ParameterScope::Internal) {
                Err(t) => failed_with(t),
                Ok(ti) => if !same_kind(
                    anims.0[fi].value_type,
                    anims.0[ti].value_type,
                ) {
                    failed_with(
                        "driver option '"@ + driver_name + "' has copy target; parameters '"@ + from@
                            + "' and '"@ + to@ + "' have different type"@,
                    )
                } else {
                    match (from_range, to_range) {
                        ((Some(a), Some(b)), (Some(c), Some(d))) => (
                            Some(DriverView::RangedCopy(from@, to@, (a, b), (c, d))),
                            seq![],
                        ),
                        ((None, None), (None, None)) => (Some(DriverView::Copy(from@, to@)), seq![]),
                        _ => failed_with("driver option '"@ + driver_name + "' has invalid copy target"@),
                    }
                },
            },
        },
    }
}

fn find_option<'a>(options: &'a [GroupOption], name: &str) -> (r: Option<&'a GroupOption>)
    ensures
        match first_index_of(option_names(options@), name@) {
            Some(i) => r == Some(&options@[i]),
            None => r is None,
        },
{
    let mut i: usize = 0;
    while i < options.len()
        invariant
            i <= options@.len(),
            forall|j: int| 0 <= j < i ==> option_names(options@)[j] != name@,
        decreases options@.len() - i,
    {
        if str_equal(options[i].name.as_str(), name) {
            proof {
                lemma_first_index_found(option_names(options@), name@, i as int);
            }
            return Some(&options[i]);
        }
        i = i + 1;
    }
    proof {
        lemma_first_index_absent(option_names(options@), name@);
    }
    None
}

fn max_option_order(options: &[GroupOption]) -> (r: usize)
    ensures
        r == max_order(options@),
{
    if options.len() == 0 {
        return 1;
    }
    let mut max = options[0].order;
    let mut i: usize = 1;
    while i < options.len()
        invariant
            1 <= i <= options@.len(),
            max == max_order(options@.subrange(0, i as int)),
        decreases options@.len() - i,
    {
        let ghost prefix = options@.subrange(0, i + 1);
        proof {
            assert(prefix.drop_last() =~= options@.subrange(0, i as int));
            assert(prefix.last() == options@[i as int]);
        }
        if options[i].order > max {
            max = options[i].order;
        }
        i = i + 1;
    }
    proof {
        assert(options@.subrange(0, options@.len() as int) =~= options@);
    }
    max
}

/// Compiles one drive of the driver group `driver_name`; on failure exactly one error is logged.
pub fn compile_driver(
    ctx: &mut Context,
    animations: &CompiledAnimations,
    driver_name: &str,
    decl_drive: DeclDrive,
) -> (r: Compiled<Driver>)
    requires
        old(ctx).wf(),
    ensures
        final(ctx).wf(),
        ({
            let (d, logs) = drive_spec(animations@, driver_name@, decl_drive);
            &&& match d {
                Some(v) => r is Some && driver_view(r->0) == v,
                None => r is None,
            }
            &&& final(ctx).logs_view() == old(ctx).logs_view() + logs
        }),
{
    let sources = animations.sources();
    let ghost old_logs = ctx.logs_view();
    proof {
        assert(old_logs + seq![] =~= old_logs);
    }
    match decl_drive {
        DeclDrive::Assign(dt) => match dt {
            DeclDriveTarget::Group { name: group_name, option } => {
                let option_name = match option {
                    Some(o) => o,
                    None => {
                        ctx.log_error(LogKind::DriverOptionNotSpecified(String::from_str(driver_name)));
                        return failure();
                    },
                };
                let group = match animations.find_animation_group(ctx, group_name.as_str()) {
                    Some(g) => g,
                    None => {
                        return failure();
                    },
                };
                let (parameter, options) = match group.ensure_group(ctx) {
                    Some(po) => po,
                    None => {
                        return failure();
                    },
                };
                match sources.find_parameter(
                    ctx,
                    parameter,
                    ParameterType::Int(0),
                    ParameterScope::Internal,
                ) {
                    Some(_) => {},
                    None => {
                        return failure();
                    },
                }
                let option = match find_option(options, option_name.as_str()) {
                    Some(o) => o,
                    None => {
                        ctx.log_error(
                            LogKind::AnimationGroupOptionNotFound(group_name, option_name),
                        );
                        return failure();
                    },
                };
                success(Driver::SetInt(String::from_str(parameter), option.order as u8))
            },
            DeclDriveTarget::IntParameter { name, value } => {
                match sources.find_parameter(
                    ctx,
                    name.as_str(),
                    ParameterType::Int(0),
                    ParameterScope::Internal,
                ) {
                    Some(_) => success(Driver::SetInt(name, value)),
                    None => failure(),
                }
            },
            DeclDriveTarget::FloatParameter { name, value } => {
                match sources.find_parameter(
                    ctx,
                    name.as_str(),
                    ParameterType::Float(0),
                    ParameterScope::Internal,
                ) {
                    Some(_) => success(Driver::SetFloat(name, value)),
                    None => failure(),
                }
            },
            DeclDriveTarget::BoolParameter { name, value } => {
                match sources.find_parameter(
                    ctx,
                    name.as_str(),
                    ParameterType::Bool(false),
                    ParameterScope::Internal,
                ) {
                    Some(_) => success(Driver::SetBool(name, value)),
                    None => failure(),
                }
            },
        },
        DeclDrive::Add(dt) => match dt {
            DeclDriveTarget::IntParameter { name, value } => {
                match sources.find_parameter(
                    ctx,
                    name.as_str(),
                    ParameterType::Int(0),
                    ParameterScope::Internal,
                ) {
                    Some(_) => success(Driver::AddInt(name, value)),
                    None => failure(),
                }
            },
            DeclDriveTarget::FloatParameter { name, value } => {
                match sources.find_parameter(
                    ctx,
                    name.as_str(),
                    ParameterType::Float(0),
                    ParameterScope::Internal,
                ) {
                    Some(_) => success(Driver::AddFloat(name, value)),
                    None => failure(),
                }
            },
            _ => {
                ctx.log_error(LogKind::DriverInvalidAddTarget(String::from_str(driver_name)));
                failure()
            },
        },
        DeclDrive::Random { group, parameter, chance, range } => match (group, parameter, chance, range) {
            (Some(group_name), None, None, (None, None)) => {
                let group = match animations.find_animation_group(ctx, group_name.as_str()) {
                    Some(g) => g,
                    None => {
                        return failure();
                    },
                };
                let (parameter, options) = match group.ensure_group(ctx) {
                    Some(po) => po,
                    None => {
                        return failure();
                    },
                };
                match sources.find_parameter(
                    ctx,
                    parameter,
                    ParameterType::Int(0),
                    ParameterScope::Internal,
                ) {
                    Some(_) => {},
                    None => {
                        return failure();
                    },
                }
                let max_index = max_option_order(options);
                success(Driver::RandomInt(String::from_str(parameter), (1, max_index as u8)))
            },
            (None, Some(param), Some(chance), (None, None)) => {
                match sources.find_parameter(
                    ctx,
                    param.as_str(),
                    ParameterType::Bool(false),
                    ParameterScope::Internal,
                ) {
                    Some(_) => success(Driver::RandomBool(param, chance)),
                    None => failure(),
                }
            },
            (None, Some(param), None, (Some(min), Some(max))) => {
                match sources.find_parameter(
                    ctx,
                    param.as_str(),
                    ParameterType::Float(0),
                    ParameterScope::Internal,
                ) {
                    Some(_) => success(Driver::RandomFloat(param, (min, max))),
                    None => failure(),
                }
            },
            _ => {
                ctx.log_error(
                    LogKind::DriverInvalidRandomSpecification(String::from_str(driver_name)),
                );
                failure()
            },
        },
        DeclDrive::Copy { from, to, from_range, to_range } => {
            let from_parameter = match sources.find_parameter_untyped(
                ctx,
                from.as_str(),
                ParameterScope::Internal,
            ) {
                Some(p) => p,
                None => {
                    return failure();
                },
            };
            let to_parameter = match sources.find_parameter_untyped(
                ctx,
                to.as_str(),
                ParameterScope::Internal,
            ) {
                Some(p) => p,
                None => {
                    return failure();
                },
            };
            if !from_parameter.value_type.matches(to_parameter.value_type) {
                ctx.log_error(LogKind::DriverCopyMismatch(String::from_str(driver_name), (from, to)));
                return failure();
            }
            match (from_range, to_range) {
                ((Some(from_min), Some(from_max)), (Some(to_min), Some(to_max))) => success(
                    Driver::RangedCopy(from, to, (from_min, from_max), (to_min, to_max)),
                ),
                ((None, None), (None, None)) => success(Driver::Copy(from, to)),
                _ => {
                    ctx.log_error(LogKind::DriverInvalidCopyTarget(String::from_str(driver_name)));
                    failure()
                },
            }
        },
    }
}

} // verus!

verus! {

/// A driver group as its name, locality and drivers.
pub open spec fn driver_group_view(g: DriverGroup) -> (Seq<char>, bool, Seq<DriverView>) {
    (g.name@, g.local, g.drivers@.map_values(|d: Driver| driver_view(d)))
}

pub type DriversAcc = (Seq<DriverView>, Seq<(LogLevel, Seq<char>)>);

pub open spec fn drives_fold(anims: AnimationsView, driver_name: Seq<char>, acc: DriversAcc, drives: Seq<DeclDrive>) -> DriversAcc
    decreases drives.len(),
{
    if drives.len() == 0 {
        acc
    } else {
        let (d, logs) = drive_spec(anims, driver_name, drives[0]);
        let drivers = match d {
            Some(v) => acc.0.push(v),
            None => acc.0,
        };
        drives_fold(anims, driver_name, (drivers, acc.1 + logs), drives.drop_first())
    }
}

pub type GroupsAcc = (Seq<(Seq<char>, bool, Seq<DriverView>)>, Seq<(LogLevel, Seq<char>)>);

pub open spec fn driver_blocks_fold(anims: AnimationsView, acc: GroupsAcc, groups: Seq<crate::decl::data::DriverGroup>) -> GroupsAcc
    decreases groups.len(),
{
    if groups.len() == 0 {
        acc
    } else {
        let g = groups[0];
        let (drivers, logs) = drives_fold(anims, g.name@, (Seq::empty(), acc.1), g.drives@);
        let local = match g.local {
            Some(l) => l,
            None => true,
        };
        driver_blocks_fold(anims, (acc.0.push((g.name@, local, drivers)), logs), groups.drop_first())
    }
}

/// All driver groups of all blocks, in order.
pub open spec fn flatten_driver_groups(blocks: Seq<DeclDrivers>) -> Seq<crate::decl::data::DriverGroup>
    decreases blocks.len(),
{
    if blocks.len() == 0 {
        Seq::empty()
    } else {
        blocks[0].groups@ + flatten_driver_groups(blocks.drop_first())
    }
}

proof fn lemma_fold_concat(anims: AnimationsView, acc: GroupsAcc, a: Seq<crate::decl::data::DriverGroup>, b: Seq<crate::decl::data::DriverGroup>)
    ensures
        driver_blocks_fold(anims, acc, a + b) == driver_blocks_fold(anims, driver_blocks_fold(anims, acc, a), b),
    decreases a.len(),
{
    if a.len() > 0 {
        assert((a + b).drop_first() =~= a.drop_first() + b);
        lemma_fold_concat(anims, (acc.0.push(
            (a[0].name@, match a[0].local { Some(l) => l, None => true },
             drives_fold(anims, a[0].name@, (Seq::empty(), acc.1), a[0].drives@).0)),
            drives_fold(anims, a[0].name@, (Seq::empty(), acc.1), a[0].drives@).1), a.drop_first(), b);
    } else {
        assert(a + b =~= b);
    }
}

/// Compiles every driver group of every block in order; a group keeps the drives that compile.
pub fn compile_drivers_blocks(
    ctx: &mut Context,
    animations: &CompiledAnimations,
    decl_drivers_blocks: Vec<DeclDrivers>,
) -> (r: Compiled<Vec<DriverGroup>>)
    requires
        old(ctx).wf(),
    ensures
        final(ctx).wf(),
        r is Some,
        ({
            let (groups, logs) = driver_blocks_fold(
                animations@,
                (Seq::empty(), old(ctx).logs_view()),
                flatten_driver_groups(decl_drivers_blocks@),
            );
            &&& r->0@.map_values(|g: DriverGroup| driver_group_view(g)) == groups
            &&& final(ctx).logs_view() == logs
        }),
{
    let mut driver_groups: Vec<DriverGroup> = Vec::new();
    let mut blocks = decl_drivers_blocks;
    let ghost total = driver_blocks_fold(
        animations@,
        (Seq::empty(), old(ctx).logs_view()),
        flatten_driver_groups(blocks@),
    );
    proof {
        assert(driver_groups@.map_values(|g: DriverGroup| driver_group_view(g)) =~= Seq::empty());
    }
    while blocks.len() > 0
        invariant
            ctx.wf(),
            total == driver_blocks_fold(
                animations@,
                (driver_groups@.map_values(|g: DriverGroup| driver_group_view(g)), ctx.logs_view()),
                flatten_driver_groups(blocks@),
            ),
        decreases blocks@.len(),
    {
        let ghost before = blocks@;
        let mut block = blocks.remove(0);
        proof {
            assert(blocks@ =~= before.drop_first());
            lemma_fold_concat(
                animations@,
                (driver_groups@.map_values(|g: DriverGroup| driver_group_view(g)), ctx.logs_view()),
                block.groups@,
                flatten_driver_groups(blocks@),
            );
        }
        while block.groups.len() > 0
            invariant
                ctx.wf(),
                total == driver_blocks_fold(
                    animations@,
                    driver_blocks_fold(
                        animations@,
                        (driver_groups@.map_values(|g: DriverGroup| driver_group_view(g)), ctx.logs_view()),
                        block.groups@,
                    ),
                    flatten_driver_groups(blocks@),
                ),
            decreases block.groups@.len(),
        {
            let ghost groups_before = block.groups@;
            let ghost state_before = (
                driver_groups@.map_values(|g: DriverGroup| driver_group_view(g)),
                ctx.logs_view(),
            );
            let mut decl_driver = block.groups.remove(0);
            let ghost g = decl_driver;
            proof {
                assert(block.groups@ =~= groups_before.drop_first());
                assert(g == groups_before[0]);
            }
            let ghost drives_total = drives_fold(
                animations@,
                decl_driver.name@,
                (Seq::empty(), ctx.logs_view()),
                decl_driver.drives@,
            );
            let mut drivers: Vec<Driver> = Vec::new();
            proof {
                assert(drivers@.map_values(|d: Driver| driver_view(d)) =~= Seq::empty());
            }
            while decl_driver.drives.len() > 0
                invariant
                    ctx.wf(),
                    decl_driver.name == g.name,
                    decl_driver.local == g.local,
                    drives_total == drives_fold(
                        animations@,
                        decl_driver.name@,
                        (drivers@.map_values(|d: Driver| driver_view(d)), ctx.logs_view()),
                        decl_driver.drives@,
                    ),
                decreases decl_driver.drives@.len(),
            {
                let ghost drives_before = decl_driver.drives@;
                let drive = decl_driver.drives.remove(0);
                proof {
                    assert(decl_driver.drives@ =~= drives_before.drop_first());
                }
                let ghost drivers_before = drivers@.map_values(|d: Driver| driver_view(d));
                match compile_driver(ctx, animations, decl_driver.name.as_str(), drive) {
                    Some(driver) => {
                        drivers.push(driver);
                        proof {
                            assert(drivers@.map_values(|d: Driver| driver_view(d)) =~= drivers_before.push(
                                driver_view(driver),
                            ));
                        }
                    },
                    None => {},
                }
            }
            let local = match decl_driver.local {
                Some(l) => l,
                None => true,
            };
            let ghost groups_view_before = driver_groups@.map_values(|g: DriverGroup| driver_group_view(g));
            let group = DriverGroup { name: decl_driver.name, local, drivers };
            driver_groups.push(group);
            proof {
                assert(driver_groups@.map_values(|g: DriverGroup| driver_group_view(g)) =~= groups_view_before.push(
                    driver_group_view(group),
                ));
                assert(drives_total == (drivers@.map_values(|d: Driver| driver_view(d)), ctx.logs_view()));
                assert(drives_total == drives_fold(animations@, g.name@, (Seq::empty(), state_before.1), g.drives@));
                assert(group.name@ == g.name@);
                assert(driver_group_view(group) == (g.name@, local, drives_total.0));
                assert(groups_before.len() > 0);
                assert(driver_blocks_fold(animations@, state_before, groups_before) == driver_blocks_fold(
                    animations@,
                    (driver_groups@.map_values(|g: DriverGroup| driver_group_view(g)), ctx.logs_view()),
                    block.groups@,
                ));
            }
        }
        proof {
            assert(block.groups@ =~= Seq::<crate::decl::data::DriverGroup>::empty());
        }
    }
    success(driver_groups)
}


/// A drive keeps the kind it was declared with and the values it was given: an assignment
/// sets (a group's option sets its group parameter), an add adds, a random over a group picks
/// from 1, over a bool parameter by the given chance, over a float parameter in the given
/// range, and a copy copies from the first parameter to the second, ranged where both ranges
/// are given.
pub proof fn lemma_drive_keeps_its_kind(anims: AnimationsView, driver_name: Seq<char>, d: DeclDrive)
    ensures
        drive_spec(anims, driver_name, d).0 matches Some(v) ==> match d {
            DeclDrive::Assign(DeclDriveTarget::Group { .. }) => v is SetInt,
            DeclDrive::Assign(DeclDriveTarget::IntParameter { name, value }) => v == DriverView::SetInt(name@, value),
            DeclDrive::Assign(DeclDriveTarget::FloatParameter { name, value }) => v == DriverView::SetFloat(name@, value),
            DeclDrive::Assign(DeclDriveTarget::BoolParameter { name, value }) => v == DriverView::SetBool(name@, value),
            DeclDrive::Add(DeclDriveTarget::IntParameter { name, value }) => v == DriverView::AddInt(name@, value),
            DeclDrive::Add(DeclDriveTarget::FloatParameter { name, value }) => v == DriverView::AddFloat(name@, value),
            DeclDrive::Add(_) => false,
            DeclDrive::Random { group, parameter, chance, range } => match (group, parameter, chance, range) {
                (Some(_), None, None, (None, None)) => v matches DriverView::RandomInt(_, r) && r.0 == 1,
                (None, Some(p), Some(c), (None, None)) => v == DriverView::RandomBool(p@, c),
                (None, Some(p), None, (Some(min), Some(max))) => v == DriverView::RandomFloat(p@, (min, max)),
                _ => false,
            },
            DeclDrive::Copy { from, to, from_range, to_range } => match (from_range, to_range) {
                ((Some(a), Some(b)), (Some(c), Some(e))) => v == DriverView::RangedCopy(from@, to@, (a, b), (c, e)),
                ((None, None), (None, None)) => v == DriverView::Copy(from@, to@),
                _ => false,
            },
        },
{
}

} // verus!
