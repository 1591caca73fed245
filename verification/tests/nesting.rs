use bevy::ecs::component::{Component, ComponentId, StorageType};
use bevy::ecs::query::Access;
use bevy::ecs::system::Resource;
use bevy::ecs::world::World;
use prettytable::{Cell, Row, Table};

use stratmat::conflicts::{diagnose_conflicts, AccessDiags, BroadAccess, BroadAccessKind, NarrowAccess, SystemAccess};
use stratmat::report::conflict_report_message;
use stratmat::nested::{AccessStack, Cached, NestedRunError, NestedSystemId, NestedSystemRegistry};

struct C1;
impl Component for C1 {
    const STORAGE_TYPE: StorageType = StorageType::Table;
}

struct C2;
impl Component for C2 {
    const STORAGE_TYPE: StorageType = StorageType::Table;
}

struct C3;
impl Component for C3 {
    const STORAGE_TYPE: StorageType = StorageType::Table;
}

struct R1;
impl Resource for R1 {}

struct Ids {
    c1: ComponentId,
    c2: ComponentId,
    c3: ComponentId,
    r1: ComponentId,
}

fn world() -> (World, Ids) {
    let mut world = World::new();
    let c1 = world.register_component::<C1>();
    let c2 = world.register_component::<C2>();
    let c3 = world.register_component::<C3>();
    let r1 = world.register_resource::<R1>();
    (world, Ids { c1, c2, c3, r1 })
}

fn access(reads: &[ComponentId], writes: &[ComponentId]) -> SystemAccess {
    let mut a = Access::new();
    for &id in reads {
        a.add_component_read(id);
    }
    for &id in writes {
        a.add_component_write(id);
    }
    SystemAccess { access: a }
}

fn diags(name: &str, a: SystemAccess) -> AccessDiags {
    AccessDiags::new(name.to_string(), a)
}

#[test]
fn broad_access_levels() {
    let (_world, ids) = world();
    let d = diags("reader", access(&[ids.c1], &[]));
    assert_eq!(d.broad(BroadAccessKind::ReadComponents), BroadAccess::Partial);
    assert_eq!(d.broad(BroadAccessKind::WriteComponents), BroadAccess::Untouched);
    let mut all = Access::new();
    all.read_all_components();
    all.add_resource_write(ids.r1);
    let e = diags("everything", SystemAccess { access: all });
    assert_eq!(
        e.broad_row(),
        vec![BroadAccess::All, BroadAccess::Untouched, BroadAccess::Partial, BroadAccess::Partial]
    );
    assert_eq!(BroadAccess::All.label(), "**ALL**");
    assert_eq!(BroadAccess::Partial.label(), "Some");
    assert_eq!(BroadAccess::Untouched.label(), "");
    assert_eq!(BroadAccessKind::WriteResources.label(), "Write Resources");
}

#[test]
fn narrow_access_levels() {
    let (_world, ids) = world();
    let d = diags("rw", access(&[ids.c2], &[ids.c3]));
    assert_eq!(d.narrow(ids.c2.index()), NarrowAccess::Read);
    assert_eq!(d.narrow(ids.c3.index()), NarrowAccess::Write);
    assert_eq!(d.narrow(ids.c1.index()), NarrowAccess::Untouched);
    assert_eq!(
        d.narrow_row(&vec![ids.c1.index(), ids.c2.index(), ids.c3.index()]),
        vec![NarrowAccess::Untouched, NarrowAccess::Read, NarrowAccess::Write]
    );
    assert_eq!(NarrowAccess::Write.label(), "**WRITE**");
    assert_eq!(NarrowAccess::Read.label(), "Read");
}

#[test]
fn conflict_report_on_particular_components() {
    let (world, ids) = world();
    let new = diags("wr_c1_c3", access(&[ids.c3], &[ids.c1]));
    let prev = vec![
        diags("r_c1", access(&[ids.c1], &[])),
        diags("r_c1_again", access(&[ids.c1], &[])),
        diags("rw_c2_c3", access(&[ids.c2], &[ids.c3])),
    ];
    let report = diagnose_conflicts(world.components(), new, prev);
    assert_eq!(report.new_name, "wr_c1_c3");
    assert!(report.broad_rows.is_empty());
    let mut expected = vec![ids.c1.index(), ids.c3.index()];
    expected.sort();
    assert_eq!(report.narrow_columns, expected);
    assert_eq!(report.narrow_column_names.len(), 2);
    assert!(report.narrow_column_names[0].ends_with("C1"));
    assert!(report.narrow_column_names[1].ends_with("C3"));
    assert_eq!(report.new_narrow, vec![NarrowAccess::Write, NarrowAccess::Read]);
    let names: Vec<&str> = report.narrow_rows.iter().map(|r| r.name.as_str()).collect();
    assert_eq!(names, vec!["r_c1", "r_c1_again", "rw_c2_c3"]);
    assert_eq!(report.narrow_rows[0].cells, vec![NarrowAccess::Read, NarrowAccess::Untouched]);
    assert_eq!(report.narrow_rows[2].cells, vec![NarrowAccess::Untouched, NarrowAccess::Write]);
}

#[test]
fn conflict_report_on_everything() {
    let (world, ids) = world();
    let mut writes_all = Access::new();
    writes_all.write_all_components();
    let new = diags("wsc", SystemAccess { access: writes_all });
    let mut reads_all = Access::new();
    reads_all.read_all_components();
    let prev = vec![
        diags("rac", SystemAccess { access: reads_all }),
        diags("r_c2", access(&[ids.c2], &[])),
    ];
    let report = diagnose_conflicts(world.components(), new, prev);
    assert_eq!(report.new_broad[1], BroadAccess::All);
    assert_eq!(report.broad_rows.len(), 1);
    assert_eq!(report.broad_rows[0].name, "rac");
    assert_eq!(report.broad_rows[0].cells[0], BroadAccess::All);
    assert_eq!(report.narrow_columns, vec![ids.c2.index()]);
    assert_eq!(report.narrow_rows.len(), 1);
    assert_eq!(report.narrow_rows[0].name, "r_c2");
}

#[test]
fn unregistered_columns_are_marked() {
    let (world, ids) = world();
    let stray = ComponentId::new(1000);
    let new = diags("w", access(&[], &[stray, ids.c1]));
    let prev = vec![diags("r", access(&[stray], &[]))];
    let report = diagnose_conflicts(world.components(), new, prev);
    assert_eq!(report.narrow_columns, vec![1000]);
    assert_eq!(report.narrow_column_names, vec!["+++ERROR+++".to_string()]);
}

#[test]
fn registry_lends_each_system_once() {
    let mut registry: NestedSystemRegistry<&str> = NestedSystemRegistry::new();
    let a = registry.register_system("a");
    let b = registry.register_system("b");
    assert_eq!(a, NestedSystemId(0));
    assert_eq!(b, NestedSystemId(1));
    assert_eq!(registry.take(a), Ok("a"));
    assert_eq!(registry.take(a), Err(NestedRunError::Reentrant));
    assert_eq!(registry.take(b), Ok("b"));
    registry.restore(a, "a");
    assert_eq!(registry.take(a), Ok("a"));
    assert_eq!(registry.take(NestedSystemId(2)), Err(NestedRunError::InvalidId));
}

#[test]
fn cached_slots() {
    let mut c = Cached::new(5);
    assert_eq!(c.take(), Some(5));
    assert_eq!(c.take(), None);
    assert!(matches!(c, Cached::InUse));
    assert_eq!(Option::from(Cached::new(1)), Some(1));
    assert_eq!(Option::<u8>::from(Cached::InUse), None);
}

#[test]
fn access_stack_refuses_conflicting_systems() {
    let (_world, ids) = world();
    let mut stack = AccessStack::new();
    assert!(stack.enter("r_c1".to_string(), access(&[ids.c1], &[])).is_ok());
    assert!(stack.enter("r_c1_again".to_string(), access(&[ids.c1], &[])).is_ok());
    assert!(stack.enter("rw_c2_c3".to_string(), access(&[ids.c2], &[ids.c3])).is_ok());
    assert_eq!(stack.entries.len(), 3);
    let refused = stack.enter("wr_c1_c3".to_string(), access(&[ids.c3], &[ids.c1]));
    let conflicts = refused.err().expect("the write to C1 conflicts");
    let names: Vec<&str> = conflicts.iter().map(|d| d.name.as_str()).collect();
    assert_eq!(names, vec!["r_c1", "r_c1_again", "rw_c2_c3"]);
    assert_eq!(stack.entries.len(), 3);
}

#[test]
fn access_stack_refuses_broad_conflicts() {
    let (_world, ids) = world();
    let mut stack = AccessStack::new();
    let mut wsr_rsc = Access::new();
    wsr_rsc.add_resource_write(ids.r1);
    wsr_rsc.add_component_read(ids.c1);
    assert!(stack.enter("wsr_rsc".to_string(), SystemAccess { access: wsr_rsc }).is_ok());
    let mut rac = Access::new();
    rac.read_all_components();
    assert!(stack.enter("rnr_rac".to_string(), SystemAccess { access: rac }).is_ok());
    let mut rsr_wac = Access::new();
    rsr_wac.add_resource_read(ids.r1);
    rsr_wac.write_all_components();
    let refused = stack.enter("rsr_wac".to_string(), SystemAccess { access: rsr_wac });
    let names: Vec<String> = refused.err().expect("conflicts").into_iter().map(|d| d.name).collect();
    assert_eq!(names, vec!["wsr_rsc".to_string(), "rnr_rac".to_string()]);
}

#[test]
fn resource_access_levels() {
    let (_world, ids) = world();
    let mut all = Access::new();
    all.read_all_resources();
    let reader = diags("reads every resource", SystemAccess { access: all });
    assert_eq!(
        reader.broad_row(),
        vec![BroadAccess::Untouched, BroadAccess::Untouched, BroadAccess::All, BroadAccess::Untouched]
    );
    assert_eq!(reader.narrow(ids.r1.index()), NarrowAccess::Read);
    let mut all = Access::new();
    all.write_all_resources();
    let writer = diags("writes every resource", SystemAccess { access: all });
    assert_eq!(writer.broad(BroadAccessKind::WriteResources), BroadAccess::All);
    assert_eq!(writer.narrow(ids.r1.index()), NarrowAccess::Write);
    let mut one = Access::new();
    one.add_resource_read(ids.r1);
    let r = diags("reads R1", SystemAccess { access: one });
    assert_eq!(r.narrow(ids.r1.index()), NarrowAccess::Read);
    assert_eq!(r.broad(BroadAccessKind::ReadResources), BroadAccess::Partial);
    assert_eq!(r.broad(BroadAccessKind::ReadComponents), BroadAccess::Untouched);
}

#[test]
fn refused_systems_carry_their_access() {
    let (_world, ids) = world();
    let mut stack = AccessStack::new();
    assert!(stack.enter("w_c2".to_string(), access(&[], &[ids.c2])).is_ok());
    let conflicts = stack.enter("r_c2".to_string(), access(&[ids.c2], &[])).err().expect("conflict on C2");
    assert_eq!(conflicts.len(), 1);
    assert_eq!(conflicts[0].name, "w_c2");
    assert_eq!(conflicts[0].narrow(ids.c2.index()), NarrowAccess::Write);
    assert_eq!(conflicts[0].broad(BroadAccessKind::WriteComponents), BroadAccess::Partial);
}

#[test]
fn finished_systems_leave_the_stack() {
    let (_world, ids) = world();
    let mut stack = AccessStack::new();
    assert!(stack.leave().is_none());
    assert!(stack.enter("r_c1".to_string(), access(&[ids.c1], &[])).is_ok());
    assert!(stack.enter("w_c2".to_string(), access(&[], &[ids.c2])).is_ok());
    let (name, _) = stack.leave().expect("w_c2 is on top");
    assert_eq!(name, "w_c2");
    assert_eq!(stack.entries.len(), 1);
    // With w_c2 gone, a reader of C2 may run beside r_c1.
    assert!(stack.enter("r_c2".to_string(), access(&[ids.c2], &[])).is_ok());
}

fn cells(head: Cell, labels: &[&str], spec: &str) -> Row {
    let mut v = vec![head];
    for l in labels {
        v.push(Cell::new(l).style_spec(spec));
    }
    Row::new(v)
}

#[test]
fn conflict_message_with_only_narrow_conflicts() {
    let (world, ids) = world();
    let new = diags("wr_c1_c3", access(&[ids.c3], &[ids.c1]));
    let prev = vec![diags("r_c1", access(&[ids.c1], &[]))];
    let report = diagnose_conflicts(world.components(), new, prev);
    let msg = conflict_report_message(&report);
    let heading = "\nNested system data access conflicts between wr_c1_c3 and still-running systems:";
    assert!(msg.starts_with(heading));
    let names: Vec<&str> = report.narrow_column_names.iter().map(|s| s.as_str()).collect();
    let mut table = Table::new();
    table.set_titles(cells(Cell::new(""), &names, "c"));
    table.add_row(cells(Cell::new("~~wr_c1_c3~~").style_spec("rb"), &["**WRITE**"], "cb"));
    table.add_row(cells(Cell::new("r_c1").style_spec("r"), &["Read"], "c"));
    assert_eq!(msg, format!("{heading}\n\n{table}"));
    assert!(!msg.contains("Read Components"));
}

#[test]
fn conflict_message_with_both_tables() {
    let (world, ids) = world();
    let mut writes_all = Access::new();
    writes_all.write_all_components();
    let new = diags("wsc", SystemAccess { access: writes_all });
    let mut reads_all = Access::new();
    reads_all.read_all_components();
    let prev = vec![
        diags("rac", SystemAccess { access: reads_all }),
        diags("r_c2", access(&[ids.c2], &[])),
    ];
    let report = diagnose_conflicts(world.components(), new, prev);
    let msg = conflict_report_message(&report);
    let heading = "\nNested system data access conflicts between wsc and still-running systems:";
    let mut broad = Table::new();
    broad.set_titles(cells(
        Cell::new(""),
        &["Read Components", "Write Components", "Read Resources", "Write Resources"],
        "c",
    ));
    broad.add_row(cells(Cell::new("~~wsc~~").style_spec("br"), &["**ALL**", "**ALL**", "", ""], "c"));
    broad.add_row(cells(Cell::new("rac").style_spec("r"), &["**ALL**", "", "", ""], "c"));
    let mut narrow = Table::new();
    narrow.set_titles(cells(Cell::new(""), &[report.narrow_column_names[0].as_str()], "c"));
    narrow.add_row(cells(Cell::new("~~wsc~~").style_spec("rb"), &["**WRITE**"], "cb"));
    narrow.add_row(cells(Cell::new("r_c2").style_spec("r"), &["Read"], "c"));
    assert_eq!(msg, format!("{heading}\n\n{broad}\n\n{narrow}"));
}

#[test]
fn conflict_message_without_conflicts_is_the_heading() {
    let (world, _ids) = world();
    let report = diagnose_conflicts(world.components(), diags("lonely", access(&[], &[])), Vec::new());
    assert_eq!(
        conflict_report_message(&report),
        "\nNested system data access conflicts between lonely and still-running systems:"
    );
}
