//! Diagnosis of data-access conflicts between a nested system and the systems still
//! running up its call stack, for the error report shown before such a run is refused.
//!
//! The accesses themselves are Bevy's; this module reads them through the functions
//! below and lays the findings out as two tables: systems that conflict on everything
//! (broadly), and systems that conflict on particular components (narrowly).

use vstd::prelude::*;

use bevy::ecs::component::{ComponentId, ComponentInfo, Components};
use bevy::ecs::query::{Access, AccessConflicts};
use fixedbitset::FixedBitSet;

verus! {

#[verifier::external_type_specification]
#[verifier::external_body]
pub struct ExFixedBitSet(FixedBitSet);

/// A system's data access, as Bevy tracks it (`Access<ComponentId>`).
#[verifier::external_body]
pub struct SystemAccess {
    pub access: Access<ComponentId>,
}

#[verifier::external_type_specification]
#[verifier::external_body]
pub struct ExComponentId(ComponentId);

#[verifier::external_type_specification]
#[verifier::external_body]
pub struct ExComponents(Components);

#[verifier::external_type_specification]
#[verifier::external_body]
pub struct ExComponentInfo(ComponentInfo);

/// The set of bits that are on in a bit set.
pub uninterp spec fn bitset_ones(b: FixedBitSet) -> Set<usize>;

/// Whether an access may read some component (`Access::has_any_component_read`).
pub uninterp spec fn reads_any_component(a: SystemAccess) -> bool;
/// Whether an access reads every component (`Access::has_read_all_components`).
pub uninterp spec fn reads_every_component(a: SystemAccess) -> bool;
/// Whether an access may write some component (`Access::has_any_component_write`).
pub uninterp spec fn writes_any_component(a: SystemAccess) -> bool;
/// Whether an access writes every component (`Access::has_write_all_components`).
pub uninterp spec fn writes_every_component(a: SystemAccess) -> bool;
/// Whether an access may read some resource (`Access::has_any_resource_read`).
pub uninterp spec fn reads_any_resource(a: SystemAccess) -> bool;
/// Whether an access reads every resource (`Access::has_read_all_resources`).
pub uninterp spec fn reads_every_resource(a: SystemAccess) -> bool;
/// Whether an access may write some resource (`Access::has_any_resource_write`).
pub uninterp spec fn writes_any_resource(a: SystemAccess) -> bool;
/// Whether an access writes every resource (`Access::has_write_all_resources`).
pub uninterp spec fn writes_every_resource(a: SystemAccess) -> bool;
/// Whether an access reads the component with the given index (`Access::has_component_read`).
pub uninterp spec fn reads_component(a: SystemAccess, id: usize) -> bool;
/// Whether an access writes the component with the given index (`Access::has_component_write`).
pub uninterp spec fn writes_component(a: SystemAccess, id: usize) -> bool;
/// Whether an access reads the resource with the given index (`Access::has_resource_read`).
pub uninterp spec fn reads_resource(a: SystemAccess, id: usize) -> bool;
/// Whether an access writes the resource with the given index (`Access::has_resource_write`).
pub uninterp spec fn writes_resource(a: SystemAccess, id: usize) -> bool;
/// How `a` conflicts with `other` (`Access::get_conflicts`): `None` when on everything,
/// otherwise the indices of the conflicting components and resources.
pub uninterp spec fn access_conflicts(a: SystemAccess, other: SystemAccess) -> Option<Set<usize>>;
/// Whether two accesses may be active at the same time (`Access::is_compatible`).
pub uninterp spec fn accesses_compatible(a: SystemAccess, other: SystemAccess) -> bool;
/// The registration info of the component with the given index, if any (`Components::get_info`).
pub uninterp spec fn component_info(c: Components, id: usize) -> Option<ComponentInfo>;
/// The name a component was registered under (`ComponentInfo::name`).
pub uninterp spec fn component_info_name(info: ComponentInfo) -> Seq<char>;

/// Creates an empty bit set (`FixedBitSet::new`).
#[verifier::external_body]
fn bitset_new() -> (r: FixedBitSet)
    ensures
        bitset_ones(r) == Set::<usize>::empty(),
{
    FixedBitSet::new()
}

/// Adds the bits of `other` to `b` (`FixedBitSet::union_with`, which grows `b` as needed).
#[verifier::external_body]
fn bitset_union_with(b: &mut FixedBitSet, other: &FixedBitSet)
    ensures
        bitset_ones(*final(b)) == bitset_ones(*old(b)).union(bitset_ones(*other)),
{
    b.union_with(other)
}

/// The bits that are on, lowest first (`FixedBitSet::ones`, collected).
#[verifier::external_body]
fn bitset_ones_vec(b: &FixedBitSet) -> (r: Vec<usize>)
    ensures
        r@.to_set() == bitset_ones(*b),
        forall|i: int, j: int| 0 <= i < j < r@.len() ==> r@[i] < r@[j],
{
    b.ones().collect()
}

/// `Access::has_any_component_read`.
#[verifier::external_body]
fn access_reads_any_component(a: &SystemAccess) -> (r: bool)
    ensures
        r == reads_any_component(*a),
{
    a.access.has_any_component_read()
}

/// `Access::has_read_all_components`.
#[verifier::external_body]
fn access_reads_every_component(a: &SystemAccess) -> (r: bool)
    ensures
        r == reads_every_component(*a),
{
    a.access.has_read_all_components()
}

/// `Access::has_any_component_write`.
#[verifier::external_body]
fn access_writes_any_component(a: &SystemAccess) -> (r: bool)
    ensures
        r == writes_any_component(*a),
{
    a.access.has_any_component_write()
}

/// `Access::has_write_all_components`.
#[verifier::external_body]
fn access_writes_every_component(a: &SystemAccess) -> (r: bool)
    ensures
        r == writes_every_component(*a),
{
    a.access.has_write_all_components()
}

/// `Access::has_any_resource_read`.
#[verifier::external_body]
fn access_reads_any_resource(a: &SystemAccess) -> (r: bool)
    ensures
        r == reads_any_resource(*a),
{
    a.access.has_any_resource_read()
}

/// `Access::has_read_all_resources`.
#[verifier::external_body]
fn access_reads_every_resource(a: &SystemAccess) -> (r: bool)
    ensures
        r == reads_every_resource(*a),
{
    a.access.has_read_all_resources()
}

/// `Access::has_any_resource_write`.
#[verifier::external_body]
fn access_writes_any_resource(a: &SystemAccess) -> (r: bool)
    ensures
        r == writes_any_resource(*a),
{
    a.access.has_any_resource_write()
}

/// `Access::has_write_all_resources`.
#[verifier::external_body]
fn access_writes_every_resource(a: &SystemAccess) -> (r: bool)
    ensures
        r == writes_every_resource(*a),
{
    a.access.has_write_all_resources()
}

/// `Access::has_component_read` on the component with index `id`.
#[verifier::external_body]
fn access_reads_component(a: &SystemAccess, id: usize) -> (r: bool)
    ensures
        r == reads_component(*a, id),
{
    a.access.has_component_read(ComponentId::new(id))
}

/// `Access::has_component_write` on the component with index `id`.
#[verifier::external_body]
fn access_writes_component(a: &SystemAccess, id: usize) -> (r: bool)
    ensures
        r == writes_component(*a, id),
{
    a.access.has_component_write(ComponentId::new(id))
}

/// `Access::has_resource_read` on the resource with index `id`.
#[verifier::external_body]
fn access_reads_resource(a: &SystemAccess, id: usize) -> (r: bool)
    ensures
        r == reads_resource(*a, id),
{
    a.access.has_resource_read(ComponentId::new(id))
}

/// `Access::has_resource_write` on the resource with index `id`.
#[verifier::external_body]
fn access_writes_resource(a: &SystemAccess, id: usize) -> (r: bool)
    ensures
        r == writes_resource(*a, id),
{
    a.access.has_resource_write(ComponentId::new(id))
}

/// `Access::is_compatible`.
#[verifier::external_body]
pub(crate) fn access_is_compatible(a: &SystemAccess, other: &SystemAccess) -> (r: bool)
    ensures
        r == accesses_compatible(*a, *other),
{
    a.access.is_compatible(&other.access)
}

/// A copy of an access (`<Access<ComponentId> as Clone>::clone`).
#[verifier::external_body]
pub(crate) fn access_clone(a: &SystemAccess) -> (r: SystemAccess)
    ensures
        r == *a,
{
    SystemAccess { access: a.access.clone() }
}

/// How two accesses conflict, as found by `Access::get_conflicts`.
pub enum Conflicts {
    /// They conflict on everything.
    All,
    /// They conflict on the components and resources whose indices are on.
    Individual(FixedBitSet),
}

/// `a.get_conflicts(other)`, with its variants carried over.
#[verifier::external_body]
fn access_get_conflicts(a: &SystemAccess, other: &SystemAccess) -> (r: Conflicts)
    ensures
        match r {
            Conflicts::All => access_conflicts(*a, *other) is None,
            Conflicts::Individual(bits) => access_conflicts(*a, *other) == Some(bitset_ones(bits)),
        },
{
    match a.access.get_conflicts(&other.access) {
        AccessConflicts::All => Conflicts::All,
        AccessConflicts::Individual(bits) => Conflicts::Individual(bits),
    }
}

/// `Components::get_info` on the component with index `id`.
#[verifier::external_body]
fn components_get_info(c: &Components, id: usize) -> (r: Option<&ComponentInfo>)
    ensures
        match r {
            Some(info) => component_info(*c, id) == Some(*info),
            None => component_info(*c, id) is None,
        },
{
    c.get_info(ComponentId::new(id))
}

/// `ComponentInfo::name`.
#[verifier::external_body]
fn component_info_name_of(info: &ComponentInfo) -> (r: String)
    ensures
        r@ == component_info_name(*info),
{
    info.name().to_string()
}

/// How much of a broad category of data an access touches.
#[derive(Debug, Copy, Clone, PartialEq, Eq, Structural)]
pub enum BroadAccess {
    Untouched,
    Partial,
    All,
}

/// A broad category of data.
#[derive(Debug, Copy, Clone, PartialEq, Eq, Structural)]
pub enum BroadAccessKind {
    ReadComponents,
    WriteComponents,
    ReadResources,
    WriteResources,
}

/// How an access touches one component or resource.
#[derive(Debug, Copy, Clone, PartialEq, Eq, Structural)]
pub enum NarrowAccess {
    Untouched,
    Read,
    Write,
}

impl BroadAccess {
    /// The text shown for this access in a table cell.
    pub fn label(self) -> (r: &'static str)
        ensures
            r@ == match self {
                BroadAccess::Untouched => ""@,
                BroadAccess::Partial => "Some"@,
                BroadAccess::All => "**ALL**"@,
            },
    {
        match self {
            BroadAccess::Untouched => "",
            BroadAccess::Partial => "Some",
            BroadAccess::All => "**ALL**",
        }
    }
}

impl BroadAccessKind {
    /// The text shown for this category in a table heading.
    pub fn label(self) -> (r: &'static str)
        ensures
            r@ == match self {
                BroadAccessKind::ReadComponents => "Read Components"@,
                BroadAccessKind::WriteComponents => "Write Components"@,
                BroadAccessKind::ReadResources => "Read Resources"@,
                BroadAccessKind::WriteResources => "Write Resources"@,
            },
    {
        match self {
            BroadAccessKind::ReadComponents => "Read Components",
            BroadAccessKind::WriteComponents => "Write Components",
            BroadAccessKind::ReadResources => "Read Resources",
            BroadAccessKind::WriteResources => "Write Resources",
        }
    }
}

impl NarrowAccess {
    /// The text shown for this access in a table cell.
    pub fn label(self) -> (r: &'static str)
        ensures
            r@ == match self {
                NarrowAccess::Untouched => ""@,
                NarrowAccess::Read => "Read"@,
                NarrowAccess::Write => "**WRITE**"@,
            },
    {
        match self {
            NarrowAccess::Untouched => "",
            NarrowAccess::Read => "Read",
            NarrowAccess::Write => "**WRITE**",
        }
    }
}

/// How much of the category `kind` the access touches: all of it, some of it, or none.
pub open spec fn broad_of(a: SystemAccess, kind: BroadAccessKind) -> BroadAccess {
    let (any, every) = match kind {
        BroadAccessKind::ReadComponents => (reads_any_component(a), reads_every_component(a)),
        BroadAccessKind::WriteComponents => (writes_any_component(a), writes_every_component(a)),
        BroadAccessKind::ReadResources => (reads_any_resource(a), reads_every_resource(a)),
        BroadAccessKind::WriteResources => (writes_any_resource(a), writes_every_resource(a)),
    };
    if every {
        BroadAccess::All
    } else if any {
        BroadAccess::Partial
    } else {
        BroadAccess::Untouched
    }
}

/// The categories, in the order of the broad table's columns.
pub open spec fn broad_kinds() -> Seq<BroadAccessKind> {
    seq![
        BroadAccessKind::ReadComponents,
        BroadAccessKind::WriteComponents,
        BroadAccessKind::ReadResources,
        BroadAccessKind::WriteResources,
    ]
}

/// The broad table's row for an access.
pub open spec fn broad_row_of(a: SystemAccess) -> Seq<BroadAccess> {
    broad_kinds().map_values(|k: BroadAccessKind| broad_of(a, k))
}

/// How the access touches the component or resource with index `id`: a write of either
/// kind counts as a write, otherwise a read of either kind as a read.
pub open spec fn narrow_of(a: SystemAccess, id: usize) -> NarrowAccess {
    if writes_component(a, id) || writes_resource(a, id) {
        NarrowAccess::Write
    } else if reads_component(a, id) || reads_resource(a, id) {
        NarrowAccess::Read
    } else {
        NarrowAccess::Untouched
    }
}

/// A named system's data access.
pub struct AccessDiags {
    pub name: String,
    pub access: SystemAccess,
}

impl AccessDiags {
    /// The access of the system called `name`.
    pub fn new(name: String, access: SystemAccess) -> (r: Self)
        ensures
            r.name == name,
            r.access == access,
    {
        AccessDiags { name, access }
    }

    /// How much of the category `kind` this access touches.
    pub fn broad(&self, kind: BroadAccessKind) -> (r: BroadAccess)
        ensures
            r == broad_of(self.access, kind),
    {
        let (any, every) = match kind {
            BroadAccessKind::ReadComponents => (
                access_reads_any_component(&self.access),
                access_reads_every_component(&self.access),
            ),
            BroadAccessKind::WriteComponents => (
                access_writes_any_component(&self.access),
                access_writes_every_component(&self.access),
            ),
            BroadAccessKind::ReadResources => (
                access_reads_any_resource(&self.access),
                access_reads_every_resource(&self.access),
            ),
            BroadAccessKind::WriteResources => (
                access_writes_any_resource(&self.access),
                access_writes_every_resource(&self.access),
            ),
        };
        if every {
            BroadAccess::All
        } else if any {
            BroadAccess::Partial
        } else {
            BroadAccess::Untouched
        }
    }

    /// How this access touches the component or resource with index `id`.
    pub fn narrow(&self, id: usize) -> (r: NarrowAccess)
        ensures
            r == narrow_of(self.access, id),
    {
        if access_writes_component(&self.access, id) || access_writes_resource(&self.access, id) {
            NarrowAccess::Write
        } else if access_reads_component(&self.access, id) || access_reads_resource(&self.access, id) {
            NarrowAccess::Read
        } else {
            NarrowAccess::Untouched
        }
    }

    /// This access's row of the broad table.
    pub fn broad_row(&self) -> (r: Vec<BroadAccess>)
        ensures
            r@ == broad_row_of(self.access),
    {
        let r = vec![
            self.broad(BroadAccessKind::ReadComponents),
            self.broad(BroadAccessKind::WriteComponents),
            self.broad(BroadAccessKind::ReadResources),
            self.broad(BroadAccessKind::WriteResources),
        ];
        assert(r@ =~= broad_row_of(self.access));
        r
    }

    /// This access's row of the narrow table with the given columns.
    pub fn narrow_row(&self, columns: &Vec<usize>) -> (r: Vec<NarrowAccess>)
        ensures
            r@ == columns@.map_values(|id: usize| narrow_of(self.access, id)),
    {
        let mut r: Vec<NarrowAccess> = Vec::new();
        let mut i: usize = 0;
        while i < columns.len()
            invariant
                i <= columns@.len(),
                r@ == columns@.subrange(0, i as int).map_values(|id: usize| narrow_of(self.access, id)),
            decreases columns@.len() - i,
        {
            r.push(self.narrow(columns[i]));
            proof {
                assert(columns@.subrange(0, i + 1) =~= columns@.subrange(0, i as int).push(columns@[i as int]));
                assert(r@ =~= columns@.subrange(0, i + 1).map_values(|id: usize| narrow_of(self.access, id)));
            }
            i = i + 1;
        }
        assert(columns@.subrange(0, columns@.len() as int) =~= columns@);
        r
    }
}

/// A row of a conflict table: the system's name and its cells.
pub struct ConflictRow<C> {
    pub name: String,
    pub cells: Vec<C>,
}

/// The conflict report for a nested system that cannot run.
pub struct ConflictReport {
    /// The name of the system that was refused.
    pub new_name: String,
    /// Its row of the broad table.
    pub new_broad: Vec<BroadAccess>,
    /// The still-running systems that conflict with it on everything, with their rows.
    pub broad_rows: Vec<ConflictRow<BroadAccess>>,
    /// Indices of the components and resources the other systems conflict on, ascending.
    pub narrow_columns: Vec<usize>,
    /// The name of each of those, as registered.
    pub narrow_column_names: Vec<String>,
    /// The refused system's row of the narrow table.
    pub new_narrow: Vec<NarrowAccess>,
    /// The still-running systems that conflict with it on particular data, with their rows.
    pub narrow_rows: Vec<ConflictRow<NarrowAccess>>,
}

/// `d` conflicts with `new` on everything.
pub open spec fn conflicts_broadly(d: AccessDiags, new: SystemAccess) -> bool {
    access_conflicts(d.access, new) is None
}

/// Every index some still-running system of `prev` conflicts with `new` on, narrowly.
pub open spec fn narrow_conflict_ids(prev: Seq<AccessDiags>, new: SystemAccess) -> Set<usize> {
    Set::new(|id: usize| exists|j: int| 0 <= j < prev.len() && match access_conflicts(#[trigger] prev[j].access, new) {
        Some(ids) => ids.contains(id),
        None => false,
    })
}

proof fn lemma_narrow_ids_push(prev: Seq<AccessDiags>, d: AccessDiags, na: SystemAccess)
    ensures
        narrow_conflict_ids(prev.push(d), na) == match access_conflicts(d.access, na) {
            Some(ids) => narrow_conflict_ids(prev, na).union(ids),
            None => narrow_conflict_ids(prev, na),
        },
{
    let s = prev.push(d);
    let goal = match access_conflicts(d.access, na) {
        Some(ids) => narrow_conflict_ids(prev, na).union(ids),
        None => narrow_conflict_ids(prev, na),
    };
    assert forall|id: usize| #[trigger] narrow_conflict_ids(s, na).contains(id) implies goal.contains(id) by {
        let j = choose|j: int| 0 <= j < s.len() && match access_conflicts(#[trigger] s[j].access, na) {
            Some(ids) => ids.contains(id),
            None => false,
        };
        if j < prev.len() {
            assert(prev[j] == s[j]);
            assert(narrow_conflict_ids(prev, na).contains(id));
        } else {
            assert(s[j] == d);
        }
    }
    assert forall|id: usize| #[trigger] goal.contains(id) implies narrow_conflict_ids(s, na).contains(id) by {
        if narrow_conflict_ids(prev, na).contains(id) {
            let j = choose|j: int| 0 <= j < prev.len() && match access_conflicts(#[trigger] prev[j].access, na) {
                Some(ids) => ids.contains(id),
                None => false,
            };
            assert(prev[j] == s[j]);
            assert(s[j].access == prev[j].access);
        } else {
            assert(s[prev.len() as int] == d);
            assert(s[prev.len() as int].access == d.access);
        }
    }
    assert(narrow_conflict_ids(s, na) =~= goal);
}

proof fn lemma_filter_split(s: Seq<AccessDiags>, p: spec_fn(AccessDiags) -> bool)
    ensures
        s.filter(p).len() + s.filter(|d: AccessDiags| !p(d)).len() == s.len(),
    decreases s.len(),
{
    if s.len() > 0 {
        let init = s.drop_last();
        lemma_filter_split(init, p);
        init.lemma_filter_push(s.last(), p);
        init.lemma_filter_push(s.last(), |d: AccessDiags| !p(d));
        assert(init.push(s.last()) =~= s);
    }
}

/// The heading of a narrow column: the registered name, or a marker when unregistered.
pub open spec fn column_name(c: Components, id: usize) -> Seq<char> {
    match component_info(c, id) {
        Some(info) => component_info_name(info),
        None => "+++ERROR+++"@,
    }
}

/// `rows` are the broad rows of the systems `ds`, in order.
pub open spec fn broad_rows_of(rows: Seq<ConflictRow<BroadAccess>>, ds: Seq<AccessDiags>) -> bool {
    &&& rows.len() == ds.len()
    &&& forall|k: int| 0 <= k < rows.len() ==> {
        &&& (#[trigger] rows[k]).name@ == ds[k].name@
        &&& rows[k].cells@ == broad_row_of(ds[k].access)
    }
}

/// `rows` are the narrow rows of the systems `ds` over `columns`, in order.
pub open spec fn narrow_rows_of(rows: Seq<ConflictRow<NarrowAccess>>, ds: Seq<AccessDiags>, columns: Seq<usize>) -> bool {
    &&& rows.len() == ds.len()
    &&& forall|k: int| 0 <= k < rows.len() ==> {
        &&& (#[trigger] rows[k]).name@ == ds[k].name@
        &&& rows[k].cells@ == columns.map_values(|id: usize| narrow_of(ds[k].access, id))
    }
}

/// Lays out why `new` may not run while the systems `prev` are still running.
///
/// The systems that conflict with it on everything get a row of the broad table; the
/// others get a row of the narrow table, whose columns are every component or resource
/// any of them conflicts on, in index order. Both keep the order of `prev`.
pub fn diagnose_conflicts(components: &Components, new: AccessDiags, prev: Vec<AccessDiags>) -> (r: ConflictReport)
    ensures
        r.new_name@ == new.name@,
        r.new_broad@ == broad_row_of(new.access),
        broad_rows_of(r.broad_rows@, prev@.filter(|d: AccessDiags| conflicts_broadly(d, new.access))),
        r.narrow_columns@.to_set() == narrow_conflict_ids(prev@, new.access),
        forall|i: int, j: int| 0 <= i < j < r.narrow_columns@.len() ==> r.narrow_columns@[i] < r.narrow_columns@[j],
        r.narrow_column_names@.len() == r.narrow_columns@.len(),
        forall|i: int| 0 <= i < r.narrow_columns@.len() ==> (#[trigger] r.narrow_column_names@[i])@ == column_name(*components, r.narrow_columns@[i]),
        r.new_narrow@ == r.narrow_columns@.map_values(|id: usize| narrow_of(new.access, id)),
        narrow_rows_of(r.narrow_rows@, prev@.filter(|d: AccessDiags| !conflicts_broadly(d, new.access)), r.narrow_columns@),
        r.broad_rows@.len() + r.narrow_rows@.len() == prev@.len(),
{
    let ghost na = new.access;
    let ghost pv = prev@;
    let ghost broad_pred = |d: AccessDiags| conflicts_broadly(d, na);
    let ghost narrow_pred = |d: AccessDiags| !conflicts_broadly(d, na);
    let mut broad_rows: Vec<ConflictRow<BroadAccess>> = Vec::new();
    let mut narrow: Vec<AccessDiags> = Vec::new();
    let mut bits = bitset_new();
    let mut prev = prev;
    let total: usize = prev.len();
    let mut rest: Vec<AccessDiags> = Vec::new();
    // Take the systems from the back, then walk them front to back.
    while prev.len() > 0
        invariant
            rest@.len() + prev@.len() == pv.len(),
            pv.len() == total,
            prev@ == pv.subrange(0, prev@.len() as int),
            forall|k: int| 0 <= k < rest@.len() ==> #[trigger] rest@[k] == pv[pv.len() - 1 - k],
        decreases prev@.len(),
    {
        let d = prev.pop().unwrap();
        proof {
            assert(prev@ =~= pv.subrange(0, prev@.len() as int));
        }
        rest.push(d);
    }
    let mut i: usize = 0;
    while rest.len() > 0
        invariant
            i + rest@.len() == pv.len(),
            pv.len() == total,
            na == new.access,
            broad_pred == (|d: AccessDiags| conflicts_broadly(d, na)),
            narrow_pred == (|d: AccessDiags| !conflicts_broadly(d, na)),
            forall|k: int| 0 <= k < rest@.len() ==> #[trigger] rest@[k] == pv[pv.len() - 1 - k],
            broad_rows_of(broad_rows@, pv.subrange(0, i as int).filter(broad_pred)),
            narrow@ == pv.subrange(0, i as int).filter(narrow_pred),
            bitset_ones(bits) == narrow_conflict_ids(pv.subrange(0, i as int), na),
        decreases rest@.len(),
    {
        let d = rest.pop().unwrap();
        proof {
            assert(d == pv[i as int]);
            assert(pv.subrange(0, i + 1) =~= pv.subrange(0, i as int).push(d));
            pv.subrange(0, i as int).lemma_filter_push(d, broad_pred);
            pv.subrange(0, i as int).lemma_filter_push(d, narrow_pred);
        }
        let found = access_get_conflicts(&d.access, &new.access);
        match found {
            Conflicts::All => {
                let row = ConflictRow { name: d.name.clone(), cells: d.broad_row() };
                broad_rows.push(row);
                proof {
                    lemma_narrow_ids_push(pv.subrange(0, i as int), d, na);
                }
            },
            Conflicts::Individual(conf) => {
                let ghost old_bits = bitset_ones(bits);
                bitset_union_with(&mut bits, &conf);
                proof {
                    lemma_narrow_ids_push(pv.subrange(0, i as int), d, na);
                    assert(access_conflicts(d.access, na) == Some(bitset_ones(conf)));
                    assert(bitset_ones(bits) == old_bits.union(bitset_ones(conf)));
                    assert(old_bits == narrow_conflict_ids(pv.subrange(0, i as int), na));
                    assert(pv.subrange(0, i + 1) == pv.subrange(0, i as int).push(d));
                    assert(bitset_ones(bits) =~= narrow_conflict_ids(pv.subrange(0, i + 1), na));
                }
                narrow.push(d);
            },
        }
        i = i + 1;
    }
    proof {
        assert(pv.subrange(0, pv.len() as int) =~= pv);
    }
    let columns = bitset_ones_vec(&bits);
    let mut names: Vec<String> = Vec::new();
    let mut c: usize = 0;
    while c < columns.len()
        invariant
            c <= columns@.len(),
            names@.len() == c,
            forall|k: int| 0 <= k < c ==> (#[trigger] names@[k])@ == column_name(*components, columns@[k]),
        decreases columns@.len() - c,
    {
        let name = match components_get_info(components, columns[c]) {
            Some(info) => component_info_name_of(info),
            None => "+++ERROR+++".to_string(),
        };
        names.push(name);
        c = c + 1;
    }
    let new_broad = new.broad_row();
    let new_narrow = new.narrow_row(&columns);
    let mut narrow_rows: Vec<ConflictRow<NarrowAccess>> = Vec::new();
    let mut k: usize = 0;
    while k < narrow.len()
        invariant
            k <= narrow@.len(),
            narrow_rows_of(narrow_rows@, narrow@.subrange(0, k as int), columns@),
        decreases narrow@.len() - k,
    {
        let row = ConflictRow { name: narrow[k].name.clone(), cells: narrow[k].narrow_row(&columns) };
        narrow_rows.push(row);
        k = k + 1;
    }
    proof {
        assert(narrow@.subrange(0, narrow@.len() as int) =~= narrow@);
        lemma_filter_split(pv, broad_pred);
        assert((|d: AccessDiags| !broad_pred(d)) =~= narrow_pred);
    }
    ConflictReport {
        new_name: new.name,
        new_broad,
        broad_rows,
        narrow_columns: columns,
        narrow_column_names: names,
        new_narrow,
        narrow_rows,
    }
}

} // verus!
