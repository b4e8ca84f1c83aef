use vstd::prelude::*;
use crate::express::{
    Attribute, AttributeV, DataType, DataTypeV, Declaration, DeclarationV, Schema, TypeDefV,
    clone_attribute, clone_attribute_vec, clone_data_type, clone_string, clone_string_opt,
    clone_string_vec, data_type_view,
};
use crate::names::{camel_of, snake_of, to_camel_case, to_snake_case};
use crate::table::NameTable;

verus! {

/// Why analysis of a schema can fail: these are configuration errors of the
/// schema itself, and generation does not proceed past them.
#[derive(Debug)]
pub enum SchemaError {
    /// An entity is its own ancestor, so attribute flattening cannot
    /// terminate.
    SupertypeCycle { entity: String },
    /// Type definitions whose referenced names never became known, from a
    /// dependency cycle or an unknown reference.
    UnresolvedTypes { names: Vec<String> },
    /// An entity declares a supertype name that is no entity of the
    /// schema: the positional attribute mapping would silently lose the
    /// inherited attributes, so generation does not proceed.
    UnknownSupertype { entity: String, supertype: String },
}

/// Analyzer-derived metadata of one entity: camel-cased display name,
/// snake-cased attributes, and the declared supertype names.
pub struct EntityInfo {
    pub name: String,
    pub attributes: Vec<Attribute>,
    pub supertypes: Vec<String>,
}

pub struct EntityInfoV {
    pub name: Seq<char>,
    pub attributes: Seq<AttributeV>,
    pub supertypes: Seq<Seq<char>>,
}

impl View for EntityInfo {
    type V = EntityInfoV;

    open spec fn view(&self) -> EntityInfoV {
        EntityInfoV {
            name: self.name@,
            attributes: self.attributes.deep_view(),
            supertypes: self.supertypes.deep_view(),
        }
    }
}

impl DeepView for EntityInfo {
    type V = EntityInfoV;

    open spec fn deep_view(&self) -> EntityInfoV {
        self@
    }
}

/// Analyzer-derived metadata of one named type definition.
pub struct TypeInfo {
    pub is_entity: bool,
    pub underlying_type: DataType,
}

pub struct TypeInfoV {
    pub is_entity: bool,
    pub underlying_type: DataTypeV,
}

impl View for TypeInfo {
    type V = TypeInfoV;

    open spec fn view(&self) -> TypeInfoV {
        TypeInfoV { is_entity: self.is_entity, underlying_type: self.underlying_type@ }
    }
}

/// An attribute as the analyzer records it: the declared name snake-cased,
/// everything else unchanged.
pub open spec fn snake_attr(a: AttributeV) -> AttributeV {
    AttributeV {
        name: snake_of(a.name),
        supertype: a.supertype,
        data_type: a.data_type,
        optional: a.optional,
    }
}

/// The analyzer's record of one entity declaration.
pub open spec fn entity_info_of(e: crate::express::EntityV) -> EntityInfoV {
    EntityInfoV {
        name: camel_of(e.name),
        attributes: Seq::new(e.attributes.len(), |i: int| snake_attr(e.attributes[i])),
        supertypes: e.supertypes,
    }
}

/// The entity table of a declaration list: one record per entity
/// declaration, keyed by declared name, later declarations winning.
pub open spec fn collect_entities(decls: Seq<DeclarationV>) -> Map<Seq<char>, EntityInfoV>
    decreases decls.len(),
{
    if decls.len() == 0 {
        Map::empty()
    } else {
        let m = collect_entities(decls.drop_last());
        match decls.last() {
            DeclarationV::Entity(e) => m.insert(e.name, entity_info_of(e)),
            _ => m,
        }
    }
}

/// The type definitions of a declaration list, in source order.
pub open spec fn typedefs_of(decls: Seq<DeclarationV>) -> Seq<TypeDefV>
    decreases decls.len(),
{
    if decls.len() == 0 {
        Seq::empty()
    } else {
        let s = typedefs_of(decls.drop_last());
        match decls.last() {
            DeclarationV::TypeDef(t) => s.push(t),
            _ => s,
        }
    }
}

/// A type definition is ready once every name a select refers to is known;
/// definitions other than selects never wait.
pub open spec fn select_ready(
    td: TypeDefV,
    ents: Map<Seq<char>, EntityInfoV>,
    typs: Map<Seq<char>, TypeInfoV>,
) -> bool {
    match td.underlying_type {
        DataTypeV::Select { types } => forall|i: int|
            0 <= i < types.len() ==> ents.contains_key(types[i]) || typs.contains_key(types[i]),
        _ => true,
    }
}

/// A select definition stands for entities when every member is an entity
/// or a type already known to stand for entities.
pub open spec fn select_is_entity(
    td: TypeDefV,
    ents: Map<Seq<char>, EntityInfoV>,
    typs: Map<Seq<char>, TypeInfoV>,
) -> bool {
    match td.underlying_type {
        DataTypeV::Select { types } => forall|i: int|
            0 <= i < types.len() ==> ents.contains_key(types[i]) || (typs.contains_key(types[i])
                && typs[types[i]].is_entity),
        _ => false,
    }
}

/// One resolution pass over the pending definitions, in order: each ready
/// definition is admitted, the rest are kept for the next pass.
pub open spec fn pass_types(
    pending: Seq<TypeDefV>,
    ents: Map<Seq<char>, EntityInfoV>,
    typs: Map<Seq<char>, TypeInfoV>,
) -> (Map<Seq<char>, TypeInfoV>, Seq<TypeDefV>)
    decreases pending.len(),
{
    if pending.len() == 0 {
        (typs, Seq::empty())
    } else {
        let td = pending[0];
        let rest = pending.drop_first();
        if select_ready(td, ents, typs) {
            pass_types(
                rest,
                ents,
                typs.insert(
                    td.name,
                    TypeInfoV {
                        is_entity: select_is_entity(td, ents, typs),
                        underlying_type: td.underlying_type,
                    },
                ),
            )
        } else {
            let r = pass_types(rest, ents, typs);
            (r.0, seq![td] + r.1)
        }
    }
}

/// Fixpoint resolution: repeat passes until nothing is pending or a pass
/// admits nothing more; whatever remains is unresolved.
pub open spec fn resolve_types(
    pending: Seq<TypeDefV>,
    ents: Map<Seq<char>, EntityInfoV>,
    typs: Map<Seq<char>, TypeInfoV>,
    fuel: nat,
) -> (Map<Seq<char>, TypeInfoV>, Seq<TypeDefV>)
    decreases fuel,
{
    if fuel == 0 || pending.len() == 0 {
        (typs, pending)
    } else {
        let r = pass_types(pending, ents, typs);
        if r.1.len() == pending.len() {
            r
        } else {
            resolve_types(r.1, ents, r.0, (fuel - 1) as nat)
        }
    }
}

/// The fully resolved type table of a declaration list, with whatever
/// definitions could not be resolved.
pub open spec fn collect_types_spec(decls: Seq<DeclarationV>) -> (
    Map<Seq<char>, TypeInfoV>,
    Seq<TypeDefV>,
) {
    resolve_types(
        typedefs_of(decls),
        collect_entities(decls),
        Map::empty(),
        typedefs_of(decls).len(),
    )
}

/// A pending type definition during fixpoint resolution; what remains
/// unresolved is reported through these.
pub struct PendingDef {
    pub name: String,
    pub underlying_type: DataType,
}

impl View for PendingDef {
    type V = TypeDefV;

    open spec fn view(&self) -> TypeDefV {
        TypeDefV { name: self.name@, underlying_type: self.underlying_type@ }
    }
}

impl DeepView for PendingDef {
    type V = TypeDefV;

    open spec fn deep_view(&self) -> TypeDefV {
        self@
    }
}

fn clone_pending(p: &PendingDef) -> (r: PendingDef)
    ensures
        r@ == p@,
{
    PendingDef {
        name: clone_string(&p.name),
        underlying_type: clone_data_type(&p.underlying_type),
    }
}

/// Builds the analyzer's entity table from the schema declarations.
#[verifier::loop_isolation(false)]
pub fn collect_entity_infos(schema: &Schema) -> (r: NameTable<EntityInfo>)
    ensures
        r.wf(),
        r.map_view() == collect_entities(schema@.declarations),
{
    let decls = &schema.declarations;
    let mut table: NameTable<EntityInfo> = NameTable::new();
    let mut i: usize = 0;
    proof {
        assert(decls.deep_view().take(0) =~= Seq::<DeclarationV>::empty());
    }
    while i < decls.len()
        invariant
            i <= decls.len(),
            table.wf(),
            table.map_view() == collect_entities(decls.deep_view().take(i as int)),
        decreases decls.len() - i,
    {
        match &decls[i] {
            Declaration::Entity(entity) => {
                let mut attrs: Vec<Attribute> = Vec::new();
                let mut j: usize = 0;
                while j < entity.attributes.len()
                    invariant
                        j <= entity.attributes.len(),
                        attrs.len() == j,
                        forall|k: int|
                            0 <= k < j ==> attrs.deep_view()[k] == snake_attr(
                                entity.attributes.deep_view()[k],
                            ),
                    decreases entity.attributes.len() - j,
                {
                    let a = &entity.attributes[j];
                    let built = Attribute {
                        name: to_snake_case(a.name.as_str()),
                        supertype: clone_string_opt(&a.supertype),
                        data_type: clone_data_type(&a.data_type),
                        optional: a.optional,
                    };
                    proof {
                        assert(built@.name == snake_attr(entity.attributes.deep_view()[j as int]).name);
                        assert(built@.supertype == snake_attr(
                            entity.attributes.deep_view()[j as int],
                        ).supertype);
                        assert(built@ == snake_attr(entity.attributes.deep_view()[j as int]));
                    }
                    let ghost prevdv = attrs.deep_view();
                    attrs.push(built);
                    proof {
                        assert(attrs.deep_view() =~= prevdv.push(built@));
                    }
                    j = j + 1;
                }
                let info = EntityInfo {
                    name: to_camel_case(entity.name.as_str()),
                    attributes: attrs,
                    supertypes: clone_string_vec(&entity.supertypes),
                };
                proof {
                    assert(info@.attributes =~= entity_info_of(entity@).attributes);
                    assert(info@.supertypes =~= entity_info_of(entity@).supertypes);
                }
                table.insert(clone_string(&entity.name), info);
            },
            _ => {},
        }
        proof {
            assert(decls.deep_view().take(i + 1).drop_last() =~= decls.deep_view().take(i as int));
            assert(decls.deep_view().take(i + 1).last() == decls[i as int]@);
        }
        i = i + 1;
    }
    proof {
        assert(decls.deep_view().take(decls.len() as int) =~= decls.deep_view());
    }
    table
}

/// Collects the pending type definitions of the schema, in source order.
#[verifier::loop_isolation(false)]
pub fn collect_pending(schema: &Schema) -> (r: Vec<PendingDef>)
    ensures
        r.deep_view() == typedefs_of(schema@.declarations),
{
    let decls = &schema.declarations;
    let mut out: Vec<PendingDef> = Vec::new();
    let mut i: usize = 0;
    proof {
        assert(decls.deep_view().take(0) =~= Seq::<DeclarationV>::empty());
        assert(out.deep_view() =~= typedefs_of(decls.deep_view().take(0)));
    }
    while i < decls.len()
        invariant
            i <= decls.len(),
            out.deep_view() == typedefs_of(decls.deep_view().take(i as int)),
        decreases decls.len() - i,
    {
        match &decls[i] {
            Declaration::TypeDef(td) => {
                out.push(
                    PendingDef {
                        name: clone_string(&td.name),
                        underlying_type: clone_data_type(&td.underlying_type),
                    },
                );
            },
            _ => {},
        }
        proof {
            assert(decls.deep_view().take(i + 1).drop_last() =~= decls.deep_view().take(i as int));
            assert(decls.deep_view().take(i + 1).last() == decls[i as int]@);
            assert(out.deep_view() =~= typedefs_of(decls.deep_view().take(i + 1)));
        }
        i = i + 1;
    }
    proof {
        assert(decls.deep_view().take(decls.len() as int) =~= decls.deep_view());
    }
    out
}

/// Whether every name a select definition refers to is already known.
#[verifier::loop_isolation(false)]
fn is_select_ready(
    td: &PendingDef,
    ents: &NameTable<EntityInfo>,
    typs: &NameTable<TypeInfo>,
) -> (r: bool)
    requires
        ents.wf(),
        typs.wf(),
    ensures
        r == select_ready(td@, ents.map_view(), typs.map_view()),
{
    match &td.underlying_type {
        DataType::Select { types } => {
            let mut i: usize = 0;
            while i < types.len()
                invariant
                    i <= types.len(),
                    ents.wf(),
                    typs.wf(),
                    forall|k: int|
                        0 <= k < i ==> ents.map_view().contains_key(types.deep_view()[k])
                            || typs.map_view().contains_key(types.deep_view()[k]),
                decreases types.len() - i,
            {
                if !ents.contains(&types[i]) && !typs.contains(&types[i]) {
                    proof {
                        let ghost tys = types.deep_view();
                        assert(td@.underlying_type == DataTypeV::Select { types: tys });
                        assert(!(ents.map_view().contains_key(tys[i as int])
                            || typs.map_view().contains_key(tys[i as int])));
                        assert(!select_ready(td@, ents.map_view(), typs.map_view()));
                    }
                    return false;
                }
                i = i + 1;
            }
            true
        },
        _ => true,
    }
}

/// Whether a ready select definition stands for entities only.
#[verifier::loop_isolation(false)]
fn is_select_entity(
    td: &PendingDef,
    ents: &NameTable<EntityInfo>,
    typs: &NameTable<TypeInfo>,
) -> (r: bool)
    requires
        ents.wf(),
        typs.wf(),
    ensures
        r == select_is_entity(td@, ents.map_view(), typs.map_view()),
{
    match &td.underlying_type {
        DataType::Select { types } => {
            let mut i: usize = 0;
            while i < types.len()
                invariant
                    i <= types.len(),
                    ents.wf(),
                    typs.wf(),
                    forall|k: int|
                        0 <= k < i ==> ents.map_view().contains_key(types.deep_view()[k]) || (
                        typs.map_view().contains_key(types.deep_view()[k])
                            && typs.map_view()[types.deep_view()[k]].is_entity),
                decreases types.len() - i,
            {
                let known_entity = ents.contains(&types[i]);
                let mut ok = known_entity;
                if !known_entity {
                    match typs.get(&types[i]) {
                        Option::Some(info) => {
                            ok = info.is_entity;
                        },
                        Option::None => {
                            ok = false;
                        },
                    }
                }
                if !ok {
                    proof {
                        let ghost tys = types.deep_view();
                        assert(td@.underlying_type == DataTypeV::Select { types: tys });
                        assert(!(ents.map_view().contains_key(tys[i as int]) || (
                        typs.map_view().contains_key(tys[i as int])
                            && typs.map_view()[tys[i as int]].is_entity)));
                        assert(!select_is_entity(td@, ents.map_view(), typs.map_view()));
                    }
                    return false;
                }
                i = i + 1;
            }
            true
        },
        _ => false,
    }
}

/// One in-order pass over the pending definitions.
#[verifier::loop_isolation(false)]
fn run_pass(
    pending: &Vec<PendingDef>,
    ents: &NameTable<EntityInfo>,
    typs: NameTable<TypeInfo>,
) -> (r: (NameTable<TypeInfo>, Vec<PendingDef>))
    requires
        ents.wf(),
        typs.wf(),
    ensures
        r.0.wf(),
        (r.0.map_view(), r.1.deep_view()) == pass_types(
            pending.deep_view(),
            ents.map_view(),
            typs.map_view(),
        ),
{
    let ghost p0 = pending.deep_view();
    let ghost t0 = typs.map_view();
    let mut table = typs;
    let mut next: Vec<PendingDef> = Vec::new();
    let mut i: usize = 0;
    proof {
        assert(p0.skip(0) =~= p0);
        assert(next.deep_view() + pass_types(p0, ents.map_view(), t0).1 =~= pass_types(
            p0,
            ents.map_view(),
            t0,
        ).1);
    }
    while i < pending.len()
        invariant
            i <= pending.len(),
            ents.wf(),
            table.wf(),
            p0 == pending.deep_view(),
            pass_types(p0, ents.map_view(), t0).0 == pass_types(
                p0.skip(i as int),
                ents.map_view(),
                table.map_view(),
            ).0,
            pass_types(p0, ents.map_view(), t0).1 == next.deep_view() + pass_types(
                p0.skip(i as int),
                ents.map_view(),
                table.map_view(),
            ).1,
        decreases pending.len() - i,
    {
        let td = &pending[i];
        proof {
            assert(p0.skip(i as int)[0] == td@);
            assert(p0.skip(i as int).drop_first() =~= p0.skip(i + 1));
        }
        if is_select_ready(td, ents, &table) {
            let is_entity = is_select_entity(td, ents, &table);
            let info = TypeInfo {
                is_entity,
                underlying_type: clone_data_type(&td.underlying_type),
            };
            table.insert(clone_string(&td.name), info);
        } else {
            next.push(clone_pending(td));
        }
        proof {
            assert(next.deep_view() + pass_types(
                p0.skip(i + 1),
                ents.map_view(),
                table.map_view(),
            ).1 =~= pass_types(p0, ents.map_view(), t0).1);
        }
        i = i + 1;
    }
    proof {
        assert(p0.skip(pending.len() as int) =~= Seq::<TypeDefV>::empty());
        assert(next.deep_view() + Seq::<TypeDefV>::empty() =~= next.deep_view());
    }
    (table, next)
}

/// Fixpoint resolution of the schema's type definitions.
#[verifier::loop_isolation(false)]
pub fn collect_type_infos(schema: &Schema, ents: &NameTable<EntityInfo>) -> (r: (
    NameTable<TypeInfo>,
    Vec<PendingDef>,
))
    requires
        ents.wf(),
        ents.map_view() == collect_entities(schema@.declarations),
    ensures
        r.0.wf(),
        (r.0.map_view(), r.1.deep_view()) == collect_types_spec(schema@.declarations),
{
    let pending0 = collect_pending(schema);
    let ghost decls = schema@.declarations;
    let fuel0 = pending0.len();
    let mut fuel = fuel0;
    let mut cur = pending0;
    let mut table: NameTable<TypeInfo> = NameTable::new();
    proof {
        assert(fuel0 as nat == typedefs_of(decls).len());
    }
    loop
        invariant
            ents.wf(),
            table.wf(),
            ents.map_view() == collect_entities(decls),
            resolve_types(typedefs_of(decls), ents.map_view(), Map::empty(), fuel0 as nat)
                == resolve_types(cur.deep_view(), ents.map_view(), table.map_view(), fuel as nat),
            collect_types_spec(decls) == resolve_types(
                typedefs_of(decls),
                ents.map_view(),
                Map::empty(),
                fuel0 as nat,
            ),
        decreases fuel,
    {
        if fuel == 0 || cur.len() == 0 {
            proof {
                assert(resolve_types(
                    cur.deep_view(),
                    ents.map_view(),
                    table.map_view(),
                    fuel as nat,
                ) == (table.map_view(), cur.deep_view()));
            }
            return (table, cur);
        }
        let ghost tprev = table.map_view();
        let ghost cprev = cur.deep_view();
        let r = run_pass(&cur, ents, table);
        let next = r.1;
        proof {
            assert((r.0.map_view(), next.deep_view()) == pass_types(
                cprev,
                ents.map_view(),
                tprev,
            ));
        }
        if next.len() == cur.len() {
            proof {
                assert(next.deep_view().len() == cprev.len());
                assert(resolve_types(cprev, ents.map_view(), tprev, fuel as nat) == (
                    r.0.map_view(),
                    next.deep_view(),
                ));
            }
            return (r.0, next);
        }
        proof {
            assert(next.deep_view().len() != cprev.len());
            assert(resolve_types(cprev, ents.map_view(), tprev, fuel as nat) == resolve_types(
                next.deep_view(),
                ents.map_view(),
                r.0.map_view(),
                (fuel - 1) as nat,
            ));
        }
        table = r.0;
        cur = next;
        fuel = fuel - 1;
    }
}

/// Whether some attribute in the sequence bears the given name.
pub open spec fn contains_name(s: Seq<AttributeV>, n: Seq<char>) -> bool {
    exists|i: int| 0 <= i < s.len() && s[i].name == n
}

pub proof fn lemma_contains_name_concat(a: Seq<AttributeV>, b: Seq<AttributeV>, n: Seq<char>)
    ensures
        contains_name(a + b, n) == (contains_name(a, n) || contains_name(b, n)),
{
    if contains_name(a, n) {
        let i = choose|i: int| 0 <= i < a.len() && a[i].name == n;
        assert((a + b)[i].name == n);
    }
    if contains_name(b, n) {
        let i = choose|i: int| 0 <= i < b.len() && b[i].name == n;
        assert((a + b)[a.len() + i].name == n);
    }
    if contains_name(a + b, n) {
        let i = choose|i: int| 0 <= i < (a + b).len() && (a + b)[i].name == n;
        if i < a.len() {
            assert(a[i].name == n);
        } else {
            assert(b[i - a.len()].name == n);
        }
    }
}

/// The attributes of `inherited` whose names are not already taken by
/// `seen`, in order: the suppression step of attribute flattening.
pub open spec fn suppress_shadowed(inherited: Seq<AttributeV>, seen: Seq<AttributeV>) -> Seq<
    AttributeV,
>
    decreases inherited.len(),
{
    if inherited.len() == 0 {
        Seq::empty()
    } else {
        let front = suppress_shadowed(inherited.drop_last(), seen);
        if contains_name(seen, inherited.last().name) {
            front
        } else {
            front.push(inherited.last())
        }
    }
}

/// The flattened attribute list of an entity: every supertype's flattening
/// first, in declared order, each suppressed of names already present in
/// the entity's own attributes or in an earlier contribution, then the
/// entity's own attributes.  `None` means the supertype graph is cyclic.
pub open spec fn flatten_attrs(
    m: Map<Seq<char>, EntityInfoV>,
    name: Seq<char>,
    fuel: nat,
) -> Option<Seq<AttributeV>>
    decreases fuel, 0nat, 0nat,
{
    if !m.contains_key(name) {
        Option::Some(Seq::empty())
    } else if fuel == 0 {
        Option::None
    } else {
        let info = m[name];
        match flatten_parents(m, info.supertypes, info.attributes, Seq::empty(), (fuel - 1) as nat) {
            Option::Some(inherited) => Option::Some(inherited + info.attributes),
            Option::None => Option::None,
        }
    }
}

/// The inherited part of a flattening: the parents processed left to
/// right, accumulating suppressed contributions.
pub open spec fn flatten_parents(
    m: Map<Seq<char>, EntityInfoV>,
    parents: Seq<Seq<char>>,
    own: Seq<AttributeV>,
    acc: Seq<AttributeV>,
    fuel: nat,
) -> Option<Seq<AttributeV>>
    decreases fuel, 1nat, parents.len(),
{
    if parents.len() == 0 {
        Option::Some(acc)
    } else {
        match flatten_attrs(m, parents[0], fuel) {
            Option::Some(pattrs) => flatten_parents(
                m,
                parents.drop_first(),
                own,
                acc + suppress_shadowed(pattrs, own + acc),
                fuel,
            ),
            Option::None => Option::None,
        }
    }
}

fn contains_attr_name(v: &Vec<Attribute>, name: &String) -> (r: bool)
    ensures
        r == contains_name(v.deep_view(), name@),
{
    let mut i: usize = 0;
    while i < v.len()
        invariant
            i <= v.len(),
            forall|k: int| 0 <= k < i ==> v.deep_view()[k].name != name@,
        decreases v.len() - i,
    {
        if v[i].name.eq(name) {
            proof {
                assert(v.deep_view()[i as int].name == name@);
            }
            return true;
        }
        i = i + 1;
    }
    proof {
        if contains_name(v.deep_view(), name@) {
            let k = choose|k: int| 0 <= k < v.deep_view().len() && v.deep_view()[k].name == name@;
            assert(false);
        }
    }
    false
}

/// The flattened attribute list of the named entity: supertype attributes
/// in declared supertype order, names shadowed by the entity's own
/// attributes or by an earlier supertype suppressed, own attributes last.
/// An unknown name flattens to nothing; a supertype cycle is an error.
#[verifier::loop_isolation(false)]
pub fn get_entity_attributes(
    ents: &NameTable<EntityInfo>,
    name: &String,
    fuel: usize,
) -> (r: Result<Vec<Attribute>, SchemaError>)
    requires
        ents.wf(),
    ensures
        match r {
            Result::Ok(v) => flatten_attrs(ents.map_view(), name@, fuel as nat) == Option::Some(
                v.deep_view(),
            ),
            Result::Err(e) => flatten_attrs(ents.map_view(), name@, fuel as nat) is None && e
                is SupertypeCycle,
        },
    decreases fuel,
{
    let ghost m = ents.map_view();
    match ents.get(name) {
        Option::None => {
            let empty: Vec<Attribute> = Vec::new();
            proof {
                assert(empty.deep_view() =~= Seq::<AttributeV>::empty());
            }
            Result::Ok(empty)
        },
        Option::Some(info) => {
            if fuel == 0 {
                return Result::Err(SchemaError::SupertypeCycle { entity: clone_string(name) });
            }
            let ghost own = info@.attributes;
            let mut acc: Vec<Attribute> = Vec::new();
            let mut p: usize = 0;
            proof {
                assert(info@.supertypes.skip(0) =~= info@.supertypes);
                assert(acc.deep_view() =~= Seq::<AttributeV>::empty());
            }
            while p < info.supertypes.len()
                invariant
                    p <= info.supertypes.len(),
                    flatten_parents(m, info@.supertypes, own, Seq::empty(), (fuel - 1) as nat)
                        == flatten_parents(
                        m,
                        info@.supertypes.skip(p as int),
                        own,
                        acc.deep_view(),
                        (fuel - 1) as nat,
                    ),
                decreases info.supertypes.len() - p,
            {
                proof {
                    let ghost pidx = p as int;
                    assert(info@.supertypes.skip(pidx)[0] == info.supertypes.deep_view()[pidx]);
                    assert(info@.supertypes.skip(pidx).drop_first() =~= info@.supertypes.skip(
                        pidx + 1,
                    ));
                }
                let sub = get_entity_attributes(ents, &info.supertypes[p], fuel - 1);
                match sub {
                    Result::Err(e) => {
                        return Result::Err(SchemaError::SupertypeCycle {
                            entity: clone_string(name),
                        });
                    },
                    Result::Ok(pattrs) => {
                        let ghost acc0 = acc.deep_view();
                        let ghost pv = pattrs.deep_view();
                        let mut filtered: Vec<Attribute> = Vec::new();
                        let mut q: usize = 0;
                        proof {
                            assert(filtered.deep_view() =~= suppress_shadowed(
                                pv.take(0),
                                own + acc0,
                            ));
                        }
                        while q < pattrs.len()
                            invariant
                                q <= pattrs.len(),
                                acc.deep_view() == acc0,
                                pattrs.deep_view() == pv,
                                filtered.deep_view() == suppress_shadowed(
                                    pv.take(q as int),
                                    own + acc0,
                                ),
                            decreases pattrs.len() - q,
                        {
                            proof {
                                assert(pv.take(q + 1).drop_last() =~= pv.take(q as int));
                                assert(pv.take(q + 1).last() == pv[q as int]);
                            }
                            let in_own = contains_attr_name(&info.attributes, &pattrs[q].name);
                            let in_acc = contains_attr_name(&acc, &pattrs[q].name);
                            proof {
                                lemma_contains_name_concat(own, acc0, pv[q as int].name);
                            }
                            if !in_own && !in_acc {
                                let ghost fprev = filtered.deep_view();
                                filtered.push(clone_attribute(&pattrs[q]));
                                proof {
                                    assert(filtered.deep_view() =~= fprev.push(pv[q as int]));
                                }
                            }
                            q = q + 1;
                        }
                        proof {
                            assert(pv.take(pattrs.len() as int) =~= pv);
                        }
                        let ghost fdv = filtered.deep_view();
                        let mut fi: usize = 0;
                        while fi < filtered.len()
                            invariant
                                fi <= filtered.len(),
                                filtered.deep_view() == fdv,
                                acc.deep_view() == acc0 + fdv.take(fi as int),
                            decreases filtered.len() - fi,
                        {
                            let ghost aprev = acc.deep_view();
                            acc.push(clone_attribute(&filtered[fi]));
                            proof {
                                assert(acc.deep_view() =~= aprev.push(fdv[fi as int]));
                                assert(acc.deep_view() =~= acc0 + fdv.take(fi + 1));
                            }
                            fi = fi + 1;
                        }
                        proof {
                            assert(fdv.take(filtered.len() as int) =~= fdv);
                            assert(acc.deep_view() =~= acc0 + suppress_shadowed(pv, own + acc0));
                        }
                    },
                }
                p = p + 1;
            }
            proof {
                assert(info@.supertypes.skip(info.supertypes.len() as int) =~= Seq::<
                    Seq<char>,
                >::empty());
            }
            let ghost inherited = acc.deep_view();
            let mut oi: usize = 0;
            while oi < info.attributes.len()
                invariant
                    oi <= info.attributes.len(),
                    acc.deep_view() == inherited + own.take(oi as int),
                decreases info.attributes.len() - oi,
            {
                let ghost aprev = acc.deep_view();
                acc.push(clone_attribute(&info.attributes[oi]));
                proof {
                    assert(acc.deep_view() =~= aprev.push(own[oi as int]));
                    assert(acc.deep_view() =~= inherited + own.take(oi + 1));
                }
                oi = oi + 1;
            }
            proof {
                assert(own.take(info.attributes.len() as int) =~= own);
                assert(acc.deep_view() =~= inherited + own);
            }
            Result::Ok(acc)
        },
    }
}


/// No two attributes in the sequence share a name.
pub open spec fn attr_names_unique(s: Seq<AttributeV>) -> bool {
    forall|i: int, j: int| 0 <= i < j < s.len() ==> s[i].name != s[j].name
}

/// Every entity's own recorded attribute list is name-unique.
pub open spec fn entities_own_unique(m: Map<Seq<char>, EntityInfoV>) -> bool {
    forall|n: Seq<char>| m.contains_key(n) ==> attr_names_unique(#[trigger] m[n].attributes)
}

/// The suppression step keeps only attributes whose names `seen` does not
/// hold, keeps them in order, and never invents one.
pub proof fn lemma_suppress_shadowed_props(inherited: Seq<AttributeV>, seen: Seq<AttributeV>)
    ensures
        forall|k: int|
            0 <= k < suppress_shadowed(inherited, seen).len() ==> !contains_name(
                seen,
                #[trigger] suppress_shadowed(inherited, seen)[k].name,
            ),
        forall|k: int|
            0 <= k < suppress_shadowed(inherited, seen).len() ==> inherited.contains(
                #[trigger] suppress_shadowed(inherited, seen)[k],
            ),
        attr_names_unique(inherited) ==> attr_names_unique(suppress_shadowed(inherited, seen)),
    decreases inherited.len(),
{
    if inherited.len() == 0 {
    } else {
        lemma_suppress_shadowed_props(inherited.drop_last(), seen);
        let front = suppress_shadowed(inherited.drop_last(), seen);
        let whole = suppress_shadowed(inherited, seen);
        assert(forall|k: int|
            0 <= k < inherited.drop_last().len() ==> inherited.drop_last()[k] == inherited[k]);
        assert(forall|k: int|
            0 <= k < front.len() ==> inherited.contains(#[trigger] front[k])) by {
            assert forall|k: int| 0 <= k < front.len() implies inherited.contains(
                #[trigger] front[k],
            ) by {
                let j = choose|j: int|
                    0 <= j < inherited.drop_last().len() && inherited.drop_last()[j] == front[k];
                assert(inherited[j] == front[k]);
            }
        }
        if attr_names_unique(inherited) {
            assert(attr_names_unique(inherited.drop_last()));
            if !contains_name(seen, inherited.last().name) {
                assert forall|k: int| 0 <= k < front.len() implies front[k].name
                    != inherited.last().name by {
                    let j = choose|j: int|
                        0 <= j < inherited.drop_last().len() && inherited.drop_last()[j] == front[
                        k];
                    assert(inherited[j].name != inherited.last().name);
                }
                assert(attr_names_unique(whole));
            }
        }
    }
}

/// Attributes appended by `flatten_parents` are name-unique and none of
/// their names is taken by the entity's own attributes, provided the
/// accumulator already satisfied both.
pub proof fn lemma_flatten_parents_unique(
    m: Map<Seq<char>, EntityInfoV>,
    parents: Seq<Seq<char>>,
    own: Seq<AttributeV>,
    acc: Seq<AttributeV>,
    fuel: nat,
)
    requires
        entities_own_unique(m),
        attr_names_unique(acc),
        forall|i: int| 0 <= i < acc.len() ==> !contains_name(own, #[trigger] acc[i].name),
    ensures
        flatten_parents(m, parents, own, acc, fuel) matches Option::Some(res)
            ==> attr_names_unique(res) && (forall|i: int|
            0 <= i < res.len() ==> !contains_name(own, #[trigger] res[i].name)),
    decreases fuel, 1nat, parents.len(),
{
    if parents.len() == 0 {
    } else {
        match flatten_attrs(m, parents[0], fuel) {
            Option::Some(pattrs) => {
                lemma_flatten_unique(m, parents[0], fuel);
                let filtered = suppress_shadowed(pattrs, own + acc);
                lemma_suppress_shadowed_props(pattrs, own + acc);
                let acc2 = acc + filtered;
                assert forall|i: int| 0 <= i < acc2.len() implies !contains_name(
                    own,
                    #[trigger] acc2[i].name,
                ) by {
                    if i < acc.len() {
                        assert(acc2[i] == acc[i]);
                    } else {
                        assert(acc2[i] == filtered[i - acc.len()]);
                        lemma_contains_name_concat(own, acc, acc2[i].name);
                    }
                }
                assert(attr_names_unique(acc2)) by {
                    assert forall|i: int, j: int| 0 <= i < j < acc2.len() implies acc2[i].name
                        != acc2[j].name by {
                        if j < acc.len() {
                        } else if i >= acc.len() {
                            assert(acc2[i] == filtered[i - acc.len()]);
                            assert(acc2[j] == filtered[j - acc.len()]);
                        } else {
                            assert(acc2[i] == acc[i]);
                            assert(acc2[j] == filtered[j - acc.len()]);
                            assert(!contains_name(own + acc, acc2[j].name));
                            lemma_contains_name_concat(own, acc, acc2[j].name);
                            assert(!contains_name(acc, acc2[j].name));
                            if acc2[i].name == acc2[j].name {
                                assert(contains_name(acc, acc2[j].name));
                            }
                        }
                    }
                }
                lemma_flatten_parents_unique(m, parents.drop_first(), own, acc2, fuel);
            },
            Option::None => {},
        }
    }
}

/// Law: a flattened attribute list never repeats a name, as long as each
/// entity's own declared list does not.
pub proof fn lemma_flatten_unique(m: Map<Seq<char>, EntityInfoV>, name: Seq<char>, fuel: nat)
    requires
        entities_own_unique(m),
    ensures
        flatten_attrs(m, name, fuel) matches Option::Some(l) ==> attr_names_unique(l),
    decreases fuel, 0nat, 0nat,
{
    if !m.contains_key(name) {
    } else if fuel == 0 {
    } else {
        let info = m[name];
        let own = info.attributes;
        lemma_flatten_parents_unique(m, info.supertypes, own, Seq::empty(), (fuel - 1) as nat);
        match flatten_parents(m, info.supertypes, own, Seq::empty(), (fuel - 1) as nat) {
            Option::Some(inherited) => {
                let l = inherited + own;
                assert(attr_names_unique(l)) by {
                    assert forall|i: int, j: int| 0 <= i < j < l.len() implies l[i].name
                        != l[j].name by {
                        if j < inherited.len() {
                        } else if i >= inherited.len() {
                            assert(l[i] == own[i - inherited.len()]);
                            assert(l[j] == own[j - inherited.len()]);
                        } else {
                            assert(l[i] == inherited[i]);
                            assert(l[j] == own[j - inherited.len()]);
                            if l[i].name == l[j].name {
                                assert(contains_name(own, inherited[i].name));
                            }
                        }
                    }
                }
            },
            Option::None => {},
        }
    }
}

/// The right-hand side of the flattening law: the inherited fold over the
/// declared supertypes, with the entity's own attributes appended last.
pub open spec fn flatten_unfolded(
    m: Map<Seq<char>, EntityInfoV>,
    name: Seq<char>,
    fuel: nat,
) -> Option<Seq<AttributeV>> {
    match flatten_parents(
        m,
        m[name].supertypes,
        m[name].attributes,
        Seq::empty(),
        (fuel - 1) as nat,
    ) {
        Option::Some(inherited) => Option::Some(inherited + m[name].attributes),
        Option::None => Option::None,
    }
}

/// Law: for an entity the table knows, flattening is the supertypes'
/// flattenings folded in declared order, each suppressed of names already
/// present, with the entity's own attributes appended last.
pub proof fn lemma_flatten_attributes_concat(
    m: Map<Seq<char>, EntityInfoV>,
    name: Seq<char>,
    fuel: nat,
)
    requires
        m.contains_key(name),
        fuel > 0,
    ensures
        flatten_attrs(m, name, fuel) == flatten_unfolded(m, name, fuel),
{
}

/// Law: one step of the inherited fold appends the first parent's
/// flattening, suppressed of every name in the own attributes or the
/// accumulator, and goes on with the remaining parents.
pub proof fn lemma_flatten_parents_step(
    m: Map<Seq<char>, EntityInfoV>,
    parents: Seq<Seq<char>>,
    own: Seq<AttributeV>,
    acc: Seq<AttributeV>,
    fuel: nat,
)
    requires
        parents.len() > 0,
        (flatten_attrs(m, parents[0], fuel) is Some),
    ensures
        flatten_parents(m, parents, own, acc, fuel) == flatten_parents(
            m,
            parents.drop_first(),
            own,
            acc + suppress_shadowed(flatten_attrs(m, parents[0], fuel)->Some_0, own + acc),
            fuel,
        ),
{
}


/// Whether some entity record in the sequence bears the given camel-cased
/// display name.
pub open spec fn contains_info_name(s: Seq<EntityInfoV>, n: Seq<char>) -> bool {
    exists|i: int| 0 <= i < s.len() && s[i].name == n
}

/// First-seen-wins de-duplication of entity records by display name.
pub open spec fn dedup_by_name(s: Seq<EntityInfoV>) -> Seq<EntityInfoV>
    decreases s.len(),
{
    if s.len() == 0 {
        Seq::empty()
    } else {
        let front = dedup_by_name(s.drop_last());
        if contains_info_name(front, s.last().name) {
            front
        } else {
            front.push(s.last())
        }
    }
}

/// The supertype chain of an entity: every ancestor's chain in declared
/// order, the entity itself last, collapsed to first occurrences.  `None`
/// means the supertype graph is cyclic.
pub open spec fn supers_chain(
    m: Map<Seq<char>, EntityInfoV>,
    name: Seq<char>,
    fuel: nat,
) -> Option<Seq<EntityInfoV>>
    decreases fuel, 0nat, 0nat,
{
    if !m.contains_key(name) {
        Option::Some(Seq::empty())
    } else if fuel == 0 {
        Option::None
    } else {
        match supers_list(m, m[name].supertypes, (fuel - 1) as nat) {
            Option::Some(s) => Option::Some(dedup_by_name(s.push(m[name]))),
            Option::None => Option::None,
        }
    }
}

/// The concatenated supertype chains of a list of parents.
pub open spec fn supers_list(
    m: Map<Seq<char>, EntityInfoV>,
    parents: Seq<Seq<char>>,
    fuel: nat,
) -> Option<Seq<EntityInfoV>>
    decreases fuel, 1nat, parents.len(),
{
    if parents.len() == 0 {
        Option::Some(Seq::empty())
    } else {
        match supers_chain(m, parents[0], fuel) {
            Option::Some(first) => match supers_list(m, parents.drop_first(), fuel) {
                Option::Some(rest) => Option::Some(first + rest),
                Option::None => Option::None,
            },
            Option::None => Option::None,
        }
    }
}

pub fn clone_entity_info(e: &EntityInfo) -> (r: EntityInfo)
    ensures
        r@ == e@,
{
    EntityInfo {
        name: clone_string(&e.name),
        attributes: clone_attribute_vec(&e.attributes),
        supertypes: clone_string_vec(&e.supertypes),
    }
}

fn contains_entity_name(v: &Vec<EntityInfo>, name: &String) -> (r: bool)
    ensures
        r == contains_info_name(v.deep_view(), name@),
{
    let mut i: usize = 0;
    while i < v.len()
        invariant
            i <= v.len(),
            forall|k: int| 0 <= k < i ==> v.deep_view()[k].name != name@,
        decreases v.len() - i,
    {
        if v[i].name.eq(name) {
            proof {
                assert(v.deep_view()[i as int].name == name@);
            }
            return true;
        }
        i = i + 1;
    }
    proof {
        if contains_info_name(v.deep_view(), name@) {
            let k = choose|k: int|
                0 <= k < v.deep_view().len() && v.deep_view()[k].name == name@;
            assert(false);
        }
    }
    false
}

/// The supertype chain of the named entity, ancestors first, the entity
/// itself last, repeated ancestors of a diamond collapsed to their first
/// occurrence.  An unknown name yields an empty chain; a supertype cycle
/// is an error.
#[verifier::loop_isolation(false)]
pub fn get_entity_supertypes(
    ents: &NameTable<EntityInfo>,
    name: &String,
    fuel: usize,
) -> (r: Result<Vec<EntityInfo>, SchemaError>)
    requires
        ents.wf(),
    ensures
        match r {
            Result::Ok(v) => supers_chain(ents.map_view(), name@, fuel as nat) == Option::Some(
                v.deep_view(),
            ),
            Result::Err(e) => supers_chain(ents.map_view(), name@, fuel as nat) is None && e
                is SupertypeCycle,
        },
    decreases fuel,
{
    let ghost m = ents.map_view();
    match ents.get(name) {
        Option::None => {
            let empty: Vec<EntityInfo> = Vec::new();
            proof {
                assert(empty.deep_view() =~= Seq::<EntityInfoV>::empty());
            }
            Result::Ok(empty)
        },
        Option::Some(info) => {
            if fuel == 0 {
                return Result::Err(SchemaError::SupertypeCycle { entity: clone_string(name) });
            }
            let mut all: Vec<EntityInfo> = Vec::new();
            let mut p: usize = 0;
            proof {
                assert(info@.supertypes.skip(0) =~= info@.supertypes);
                assert(all.deep_view() =~= Seq::<EntityInfoV>::empty());
                assert(Seq::<EntityInfoV>::empty() + all.deep_view() =~= all.deep_view());
            }
            while p < info.supertypes.len()
                invariant
                    p <= info.supertypes.len(),
                    supers_list(m, info@.supertypes, (fuel - 1) as nat) matches Option::Some(w)
                        ==> supers_list(m, info@.supertypes.skip(p as int), (fuel - 1) as nat)
                        matches Option::Some(rest) && w == all.deep_view() + rest,
                    (supers_list(m, info@.supertypes, (fuel - 1) as nat) is None) ==> (supers_list(
                        m,
                        info@.supertypes.skip(p as int),
                        (fuel - 1) as nat,
                    ) is None),
                decreases info.supertypes.len() - p,
            {
                proof {
                    let ghost pidx = p as int;
                    assert(info@.supertypes.skip(pidx)[0] == info.supertypes.deep_view()[pidx]);
                    assert(info@.supertypes.skip(pidx).drop_first() =~= info@.supertypes.skip(
                        pidx + 1,
                    ));
                }
                let sub = get_entity_supertypes(ents, &info.supertypes[p], fuel - 1);
                match sub {
                    Result::Err(e) => {
                        return Result::Err(SchemaError::SupertypeCycle {
                            entity: clone_string(name),
                        });
                    },
                    Result::Ok(chain) => {
                        let ghost all0 = all.deep_view();
                        let ghost cv = chain.deep_view();
                        let mut c: usize = 0;
                        while c < chain.len()
                            invariant
                                c <= chain.len(),
                                chain.deep_view() == cv,
                                all.deep_view() == all0 + cv.take(c as int),
                            decreases chain.len() - c,
                        {
                            let ghost aprev = all.deep_view();
                            all.push(clone_entity_info(&chain[c]));
                            proof {
                                assert(all.deep_view() =~= aprev.push(cv[c as int]));
                                assert(all.deep_view() =~= all0 + cv.take(c + 1));
                            }
                            c = c + 1;
                        }
                        proof {
                            assert(cv.take(chain.len() as int) =~= cv);
                            if supers_list(m, info@.supertypes, (fuel - 1) as nat) is Some {
                                let w = supers_list(
                                    m,
                                    info@.supertypes,
                                    (fuel - 1) as nat,
                                )->Some_0;
                                let rest2 = supers_list(
                                    m,
                                    info@.supertypes.skip(p + 1),
                                    (fuel - 1) as nat,
                                )->Some_0;
                                assert(w =~= all.deep_view() + rest2);
                            }
                        }
                    },
                }
                p = p + 1;
            }
            proof {
                assert(info@.supertypes.skip(info.supertypes.len() as int) =~= Seq::<
                    Seq<char>,
                >::empty());
            }
            let mut all2 = all;
            all2.push(clone_entity_info(info));
            let ghost allv = all2.deep_view();
            let mut out: Vec<EntityInfo> = Vec::new();
            let mut d: usize = 0;
            proof {
                assert(out.deep_view() =~= dedup_by_name(allv.take(0)));
            }
            while d < all2.len()
                invariant
                    d <= all2.len(),
                    all2.deep_view() == allv,
                    out.deep_view() == dedup_by_name(allv.take(d as int)),
                decreases all2.len() - d,
            {
                proof {
                    assert(allv.take(d + 1).drop_last() =~= allv.take(d as int));
                    assert(allv.take(d + 1).last() == allv[d as int]);
                }
                if !contains_entity_name(&out, &all2[d].name) {
                    let ghost oprev = out.deep_view();
                    out.push(clone_entity_info(&all2[d]));
                    proof {
                        assert(out.deep_view() =~= oprev.push(allv[d as int]));
                    }
                }
                d = d + 1;
            }
            proof {
                assert(allv.take(all2.len() as int) =~= allv);
                if supers_list(m, info@.supertypes, (fuel - 1) as nat) is Some {
                    let w = supers_list(m, info@.supertypes, (fuel - 1) as nat)->Some_0;
                    assert(allv =~= w.push(m[name@]));
                }
            }
            Result::Ok(out)
        },
    }
}

/// The names made hashable by one type name standing as a set element:
/// the name itself when it is a defined type, and, through a select,
/// every member transitively.
pub open spec fn hashable_from(
    typs: Map<Seq<char>, TypeInfoV>,
    name: Seq<char>,
    fuel: nat,
) -> Set<Seq<char>>
    decreases fuel, 0nat, 0nat,
{
    if fuel == 0 || !typs.contains_key(name) {
        Set::empty()
    } else {
        match typs[name].underlying_type {
            DataTypeV::Select { types } => set![name].union(
                hashable_list(typs, types, (fuel - 1) as nat),
            ),
            _ => set![name],
        }
    }
}

pub open spec fn hashable_list(
    typs: Map<Seq<char>, TypeInfoV>,
    names: Seq<Seq<char>>,
    fuel: nat,
) -> Set<Seq<char>>
    decreases fuel, 1nat, names.len(),
{
    if names.len() == 0 {
        Set::empty()
    } else {
        hashable_list(typs, names.drop_last(), fuel).union(
            hashable_from(typs, names.last(), fuel),
        )
    }
}

/// The names an attribute makes hashable: the element type of a set-typed
/// attribute, transitively through selects.
pub open spec fn hashable_of_attr(
    typs: Map<Seq<char>, TypeInfoV>,
    a: AttributeV,
    fuel: nat,
) -> Set<Seq<char>> {
    match a.data_type {
        DataTypeV::SetOf { bound, base_type } => match *base_type {
            DataTypeV::TypeRef { name } => hashable_from(typs, name, fuel),
            _ => Set::empty(),
        },
        _ => Set::empty(),
    }
}

pub open spec fn hashable_of_attrs(
    typs: Map<Seq<char>, TypeInfoV>,
    attrs: Seq<AttributeV>,
    fuel: nat,
) -> Set<Seq<char>>
    decreases attrs.len(),
{
    if attrs.len() == 0 {
        Set::empty()
    } else {
        hashable_of_attrs(typs, attrs.drop_last(), fuel).union(
            hashable_of_attr(typs, attrs.last(), fuel),
        )
    }
}

/// Every type name that is ever the element type of a set attribute
/// anywhere in the schema, transitively through nested selects: these
/// types need derived equality and hash capability.
pub open spec fn hashable_types_spec(
    typs: Map<Seq<char>, TypeInfoV>,
    decls: Seq<DeclarationV>,
    fuel: nat,
) -> Set<Seq<char>>
    decreases decls.len(),
{
    if decls.len() == 0 {
        Set::empty()
    } else {
        hashable_types_spec(typs, decls.drop_last(), fuel).union(
            match decls.last() {
                DeclarationV::Entity(e) => hashable_of_attrs(typs, e.attributes, fuel),
                _ => Set::empty(),
            },
        )
    }
}

pub(crate) fn vec_contains_string(v: &Vec<String>, name: &String) -> (r: bool)
    ensures
        r == v.deep_view().contains(name@),
{
    let mut i: usize = 0;
    while i < v.len()
        invariant
            i <= v.len(),
            forall|k: int| 0 <= k < i ==> v.deep_view()[k] != name@,
        decreases v.len() - i,
    {
        if v[i].eq(name) {
            proof {
                assert(v.deep_view()[i as int] == name@);
            }
            return true;
        }
        i = i + 1;
    }
    proof {
        if v.deep_view().contains(name@) {
            let k = choose|k: int| 0 <= k < v.deep_view().len() && v.deep_view()[k] == name@;
            assert(false);
        }
    }
    false
}

/// Records every name `hashable_from` gives for one element type name.
#[verifier::loop_isolation(false)]
fn add_hashable(
    typs: &NameTable<TypeInfo>,
    name: &String,
    out: &mut Vec<String>,
    fuel: usize,
)
    requires
        typs.wf(),
    ensures
        forall|n: Seq<char>|
            final(out).deep_view().contains(n) == (old(out).deep_view().contains(n)
                || hashable_from(typs.map_view(), name@, fuel as nat).contains(n)),
    decreases fuel,
{
    let ghost m = typs.map_view();
    if fuel == 0 {
        return ;
    }
    match typs.get(name) {
        Option::None => {},
        Option::Some(info) => {
            if !vec_contains_string(out, name) {
                let ghost oprev = out.deep_view();
                out.push(clone_string(name));
                proof {
                    assert(out.deep_view() =~= oprev.push(name@));
                    assert forall|n: Seq<char>| out.deep_view().contains(n) == (oprev.contains(n)
                        || n == name@) by {
                        if out.deep_view().contains(n) {
                            let k = choose|k: int|
                                0 <= k < out.deep_view().len() && out.deep_view()[k] == n;
                            if k < oprev.len() {
                                assert(oprev[k] == n);
                            }
                        }
                        if oprev.contains(n) {
                            let k = choose|k: int| 0 <= k < oprev.len() && oprev[k] == n;
                            assert(out.deep_view()[k] == n);
                        }
                        if n == name@ {
                            assert(out.deep_view()[oprev.len() as int] == n);
                        }
                    }
                }
            }
            match &info.underlying_type {
                DataType::Select { types } => {
                    let ghost tys = types.deep_view();
                    let mut i: usize = 0;
                    proof {
                        assert(tys.take(0) =~= Seq::<Seq<char>>::empty());
                    }
                    while i < types.len()
                        invariant
                            i <= types.len(),
                            forall|n: Seq<char>|
                                out.deep_view().contains(n) == (old(out).deep_view().contains(n)
                                    || n == name@ || hashable_list(
                                    m,
                                    tys.take(i as int),
                                    (fuel - 1) as nat,
                                ).contains(n)),
                        decreases types.len() - i,
                    {
                        proof {
                            assert(tys.take(i + 1).drop_last() =~= tys.take(i as int));
                            assert(tys.take(i + 1).last() == tys[i as int]);
                        }
                        add_hashable(typs, &types[i], out, fuel - 1);
                        i = i + 1;
                    }
                    proof {
                        assert(tys.take(types.len() as int) =~= tys);
                    }
                },
                _ => {},
            }
        },
    }
}

/// Collects every type name that needs hash capability: the element types
/// of set attributes anywhere in the schema, transitively through selects.
#[verifier::loop_isolation(false)]
pub fn collect_hashable_types(
    typs: &NameTable<TypeInfo>,
    schema: &Schema,
    fuel: usize,
) -> (r: Vec<String>)
    requires
        typs.wf(),
    ensures
        forall|n: Seq<char>|
            r.deep_view().contains(n) == hashable_types_spec(
                typs.map_view(),
                schema@.declarations,
                fuel as nat,
            ).contains(n),
{
    let ghost m = typs.map_view();
    let ghost decls = schema@.declarations;
    let mut out: Vec<String> = Vec::new();
    let mut i: usize = 0;
    proof {
        assert(decls.take(0) =~= Seq::<DeclarationV>::empty());
    }
    while i < schema.declarations.len()
        invariant
            i <= schema.declarations.len(),
            forall|n: Seq<char>|
                out.deep_view().contains(n) == hashable_types_spec(
                    m,
                    decls.take(i as int),
                    fuel as nat,
                ).contains(n),
        decreases schema.declarations.len() - i,
    {
        proof {
            assert(decls.take(i + 1).drop_last() =~= decls.take(i as int));
            assert(decls.take(i + 1).last() == decls[i as int]);
        }
        match &schema.declarations[i] {
            Declaration::Entity(entity) => {
                let ghost attrs = entity@.attributes;
                let mut j: usize = 0;
                proof {
                    assert(attrs.take(0) =~= Seq::<AttributeV>::empty());
                }
                while j < entity.attributes.len()
                    invariant
                        j <= entity.attributes.len(),
                        forall|n: Seq<char>|
                            out.deep_view().contains(n) == (hashable_types_spec(
                                m,
                                decls.take(i as int),
                                fuel as nat,
                            ).contains(n) || hashable_of_attrs(
                                m,
                                attrs.take(j as int),
                                fuel as nat,
                            ).contains(n)),
                    decreases entity.attributes.len() - j,
                {
                    proof {
                        assert(attrs.take(j + 1).drop_last() =~= attrs.take(j as int));
                        assert(attrs.take(j + 1).last() == attrs[j as int]);
                    }
                    match &entity.attributes[j].data_type {
                        DataType::SetOf { bound, base_type } => {
                            match &**base_type {
                                DataType::TypeRef { name } => {
                                    proof {
                                        assert(attrs[j as int] == entity.attributes[j as int]@);
                                        assert(attrs[j as int].data_type matches DataTypeV::SetOf {
                                            bound: _,
                                            base_type: bt,
                                        } && *bt == data_type_view(**base_type));
                                        assert(data_type_view(**base_type) == (
                                        DataTypeV::TypeRef { name: name@ }));
                                        assert(hashable_of_attr(m, attrs[j as int], fuel as nat)
                                            =~= hashable_from(m, name@, fuel as nat));
                                    }
                                    add_hashable(typs, name, &mut out, fuel);
                                },
                                _ => {
                                    proof {
                                        assert(attrs[j as int] == entity.attributes[j as int]@);
                                        assert(attrs[j as int].data_type matches DataTypeV::SetOf {
                                            bound: _,
                                            base_type: bt,
                                        } && *bt == data_type_view(**base_type));
                                        assert(hashable_of_attr(m, attrs[j as int], fuel as nat)
                                            =~= Set::<Seq<char>>::empty());
                                    }
                                },
                            }
                        },
                        _ => {
                            proof {
                                assert(hashable_of_attr(m, attrs[j as int], fuel as nat) =~= Set::<
                                    Seq<char>,
                                >::empty());
                            }
                        },
                    }
                    j = j + 1;
                }
                proof {
                    assert(attrs.take(entity.attributes.len() as int) =~= attrs);
                }
            },
            _ => {},
        }
        i = i + 1;
    }
    proof {
        assert(decls.take(schema.declarations.len() as int) =~= decls);
    }
    out
}

} // verus!

