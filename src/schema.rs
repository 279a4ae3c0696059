use vstd::prelude::*;

use crate::gate::Guard;
use crate::text::str_eq;

verus! {

/// One field that a module declares on a root type. A field with a guard is
/// protected: the authorization check is consulted before it resolves.
#[derive(Debug)]
pub struct FieldDef {
    pub name: String,
    pub guard: Option<Guard>,
    /// Whether an error on this field leaves the field null (true) or voids the whole data tree.
    pub nullable: bool,
}

/// A self-contained module of fields for one root type.
#[derive(Debug)]
pub struct ObjectModule {
    pub fields: Vec<FieldDef>,
}

/// Schema composition failed: two fields of one root share a name.
#[derive(Debug)]
pub enum SchemaError {
    Conflict { name: String },
}

/// The names of a list of fields, in order.
pub open spec fn field_names(fs: Seq<FieldDef>) -> Seq<Seq<char>> {
    fs.map_values(|f: FieldDef| f.name@)
}

/// The fields of a list of modules, module after module.
pub open spec fn module_fields(ms: Seq<ObjectModule>) -> Seq<FieldDef>
    decreases ms.len(),
{
    if ms.len() == 0 {
        Seq::empty()
    } else {
        module_fields(ms.drop_last()) + ms.last().fields@
    }
}

/// The outcome of composing a list of modules into one root: all their fields,
/// unless two of them share a name.
pub open spec fn composes(ms: Seq<ObjectModule>) -> bool {
    field_names(module_fields(ms)).no_duplicates()
}

impl FieldDef {
    pub fn duplicate(&self) -> (r: FieldDef)
        ensures
            r == *self,
    {
        let guard = match &self.guard {
            Some(g) => Some(g.duplicate()),
            None => None,
        };
        FieldDef { name: self.name.clone(), guard, nullable: self.nullable }
    }
}

/// Finds a name that two of the fields share, if any.
pub fn find_conflict(fields: &Vec<FieldDef>) -> (r: Option<usize>)
    ensures
        r is None <==> field_names(fields@).no_duplicates(),
        r matches Some(k) ==> k < fields@.len() && exists|j: int|
            0 <= j < fields@.len() && j != k && fields@[j].name@ == fields@[k as int].name@,
{
    let n = fields.len();
    let mut i: usize = 0;
    while i < n
        invariant
            n == fields@.len(),
            0 <= i <= n,
            forall|a: int, b: int|
                0 <= a < i && 0 <= b < n && a != b ==> fields@[a].name@ != fields@[b].name@,
        decreases n - i,
    {
        let mut j: usize = 0;
        while j < n
            invariant
                n == fields@.len(),
                0 <= i < n,
                0 <= j <= n,
                forall|a: int, b: int|
                    0 <= a < i && 0 <= b < n && a != b ==> fields@[a].name@ != fields@[b].name@,
                forall|b: int| 0 <= b < j && b != i ==> fields@[i as int].name@ != fields@[b].name@,
            decreases n - j,
        {
            if j != i && str_eq(fields[i].name.as_str(), fields[j].name.as_str()) {
                proof {
                    let names = field_names(fields@);
                    assert(names[i as int] == names[j as int]);
                }
                return Some(i);
            }
            j = j + 1;
        }
        i = i + 1;
    }
    proof {
        let names = field_names(fields@);
        assert forall|a: int, b: int|
            0 <= a < names.len() && 0 <= b < names.len() && a != b implies names[a] != names[b] by {
            assert(names[a] == fields@[a].name@);
            assert(names[b] == fields@[b].name@);
        }
    }
    None
}

/// Composes independently written modules into the field list of one root.
/// Fails when two fields, of one module or of two, share a name.
pub fn compose(modules: &Vec<ObjectModule>) -> (r: Result<Vec<FieldDef>, SchemaError>)
    ensures
        r is Ok <==> composes(modules@),
        r matches Ok(v) ==> v@ == module_fields(modules@),
        r matches Err(SchemaError::Conflict { name }) ==> exists|a: int, b: int|
            0 <= a < b < module_fields(modules@).len() && module_fields(modules@)[a].name@ == name@
                && module_fields(modules@)[b].name@ == name@,
{
    let mut all: Vec<FieldDef> = Vec::new();
    let mut m: usize = 0;
    while m < modules.len()
        invariant
            0 <= m <= modules@.len(),
            all@ == module_fields(modules@.take(m as int)),
        decreases modules@.len() - m,
    {
        let fields = &modules[m].fields;
        let mut k: usize = 0;
        while k < fields.len()
            invariant
                0 <= m < modules@.len(),
                *fields == modules@[m as int].fields,
                0 <= k <= fields@.len(),
                all@ == module_fields(modules@.take(m as int)) + fields@.take(k as int),
            decreases fields@.len() - k,
        {
            all.push(fields[k].duplicate());
            proof {
                assert(fields@.take(k + 1) =~= fields@.take(k as int).push(fields@[k as int]));
            }
            k = k + 1;
        }
        proof {
            assert(fields@.take(k as int) =~= fields@);
            assert(modules@.take(m + 1).drop_last() =~= modules@.take(m as int));
        }
        m = m + 1;
    }
    assert(modules@.take(m as int) =~= modules@);
    match find_conflict(&all) {
        None => Ok(all),
        Some(k) => {
            let ghost j = choose|j: int|
                0 <= j < all@.len() && j != k && all@[j].name@ == all@[k as int].name@;
            let name = all[k].name.clone();
            proof {
                if j < k {
                    assert(0 <= j < k < module_fields(modules@).len());
                } else {
                    assert(0 <= k < j < module_fields(modules@).len());
                }
            }
            Err(SchemaError::Conflict { name })
        },
    }
}

/// The composed schema: the fields of the query root and of the mutation
/// root. It is built once and only read afterwards.
#[derive(Debug)]
pub struct Schema {
    pub query: Vec<FieldDef>,
    pub mutation: Vec<FieldDef>,
}

/// The kind of a GraphQL operation, which picks the root it runs on.
#[derive(Debug, Clone, Copy, PartialEq, Eq, Structural)]
pub enum Operation {
    Query,
    Mutation,
}

impl Schema {
    /// The fields of the root that an operation runs on.
    pub open spec fn root_spec(&self, op: Operation) -> Seq<FieldDef> {
        match op {
            Operation::Query => self.query@,
            Operation::Mutation => self.mutation@,
        }
    }

    pub fn root(&self, op: Operation) -> (r: &Vec<FieldDef>)
        ensures
            r@ == self.root_spec(op),
    {
        match op {
            Operation::Query => &self.query,
            Operation::Mutation => &self.mutation,
        }
    }

    /// No two fields of one root share a name.
    pub open spec fn wf(&self) -> bool {
        field_names(self.query@).no_duplicates() && field_names(self.mutation@).no_duplicates()
    }

    /// Composes the query modules and the mutation modules into one schema.
    pub fn build(query: &Vec<ObjectModule>, mutation: &Vec<ObjectModule>) -> (r: Result<
        Schema,
        SchemaError,
    >)
        ensures
            r is Ok <==> composes(query@) && composes(mutation@),
            r matches Ok(s) ==> s.wf() && s.query@ == module_fields(query@) && s.mutation@
                == module_fields(mutation@),
    {
        let q = compose(query)?;
        let m = compose(mutation)?;
        Ok(Schema { query: q, mutation: m })
    }
}

/// The position of the field named `name` among `fields`, if there is one.
pub fn find_field(fields: &Vec<FieldDef>, name: &str) -> (r: Option<usize>)
    ensures
        r is None <==> forall|i: int| 0 <= i < fields@.len() ==> fields@[i].name@ != name@,
        r matches Some(i) ==> i < fields@.len() && fields@[i as int].name@ == name@,
{
    let mut i: usize = 0;
    while i < fields.len()
        invariant
            0 <= i <= fields@.len(),
            forall|j: int| 0 <= j < i ==> fields@[j].name@ != name@,
        decreases fields@.len() - i,
    {
        if str_eq(fields[i].name.as_str(), name) {
            return Some(i);
        }
        i = i + 1;
    }
    None
}

/// The query module of the users domain.
#[derive(Debug, Default)]
pub struct UsersQuery {}

/// The mutation module of the users domain.
#[derive(Debug, Default)]
pub struct UsersMutation {}

impl UsersQuery {
    /// The fields this module declares on the query root (none yet).
    pub fn module(&self) -> (r: ObjectModule)
        ensures
            r.fields@.len() == 0,
    {
        ObjectModule { fields: Vec::new() }
    }
}

impl UsersMutation {
    /// The fields this module declares on the mutation root (none yet).
    pub fn module(&self) -> (r: ObjectModule)
        ensures
            r.fields@.len() == 0,
    {
        ObjectModule { fields: Vec::new() }
    }
}

/// The query root, merged from the domain query modules.
#[derive(Debug, Default)]
pub struct Query(pub UsersQuery);

/// The mutation root, merged from the domain mutation modules.
#[derive(Debug, Default)]
pub struct Mutation(pub UsersMutation);

impl Query {
    pub fn modules(&self) -> (r: Vec<ObjectModule>)
        ensures
            r@.len() == 1,
            r@[0].fields@.len() == 0,
    {
        let mut v: Vec<ObjectModule> = Vec::new();
        v.push(self.0.module());
        v
    }
}

impl Mutation {
    pub fn modules(&self) -> (r: Vec<ObjectModule>)
        ensures
            r@.len() == 1,
            r@[0].fields@.len() == 0,
    {
        let mut v: Vec<ObjectModule> = Vec::new();
        v.push(self.0.module());
        v
    }
}

/// Builds the schema of this service from its query and mutation roots.
pub fn create_schema(query: &Query, mutation: &Mutation) -> (r: Result<Schema, SchemaError>)
    ensures
        r matches Ok(s) && s.wf() && s.query@.len() == 0 && s.mutation@.len() == 0,
{
    let q = query.modules();
    let m = mutation.modules();
    proof {
        lemma_single_empty_module(q@);
        lemma_single_empty_module(m@);
    }
    Schema::build(&q, &m)
}

/// One module without fields composes into a root without fields.
proof fn lemma_single_empty_module(ms: Seq<ObjectModule>)
    requires
        ms.len() == 1,
        ms[0].fields@.len() == 0,
    ensures
        composes(ms),
        module_fields(ms) == Seq::<FieldDef>::empty(),
{
    assert(ms.drop_last() =~= Seq::<ObjectModule>::empty());
    assert(module_fields(Seq::<ObjectModule>::empty()) == Seq::<FieldDef>::empty());
    assert(module_fields(ms) =~= Seq::<FieldDef>::empty());
    assert(field_names(module_fields(ms)) =~= Seq::<Seq<char>>::empty());
}

/// The fields of two modules composed in the given order.
pub open spec fn pair_fields(a: ObjectModule, b: ObjectModule) -> Seq<FieldDef> {
    module_fields(seq![a, b])
}

proof fn lemma_pair_fields(a: ObjectModule, b: ObjectModule)
    ensures
        pair_fields(a, b) == a.fields@ + b.fields@,
{
    let s = seq![a, b];
    assert(s.drop_last() =~= seq![a]);
    assert(seq![a].drop_last() =~= Seq::<ObjectModule>::empty());
    assert(module_fields(Seq::<ObjectModule>::empty()) == Seq::<FieldDef>::empty());
    assert(module_fields(seq![a]) == module_fields(seq![a].drop_last()) + seq![a].last().fields@);
    assert(module_fields(seq![a]) =~= a.fields@);
    assert(module_fields(s) == module_fields(s.drop_last()) + s.last().fields@);
}

proof fn lemma_names_concat(x: Seq<FieldDef>, y: Seq<FieldDef>)
    ensures
        field_names(x + y) == field_names(x) + field_names(y),
{
    assert(field_names(x + y) =~= field_names(x) + field_names(y));
}

proof fn lemma_no_duplicates_swap(x: Seq<Seq<char>>, y: Seq<Seq<char>>)
    requires
        (x + y).no_duplicates(),
    ensures
        (y + x).no_duplicates(),
{
    let xy = x + y;
    let yx = y + x;
    assert forall|i: int, j: int| 0 <= i < yx.len() && 0 <= j < yx.len() && i != j implies yx[i]
        != yx[j] by {
        let fi = if i < y.len() { i + x.len() } else { i - y.len() };
        let fj = if j < y.len() { j + x.len() } else { j - y.len() };
        assert(yx[i] == xy[fi]);
        assert(yx[j] == xy[fj]);
    }
}

/// Composing two modules does not depend on their order: both orders succeed
/// or both fail, and both give the same set of field names.
pub proof fn lemma_compose_commutes(a: ObjectModule, b: ObjectModule)
    ensures
        composes(seq![a, b]) <==> composes(seq![b, a]),
        field_names(pair_fields(a, b)).to_set() == field_names(pair_fields(b, a)).to_set(),
{
    lemma_pair_fields(a, b);
    lemma_pair_fields(b, a);
    let x = field_names(a.fields@);
    let y = field_names(b.fields@);
    lemma_names_concat(a.fields@, b.fields@);
    lemma_names_concat(b.fields@, a.fields@);
    if (x + y).no_duplicates() {
        lemma_no_duplicates_swap(x, y);
    }
    if (y + x).no_duplicates() {
        lemma_no_duplicates_swap(y, x);
    }
    let xy = x + y;
    let yx = y + x;
    assert forall|n: Seq<char>| xy.contains(n) <==> yx.contains(n) by {
        if xy.contains(n) {
            let i = choose|i: int| 0 <= i < xy.len() && xy[i] == n;
            if i < x.len() {
                assert(yx[i + y.len()] == n);
            } else {
                assert(yx[i - x.len()] == n);
            }
        }
        if yx.contains(n) {
            let i = choose|i: int| 0 <= i < yx.len() && yx[i] == n;
            if i < y.len() {
                assert(xy[i + x.len()] == n);
            } else {
                assert(xy[i - y.len()] == n);
            }
        }
    }
    assert(xy.to_set() =~= yx.to_set());
}

proof fn lemma_concat_no_duplicates(x: Seq<Seq<char>>, y: Seq<Seq<char>>)
    requires
        x.no_duplicates(),
        y.no_duplicates(),
    ensures
        (x + y).no_duplicates() <==> forall|i: int, j: int|
            0 <= i < x.len() && 0 <= j < y.len() ==> x[i] != y[j],
{
    let xy = x + y;
    if xy.no_duplicates() {
        assert forall|i: int, j: int| 0 <= i < x.len() && 0 <= j < y.len() implies x[i] != y[j] by {
            assert(xy[i] == x[i]);
            assert(xy[x.len() + j] == y[j]);
        }
    }
    if forall|i: int, j: int| 0 <= i < x.len() && 0 <= j < y.len() ==> x[i] != y[j] {
        assert forall|a: int, b: int| 0 <= a < xy.len() && 0 <= b < xy.len() && a != b implies xy[a]
            != xy[b] by {
            if a < x.len() && b >= x.len() {
                assert(xy[b] == y[b - x.len()]);
            } else if b < x.len() && a >= x.len() {
                assert(xy[a] == y[a - x.len()]);
            } else if a >= x.len() {
                assert(xy[a] == y[a - x.len()]);
                assert(xy[b] == y[b - x.len()]);
            }
        }
    }
}

/// Two modules that each declare distinct names compose exactly when no
/// name is declared by both: a shared name is reported, never overwritten.
pub proof fn lemma_compose_collision(a: ObjectModule, b: ObjectModule)
    requires
        field_names(a.fields@).no_duplicates(),
        field_names(b.fields@).no_duplicates(),
    ensures
        composes(seq![a, b]) <==> !exists|i: int, j: int|
            0 <= i < a.fields@.len() && 0 <= j < b.fields@.len() && (#[trigger] a.fields@[i]).name@
                == (#[trigger] b.fields@[j]).name@,
{
    lemma_pair_fields(a, b);
    lemma_names_concat(a.fields@, b.fields@);
    let x = field_names(a.fields@);
    let y = field_names(b.fields@);
    lemma_concat_no_duplicates(x, y);
    assert(module_fields(seq![a, b]) == a.fields@ + b.fields@);
    if composes(seq![a, b]) {
        if exists|i: int, j: int|
            0 <= i < a.fields@.len() && 0 <= j < b.fields@.len() && (#[trigger] a.fields@[i]).name@
                == (#[trigger] b.fields@[j]).name@ {
            let (i, j) = choose|i: int, j: int|
                0 <= i < a.fields@.len() && 0 <= j < b.fields@.len() && (#[trigger] a.fields@[i]).name@
                    == (#[trigger] b.fields@[j]).name@;
            assert(x[i] == y[j]);
        }
    } else {
        let (i, j) = choose|i: int, j: int| 0 <= i < x.len() && 0 <= j < y.len() && x[i] == y[j];
        assert(a.fields@[i].name@ == b.fields@[j].name@);
    }
}

} // verus!
