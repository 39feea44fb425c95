use vstd::prelude::*;

verus! {

/// The render passes a material can provide a pipeline for.
#[derive(Clone, Copy, Debug, PartialEq, Eq, Structural, Hash)]
pub enum PassID {
    Back,
    Geometry,
    Shadow,
}

/// The number of a pass, by which pipelines are keyed.
pub open spec fn pass_code(p: PassID) -> u8 {
    match p {
        PassID::Back => 0,
        PassID::Geometry => 1,
        PassID::Shadow => 2,
    }
}

pub fn pass_to_code(p: PassID) -> (r: u8)
    ensures
        r == pass_code(p),
{
    match p {
        PassID::Back => 0,
        PassID::Geometry => 1,
        PassID::Shadow => 2,
    }
}

/// Component naming the mesh asset an entity is drawn with.
pub struct MeshHandle(pub String);

/// Component naming the material an entity is drawn with.
pub struct MaterialHandle(pub String);

/// Component naming the pipeline an entity is drawn with.
pub struct PipelineHandle(pub String);

/// Positions of named entries, keyed by name, in a `hashbrown` map whose contents
/// the wrappers below describe.
#[verifier::external_body]
pub struct NameIndex {
    map: hashbrown::HashMap<String, usize>,
}

/// What a `NameIndex` holds: the names (as characters) and their positions.
pub uninterp spec fn name_index_contents(m: NameIndex) -> Map<Seq<char>, usize>;

/// An index with no names.
pub open spec fn no_names() -> Map<Seq<char>, usize> {
    Map::empty()
}

/// `hashbrown::HashMap::new`: the new map holds nothing.
#[verifier::external_body]
fn name_index_new() -> (r: NameIndex)
    ensures
        name_index_contents(r) == no_names(),
{
    NameIndex { map: hashbrown::HashMap::new() }
}

/// `hashbrown::HashMap::insert` with a `String` key: the key (equal strings being
/// equal keys) now maps to `value`; the previous value, if any, is returned.
#[verifier::external_body]
fn name_index_insert(m: &mut NameIndex, key: String, value: usize) -> (r: Option<usize>)
    ensures
        name_index_contents(*final(m)) == name_index_contents(*old(m)).insert(key@, value),
        r == (if name_index_contents(*old(m)).contains_key(key@) {
            Some(name_index_contents(*old(m))[key@])
        } else {
            None
        }),
{
    m.map.insert(key, value)
}

/// `hashbrown::HashMap::get` with a `&str` key: the value of the equal `String` key, if any.
#[verifier::external_body]
fn name_index_get(m: &NameIndex, key: &str) -> (r: Option<usize>)
    ensures
        r == (if name_index_contents(*m).contains_key(key@) {
            Some(name_index_contents(*m)[key@])
        } else {
            None
        }),
{
    m.map.get(key).copied()
}

/// Positions of pipelines, keyed by material name and pass number, in a
/// `hashbrown` map whose contents the wrappers below describe.
#[verifier::external_body]
pub struct PipelineIndex {
    map: hashbrown::HashMap<(String, u8), usize>,
}

/// What a `PipelineIndex` holds: the (name, pass number) keys and their positions.
pub uninterp spec fn pipeline_index_contents(m: PipelineIndex) -> Map<(Seq<char>, u8), usize>;

/// An index with no keys.
pub open spec fn no_pipeline_keys() -> Map<(Seq<char>, u8), usize> {
    Map::empty()
}

/// `hashbrown::HashMap::new`: the new map holds nothing.
#[verifier::external_body]
fn pipeline_index_new() -> (r: PipelineIndex)
    ensures
        pipeline_index_contents(r) == no_pipeline_keys(),
{
    PipelineIndex { map: hashbrown::HashMap::new() }
}

/// `hashbrown::HashMap::insert` with a `(String, u8)` key: the key now maps to
/// `value`; the previous value, if any, is returned.
#[verifier::external_body]
fn pipeline_index_insert(m: &mut PipelineIndex, name: String, pass: u8, value: usize) -> (r: Option<usize>)
    ensures
        pipeline_index_contents(*final(m)) == pipeline_index_contents(*old(m)).insert((name@, pass), value),
        r == (if pipeline_index_contents(*old(m)).contains_key((name@, pass)) {
            Some(pipeline_index_contents(*old(m))[(name@, pass)])
        } else {
            None
        }),
{
    m.map.insert((name, pass), value)
}

/// `hashbrown::HashMap::get` with the key `(name.to_string(), pass)`.
#[verifier::external_body]
fn pipeline_index_get(m: &PipelineIndex, name: &str, pass: u8) -> (r: Option<usize>)
    ensures
        r == (if pipeline_index_contents(*m).contains_key((name@, pass)) {
            Some(pipeline_index_contents(*m)[(name@, pass)])
        } else {
            None
        }),
{
    m.map.get(&(name.to_string(), pass)).copied()
}

} // verus!

verus! {

/// `m` with each `(pass, pipeline)` of `ps`, in order, registered for material `name`:
/// a later pipeline for the same pass replaces an earlier one.
pub open spec fn with_pipelines<P>(
    m: Map<(Seq<char>, PassID), P>,
    name: Seq<char>,
    ps: Seq<(PassID, P)>,
) -> Map<(Seq<char>, PassID), P>
    decreases ps.len(),
{
    if ps.len() == 0 {
        m
    } else {
        with_pipelines(m, name, ps.drop_last()).insert((name, ps.last().0), ps.last().1)
    }
}

/// The materials and their per-pass pipelines, by material name.
pub struct MaterialManager<M, P> {
    materials: Vec<M>,
    material_names: NameIndex,
    pipelines: Vec<P>,
    pipeline_keys: PipelineIndex,
    registrations: Ghost<Seq<(Seq<char>, Seq<(PassID, P)>)>>,
}

impl<M, P> MaterialManager<M, P> {
    /// Every name and key refers to a stored entry, and the pipelines are those
    /// that the registrations received so far supplied.
    pub closed spec fn wf(&self) -> bool {
        &&& self.indexes_wf()
        &&& self.pipeline_map() == registered_pipelines(self.registrations@)
    }

    /// The registrations received since the manager was made, oldest first:
    /// each the material's name and the pipelines it created.
    pub closed spec fn registrations(&self) -> Seq<(Seq<char>, Seq<(PassID, P)>)> {
        self.registrations@
    }

    /// Every name and key refers to a stored entry.
    closed spec fn indexes_wf(&self) -> bool {
        &&& forall|k: Seq<char>|
            #[trigger] name_index_contents(self.material_names).contains_key(k) ==> name_index_contents(
                self.material_names,
            )[k] < self.materials@.len()
        &&& forall|k: (Seq<char>, u8)|
            #[trigger] pipeline_index_contents(self.pipeline_keys).contains_key(k)
                ==> pipeline_index_contents(self.pipeline_keys)[k] < self.pipelines@.len()
        &&& forall|a: Seq<char>, b: Seq<char>|
            #[trigger] name_index_contents(self.material_names).contains_key(a)
                && #[trigger] name_index_contents(self.material_names).contains_key(b) && a != b
                ==> name_index_contents(self.material_names)[a] != name_index_contents(
                self.material_names,
            )[b]
        &&& forall|a: (Seq<char>, u8), b: (Seq<char>, u8)|
            #[trigger] pipeline_index_contents(self.pipeline_keys).contains_key(a)
                && #[trigger] pipeline_index_contents(self.pipeline_keys).contains_key(b) && a != b
                ==> pipeline_index_contents(self.pipeline_keys)[a] != pipeline_index_contents(
                self.pipeline_keys,
            )[b]
    }

    /// The registered materials, by name.
    pub closed spec fn material_map(&self) -> Map<Seq<char>, M> {
        Map::new(
            |k: Seq<char>| name_index_contents(self.material_names).contains_key(k),
            |k: Seq<char>| self.materials@[name_index_contents(self.material_names)[k] as int],
        )
    }

    /// The registered pipelines, by material name and pass.
    pub closed spec fn pipeline_map(&self) -> Map<(Seq<char>, PassID), P> {
        Map::new(
            |k: (Seq<char>, PassID)|
                pipeline_index_contents(self.pipeline_keys).contains_key((k.0, pass_code(k.1))),
            |k: (Seq<char>, PassID)|
                self.pipelines@[pipeline_index_contents(self.pipeline_keys)[(k.0, pass_code(k.1))] as int],
        )
    }

    /// A manager with no materials.
    pub fn new() -> (r: Self)
        ensures
            r.wf(),
            r.registrations() == Seq::<(Seq<char>, Seq<(PassID, P)>)>::empty(),
            r.material_map() == Map::<Seq<char>, M>::empty(),
            r.pipeline_map() == Map::<(Seq<char>, PassID), P>::empty(),
    {
        let r = MaterialManager {
            materials: Vec::new(),
            material_names: name_index_new(),
            pipelines: Vec::new(),
            pipeline_keys: pipeline_index_new(),
            registrations: Ghost(Seq::empty()),
        };
        assert(r.material_map() =~= Map::<Seq<char>, M>::empty());
        assert(r.pipeline_map() =~= Map::<(Seq<char>, PassID), P>::empty());
        r
    }

    /// Registers `pipeline` for material `name` in pass `pass`, replacing any before.
    fn put_pipeline(&mut self, name: &str, pass: PassID, pipeline: P)
        requires
            old(self).indexes_wf(),
        ensures
            final(self).indexes_wf(),
            final(self).registrations == old(self).registrations,
            final(self).pipeline_map() == old(self).pipeline_map().insert((name@, pass), pipeline),
            final(self).material_map() == old(self).material_map(),
    {
        let code = pass_to_code(pass);
        match pipeline_index_get(&self.pipeline_keys, name, code) {
            Some(i) => {
                self.pipelines.set(i, pipeline);
            },
            None => {
                let i = self.pipelines.len();
                self.pipelines.push(pipeline);
                let _ = pipeline_index_insert(&mut self.pipeline_keys, name.to_owned(), code, i);
            },
        }
        assert(final(self).pipeline_map() =~= old(self).pipeline_map().insert((name@, pass), pipeline));
        assert(final(self).material_map() =~= old(self).material_map());
    }

    /// Registers `material` under `name` together with the pipelines it created,
    /// one per pass; a material or pipeline registered before under the same
    /// name (and pass) is replaced.
    pub fn register(&mut self, name: &str, material: M, pipelines: Vec<(PassID, P)>)
        requires
            old(self).wf(),
        ensures
            final(self).wf(),
            final(self).registrations() == old(self).registrations().push((name@, pipelines@)),
            final(self).material_map() == old(self).material_map().insert(name@, material),
            final(self).pipeline_map() == with_pipelines(old(self).pipeline_map(), name@, pipelines@),
    {
        let ghost all = pipelines@;
        let mut rest = pipelines;
        let ghost mut done: int = 0;
        while rest.len() > 0
            invariant
                self.indexes_wf(),
                self.registrations == old(self).registrations,
                0 <= done,
                done + rest@.len() == all.len(),
                rest@ == all.skip(done),
                self.material_map() == old(self).material_map(),
                self.pipeline_map() == with_pipelines(old(self).pipeline_map(), name@, all.take(done)),
            decreases rest@.len(),
        {
            let ghost before = rest@;
            let (pass, pipeline) = rest.remove(0);
            proof {
                assert(all.take(done + 1).drop_last() =~= all.take(done));
                assert(all.take(done + 1).last() == all[done]);
                assert(before[0] == all[done]);
                assert(all[done] == (pass, pipeline));
            }
            self.put_pipeline(name, pass, pipeline);
            proof {
                done = done + 1;
            }
            assert(rest@ =~= all.skip(done));
        }
        assert(all.take(done) =~= all);
        match name_index_get(&self.material_names, name) {
            Some(i) => {
                self.materials.set(i, material);
            },
            None => {
                let i = self.materials.len();
                self.materials.push(material);
                let _ = name_index_insert(&mut self.material_names, name.to_owned(), i);
            },
        }
        self.registrations = Ghost(self.registrations@.push((name@, all)));
        assert(final(self).material_map() =~= old(self).material_map().insert(name@, material));
        assert(final(self).pipeline_map() =~= with_pipelines(old(self).pipeline_map(), name@, all));
        proof {
            lemma_register_extends(old(self).registrations@, name@, all);
        }
    }

    /// The material registered under `name`, if any.
    pub fn get_material(&self, name: &str) -> (r: Option<&M>)
        requires
            self.wf(),
        ensures
            r is Some <==> self.material_map().contains_key(name@),
            r matches Some(m) ==> *m == self.material_map()[name@],
    {
        match name_index_get(&self.material_names, name) {
            Some(i) => Some(&self.materials[i]),
            None => None,
        }
    }

    /// The pipeline of material `name` for pass `pass`, if any.
    pub fn get_pipeline(&self, name: &str, pass: PassID) -> (r: Option<&P>)
        requires
            self.wf(),
        ensures
            r is Some <==> self.pipeline_map().contains_key((name@, pass)),
            r matches Some(p) ==> *p == self.pipeline_map()[(name@, pass)],
    {
        match pipeline_index_get(&self.pipeline_keys, name, pass_to_code(pass)) {
            Some(i) => Some(&self.pipelines[i]),
            None => None,
        }
    }
}

/// The loaded meshes, by name.
pub struct MeshAssetManager<D> {
    meshes: Vec<D>,
    names: NameIndex,
}

impl<D> MeshAssetManager<D> {
    /// Every name refers to a stored mesh.
    pub closed spec fn wf(&self) -> bool {
        &&& forall|k: Seq<char>|
            #[trigger] name_index_contents(self.names).contains_key(k) ==> name_index_contents(self.names)[k]
                < self.meshes@.len()
        &&& forall|a: Seq<char>, b: Seq<char>|
            #[trigger] name_index_contents(self.names).contains_key(a)
                && #[trigger] name_index_contents(self.names).contains_key(b) && a != b
                ==> name_index_contents(self.names)[a] != name_index_contents(self.names)[b]
    }

    /// The loaded meshes, by name.
    pub closed spec fn mesh_map(&self) -> Map<Seq<char>, D> {
        Map::new(
            |k: Seq<char>| name_index_contents(self.names).contains_key(k),
            |k: Seq<char>| self.meshes@[name_index_contents(self.names)[k] as int],
        )
    }

    /// A manager with no meshes.
    pub fn new() -> (r: Self)
        ensures
            r.wf(),
            r.mesh_map() == Map::<Seq<char>, D>::empty(),
    {
        let r = MeshAssetManager { meshes: Vec::new(), names: name_index_new() };
        assert(r.mesh_map() =~= Map::<Seq<char>, D>::empty());
        r
    }

    /// Stores `mesh` under `name`, replacing a mesh stored before under it.
    pub fn insert(&mut self, name: String, mesh: D)
        requires
            old(self).wf(),
        ensures
            final(self).wf(),
            final(self).mesh_map() == old(self).mesh_map().insert(name@, mesh),
    {
        match name_index_get(&self.names, name.as_str()) {
            Some(i) => {
                self.meshes.set(i, mesh);
            },
            None => {
                let i = self.meshes.len();
                self.meshes.push(mesh);
                let _ = name_index_insert(&mut self.names, name, i);
            },
        }
        assert(final(self).mesh_map() =~= old(self).mesh_map().insert(name@, mesh));
    }

    /// The mesh stored under `name`, if any.
    pub fn get(&self, name: &str) -> (r: Option<&D>)
        requires
            self.wf(),
        ensures
            r is Some <==> self.mesh_map().contains_key(name@),
            r matches Some(d) ==> *d == self.mesh_map()[name@],
    {
        match name_index_get(&self.names, name) {
            Some(i) => Some(&self.meshes[i]),
            None => None,
        }
    }
}

/// The character of decimal digit `d`.
pub open spec fn digit_char(d: nat) -> char {
    if d == 0 {
        '0'
    } else if d == 1 {
        '1'
    } else if d == 2 {
        '2'
    } else if d == 3 {
        '3'
    } else if d == 4 {
        '4'
    } else if d == 5 {
        '5'
    } else if d == 6 {
        '6'
    } else if d == 7 {
        '7'
    } else if d == 8 {
        '8'
    } else {
        '9'
    }
}

/// `n` written in decimal, without leading zeros.
pub open spec fn decimal(n: nat) -> Seq<char>
    decreases n,
{
    if n < 10 {
        seq![digit_char(n)]
    } else {
        decimal(n / 10).push(digit_char(n % 10))
    }
}

/// The name under which a primitive of a loaded model is stored: the mesh's
/// name (`"mesh"` for an unnamed one), a dot, and the primitive's position.
pub open spec fn mesh_key_spec(mesh_name: Option<Seq<char>>, primitive: nat) -> Seq<char> {
    let base = match mesh_name {
        Some(n) => n,
        None => "mesh"@,
    };
    base + seq!['.'] + decimal(primitive)
}

/// `String::push`: `c` is appended.
#[verifier::external_body]
fn string_push(s: &mut String, c: char)
    ensures
        final(s)@ == old(s)@.push(c),
{
    s.push(c);
}

fn digit(d: usize) -> (c: char)
    requires
        d < 10,
    ensures
        c == digit_char(d as nat),
{
    if d == 0 {
        '0'
    } else if d == 1 {
        '1'
    } else if d == 2 {
        '2'
    } else if d == 3 {
        '3'
    } else if d == 4 {
        '4'
    } else if d == 5 {
        '5'
    } else if d == 6 {
        '6'
    } else if d == 7 {
        '7'
    } else if d == 8 {
        '8'
    } else {
        '9'
    }
}

/// Appends `n` in decimal to `s`.
fn push_decimal(s: &mut String, n: usize)
    ensures
        final(s)@ == old(s)@ + decimal(n as nat),
    decreases n,
{
    if n >= 10 {
        push_decimal(s, n / 10);
    }
    string_push(s, digit(n % 10));
    assert(final(s)@ =~= old(s)@ + decimal(n as nat));
}

/// The key of primitive `primitive` of the mesh named `mesh_name` in a loaded model.
pub fn mesh_key(mesh_name: Option<&str>, primitive: usize) -> (r: String)
    ensures
        r@ == mesh_key_spec(
            match mesh_name {
                Some(n) => Some(n@),
                None => None,
            },
            primitive as nat,
        ),
{
    let mut s = match mesh_name {
        Some(n) => n.to_owned(),
        None => "mesh".to_owned(),
    };
    string_push(&mut s, '.');
    push_decimal(&mut s, primitive);
    s
}

/// What one entity is drawn with in `pass`: its mesh, the pipeline of its
/// material for the pass, and the material; an entity missing any of them is
/// skipped.
pub fn draw_target<'a, D, M, P>(
    meshes: &'a MeshAssetManager<D>,
    materials: &'a MaterialManager<M, P>,
    mesh: &str,
    material: &str,
    pass: PassID,
) -> (r: Option<(&'a D, &'a P, &'a M)>)
    requires
        meshes.wf(),
        materials.wf(),
    ensures
        r is Some <==> (meshes.mesh_map().contains_key(mesh@) && materials.pipeline_map().contains_key(
            (material@, pass),
        ) && materials.material_map().contains_key(material@)),
        r matches Some((d, p, m)) ==> {
            &&& *d == meshes.mesh_map()[mesh@]
            &&& *p == materials.pipeline_map()[(material@, pass)]
            &&& *m == materials.material_map()[material@]
        },
{
    let d = match meshes.get(mesh) {
        Some(d) => d,
        None => {
            return None;
        },
    };
    let p = match materials.get_pipeline(material, pass) {
        Some(p) => p,
        None => {
            return None;
        },
    };
    let m = match materials.get_material(material) {
        Some(m) => m,
        None => {
            return None;
        },
    };
    Some((d, p, m))
}

} // verus!

verus! {

/// Registering pipelines for material `name` leaves the entry of any key of
/// another material, or of a pass that none of the pipelines is for, as it was.
pub proof fn lemma_with_pipelines_other<P>(
    m: Map<(Seq<char>, PassID), P>,
    name: Seq<char>,
    ps: Seq<(PassID, P)>,
    key: (Seq<char>, PassID),
)
    requires
        key.0 != name || forall|i: int| 0 <= i < ps.len() ==> #[trigger] ps[i].0 != key.1,
    ensures
        with_pipelines(m, name, ps).contains_key(key) == m.contains_key(key),
        m.contains_key(key) ==> with_pipelines(m, name, ps)[key] == m[key],
    decreases ps.len(),
{
    if ps.len() > 0 {
        let init = ps.drop_last();
        if key.0 == name {
            assert forall|i: int| 0 <= i < init.len() implies #[trigger] init[i].0 != key.1 by {
                assert(init[i] == ps[i]);
            }
            assert(ps[ps.len() - 1].0 != key.1);
        }
        lemma_with_pipelines_other(m, name, init, key);
    }
}

/// Registering pipelines for material `name` gives the pass of `ps[i]` the
/// pipeline `ps[i]` when no later pipeline is for the same pass.
pub proof fn lemma_with_pipelines_last<P>(
    m: Map<(Seq<char>, PassID), P>,
    name: Seq<char>,
    ps: Seq<(PassID, P)>,
    i: int,
)
    requires
        0 <= i < ps.len(),
        forall|j: int| i < j < ps.len() ==> #[trigger] ps[j].0 != ps[i].0,
    ensures
        with_pipelines(m, name, ps).contains_key((name, ps[i].0)),
        with_pipelines(m, name, ps)[(name, ps[i].0)] == ps[i].1,
    decreases ps.len(),
{
    if i < ps.len() - 1 {
        let init = ps.drop_last();
        assert(ps[ps.len() - 1].0 != ps[i].0);
        assert(init[i] == ps[i]);
        assert forall|j: int| i < j < init.len() implies #[trigger] init[j].0 != init[i].0 by {
            assert(init[j] == ps[j]);
        }
        lemma_with_pipelines_last(m, name, init, i);
    }
}

/// After `register(name, material, ..)`, `get_material(name)` finds `material`,
/// and every other name finds what it found before.
pub proof fn lemma_register_then_get_material<M, P>(
    before: &MaterialManager<M, P>,
    after: &MaterialManager<M, P>,
    name: Seq<char>,
    material: M,
    other: Seq<char>,
)
    requires
        after.material_map() == before.material_map().insert(name, material),
    ensures
        after.material_map().contains_key(name),
        after.material_map()[name] == material,
        other != name ==> after.material_map().contains_key(other) == before.material_map().contains_key(other),
        other != name && before.material_map().contains_key(other) ==> after.material_map()[other]
            == before.material_map()[other],
{
}

/// After `insert(name, mesh)`, `get(name)` finds `mesh`, and every other name
/// finds what it found before.
pub proof fn lemma_insert_then_get_mesh<D>(
    before: &MeshAssetManager<D>,
    after: &MeshAssetManager<D>,
    name: Seq<char>,
    mesh: D,
    other: Seq<char>,
)
    requires
        after.mesh_map() == before.mesh_map().insert(name, mesh),
    ensures
        after.mesh_map().contains_key(name),
        after.mesh_map()[name] == mesh,
        other != name ==> after.mesh_map().contains_key(other) == before.mesh_map().contains_key(other),
        other != name && before.mesh_map().contains_key(other) ==> after.mesh_map()[other]
            == before.mesh_map()[other],
{
}

/// Keys of different primitives of one mesh differ, so loading a model stores
/// each of its primitives under a name of its own.
pub proof fn lemma_mesh_keys_distinct(mesh_name: Option<Seq<char>>, a: nat, b: nat)
    requires
        a != b,
    ensures
        mesh_key_spec(mesh_name, a) != mesh_key_spec(mesh_name, b),
{
    lemma_decimal_injective(a, b);
    let base = match mesh_name {
        Some(n) => n,
        None => "mesh"@,
    };
    let pa = base + seq!['.'];
    if mesh_key_spec(mesh_name, a) == mesh_key_spec(mesh_name, b) {
        assert((pa + decimal(a)).skip(pa.len() as int) =~= decimal(a));
        assert((pa + decimal(b)).skip(pa.len() as int) =~= decimal(b));
    }
}

proof fn lemma_digit_char_injective(x: nat, y: nat)
    requires
        x < 10,
        y < 10,
        x != y,
    ensures
        digit_char(x) != digit_char(y),
{
}

/// Decimal notation names each number once.
proof fn lemma_decimal_injective(a: nat, b: nat)
    requires
        a != b,
    ensures
        decimal(a) != decimal(b),
    decreases a + b,
{
    if a < 10 && b < 10 {
        assert(decimal(a)[0] == digit_char(a));
        assert(decimal(b)[0] == digit_char(b));
        lemma_digit_char_injective(a, b);
    } else if a < 10 {
        lemma_decimal_len_ge_two(b);
    } else if b < 10 {
        lemma_decimal_len_ge_two(a);
    } else {
        if a % 10 != b % 10 {
            lemma_digit_char_injective(a % 10, b % 10);
            assert(decimal(a).last() == digit_char(a % 10));
            assert(decimal(b).last() == digit_char(b % 10));
        } else {
            assert(a / 10 != b / 10);
            lemma_decimal_injective(a / 10, b / 10);
            if decimal(a) == decimal(b) {
                assert(decimal(a).drop_last() =~= decimal(a / 10));
                assert(decimal(b).drop_last() =~= decimal(b / 10));
            }
        }
    }
}

proof fn lemma_decimal_len_ge_two(n: nat)
    requires
        n >= 10,
    ensures
        decimal(n).len() >= 2,
    decreases n,
{
    lemma_decimal_len_pos(n / 10);
}

proof fn lemma_decimal_len_pos(n: nat)
    ensures
        decimal(n).len() >= 1,
    decreases n,
{
    if n >= 10 {
        lemma_decimal_len_pos(n / 10);
    }
}

/// The pipelines after a fresh manager received the registrations `regs` in
/// order, each a material name and the pipelines it created.
pub open spec fn registered_pipelines<P>(regs: Seq<(Seq<char>, Seq<(PassID, P)>)>) -> Map<
    (Seq<char>, PassID),
    P,
>
    decreases regs.len(),
{
    if regs.len() == 0 {
        Map::empty()
    } else {
        with_pipelines(registered_pipelines(regs.drop_last()), regs.last().0, regs.last().1)
    }
}

/// `register(name, _, ps)` turns the pipelines of the registrations `regs` into
/// those of `regs` followed by `(name, ps)`; a new manager holds those of none.
pub proof fn lemma_register_extends<P>(
    regs: Seq<(Seq<char>, Seq<(PassID, P)>)>,
    name: Seq<char>,
    ps: Seq<(PassID, P)>,
)
    ensures
        registered_pipelines(Seq::<(Seq<char>, Seq<(PassID, P)>)>::empty()) == Map::<
            (Seq<char>, PassID),
            P,
        >::empty(),
        with_pipelines(registered_pipelines(regs), name, ps) == registered_pipelines(regs.push((name, ps))),
{
    assert(regs.push((name, ps)).drop_last() =~= regs);
}

/// Registering `ps` for `name` adds exactly the keys of `name` with a pass of
/// `ps`, each holding a pipeline of `ps` for its pass, and keeps the other entries.
proof fn lemma_with_pipelines_keys<P>(
    m: Map<(Seq<char>, PassID), P>,
    name: Seq<char>,
    ps: Seq<(PassID, P)>,
    key: (Seq<char>, PassID),
)
    ensures
        with_pipelines(m, name, ps).contains_key(key) <==> (m.contains_key(key) || (key.0 == name && exists|j: int|
            0 <= j < ps.len() && #[trigger] ps[j].0 == key.1)),
        with_pipelines(m, name, ps).contains_key(key) ==> ((m.contains_key(key) && with_pipelines(m, name, ps)[key]
            == m[key]) || exists|
            j: int,
        |
            0 <= j < ps.len() && #[trigger] ps[j].0 == key.1 && key.0 == name && with_pipelines(m, name, ps)[key]
                == ps[j].1),
    decreases ps.len(),
{
    if ps.len() > 0 {
        let init = ps.drop_last();
        lemma_with_pipelines_keys(m, name, init, key);
        if exists|j: int| 0 <= j < init.len() && #[trigger] init[j].0 == key.1 {
            let j = choose|j: int| 0 <= j < init.len() && #[trigger] init[j].0 == key.1;
            assert(ps[j] == init[j]);
        }
        if exists|j: int| 0 <= j < ps.len() && #[trigger] ps[j].0 == key.1 {
            let j = choose|j: int| 0 <= j < ps.len() && #[trigger] ps[j].0 == key.1;
            if j < ps.len() - 1 {
                assert(init[j] == ps[j]);
            }
        }
        if with_pipelines(m, name, init).contains_key(key) && key != (name, ps.last().0) {
            if exists|j: int|
                0 <= j < init.len() && #[trigger] init[j].0 == key.1 && key.0 == name && with_pipelines(
                    m,
                    name,
                    init,
                )[key] == init[j].1 {
                let j = choose|j: int|
                    0 <= j < init.len() && #[trigger] init[j].0 == key.1 && key.0 == name && with_pipelines(
                        m,
                        name,
                        init,
                    )[key] == init[j].1;
                assert(ps[j] == init[j]);
            }
        }
        if key == (name, ps.last().0) {
            assert(ps[ps.len() - 1].0 == key.1);
        }
    }
}

/// After any series of registrations, the pipeline of `name` for `pass` is
/// found exactly when some registration of `name` supplied a pipeline for
/// `pass`, and what is found is one that a registration of `name` supplied for `pass`.
pub proof fn lemma_registrations_find_pipelines<P>(
    regs: Seq<(Seq<char>, Seq<(PassID, P)>)>,
    name: Seq<char>,
    pass: PassID,
)
    ensures
        registered_pipelines(regs).contains_key((name, pass)) <==> exists|i: int, j: int|
            #![trigger regs[i].1[j]]
            0 <= i < regs.len() && 0 <= j < regs[i].1.len() && regs[i].0 == name && regs[i].1[j].0 == pass,
        registered_pipelines(regs).contains_key((name, pass)) ==> exists|i: int, j: int|
            #![trigger regs[i].1[j]]
            0 <= i < regs.len() && 0 <= j < regs[i].1.len() && regs[i].0 == name && regs[i].1[j].0 == pass
                && registered_pipelines(regs)[(name, pass)] == regs[i].1[j].1,
    decreases regs.len(),
{
    if regs.len() > 0 {
        let init = regs.drop_last();
        let last = regs.last();
        let key = (name, pass);
        lemma_registrations_find_pipelines(init, name, pass);
        lemma_with_pipelines_keys(registered_pipelines(init), last.0, last.1, key);
        let n = regs.len() - 1;
        assert(regs[n] == last);
        // Witnesses among the earlier registrations stay witnesses.
        if exists|i: int, j: int|
            #![trigger init[i].1[j]]
            0 <= i < init.len() && 0 <= j < init[i].1.len() && init[i].0 == name && init[i].1[j].0 == pass {
            let (i, j) = choose|i: int, j: int|
                #![trigger init[i].1[j]]
                0 <= i < init.len() && 0 <= j < init[i].1.len() && init[i].0 == name && init[i].1[j].0 == pass;
            assert(regs[i] == init[i]);
            assert(regs[i].1[j] == init[i].1[j]);
        }
        if exists|j: int| 0 <= j < last.1.len() && #[trigger] last.1[j].0 == pass {
            let j = choose|j: int| 0 <= j < last.1.len() && #[trigger] last.1[j].0 == pass;
            assert(regs[n].1[j] == last.1[j]);
        }
        // A witness among all registrations is one among the earlier ones or in the last.
        if exists|i: int, j: int|
            #![trigger regs[i].1[j]]
            0 <= i < regs.len() && 0 <= j < regs[i].1.len() && regs[i].0 == name && regs[i].1[j].0 == pass {
            let (i, j) = choose|i: int, j: int|
                #![trigger regs[i].1[j]]
                0 <= i < regs.len() && 0 <= j < regs[i].1.len() && regs[i].0 == name && regs[i].1[j].0 == pass;
            if i < n {
                assert(init[i] == regs[i]);
                assert(init[i].1[j] == regs[i].1[j]);
            } else {
                assert(last.1[j].0 == pass);
            }
        }
        if registered_pipelines(regs).contains_key(key) {
            if registered_pipelines(init).contains_key(key) && registered_pipelines(regs)[key]
                == registered_pipelines(init)[key] {
                let (i, j) = choose|i: int, j: int|
                    #![trigger init[i].1[j]]
                    0 <= i < init.len() && 0 <= j < init[i].1.len() && init[i].0 == name && init[i].1[j].0
                        == pass && registered_pipelines(init)[key] == init[i].1[j].1;
                assert(regs[i] == init[i]);
                assert(regs[i].1[j] == init[i].1[j]);
            } else {
                if !registered_pipelines(init).contains_key(key) || registered_pipelines(regs)[key]
                    != registered_pipelines(init)[key] {
                    let j = choose|j: int|
                        0 <= j < last.1.len() && #[trigger] last.1[j].0 == key.1 && key.0 == last.0
                            && registered_pipelines(regs)[key] == last.1[j].1;
                    assert(regs[n].1[j] == last.1[j]);
                }
            }
        }
    }
}

/// What a manager holds of pipelines is what its registrations supplied: after
/// `MaterialManager::new()` and any series of `register` calls, the pipeline of
/// `name` for `pass` is found exactly when some registration of `name`
/// supplied one for `pass`, and it is one of those; a new manager finds none.
pub proof fn lemma_manager_finds_pipelines<M, P>(m: &MaterialManager<M, P>, name: Seq<char>, pass: PassID)
    requires
        m.wf(),
    ensures
        m.pipeline_map() == registered_pipelines(m.registrations()),
        m.pipeline_map().contains_key((name, pass)) <==> exists|i: int, j: int|
            #![trigger m.registrations()[i].1[j]]
            0 <= i < m.registrations().len() && 0 <= j < m.registrations()[i].1.len() && m.registrations()[i].0
                == name && m.registrations()[i].1[j].0 == pass,
        m.pipeline_map().contains_key((name, pass)) ==> exists|i: int, j: int|
            #![trigger m.registrations()[i].1[j]]
            0 <= i < m.registrations().len() && 0 <= j < m.registrations()[i].1.len() && m.registrations()[i].0
                == name && m.registrations()[i].1[j].0 == pass && m.pipeline_map()[(name, pass)]
                == m.registrations()[i].1[j].1,
{
    lemma_registrations_find_pipelines(m.registrations(), name, pass);
}

/// Registering material `name` twice, first with `m1` and pipelines `p1`, then
/// with `m2` and pipelines `p2`: `get_material(name)` finds `m2`; the pipeline
/// of `name` for a pass is the last of `p2` for that pass if `p2` has one, else
/// the last of `p1` for it if `p1` has one, else what it was before both.
pub proof fn lemma_register_twice<M, P>(
    before: &MaterialManager<M, P>,
    after: &MaterialManager<M, P>,
    name: Seq<char>,
    m1: M,
    p1: Seq<(PassID, P)>,
    m2: M,
    p2: Seq<(PassID, P)>,
    pass: PassID,
)
    requires
        after.material_map() == before.material_map().insert(name, m1).insert(name, m2),
        after.pipeline_map() == with_pipelines(with_pipelines(before.pipeline_map(), name, p1), name, p2),
    ensures
        after.material_map().contains_key(name),
        after.material_map()[name] == m2,
        forall|i: int|
            0 <= i < p2.len() && #[trigger] p2[i].0 == pass && (forall|j: int| i < j < p2.len() ==> p2[j].0 != pass)
                ==> after.pipeline_map().contains_key((name, pass)) && after.pipeline_map()[(name, pass)] == p2[i].1,
        (forall|j: int| 0 <= j < p2.len() ==> p2[j].0 != pass) ==> forall|i: int|
            0 <= i < p1.len() && #[trigger] p1[i].0 == pass && (forall|j: int| i < j < p1.len() ==> p1[j].0 != pass)
                ==> after.pipeline_map().contains_key((name, pass)) && after.pipeline_map()[(name, pass)]
                == p1[i].1,
        (forall|j: int| 0 <= j < p2.len() ==> p2[j].0 != pass) && (forall|j: int| 0 <= j < p1.len() ==> p1[j].0 != pass)
            ==> after.pipeline_map().contains_key((name, pass)) == before.pipeline_map().contains_key((name, pass))
            && (before.pipeline_map().contains_key((name, pass)) ==> after.pipeline_map()[(name, pass)]
            == before.pipeline_map()[(name, pass)]),
{
    let mid = with_pipelines(before.pipeline_map(), name, p1);
    assert forall|i: int|
        0 <= i < p2.len() && #[trigger] p2[i].0 == pass && (forall|j: int| i < j < p2.len() ==> p2[j].0 != pass)
        implies after.pipeline_map().contains_key((name, pass)) && after.pipeline_map()[(name, pass)] == p2[i].1 by {
        assert forall|j: int| i < j < p2.len() implies #[trigger] p2[j].0 != p2[i].0 by {}
        lemma_with_pipelines_last(mid, name, p2, i);
    }
    if forall|j: int| 0 <= j < p2.len() ==> p2[j].0 != pass {
        assert forall|j: int| 0 <= j < p2.len() implies #[trigger] p2[j].0 != pass by {}
        lemma_with_pipelines_other(mid, name, p2, (name, pass));
        assert forall|i: int|
            0 <= i < p1.len() && #[trigger] p1[i].0 == pass && (forall|j: int| i < j < p1.len() ==> p1[j].0 != pass)
            implies after.pipeline_map().contains_key((name, pass)) && after.pipeline_map()[(name, pass)]
            == p1[i].1 by {
            assert forall|j: int| i < j < p1.len() implies #[trigger] p1[j].0 != p1[i].0 by {}
            lemma_with_pipelines_last(before.pipeline_map(), name, p1, i);
        }
        if forall|j: int| 0 <= j < p1.len() ==> p1[j].0 != pass {
            assert forall|j: int| 0 <= j < p1.len() implies #[trigger] p1[j].0 != pass by {}
            lemma_with_pipelines_other(before.pipeline_map(), name, p1, (name, pass));
        }
    }
}

} // verus!
