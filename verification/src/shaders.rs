use vstd::prelude::*;

verus! {

/// The shader program itself.
pub struct ShaderData {
    pub code: String,
}

/// What a client submits to create a shader.
pub struct NewShaderData {
    pub name: String,
    pub description: String,
    pub data: ShaderData,
}

/// Who may see a shader.
#[derive(Clone, Copy, Debug, PartialEq, Eq, Structural)]
pub enum AccessLevel {
    Public,
    Unlisted,
    Private,
}

/// What a client submits to change a shader: absent fields stay as they
/// are. Tags travel as their serialized text.
pub struct UpdateShaderData {
    pub name: Option<String>,
    pub description: Option<String>,
    pub data: Option<ShaderData>,
    pub access: Option<AccessLevel>,
    pub tags: Option<String>,
}

/// Mathematical image of an `UpdateShaderData`.
#[verifier::ext_equal]
pub ghost struct UpdateShaderModel {
    pub name: Option<Seq<char>>,
    pub description: Option<Seq<char>>,
    pub code: Option<Seq<char>>,
    pub access: Option<AccessLevel>,
    pub tags: Option<Seq<char>>,
}

impl View for UpdateShaderData {
    type V = UpdateShaderModel;

    open spec fn view(&self) -> UpdateShaderModel {
        UpdateShaderModel {
            name: match self.name {
                Some(n) => Some(n@),
                None => None,
            },
            description: match self.description {
                Some(d) => Some(d@),
                None => None,
            },
            code: match self.data {
                Some(d) => Some(d.code@),
                None => None,
            },
            access: self.access,
            tags: match self.tags {
                Some(t) => Some(t@),
                None => None,
            },
        }
    }
}

/// One stored shader row.
pub struct Shader {
    pub id: String,
    pub user_id: u128,
    pub name: String,
    pub description: String,
    pub access: AccessLevel,
    pub tags: String,
    pub data: ShaderData,
    pub created_at: i64,
    pub updated_at: i64,
    pub deleted: bool,
}

/// Mathematical image of a `Shader`.
#[verifier::ext_equal]
pub ghost struct ShaderModel {
    pub id: Seq<char>,
    pub user_id: int,
    pub name: Seq<char>,
    pub description: Seq<char>,
    pub access: AccessLevel,
    pub tags: Seq<char>,
    pub code: Seq<char>,
    pub created_at: int,
    pub updated_at: int,
    pub deleted: bool,
}

impl View for Shader {
    type V = ShaderModel;

    open spec fn view(&self) -> ShaderModel {
        ShaderModel {
            id: self.id@,
            user_id: self.user_id as int,
            name: self.name@,
            description: self.description@,
            access: self.access,
            tags: self.tags@,
            code: self.data.code@,
            created_at: self.created_at as int,
            updated_at: self.updated_at as int,
            deleted: self.deleted,
        }
    }
}

/// A row after a partial update: present fields replaced, absent fields
/// kept, identity and timestamps untouched.
pub open spec fn spec_apply_update(s: ShaderModel, u: UpdateShaderModel) -> ShaderModel {
    ShaderModel {
        id: s.id,
        user_id: s.user_id,
        name: if u.name is Some {
            u.name.unwrap()
        } else {
            s.name
        },
        description: if u.description is Some {
            u.description.unwrap()
        } else {
            s.description
        },
        access: if u.access is Some {
            u.access.unwrap()
        } else {
            s.access
        },
        tags: if u.tags is Some {
            u.tags.unwrap()
        } else {
            s.tags
        },
        code: if u.code is Some {
            u.code.unwrap()
        } else {
            s.code
        },
        created_at: s.created_at,
        updated_at: s.updated_at,
        deleted: s.deleted,
    }
}

/// A shader row readable and writable by this user: owned and not
/// soft-deleted.
pub open spec fn spec_visible_to(s: ShaderModel, uid: int) -> bool {
    s.user_id == uid && !s.deleted
}

/// A shader row everyone may list: public and not soft-deleted.
pub open spec fn spec_listed(s: ShaderModel) -> bool {
    !s.deleted && s.access == AccessLevel::Public
}

/// The views of a sequence of stored rows.
pub open spec fn spec_views(v: Seq<Shader>) -> Seq<ShaderModel> {
    v.map_values(|s: Shader| s@)
}

/// The listing predicate as one function value.
pub open spec fn spec_listed_pred() -> spec_fn(ShaderModel) -> bool {
    |m: ShaderModel| spec_listed(m)
}

/// This user's live shaders, as one function value.
pub open spec fn spec_mine_pred(uid: int) -> spec_fn(ShaderModel) -> bool {
    |m: ShaderModel| m.user_id == uid && !m.deleted
}

/// This user's archived shaders, as one function value.
pub open spec fn spec_archived_pred(uid: int) -> spec_fn(ShaderModel) -> bool {
    |m: ShaderModel| m.user_id == uid && m.deleted
}

/// One step of filtering a prefix.
proof fn lemma_filter_step(s: Seq<ShaderModel>, i: int, pred: spec_fn(ShaderModel) -> bool)
    requires
        0 <= i < s.len(),
    ensures
        pred(s[i]) ==> s.take(i + 1).filter(pred) == s.take(i).filter(pred).push(s[i]),
        !pred(s[i]) ==> s.take(i + 1).filter(pred) == s.take(i).filter(pred),
{
    assert(s.take(i + 1).drop_last() =~= s.take(i));
    assert(s.take(i + 1).last() == s[i]);
    reveal_with_fuel(Seq::filter, 2);
}

/// Relies on nanoid::format with the crate's URL-safe alphabet: an id of
/// exactly `len` characters, drawn at random. On a zero length the call
/// would never return, so the length must be positive.
#[verifier::external_body]
fn random_id(len: usize) -> (r: String)
    requires
        1 <= len,
    ensures
        r@.len() == len,
{
    nanoid::format(nanoid::rngs::default, &nanoid::alphabet::SAFE, len)
}

/// A field-by-field copy of a shader row.
fn clone_shader(s: &Shader) -> (r: Shader)
    ensures
        r@ == s@,
{
    Shader {
        id: s.id.clone(),
        user_id: s.user_id,
        name: s.name.clone(),
        description: s.description.clone(),
        access: s.access,
        tags: s.tags.clone(),
        data: ShaderData { code: s.data.code.clone() },
        created_at: s.created_at,
        updated_at: s.updated_at,
        deleted: s.deleted,
    }
}

/// The persisted shader relation.
pub struct ShaderStore {
    shaders: Vec<Shader>,
}

impl View for ShaderStore {
    type V = Seq<ShaderModel>;

    closed spec fn view(&self) -> Seq<ShaderModel> {
        self.shaders@.map_values(|s: Shader| s@)
    }
}

impl ShaderStore {
    /// Shader ids are unique.
    pub open spec fn wf(self) -> bool {
        forall|i: int, j: int|
            0 <= i < self@.len() && 0 <= j < self@.len() && i != j ==> (#[trigger] self@[i]).id
                != (#[trigger] self@[j]).id
    }

    /// Some row carries this id.
    pub open spec fn has_shader(self, id: Seq<char>) -> bool {
        exists|i: int| 0 <= i < self@.len() && (#[trigger] self@[i]).id == id
    }

    /// The row carrying this id (unique under `wf`).
    pub open spec fn shader(self, id: Seq<char>) -> ShaderModel {
        self@[choose|i: int| 0 <= i < self@.len() && (#[trigger] self@[i]).id == id]
    }

    /// An empty store.
    pub fn new() -> (s: ShaderStore)
        ensures
            s.wf(),
            s@.len() == 0,
    {
        ShaderStore { shaders: Vec::new() }
    }

    /// The index of the row with this id, if any.
    fn shader_index(&self, id: &String) -> (r: Option<usize>)
        ensures
            match r {
                Some(i) => i < self@.len() && self@[i as int].id == id@,
                None => !self.has_shader(id@),
            },
    {
        let n = self.shaders.len();
        for i in 0..n
            invariant
                n == self.shaders.len(),
                forall|k: int| 0 <= k < i ==> (#[trigger] self@[k]).id != id@,
        {
            proof {
                assert(self@[i as int] == self.shaders@[i as int]@);
            }
            if self.shaders[i].id == *id {
                return Some(i);
            }
        }
        None
    }

    /// Draws fresh six-character ids until one is unused, giving up after
    /// a bounded number of collisions (the id space has far more points
    /// than any store holds, so the first draw succeeds in practice).
    pub fn generate_shader_id(&self) -> (r: Option<String>)
        ensures
            match r {
                Some(id) => !self.has_shader(id@) && id@.len() == 6,
                None => true,
            },
    {
        let mut attempts: usize = 0;
        while attempts < 16
            invariant
                attempts <= 16,
            decreases 16 - attempts,
        {
            let id = random_id(6);
            if self.shader_index(&id).is_none() {
                return Some(id);
            }
            attempts = attempts + 1;
        }
        None
    }

    /// Stores a newly submitted shader under a fresh id and returns the
    /// stored row. Fails only when no fresh id could be drawn; nothing is
    /// written then.
    pub fn add_shader(&mut self, user_id: u128, new_shader: NewShaderData, now: i64) -> (r: Option<
        Shader,
    >)
        requires
            old(self).wf(),
        ensures
            final(self).wf(),
            match r {
                Some(s) => {
                    &&& s@ == (ShaderModel {
                        id: s@.id,
                        user_id: user_id as int,
                        name: new_shader.name@,
                        description: new_shader.description@,
                        access: AccessLevel::Private,
                        tags: "[]"@,
                        code: new_shader.data.code@,
                        created_at: now as int,
                        updated_at: now as int,
                        deleted: false,
                    })
                    &&& s@.id.len() == 6
                    &&& !old(self).has_shader(s@.id)
                    &&& final(self)@ == old(self)@.push(s@)
                },
                None => final(self)@ == old(self)@,
            },
    {
        let id = match self.generate_shader_id() {
            Some(id) => id,
            None => {
                return None;
            },
        };
        let ghost pre = self@;
        let row = Shader {
            id,
            user_id,
            name: new_shader.name,
            description: new_shader.description,
            access: AccessLevel::Private,
            tags: "[]".to_owned(),
            data: new_shader.data,
            created_at: now,
            updated_at: now,
            deleted: false,
        };
        let result = clone_shader(&row);
        let ghost rowm = row@;
        self.shaders.push(row);
        proof {
            assert(self@ =~= pre.push(rowm));
            let nlen = self@.len() - 1;
            assert forall|a: int, b: int|
                0 <= a < self@.len() && 0 <= b < self@.len() && a != b implies (
            #[trigger] self@[a]).id != (#[trigger] self@[b]).id by {
                if a == nlen || b == nlen {
                    let o = if a == nlen {
                        b
                    } else {
                        a
                    };
                    assert(pre[o] == self@[o]);
                    assert(pre[o].id != rowm.id);
                }
            }
        }
        Some(result)
    }

    /// The shader with this id as this user sees it: only the owner sees a
    /// row, and only while it is not soft-deleted. Absence is an outcome,
    /// not an error.
    pub fn get_shader_by_id(&self, id: &String, user_id: u128) -> (r: Option<Shader>)
        requires
            self.wf(),
        ensures
            match r {
                Some(s) => self.has_shader(id@) && spec_visible_to(self.shader(id@), user_id as int)
                    && s@ == self.shader(id@),
                None => !(self.has_shader(id@) && spec_visible_to(
                    self.shader(id@),
                    user_id as int,
                )),
            },
    {
        match self.shader_index(id) {
            Some(i) => {
                proof {
                    lemma_shader_selector(*self, i as int);
                }
                let row = &self.shaders[i];
                proof {
                    assert(self@[i as int] == self.shaders@[i as int]@);
                }
                if row.user_id == user_id && !row.deleted {
                    Some(clone_shader(row))
                } else {
                    None
                }
            },
            None => None,
        }
    }

    /// Applies a partial update to the shader with this id, as this user:
    /// present fields replace the stored ones, absent fields stay. Returns
    /// the row as stored afterwards, or `None` — with nothing written —
    /// when the id names no row the user may edit.
    pub fn update_shader(&mut self, id: &String, user_id: u128, update: UpdateShaderData) -> (r:
        Option<Shader>)
        requires
            old(self).wf(),
        ensures
            final(self).wf(),
            match r {
                Some(s) => {
                    &&& old(self).has_shader(id@)
                    &&& spec_visible_to(old(self).shader(id@), user_id as int)
                    &&& s@ == spec_apply_update(old(self).shader(id@), update@)
                    &&& final(self).has_shader(id@)
                    &&& final(self).shader(id@) == s@
                    &&& final(self)@.len() == old(self)@.len()
                    &&& (forall|t: ShaderModel|
                        t.id != id@ ==> (final(self)@.contains(t) <==> old(self)@.contains(t)))
                },
                None => {
                    &&& final(self)@ == old(self)@
                    &&& !(old(self).has_shader(id@) && spec_visible_to(
                        old(self).shader(id@),
                        user_id as int,
                    ))
                },
            },
    {
        let ghost pre = *self;
        let i = match self.shader_index(id) {
            Some(i) => i,
            None => {
                return None;
            },
        };
        proof {
            lemma_shader_selector(*self, i as int);
        }
        let old_row = self.shaders.remove(i);
        if !(old_row.user_id == user_id && !old_row.deleted) {
            self.shaders.insert(i, old_row);
            proof {
                assert(self@ =~= pre@);
            }
            return None;
        }
        let new_row = Shader {
            id: old_row.id,
            user_id: old_row.user_id,
            name: match update.name {
                Some(n) => n,
                None => old_row.name,
            },
            description: match update.description {
                Some(d) => d,
                None => old_row.description,
            },
            access: match update.access {
                Some(a) => a,
                None => old_row.access,
            },
            tags: match update.tags {
                Some(t) => t,
                None => old_row.tags,
            },
            data: match update.data {
                Some(d) => d,
                None => old_row.data,
            },
            created_at: old_row.created_at,
            updated_at: old_row.updated_at,
            deleted: old_row.deleted,
        };
        let result = clone_shader(&new_row);
        let ghost rowm = new_row@;
        self.shaders.insert(i, new_row);
        proof {
            assert(rowm == spec_apply_update(pre@[i as int], update@));
            assert(self@ =~= pre@.update(i as int, rowm));
            assert forall|a: int, b: int|
                0 <= a < self@.len() && 0 <= b < self@.len() && a != b implies (
            #[trigger] self@[a]).id != (#[trigger] self@[b]).id by {
                if a == i as int || b == i as int {
                    let o = if a == i as int {
                        b
                    } else {
                        a
                    };
                    assert(pre@[o] == self@[o]);
                }
            }
            lemma_shader_selector(*self, i as int);
            assert forall|t: ShaderModel| t.id != id@ implies (self@.contains(t)
                <==> pre@.contains(t)) by {
                if self@.contains(t) {
                    let k = choose|k: int| 0 <= k < self@.len() && self@[k] == t;
                    assert(k != i);
                    assert(pre@[k] == t);
                }
                if pre@.contains(t) {
                    let k = choose|k: int| 0 <= k < pre@.len() && pre@[k] == t;
                    assert(k != i);
                    assert(self@[k] == t);
                }
            }
        }
        Some(result)
    }

    /// Every shader anyone may list: public and not soft-deleted, in
    /// stored order.
    pub fn get_shaders(&self) -> (r: Vec<Shader>)
        ensures
            spec_views(r@) == self@.filter(spec_listed_pred()),
    {
        let n = self.shaders.len();
        let mut out: Vec<Shader> = Vec::new();
        for i in 0..n
            invariant
                n == self.shaders.len(),
                spec_views(out@) =~= self@.take(i as int).filter(spec_listed_pred()),
        {
            proof {
                assert(self@[i as int] == self.shaders@[i as int]@);
                lemma_filter_step(self@, i as int, spec_listed_pred());
            }
            let row = &self.shaders[i];
            let keep = !row.deleted && matches!(row.access, AccessLevel::Public);
            proof {
                assert(keep == spec_listed_pred()(self@[i as int]));
            }
            if keep {
                out.push(clone_shader(row));
            }
            proof {
                assert(spec_views(out@) =~= self@.take(i + 1).filter(spec_listed_pred()));
            }
        }
        proof {
            assert(self@.take(n as int) =~= self@);
        }
        out
    }

    /// Every live shader of this user, in stored order.
    pub fn get_my_shaders(&self, user_id: u128) -> (r: Vec<Shader>)
        ensures
            spec_views(r@) == self@.filter(spec_mine_pred(user_id as int)),
    {
        let n = self.shaders.len();
        let mut out: Vec<Shader> = Vec::new();
        for i in 0..n
            invariant
                n == self.shaders.len(),
                spec_views(out@) =~= self@.take(i as int).filter(spec_mine_pred(user_id as int)),
        {
            proof {
                assert(self@[i as int] == self.shaders@[i as int]@);
                lemma_filter_step(self@, i as int, spec_mine_pred(user_id as int));
            }
            let row = &self.shaders[i];
            let keep = row.user_id == user_id && !row.deleted;
            proof {
                assert(keep == spec_mine_pred(user_id as int)(self@[i as int]));
            }
            if keep {
                out.push(clone_shader(row));
            }
            proof {
                assert(spec_views(out@) =~= self@.take(i + 1).filter(
                    spec_mine_pred(user_id as int),
                ));
            }
        }
        proof {
            assert(self@.take(n as int) =~= self@);
        }
        out
    }

    /// Every soft-deleted shader of this user (the archive), in stored
    /// order.
    pub fn get_my_deleted_shaders(&self, user_id: u128) -> (r: Vec<Shader>)
        ensures
            spec_views(r@) == self@.filter(spec_archived_pred(user_id as int)),
    {
        let n = self.shaders.len();
        let mut out: Vec<Shader> = Vec::new();
        for i in 0..n
            invariant
                n == self.shaders.len(),
                spec_views(out@) =~= self@.take(i as int).filter(
                    spec_archived_pred(user_id as int),
                ),
        {
            proof {
                assert(self@[i as int] == self.shaders@[i as int]@);
                lemma_filter_step(self@, i as int, spec_archived_pred(user_id as int));
            }
            let row = &self.shaders[i];
            let keep = row.user_id == user_id && row.deleted;
            proof {
                assert(keep == spec_archived_pred(user_id as int)(self@[i as int]));
            }
            if keep {
                out.push(clone_shader(row));
            }
            proof {
                assert(spec_views(out@) =~= self@.take(i + 1).filter(
                    spec_archived_pred(user_id as int),
                ));
            }
        }
        proof {
            assert(self@.take(n as int) =~= self@);
        }
        out
    }

    /// Marks the user's shader with this id soft-deleted. The write is one
    /// unconditional statement, so touching no row is an outcome, not an
    /// error.
    pub fn delete_shader(&mut self, id: &String, user_id: u128) -> (r: bool)
        requires
            old(self).wf(),
        ensures
            final(self).wf(),
            r == (old(self).has_shader(id@) && old(self).shader(id@).user_id == user_id as int),
            !r ==> final(self)@ == old(self)@,
            r ==> final(self).has_shader(id@) && final(self).shader(id@) == (ShaderModel {
                deleted: true,
                ..old(self).shader(id@)
            }) && final(self)@.len() == old(self)@.len(),
            r ==> (forall|t: ShaderModel|
                t.id != id@ ==> (final(self)@.contains(t) <==> old(self)@.contains(t))),
    {
        self.set_deleted_flag(id, user_id, true)
    }

    /// Brings the user's soft-deleted shader with this id back.
    pub fn restore_shader(&mut self, id: &String, user_id: u128) -> (r: bool)
        requires
            old(self).wf(),
        ensures
            final(self).wf(),
            r == (old(self).has_shader(id@) && old(self).shader(id@).user_id == user_id as int),
            !r ==> final(self)@ == old(self)@,
            r ==> final(self).has_shader(id@) && final(self).shader(id@) == (ShaderModel {
                deleted: false,
                ..old(self).shader(id@)
            }) && final(self)@.len() == old(self)@.len(),
            r ==> (forall|t: ShaderModel|
                t.id != id@ ==> (final(self)@.contains(t) <==> old(self)@.contains(t))),
    {
        self.set_deleted_flag(id, user_id, false)
    }

    /// Rewrites the soft-deletion flag of the user's shader with this id.
    fn set_deleted_flag(&mut self, id: &String, user_id: u128, deleted: bool) -> (r: bool)
        requires
            old(self).wf(),
        ensures
            final(self).wf(),
            r == (old(self).has_shader(id@) && old(self).shader(id@).user_id == user_id as int),
            !r ==> final(self)@ == old(self)@,
            r ==> final(self).has_shader(id@) && final(self).shader(id@) == (ShaderModel {
                deleted: deleted,
                ..old(self).shader(id@)
            }) && final(self)@.len() == old(self)@.len(),
            r ==> (forall|t: ShaderModel|
                t.id != id@ ==> (final(self)@.contains(t) <==> old(self)@.contains(t))),
    {
        let ghost pre = *self;
        let i = match self.shader_index(id) {
            Some(i) => i,
            None => {
                return false;
            },
        };
        proof {
            lemma_shader_selector(*self, i as int);
        }
        let old_row = self.shaders.remove(i);
        if old_row.user_id != user_id {
            self.shaders.insert(i, old_row);
            proof {
                assert(self@ =~= pre@);
            }
            return false;
        }
        let new_row = Shader { deleted, ..old_row };
        let ghost rowm = new_row@;
        self.shaders.insert(i, new_row);
        proof {
            assert(self@ =~= pre@.update(i as int, rowm));
            assert forall|a: int, b: int|
                0 <= a < self@.len() && 0 <= b < self@.len() && a != b implies (
            #[trigger] self@[a]).id != (#[trigger] self@[b]).id by {
                if a == i as int || b == i as int {
                    let o = if a == i as int {
                        b
                    } else {
                        a
                    };
                    assert(pre@[o] == self@[o]);
                }
            }
            lemma_shader_selector(*self, i as int);
            assert forall|t: ShaderModel| t.id != id@ implies (self@.contains(t)
                <==> pre@.contains(t)) by {
                if self@.contains(t) {
                    let k = choose|k: int| 0 <= k < self@.len() && self@[k] == t;
                    assert(k != i);
                    assert(pre@[k] == t);
                }
                if pre@.contains(t) {
                    let k = choose|k: int| 0 <= k < pre@.len() && pre@[k] == t;
                    assert(k != i);
                    assert(self@[k] == t);
                }
            }
        }
        true
    }

    /// Removes the user's shader with this id outright.
    pub fn force_delete_shader(&mut self, id: &String, user_id: u128) -> (r: bool)
        requires
            old(self).wf(),
        ensures
            final(self).wf(),
            r == (old(self).has_shader(id@) && old(self).shader(id@).user_id == user_id as int),
            !r ==> final(self)@ == old(self)@,
            r ==> !final(self).has_shader(id@) && final(self)@.len() == old(self)@.len() - 1,
            r ==> (forall|t: ShaderModel|
                t.id != id@ ==> (final(self)@.contains(t) <==> old(self)@.contains(t))),
    {
        let ghost pre = *self;
        let i = match self.shader_index(id) {
            Some(i) => i,
            None => {
                return false;
            },
        };
        proof {
            lemma_shader_selector(*self, i as int);
        }
        let old_row = self.shaders.remove(i);
        if old_row.user_id != user_id {
            self.shaders.insert(i, old_row);
            proof {
                assert(self@ =~= pre@);
            }
            return false;
        }
        proof {
            assert(self@ =~= pre@.remove(i as int));
            assert forall|k: int|
                0 <= k < self@.len() implies self@[k] == (if k < i as int {
                pre@[k]
            } else {
                pre@[k + 1]
            }) by {}
            assert forall|a: int, b: int|
                0 <= a < self@.len() && 0 <= b < self@.len() && a != b implies (
            #[trigger] self@[a]).id != (#[trigger] self@[b]).id by {}
            if self.has_shader(id@) {
                let k = choose|k: int| 0 <= k < self@.len() && (#[trigger] self@[k]).id == id@;
                let o = if k < i as int {
                    k
                } else {
                    k + 1
                };
                assert(pre@[o].id == id@);
                assert(false);
            }
            assert forall|t: ShaderModel| t.id != id@ implies (self@.contains(t)
                <==> pre@.contains(t)) by {
                if self@.contains(t) {
                    let k = choose|k: int| 0 <= k < self@.len() && self@[k] == t;
                    let o = if k < i as int {
                        k
                    } else {
                        k + 1
                    };
                    assert(pre@[o] == t);
                }
                if pre@.contains(t) {
                    let k = choose|k: int| 0 <= k < pre@.len() && pre@[k] == t;
                    assert(k != i);
                    let o = if k < i as int {
                        k
                    } else {
                        k - 1
                    };
                    assert(self@[o] == t);
                }
            }
        }
        true
    }
}

/// Two shader rows carrying the same id are the same row.
pub proof fn lemma_shader_selector(st: ShaderStore, i: int)
    requires
        st.wf(),
        0 <= i < st@.len(),
    ensures
        st.has_shader(st@[i].id),
        st.shader(st@[i].id) == st@[i],
{
    let id = st@[i].id;
    assert(st.has_shader(id));
    let k = choose|k: int| 0 <= k < st@.len() && (#[trigger] st@[k]).id == id;
    assert(k == i);
}

} // verus!
