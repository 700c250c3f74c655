use session_auth::shaders::{AccessLevel, NewShaderData, ShaderData, ShaderStore, UpdateShaderData};

fn new_shader(name: &str, description: &str, code: &str) -> NewShaderData {
    NewShaderData {
        name: name.to_string(),
        description: description.to_string(),
        data: ShaderData { code: code.to_string() },
    }
}

fn no_update() -> UpdateShaderData {
    UpdateShaderData { name: None, description: None, data: None, access: None, tags: None }
}

const OWNER: u128 = 11;
const STRANGER: u128 = 22;

#[test]
fn added_shader_carries_the_submission() {
    let mut store = ShaderStore::new();
    let shader = store.add_shader(OWNER, new_shader("waves", "sea water", "void main() {}"), 500)
        .unwrap();
    assert_eq!(shader.id.len(), 6);
    assert_eq!(shader.user_id, OWNER);
    assert_eq!(shader.name, "waves");
    assert_eq!(shader.description, "sea water");
    assert_eq!(shader.data.code, "void main() {}");
    assert!(matches!(shader.access, AccessLevel::Private));
    assert_eq!(shader.tags, "[]");
    assert_eq!(shader.created_at, 500);
    assert_eq!(shader.updated_at, 500);
    assert!(!shader.deleted);
}

#[test]
fn fresh_ids_do_not_collide() {
    let mut store = ShaderStore::new();
    let a = store.add_shader(OWNER, new_shader("a", "", ""), 0).unwrap();
    let b = store.add_shader(OWNER, new_shader("b", "", ""), 0).unwrap();
    assert_ne!(a.id, b.id);
}

#[test]
fn only_the_owner_reads_a_shader() {
    let mut store = ShaderStore::new();
    let shader = store.add_shader(OWNER, new_shader("mine", "", "x"), 0).unwrap();
    assert!(store.get_shader_by_id(&shader.id, OWNER).is_some());
    assert!(store.get_shader_by_id(&shader.id, STRANGER).is_none());
    assert!(store.get_shader_by_id(&"zzzzzz".to_string(), OWNER).is_none());
}

#[test]
fn partial_update_changes_only_the_present_fields() {
    let mut store = ShaderStore::new();
    let shader = store.add_shader(OWNER, new_shader("old name", "old desc", "old code"), 7)
        .unwrap();
    let update = UpdateShaderData { name: Some("new name".to_string()), ..no_update() };
    let updated = store.update_shader(&shader.id, OWNER, update).unwrap();
    assert_eq!(updated.name, "new name");
    assert_eq!(updated.description, "old desc");
    assert_eq!(updated.data.code, "old code");
    assert_eq!(updated.created_at, 7);
    let read_back = store.get_shader_by_id(&shader.id, OWNER).unwrap();
    assert_eq!(read_back.name, "new name");
    assert_eq!(read_back.description, "old desc");
}

#[test]
fn empty_update_returns_the_row_unchanged() {
    let mut store = ShaderStore::new();
    let shader = store.add_shader(OWNER, new_shader("same", "d", "c"), 1).unwrap();
    let unchanged = store.update_shader(&shader.id, OWNER, no_update()).unwrap();
    assert_eq!(unchanged.name, "same");
    assert_eq!(unchanged.description, "d");
    assert_eq!(unchanged.data.code, "c");
}

#[test]
fn strangers_and_deleted_rows_cannot_be_updated() {
    let mut store = ShaderStore::new();
    let shader = store.add_shader(OWNER, new_shader("n", "d", "c"), 0).unwrap();
    let foreign = UpdateShaderData { name: Some("hijack".to_string()), ..no_update() };
    assert!(store.update_shader(&shader.id, STRANGER, foreign).is_none());
    assert!(store.delete_shader(&shader.id, OWNER));
    let late = UpdateShaderData { name: Some("late".to_string()), ..no_update() };
    assert!(store.update_shader(&shader.id, OWNER, late).is_none());
    assert_eq!(store.get_my_deleted_shaders(OWNER).len(), 1);
}

#[test]
fn public_listing_shows_only_live_public_shaders() {
    let mut store = ShaderStore::new();
    let public = store.add_shader(OWNER, new_shader("public one", "", ""), 0).unwrap();
    let update = UpdateShaderData { access: Some(AccessLevel::Public), ..no_update() };
    store.update_shader(&public.id, OWNER, update).unwrap();
    store.add_shader(OWNER, new_shader("private one", "", ""), 0).unwrap();
    let unlisted = store.add_shader(STRANGER, new_shader("unlisted one", "", ""), 0).unwrap();
    let to_unlisted = UpdateShaderData { access: Some(AccessLevel::Unlisted), ..no_update() };
    store.update_shader(&unlisted.id, STRANGER, to_unlisted).unwrap();
    let gone = store.add_shader(OWNER, new_shader("deleted public", "", ""), 0).unwrap();
    let to_public = UpdateShaderData { access: Some(AccessLevel::Public), ..no_update() };
    store.update_shader(&gone.id, OWNER, to_public).unwrap();
    store.delete_shader(&gone.id, OWNER);

    let listed = store.get_shaders();
    assert_eq!(listed.len(), 1);
    assert_eq!(listed[0].name, "public one");
}

#[test]
fn my_shaders_and_archive_split_by_deletion() {
    let mut store = ShaderStore::new();
    let keep = store.add_shader(OWNER, new_shader("keep", "", ""), 0).unwrap();
    let drop = store.add_shader(OWNER, new_shader("drop", "", ""), 0).unwrap();
    store.add_shader(STRANGER, new_shader("other", "", ""), 0).unwrap();
    assert!(store.delete_shader(&drop.id, OWNER));

    let mine = store.get_my_shaders(OWNER);
    assert_eq!(mine.len(), 1);
    assert_eq!(mine[0].id, keep.id);

    let archive = store.get_my_deleted_shaders(OWNER);
    assert_eq!(archive.len(), 1);
    assert_eq!(archive[0].id, drop.id);
}

#[test]
fn restore_brings_a_shader_back() {
    let mut store = ShaderStore::new();
    let shader = store.add_shader(OWNER, new_shader("cycled", "", ""), 0).unwrap();
    assert!(store.delete_shader(&shader.id, OWNER));
    assert!(store.get_shader_by_id(&shader.id, OWNER).is_none());
    assert!(store.restore_shader(&shader.id, OWNER));
    let back = store.get_shader_by_id(&shader.id, OWNER).unwrap();
    assert_eq!(back.name, "cycled");
    assert!(store.get_my_deleted_shaders(OWNER).is_empty());
}

#[test]
fn strangers_cannot_delete_or_restore() {
    let mut store = ShaderStore::new();
    let shader = store.add_shader(OWNER, new_shader("guarded", "", ""), 0).unwrap();
    assert!(!store.delete_shader(&shader.id, STRANGER));
    assert!(store.get_shader_by_id(&shader.id, OWNER).is_some());
    assert!(!store.force_delete_shader(&shader.id, STRANGER));
    assert!(store.get_shader_by_id(&shader.id, OWNER).is_some());
}

#[test]
fn force_delete_removes_the_row_for_good() {
    let mut store = ShaderStore::new();
    let shader = store.add_shader(OWNER, new_shader("doomed", "", ""), 0).unwrap();
    assert!(store.force_delete_shader(&shader.id, OWNER));
    assert!(store.get_shader_by_id(&shader.id, OWNER).is_none());
    assert!(store.get_my_shaders(OWNER).is_empty());
    assert!(store.get_my_deleted_shaders(OWNER).is_empty());
    assert!(!store.restore_shader(&shader.id, OWNER));
}
