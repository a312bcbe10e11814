use wizards::wizard_api::CreateWizardRequest;
use wizards::wizard_service::{
    check, create, delete_by_id, get_all, get_by_id, remove_attachment, save_image,
    update_by_id, ImageUpload, WizardError, WizardStore,
};

fn request(name: &str, title: &str, age: i32) -> CreateWizardRequest {
    CreateWizardRequest { name: name.to_string(), title: title.to_string(), age }
}

fn upload(name: Option<&str>, bytes: &[u8]) -> ImageUpload {
    ImageUpload { file_name: name.map(|n| n.to_string()), bytes: bytes.to_vec() }
}

#[test]
fn create_gandalf_gets_first_id() {
    let mut store = WizardStore::new();
    let w = create(request("Gandalf", "The Grey", 2019), &mut store).unwrap();
    assert_eq!(w.id, Some(1));
    assert_eq!(w.name, "Gandalf");
    assert_eq!(w.title, "The Grey");
    assert_eq!(w.age, 2019);
    assert_eq!(w.image_name, None);
}

#[test]
fn create_assigns_distinct_ids_without_image() {
    let mut store = WizardStore::new();
    let a = create(request("Gandalf", "The Grey", 2019), &mut store).unwrap();
    let b = create(request("Saruman", "The White", 2020), &mut store).unwrap();
    let c = create(request("Radagast", "The Brown", 2018), &mut store).unwrap();
    assert_eq!((a.id, b.id, c.id), (Some(1), Some(2), Some(3)));
    assert!(b.image_name.is_none() && c.image_name.is_none());
}

#[test]
fn delete_on_empty_store_is_not_found() {
    let mut store = WizardStore::new();
    assert!(matches!(delete_by_id(1, &mut store), Err(WizardError::NotFoundError)));
}

#[test]
fn missing_id_is_not_found_everywhere_and_changes_nothing() {
    let mut store = WizardStore::new();
    create(request("Gandalf", "The Grey", 2019), &mut store).unwrap();
    assert!(!check(5, &store));
    assert!(matches!(get_by_id(5, &store), Err(WizardError::NotFoundError)));
    assert!(matches!(
        update_by_id(5, request("X", "Y", 1), &mut store),
        Err(WizardError::NotFoundError)
    ));
    assert!(matches!(delete_by_id(5, &mut store), Err(WizardError::NotFoundError)));
    assert!(matches!(
        save_image(5, &mut store, upload(Some("a.png"), b"DATA"), 1000),
        Err(WizardError::NotFoundError)
    ));
    assert!(matches!(remove_attachment(5, &mut store), Err(WizardError::NotFoundError)));
    let all = get_all(&store);
    assert_eq!(all.len(), 1);
    assert_eq!(all[0].name, "Gandalf");
    assert_eq!(all[0].image_name, None);
    assert!(!store.has_file(&"10005.png".to_string()));
}

#[test]
fn get_all_is_ordered_by_id_after_deletes_and_updates() {
    let mut store = WizardStore::new();
    for (n, a) in [("A", 1), ("B", 2), ("C", 3), ("D", 4)] {
        create(request(n, "t", a), &mut store).unwrap();
    }
    delete_by_id(2, &mut store).unwrap();
    update_by_id(3, request("C2", "t2", 33), &mut store).unwrap();
    create(request("E", "t", 5), &mut store).unwrap();
    let ids: Vec<Option<i32>> = get_all(&store).iter().map(|w| w.id).collect();
    assert_eq!(ids, vec![Some(1), Some(3), Some(4), Some(5)]);
}

#[test]
fn get_all_on_empty_store_is_empty() {
    let store = WizardStore::new();
    assert!(get_all(&store).is_empty());
}

#[test]
fn create_then_get_round_trips() {
    let mut store = WizardStore::new();
    let w = create(request("Gandalf", "The Grey", 2019), &mut store).unwrap();
    let g = get_by_id(w.id.unwrap(), &store).unwrap();
    assert_eq!((g.name.as_str(), g.title.as_str(), g.age), ("Gandalf", "The Grey", 2019));
    assert_eq!(g.id, Some(1));
}

#[test]
fn update_overwrites_fields_and_keeps_image() {
    let mut store = WizardStore::new();
    create(request("Gandalf", "The Grey", 2019), &mut store).unwrap();
    let name = save_image(1, &mut store, upload(Some("wiz.png"), b"PNGDATA"), 1700000000000).unwrap();
    let u = update_by_id(1, request("Gandalf", "The White", 2020), &mut store).unwrap();
    assert_eq!(u.title, "The White");
    assert_eq!(u.age, 2020);
    assert_eq!(u.image_name, Some(name.clone()));
    assert_eq!(get_by_id(1, &store).unwrap().title, "The White");
}

#[test]
fn attach_image_sets_png_name() {
    let mut store = WizardStore::new();
    create(request("Gandalf", "The Grey", 2019), &mut store).unwrap();
    let name = save_image(1, &mut store, upload(Some("wiz.png"), b"PNGDATA"), 1700000000000).unwrap();
    assert!(name.ends_with(".png"));
    assert_eq!(name, "17000000000001.png");
    assert_eq!(get_by_id(1, &store).unwrap().image_name, Some(name.clone()));
    assert_eq!(store.file_bytes(&name).unwrap().as_slice(), b"PNGDATA");
}

#[test]
fn second_attach_removes_first_file() {
    let mut store = WizardStore::new();
    create(request("Gandalf", "The Grey", 2019), &mut store).unwrap();
    let first = save_image(1, &mut store, upload(Some("wiz.png"), b"ONE"), 1000).unwrap();
    let second = save_image(1, &mut store, upload(Some("wiz.jpg"), b"TWO"), 2000).unwrap();
    assert_eq!(first, "10001.png");
    assert_eq!(second, "20001.jpg");
    assert!(!store.has_file(&first));
    assert_eq!(store.file_bytes(&second).unwrap().as_slice(), b"TWO");
    assert_eq!(get_by_id(1, &store).unwrap().image_name, Some(second));
}

#[test]
fn attach_without_file_name_uses_png() {
    let mut store = WizardStore::new();
    create(request("Gandalf", "The Grey", 2019), &mut store).unwrap();
    let name = save_image(1, &mut store, upload(None, b"X"), 42).unwrap();
    assert_eq!(name, "421.png");
}

#[test]
fn remove_attachment_twice_without_image() {
    let mut store = WizardStore::new();
    create(request("Gandalf", "The Grey", 2019), &mut store).unwrap();
    assert!(remove_attachment(1, &mut store).is_ok());
    assert!(remove_attachment(1, &mut store).is_ok());
    assert_eq!(get_by_id(1, &store).unwrap().image_name, None);
}

#[test]
fn remove_attachment_deletes_file_and_clears_reference() {
    let mut store = WizardStore::new();
    create(request("Gandalf", "The Grey", 2019), &mut store).unwrap();
    let name = save_image(1, &mut store, upload(Some("wiz.png"), b"PNGDATA"), 7).unwrap();
    remove_attachment(1, &mut store).unwrap();
    assert!(!store.has_file(&name));
    assert_eq!(get_by_id(1, &store).unwrap().image_name, None);
    assert!(remove_attachment(1, &mut store).is_ok());
}

#[test]
fn delete_reclaims_image_file() {
    let mut store = WizardStore::new();
    create(request("Gandalf", "The Grey", 2019), &mut store).unwrap();
    create(request("Saruman", "The White", 2020), &mut store).unwrap();
    let name = save_image(2, &mut store, upload(Some("s.gif"), b"GIF"), 9).unwrap();
    assert_eq!(name, "92.gif");
    delete_by_id(2, &mut store).unwrap();
    assert!(!store.has_file(&name));
    assert!(matches!(get_by_id(2, &store), Err(WizardError::NotFoundError)));
    assert!(check(1, &store));
}
