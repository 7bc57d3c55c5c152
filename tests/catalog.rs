use mvdup::database::DataBase;
use mvdup::error::DataStoreError;

fn row(name: &str, hash: &str) -> (String, String) {
    (name.to_string(), hash.to_string())
}

#[test]
fn new_catalog_is_empty() {
    let db = DataBase::new();
    assert_eq!(db.len(), 0);
    assert!(db.read_all().is_empty());
}

#[test]
fn add_then_lookup() {
    let mut db = DataBase::new();
    assert_eq!(db.is_duplicated("h1"), (false, String::new()));
    assert_eq!(db.add("h1".to_string(), "h1.txt".to_string()), Ok(()));
    assert_eq!(db.is_duplicated("h1"), (true, "h1.txt".to_string()));
    assert_eq!(db.is_duplicated("h2"), (false, String::new()));
    assert_eq!(db.len(), 1);
}

#[test]
fn add_existing_hash_is_conflict() {
    let mut db = DataBase::new();
    db.add("h1".to_string(), "h1.txt".to_string()).unwrap();
    let r = db.add("h1".to_string(), "other.txt".to_string());
    assert_eq!(r, Err(DataStoreError::Conflict("h1".to_string())));
    assert_eq!(db.read_all(), vec![row("h1.txt", "h1")]);
}

#[test]
fn rename_existing_and_missing() {
    let mut db = DataBase::new();
    db.add("h1".to_string(), "h1.txt".to_string()).unwrap();
    db.add("h2".to_string(), "h2.png".to_string()).unwrap();
    assert_eq!(db.rename("h2".to_string(), "holiday.png".to_string()), Ok(()));
    assert_eq!(db.read_all(), vec![row("h1.txt", "h1"), row("holiday.png", "h2")]);
    assert_eq!(
        db.rename("h3".to_string(), "x".to_string()),
        Err(DataStoreError::NotFound("h3".to_string()))
    );
    assert_eq!(db.read_all(), vec![row("h1.txt", "h1"), row("holiday.png", "h2")]);
}

#[test]
fn read_all_keeps_catalog_order() {
    let mut db = DataBase::new();
    db.add("b".to_string(), "b.txt".to_string()).unwrap();
    db.add("a".to_string(), "a.txt".to_string()).unwrap();
    assert_eq!(db.read_all(), vec![row("b.txt", "b"), row("a.txt", "a")]);
}

#[test]
fn from_rows_loads_and_rejects_repeated_hash() {
    let rows = vec![row("x.txt", "hx"), row("y.txt", "hy")];
    let db = DataBase::from_rows(&rows).unwrap();
    assert_eq!(db.read_all(), rows);
    let bad = vec![row("x.txt", "hx"), row("y.txt", "hx")];
    assert!(matches!(DataBase::from_rows(&bad), Err(DataStoreError::Schema(_))));
}

#[test]
fn find_by_name_part_or_hash_prefix() {
    let mut db = DataBase::new();
    db.add("abc111".to_string(), "abc111.txt".to_string()).unwrap();
    db.add("def222".to_string(), "holiday.jpg".to_string()).unwrap();
    db.add("fed333".to_string(), "notes.md".to_string()).unwrap();
    assert_eq!(db.find("holi"), vec![row("holiday.jpg", "def222")]);
    assert_eq!(db.find("fed"), vec![row("notes.md", "fed333")]);
    assert_eq!(db.find("abc"), vec![row("abc111.txt", "abc111")]);
    assert_eq!(db.find("222"), Vec::<(String, String)>::new());
    assert_eq!(db.find("zzz"), Vec::<(String, String)>::new());
    assert_eq!(db.find("").len(), 3);
}

#[test]
fn find_is_case_sensitive_and_literal() {
    let mut db = DataBase::new();
    db.add("abc".to_string(), "Photo_1.jpg".to_string()).unwrap();
    assert_eq!(db.find("photo").len(), 0);
    assert_eq!(db.find("%").len(), 0);
    assert_eq!(db.find("o_1").len(), 1);
}

#[test]
fn search_finds_every_name_part_and_hash_prefix() {
    let mut db = DataBase::new();
    let hash = "2cf24dba5fb0a30e26e83b2ac5b9e29e1b161e5c1fa7425e73043362938b9824";
    let name = format!("{hash}.txt");
    db.add("0000".to_string(), "other.bin".to_string()).unwrap();
    db.add(hash.to_string(), name.clone()).unwrap();
    let entry = (name.clone(), hash.to_string());
    for i in 0..=name.len() {
        for j in i..=name.len() {
            assert!(db.find(&name[i..j]).contains(&entry));
        }
    }
    for k in 1..=hash.len() {
        assert!(db.find(&hash[..k]).contains(&entry));
    }
}
