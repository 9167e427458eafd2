use image_editor_core::favorites::{BrushFavorites, SavedBrush};

fn names(f: &BrushFavorites<u32>) -> Vec<String> {
    f.brushes.iter().map(|b| b.name.clone()).collect()
}

#[test]
fn saving_a_new_name_appends() {
    let mut f = BrushFavorites::new();
    f.save_brush("Ink".to_string(), 1u32);
    f.save_brush("Chalk".to_string(), 2u32);
    assert_eq!(names(&f), vec!["Ink", "Chalk"]);
    assert_eq!(f.get(1), Some(&2));
}

#[test]
fn saving_an_existing_name_replaces_in_place() {
    let mut f = BrushFavorites::new();
    f.save_brush("Ink".to_string(), 1u32);
    f.save_brush("Chalk".to_string(), 2u32);
    f.save_brush("Ink".to_string(), 7u32);
    assert_eq!(names(&f), vec!["Ink", "Chalk"]);
    assert_eq!(f.get(0), Some(&7));
    assert_eq!(f.find(&"Chalk".to_string()), Some(1));
    assert_eq!(f.find(&"Pastel".to_string()), None);
}

#[test]
fn importing_merges_by_name() {
    let mut f = BrushFavorites::new();
    f.save_brush("Ink".to_string(), 1u32);
    f.import(vec![
        SavedBrush { name: "Chalk".to_string(), settings: 2u32 },
        SavedBrush { name: "Ink".to_string(), settings: 3u32 },
        SavedBrush { name: "Chalk".to_string(), settings: 4u32 },
    ]);
    assert_eq!(names(&f), vec!["Ink", "Chalk"]);
    assert_eq!(f.get(0), Some(&3));
    assert_eq!(f.get(1), Some(&4));
    assert_eq!(f.get(2), None);
}

#[test]
fn removing_a_brush() {
    let mut f = BrushFavorites::new();
    f.save_brush("Ink".to_string(), 1u32);
    f.save_brush("Chalk".to_string(), 2u32);
    f.remove(0);
    assert_eq!(names(&f), vec!["Chalk"]);
}
