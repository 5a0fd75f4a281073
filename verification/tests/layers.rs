use maplibre::layers::LayerSet;
use maplibre::style::{Style, StyleLayer};

fn name(text: &str) -> String {
    text.to_string()
}

fn names_of(set: &LayerSet) -> Vec<String> {
    let mut names = Vec::new();
    for index in 0..set.len() {
        names.push(set.get(index).unwrap().clone());
    }
    names
}

#[test]
fn new_set_is_empty() {
    let set = LayerSet::new();
    assert_eq!(set.len(), 0);
    assert!(set.is_empty());
    assert!(!set.contains(&name("water")));
}

#[test]
fn insert_keeps_each_name_once() {
    let mut set = LayerSet::new();
    assert!(set.insert(name("water")));
    assert!(set.insert(name("roads")));
    assert!(!set.insert(name("water")));
    assert_eq!(set.len(), 2);
    assert!(!set.is_empty());
    assert!(set.contains(&name("water")));
    assert!(set.contains(&name("roads")));
    assert!(!set.contains(&name("road")));
    assert_eq!(names_of(&set), vec![name("water"), name("roads")]);
    assert_eq!(set.get(0), Some(&name("water")));
    assert_eq!(set.get(1), Some(&name("roads")));
    assert_eq!(set.get(2), None);
    assert_eq!(set.get(usize::MAX), None);
}

#[test]
fn from_names_keeps_first_occurrences() {
    let set = LayerSet::from_names(vec![
        name("roads"),
        name("water"),
        name("roads"),
        name("parks"),
        name("water"),
    ]);
    assert_eq!(names_of(&set), vec![name("roads"), name("water"), name("parks")]);
}

#[test]
fn clone_holds_the_same_names() {
    let set = LayerSet::from_names(vec![name("water"), name("roads")]);
    let copy = set.clone();
    assert_eq!(copy, set);
    assert_eq!(names_of(&copy), vec![name("water"), name("roads")]);
}

#[test]
fn style_names_each_source_layer_once() {
    let style = Style::new(vec![
        StyleLayer { id: name("background"), source_layer: None },
        StyleLayer { id: name("rivers"), source_layer: Some(name("water")) },
        StyleLayer { id: name("streets"), source_layer: Some(name("roads")) },
        StyleLayer { id: name("lakes"), source_layer: Some(name("water")) },
        StyleLayer { id: name("sky"), source_layer: None },
    ]);
    let set = style.source_layers();
    assert_eq!(names_of(&set), vec![name("water"), name("roads")]);
}

#[test]
fn style_without_source_layers_names_none() {
    let style = Style::new(vec![StyleLayer { id: name("background"), source_layer: None }]);
    assert!(style.source_layers().is_empty());
    assert!(Style::new(Vec::new()).source_layers().is_empty());
}

#[test]
fn sets_with_the_same_names_are_equal() {
    let one = LayerSet::from_names(vec![name("water"), name("roads")]);
    let other = LayerSet::from_names(vec![name("roads"), name("water"), name("roads")]);
    assert_eq!(one, other);
    assert_eq!(other, one);
    assert_eq!(LayerSet::new(), LayerSet::from_names(Vec::new()));
    assert_ne!(one, LayerSet::from_names(vec![name("water")]));
    assert_ne!(one, LayerSet::from_names(vec![name("water"), name("parks")]));
    assert_ne!(one, LayerSet::from_names(vec![name("water"), name("roads"), name("parks")]));
    assert_ne!(LayerSet::new(), one);
}
