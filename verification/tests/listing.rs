use kitbash_watch::listing::{list_matching, name_precedes};

fn names(list: &[&str]) -> Vec<String> {
    list.iter().map(|name| name.to_string()).collect()
}

#[test]
fn listing_is_filtered_and_sorted() {
    let found = names(&["b.obj", "notes.txt", "a.obj", "c.OBJ", "a.obj.bak", "B.obj", "10.obj", "9.obj"]);
    assert_eq!(
        list_matching(&found, ".obj"),
        names(&["10.obj", "9.obj", "B.obj", "a.obj", "b.obj"])
    );
}

#[test]
fn listing_of_nothing_is_empty() {
    assert_eq!(list_matching(&Vec::new(), ".obj"), Vec::<String>::new());
    assert_eq!(list_matching(&names(&["a.txt", "obj"]), ".obj"), Vec::<String>::new());
}

#[test]
fn listing_keeps_repeated_names() {
    assert_eq!(
        list_matching(&names(&["b.obj", "a.obj", "b.obj"]), ".obj"),
        names(&["a.obj", "b.obj", "b.obj"])
    );
}

#[test]
fn listing_agrees_with_the_standard_sort() {
    let found = names(&[
        "zeta.obj", "Zeta.obj", "é.obj", "e.obj", "ab.obj", "a.obj", "abc.obj", ".obj", "a b.obj",
        "_.obj", "~.obj", "日本.obj", "x.mtl", "ñ.obj", "Ω.obj", "a.obj",
    ]);
    let mut expected: Vec<String> =
        found.iter().filter(|name| name.ends_with(".obj")).cloned().collect();
    expected.sort();
    assert_eq!(list_matching(&found, ".obj"), expected);
}

#[test]
fn name_order_is_the_order_of_strings() {
    let samples = ["", "a", "A", "ab", "b", "a.obj", "é", "e", "日本", "z", "~", "aa", "a\u{0}"];
    for a in samples {
        for b in samples {
            assert_eq!(name_precedes(a, b), a <= b);
        }
    }
}
