use buguc::symbols::{SymTab, Symbol};

#[test]
fn put_then_get_gives_the_symbol() {
    let mut t = SymTab::init();
    t.put(vec![1, 2], "x".to_string(), Symbol::new("x".to_string()));
    assert!(t.contains(&vec![1, 2], &"x".to_string()));
    let s = t.get(&vec![1, 2], &"x".to_string());
    assert_eq!(s.name, "x");
    assert_eq!(s.reg, None);
    assert!(!s.alloc_virtual_reg);
    assert!(!s.alloc_phy_reg);
    assert!(s.array_range.is_empty());
}

#[test]
fn entry_is_none_for_an_unknown_variable() {
    let mut t = SymTab::init();
    t.put(vec![1, 2], "x".to_string(), Symbol::new("x".to_string()));
    assert!(t.entry(&vec![1], &"x".to_string()).is_none());
    assert!(t.entry(&vec![1, 2], &"y".to_string()).is_none());
    assert!(t.entry(&vec![1, 2], &"x".to_string()).is_some());
}

#[test]
fn put_replaces_what_was_there() {
    let mut t = SymTab::init();
    t.put(vec![1], "x".to_string(), Symbol::new("x".to_string()));
    let mut s = Symbol::new("x".to_string());
    s.reg = Some("t3".to_string());
    t.put(vec![1], "x".to_string(), s);
    assert_eq!(t.get(&vec![1], &"x".to_string()).reg, Some("t3".to_string()));
}

#[test]
fn set_reg_records_the_register_and_flags() {
    let mut t = SymTab::init();
    t.put(vec![1, 2], "x".to_string(), Symbol::new("x".to_string()));
    t.set_reg(&vec![1, 2], &"x".to_string(), "v3".to_string(), true, false);
    let s = t.get(&vec![1, 2], &"x".to_string());
    assert_eq!(s.reg, Some("v3".to_string()));
    assert!(s.alloc_virtual_reg);
    assert!(!s.alloc_phy_reg);
}

#[test]
fn extis_finds_the_innermost_declaring_scope() {
    let mut t = SymTab::init();
    t.put(vec![1], "g".to_string(), Symbol::new("g".to_string()));
    t.put(vec![1, 2], "x".to_string(), Symbol::new("x".to_string()));
    t.put(vec![1, 2, 3], "x".to_string(), Symbol::new("x".to_string()));
    assert_eq!(t.extis(&vec![1, 2, 3], &"x".to_string()), (true, vec![1, 2, 3]));
    assert_eq!(t.extis(&vec![1, 2], &"x".to_string()), (true, vec![1, 2]));
    assert_eq!(t.extis(&vec![1, 2, 3], &"g".to_string()), (true, vec![1]));
    assert_eq!(t.extis(&vec![1, 2, 3], &"y".to_string()).0, false);
}

#[test]
fn extis_finds_a_variable_in_the_scope_it_was_put_in() {
    let mut t = SymTab::init();
    t.put(vec![4, 5], "v".to_string(), Symbol::new("v".to_string()));
    assert_eq!(t.extis(&vec![4, 5], &"v".to_string()), (true, vec![4, 5]));
}

#[test]
fn copy_keeps_every_entry() {
    let mut t = SymTab::init();
    t.put(vec![1], "a".to_string(), Symbol::new("a".to_string()));
    t.put(vec![1, 2], "b".to_string(), Symbol::new("b".to_string()));
    let c = t.copy();
    assert!(c.contains(&vec![1], &"a".to_string()));
    assert!(c.contains(&vec![1, 2], &"b".to_string()));
    assert!(!c.contains(&vec![1, 2], &"a".to_string()));
}
