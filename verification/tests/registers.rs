use buguc::regeister::{ArgTunnel, Regeister, VirtualRegeister};

#[test]
fn physical_registers_come_out_t0_first() {
    let mut r = Regeister::init();
    assert_eq!(r.eat(), "t0");
    assert_eq!(r.eat(), "t1");
    assert_eq!(r.eat(), "t2");
}

#[test]
fn physical_pool_holds_ten_registers() {
    let mut r = Regeister::init();
    let mut names = Vec::new();
    while r.has_free() {
        names.push(r.eat());
    }
    assert_eq!(names, vec!["t0", "t1", "t2", "t3", "t4", "t5", "t6", "t7", "t8", "t9"]);
}

#[test]
fn eat_then_near_gives_the_same_register() {
    let mut r = Regeister::init();
    let a = r.eat();
    let b = r.eat();
    assert_eq!(r.near(), b);
    assert_eq!(r.near(), a);
    assert!(!r.has_near());
}

#[test]
fn put_near_then_near_gives_it_back() {
    let mut r = Regeister::init();
    r.put_near("s1".to_string());
    assert!(r.has_near());
    assert_eq!(r.near(), "s1");
    assert!(!r.has_near());
}

#[test]
fn virtual_registers_are_numbered_from_zero() {
    let mut v = VirtualRegeister::init();
    assert_eq!(v.eat(), "v0");
    assert_eq!(v.eat(), "v1");
    assert_eq!(v.near(), "v1");
    v.put_near("v7".to_string());
    assert_eq!(v.near(), "v7");
    assert_eq!(v.near(), "v0");
    assert!(!v.has_near());
}

#[test]
fn virtual_registers_are_never_repeated() {
    let mut v = VirtualRegeister::init();
    let mut names = Vec::new();
    for _ in 0..25 {
        names.push(v.eat());
    }
    for i in 0..names.len() {
        for j in 0..i {
            assert_ne!(names[i], names[j]);
        }
    }
    assert_eq!(names[24], "v24");
}

#[test]
fn argument_registers_follow_parameter_order() {
    let mut t = ArgTunnel::init();
    let f = "gcd".to_string();
    assert_eq!(t.set_arg(&f), "a0");
    assert_eq!(t.set_arg(&f), "a1");
    assert_eq!(t.get_arg(&f), "a0");
    assert!(!t.is_match(&f));
    assert_eq!(t.get_arg(&f), "a0");
    assert_eq!(t.get_arg(&f), "a1");
    assert!(t.is_match(&f));
}

#[test]
fn argument_registers_are_kept_per_function() {
    let mut t = ArgTunnel::init();
    let f = "f".to_string();
    let g = "g".to_string();
    assert_eq!(t.set_arg(&f), "a0");
    assert_eq!(t.set_arg(&g), "a0");
    assert_eq!(t.set_arg(&f), "a1");
    assert!(t.is_match(&g) == false);
    assert_eq!(t.get_arg(&g), "a0");
    assert!(t.is_match(&g));
}
